use vstd::prelude::*;

use crate::state::State;
use crate::types::{meta_of_note, Note, NoteError, NoteMetadata, NoteMetadataModel, NoteModel, NoteType};

verus! {

/// The bytes stored for a note of the given format: Markdown content is
/// normalized to end with exactly one trailing newline when nonempty; a
/// drawing document is stored unchanged.
pub open spec fn spec_normalized(t: NoteType, c: Seq<u8>) -> Seq<u8> {
    if t is Markdown && c.len() > 0 && c.last() != 10 {
        c.push(10)
    } else {
        c
    }
}

/// Normalization is idempotent: stored bytes are stored again unchanged.
pub proof fn lemma_normalized_idempotent(t: NoteType, c: Seq<u8>)
    ensures
        spec_normalized(t, spec_normalized(t, c)) == spec_normalized(t, c),
{
}

impl State {
    /// The content a note materializes with: the stored blob, or empty
    /// bytes when the note or its blob is missing (a best-effort read).
    pub open spec fn spec_content(self, id: Seq<char>) -> Seq<u8> {
        if self.notes@.contains_key(id) && self.contents@.contains_key(id) {
            self.contents@[id]
        } else {
            Seq::empty()
        }
    }

    /// The note materialized from the given metadata in this store.
    pub open spec fn spec_full_note(self, m: NoteMetadataModel) -> NoteModel {
        NoteModel {
            id: m.id,
            name: m.name,
            folder_id: m.folder_id,
            note_type: m.note_type,
            content: self.spec_content(m.id),
            is_public: m.is_public,
            collaborators: m.collaborators,
        }
    }

    /// The file extension for a note's content blob, by format.
    pub fn get_note_extension(note_type: &NoteType) -> (r: &'static str)
        ensures
            note_type is Markdown ==> r@ == "md"@,
            note_type is Tldraw ==> r@ == "json"@,
    {
        match note_type {
            NoteType::Markdown => "md",
            NoteType::Tldraw => "json",
        }
    }

    /// Store a note's content blob, normalized by format. Fails only when
    /// no note with this identifier exists.
    pub fn save_note_content(&mut self, note_id: &String, content: &Vec<u8>) -> (r: Result<
        (),
        NoteError,
    >)
        requires
            old(self).wf(),
        ensures
            final(self).wf(),
            final(self).drive == old(self).drive,
            final(self).folders == old(self).folders,
            final(self).notes == old(self).notes,
            final(self).root_items == old(self).root_items,
            final(self).collaboration_invites == old(self).collaboration_invites,
            if old(self).notes@.contains_key(note_id@) {
                r == Ok::<(), NoteError>(()) && final(self).contents@ =~= old(
                    self,
                ).contents@.insert(
                    note_id@,
                    spec_normalized(old(self).notes@[note_id@].note_type, content@),
                )
            } else {
                r == Err::<(), NoteError>(NoteError::NoteNotFound) && *final(self) == *old(self)
            },
    {
        let note_type = match self.notes.get(note_id) {
            Some(m) => m.note_type,
            None => {
                return Err(NoteError::NoteNotFound);
            },
        };
        let mut data = crate::types::clone_byte_vec(content);
        if note_type == NoteType::Markdown && data.len() > 0 && data[data.len() - 1] != 10u8 {
            data.push(10u8);
        }
        proof {
            assert(data@ =~= spec_normalized(self.notes@[note_id@].note_type, content@));
        }
        self.contents.insert(note_id.clone(), data);
        Ok(())
    }

    /// Load a note's stored content blob. Fails when the note does not
    /// exist, or when no blob is stored for it.
    pub fn load_note_content(&self, note_id: &String) -> (r: Result<Vec<u8>, NoteError>)
        requires
            self.wf(),
        ensures
            match r {
                Ok(v) => self.notes@.contains_key(note_id@) && self.contents@.contains_key(note_id@)
                    && v@ == self.contents@[note_id@],
                Err(e) => {
                    &&& !(self.notes@.contains_key(note_id@) && self.contents@.contains_key(
                        note_id@,
                    ))
                    &&& e == if self.notes@.contains_key(note_id@) {
                        NoteError::ContentNotFound
                    } else {
                        NoteError::NoteNotFound
                    }
                },
            },
    {
        if !self.notes.contains_key(note_id) {
            return Err(NoteError::NoteNotFound);
        }
        match self.contents.get(note_id) {
            Some(v) => Ok(crate::types::clone_byte_vec(v)),
            None => Err(NoteError::ContentNotFound),
        }
    }

    /// Materialize a full note from metadata, joining in its stored
    /// content; a missing blob degrades to empty content.
    pub fn get_full_note(&self, metadata: &NoteMetadata) -> (r: Note)
        requires
            self.wf(),
        ensures
            r@ == self.spec_full_note(metadata@),
    {
        let content: Vec<u8> = match self.load_note_content(&metadata.id) {
            Ok(v) => v,
            Err(_) => Vec::new(),
        };
        Note {
            id: metadata.id.clone(),
            name: metadata.name.clone(),
            folder_id: crate::types::clone_opt_string(&metadata.folder_id),
            note_type: metadata.note_type,
            content,
            is_public: metadata.is_public,
            collaborators: crate::types::clone_string_vec(&metadata.collaborators),
        }
    }
}

} // verus!
