use vstd::prelude::*;

use crate::content::spec_normalized;
use crate::state::State;
use crate::types::{
    contains_string, Note, NoteError, NoteMetadata, NoteMetadataModel, NoteModel, NoteType,
    opt_view,
};

verus! {

/// The view of an optional borrowed identifier (a request's source node).
pub open spec fn opt_ref_view(o: Option<&String>) -> Option<Seq<char>> {
    match o {
        Some(s) => Some(s@),
        None => None,
    }
}

/// An actor may read and write a note when it is the owning node itself or
/// a listed collaborator. (Public visibility additionally grants read-only
/// access, handled separately.)
pub open spec fn spec_authorized(
    source: Option<Seq<char>>,
    our_node: Seq<char>,
    m: NoteMetadataModel,
) -> bool {
    source matches Some(s) && (s == our_node || m.collaborators.contains(s))
}

/// A note as seen through the public access path: the folder placement and
/// the collaborator list are stripped.
pub open spec fn spec_redacted(n: NoteModel) -> NoteModel {
    NoteModel { folder_id: None, collaborators: Seq::empty(), ..n }
}

impl State {
    /// Create a note with empty content in the given folder (or at the
    /// root), with a caller-supplied fresh identifier.
    pub fn create_note(
        &mut self,
        id: String,
        name: String,
        folder_id: Option<String>,
        note_type: NoteType,
    ) -> (r: Result<Note, NoteError>)
        requires
            old(self).wf(),
            !old(self).spec_has_id(id@),
        ensures
            final(self).wf(),
            final(self).drive == old(self).drive,
            final(self).folders == old(self).folders,
            final(self).collaboration_invites == old(self).collaboration_invites,
            if old(self).spec_parent_ok(opt_view(folder_id)) {
                match r {
                    Ok(n) => {
                        &&& n@ == (NoteModel {
                            id: id@,
                            name: name@,
                            folder_id: opt_view(folder_id),
                            note_type,
                            content: Seq::empty(),
                            is_public: false,
                            collaborators: Seq::empty(),
                        })
                        &&& final(self).notes@ =~= old(self).notes@.insert(
                            id@,
                            crate::types::meta_of_note(n@),
                        )
                        &&& final(self).contents@ =~= old(self).contents@.insert(id@, Seq::empty())
                        &&& final(self).root_items@ =~= if folder_id is None {
                            old(self).root_items@.insert(id@)
                        } else {
                            old(self).root_items@
                        }
                    },
                    Err(_) => false,
                }
            } else {
                r == Err::<Note, NoteError>(NoteError::ParentNotFound) && *final(self) == *old(
                    self,
                )
            },
    {
        if let Some(f) = &folder_id {
            if !self.folders.contains_key(f) {
                return Err(NoteError::ParentNotFound);
            }
        }
        let metadata = NoteMetadata {
            id: id.clone(),
            name: name.clone(),
            folder_id: crate::types::clone_opt_string(&folder_id),
            note_type,
            is_public: false,
            collaborators: Vec::new(),
        };
        let at_root = metadata.folder_id.is_none();
        self.notes.insert(id.clone(), metadata);
        if at_root {
            self.root_items.insert(id.clone());
        }
        let empty: Vec<u8> = Vec::new();
        match self.save_note_content(&id, &empty) {
            Ok(()) => {},
            Err(_) => {
                proof {
                    assert(false);
                }
            },
        }
        let note = Note {
            id,
            name,
            folder_id,
            note_type,
            content: Vec::new(),
            is_public: false,
            collaborators: Vec::new(),
        };
        proof {
            assert(note@.collaborators =~= Seq::<Seq<char>>::empty());
            assert(note@.content =~= Seq::<u8>::empty());
        }
        Ok(note)
    }

    /// Replace a note's name, leaving everything else unchanged, and return
    /// the materialized note.
    pub fn rename_note(&mut self, id: &String, new_name: String) -> (r: Result<Note, NoteError>)
        requires
            old(self).wf(),
        ensures
            final(self).wf(),
            final(self).drive == old(self).drive,
            final(self).folders == old(self).folders,
            final(self).root_items == old(self).root_items,
            final(self).collaboration_invites == old(self).collaboration_invites,
            final(self).contents == old(self).contents,
            if old(self).notes@.contains_key(id@) {
                match r {
                    Ok(n) => {
                        &&& n@ == old(self).spec_full_note(
                            NoteMetadataModel { name: new_name@, ..old(self).notes@[id@] },
                        )
                        &&& final(self).notes@ =~= old(self).notes@.insert(
                            id@,
                            NoteMetadataModel { name: new_name@, ..old(self).notes@[id@] },
                        )
                    },
                    Err(_) => false,
                }
            } else {
                r == Err::<Note, NoteError>(NoteError::NoteNotFound) && *final(self) == *old(self)
            },
    {
        match self.notes.get(id) {
            Some(found) => {
                let mut metadata = found.clone();
                metadata.name = new_name;
                self.notes.insert(id.clone(), metadata.clone());
                Ok(self.get_full_note(&metadata))
            },
            None => Err(NoteError::NoteNotFound),
        }
    }

    /// Move a note into another folder (or to the root), and return the
    /// materialized note. The destination folder is validated first.
    pub fn move_note(&mut self, id: &String, new_folder_id: Option<String>) -> (r: Result<
        Note,
        NoteError,
    >)
        requires
            old(self).wf(),
        ensures
            final(self).wf(),
            final(self).drive == old(self).drive,
            final(self).folders == old(self).folders,
            final(self).collaboration_invites == old(self).collaboration_invites,
            final(self).contents == old(self).contents,
            if !old(self).spec_parent_ok(opt_view(new_folder_id)) {
                r == Err::<Note, NoteError>(NoteError::ParentNotFound) && *final(self) == *old(
                    self,
                )
            } else if !old(self).notes@.contains_key(id@) {
                r == Err::<Note, NoteError>(NoteError::NoteNotFound) && *final(self) == *old(self)
            } else {
                match r {
                    Ok(n) => {
                        &&& n@ == old(self).spec_full_note(
                            NoteMetadataModel {
                                folder_id: opt_view(new_folder_id),
                                ..old(self).notes@[id@]
                            },
                        )
                        &&& final(self).notes@ =~= old(self).notes@.insert(
                            id@,
                            NoteMetadataModel {
                                folder_id: opt_view(new_folder_id),
                                ..old(self).notes@[id@]
                            },
                        )
                        &&& final(self).root_items@ =~= if opt_view(new_folder_id) is None {
                            old(self).root_items@.insert(id@)
                        } else {
                            old(self).root_items@.remove(id@)
                        }
                    },
                    Err(_) => false,
                }
            },
    {
        if let Some(f) = &new_folder_id {
            if !self.folders.contains_key(f) {
                return Err(NoteError::ParentNotFound);
            }
        }
        match self.notes.get(id) {
            Some(found) => {
                let mut metadata = found.clone();
                if metadata.folder_id.is_none() {
                    self.root_items.remove(id);
                }
                if new_folder_id.is_none() {
                    self.root_items.insert(id.clone());
                }
                metadata.folder_id = new_folder_id;
                self.notes.insert(id.clone(), metadata.clone());
                Ok(self.get_full_note(&metadata))
            },
            None => Err(NoteError::NoteNotFound),
        }
    }

    /// Delete a note, its root-set membership, and its stored content.
    pub fn delete_note(&mut self, id: &String) -> (r: Result<(), NoteError>)
        requires
            old(self).wf(),
        ensures
            final(self).wf(),
            final(self).drive == old(self).drive,
            final(self).folders == old(self).folders,
            final(self).collaboration_invites == old(self).collaboration_invites,
            if old(self).notes@.contains_key(id@) {
                &&& r == Ok::<(), NoteError>(())
                &&& final(self).notes@ =~= old(self).notes@.remove(id@)
                &&& final(self).contents@ =~= old(self).contents@.remove(id@)
                &&& final(self).root_items@ =~= old(self).root_items@.remove(id@)
            } else {
                r == Err::<(), NoteError>(NoteError::NoteNotFound) && *final(self) == *old(self)
            },
    {
        match self.notes.remove(id) {
            Some(_) => {
                self.root_items.remove(id);
                let removed = self.contents.remove(id);
                proof {
                    if removed is None {
                        assert(old(self).contents@.remove(id@) =~= old(self).contents@);
                    }
                }
                Ok(())
            },
            None => Err(NoteError::NoteNotFound),
        }
    }

    /// Set or clear a note's public flag, and return the materialized note.
    pub fn set_note_public(&mut self, id: &String, is_public: bool) -> (r: Result<
        Note,
        NoteError,
    >)
        requires
            old(self).wf(),
        ensures
            final(self).wf(),
            final(self).drive == old(self).drive,
            final(self).folders == old(self).folders,
            final(self).root_items == old(self).root_items,
            final(self).collaboration_invites == old(self).collaboration_invites,
            final(self).contents == old(self).contents,
            if old(self).notes@.contains_key(id@) {
                match r {
                    Ok(n) => {
                        &&& n@ == old(self).spec_full_note(
                            NoteMetadataModel { is_public, ..old(self).notes@[id@] },
                        )
                        &&& final(self).notes@ =~= old(self).notes@.insert(
                            id@,
                            NoteMetadataModel { is_public, ..old(self).notes@[id@] },
                        )
                    },
                    Err(_) => false,
                }
            } else {
                r == Err::<Note, NoteError>(NoteError::NoteNotFound) && *final(self) == *old(self)
            },
    {
        match self.notes.get(id) {
            Some(found) => {
                let mut metadata = found.clone();
                metadata.is_public = is_public;
                self.notes.insert(id.clone(), metadata.clone());
                Ok(self.get_full_note(&metadata))
            },
            None => Err(NoteError::NoteNotFound),
        }
    }

    /// Fetch a materialized note. The owner and collaborators see the full
    /// note; anyone else sees it only if it is public, and then with folder
    /// placement and collaborators stripped. A missing note and a forbidden
    /// note are reported identically.
    pub fn get_note(&self, id: &String, source: Option<&String>, our_node: &String) -> (r: Result<
        Note,
        NoteError,
    >)
        requires
            self.wf(),
        ensures
            if self.notes@.contains_key(id@) {
                if spec_authorized(opt_ref_view(source), our_node@, self.notes@[id@]) {
                    r matches Ok(n) && n@ == self.spec_full_note(self.notes@[id@])
                } else if self.notes@[id@].is_public {
                    r matches Ok(n) && n@ == spec_redacted(
                        self.spec_full_note(self.notes@[id@]),
                    )
                } else {
                    r == Err::<Note, NoteError>(NoteError::NotAuthorized)
                }
            } else {
                r == Err::<Note, NoteError>(NoteError::NotAuthorized)
            },
    {
        let metadata = match self.notes.get(id) {
            Some(m) => m,
            None => {
                return Err(NoteError::NotAuthorized);
            },
        };
        let authorized = match source {
            Some(s) => *s == *our_node || contains_string(&metadata.collaborators, s),
            None => false,
        };
        if authorized {
            Ok(self.get_full_note(metadata))
        } else if metadata.is_public {
            let mut note = self.get_full_note(metadata);
            note.folder_id = None;
            note.collaborators = Vec::new();
            proof {
                assert(note@.collaborators =~= Seq::<Seq<char>>::empty());
            }
            Ok(note)
        } else {
            Err(NoteError::NotAuthorized)
        }
    }

    /// Overwrite a note's content, normalized by format. Only the owner and
    /// collaborators may write; the metadata record is untouched.
    pub fn update_note_content(
        &mut self,
        id: &String,
        content: &Vec<u8>,
        source: Option<&String>,
        our_node: &String,
    ) -> (r: Result<(), NoteError>)
        requires
            old(self).wf(),
        ensures
            final(self).wf(),
            final(self).drive == old(self).drive,
            final(self).folders == old(self).folders,
            final(self).notes == old(self).notes,
            final(self).root_items == old(self).root_items,
            final(self).collaboration_invites == old(self).collaboration_invites,
            if old(self).notes@.contains_key(id@) && spec_authorized(
                opt_ref_view(source),
                our_node@,
                old(self).notes@[id@],
            ) {
                r == Ok::<(), NoteError>(()) && final(self).contents@ =~= old(
                    self,
                ).contents@.insert(
                    id@,
                    spec_normalized(old(self).notes@[id@].note_type, content@),
                )
            } else {
                r == Err::<(), NoteError>(NoteError::NotAuthorized) && *final(self) == *old(self)
            },
    {
        let authorized = match self.notes.get(id) {
            Some(metadata) => match source {
                Some(s) => *s == *our_node || contains_string(&metadata.collaborators, s),
                None => false,
            },
            None => false,
        };
        if !authorized {
            return Err(NoteError::NotAuthorized);
        }
        match self.save_note_content(id, content) {
            Ok(()) => Ok(()),
            Err(e) => {
                proof {
                    assert(false);
                }
                Err(e)
            },
        }
    }
}

} // verus!
