use vstd::prelude::*;

use crate::state::State;
use crate::types::{Folder, FolderModel, Note, NoteMetadata, NoteMetadataModel, NoteModel};

verus! {

/// The sequence lists exactly the folders of the table, each once.
pub open spec fn folders_listed(fs: Seq<FolderModel>, m: Map<Seq<char>, FolderModel>) -> bool {
    &&& forall|i: int|
        0 <= i < fs.len() ==> m.contains_key(#[trigger] fs[i].id) && m[fs[i].id] == fs[i]
    &&& forall|i: int, j: int| 0 <= i < j < fs.len() ==> fs[i].id != fs[j].id
    &&& forall|k: Seq<char>|
        #[trigger] m.contains_key(k) ==> exists|i: int| 0 <= i < fs.len() && fs[i].id == k
}

/// The sequence lists exactly the note-metadata records of the table, each
/// once.
pub open spec fn metas_listed(ms: Seq<NoteMetadataModel>, m: Map<Seq<char>, NoteMetadataModel>) -> bool {
    &&& forall|i: int|
        0 <= i < ms.len() ==> m.contains_key(#[trigger] ms[i].id) && m[ms[i].id] == ms[i]
    &&& forall|i: int, j: int| 0 <= i < j < ms.len() ==> ms[i].id != ms[j].id
    &&& forall|k: Seq<char>|
        #[trigger] m.contains_key(k) ==> exists|i: int| 0 <= i < ms.len() && ms[i].id == k
}

/// The sequence lists exactly the notes of the store, materialized with
/// their stored content (missing blobs degrade to empty content).
pub open spec fn notes_listed(ns: Seq<NoteModel>, s: State) -> bool {
    &&& forall|i: int|
        0 <= i < ns.len() ==> s.notes@.contains_key(#[trigger] ns[i].id) && ns[i]
            == s.spec_full_note(s.notes@[ns[i].id])
    &&& forall|i: int, j: int| 0 <= i < j < ns.len() ==> ns[i].id != ns[j].id
    &&& forall|k: Seq<char>|
        #[trigger] s.notes@.contains_key(k) ==> exists|i: int| 0 <= i < ns.len() && ns[i].id == k
}

impl State {
    /// All folders, in table order.
    pub fn list_folders(&self) -> (r: Vec<Folder>)
        requires
            self.wf(),
        ensures
            folders_listed(r@.map_values(|f: Folder| f@), self.folders@),
    {
        proof {
            self.folders.lemma_key_seq();
        }
        let ghost fks = self.folders.key_seq();
        let mut out: Vec<Folder> = Vec::new();
        let n = self.folders.len();
        let mut i: usize = 0;
        while i < n
            invariant
                i <= n,
                self.wf(),
                n == fks.len(),
                fks == self.folders.key_seq(),
                out@.len() == i,
                forall|p: int| 0 <= p < i ==> out@[p]@ == self.folders@[fks[p]],
                forall|p: int| 0 <= p < i ==> (#[trigger] out@[p]@).id == fks[p],
            decreases n - i,
        {
            proof {
                self.folders.lemma_key_seq();
            }
            out.push(self.folders.value_at(i).clone());
            i = i + 1;
        }
        proof {
            self.folders.lemma_key_seq();
            let ghost fs = out@.map_values(|f: Folder| f@);
            assert forall|k: Seq<char>| #[trigger] self.folders@.contains_key(k) implies exists|p: int|
                0 <= p < fs.len() && fs[p].id == k by {
                assert(self.folders.key_seq().contains(k));
                let p = choose|p: int| 0 <= p < fks.len() && fks[p] == k;
                assert(fs[p].id == k);
            }
        }
        out
    }

    /// All note-metadata records, in table order.
    pub fn list_note_metadata(&self) -> (r: Vec<NoteMetadata>)
        requires
            self.wf(),
        ensures
            metas_listed(r@.map_values(|m: NoteMetadata| m@), self.notes@),
    {
        proof {
            self.notes.lemma_key_seq();
        }
        let ghost nks = self.notes.key_seq();
        let mut out: Vec<NoteMetadata> = Vec::new();
        let n = self.notes.len();
        let mut i: usize = 0;
        while i < n
            invariant
                i <= n,
                self.wf(),
                n == nks.len(),
                nks == self.notes.key_seq(),
                out@.len() == i,
                forall|p: int| 0 <= p < i ==> out@[p]@ == self.notes@[nks[p]],
                forall|p: int| 0 <= p < i ==> (#[trigger] out@[p]@).id == nks[p],
            decreases n - i,
        {
            proof {
                self.notes.lemma_key_seq();
            }
            out.push(self.notes.value_at(i).clone());
            i = i + 1;
        }
        proof {
            self.notes.lemma_key_seq();
            let ghost ms = out@.map_values(|m: NoteMetadata| m@);
            assert forall|k: Seq<char>| #[trigger] self.notes@.contains_key(k) implies exists|p: int|
                0 <= p < ms.len() && ms[p].id == k by {
                assert(self.notes.key_seq().contains(k));
                let p = choose|p: int| 0 <= p < nks.len() && nks[p] == k;
                assert(ms[p].id == k);
            }
        }
        out
    }

    /// All notes, materialized, in table order.
    pub fn list_full_notes(&self) -> (r: Vec<Note>)
        requires
            self.wf(),
        ensures
            notes_listed(r@.map_values(|n: Note| n@), *self),
    {
        proof {
            self.notes.lemma_key_seq();
        }
        let ghost nks = self.notes.key_seq();
        let mut out: Vec<Note> = Vec::new();
        let n = self.notes.len();
        let mut i: usize = 0;
        while i < n
            invariant
                i <= n,
                self.wf(),
                n == nks.len(),
                nks == self.notes.key_seq(),
                out@.len() == i,
                forall|p: int|
                    0 <= p < i ==> out@[p]@ == self.spec_full_note(self.notes@[nks[p]]),
                forall|p: int| 0 <= p < i ==> (#[trigger] out@[p]@).id == nks[p],
            decreases n - i,
        {
            proof {
                self.notes.lemma_key_seq();
            }
            let metadata = self.notes.value_at(i);
            out.push(self.get_full_note(metadata));
            i = i + 1;
        }
        proof {
            self.notes.lemma_key_seq();
            let ghost ns = out@.map_values(|n0: Note| n0@);
            assert forall|k: Seq<char>| #[trigger] self.notes@.contains_key(k) implies exists|p: int|
                0 <= p < ns.len() && ns[p].id == k by {
                assert(self.notes.key_seq().contains(k));
                let p = choose|p: int| 0 <= p < nks.len() && nks[p] == k;
                assert(ns[p].id == k);
            }
        }
        out
    }

    /// The full tree: every folder and every materialized note. Never
    /// fails; unreadable content degrades to empty bytes.
    pub fn get_structure(&self) -> (r: (Vec<Folder>, Vec<Note>))
        requires
            self.wf(),
        ensures
            folders_listed(r.0@.map_values(|f: Folder| f@), self.folders@),
            notes_listed(r.1@.map_values(|n: Note| n@), *self),
    {
        (self.list_folders(), self.list_full_notes())
    }
}

} // verus!
