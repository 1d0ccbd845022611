use vstd::prelude::*;

use crate::state::State;
use crate::types::{Folder, FolderModel, NoteError, NoteMetadataModel, opt_view};

verus! {

impl State {
    /// Create a folder under the given parent (or at the root), with a
    /// caller-supplied fresh identifier.
    pub fn create_folder(&mut self, id: String, name: String, parent_id: Option<String>) -> (r:
        Result<Folder, NoteError>)
        requires
            old(self).wf(),
            !old(self).spec_has_id(id@),
        ensures
            final(self).wf(),
            final(self).drive == old(self).drive,
            final(self).notes == old(self).notes,
            final(self).collaboration_invites == old(self).collaboration_invites,
            final(self).contents == old(self).contents,
            if old(self).spec_parent_ok(opt_view(parent_id)) {
                match r {
                    Ok(f) => {
                        &&& f@ == (FolderModel {
                            id: id@,
                            name: name@,
                            parent_id: opt_view(parent_id),
                        })
                        &&& final(self).folders@ =~= old(self).folders@.insert(id@, f@)
                        &&& final(self).root_items@ =~= if parent_id is None {
                            old(self).root_items@.insert(id@)
                        } else {
                            old(self).root_items@
                        }
                    },
                    Err(_) => false,
                }
            } else {
                r == Err::<Folder, NoteError>(NoteError::ParentNotFound) && *final(self) == *old(
                    self,
                )
            },
    {
        if let Some(p) = &parent_id {
            if !self.folders.contains_key(p) {
                return Err(NoteError::ParentNotFound);
            }
        }
        let folder = Folder { id: id.clone(), name, parent_id };
        let at_root = folder.parent_id.is_none();
        self.folders.insert(id.clone(), folder.clone());
        if at_root {
            self.root_items.insert(id);
        }
        Ok(folder)
    }

    /// Replace a folder's name, leaving its place in the tree unchanged.
    pub fn rename_folder(&mut self, id: &String, new_name: String) -> (r: Result<
        Folder,
        NoteError,
    >)
        requires
            old(self).wf(),
        ensures
            final(self).wf(),
            final(self).drive == old(self).drive,
            final(self).notes == old(self).notes,
            final(self).root_items == old(self).root_items,
            final(self).collaboration_invites == old(self).collaboration_invites,
            final(self).contents == old(self).contents,
            if old(self).folders@.contains_key(id@) {
                match r {
                    Ok(f) => {
                        &&& f@ == (FolderModel { name: new_name@, ..old(self).folders@[id@] })
                        &&& final(self).folders@ =~= old(self).folders@.insert(id@, f@)
                    },
                    Err(_) => false,
                }
            } else {
                r == Err::<Folder, NoteError>(NoteError::FolderNotFound) && *final(self) == *old(
                    self,
                )
            },
    {
        match self.folders.get(id) {
            Some(found) => {
                let mut folder = found.clone();
                folder.name = new_name;
                self.folders.insert(id.clone(), folder.clone());
                Ok(folder)
            },
            None => Err(NoteError::FolderNotFound),
        }
    }
}

/// The folder table after folder `f` is deleted: `f` is gone and every
/// folder whose parent was `f` stands at the root.
pub open spec fn spec_reparent_folders(m: Map<Seq<char>, FolderModel>, f: Seq<char>) -> Map<
    Seq<char>,
    FolderModel,
> {
    Map::new(
        |k: Seq<char>| m.contains_key(k) && k != f,
        |k: Seq<char>|
            if m[k].parent_id == Some(f) {
                FolderModel { parent_id: None, ..m[k] }
            } else {
                m[k]
            },
    )
}

/// The note table after folder `f` is deleted: every note filed under `f`
/// stands at the root.
pub open spec fn spec_refile_notes(m: Map<Seq<char>, NoteMetadataModel>, f: Seq<char>) -> Map<
    Seq<char>,
    NoteMetadataModel,
> {
    Map::new(
        |k: Seq<char>| m.contains_key(k),
        |k: Seq<char>|
            if m[k].folder_id == Some(f) {
                NoteMetadataModel { folder_id: None, ..m[k] }
            } else {
                m[k]
            },
    )
}

/// Whether the parent chain starting at `cur` reaches `target` within
/// `fuel` lookups; running out of fuel counts as reaching (a chain longer
/// than the folder count can only be a cycle).
pub open spec fn spec_chain_hits(
    m: Map<Seq<char>, FolderModel>,
    cur: Option<Seq<char>>,
    target: Seq<char>,
    fuel: nat,
) -> bool
    decreases fuel,
{
    match cur {
        None => false,
        Some(c) => {
            if c == target {
                true
            } else if !m.contains_key(c) {
                false
            } else if fuel == 0 {
                true
            } else {
                spec_chain_hits(m, m[c].parent_id, target, (fuel - 1) as nat)
            }
        },
    }
}

impl State {
    /// Delete a folder. Its children, folders and notes alike, are
    /// reparented to the root, never deleted.
    pub fn delete_folder(&mut self, id: &String) -> (r: Result<(), NoteError>)
        requires
            old(self).wf(),
        ensures
            final(self).wf(),
            final(self).drive == old(self).drive,
            final(self).collaboration_invites == old(self).collaboration_invites,
            final(self).contents == old(self).contents,
            if old(self).folders@.contains_key(id@) {
                &&& r == Ok::<(), NoteError>(())
                &&& final(self).folders@ =~= spec_reparent_folders(old(self).folders@, id@)
                &&& final(self).notes@ =~= spec_refile_notes(old(self).notes@, id@)
            } else {
                r == Err::<(), NoteError>(NoteError::FolderNotFound) && *final(self) == *old(self)
            },
    {
        match self.folders.remove(id) {
            Some(_) => {},
            None => {
                return Err(NoteError::FolderNotFound);
            },
        }
        self.root_items.remove(id);
        let ghost s1 = *self;
        proof {
            s1.notes.lemma_key_seq();
        }
        let ghost nks = self.notes.key_seq();
        let n = self.notes.len();
        let mut i: usize = 0;
        while i < n
            invariant
                i <= n,
                n == nks.len(),
                self.drive == s1.drive,
                self.folders == s1.folders,
                self.collaboration_invites == s1.collaboration_invites,
                self.contents == s1.contents,
                self.notes.wf(),
                self.root_items.wf(),
                self.notes.key_seq() == nks,
                forall|j: int| i <= j < n ==> self.notes.val_at(j) == s1.notes.val_at(j),
                self.notes@.dom() =~= s1.notes@.dom(),
                forall|j: int|
                    0 <= j < i ==> self.notes@[nks[j]] == (if s1.notes@[nks[j]].folder_id == Some(
                        id@,
                    ) {
                        NoteMetadataModel { folder_id: None, ..s1.notes@[nks[j]] }
                    } else {
                        s1.notes@[nks[j]]
                    }),
                forall|j: int| i <= j < n ==> self.notes@[nks[j]] == s1.notes@[nks[j]],
                forall|k: Seq<char>|
                    #[trigger] self.notes@.contains_key(k) ==> self.notes@[k].id == k,
                forall|k: Seq<char>|
                    #[trigger] self.notes@.contains_key(k) ==> (self.notes@[k].folder_id
                        matches Some(f) ==> self.folders@.contains_key(f) || f == id@),
                forall|x: Seq<char>|
                    #[trigger] self.root_items@.contains(x) <==> self.spec_is_root(x),
            decreases n - i,
        {
            proof {
                self.notes.lemma_key_seq();
            }
            let needs_move = match &self.notes.value_at(i).folder_id {
                Some(f) => *f == *id,
                None => false,
            };
            if needs_move {
                let mut metadata = self.notes.value_at(i).clone();
                metadata.folder_id = None;
                let moved_id = metadata.id.clone();
                proof {
                    assert(self.notes@[nks[i as int]].id == nks[i as int]);
                    assert(moved_id@ == nks[i as int]);
                }
                self.notes.set_value_at(i, metadata);
                self.root_items.insert(moved_id);
            }
            i = i + 1;
        }
        let ghost s2 = *self;
        proof {
            s2.folders.lemma_key_seq();
        }
        let ghost fks = self.folders.key_seq();
        let m = self.folders.len();
        let mut i2: usize = 0;
        while i2 < m
            invariant
                i2 <= m,
                m == fks.len(),
                self.drive == s2.drive,
                self.notes == s2.notes,
                self.collaboration_invites == s2.collaboration_invites,
                self.contents == s2.contents,
                self.folders.wf(),
                self.root_items.wf(),
                self.folders.key_seq() == fks,
                forall|j: int| i2 <= j < m ==> self.folders.val_at(j) == s2.folders.val_at(j),
                self.folders@.dom() =~= s2.folders@.dom(),
                forall|j: int|
                    0 <= j < i2 ==> self.folders@[fks[j]] == (if s2.folders@[fks[j]].parent_id
                        == Some(id@) {
                        FolderModel { parent_id: None, ..s2.folders@[fks[j]] }
                    } else {
                        s2.folders@[fks[j]]
                    }),
                forall|j: int| i2 <= j < m ==> self.folders@[fks[j]] == s2.folders@[fks[j]],
                forall|k: Seq<char>|
                    #[trigger] self.folders@.contains_key(k) ==> self.folders@[k].id == k,
                forall|k: Seq<char>|
                    #[trigger] self.folders@.contains_key(k) ==> (self.folders@[k].parent_id
                        matches Some(p) ==> self.folders@.contains_key(p) || p == id@),
                forall|x: Seq<char>|
                    #[trigger] self.root_items@.contains(x) <==> self.spec_is_root(x),
            decreases m - i2,
        {
            proof {
                self.folders.lemma_key_seq();
            }
            let needs_move = match &self.folders.value_at(i2).parent_id {
                Some(p) => *p == *id,
                None => false,
            };
            if needs_move {
                let mut folder = self.folders.value_at(i2).clone();
                folder.parent_id = None;
                let moved_id = folder.id.clone();
                proof {
                    assert(self.folders@[fks[i2 as int]].id == fks[i2 as int]);
                    assert(moved_id@ == fks[i2 as int]);
                }
                self.folders.set_value_at(i2, folder);
                self.root_items.insert(moved_id);
            }
            i2 = i2 + 1;
        }
        proof {
            s1.notes.lemma_key_seq();
            s2.folders.lemma_key_seq();
            assert(s1.notes == old(self).notes);
            assert(self.notes == s2.notes);
            assert(nks == s1.notes.key_seq());
            assert(fks == s2.folders.key_seq());
            assert(s1.folders@ =~= old(self).folders@.remove(id@));
            assert forall|k: Seq<char>| #[trigger] self.notes@.contains_key(k) implies self.notes@[k]
                == spec_refile_notes(old(self).notes@, id@)[k] by {
                assert(s1.notes@.contains_key(k));
                assert(s1.notes.key_seq().contains(k));
                let j = choose|j: int| 0 <= j < nks.len() && nks[j] == k;
                assert(s2.notes@[nks[j]] == (if s1.notes@[nks[j]].folder_id == Some(id@) {
                    NoteMetadataModel { folder_id: None, ..s1.notes@[nks[j]] }
                } else {
                    s1.notes@[nks[j]]
                }));
            }
            assert(self.notes@ =~= spec_refile_notes(old(self).notes@, id@));
            assert forall|k: Seq<char>| #[trigger] self.folders@.contains_key(k) implies self.folders@[k]
                == spec_reparent_folders(old(self).folders@, id@)[k] by {
                assert(s2.folders@.contains_key(k));
                assert(s2.folders.key_seq().contains(k));
                let j = choose|j: int| 0 <= j < fks.len() && fks[j] == k;
                assert(self.folders@[fks[j]] == (if s2.folders@[fks[j]].parent_id == Some(id@) {
                    FolderModel { parent_id: None, ..s2.folders@[fks[j]] }
                } else {
                    s2.folders@[fks[j]]
                }));
            }
            assert(self.folders@ =~= spec_reparent_folders(old(self).folders@, id@));
        }
        Ok(())
    }

    /// Move a folder under another folder (or to the root). The
    /// destination must exist and must not lie in the folder's own
    /// subtree: a move that would close a parent cycle is rejected.
    pub fn move_folder(&mut self, id: &String, new_parent_id: Option<String>) -> (r: Result<
        Folder,
        NoteError,
    >)
        requires
            old(self).wf(),
        ensures
            final(self).wf(),
            final(self).drive == old(self).drive,
            final(self).notes == old(self).notes,
            final(self).collaboration_invites == old(self).collaboration_invites,
            final(self).contents == old(self).contents,
            if !old(self).folders@.contains_key(id@) {
                r == Err::<Folder, NoteError>(NoteError::FolderNotFound) && *final(self) == *old(
                    self,
                )
            } else if !old(self).spec_parent_ok(opt_view(new_parent_id)) {
                r == Err::<Folder, NoteError>(NoteError::ParentNotFound) && *final(self) == *old(
                    self,
                )
            } else if spec_chain_hits(
                old(self).folders@,
                opt_view(new_parent_id),
                id@,
                old(self).folders@.dom().len(),
            ) {
                r == Err::<Folder, NoteError>(NoteError::CycleDetected) && *final(self) == *old(
                    self,
                )
            } else {
                match r {
                    Ok(f) => {
                        &&& f@ == (FolderModel {
                            parent_id: opt_view(new_parent_id),
                            ..old(self).folders@[id@]
                        })
                        &&& final(self).folders@ =~= old(self).folders@.insert(id@, f@)
                        &&& final(self).root_items@ =~= if opt_view(new_parent_id) is None {
                            old(self).root_items@.insert(id@)
                        } else {
                            old(self).root_items@.remove(id@)
                        }
                    },
                    Err(_) => false,
                }
            },
    {
        if !self.folders.contains_key(id) {
            return Err(NoteError::FolderNotFound);
        }
        if let Some(p) = &new_parent_id {
            if !self.folders.contains_key(p) {
                return Err(NoteError::ParentNotFound);
            }
        }
        if self.chain_hits(&new_parent_id, id) {
            return Err(NoteError::CycleDetected);
        }
        let found = self.folders.get(id);
        let mut folder = match found {
            Some(f) => f.clone(),
            None => {
                proof {
                    assert(false);
                }
                return Err(NoteError::FolderNotFound);
            },
        };
        self.root_items.remove(id);
        folder.parent_id = new_parent_id;
        self.folders.insert(id.clone(), folder.clone());
        if folder.parent_id.is_none() {
            self.root_items.insert(id.clone());
        }
        Ok(folder)
    }

    /// Walk the parent chain from `start`, reporting whether it reaches
    /// `target` within as many lookups as there are folders.
    fn chain_hits(&self, start: &Option<String>, target: &String) -> (r: bool)
        requires
            self.wf(),
        ensures
            r == spec_chain_hits(self.folders@, opt_view(*start), target@, self.folders@.dom().len()),
    {
        proof {
            self.folders.lemma_key_seq();
        }
        let mut fuel: usize = self.folders.len();
        let mut cur: Option<String> = crate::types::clone_opt_string(start);
        loop
            invariant
                self.wf(),
                fuel <= self.folders@.dom().len(),
                spec_chain_hits(self.folders@, opt_view(*start), target@, self.folders@.dom().len())
                    == spec_chain_hits(self.folders@, opt_view(cur), target@, fuel as nat),
            decreases fuel + 1,
        {
            let c = match &cur {
                None => {
                    return false;
                },
                Some(c) => c,
            };
            if *c == *target {
                return true;
            }
            let next = match self.folders.get(c) {
                None => {
                    return false;
                },
                Some(f) => {
                    if fuel == 0 {
                        return true;
                    }
                    crate::types::clone_opt_string(&f.parent_id)
                },
            };
            fuel = fuel - 1;
            cur = next;
        }
    }
}

/// Deleting a folder reparents its children and does not cascade: after
/// the deletion of folder `fid`, the folder itself is gone, while each
/// child folder and each child note survives with no parent and stands in
/// the root set.
pub proof fn lemma_delete_folder_reparents(s0: State, s1: State, fid: Seq<char>, c: Seq<char>)
    requires
        s0.wf(),
        s1.wf(),
        s0.folders@.contains_key(fid),
        s1.folders@ == spec_reparent_folders(s0.folders@, fid),
        s1.notes@ == spec_refile_notes(s0.notes@, fid),
    ensures
        !s1.folders@.contains_key(fid),
        s0.folders@.contains_key(c) && c != fid && s0.folders@[c].parent_id == Some(fid)
            ==> s1.folders@.contains_key(c) && s1.folders@[c].parent_id is None
            && s1.root_items@.contains(c),
        s0.notes@.contains_key(c) && s0.notes@[c].folder_id == Some(fid)
            ==> s1.notes@.contains_key(c) && s1.notes@[c].folder_id is None
            && s1.root_items@.contains(c),
{
    if s0.folders@.contains_key(c) && c != fid && s0.folders@[c].parent_id == Some(fid) {
        assert(s1.folders@.contains_key(c));
        assert(s1.spec_is_root(c));
    }
    if s0.notes@.contains_key(c) && s0.notes@[c].folder_id == Some(fid) {
        assert(s1.notes@.contains_key(c));
        assert(s1.spec_is_root(c));
    }
}

} // verus!
