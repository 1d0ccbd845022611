use vstd::prelude::*;

use crate::idmap::IdMap;
use crate::invites::InviteTable;
use crate::strset::StrSet;
use crate::types::{Folder, FolderModel, NoteError, NoteMetadata, NoteMetadataModel, opt_view};

verus! {

/// The store: the folder table, the note-metadata table, the root-item set,
/// the pending collaboration invites, and the per-note content blobs, all
/// keyed by identifier. `drive` is the storage root under which the
/// surrounding process persists the store.
pub struct State {
    pub drive: String,
    pub folders: IdMap<Folder>,
    pub notes: IdMap<NoteMetadata>,
    pub root_items: StrSet,
    pub collaboration_invites: InviteTable,
    pub contents: IdMap<Vec<u8>>,
}

impl State {
    /// An identifier is in use by a folder or a note.
    pub open spec fn spec_has_id(self, id: Seq<char>) -> bool {
        self.folders@.contains_key(id) || self.notes@.contains_key(id)
    }

    /// The identifier names a folder or note with no parent.
    pub open spec fn spec_is_root(self, id: Seq<char>) -> bool {
        ||| (self.folders@.contains_key(id) && self.folders@[id].parent_id is None)
        ||| (self.notes@.contains_key(id) && self.notes@[id].folder_id is None)
    }

    /// Structural consistency, preserved by every operation: tables are
    /// keyed by the identifier stored in each record, folder and note
    /// identifiers are disjoint, every parent reference names an existing
    /// folder, the root-item set holds exactly the parentless items, and
    /// every stored content blob belongs to a live note.
    pub open spec fn wf(self) -> bool {
        &&& self.folders.wf()
        &&& self.notes.wf()
        &&& self.root_items.wf()
        &&& self.collaboration_invites.wf()
        &&& self.contents.wf()
        &&& forall|k: Seq<char>|
            #[trigger] self.folders@.contains_key(k) ==> self.folders@[k].id == k
        &&& forall|k: Seq<char>| #[trigger] self.notes@.contains_key(k) ==> self.notes@[k].id == k
        &&& forall|k: Seq<char>|
            #[trigger] self.folders@.contains_key(k) ==> !self.notes@.contains_key(k)
        &&& forall|k: Seq<char>|
            #[trigger] self.folders@.contains_key(k) ==> (self.folders@[k].parent_id matches Some(
                p,
            ) ==> self.folders@.contains_key(p))
        &&& forall|k: Seq<char>|
            #[trigger] self.notes@.contains_key(k) ==> (self.notes@[k].folder_id matches Some(f)
                ==> self.folders@.contains_key(f))
        &&& forall|id: Seq<char>|
            #[trigger] self.root_items@.contains(id) <==> self.spec_is_root(id)
        &&& forall|k: Seq<char>|
            #[trigger] self.contents@.contains_key(k) ==> self.notes@.contains_key(k)
    }

    /// Root-set consistency: in a well-formed store — and every operation
    /// ensures well-formedness — the root-item set holds exactly the
    /// identifiers of folders with no parent and notes filed in no folder.
    pub proof fn lemma_root_set_consistency(self)
        requires
            self.wf(),
        ensures
            forall|id: Seq<char>|
                #[trigger] self.root_items@.contains(id) <==> ((self.folders@.contains_key(id)
                    && self.folders@[id].parent_id is None) || (self.notes@.contains_key(id)
                    && self.notes@[id].folder_id is None)),
    {
    }

    /// No dangling references: in a well-formed store, every parent or
    /// folder reference names an existing folder.
    pub proof fn lemma_no_dangling_references(self)
        requires
            self.wf(),
        ensures
            forall|k: Seq<char>|
                #[trigger] self.folders@.contains_key(k) ==> (self.folders@[k].parent_id
                    matches Some(p) ==> self.folders@.contains_key(p)),
            forall|k: Seq<char>|
                #[trigger] self.notes@.contains_key(k) ==> (self.notes@[k].folder_id matches Some(
                    f,
                ) ==> self.folders@.contains_key(f)),
    {
    }

    /// A fresh, empty store under the given storage root.
    pub fn new(drive: String) -> (r: State)
        ensures
            r.wf(),
            r.drive@ == drive@,
            r.folders@ =~= Map::<Seq<char>, FolderModel>::empty(),
            r.notes@ =~= Map::<Seq<char>, NoteMetadataModel>::empty(),
            r.root_items@ =~= Set::<Seq<char>>::empty(),
            r.collaboration_invites@ =~= Map::<(Seq<char>, Seq<char>), Seq<char>>::empty(),
            r.contents@ =~= Map::<Seq<char>, Seq<u8>>::empty(),
    {
        State {
            drive,
            folders: IdMap::new(),
            notes: IdMap::new(),
            root_items: StrSet::new(),
            collaboration_invites: InviteTable::new(),
            contents: IdMap::new(),
        }
    }

    /// A fresh identifier derived from the clock. Identifiers are unique
    /// only under serialized operation; callers check for collisions before
    /// use.
    ///
    /// Relies on std::time::SystemTime::now and the duration accessors: the
    /// decimal rendering of a nanosecond count is a nonempty digit string.
    #[verifier::external_body]
    pub fn generate_id() -> (r: String)
        ensures
            r@.len() >= 1,
    {
        let time = std::time::SystemTime::now()
            .duration_since(std::time::UNIX_EPOCH)
            .map(|d| d.as_nanos())
            .unwrap_or(0);
        format!("{}", time)
    }

    /// Some folder or note already uses this identifier.
    pub fn has_id(&self, id: &String) -> (r: bool)
        ensures
            r == self.spec_has_id(id@),
    {
        self.folders.contains_key(id) || self.notes.contains_key(id)
    }

    /// The folder table accepts this parent reference.
    pub open spec fn spec_parent_ok(self, parent: Option<Seq<char>>) -> bool {
        parent matches Some(p) ==> self.folders@.contains_key(p)
    }
}

} // verus!
