use vstd::prelude::*;

use crate::content::spec_normalized;
use crate::idmap::IdMap;
use crate::invites::{invites_map_of, InviteTable};
use crate::migrate::{
    migrate_export_data, spec_migrate_ok, spec_migrated, spec_migrated_contents, ExportData,
    ExportDataModel,
};
use crate::state::State;
use crate::strset::StrSet;
use crate::structure::{folders_listed, notes_listed};
use crate::types::{
    meta_of_note, Folder, FolderModel, Note, NoteError, NoteMetadata, NoteMetadataModel, NoteModel,
};

verus! {

/// The folder table after the records of `fs` are inserted in order; a
/// later record with the same identifier wins.
pub open spec fn spec_fold_folders(
    m: Map<Seq<char>, FolderModel>,
    fs: Seq<FolderModel>,
) -> Map<Seq<char>, FolderModel>
    decreases fs.len(),
{
    if fs.len() == 0 {
        m
    } else {
        spec_fold_folders(m, fs.drop_last()).insert(fs.last().id, fs.last())
    }
}

/// The note table after the records of `ms` are inserted in order.
pub open spec fn spec_fold_metas(
    m: Map<Seq<char>, NoteMetadataModel>,
    ms: Seq<NoteMetadataModel>,
) -> Map<Seq<char>, NoteMetadataModel>
    decreases ms.len(),
{
    if ms.len() == 0 {
        m
    } else {
        spec_fold_metas(m, ms.drop_last()).insert(ms.last().id, ms.last())
    }
}

/// The content table after the inline contents of `ns` are stored in
/// order, each normalized by its note's format.
pub open spec fn spec_insert_norm_contents(
    m: Map<Seq<char>, Seq<u8>>,
    ns: Seq<NoteModel>,
) -> Map<Seq<char>, Seq<u8>>
    decreases ns.len(),
{
    if ns.len() == 0 {
        m
    } else {
        spec_insert_norm_contents(m, ns.drop_last()).insert(
            ns.last().id,
            spec_normalized(ns.last().note_type, ns.last().content),
        )
    }
}

pub proof fn lemma_fold_folders_facts(m: Map<Seq<char>, FolderModel>, fs: Seq<FolderModel>)
    ensures
        forall|k: Seq<char>|
            #[trigger] spec_fold_folders(m, fs).contains_key(k) <==> m.contains_key(k) || exists|
                i: int,
            | 0 <= i < fs.len() && fs[i].id == k,
        forall|k: Seq<char>|
            #[trigger] spec_fold_folders(m, fs).contains_key(k) && !(exists|i: int|
                0 <= i < fs.len() && fs[i].id == k) ==> spec_fold_folders(m, fs)[k] == m[k],
        (forall|p: int, q: int| 0 <= p < q < fs.len() ==> fs[p].id != fs[q].id) ==> forall|i: int|
            0 <= i < fs.len() ==> spec_fold_folders(m, fs)[(#[trigger] fs[i]).id] == fs[i],
    decreases fs.len(),
{
    if fs.len() > 0 {
        lemma_fold_folders_facts(m, fs.drop_last());
        assert forall|k: Seq<char>| #[trigger] spec_fold_folders(m, fs).contains_key(k) implies m.contains_key(
            k,
        ) || exists|i: int| 0 <= i < fs.len() && fs[i].id == k by {
            if k != fs.last().id && !m.contains_key(k) {
                assert(spec_fold_folders(m, fs.drop_last()).contains_key(k));
                let i = choose|i: int| 0 <= i < fs.drop_last().len() && fs.drop_last()[i].id == k;
                assert(fs[i].id == k);
            }
        }
        assert forall|k: Seq<char>|
            (m.contains_key(k) || exists|i: int| 0 <= i < fs.len() && fs[i].id == k) implies #[trigger] spec_fold_folders(
            m,
            fs,
        ).contains_key(k) by {
            if !m.contains_key(k) {
                let i = choose|i: int| 0 <= i < fs.len() && fs[i].id == k;
                if i < fs.len() - 1 {
                    assert(fs.drop_last()[i].id == k);
                    assert(spec_fold_folders(m, fs.drop_last()).contains_key(k));
                }
            } else {
                assert(spec_fold_folders(m, fs.drop_last()).contains_key(k));
            }
        }
        assert forall|k: Seq<char>|
            #[trigger] spec_fold_folders(m, fs).contains_key(k) && !(exists|i: int|
                0 <= i < fs.len() && fs[i].id == k) implies spec_fold_folders(m, fs)[k] == m[k] by {
            assert(fs.last().id != k);
            assert(forall|i: int|
                0 <= i < fs.drop_last().len() ==> fs.drop_last()[i] == fs[i]);
            assert(spec_fold_folders(m, fs.drop_last()).contains_key(k));
            if exists|i: int| 0 <= i < fs.drop_last().len() && fs.drop_last()[i].id == k {
                let i = choose|i: int|
                    0 <= i < fs.drop_last().len() && fs.drop_last()[i].id == k;
                assert(fs[i].id == k);
            }
            assert(spec_fold_folders(m, fs.drop_last())[k] == m[k]);
        }
        if forall|p: int, q: int| 0 <= p < q < fs.len() ==> fs[p].id != fs[q].id {
            assert forall|i: int| 0 <= i < fs.len() implies spec_fold_folders(m, fs)[(
            #[trigger] fs[i]).id] == fs[i] by {
                if i < fs.len() - 1 {
                    assert(fs.drop_last()[i] == fs[i]);
                    assert(fs[i].id != fs.last().id);
                }
            }
        }
    }
}

pub proof fn lemma_fold_metas_facts(m: Map<Seq<char>, NoteMetadataModel>, ms: Seq<NoteMetadataModel>)
    ensures
        forall|k: Seq<char>|
            #[trigger] spec_fold_metas(m, ms).contains_key(k) <==> m.contains_key(k) || exists|
                i: int,
            | 0 <= i < ms.len() && ms[i].id == k,
        forall|k: Seq<char>|
            #[trigger] spec_fold_metas(m, ms).contains_key(k) && !(exists|i: int|
                0 <= i < ms.len() && ms[i].id == k) ==> spec_fold_metas(m, ms)[k] == m[k],
        (forall|p: int, q: int| 0 <= p < q < ms.len() ==> ms[p].id != ms[q].id) ==> forall|i: int|
            0 <= i < ms.len() ==> spec_fold_metas(m, ms)[(#[trigger] ms[i]).id] == ms[i],
    decreases ms.len(),
{
    if ms.len() > 0 {
        lemma_fold_metas_facts(m, ms.drop_last());
        assert forall|k: Seq<char>| #[trigger] spec_fold_metas(m, ms).contains_key(k) implies m.contains_key(
            k,
        ) || exists|i: int| 0 <= i < ms.len() && ms[i].id == k by {
            if k != ms.last().id && !m.contains_key(k) {
                assert(spec_fold_metas(m, ms.drop_last()).contains_key(k));
                let i = choose|i: int| 0 <= i < ms.drop_last().len() && ms.drop_last()[i].id == k;
                assert(ms[i].id == k);
            }
        }
        assert forall|k: Seq<char>|
            (m.contains_key(k) || exists|i: int| 0 <= i < ms.len() && ms[i].id == k) implies #[trigger] spec_fold_metas(
            m,
            ms,
        ).contains_key(k) by {
            if !m.contains_key(k) {
                let i = choose|i: int| 0 <= i < ms.len() && ms[i].id == k;
                if i < ms.len() - 1 {
                    assert(ms.drop_last()[i].id == k);
                    assert(spec_fold_metas(m, ms.drop_last()).contains_key(k));
                }
            } else {
                assert(spec_fold_metas(m, ms.drop_last()).contains_key(k));
            }
        }
        assert forall|k: Seq<char>|
            #[trigger] spec_fold_metas(m, ms).contains_key(k) && !(exists|i: int|
                0 <= i < ms.len() && ms[i].id == k) implies spec_fold_metas(m, ms)[k] == m[k] by {
            assert(ms.last().id != k);
            assert(forall|i: int|
                0 <= i < ms.drop_last().len() ==> ms.drop_last()[i] == ms[i]);
            assert(spec_fold_metas(m, ms.drop_last()).contains_key(k));
            if exists|i: int| 0 <= i < ms.drop_last().len() && ms.drop_last()[i].id == k {
                let i = choose|i: int|
                    0 <= i < ms.drop_last().len() && ms.drop_last()[i].id == k;
                assert(ms[i].id == k);
            }
            assert(spec_fold_metas(m, ms.drop_last())[k] == m[k]);
        }
        if forall|p: int, q: int| 0 <= p < q < ms.len() ==> ms[p].id != ms[q].id {
            assert forall|i: int| 0 <= i < ms.len() implies spec_fold_metas(m, ms)[(
            #[trigger] ms[i]).id] == ms[i] by {
                if i < ms.len() - 1 {
                    assert(ms.drop_last()[i] == ms[i]);
                    assert(ms[i].id != ms.last().id);
                }
            }
        }
    }
}

/// A migrated record can be merged into this store without breaking
/// structural consistency: identifiers within the record are distinct and
/// do not cross folder and note kinds, against the record or the store,
/// and every parent reference resolves in the merged folder table.
pub open spec fn spec_import_ok(
    s: State,
    fs: Seq<FolderModel>,
    ms: Seq<NoteMetadataModel>,
) -> bool {
    &&& forall|p: int, q: int| 0 <= p < q < fs.len() ==> fs[p].id != fs[q].id
    &&& forall|p: int, q: int| 0 <= p < q < ms.len() ==> ms[p].id != ms[q].id
    &&& forall|p: int, q: int|
        0 <= p < fs.len() && 0 <= q < ms.len() ==> fs[p].id != ms[q].id
    &&& forall|p: int| 0 <= p < fs.len() ==> !s.notes@.contains_key((#[trigger] fs[p]).id)
    &&& forall|p: int| 0 <= p < ms.len() ==> !s.folders@.contains_key((#[trigger] ms[p]).id)
    &&& forall|p: int|
        0 <= p < fs.len() ==> ((#[trigger] fs[p]).parent_id matches Some(pa)
            ==> s.folders@.contains_key(pa) || exists|j: int| 0 <= j < fs.len() && fs[j].id == pa)
    &&& forall|p: int|
        0 <= p < ms.len() ==> ((#[trigger] ms[p]).folder_id matches Some(f)
            ==> s.folders@.contains_key(f) || exists|j: int| 0 <= j < fs.len() && fs[j].id == f)
}

/// A migrated record can stand as a store on its own: identifiers are
/// distinct and do not cross kinds, and every parent reference resolves
/// among the record's own folders. This is exactly merge-consistency
/// against an empty store.
pub open spec fn spec_record_ok(fs: Seq<FolderModel>, ms: Seq<NoteMetadataModel>) -> bool {
    &&& forall|p: int, q: int| 0 <= p < q < fs.len() ==> fs[p].id != fs[q].id
    &&& forall|p: int, q: int| 0 <= p < q < ms.len() ==> ms[p].id != ms[q].id
    &&& forall|p: int, q: int|
        0 <= p < fs.len() && 0 <= q < ms.len() ==> fs[p].id != ms[q].id
    &&& forall|p: int|
        0 <= p < fs.len() ==> ((#[trigger] fs[p]).parent_id matches Some(pa) ==> exists|j: int|
            0 <= j < fs.len() && fs[j].id == pa)
    &&& forall|p: int|
        0 <= p < ms.len() ==> ((#[trigger] ms[p]).folder_id matches Some(f) ==> exists|j: int|
            0 <= j < fs.len() && fs[j].id == f)
}

/// Against a store with empty tables, merge-consistency is exactly the
/// record's own consistency.
pub proof fn lemma_record_ok_empty(s: State, fs: Seq<FolderModel>, ms: Seq<NoteMetadataModel>)
    requires
        s.folders@ == Map::<Seq<char>, FolderModel>::empty(),
        s.notes@ == Map::<Seq<char>, NoteMetadataModel>::empty(),
    ensures
        spec_import_ok(s, fs, ms) == spec_record_ok(fs, ms),
{
}

impl State {
    /// A snapshot of the whole tree for backup or transfer, in the oldest
    /// understood shape: every note inline with its content, so older
    /// installations can still read it.
    pub fn export_all(&self) -> (r: ExportData)
        requires
            self.wf(),
        ensures
            r@.version == 0,
            folders_listed(r@.folders, self.folders@),
            notes_listed(r@.notes, *self),
            r@.note_metadata =~= Seq::<NoteMetadataModel>::empty(),
            invites_map_of(r@.collaboration_invites) =~= self.collaboration_invites@,
    {
        let r = ExportData {
            version: 0,
            folders: self.list_folders(),
            notes: self.list_full_notes(),
            note_metadata: Vec::new(),
            collaboration_invites: self.collaboration_invites.to_entries(),
        };
        proof {
            assert(r@.note_metadata =~= Seq::<NoteMetadataModel>::empty());
            assert(r@.collaboration_invites =~= self.collaboration_invites.entry_models());
            self.collaboration_invites.lemma_view_is_entries();
        }
        r
    }

    /// The record the store persists: the current shape, note metadata
    /// only, with content kept in side files.
    pub fn to_export_data(&self) -> (r: ExportData)
        requires
            self.wf(),
        ensures
            r@.version == crate::migrate::CURRENT_STATE_VERSION,
            folders_listed(r@.folders, self.folders@),
            r@.notes =~= Seq::<NoteModel>::empty(),
            crate::structure::metas_listed(r@.note_metadata, self.notes@),
            invites_map_of(r@.collaboration_invites) =~= self.collaboration_invites@,
    {
        let r = ExportData {
            version: crate::migrate::CURRENT_STATE_VERSION,
            folders: self.list_folders(),
            notes: Vec::new(),
            note_metadata: self.list_note_metadata(),
            collaboration_invites: self.collaboration_invites.to_entries(),
        };
        proof {
            assert(r@.notes =~= Seq::<NoteModel>::empty());
            assert(r@.collaboration_invites =~= self.collaboration_invites.entry_models());
            self.collaboration_invites.lemma_view_is_entries();
        }
        r
    }

    /// Decide whether a migrated record can be merged into this store.
    fn validate_import(&self, folders: &Vec<Folder>, metas: &Vec<NoteMetadata>) -> (r: bool)
        requires
            self.wf(),
        ensures
            r == spec_import_ok(
                *self,
                folders@.map_values(|f: Folder| f@),
                metas@.map_values(|m: NoteMetadata| m@),
            ),
    {
        let ghost fs = folders@.map_values(|f: Folder| f@);
        let ghost ms = metas@.map_values(|m: NoteMetadata| m@);
        let mut rf = StrSet::new();
        let nf = folders.len();
        let mut i: usize = 0;
        while i < nf
            invariant
                i <= nf,
                self.wf(),
                nf == fs.len(),
                fs == folders@.map_values(|f: Folder| f@),
                rf.wf(),
                rf@ =~= Set::new(|k: Seq<char>| exists|j: int| 0 <= j < i && fs[j].id == k),
                forall|p: int, q: int| 0 <= p < q < i ==> fs[p].id != fs[q].id,
                forall|p: int| 0 <= p < i ==> !self.notes@.contains_key((#[trigger] fs[p]).id),
            decreases nf - i,
        {
            let f = &folders[i];
            proof {
                assert(fs[i as int] == folders@[i as int]@);
            }
            if rf.contains(&f.id) {
                proof {
                    let j = choose|j: int| 0 <= j < i && fs[j].id == f.id@;
                    assert(fs[j].id == fs[i as int].id);
                }
                return false;
            }
            if self.notes.contains_key(&f.id) {
                proof {
                    assert(self.notes@.contains_key(fs[i as int].id));
                }
                return false;
            }
            rf.insert(f.id.clone());
            proof {
                assert(rf@ =~= Set::new(
                    |k: Seq<char>| exists|j: int| 0 <= j < i + 1 && fs[j].id == k,
                ));
            }
            i = i + 1;
        }
        let mut rn = StrSet::new();
        let nm = metas.len();
        let mut i2: usize = 0;
        while i2 < nm
            invariant
                i2 <= nm,
                self.wf(),
                nm == ms.len(),
                nf == fs.len(),
                fs == folders@.map_values(|f: Folder| f@),
                ms == metas@.map_values(|m: NoteMetadata| m@),
                rf.wf(),
                rn.wf(),
                rf@ =~= Set::new(|k: Seq<char>| exists|j: int| 0 <= j < nf && fs[j].id == k),
                rn@ =~= Set::new(|k: Seq<char>| exists|j: int| 0 <= j < i2 && ms[j].id == k),
                forall|p: int, q: int| 0 <= p < q < i2 ==> ms[p].id != ms[q].id,
                forall|p: int| 0 <= p < i2 ==> !self.folders@.contains_key((#[trigger] ms[p]).id),
                forall|p: int, q: int|
                    0 <= p < nf && 0 <= q < i2 ==> fs[p].id != ms[q].id,
            decreases nm - i2,
        {
            let m0 = &metas[i2];
            proof {
                assert(ms[i2 as int] == metas@[i2 as int]@);
            }
            if rn.contains(&m0.id) {
                proof {
                    let j = choose|j: int| 0 <= j < i2 && ms[j].id == m0.id@;
                    assert(ms[j].id == ms[i2 as int].id);
                }
                return false;
            }
            if rf.contains(&m0.id) {
                proof {
                    let j = choose|j: int| 0 <= j < nf && fs[j].id == m0.id@;
                    assert(fs[j].id == ms[i2 as int].id);
                }
                return false;
            }
            if self.folders.contains_key(&m0.id) {
                proof {
                    assert(self.folders@.contains_key(ms[i2 as int].id));
                }
                return false;
            }
            rn.insert(m0.id.clone());
            proof {
                assert(rn@ =~= Set::new(
                    |k: Seq<char>| exists|j: int| 0 <= j < i2 + 1 && ms[j].id == k,
                ));
            }
            i2 = i2 + 1;
        }
        let mut i3: usize = 0;
        while i3 < nf
            invariant
                i3 <= nf,
                self.wf(),
                nf == fs.len(),
                fs == folders@.map_values(|f: Folder| f@),
                rf.wf(),
                rf@ =~= Set::new(|k: Seq<char>| exists|j: int| 0 <= j < nf && fs[j].id == k),
                forall|p: int|
                    0 <= p < i3 ==> ((#[trigger] fs[p]).parent_id matches Some(pa)
                        ==> self.folders@.contains_key(pa) || exists|j: int|
                        0 <= j < nf && fs[j].id == pa),
            decreases nf - i3,
        {
            if let Some(pa) = &folders[i3].parent_id {
                proof {
                    assert(fs[i3 as int] == folders@[i3 as int]@);
                    assert(fs[i3 as int].parent_id == Some(pa@));
                }
                if !self.folders.contains_key(pa) && !rf.contains(pa) {
                    proof {
                        assert(!(exists|j: int| 0 <= j < nf && fs[j].id == pa@));
                    }
                    return false;
                }
            }
            i3 = i3 + 1;
        }
        let mut i4: usize = 0;
        while i4 < nm
            invariant
                i4 <= nm,
                self.wf(),
                nm == ms.len(),
                nf == fs.len(),
                fs == folders@.map_values(|f: Folder| f@),
                ms == metas@.map_values(|m: NoteMetadata| m@),
                rf.wf(),
                rf@ =~= Set::new(|k: Seq<char>| exists|j: int| 0 <= j < nf && fs[j].id == k),
                forall|p: int|
                    0 <= p < i4 ==> ((#[trigger] ms[p]).folder_id matches Some(f)
                        ==> self.folders@.contains_key(f) || exists|j: int|
                        0 <= j < nf && fs[j].id == f),
            decreases nm - i4,
        {
            if let Some(f) = &metas[i4].folder_id {
                proof {
                    assert(ms[i4 as int] == metas@[i4 as int]@);
                    assert(ms[i4 as int].folder_id == Some(f@));
                }
                if !self.folders.contains_key(f) && !rf.contains(f) {
                    proof {
                        assert(!(exists|j: int| 0 <= j < nf && fs[j].id == f@));
                    }
                    return false;
                }
            }
            i4 = i4 + 1;
        }
        true
    }
}

pub proof fn lemma_insert_contents_facts(m: Map<Seq<char>, Seq<u8>>, ns: Seq<NoteModel>)
    ensures
        forall|k: Seq<char>|
            #[trigger] crate::migrate::spec_insert_contents(m, ns).contains_key(k)
                <==> m.contains_key(k) || exists|i: int| 0 <= i < ns.len() && ns[i].id == k,
        (forall|p: int, q: int| 0 <= p < q < ns.len() ==> ns[p].id != ns[q].id) ==> forall|i: int|
            0 <= i < ns.len() ==> crate::migrate::spec_insert_contents(m, ns)[(
            #[trigger] ns[i]).id] == ns[i].content,
    decreases ns.len(),
{
    if ns.len() > 0 {
        lemma_insert_contents_facts(m, ns.drop_last());
        assert forall|k: Seq<char>|
            #[trigger] crate::migrate::spec_insert_contents(m, ns).contains_key(k) implies m.contains_key(
            k,
        ) || exists|i: int| 0 <= i < ns.len() && ns[i].id == k by {
            if k != ns.last().id && !m.contains_key(k) {
                assert(crate::migrate::spec_insert_contents(m, ns.drop_last()).contains_key(k));
                let i = choose|i: int|
                    0 <= i < ns.drop_last().len() && ns.drop_last()[i].id == k;
                assert(ns[i].id == k);
            }
        }
        assert forall|k: Seq<char>|
            (m.contains_key(k) || exists|i: int| 0 <= i < ns.len() && ns[i].id == k) implies #[trigger] crate::migrate::spec_insert_contents(
            m,
            ns,
        ).contains_key(k) by {
            if !m.contains_key(k) {
                let i = choose|i: int| 0 <= i < ns.len() && ns[i].id == k;
                if i < ns.len() - 1 {
                    assert(ns.drop_last()[i].id == k);
                    assert(crate::migrate::spec_insert_contents(m, ns.drop_last()).contains_key(
                        k,
                    ));
                }
            } else {
                assert(crate::migrate::spec_insert_contents(m, ns.drop_last()).contains_key(k));
            }
        }
        if forall|p: int, q: int| 0 <= p < q < ns.len() ==> ns[p].id != ns[q].id {
            assert forall|i: int| 0 <= i < ns.len() implies crate::migrate::spec_insert_contents(
                m,
                ns,
            )[(#[trigger] ns[i]).id] == ns[i].content by {
                if i < ns.len() - 1 {
                    assert(ns.drop_last()[i] == ns[i]);
                    assert(ns[i].id != ns.last().id);
                }
            }
        }
    }
}

/// The note records a migrated record contributes: the inline notes when
/// any are carried, else the metadata records.
pub open spec fn import_metas_src(d: ExportDataModel) -> Seq<NoteMetadataModel> {
    if d.notes.len() > 0 {
        d.notes.map_values(|n: NoteModel| meta_of_note(n))
    } else {
        d.note_metadata
    }
}

/// The content table an import leaves behind: inline notes store their
/// content normalized; a legacy record's extracted contents overwrite raw.
pub open spec fn import_contents(c: Map<Seq<char>, Seq<u8>>, d: ExportDataModel) -> Map<
    Seq<char>,
    Seq<u8>,
> {
    if spec_migrated(d).notes.len() > 0 {
        spec_insert_norm_contents(c, spec_migrated(d).notes)
    } else {
        c.union_prefer_right(spec_migrated_contents(Map::empty(), d))
    }
}

impl State {
    /// Merge a loaded or externally supplied record into this store. The
    /// record is migrated first, then checked; a record that cannot be
    /// migrated or would break structural consistency is refused and the
    /// store is left untouched. On success the record's folders and notes
    /// overwrite same-identified items and extend the tree, and its
    /// invites replace the pending-invite table.
    #[verifier::rlimit(100)]
    pub fn import_all(&mut self, data: ExportData) -> (r: Result<(), NoteError>)
        requires
            old(self).wf(),
        ensures
            final(self).wf(),
            final(self).drive == old(self).drive,
            if !spec_migrate_ok(data@) {
                r == Err::<(), NoteError>(NoteError::FutureVersion) && *final(self) == *old(self)
            } else if !spec_import_ok(
                *old(self),
                spec_migrated(data@).folders,
                import_metas_src(spec_migrated(data@)),
            ) {
                r == Err::<(), NoteError>(NoteError::InvalidImport) && *final(self) == *old(self)
            } else {
                &&& r == Ok::<(), NoteError>(())
                &&& final(self).folders@ =~= spec_fold_folders(
                    old(self).folders@,
                    spec_migrated(data@).folders,
                )
                &&& final(self).notes@ =~= spec_fold_metas(
                    old(self).notes@,
                    import_metas_src(spec_migrated(data@)),
                )
                &&& final(self).contents@ =~= import_contents(old(self).contents@, data@)
                &&& final(self).collaboration_invites@ =~= invites_map_of(
                    spec_migrated(data@).collaboration_invites,
                )
            },
    {
        let ghost md = spec_migrated(data@);
        let mut extracted: IdMap<Vec<u8>> = IdMap::new();
        let d2 = match migrate_export_data(data, &mut extracted) {
            Ok(d) => d,
            Err(e) => {
                return Err(e);
            },
        };
        let ExportData { version: _, folders, notes, note_metadata, collaboration_invites } = d2;
        let inline = notes.len() > 0;
        let metas: Vec<NoteMetadata> = if inline {
            let ghost nsv = notes@.map_values(|n: Note| n@);
            let mut built: Vec<NoteMetadata> = Vec::new();
            let count = notes.len();
            let mut b: usize = 0;
            while b < count
                invariant
                    b <= count,
                    count == notes@.len(),
                    nsv == notes@.map_values(|n: Note| n@),
                    built@.len() == b,
                    forall|p: int| 0 <= p < b ==> built@[p]@ == meta_of_note(nsv[p]),
                decreases count - b,
            {
                proof {
                    assert(nsv[b as int] == notes@[b as int]@);
                }
                built.push(NoteMetadata::from(notes[b].clone()));
                b = b + 1;
            }
            proof {
                assert(built@.map_values(|m0: NoteMetadata| m0@) =~= nsv.map_values(
                    |n0: NoteModel| meta_of_note(n0),
                ));
            }
            built
        } else {
            note_metadata
        };
        proof {
            assert(metas@.map_values(|m0: NoteMetadata| m0@) == import_metas_src(md));
        }
        if !self.validate_import(&folders, &metas) {
            return Err(NoteError::InvalidImport);
        }
        self.collaboration_invites = InviteTable::from_entries(&collaboration_invites);
        let ghost s0 = *self;
        let ghost fsv = folders@.map_values(|f: Folder| f@);
        let ghost msv = metas@.map_values(|m0: NoteMetadata| m0@);
        let nf = folders.len();
        let mut i: usize = 0;
        while i < nf
            invariant
                i <= nf,
                nf == fsv.len(),
                fsv == folders@.map_values(|f: Folder| f@),
                s0.wf(),
                spec_import_ok(s0, fsv, msv),
                self.drive == s0.drive,
                self.notes == s0.notes,
                self.contents == s0.contents,
                self.collaboration_invites == s0.collaboration_invites,
                self.folders.wf(),
                self.root_items.wf(),
                self.folders@ =~= spec_fold_folders(s0.folders@, fsv.subrange(0, i as int)),
                forall|k: Seq<char>|
                    #[trigger] self.folders@.contains_key(k) ==> self.folders@[k].id == k,
                forall|k: Seq<char>|
                    #[trigger] self.folders@.contains_key(k) ==> !self.notes@.contains_key(k),
                forall|k: Seq<char>|
                    #[trigger] self.folders@.contains_key(k) ==> (self.folders@[k].parent_id
                        matches Some(pa) ==> self.folders@.contains_key(pa) || exists|j: int|
                        0 <= j < nf && fsv[j].id == pa),
                forall|k: Seq<char>|
                    #[trigger] self.notes@.contains_key(k) ==> self.notes@[k].id == k,
                forall|k: Seq<char>|
                    #[trigger] self.notes@.contains_key(k) ==> (self.notes@[k].folder_id
                        matches Some(f) ==> self.folders@.contains_key(f)),
                forall|x: Seq<char>|
                    #[trigger] self.root_items@.contains(x) <==> self.spec_is_root(x),
                s0.folders@.dom().subset_of(self.folders@.dom()),
            decreases nf - i,
        {
            let ghost pre = fsv.subrange(0, i as int);
            let ghost post = fsv.subrange(0, i as int + 1);
            proof {
                assert(post.drop_last() =~= pre);
                assert(post.last() == fsv[i as int]);
                assert(fsv[i as int] == folders@[i as int]@);
            }
            let f = folders[i].clone();
            let fid = f.id.clone();
            let at_root = f.parent_id.is_none();
            self.folders.insert(fid.clone(), f);
            self.root_items.remove(&fid);
            if at_root {
                self.root_items.insert(fid);
            }
            i = i + 1;
        }
        proof {
            assert(fsv.subrange(0, nf as int) =~= fsv);
            lemma_fold_folders_facts(s0.folders@, fsv);
        }
        let ghost s1 = *self;
        let nm = metas.len();
        if inline {
            let mut i2: usize = 0;
            let ghost nsv = notes@.map_values(|n: Note| n@);
            while i2 < nm
                invariant
                    i2 <= nm,
                    nm == msv.len(),
                    nm == nsv.len(),
                    msv == metas@.map_values(|m0: NoteMetadata| m0@),
                    nsv == notes@.map_values(|n: Note| n@),
                    forall|p: int| 0 <= p < nm ==> msv[p] == meta_of_note(#[trigger] nsv[p]),
                    s1.wf(),
                    spec_import_ok(s1, Seq::<FolderModel>::empty(), msv),
                    self.wf(),
                    self.drive == s1.drive,
                    self.folders == s1.folders,
                    self.collaboration_invites == s1.collaboration_invites,
                    self.notes@ =~= spec_fold_metas(s1.notes@, msv.subrange(0, i2 as int)),
                    self.contents@ =~= spec_insert_norm_contents(
                        s1.contents@,
                        nsv.subrange(0, i2 as int),
                    ),
                decreases nm - i2,
            {
                let ghost prem = msv.subrange(0, i2 as int);
                let ghost postm = msv.subrange(0, i2 as int + 1);
                let ghost pren = nsv.subrange(0, i2 as int);
                let ghost postn = nsv.subrange(0, i2 as int + 1);
                proof {
                    assert(postm.drop_last() =~= prem);
                    assert(postm.last() == msv[i2 as int]);
                    assert(postn.drop_last() =~= pren);
                    assert(postn.last() == nsv[i2 as int]);
                    assert(msv[i2 as int] == metas@[i2 as int]@);
                    assert(nsv[i2 as int] == notes@[i2 as int]@);
                }
                let m0 = metas[i2].clone();
                let mid = m0.id.clone();
                let at_root = m0.folder_id.is_none();
                self.notes.insert(mid.clone(), m0);
                self.root_items.remove(&mid);
                if at_root {
                    self.root_items.insert(mid.clone());
                }
                match self.save_note_content(&mid, &notes[i2].content) {
                    Ok(()) => {},
                    Err(_) => {
                        proof {
                            assert(false);
                        }
                    },
                }
                i2 = i2 + 1;
            }
            proof {
                assert(msv.subrange(0, nm as int) =~= msv);
                assert(nsv.subrange(0, nm as int) =~= nsv);
                assert(md.notes == nsv);
                assert(import_contents(old(self).contents@, data@) == spec_insert_norm_contents(
                    s1.contents@,
                    nsv,
                ));
            }
        } else {
            let mut i2: usize = 0;
            while i2 < nm
                invariant
                    i2 <= nm,
                    nm == msv.len(),
                    msv == metas@.map_values(|m0: NoteMetadata| m0@),
                    s1.wf(),
                    spec_import_ok(s1, Seq::<FolderModel>::empty(), msv),
                    self.wf(),
                    self.drive == s1.drive,
                    self.folders == s1.folders,
                    self.contents == s1.contents,
                    self.collaboration_invites == s1.collaboration_invites,
                    self.notes@ =~= spec_fold_metas(s1.notes@, msv.subrange(0, i2 as int)),
                decreases nm - i2,
            {
                let ghost prem = msv.subrange(0, i2 as int);
                let ghost postm = msv.subrange(0, i2 as int + 1);
                proof {
                    assert(postm.drop_last() =~= prem);
                    assert(postm.last() == msv[i2 as int]);
                    assert(msv[i2 as int] == metas@[i2 as int]@);
                }
                let m0 = metas[i2].clone();
                let mid = m0.id.clone();
                let at_root = m0.folder_id.is_none();
                self.notes.insert(mid.clone(), m0);
                self.root_items.remove(&mid);
                if at_root {
                    self.root_items.insert(mid);
                }
                i2 = i2 + 1;
            }
            proof {
                assert(msv.subrange(0, nm as int) =~= msv);
            }
            let ghost s2 = *self;
            proof {
                extracted.lemma_key_seq();
                lemma_insert_contents_facts(Map::empty(), data@.notes);
                lemma_fold_metas_facts(s1.notes@, msv);
                assert forall|k: Seq<char>| #[trigger] extracted@.contains_key(k)
                    implies self.notes@.contains_key(k) by {
                    if data@.version < crate::migrate::STATE_VERSION_WITH_SEPARATE_FILES {
                        let i = choose|i: int|
                            0 <= i < data@.notes.len() && data@.notes[i].id == k;
                        assert(msv[i] == crate::types::meta_of_note(data@.notes[i]));
                        assert(msv[i].id == k);
                    }
                }
            }
            let ghost eks = extracted.key_seq();
            let ne = extracted.len();
            let mut i3: usize = 0;
            while i3 < ne
                invariant
                    i3 <= ne,
                    ne == eks.len(),
                    eks == extracted.key_seq(),
                    extracted.wf(),
                    s2.wf(),
                    self.wf(),
                    self.drive == s2.drive,
                    self.folders == s2.folders,
                    self.notes == s2.notes,
                    self.collaboration_invites == s2.collaboration_invites,
                    self.contents@ =~= s2.contents@.union_prefer_right(
                        Map::new(
                            |k: Seq<char>| exists|j: int| 0 <= j < i3 && eks[j] == k,
                            |k: Seq<char>| extracted@[k],
                        ),
                    ),
                    forall|k: Seq<char>|
                        #[trigger] extracted@.contains_key(k) ==> self.notes@.contains_key(k),
                decreases ne - i3,
            {
                proof {
                    extracted.lemma_key_seq();
                }
                let key = extracted.key_at(i3).clone();
                let value = crate::types::clone_byte_vec(extracted.value_at(i3));
                proof {
                    assert(extracted@.contains_key(eks[i3 as int]));
                }
                self.contents.insert(key, value);
                proof {
                    assert(self.contents@ =~= s2.contents@.union_prefer_right(
                        Map::new(
                            |k: Seq<char>| exists|j: int| 0 <= j < i3 + 1 && eks[j] == k,
                            |k: Seq<char>| extracted@[k],
                        ),
                    ));
                }
                i3 = i3 + 1;
            }
            proof {
                extracted.lemma_key_seq();
                assert forall|k: Seq<char>| #[trigger] extracted@.contains_key(k) implies exists|
                    j: int,
                | 0 <= j < ne && eks[j] == k by {
                    assert(extracted.key_seq().contains(k));
                }
                assert forall|k: Seq<char>| (exists|j: int| 0 <= j < ne && eks[j] == k)
                    implies #[trigger] extracted@.contains_key(k) by {
                    let j = choose|j: int| 0 <= j < ne && eks[j] == k;
                    assert(extracted@.contains_key(eks[j]));
                }
                assert(Map::new(
                    |k: Seq<char>| exists|j: int| 0 <= j < ne && eks[j] == k,
                    |k: Seq<char>| extracted@[k],
                ) =~= extracted@);
                assert(self.contents@ =~= s2.contents@.union_prefer_right(extracted@));
            }
        }
        Ok(())
    }

    /// Rebuild a store from a loaded record: an empty store under the
    /// given root, with the record merged in. Exactly a record from a
    /// future version, or one that cannot stand as a tree on its own, is
    /// refused; every other record yields a store.
    pub fn from_export_data(drive: String, data: ExportData) -> (r: Result<State, NoteError>)
        ensures
            if !spec_migrate_ok(data@) {
                r == Err::<State, NoteError>(NoteError::FutureVersion)
            } else if !spec_record_ok(
                spec_migrated(data@).folders,
                import_metas_src(spec_migrated(data@)),
            ) {
                r == Err::<State, NoteError>(NoteError::InvalidImport)
            } else {
                match r {
                    Ok(st) => {
                        &&& st.wf()
                        &&& st.drive@ == drive@
                        &&& st.folders@ =~= spec_fold_folders(
                            Map::empty(),
                            spec_migrated(data@).folders,
                        )
                        &&& st.notes@ =~= spec_fold_metas(
                            Map::empty(),
                            import_metas_src(spec_migrated(data@)),
                        )
                        &&& st.contents@ =~= import_contents(Map::empty(), data@)
                        &&& st.collaboration_invites@ =~= invites_map_of(
                            spec_migrated(data@).collaboration_invites,
                        )
                    },
                    Err(_) => false,
                }
            },
    {
        let st0 = State::new(drive);
        let mut st = st0;
        proof {
            lemma_record_ok_empty(
                st,
                spec_migrated(data@).folders,
                import_metas_src(spec_migrated(data@)),
            );
        }
        match st.import_all(data) {
            Ok(()) => Ok(st),
            Err(e) => Err(e),
        }
    }
}

/// Round trip: importing an export of a well-formed store into a fresh
/// store restores the tree exactly, folders, note metadata, invites, and
/// each note's materialized content alike. The premises are the export's
/// contract and the import's success equations; the import's validation is
/// shown to accept such a record.
pub proof fn lemma_export_import_round_trip(s: State, d: ExportDataModel, t0: State, t1: State)
    requires
        s.wf(),
        d.version == 0,
        folders_listed(d.folders, s.folders@),
        notes_listed(d.notes, s),
        d.note_metadata == Seq::<NoteMetadataModel>::empty(),
        invites_map_of(d.collaboration_invites) == s.collaboration_invites@,
        t0.wf(),
        t1.wf(),
        t0.folders@ == Map::<Seq<char>, FolderModel>::empty(),
        t0.notes@ == Map::<Seq<char>, NoteMetadataModel>::empty(),
        t0.contents@ == Map::<Seq<char>, Seq<u8>>::empty(),
        t1.folders@ == spec_fold_folders(t0.folders@, spec_migrated(d).folders),
        t1.notes@ == spec_fold_metas(t0.notes@, import_metas_src(spec_migrated(d))),
        t1.contents@ == import_contents(t0.contents@, d),
        t1.collaboration_invites@ == invites_map_of(spec_migrated(d).collaboration_invites),
    ensures
        spec_migrate_ok(d),
        spec_import_ok(t0, spec_migrated(d).folders, import_metas_src(spec_migrated(d))),
        t1.folders@ == s.folders@,
        t1.notes@ == s.notes@,
        t1.collaboration_invites@ == s.collaboration_invites@,
        t1.root_items@ =~= s.root_items@,
        forall|id: Seq<char>|
            #[trigger] t1.notes@.contains_key(id) ==> t1.spec_content(id) == s.spec_content(id),
{
    let md = spec_migrated(d);
    let src = import_metas_src(md);
    assert(md.notes =~= Seq::<NoteModel>::empty());
    assert(src == d.notes.map_values(|n: NoteModel| meta_of_note(n)));
    assert(src.len() == d.notes.len());
    assert forall|i: int| 0 <= i < src.len() implies (#[trigger] src[i]) == meta_of_note(
        d.notes[i],
    ) && src[i].id == d.notes[i].id by {}
    assert forall|i: int| 0 <= i < src.len() implies s.notes@.contains_key(
        (#[trigger] src[i]).id,
    ) && s.notes@[src[i].id] == src[i] by {
        assert(d.notes[i] == s.spec_full_note(s.notes@[d.notes[i].id]));
    }
    assert(spec_import_ok(t0, md.folders, src)) by {
        assert forall|p: int|
            0 <= p < md.folders.len() implies ((#[trigger] md.folders[p]).parent_id matches Some(
            pa,
        ) ==> t0.folders@.contains_key(pa) || exists|j: int|
            0 <= j < md.folders.len() && md.folders[j].id == pa) by {
            match md.folders[p].parent_id {
                Some(pa) => {
                    assert(s.folders@.contains_key(md.folders[p].id));
                    assert(s.folders@[md.folders[p].id] == md.folders[p]);
                    assert(s.folders@.contains_key(pa));
                },
                None => {},
            }
        }
        assert forall|p: int|
            0 <= p < src.len() implies ((#[trigger] src[p]).folder_id matches Some(f)
            ==> t0.folders@.contains_key(f) || exists|j: int|
            0 <= j < md.folders.len() && md.folders[j].id == f) by {
            match src[p].folder_id {
                Some(f) => {
                    assert(s.notes@[src[p].id].folder_id == Some(f));
                    assert(s.folders@.contains_key(f));
                },
                None => {},
            }
        }
        assert forall|p: int, q: int|
            0 <= p < md.folders.len() && 0 <= q < src.len() implies md.folders[p].id != src[q].id by {
            assert(s.folders@.contains_key(md.folders[p].id));
            assert(s.notes@.contains_key(src[q].id));
        }
        assert forall|p: int| 0 <= p < md.folders.len() implies !t0.notes@.contains_key(
            (#[trigger] md.folders[p]).id,
        ) by {}
    }
    lemma_fold_folders_facts(t0.folders@, md.folders);
    assert forall|k: Seq<char>| #[trigger] t1.folders@.contains_key(k)
        <==> s.folders@.contains_key(k) by {}
    assert forall|k: Seq<char>| #[trigger] t1.folders@.contains_key(k) implies t1.folders@[k]
        == s.folders@[k] by {
        let i = choose|i: int| 0 <= i < md.folders.len() && md.folders[i].id == k;
        assert(t1.folders@[md.folders[i].id] == md.folders[i]);
        assert(s.folders@[k] == md.folders[i]);
    }
    assert(t1.folders@ =~= s.folders@);
    lemma_fold_metas_facts(t0.notes@, src);
    assert forall|k: Seq<char>| #[trigger] t1.notes@.contains_key(k) implies t1.notes@[k]
        == s.notes@[k] by {
        let i = choose|i: int| 0 <= i < src.len() && src[i].id == k;
        assert(t1.notes@[src[i].id] == src[i]);
        assert(s.notes@[k] == src[i]);
    }
    assert forall|k: Seq<char>| #[trigger] s.notes@.contains_key(k) implies t1.notes@.contains_key(
        k,
    ) by {
        let i = choose|i: int| 0 <= i < d.notes.len() && d.notes[i].id == k;
        assert(src[i].id == k);
    }
    assert(t1.notes@ =~= s.notes@);
    assert forall|x: Seq<char>| #[trigger] t1.root_items@.contains(x)
        <==> s.root_items@.contains(x) by {
        assert(t1.root_items@.contains(x) <==> t1.spec_is_root(x));
        assert(s.root_items@.contains(x) <==> s.spec_is_root(x));
    }
    let ic = crate::migrate::spec_insert_contents(Map::empty(), d.notes);
    assert(spec_migrated_contents(Map::<Seq<char>, Seq<u8>>::empty(), d) == ic);
    assert(t1.contents@ == t0.contents@.union_prefer_right(ic));
    lemma_insert_contents_facts(Map::empty(), d.notes);
    assert forall|id: Seq<char>| #[trigger] t1.notes@.contains_key(id) implies t1.spec_content(id)
        == s.spec_content(id) by {
        let i = choose|i: int| 0 <= i < src.len() && src[i].id == id;
        assert(d.notes[i].id == id);
        assert(ic[id] == d.notes[i].content);
        assert(ic.contains_key(id));
        assert(t1.contents@.contains_key(id));
        assert(t1.contents@[id] == d.notes[i].content);
        assert(d.notes[i].content == s.spec_content(id));
    }
}

/// Persist then reload: rebuilding a store from the record a well-formed
/// store persists restores the folder table, the note table, the invites
/// and the root set exactly. Content is not carried by the current record
/// shape — it lives in side files the surrounding process reads back — so
/// no content claim is made here. The premises are the persisted record's
/// contract and the rebuild's success equations; the rebuild is shown to
/// accept such a record.
pub proof fn lemma_save_load_round_trip(s: State, d: ExportDataModel, t: State)
    requires
        s.wf(),
        d.version == crate::migrate::CURRENT_STATE_VERSION,
        folders_listed(d.folders, s.folders@),
        d.notes == Seq::<NoteModel>::empty(),
        crate::structure::metas_listed(d.note_metadata, s.notes@),
        invites_map_of(d.collaboration_invites) == s.collaboration_invites@,
        t.wf(),
        t.folders@ == spec_fold_folders(Map::empty(), spec_migrated(d).folders),
        t.notes@ == spec_fold_metas(Map::empty(), import_metas_src(spec_migrated(d))),
        t.collaboration_invites@ == invites_map_of(spec_migrated(d).collaboration_invites),
    ensures
        spec_migrate_ok(d),
        spec_record_ok(spec_migrated(d).folders, import_metas_src(spec_migrated(d))),
        t.folders@ == s.folders@,
        t.notes@ == s.notes@,
        t.collaboration_invites@ == s.collaboration_invites@,
        t.root_items@ =~= s.root_items@,
{
    let md = spec_migrated(d);
    assert(md.folders == d.folders);
    assert(md.notes == d.notes);
    let src = import_metas_src(md);
    assert(src == d.note_metadata);
    assert(spec_record_ok(md.folders, src)) by {
        assert forall|p: int|
            0 <= p < md.folders.len() implies ((#[trigger] md.folders[p]).parent_id matches Some(
            pa,
        ) ==> exists|j: int| 0 <= j < md.folders.len() && md.folders[j].id == pa) by {
            match md.folders[p].parent_id {
                Some(pa) => {
                    assert(s.folders@[md.folders[p].id] == md.folders[p]);
                    assert(s.folders@.contains_key(pa));
                },
                None => {},
            }
        }
        assert forall|p: int|
            0 <= p < src.len() implies ((#[trigger] src[p]).folder_id matches Some(f) ==> exists|
            j: int,
        | 0 <= j < md.folders.len() && md.folders[j].id == f) by {
            match src[p].folder_id {
                Some(f) => {
                    assert(s.notes@[src[p].id] == src[p]);
                    assert(s.folders@.contains_key(f));
                },
                None => {},
            }
        }
        assert forall|p: int, q: int|
            0 <= p < md.folders.len() && 0 <= q < src.len() implies md.folders[p].id
            != src[q].id by {
            assert(s.folders@.contains_key(md.folders[p].id));
            assert(s.notes@.contains_key(src[q].id));
        }
    }
    lemma_fold_folders_facts(Map::empty(), md.folders);
    assert forall|k: Seq<char>| #[trigger] t.folders@.contains_key(k) implies t.folders@[k]
        == s.folders@[k] && s.folders@.contains_key(k) by {
        let i = choose|i: int| 0 <= i < md.folders.len() && md.folders[i].id == k;
        assert(t.folders@[md.folders[i].id] == md.folders[i]);
        assert(s.folders@[k] == md.folders[i]);
    }
    assert forall|k: Seq<char>| #[trigger] s.folders@.contains_key(k) implies t.folders@.contains_key(
        k,
    ) by {
        let i = choose|i: int| 0 <= i < d.folders.len() && d.folders[i].id == k;
    }
    assert(t.folders@ =~= s.folders@);
    lemma_fold_metas_facts(Map::empty(), src);
    assert forall|k: Seq<char>| #[trigger] t.notes@.contains_key(k) implies t.notes@[k]
        == s.notes@[k] && s.notes@.contains_key(k) by {
        let i = choose|i: int| 0 <= i < src.len() && src[i].id == k;
        assert(t.notes@[src[i].id] == src[i]);
        assert(s.notes@[k] == src[i]);
    }
    assert forall|k: Seq<char>| #[trigger] s.notes@.contains_key(k) implies t.notes@.contains_key(
        k,
    ) by {
        let i = choose|i: int| 0 <= i < d.note_metadata.len() && d.note_metadata[i].id == k;
        assert(src[i].id == k);
    }
    assert(t.notes@ =~= s.notes@);
    assert forall|x: Seq<char>| #[trigger] t.root_items@.contains(x) <==> s.root_items@.contains(
        x,
    ) by {
        assert(t.root_items@.contains(x) <==> t.spec_is_root(x));
        assert(s.root_items@.contains(x) <==> s.spec_is_root(x));
    }
}

} // verus!
