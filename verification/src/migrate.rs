use vstd::prelude::*;

use crate::idmap::IdMap;
use crate::invites::{InviteEntry, InviteEntryModel};
use crate::types::{
    meta_of_note, Folder, FolderModel, Note, NoteError, NoteMetadata, NoteMetadataModel, NoteModel,
};

verus! {

/// Current version of the persisted record format.
pub const CURRENT_STATE_VERSION: u32 = 1;

/// First version that keeps note content in side files: older records
/// carry every note inline, content included.
pub const STATE_VERSION_WITH_SEPARATE_FILES: u32 = 1;

/// The persisted and exported record: a versioned snapshot of the whole
/// tree. `notes` carries full inline notes (the legacy shape, and the
/// export shape); `note_metadata` carries the current shape, whose content
/// lives in side files.
#[derive(Debug)]
pub struct ExportData {
    pub version: u32,
    pub folders: Vec<Folder>,
    pub notes: Vec<Note>,
    pub note_metadata: Vec<NoteMetadata>,
    pub collaboration_invites: Vec<InviteEntry>,
}

/// The mathematical value of an `ExportData`.
pub struct ExportDataModel {
    pub version: u32,
    pub folders: Seq<FolderModel>,
    pub notes: Seq<NoteModel>,
    pub note_metadata: Seq<NoteMetadataModel>,
    pub collaboration_invites: Seq<InviteEntryModel>,
}

impl View for ExportData {
    type V = ExportDataModel;

    open spec fn view(&self) -> ExportDataModel {
        ExportDataModel {
            version: self.version,
            folders: self.folders@.map_values(|f: Folder| f@),
            notes: self.notes@.map_values(|n: Note| n@),
            note_metadata: self.note_metadata@.map_values(|m: NoteMetadata| m@),
            collaboration_invites: self.collaboration_invites@.map_values(|e: InviteEntry| e@),
        }
    }
}

/// A record is migratable exactly when its version is not from the future.
pub open spec fn spec_migrate_ok(d: ExportDataModel) -> bool {
    d.version <= CURRENT_STATE_VERSION
}

/// The record after migration: a legacy record's inline notes become
/// metadata records (their content moves to the content table), and the
/// version is stamped current.
pub open spec fn spec_migrated(d: ExportDataModel) -> ExportDataModel {
    if d.version < STATE_VERSION_WITH_SEPARATE_FILES {
        ExportDataModel {
            version: CURRENT_STATE_VERSION,
            notes: Seq::empty(),
            note_metadata: d.notes.map_values(|n: NoteModel| meta_of_note(n)),
            ..d
        }
    } else {
        ExportDataModel { version: CURRENT_STATE_VERSION, ..d }
    }
}

/// The content table after the inline contents of `ns` are written into
/// `m`, in order, unnormalized; a later note with the same identifier wins.
pub open spec fn spec_insert_contents(m: Map<Seq<char>, Seq<u8>>, ns: Seq<NoteModel>) -> Map<
    Seq<char>,
    Seq<u8>,
>
    decreases ns.len(),
{
    if ns.len() == 0 {
        m
    } else {
        spec_insert_contents(m, ns.drop_last()).insert(ns.last().id, ns.last().content)
    }
}

/// The content table a migration leaves behind: only a legacy record
/// writes anything.
pub open spec fn spec_migrated_contents(m: Map<Seq<char>, Seq<u8>>, d: ExportDataModel) -> Map<
    Seq<char>,
    Seq<u8>,
> {
    if d.version < STATE_VERSION_WITH_SEPARATE_FILES {
        spec_insert_contents(m, d.notes)
    } else {
        m
    }
}

/// Migrating a record of any tolerated version is idempotent: a second
/// migration returns the record unchanged and writes no content, because
/// the first already stamped it with the current version and moved every
/// inline note out.
pub proof fn lemma_migrate_idempotent(d: ExportDataModel, m: Map<Seq<char>, Seq<u8>>)
    requires
        spec_migrate_ok(d),
    ensures
        spec_migrate_ok(spec_migrated(d)),
        spec_migrated(spec_migrated(d)) == spec_migrated(d),
        spec_migrated_contents(m, spec_migrated(d)) == m,
{
}

/// Normalize a loaded or imported record to the current version, applying
/// the migration steps in order. A legacy record's inline note contents
/// are written, raw, into `extracted`. A record from a future version is
/// refused.
pub fn migrate_export_data(data: ExportData, extracted: &mut IdMap<Vec<u8>>) -> (r: Result<
    ExportData,
    NoteError,
>)
    requires
        old(extracted).wf(),
    ensures
        final(extracted).wf(),
        if spec_migrate_ok(data@) {
            match r {
                Ok(d2) => d2@ == spec_migrated(data@) && final(extracted)@
                    =~= spec_migrated_contents(old(extracted)@, data@),
                Err(_) => false,
            }
        } else {
            r == Err::<ExportData, NoteError>(NoteError::FutureVersion) && *final(extracted)
                == *old(extracted)
        },
{
    if data.version > CURRENT_STATE_VERSION {
        return Err(NoteError::FutureVersion);
    }
    let mut data = data;
    if data.version < STATE_VERSION_WITH_SEPARATE_FILES {
        let ghost ns = data.notes@.map_values(|n: Note| n@);
        let mut metas: Vec<NoteMetadata> = Vec::new();
        let count = data.notes.len();
        let mut i: usize = 0;
        while i < count
            invariant
                i <= count,
                count == data.notes@.len(),
                ns == data.notes@.map_values(|n: Note| n@),
                ns.len() == count,
                extracted.wf(),
                metas@.len() == i,
                forall|p: int| 0 <= p < i ==> metas@[p]@ == meta_of_note(ns[p]),
                extracted@ =~= spec_insert_contents(old(extracted)@, ns.subrange(0, i as int)),
            decreases count - i,
        {
            let ghost pre = ns.subrange(0, i as int);
            let ghost post = ns.subrange(0, i as int + 1);
            proof {
                assert(post.drop_last() =~= pre);
                assert(post.last() == ns[i as int]);
                assert(ns[i as int] == data.notes@[i as int]@);
            }
            let source = &data.notes[i];
            extracted.insert(source.id.clone(), crate::types::clone_byte_vec(&source.content));
            metas.push(NoteMetadata::from(source.clone()));
            i = i + 1;
        }
        proof {
            assert(ns.subrange(0, count as int) =~= ns);
            assert(metas@.map_values(|m0: NoteMetadata| m0@) =~= ns.map_values(
                |n0: NoteModel| meta_of_note(n0),
            ));
        }
        data.note_metadata = metas;
        data.notes = Vec::new();
        data.version = STATE_VERSION_WITH_SEPARATE_FILES;
        proof {
            assert(data@.notes =~= Seq::<NoteModel>::empty());
        }
    }
    data.version = CURRENT_STATE_VERSION;
    Ok(data)
}

} // verus!
