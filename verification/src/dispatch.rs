use vstd::prelude::*;

use crate::codec::{
    import_contents, import_metas_src, spec_fold_folders, spec_fold_metas, spec_import_ok,
};
use crate::content::spec_normalized;
use crate::folder_ops::{spec_chain_hits, spec_reparent_folders, spec_refile_notes};
use crate::invites::invites_map_of;
use crate::migrate::{spec_migrate_ok, spec_migrated, ExportData};
use crate::note_ops::{opt_ref_view, spec_authorized, spec_redacted};
use crate::state::State;
use crate::structure::{folders_listed, notes_listed};
use crate::types::{
    opt_view, Folder, FolderModel, Invite, Note, NoteError, NoteMetadataModel, NoteType,
};

verus! {

/// One request per store operation. Import carries an already-parsed
/// record; export returns one: the surrounding process turns records into
/// serialized, compressed bundles and back.
pub enum Request {
    CreateFolder(String, Option<String>),
    RenameFolder(String, String),
    DeleteFolder(String),
    MoveFolder(String, Option<String>),
    CreateNote(String, Option<String>, NoteType),
    RenameNote(String, String),
    DeleteNote(String),
    MoveNote(String, Option<String>),
    GetNote(String),
    UpdateNoteContent(String, Vec<u8>),
    GetStructure,
    ExportAll,
    SetNotePublic(String, bool),
    InviteCollaborator(String, String),
    RemoveCollaborator(String, String),
    AcceptInvite(String, String),
    RejectInvite(String, String),
    GetInvites,
    ImportAll(ExportData),
}

/// One response per request variant, carrying the operation's payload or
/// its failure as a message string.
pub enum Response {
    CreateFolder(Result<Folder, String>),
    RenameFolder(Result<Folder, String>),
    DeleteFolder(Result<(), String>),
    MoveFolder(Result<Folder, String>),
    CreateNote(Result<Note, String>),
    RenameNote(Result<Note, String>),
    DeleteNote(Result<(), String>),
    MoveNote(Result<Note, String>),
    GetNote(Result<Note, String>),
    UpdateNoteContent(Result<(), String>),
    GetStructure(Result<(Vec<Folder>, Vec<Note>), String>),
    ExportAll(Result<ExportData, String>),
    SetNotePublic(Result<Note, String>),
    InviteCollaborator(Result<Note, String>),
    RemoveCollaborator(Result<Note, String>),
    AcceptInvite(Result<Note, String>),
    RejectInvite(Result<(), String>),
    GetInvites(Result<Vec<Invite>, String>),
    ImportAll(Result<(), String>),
}

/// Translate one request into the store operation it names, apply it, and
/// wrap the outcome. Every business-rule failure is carried as a message
/// inside the response, never thrown. `source` is the requesting node, if
/// one is known; `our_node` is the identity of the node running the store;
/// `fresh_id` is the identifier a creation will use.
#[verifier::rlimit(100)]
pub fn handle_note_request(
    state: &mut State,
    req: Request,
    source: Option<&String>,
    our_node: &String,
    fresh_id: String,
) -> (r: Response)
    requires
        old(state).wf(),
        req matches Request::CreateFolder(..) ==> !old(state).spec_has_id(fresh_id@),
        req matches Request::CreateNote(..) ==> !old(state).spec_has_id(fresh_id@),
    ensures
        final(state).wf(),
        final(state).drive == old(state).drive,
        req matches Request::CreateFolder(name, parent_id) ==> ({
                if old(state).spec_parent_ok(opt_view(parent_id)) {
                    r matches Response::CreateFolder(Ok(f)) && f@ == (FolderModel {
                        id: fresh_id@,
                        name: name@,
                        parent_id: opt_view(parent_id),
                    }) && final(state).folders@ =~= old(state).folders@.insert(fresh_id@, f@)
                        && final(state).notes == old(state).notes && final(state).collaboration_invites == old(state).collaboration_invites && final(state).contents == old(state).contents && final(state).root_items@ =~= (
                    if parent_id is None {
                        old(state).root_items@.insert(fresh_id@)
                    } else {
                        old(state).root_items@
                    })
                } else {
                    r matches Response::CreateFolder(Err(m)) && m@
                        == NoteError::ParentNotFound.spec_message() && *final(state) == *old(state)
                }
        }),
        req matches Request::RenameFolder(id, new_name) ==> ({
                if old(state).folders@.contains_key(id@) {
                    r matches Response::RenameFolder(Ok(f)) && f@ == (FolderModel {
                        name: new_name@,
                        ..old(state).folders@[id@]
                    }) && final(state).folders@ =~= old(state).folders@.insert(id@, f@)
                        && final(state).notes == old(state).notes && final(state).root_items
                        == old(state).root_items && final(state).collaboration_invites == old(state).collaboration_invites && final(state).contents == old(state).contents
                } else {
                    r matches Response::RenameFolder(Err(m)) && m@
                        == NoteError::FolderNotFound.spec_message() && *final(state) == *old(state)
                }
        }),
        req matches Request::DeleteFolder(id) ==> ({
                if old(state).folders@.contains_key(id@) {
                    r matches Response::DeleteFolder(Ok(_)) && final(state).folders@
                        =~= spec_reparent_folders(old(state).folders@, id@) && final(state).notes@
                        =~= spec_refile_notes(old(state).notes@, id@) && final(state).contents
                        == old(state).contents && final(state).collaboration_invites == old(state).collaboration_invites
                } else {
                    r matches Response::DeleteFolder(Err(m)) && m@
                        == NoteError::FolderNotFound.spec_message() && *final(state) == *old(state)
                }
        }),
        req matches Request::MoveFolder(id, new_parent_id) ==> ({
                if !old(state).folders@.contains_key(id@) {
                    r matches Response::MoveFolder(Err(m)) && m@
                        == NoteError::FolderNotFound.spec_message() && *final(state) == *old(state)
                } else if !old(state).spec_parent_ok(opt_view(new_parent_id)) {
                    r matches Response::MoveFolder(Err(m)) && m@
                        == NoteError::ParentNotFound.spec_message() && *final(state) == *old(state)
                } else if spec_chain_hits(
                    old(state).folders@,
                    opt_view(new_parent_id),
                    id@,
                    old(state).folders@.dom().len(),
                ) {
                    r matches Response::MoveFolder(Err(m)) && m@
                        == NoteError::CycleDetected.spec_message() && *final(state) == *old(state)
                } else {
                    r matches Response::MoveFolder(Ok(f)) && f@ == (FolderModel {
                        parent_id: opt_view(new_parent_id),
                        ..old(state).folders@[id@]
                    }) && final(state).folders@ =~= old(state).folders@.insert(id@, f@)
                        && final(state).notes == old(state).notes && final(state).collaboration_invites == old(state).collaboration_invites && final(state).contents == old(state).contents && final(state).root_items@ =~= (
                    if opt_view(new_parent_id) is None {
                        old(state).root_items@.insert(id@)
                    } else {
                        old(state).root_items@.remove(id@)
                    })
                }
        }),
        req matches Request::CreateNote(name, folder_id, note_type) ==> ({
                if old(state).spec_parent_ok(opt_view(folder_id)) {
                    r matches Response::CreateNote(Ok(n)) && n@ == (crate::types::NoteModel {
                        id: fresh_id@,
                        name: name@,
                        folder_id: opt_view(folder_id),
                        note_type,
                        content: Seq::empty(),
                        is_public: false,
                        collaborators: Seq::empty(),
                    }) && final(state).notes@ =~= old(state).notes@.insert(
                        fresh_id@,
                        crate::types::meta_of_note(n@),
                    ) && final(state).contents@ =~= old(state).contents@.insert(
                        fresh_id@,
                        Seq::empty(),
                    ) && final(state).folders == old(state).folders && final(state).collaboration_invites == old(state).collaboration_invites && final(state).root_items@ =~= (if folder_id is None {
                        old(state).root_items@.insert(fresh_id@)
                    } else {
                        old(state).root_items@
                    })
                } else {
                    r matches Response::CreateNote(Err(m)) && m@
                        == NoteError::ParentNotFound.spec_message() && *final(state) == *old(state)
                }
        }),
        req matches Request::RenameNote(id, new_name) ==> ({
                if old(state).notes@.contains_key(id@) {
                    r matches Response::RenameNote(Ok(n)) && n@ == old(state).spec_full_note(
                        NoteMetadataModel { name: new_name@, ..old(state).notes@[id@] },
                    ) && final(state).notes@ =~= old(state).notes@.insert(
                        id@,
                        NoteMetadataModel { name: new_name@, ..old(state).notes@[id@] },
                    ) && final(state).contents == old(state).contents && final(state).folders
                        == old(state).folders && final(state).root_items == old(state).root_items
                        && final(state).collaboration_invites == old(state).collaboration_invites
                } else {
                    r matches Response::RenameNote(Err(m)) && m@
                        == NoteError::NoteNotFound.spec_message() && *final(state) == *old(state)
                }
        }),
        req matches Request::DeleteNote(id) ==> ({
                if old(state).notes@.contains_key(id@) {
                    r matches Response::DeleteNote(Ok(_)) && final(state).notes@ =~= old(state).notes@.remove(id@) && final(state).contents@ =~= old(state).contents@.remove(id@) && final(state).folders == old(state).folders
                        && final(state).collaboration_invites == old(state).collaboration_invites
                        && final(state).root_items@ =~= old(state).root_items@.remove(id@)
                } else {
                    r matches Response::DeleteNote(Err(m)) && m@
                        == NoteError::NoteNotFound.spec_message() && *final(state) == *old(state)
                }
        }),
        req matches Request::MoveNote(id, new_folder_id) ==> ({
                if !old(state).spec_parent_ok(opt_view(new_folder_id)) {
                    r matches Response::MoveNote(Err(m)) && m@
                        == NoteError::ParentNotFound.spec_message() && *final(state) == *old(state)
                } else if !old(state).notes@.contains_key(id@) {
                    r matches Response::MoveNote(Err(m)) && m@
                        == NoteError::NoteNotFound.spec_message() && *final(state) == *old(state)
                } else {
                    r matches Response::MoveNote(Ok(n)) && n@ == old(state).spec_full_note(
                        NoteMetadataModel {
                            folder_id: opt_view(new_folder_id),
                            ..old(state).notes@[id@]
                        },
                    ) && final(state).notes@ =~= old(state).notes@.insert(
                        id@,
                        NoteMetadataModel {
                            folder_id: opt_view(new_folder_id),
                            ..old(state).notes@[id@]
                        },
                    ) && final(state).folders == old(state).folders && final(state).collaboration_invites == old(state).collaboration_invites && final(state).contents == old(state).contents && final(state).root_items@ =~= (
                    if opt_view(new_folder_id) is None {
                        old(state).root_items@.insert(id@)
                    } else {
                        old(state).root_items@.remove(id@)
                    })
                }
        }),
        req matches Request::GetNote(id) ==> ({
                *final(state) == *old(state) && (if old(state).notes@.contains_key(id@) {
                    if spec_authorized(opt_ref_view(source), our_node@, old(state).notes@[id@]) {
                        r matches Response::GetNote(Ok(n)) && n@ == old(state).spec_full_note(
                            old(state).notes@[id@],
                        )
                    } else if old(state).notes@[id@].is_public {
                        r matches Response::GetNote(Ok(n)) && n@ == spec_redacted(
                            old(state).spec_full_note(old(state).notes@[id@]),
                        )
                    } else {
                        r matches Response::GetNote(Err(m)) && m@
                            == NoteError::NotAuthorized.spec_message()
                    }
                } else {
                    r matches Response::GetNote(Err(m)) && m@
                        == NoteError::NotAuthorized.spec_message()
                })
        }),
        req matches Request::UpdateNoteContent(id, content) ==> ({
                if old(state).notes@.contains_key(id@) && spec_authorized(
                    opt_ref_view(source),
                    our_node@,
                    old(state).notes@[id@],
                ) {
                    r matches Response::UpdateNoteContent(Ok(_)) && final(state).contents@
                        =~= old(state).contents@.insert(
                        id@,
                        spec_normalized(old(state).notes@[id@].note_type, content@),
                    ) && final(state).notes == old(state).notes && final(state).folders == old(state).folders && final(state).root_items == old(state).root_items && final(state).collaboration_invites == old(state).collaboration_invites
                } else {
                    r matches Response::UpdateNoteContent(Err(m)) && m@
                        == NoteError::NotAuthorized.spec_message() && *final(state) == *old(state)
                }
        }),
        req matches Request::GetStructure ==> ({
                *final(state) == *old(state) && (r matches Response::GetStructure(Ok(payload))
                    && folders_listed(
                    payload.0@.map_values(|f: Folder| f@),
                    old(state).folders@,
                ) && notes_listed(payload.1@.map_values(|n: Note| n@), *old(state)))
        }),
        req matches Request::ExportAll ==> ({
                *final(state) == *old(state) && (r matches Response::ExportAll(Ok(d)) && d@.version
                    == 0 && folders_listed(d@.folders, old(state).folders@) && notes_listed(
                    d@.notes,
                    *old(state),
                ) && d@.note_metadata =~= Seq::<NoteMetadataModel>::empty() && invites_map_of(
                    d@.collaboration_invites,
                ) =~= old(state).collaboration_invites@)
        }),
        req matches Request::SetNotePublic(id, is_public) ==> ({
                if old(state).notes@.contains_key(id@) {
                    r matches Response::SetNotePublic(Ok(n)) && n@ == old(state).spec_full_note(
                        NoteMetadataModel { is_public, ..old(state).notes@[id@] },
                    ) && final(state).notes@ =~= old(state).notes@.insert(
                        id@,
                        NoteMetadataModel { is_public, ..old(state).notes@[id@] },
                    ) && final(state).contents == old(state).contents && final(state).folders
                        == old(state).folders && final(state).root_items == old(state).root_items
                        && final(state).collaboration_invites == old(state).collaboration_invites
                } else {
                    r matches Response::SetNotePublic(Err(m)) && m@
                        == NoteError::NoteNotFound.spec_message() && *final(state) == *old(state)
                }
        }),
        req matches Request::InviteCollaborator(note_id, node_id) ==> ({
                if old(state).notes@.contains_key(note_id@) {
                    r matches Response::InviteCollaborator(Ok(n)) && n@ == old(state).spec_full_note(old(state).notes@[note_id@]) && final(state).collaboration_invites@ =~= old(state).collaboration_invites@.insert(
                        (note_id@, node_id@),
                        our_node@,
                    ) && final(state).notes == old(state).notes && final(state).folders == old(state).folders && final(state).root_items == old(state).root_items && final(state).contents == old(state).contents
                } else {
                    r matches Response::InviteCollaborator(Err(m)) && m@
                        == NoteError::NoteNotFound.spec_message() && *final(state) == *old(state)
                }
        }),
        req matches Request::RemoveCollaborator(note_id, node_id) ==> ({
                if old(state).notes@.contains_key(note_id@) {
                    r matches Response::RemoveCollaborator(Ok(n)) && final(state).notes@ =~= old(state).notes@.insert(
                        note_id@,
                        NoteMetadataModel {
                            collaborators: old(state).notes@[note_id@].collaborators.filter(
                                |c: Seq<char>| c != node_id@,
                            ),
                            ..old(state).notes@[note_id@]
                        },
                    ) && final(state).collaboration_invites@ =~= old(state).collaboration_invites@.remove((note_id@, node_id@)) && final(state).folders
                        == old(state).folders && final(state).root_items == old(state).root_items
                        && final(state).contents == old(state).contents
                } else {
                    r matches Response::RemoveCollaborator(Err(m)) && m@
                        == NoteError::NoteNotFound.spec_message() && *final(state) == *old(state)
                }
        }),
        req matches Request::AcceptInvite(note_id, inviter_node_id) ==> ({
                if !old(state).collaboration_invites.spec_has_note(note_id@) {
                    r matches Response::AcceptInvite(Err(m)) && m@
                        == NoteError::NoInvite.spec_message() && *final(state) == *old(state)
                } else if !(old(state).collaboration_invites@.contains_key((note_id@, our_node@))
                    && old(state).collaboration_invites@[(note_id@, our_node@)]
                    == inviter_node_id@) {
                    r matches Response::AcceptInvite(Err(m)) && m@
                        == NoteError::InvalidInviter.spec_message() && *final(state) == *old(state)
                } else if !old(state).notes@.contains_key(note_id@) {
                    r matches Response::AcceptInvite(Err(m)) && m@
                        == NoteError::NoteNotFound.spec_message() && *final(state) == *old(state)
                } else {
                    r matches Response::AcceptInvite(Ok(n)) && final(state).notes@ =~= old(state).notes@.insert(note_id@, crate::types::meta_of_note(n@)) && n@.collaborators
                        == (if old(state).notes@[note_id@].collaborators.contains(our_node@) {
                        old(state).notes@[note_id@].collaborators
                    } else {
                        old(state).notes@[note_id@].collaborators.push(our_node@)
                    }) && final(state).collaboration_invites@ =~= old(state).collaboration_invites@.remove((note_id@, our_node@)) && final(state).folders
                        == old(state).folders && final(state).root_items == old(state).root_items
                        && final(state).contents == old(state).contents
                }
        }),
        req matches Request::RejectInvite(note_id, inviter_node_id) ==> ({
                if !old(state).collaboration_invites.spec_has_note(note_id@) {
                    r matches Response::RejectInvite(Err(m)) && m@
                        == NoteError::NoInvite.spec_message() && *final(state) == *old(state)
                } else if !(old(state).collaboration_invites@.contains_key((note_id@, our_node@))
                    && old(state).collaboration_invites@[(note_id@, our_node@)]
                    == inviter_node_id@) {
                    r matches Response::RejectInvite(Err(m)) && m@
                        == NoteError::InvalidInviter.spec_message() && *final(state) == *old(state)
                } else {
                    r matches Response::RejectInvite(Ok(_)) && final(state).collaboration_invites@
                        =~= old(state).collaboration_invites@.remove((note_id@, our_node@))
                        && final(state).notes == old(state).notes && final(state).folders == old(state).folders && final(state).contents == old(state).contents && final(state).root_items == old(state).root_items
                }
        }),
        req matches Request::GetInvites ==> ({
                *final(state) == *old(state) && (r matches Response::GetInvites(Ok(invites))
                    && forall|i: int|
                    0 <= i < invites@.len() ==> {
                        &&& old(state).collaboration_invites@.contains_key(
                            (#[trigger] invites@[i]@.note_id, our_node@),
                        )
                        &&& old(state).collaboration_invites@[(invites@[i]@.note_id, our_node@)]
                            == invites@[i]@.inviter_node_id
                        &&& old(state).notes@.contains_key(invites@[i]@.note_id)
                        &&& invites@[i]@.note_name == old(state).notes@[invites@[i]@.note_id].name
                    } && (forall|k: (Seq<char>, Seq<char>)|
                    #[trigger] old(state).collaboration_invites@.contains_key(k) && k.1
                        == our_node@ && old(state).notes@.contains_key(k.0) ==> exists|i: int|
                        0 <= i < invites@.len() && invites@[i]@.note_id == k.0) && (forall|
                    i: int,
                    j: int,
                |
                    0 <= i < j < invites@.len() ==> invites@[i]@.note_id != invites@[j]@.note_id))
        }),
        req matches Request::ImportAll(data) ==> ({
                if !spec_migrate_ok(data@) {
                    r matches Response::ImportAll(Err(m)) && m@
                        == NoteError::FutureVersion.spec_message() && *final(state) == *old(state)
                } else if !spec_import_ok(
                    *old(state),
                    spec_migrated(data@).folders,
                    import_metas_src(spec_migrated(data@)),
                ) {
                    r matches Response::ImportAll(Err(m)) && m@
                        == NoteError::InvalidImport.spec_message() && *final(state) == *old(state)
                } else {
                    r matches Response::ImportAll(Ok(_)) && final(state).folders@
                        =~= spec_fold_folders(old(state).folders@, spec_migrated(data@).folders)
                        && final(state).notes@ =~= spec_fold_metas(
                        old(state).notes@,
                        import_metas_src(spec_migrated(data@)),
                    ) && final(state).contents@ =~= import_contents(old(state).contents@, data@)
                        && final(state).collaboration_invites@ =~= invites_map_of(
                        spec_migrated(data@).collaboration_invites,
                    )
                }
        }),

{
    match req {
        Request::CreateFolder(name, parent_id) => Response::CreateFolder(
            match state.create_folder(fresh_id, name, parent_id) {
                Ok(f) => Ok(f),
                Err(e) => Err(e.message()),
            },
        ),
        Request::RenameFolder(id, new_name) => Response::RenameFolder(
            match state.rename_folder(&id, new_name) {
                Ok(f) => Ok(f),
                Err(e) => Err(e.message()),
            },
        ),
        Request::DeleteFolder(id) => Response::DeleteFolder(
            match state.delete_folder(&id) {
                Ok(()) => Ok(()),
                Err(e) => Err(e.message()),
            },
        ),
        Request::MoveFolder(id, new_parent_id) => Response::MoveFolder(
            match state.move_folder(&id, new_parent_id) {
                Ok(f) => Ok(f),
                Err(e) => Err(e.message()),
            },
        ),
        Request::CreateNote(name, folder_id, note_type) => Response::CreateNote(
            match state.create_note(fresh_id, name, folder_id, note_type) {
                Ok(n) => Ok(n),
                Err(e) => Err(e.message()),
            },
        ),
        Request::RenameNote(id, new_name) => Response::RenameNote(
            match state.rename_note(&id, new_name) {
                Ok(n) => Ok(n),
                Err(e) => Err(e.message()),
            },
        ),
        Request::DeleteNote(id) => Response::DeleteNote(
            match state.delete_note(&id) {
                Ok(()) => Ok(()),
                Err(e) => Err(e.message()),
            },
        ),
        Request::MoveNote(id, new_folder_id) => Response::MoveNote(
            match state.move_note(&id, new_folder_id) {
                Ok(n) => Ok(n),
                Err(e) => Err(e.message()),
            },
        ),
        Request::GetNote(id) => Response::GetNote(
            match state.get_note(&id, source, our_node) {
                Ok(n) => Ok(n),
                Err(e) => Err(e.message()),
            },
        ),
        Request::UpdateNoteContent(id, content) => Response::UpdateNoteContent(
            match state.update_note_content(&id, &content, source, our_node) {
                Ok(()) => Ok(()),
                Err(e) => Err(e.message()),
            },
        ),
        Request::GetStructure => Response::GetStructure(Ok(state.get_structure())),
        Request::ExportAll => Response::ExportAll(Ok(state.export_all())),
        Request::SetNotePublic(note_id, is_public) => Response::SetNotePublic(
            match state.set_note_public(&note_id, is_public) {
                Ok(n) => Ok(n),
                Err(e) => Err(e.message()),
            },
        ),
        Request::InviteCollaborator(note_id, node_id) => Response::InviteCollaborator(
            match state.invite_collaborator(&note_id, node_id, our_node) {
                Ok(n) => Ok(n),
                Err(e) => Err(e.message()),
            },
        ),
        Request::RemoveCollaborator(note_id, node_id) => Response::RemoveCollaborator(
            match state.remove_collaborator(&note_id, &node_id) {
                Ok(n) => Ok(n),
                Err(e) => Err(e.message()),
            },
        ),
        Request::AcceptInvite(note_id, inviter_node_id) => Response::AcceptInvite(
            match state.accept_invite(&note_id, &inviter_node_id, our_node) {
                Ok(n) => Ok(n),
                Err(e) => Err(e.message()),
            },
        ),
        Request::RejectInvite(note_id, inviter_node_id) => Response::RejectInvite(
            match state.reject_invite(&note_id, &inviter_node_id, our_node) {
                Ok(()) => Ok(()),
                Err(e) => Err(e.message()),
            },
        ),
        Request::GetInvites => Response::GetInvites(Ok(state.get_invites(our_node))),
        Request::ImportAll(data) => Response::ImportAll(
            match state.import_all(data) {
                Ok(()) => Ok(()),
                Err(e) => Err(e.message()),
            },
        ),
    }
}

/// The note a public, unauthenticated fetch returns: only a note marked
/// public is served, and its folder placement and collaborator list are
/// stripped.
pub fn get_public_note(state: &State, note_id: &String) -> (r: Result<Note, String>)
    requires
        state.wf(),
    ensures
        if state.notes@.contains_key(note_id@) && state.notes@[note_id@].is_public {
            r matches Ok(n) && n@ == spec_redacted(
                state.spec_full_note(state.notes@[note_id@]),
            )
        } else if state.notes@.contains_key(note_id@) {
            r matches Err(m) && m@ == "Note is not public"@
        } else {
            r matches Err(m) && m@ == "Note not found"@
        },
{
    match state.notes.get(note_id) {
        Some(metadata) => {
            if metadata.is_public {
                let mut note = state.get_full_note(metadata);
                note.folder_id = None;
                note.collaborators = Vec::new();
                proof {
                    assert(note@.collaborators =~= Seq::<Seq<char>>::empty());
                }
                Ok(note)
            } else {
                Err("Note is not public".to_owned())
            }
        },
        None => Err("Note not found".to_owned()),
    }
}

} // verus!
