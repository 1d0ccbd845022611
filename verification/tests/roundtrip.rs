use wifenote::bundle::{decode_bundle, encode_bundle};
use wifenote::dispatch::{handle_note_request, get_public_note, Request, Response};
use wifenote::invites::InviteEntry;
use wifenote::migrate::{migrate_export_data, ExportData, CURRENT_STATE_VERSION};
use wifenote::idmap::IdMap;
use wifenote::state::State;
use wifenote::types::{Folder, Note, NoteError, NoteType};

fn our() -> String {
    "alice.os".to_string()
}

fn populated() -> State {
    let mut s = State::new("notes".to_string());
    s.create_folder("f1".to_string(), "Work".to_string(), None).unwrap();
    s.create_folder("f2".to_string(), "Deep".to_string(), Some("f1".to_string()))
        .unwrap();
    s.create_note(
        "n1".to_string(),
        "todo".to_string(),
        Some("f1".to_string()),
        NoteType::Markdown,
    )
    .unwrap();
    s.create_note("n2".to_string(), "sketch".to_string(), None, NoteType::Tldraw)
        .unwrap();
    s.save_note_content(&"n1".to_string(), &b"buy milk".to_vec()).unwrap();
    s.save_note_content(&"n2".to_string(), &b"{}".to_vec()).unwrap();
    s.invite_collaborator(&"n1".to_string(), "bob.os".to_string(), &our())
        .unwrap();
    s
}

#[test]
fn export_uses_legacy_inline_shape() {
    let s = populated();
    let d = s.export_all();
    assert_eq!(d.version, 0);
    assert_eq!(d.folders.len(), 2);
    assert_eq!(d.notes.len(), 2);
    assert!(d.note_metadata.is_empty());
    assert_eq!(d.collaboration_invites.len(), 1);
    let todo = d.notes.iter().find(|n| n.id == "n1").unwrap();
    assert_eq!(todo.content, b"buy milk\n".to_vec());
}

#[test]
fn export_import_restores_equivalent_tree() {
    let s = populated();
    let d = s.export_all();
    let t = State::from_export_data("restore".to_string(), d).unwrap();
    for id in ["f1", "f2"] {
        let a = s.folders.get(&id.to_string()).unwrap();
        let b = t.folders.get(&id.to_string()).unwrap();
        assert_eq!(a.name, b.name);
        assert_eq!(a.parent_id, b.parent_id);
    }
    for id in ["n1", "n2"] {
        let a = s.notes.get(&id.to_string()).unwrap();
        let b = t.notes.get(&id.to_string()).unwrap();
        assert_eq!(a.name, b.name);
        assert_eq!(a.folder_id, b.folder_id);
        assert_eq!(a.note_type, b.note_type);
        assert_eq!(a.is_public, b.is_public);
        assert_eq!(a.collaborators, b.collaborators);
        assert_eq!(
            s.load_note_content(&id.to_string()).unwrap(),
            t.load_note_content(&id.to_string()).unwrap()
        );
    }
    assert!(t.root_items.contains(&"f1".to_string()));
    assert!(t.root_items.contains(&"n2".to_string()));
    assert!(!t.root_items.contains(&"f2".to_string()));
    assert!(!t.root_items.contains(&"n1".to_string()));
}

#[test]
fn import_merges_over_existing_store() {
    let s = populated();
    let d = s.export_all();
    let mut t = populated();
    t.rename_note(&"n1".to_string(), "scribbles".to_string()).unwrap();
    t.import_all(d).unwrap();
    // the imported record restores the exported name over the rename
    assert_eq!(t.notes.get(&"n1".to_string()).unwrap().name, "todo");
}

#[test]
fn import_from_future_version_rejected() {
    let mut s = State::new("notes".to_string());
    let d = ExportData {
        version: CURRENT_STATE_VERSION + 1,
        folders: Vec::new(),
        notes: Vec::new(),
        note_metadata: Vec::new(),
        collaboration_invites: Vec::new(),
    };
    assert_eq!(s.import_all(d).unwrap_err(), NoteError::FutureVersion);
}

#[test]
fn import_with_dangling_parent_rejected() {
    let mut s = State::new("notes".to_string());
    let d = ExportData {
        version: CURRENT_STATE_VERSION,
        folders: vec![Folder {
            id: "f1".to_string(),
            name: "Orphan".to_string(),
            parent_id: Some("ghost".to_string()),
        }],
        notes: Vec::new(),
        note_metadata: Vec::new(),
        collaboration_invites: Vec::new(),
    };
    assert_eq!(s.import_all(d).unwrap_err(), NoteError::InvalidImport);
    assert!(!s.folders.contains_key(&"f1".to_string()));
}

#[test]
fn migrate_moves_inline_content_to_side_files() {
    let legacy = ExportData {
        version: 0,
        folders: Vec::new(),
        notes: vec![Note {
            id: "n9".to_string(),
            name: "old".to_string(),
            folder_id: None,
            note_type: NoteType::Markdown,
            content: b"vintage".to_vec(),
            is_public: false,
            collaborators: Vec::new(),
        }],
        note_metadata: Vec::new(),
        collaboration_invites: Vec::new(),
    };
    let mut extracted: IdMap<Vec<u8>> = IdMap::new();
    let d = migrate_export_data(legacy, &mut extracted).unwrap();
    assert_eq!(d.version, CURRENT_STATE_VERSION);
    assert!(d.notes.is_empty());
    assert_eq!(d.note_metadata.len(), 1);
    assert_eq!(d.note_metadata[0].id, "n9");
    // migration writes the bytes as they were, without normalization
    assert_eq!(extracted.get(&"n9".to_string()).unwrap(), &b"vintage".to_vec());
}

#[test]
fn migrate_twice_equals_migrate_once() {
    let legacy = ExportData {
        version: 0,
        folders: vec![Folder { id: "f1".to_string(), name: "A".to_string(), parent_id: None }],
        notes: vec![Note {
            id: "n9".to_string(),
            name: "old".to_string(),
            folder_id: Some("f1".to_string()),
            note_type: NoteType::Tldraw,
            content: b"{}".to_vec(),
            is_public: true,
            collaborators: vec!["bob.os".to_string()],
        }],
        note_metadata: Vec::new(),
        collaboration_invites: vec![InviteEntry {
            note_id: "n9".to_string(),
            invitee_node_id: "bob.os".to_string(),
            inviter_node_id: "alice.os".to_string(),
        }],
    };
    let mut e1: IdMap<Vec<u8>> = IdMap::new();
    let once = migrate_export_data(legacy, &mut e1).unwrap();
    let mut e2: IdMap<Vec<u8>> = IdMap::new();
    let twice = migrate_export_data(once, &mut e2).unwrap();
    assert_eq!(twice.version, CURRENT_STATE_VERSION);
    assert!(twice.notes.is_empty());
    assert_eq!(twice.note_metadata.len(), 1);
    let m = &twice.note_metadata[0];
    assert_eq!(m.id, "n9");
    assert_eq!(m.name, "old");
    assert_eq!(m.folder_id.as_deref(), Some("f1"));
    assert_eq!(m.note_type, NoteType::Tldraw);
    assert!(m.is_public);
    assert_eq!(m.collaborators, vec!["bob.os".to_string()]);
    assert_eq!(twice.folders.len(), 1);
    assert_eq!(twice.collaboration_invites.len(), 1);
    // the second migration extracts nothing
    assert_eq!(e2.len(), 0);
}

#[test]
fn bundle_round_trip_restores_bytes() {
    let payload = b"{\"version\":0,\"folders\":[]}".to_vec();
    let packed = encode_bundle(&payload);
    assert_ne!(packed, payload);
    assert_eq!(decode_bundle(&packed).unwrap(), payload);
}

#[test]
fn bundle_decode_rejects_garbage() {
    assert!(decode_bundle(&b"not gzip at all".to_vec()).is_err());
}

#[test]
fn public_endpoint_serves_only_public_notes() {
    let mut s = populated();
    let r = get_public_note(&s, &"n1".to_string());
    assert_eq!(r.unwrap_err(), "Note is not public");
    let r = get_public_note(&s, &"zz".to_string());
    assert_eq!(r.unwrap_err(), "Note not found");
    s.set_note_public(&"n1".to_string(), true).unwrap();
    let n = get_public_note(&s, &"n1".to_string()).unwrap();
    assert_eq!(n.content, b"buy milk\n".to_vec());
    assert!(n.folder_id.is_none());
    assert!(n.collaborators.is_empty());
}

#[test]
fn end_to_end_scenario_through_dispatcher() {
    let mut s = State::new("notes".to_string());
    let node = our();
    let r = handle_note_request(
        &mut s,
        Request::CreateFolder("Work".to_string(), None),
        Some(&node),
        &node,
        "F1".to_string(),
    );
    let f1 = match r {
        Response::CreateFolder(Ok(f)) => f,
        _ => panic!("folder creation failed"),
    };
    assert_eq!(f1.id, "F1");

    let r = handle_note_request(
        &mut s,
        Request::CreateNote("todo".to_string(), Some("F1".to_string()), NoteType::Markdown),
        Some(&node),
        &node,
        "N1".to_string(),
    );
    let n1 = match r {
        Response::CreateNote(Ok(n)) => n,
        _ => panic!("note creation failed"),
    };
    assert_eq!(n1.id, "N1");
    assert_eq!(n1.content, Vec::<u8>::new());

    let r = handle_note_request(
        &mut s,
        Request::UpdateNoteContent("N1".to_string(), b"buy milk".to_vec()),
        Some(&node),
        &node,
        "unused".to_string(),
    );
    assert!(matches!(r, Response::UpdateNoteContent(Ok(()))));
    assert_eq!(s.load_note_content(&"N1".to_string()).unwrap(), b"buy milk\n".to_vec());

    let r = handle_note_request(
        &mut s,
        Request::GetStructure,
        Some(&node),
        &node,
        "unused".to_string(),
    );
    match r {
        Response::GetStructure(Ok((folders, notes))) => {
            assert_eq!(folders.len(), 1);
            assert_eq!(folders[0].id, "F1");
            assert_eq!(notes.len(), 1);
            assert_eq!(notes[0].id, "N1");
            assert_eq!(notes[0].folder_id.as_deref(), Some("F1"));
            assert_eq!(notes[0].content, b"buy milk\n".to_vec());
        },
        _ => panic!("structure listing failed"),
    }

    let r = handle_note_request(
        &mut s,
        Request::DeleteFolder("F1".to_string()),
        Some(&node),
        &node,
        "unused".to_string(),
    );
    assert!(matches!(r, Response::DeleteFolder(Ok(()))));
    assert!(s.notes.get(&"N1".to_string()).unwrap().folder_id.is_none());
    assert!(s.root_items.contains(&"N1".to_string()));
}

#[test]
fn dispatcher_wraps_errors_as_messages() {
    let mut s = State::new("notes".to_string());
    let node = our();
    let r = handle_note_request(
        &mut s,
        Request::RenameFolder("zz".to_string(), "X".to_string()),
        Some(&node),
        &node,
        "unused".to_string(),
    );
    match r {
        Response::RenameFolder(Err(m)) => assert_eq!(m, "Folder not found"),
        _ => panic!("expected a failure response"),
    }
}

#[test]
fn persisted_record_uses_current_shape() {
    let s = populated();
    let d = s.to_export_data();
    assert_eq!(d.version, CURRENT_STATE_VERSION);
    assert!(d.notes.is_empty());
    assert_eq!(d.note_metadata.len(), 2);
    assert_eq!(d.folders.len(), 2);
    assert_eq!(d.collaboration_invites.len(), 1);
}

#[test]
fn reload_from_persisted_record_restores_tables() {
    let s = populated();
    let d = s.to_export_data();
    let t = State::from_export_data("reload".to_string(), d).unwrap();
    for id in ["f1", "f2"] {
        assert_eq!(
            s.folders.get(&id.to_string()).unwrap().name,
            t.folders.get(&id.to_string()).unwrap().name
        );
    }
    for id in ["n1", "n2"] {
        assert_eq!(
            s.notes.get(&id.to_string()).unwrap().name,
            t.notes.get(&id.to_string()).unwrap().name
        );
    }
    // content lives in side files under the current shape, so the reloaded
    // store has no blobs until they are read back in
    assert_eq!(
        t.load_note_content(&"n1".to_string()).unwrap_err(),
        NoteError::ContentNotFound
    );
    assert!(t.root_items.contains(&"f1".to_string()));
    assert!(t.root_items.contains(&"n2".to_string()));
}

#[test]
fn rebuild_from_future_version_rejected() {
    let d = ExportData {
        version: CURRENT_STATE_VERSION + 1,
        folders: Vec::new(),
        notes: Vec::new(),
        note_metadata: Vec::new(),
        collaboration_invites: Vec::new(),
    };
    match State::from_export_data("fresh".to_string(), d) {
        Err(e) => assert_eq!(e, NoteError::FutureVersion),
        Ok(_) => panic!("a future-version record must be refused"),
    }
}

#[test]
fn rebuild_from_inconsistent_record_rejected() {
    let d = ExportData {
        version: CURRENT_STATE_VERSION,
        folders: vec![
            Folder { id: "dup".to_string(), name: "A".to_string(), parent_id: None },
            Folder { id: "dup".to_string(), name: "B".to_string(), parent_id: None },
        ],
        notes: Vec::new(),
        note_metadata: Vec::new(),
        collaboration_invites: Vec::new(),
    };
    match State::from_export_data("fresh".to_string(), d) {
        Err(e) => assert_eq!(e, NoteError::InvalidImport),
        Ok(_) => panic!("a record with duplicate identifiers must be refused"),
    }
}

#[test]
fn rebuild_accepts_an_empty_record() {
    let d = ExportData {
        version: 0,
        folders: Vec::new(),
        notes: Vec::new(),
        note_metadata: Vec::new(),
        collaboration_invites: Vec::new(),
    };
    let t = State::from_export_data("fresh".to_string(), d).unwrap();
    assert_eq!(t.folders.len(), 0);
    assert_eq!(t.notes.len(), 0);
}
