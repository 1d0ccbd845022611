use wifenote::state::State;
use wifenote::types::{NoteError, NoteType};

fn fresh() -> State {
    State::new("notes".to_string())
}

#[test]
fn create_folder_at_root() {
    let mut s = fresh();
    let f = s
        .create_folder("f1".to_string(), "Work".to_string(), None)
        .unwrap();
    assert_eq!(f.id, "f1");
    assert_eq!(f.name, "Work");
    assert!(f.parent_id.is_none());
    assert!(s.folders.contains_key(&"f1".to_string()));
    assert!(s.root_items.contains(&"f1".to_string()));
}

#[test]
fn create_folder_nested_not_in_root_set() {
    let mut s = fresh();
    s.create_folder("f1".to_string(), "Work".to_string(), None)
        .unwrap();
    let sub = s
        .create_folder("f2".to_string(), "Inbox".to_string(), Some("f1".to_string()))
        .unwrap();
    assert_eq!(sub.parent_id.as_deref(), Some("f1"));
    assert!(!s.root_items.contains(&"f2".to_string()));
}

#[test]
fn create_folder_missing_parent_rejected() {
    let mut s = fresh();
    let r = s.create_folder("f1".to_string(), "Work".to_string(), Some("nope".to_string()));
    assert_eq!(r.unwrap_err(), NoteError::ParentNotFound);
    assert!(!s.folders.contains_key(&"f1".to_string()));
}

#[test]
fn rename_folder_replaces_name() {
    let mut s = fresh();
    s.create_folder("f1".to_string(), "Work".to_string(), None)
        .unwrap();
    let f = s.rename_folder(&"f1".to_string(), "Home".to_string()).unwrap();
    assert_eq!(f.name, "Home");
    assert_eq!(s.folders.get(&"f1".to_string()).unwrap().name, "Home");
}

#[test]
fn rename_folder_not_found() {
    let mut s = fresh();
    let r = s.rename_folder(&"zz".to_string(), "Home".to_string());
    assert_eq!(r.unwrap_err(), NoteError::FolderNotFound);
}

#[test]
fn move_folder_updates_root_set_symmetrically() {
    let mut s = fresh();
    s.create_folder("f1".to_string(), "A".to_string(), None).unwrap();
    s.create_folder("f2".to_string(), "B".to_string(), None).unwrap();
    let f = s.move_folder(&"f2".to_string(), Some("f1".to_string())).unwrap();
    assert_eq!(f.parent_id.as_deref(), Some("f1"));
    assert!(!s.root_items.contains(&"f2".to_string()));
    let f = s.move_folder(&"f2".to_string(), None).unwrap();
    assert!(f.parent_id.is_none());
    assert!(s.root_items.contains(&"f2".to_string()));
}

#[test]
fn move_folder_missing_parent() {
    let mut s = fresh();
    s.create_folder("f1".to_string(), "A".to_string(), None).unwrap();
    let r = s.move_folder(&"f1".to_string(), Some("zz".to_string()));
    assert_eq!(r.unwrap_err(), NoteError::ParentNotFound);
}

#[test]
fn move_folder_into_own_subtree_rejected() {
    let mut s = fresh();
    s.create_folder("f1".to_string(), "A".to_string(), None).unwrap();
    s.create_folder("f2".to_string(), "B".to_string(), Some("f1".to_string()))
        .unwrap();
    s.create_folder("f3".to_string(), "C".to_string(), Some("f2".to_string()))
        .unwrap();
    let r = s.move_folder(&"f1".to_string(), Some("f3".to_string()));
    assert_eq!(r.unwrap_err(), NoteError::CycleDetected);
    let r = s.move_folder(&"f1".to_string(), Some("f1".to_string()));
    assert_eq!(r.unwrap_err(), NoteError::CycleDetected);
    assert!(s.folders.get(&"f1".to_string()).unwrap().parent_id.is_none());
}

#[test]
fn delete_folder_reparents_children_not_cascade() {
    let mut s = fresh();
    s.create_folder("f".to_string(), "F".to_string(), None).unwrap();
    s.create_folder("c1".to_string(), "Sub".to_string(), Some("f".to_string()))
        .unwrap();
    s.create_note(
        "c2".to_string(),
        "Note".to_string(),
        Some("f".to_string()),
        NoteType::Markdown,
    )
    .unwrap();
    s.delete_folder(&"f".to_string()).unwrap();
    assert!(!s.folders.contains_key(&"f".to_string()));
    let c1 = s.folders.get(&"c1".to_string()).unwrap();
    assert!(c1.parent_id.is_none());
    let c2 = s.notes.get(&"c2".to_string()).unwrap();
    assert!(c2.folder_id.is_none());
    assert!(s.root_items.contains(&"c1".to_string()));
    assert!(s.root_items.contains(&"c2".to_string()));
}

#[test]
fn delete_folder_not_found() {
    let mut s = fresh();
    assert_eq!(
        s.delete_folder(&"zz".to_string()).unwrap_err(),
        NoteError::FolderNotFound
    );
}

#[test]
fn create_note_starts_with_empty_content() {
    let mut s = fresh();
    let n = s
        .create_note("n1".to_string(), "todo".to_string(), None, NoteType::Markdown)
        .unwrap();
    assert_eq!(n.content, Vec::<u8>::new());
    assert!(!n.is_public);
    assert!(n.collaborators.is_empty());
    assert_eq!(s.load_note_content(&"n1".to_string()).unwrap(), Vec::<u8>::new());
    assert!(s.root_items.contains(&"n1".to_string()));
}

#[test]
fn create_note_missing_folder_rejected() {
    let mut s = fresh();
    let r = s.create_note(
        "n1".to_string(),
        "todo".to_string(),
        Some("zz".to_string()),
        NoteType::Markdown,
    );
    assert_eq!(r.unwrap_err(), NoteError::ParentNotFound);
}

#[test]
fn markdown_content_gains_trailing_newline() {
    let mut s = fresh();
    s.create_note("n1".to_string(), "todo".to_string(), None, NoteType::Markdown)
        .unwrap();
    s.save_note_content(&"n1".to_string(), &b"hello".to_vec()).unwrap();
    assert_eq!(s.load_note_content(&"n1".to_string()).unwrap(), b"hello\n".to_vec());
}

#[test]
fn markdown_content_with_newline_kept() {
    let mut s = fresh();
    s.create_note("n1".to_string(), "todo".to_string(), None, NoteType::Markdown)
        .unwrap();
    s.save_note_content(&"n1".to_string(), &b"hello\n".to_vec()).unwrap();
    assert_eq!(s.load_note_content(&"n1".to_string()).unwrap(), b"hello\n".to_vec());
}

#[test]
fn drawing_content_never_modified() {
    let mut s = fresh();
    s.create_note("n1".to_string(), "sketch".to_string(), None, NoteType::Tldraw)
        .unwrap();
    s.save_note_content(&"n1".to_string(), &b"{\"shapes\":[]}".to_vec())
        .unwrap();
    assert_eq!(
        s.load_note_content(&"n1".to_string()).unwrap(),
        b"{\"shapes\":[]}".to_vec()
    );
}

#[test]
fn empty_markdown_content_stays_empty() {
    let mut s = fresh();
    s.create_note("n1".to_string(), "todo".to_string(), None, NoteType::Markdown)
        .unwrap();
    s.save_note_content(&"n1".to_string(), &Vec::new()).unwrap();
    assert_eq!(s.load_note_content(&"n1".to_string()).unwrap(), Vec::<u8>::new());
}

#[test]
fn delete_note_removes_content_and_root_entry() {
    let mut s = fresh();
    s.create_note("n1".to_string(), "todo".to_string(), None, NoteType::Markdown)
        .unwrap();
    s.delete_note(&"n1".to_string()).unwrap();
    assert!(!s.notes.contains_key(&"n1".to_string()));
    assert!(!s.root_items.contains(&"n1".to_string()));
    assert_eq!(
        s.load_note_content(&"n1".to_string()).unwrap_err(),
        NoteError::NoteNotFound
    );
}

#[test]
fn move_note_between_root_and_folder() {
    let mut s = fresh();
    s.create_folder("f1".to_string(), "A".to_string(), None).unwrap();
    s.create_note("n1".to_string(), "todo".to_string(), None, NoteType::Markdown)
        .unwrap();
    let n = s.move_note(&"n1".to_string(), Some("f1".to_string())).unwrap();
    assert_eq!(n.folder_id.as_deref(), Some("f1"));
    assert!(!s.root_items.contains(&"n1".to_string()));
    let n = s.move_note(&"n1".to_string(), None).unwrap();
    assert!(n.folder_id.is_none());
    assert!(s.root_items.contains(&"n1".to_string()));
}

#[test]
fn get_note_extension_by_kind() {
    assert_eq!(State::get_note_extension(&NoteType::Markdown), "md");
    assert_eq!(State::get_note_extension(&NoteType::Tldraw), "json");
}

#[test]
fn generate_id_is_nonempty_digits() {
    let id = State::generate_id();
    assert!(!id.is_empty());
    assert!(id.chars().all(|c| c.is_ascii_digit()));
}

#[test]
fn error_messages_match_protocol() {
    assert_eq!(NoteError::FolderNotFound.message(), "Folder not found");
    assert_eq!(NoteError::NoteNotFound.message(), "Note not found");
    assert_eq!(NoteError::ParentNotFound.message(), "Parent folder not found");
    assert_eq!(NoteError::NotAuthorized.message(), "Not found or not authorized");
    assert_eq!(NoteError::NoInvite.message(), "No invite found");
    assert_eq!(NoteError::InvalidInviter.message(), "Invalid inviter");
}
