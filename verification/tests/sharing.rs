use wifenote::state::State;
use wifenote::types::{NoteError, NoteType};

fn store_with_note() -> State {
    let mut s = State::new("notes".to_string());
    s.create_note("n1".to_string(), "todo".to_string(), None, NoteType::Markdown)
        .unwrap();
    s.save_note_content(&"n1".to_string(), &b"secret".to_vec()).unwrap();
    s
}

fn owner() -> String {
    "alice.os".to_string()
}

#[test]
fn owner_reads_own_note() {
    let s = store_with_note();
    let our = owner();
    let n = s.get_note(&"n1".to_string(), Some(&our), &our).unwrap();
    assert_eq!(n.content, b"secret\n".to_vec());
    assert!(n.folder_id.is_none());
}

#[test]
fn stranger_cannot_read_private_note() {
    let s = store_with_note();
    let our = owner();
    let c = "carol.os".to_string();
    let r = s.get_note(&"n1".to_string(), Some(&c), &our);
    assert_eq!(r.unwrap_err(), NoteError::NotAuthorized);
}

#[test]
fn missing_note_and_forbidden_note_read_alike() {
    let s = store_with_note();
    let our = owner();
    let c = "carol.os".to_string();
    let forbidden = s.get_note(&"n1".to_string(), Some(&c), &our).unwrap_err();
    let missing = s.get_note(&"zz".to_string(), Some(&c), &our).unwrap_err();
    assert_eq!(forbidden, missing);
    assert_eq!(forbidden.message(), "Not found or not authorized");
}

#[test]
fn collaborator_reads_after_accepting_invite() {
    let mut s = store_with_note();
    let our = owner();
    let b = "bob.os".to_string();
    s.invite_collaborator(&"n1".to_string(), b.clone(), &our).unwrap();
    let n = s.accept_invite(&"n1".to_string(), &our, &b).unwrap();
    assert_eq!(n.collaborators, vec![b.clone()]);
    let read = s.get_note(&"n1".to_string(), Some(&b), &our).unwrap();
    assert_eq!(read.content, b"secret\n".to_vec());
}

#[test]
fn public_note_read_is_redacted_for_strangers() {
    let mut s = State::new("notes".to_string());
    s.create_folder("f1".to_string(), "Work".to_string(), None).unwrap();
    s.create_note(
        "n1".to_string(),
        "todo".to_string(),
        Some("f1".to_string()),
        NoteType::Markdown,
    )
    .unwrap();
    let our = owner();
    s.invite_collaborator(&"n1".to_string(), "bob.os".to_string(), &our).unwrap();
    s.accept_invite(&"n1".to_string(), &our, &"bob.os".to_string()).unwrap();
    let c = "carol.os".to_string();
    assert!(s.get_note(&"n1".to_string(), Some(&c), &our).is_err());
    s.set_note_public(&"n1".to_string(), true).unwrap();
    let n = s.get_note(&"n1".to_string(), Some(&c), &our).unwrap();
    assert!(n.folder_id.is_none());
    assert!(n.collaborators.is_empty());
    // the owner still sees the full note
    let n = s.get_note(&"n1".to_string(), Some(&our), &our).unwrap();
    assert_eq!(n.folder_id.as_deref(), Some("f1"));
    assert_eq!(n.collaborators, vec!["bob.os".to_string()]);
}

#[test]
fn update_content_requires_authorization() {
    let mut s = store_with_note();
    let our = owner();
    let c = "carol.os".to_string();
    let r = s.update_note_content(&"n1".to_string(), &b"hack".to_vec(), Some(&c), &our);
    assert_eq!(r.unwrap_err(), NoteError::NotAuthorized);
    assert_eq!(s.load_note_content(&"n1".to_string()).unwrap(), b"secret\n".to_vec());
    s.update_note_content(&"n1".to_string(), &b"plan".to_vec(), Some(&our), &our)
        .unwrap();
    assert_eq!(s.load_note_content(&"n1".to_string()).unwrap(), b"plan\n".to_vec());
}

#[test]
fn public_flag_does_not_grant_write() {
    let mut s = store_with_note();
    let our = owner();
    s.set_note_public(&"n1".to_string(), true).unwrap();
    let c = "carol.os".to_string();
    let r = s.update_note_content(&"n1".to_string(), &b"hack".to_vec(), Some(&c), &our);
    assert_eq!(r.unwrap_err(), NoteError::NotAuthorized);
}

#[test]
fn invite_then_reject_leaves_collaborators_unchanged() {
    let mut s = store_with_note();
    let our = owner();
    let b = "bob.os".to_string();
    s.invite_collaborator(&"n1".to_string(), b.clone(), &our).unwrap();
    s.reject_invite(&"n1".to_string(), &our, &b).unwrap();
    let n = s.get_note(&"n1".to_string(), Some(&our), &our).unwrap();
    assert!(n.collaborators.is_empty());
    // the invite is gone
    let r = s.reject_invite(&"n1".to_string(), &our, &b);
    assert_eq!(r.unwrap_err(), NoteError::NoInvite);
}

#[test]
fn accept_invite_requires_matching_inviter() {
    let mut s = store_with_note();
    let our = owner();
    let b = "bob.os".to_string();
    s.invite_collaborator(&"n1".to_string(), b.clone(), &our).unwrap();
    let r = s.accept_invite(&"n1".to_string(), &"mallory.os".to_string(), &b);
    assert_eq!(r.unwrap_err(), NoteError::InvalidInviter);
}

#[test]
fn accept_invite_without_invite_fails() {
    let mut s = store_with_note();
    let b = "bob.os".to_string();
    let r = s.accept_invite(&"n1".to_string(), &owner(), &b);
    assert_eq!(r.unwrap_err(), NoteError::NoInvite);
}

#[test]
fn accepting_twice_does_not_duplicate_collaborator() {
    let mut s = store_with_note();
    let our = owner();
    let b = "bob.os".to_string();
    s.invite_collaborator(&"n1".to_string(), b.clone(), &our).unwrap();
    s.accept_invite(&"n1".to_string(), &our, &b).unwrap();
    s.invite_collaborator(&"n1".to_string(), b.clone(), &our).unwrap();
    let n = s.accept_invite(&"n1".to_string(), &our, &b).unwrap();
    assert_eq!(n.collaborators, vec![b.clone()]);
}

#[test]
fn remove_collaborator_clears_list_and_pending_invite() {
    let mut s = store_with_note();
    let our = owner();
    let b = "bob.os".to_string();
    s.invite_collaborator(&"n1".to_string(), b.clone(), &our).unwrap();
    s.accept_invite(&"n1".to_string(), &our, &b).unwrap();
    s.invite_collaborator(&"n1".to_string(), b.clone(), &our).unwrap();
    let n = s.remove_collaborator(&"n1".to_string(), &b).unwrap();
    assert!(n.collaborators.is_empty());
    let r = s.accept_invite(&"n1".to_string(), &our, &b);
    assert_eq!(r.unwrap_err(), NoteError::NoInvite);
}

#[test]
fn get_invites_lists_pending_for_this_node() {
    let mut s = store_with_note();
    let a = owner();
    let b = "bob.os".to_string();
    s.invite_collaborator(&"n1".to_string(), b.clone(), &a).unwrap();
    let invites = s.get_invites(&b);
    assert_eq!(invites.len(), 1);
    assert_eq!(invites[0].note_id, "n1");
    assert_eq!(invites[0].inviter_node_id, a);
    assert_eq!(invites[0].note_name, "todo");
    assert!(s.get_invites(&"carol.os".to_string()).is_empty());
}
