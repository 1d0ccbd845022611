use vstd::prelude::*;

verus! {

/// Content format of a note: Markdown text, or a structured drawing
/// document. The format decides the content file extension and whether
/// trailing-newline normalization applies.
#[derive(Clone, Copy, PartialEq, Eq, Structural, Debug)]
pub enum NoteType {
    Markdown,
    Tldraw,
}

/// A folder of the content tree. `parent_id == None` means the folder is a
/// root item.
#[derive(Debug)]
pub struct Folder {
    pub id: String,
    pub name: String,
    pub parent_id: Option<String>,
}

/// Note metadata as kept in the store: everything about a note except its
/// content bytes, which live in the content table.
#[derive(Debug)]
pub struct NoteMetadata {
    pub id: String,
    pub name: String,
    pub folder_id: Option<String>,
    pub note_type: NoteType,
    pub is_public: bool,
    pub collaborators: Vec<String>,
}

/// A materialized note: metadata joined with its content bytes. Built on
/// demand; never the unit of storage.
#[derive(Debug)]
pub struct Note {
    pub id: String,
    pub name: String,
    pub folder_id: Option<String>,
    pub note_type: NoteType,
    pub content: Vec<u8>,
    pub is_public: bool,
    pub collaborators: Vec<String>,
}

/// A pending collaboration invite addressed to the querying node, as
/// returned by the invite listing.
#[derive(Debug)]
pub struct Invite {
    pub note_id: String,
    pub inviter_node_id: String,
    pub note_name: String,
}

/// The mathematical value of a `Folder`.
pub struct FolderModel {
    pub id: Seq<char>,
    pub name: Seq<char>,
    pub parent_id: Option<Seq<char>>,
}

/// The mathematical value of a `NoteMetadata`.
pub struct NoteMetadataModel {
    pub id: Seq<char>,
    pub name: Seq<char>,
    pub folder_id: Option<Seq<char>>,
    pub note_type: NoteType,
    pub is_public: bool,
    pub collaborators: Seq<Seq<char>>,
}

/// The mathematical value of a materialized `Note`.
pub struct NoteModel {
    pub id: Seq<char>,
    pub name: Seq<char>,
    pub folder_id: Option<Seq<char>>,
    pub note_type: NoteType,
    pub content: Seq<u8>,
    pub is_public: bool,
    pub collaborators: Seq<Seq<char>>,
}

/// The mathematical value of an `Invite`.
pub struct InviteModel {
    pub note_id: Seq<char>,
    pub inviter_node_id: Seq<char>,
    pub note_name: Seq<char>,
}

/// The view of an optional identifier.
pub open spec fn opt_view(o: Option<String>) -> Option<Seq<char>> {
    match o {
        Some(s) => Some(s@),
        None => None,
    }
}

/// The views of a list of node identifiers.
pub open spec fn strings_view(v: Seq<String>) -> Seq<Seq<char>> {
    v.map_values(|s: String| s@)
}

impl View for Folder {
    type V = FolderModel;

    open spec fn view(&self) -> FolderModel {
        FolderModel { id: self.id@, name: self.name@, parent_id: opt_view(self.parent_id) }
    }
}

impl View for NoteMetadata {
    type V = NoteMetadataModel;

    open spec fn view(&self) -> NoteMetadataModel {
        NoteMetadataModel {
            id: self.id@,
            name: self.name@,
            folder_id: opt_view(self.folder_id),
            note_type: self.note_type,
            is_public: self.is_public,
            collaborators: strings_view(self.collaborators@),
        }
    }
}

impl View for Note {
    type V = NoteModel;

    open spec fn view(&self) -> NoteModel {
        NoteModel {
            id: self.id@,
            name: self.name@,
            folder_id: opt_view(self.folder_id),
            note_type: self.note_type,
            content: self.content@,
            is_public: self.is_public,
            collaborators: strings_view(self.collaborators@),
        }
    }
}

impl View for Invite {
    type V = InviteModel;

    open spec fn view(&self) -> InviteModel {
        InviteModel {
            note_id: self.note_id@,
            inviter_node_id: self.inviter_node_id@,
            note_name: self.note_name@,
        }
    }
}

/// The metadata part of a materialized note.
pub open spec fn meta_of_note(n: NoteModel) -> NoteMetadataModel {
    NoteMetadataModel {
        id: n.id,
        name: n.name,
        folder_id: n.folder_id,
        note_type: n.note_type,
        is_public: n.is_public,
        collaborators: n.collaborators,
    }
}

pub fn clone_opt_string(o: &Option<String>) -> (r: Option<String>)
    ensures
        opt_view(r) == opt_view(*o),
{
    match o {
        Some(s) => Some(s.clone()),
        None => None,
    }
}

pub fn clone_string_vec(v: &Vec<String>) -> (r: Vec<String>)
    ensures
        strings_view(r@) =~= strings_view(v@),
{
    let mut out: Vec<String> = Vec::new();
    let n = v.len();
    let mut i: usize = 0;
    while i < n
        invariant
            i <= n,
            n == v@.len(),
            out@.len() == i,
            forall|j: int| 0 <= j < i ==> out@[j]@ == v@[j]@,
        decreases n - i,
    {
        out.push(v[i].clone());
        i = i + 1;
    }
    out
}

pub fn contains_string(v: &Vec<String>, x: &String) -> (r: bool)
    ensures
        r == strings_view(v@).contains(x@),
{
    let n = v.len();
    let mut i: usize = 0;
    while i < n
        invariant
            i <= n,
            n == v@.len(),
            forall|j: int| 0 <= j < i ==> v@[j]@ != x@,
        decreases n - i,
    {
        if v[i] == *x {
            proof {
                assert(strings_view(v@)[i as int] == x@);
            }
            return true;
        }
        i = i + 1;
    }
    proof {
        if strings_view(v@).contains(x@) {
            let j = choose|j: int| 0 <= j < v@.len() && strings_view(v@)[j] == x@;
            assert(v@[j]@ == x@);
        }
    }
    false
}

/// The list with every occurrence of `x` removed, order kept.
pub fn remove_string_all(v: &Vec<String>, x: &String) -> (r: Vec<String>)
    ensures
        strings_view(r@) =~= strings_view(v@).filter(|c: Seq<char>| c != x@),
{
    let ghost pred = |c: Seq<char>| c != x@;
    let mut out: Vec<String> = Vec::new();
    let n = v.len();
    let mut i: usize = 0;
    while i < n
        invariant
            i <= n,
            n == v@.len(),
            strings_view(out@) =~= strings_view(v@.subrange(0, i as int)).filter(pred),
            pred == (|c: Seq<char>| c != x@),
        decreases n - i,
    {
        let ghost pre = strings_view(v@.subrange(0, i as int));
        let ghost post = strings_view(v@.subrange(0, i as int + 1));
        let ghost out0 = out@;
        proof {
            assert(post.drop_last() =~= pre);
            assert(post.last() == v@[i as int]@);
        }
        if !(v[i] == *x) {
            out.push(v[i].clone());
            proof {
                assert(strings_view(out@) =~= strings_view(out0).push(v@[i as int]@));
            }
        }
        proof {
            reveal(Seq::filter);
            assert(strings_view(out@) =~= post.filter(pred));
        }
        i = i + 1;
    }
    proof {
        assert(v@.subrange(0, n as int) =~= v@);
    }
    out
}

pub fn clone_byte_vec(v: &Vec<u8>) -> (r: Vec<u8>)
    ensures
        r@ == v@,
{
    let mut out: Vec<u8> = Vec::new();
    let n = v.len();
    let mut i: usize = 0;
    while i < n
        invariant
            i <= n,
            n == v@.len(),
            out@ =~= v@.subrange(0, i as int),
        decreases n - i,
    {
        out.push(v[i]);
        i = i + 1;
    }
    proof {
        assert(out@ =~= v@);
    }
    out
}

impl Clone for Folder {
    fn clone(&self) -> (r: Self)
        ensures
            r@ == self@,
    {
        Folder {
            id: self.id.clone(),
            name: self.name.clone(),
            parent_id: clone_opt_string(&self.parent_id),
        }
    }
}

impl Clone for NoteMetadata {
    fn clone(&self) -> (r: Self)
        ensures
            r@ == self@,
    {
        NoteMetadata {
            id: self.id.clone(),
            name: self.name.clone(),
            folder_id: clone_opt_string(&self.folder_id),
            note_type: self.note_type,
            is_public: self.is_public,
            collaborators: clone_string_vec(&self.collaborators),
        }
    }
}

impl Clone for Note {
    fn clone(&self) -> (r: Self)
        ensures
            r@ == self@,
    {
        Note {
            id: self.id.clone(),
            name: self.name.clone(),
            folder_id: clone_opt_string(&self.folder_id),
            note_type: self.note_type,
            content: clone_byte_vec(&self.content),
            is_public: self.is_public,
            collaborators: clone_string_vec(&self.collaborators),
        }
    }
}

impl vstd::std_specs::convert::FromSpecImpl<Note> for NoteMetadata {
    open spec fn obeys_from_spec() -> bool {
        true
    }

    open spec fn from_spec(note: Note) -> NoteMetadata {
        NoteMetadata {
            id: note.id,
            name: note.name,
            folder_id: note.folder_id,
            note_type: note.note_type,
            is_public: note.is_public,
            collaborators: note.collaborators,
        }
    }
}

/// The metadata of a note, discarding its content bytes.
impl From<Note> for NoteMetadata {
    fn from(note: Note) -> (r: NoteMetadata)
        ensures
            r@ == meta_of_note(note@),
    {
        NoteMetadata {
            id: note.id,
            name: note.name,
            folder_id: note.folder_id,
            note_type: note.note_type,
            is_public: note.is_public,
            collaborators: note.collaborators,
        }
    }
}

/// A business-rule failure of a store operation, rendered as a message
/// string at the protocol boundary.
#[derive(Clone, Copy, PartialEq, Eq, Structural, Debug)]
pub enum NoteError {
    FolderNotFound,
    NoteNotFound,
    ParentNotFound,
    NotAuthorized,
    NoInvite,
    InvalidInviter,
    ContentNotFound,
    CycleDetected,
    FutureVersion,
    InvalidImport,
}

impl NoteError {
    /// The message carried in a response for this failure. Authorization
    /// failures read the same as missing notes, so that probing cannot
    /// reveal whether a private note exists.
    pub open spec fn spec_message(self) -> Seq<char> {
        match self {
            NoteError::FolderNotFound => "Folder not found"@,
            NoteError::NoteNotFound => "Note not found"@,
            NoteError::ParentNotFound => "Parent folder not found"@,
            NoteError::NotAuthorized => "Not found or not authorized"@,
            NoteError::NoInvite => "No invite found"@,
            NoteError::InvalidInviter => "Invalid inviter"@,
            NoteError::ContentNotFound => "Error loading note content"@,
            NoteError::CycleDetected => "Cannot move a folder into its own subtree"@,
            NoteError::FutureVersion => "Cannot import data from a newer version"@,
            NoteError::InvalidImport => "Import data is inconsistent"@,
        }
    }

    pub fn message(&self) -> (r: String)
        ensures
            r@ == self.spec_message(),
    {
        match self {
            NoteError::FolderNotFound => "Folder not found".to_owned(),
            NoteError::NoteNotFound => "Note not found".to_owned(),
            NoteError::ParentNotFound => "Parent folder not found".to_owned(),
            NoteError::NotAuthorized => "Not found or not authorized".to_owned(),
            NoteError::NoInvite => "No invite found".to_owned(),
            NoteError::InvalidInviter => "Invalid inviter".to_owned(),
            NoteError::ContentNotFound => "Error loading note content".to_owned(),
            NoteError::CycleDetected => "Cannot move a folder into its own subtree".to_owned(),
            NoteError::FutureVersion => "Cannot import data from a newer version".to_owned(),
            NoteError::InvalidImport => "Import data is inconsistent".to_owned(),
        }
    }
}

} // verus!
