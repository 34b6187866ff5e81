//! The commands that requests send to the note database, and what each one does
//! to the documents it reaches.

use vstd::prelude::*;

use crate::model::{
    folders_view, strings_view, Folder, FolderView, NoteView, Prefs, PrefsView, UserView,
};
use crate::object_id::ObjectId;

verus! {

/// A change to one user document.
pub enum UserChange {
    /// Appends a note id to the user's notes.
    PushNote { note_id: String },
    /// Removes every occurrence of a note id from the user's notes.
    PullNote { note_id: String },
    /// Removes from the user's notes every id that the list holds.
    PullNotes { note_ids: Vec<String> },
    /// Appends a folder to the user's folders.
    PushFolder { folder: Folder },
    /// Removes every folder with the given id.
    PullFolder { folder_id: String },
    /// Sets the note that the user last opened.
    SetLastNote { last_note: String },
    /// Sets the user's editor preferences.
    SetPrefs { prefs: Prefs },
    /// Replaces the first folder whose id is the given folder's id, where there is one.
    ReplaceFolder { folder: Folder },
    /// Sets the whole list of the user's folders.
    SetFolders { folders: Vec<Folder> },
}

/// A change to a user document, as plain values.
pub enum UserChangeView {
    PushNote { note_id: Seq<char> },
    PullNote { note_id: Seq<char> },
    PullNotes { note_ids: Seq<Seq<char>> },
    PushFolder { folder: FolderView },
    PullFolder { folder_id: Seq<char> },
    SetLastNote { last_note: Seq<char> },
    SetPrefs { prefs: PrefsView },
    ReplaceFolder { folder: FolderView },
    SetFolders { folders: Seq<FolderView> },
}

impl View for UserChange {
    type V = UserChangeView;

    open spec fn view(&self) -> UserChangeView {
        match self {
            UserChange::PushNote { note_id } => UserChangeView::PushNote { note_id: note_id@ },
            UserChange::PullNote { note_id } => UserChangeView::PullNote { note_id: note_id@ },
            UserChange::PullNotes { note_ids } => UserChangeView::PullNotes {
                note_ids: strings_view(note_ids@),
            },
            UserChange::PushFolder { folder } => UserChangeView::PushFolder { folder: folder@ },
            UserChange::PullFolder { folder_id } => UserChangeView::PullFolder {
                folder_id: folder_id@,
            },
            UserChange::SetLastNote { last_note } => UserChangeView::SetLastNote {
                last_note: last_note@,
            },
            UserChange::SetPrefs { prefs } => UserChangeView::SetPrefs { prefs: prefs@ },
            UserChange::ReplaceFolder { folder } => UserChangeView::ReplaceFolder {
                folder: folder@,
            },
            UserChange::SetFolders { folders } => UserChangeView::SetFolders {
                folders: folders_view(folders@),
            },
        }
    }
}

/// A change to the user document with the given email.
pub struct UserCommand {
    pub email: String,
    pub change: UserChange,
}

/// A user command, as plain values.
pub struct UserCommandView {
    pub email: Seq<char>,
    pub change: UserChangeView,
}

impl View for UserCommand {
    type V = UserCommandView;

    open spec fn view(&self) -> UserCommandView {
        UserCommandView { email: self.email@, change: self.change@ }
    }
}

/// Which notes a query reaches.
pub enum NoteQuery {
    /// Every note.
    All,
    /// The note with the given id.
    ById { id: ObjectId },
    /// The notes whose id is in the list.
    IdIn { ids: Vec<ObjectId> },
    /// The notes filed in the folder with the given id.
    InFolder { folder: String },
}

/// A note query, as plain values.
pub enum NoteQueryView {
    All,
    ById { id: Seq<u8> },
    IdIn { ids: Seq<Seq<u8>> },
    InFolder { folder: Seq<char> },
}

/// The plain values of a list of ids.
pub open spec fn ids_view(ids: Seq<ObjectId>) -> Seq<Seq<u8>> {
    ids.map_values(|id: ObjectId| id.bytes@)
}

impl View for NoteQuery {
    type V = NoteQueryView;

    open spec fn view(&self) -> NoteQueryView {
        match self {
            NoteQuery::All => NoteQueryView::All,
            NoteQuery::ById { id } => NoteQueryView::ById { id: id.bytes@ },
            NoteQuery::IdIn { ids } => NoteQueryView::IdIn { ids: ids_view(ids@) },
            NoteQuery::InFolder { folder } => NoteQueryView::InFolder { folder: folder@ },
        }
    }
}

/// Whether a query reaches a note.
pub open spec fn note_matches(query: NoteQueryView, note: NoteView) -> bool {
    match query {
        NoteQueryView::All => true,
        NoteQueryView::ById { id } => note.id == id,
        NoteQueryView::IdIn { ids } => ids.contains(note.id),
        NoteQueryView::InFolder { folder } => note.folder == folder,
    }
}

/// The fields that an update of a note sets.
pub struct NoteFields {
    pub title: String,
    pub text: String,
    pub folder: String,
    pub index: i32,
}

/// The fields of a note update, as plain values.
pub struct NoteFieldsView {
    pub title: Seq<char>,
    pub text: Seq<char>,
    pub folder: Seq<char>,
    pub index: i32,
}

impl View for NoteFields {
    type V = NoteFieldsView;

    open spec fn view(&self) -> NoteFieldsView {
        NoteFieldsView {
            title: self.title@,
            text: self.text@,
            folder: self.folder@,
            index: self.index,
        }
    }
}

/// A note after an update sets the given fields; its id stays.
pub open spec fn apply_note_fields(fields: NoteFieldsView, note: NoteView) -> NoteView {
    NoteView {
        id: note.id,
        title: fields.title,
        text: fields.text,
        folder: fields.folder,
        index: fields.index,
    }
}

/// The position of the first folder with the given id, or -1 where there is none.
pub open spec fn first_folder_index(folders: Seq<FolderView>, id: Seq<char>) -> int
    decreases folders.len(),
{
    if folders.len() == 0 {
        -1
    } else if folders[0].id == id {
        0
    } else {
        let rest = first_folder_index(folders.drop_first(), id);
        if rest < 0 {
            -1
        } else {
            rest + 1
        }
    }
}

/// A user with other notes.
pub open spec fn with_notes(user: UserView, notes: Seq<Seq<char>>) -> UserView {
    UserView {
        id: user.id,
        email: user.email,
        notes: notes,
        folders: user.folders,
        prefs: user.prefs,
        last_note: user.last_note,
    }
}

/// A user with other folders.
pub open spec fn with_folders(user: UserView, folders: Seq<FolderView>) -> UserView {
    UserView {
        id: user.id,
        email: user.email,
        notes: user.notes,
        folders: folders,
        prefs: user.prefs,
        last_note: user.last_note,
    }
}

/// The folders with the first one whose id is the given folder's id replaced by it.
pub open spec fn replace_first_folder(folders: Seq<FolderView>, folder: FolderView) -> Seq<
    FolderView,
> {
    let i = first_folder_index(folders, folder.id);
    if i < 0 {
        folders
    } else {
        folders.update(i, folder)
    }
}

/// What a change does to a user document.
pub open spec fn apply_user_change(change: UserChangeView, user: UserView) -> UserView {
    match change {
        UserChangeView::PushNote { note_id } => with_notes(user, user.notes.push(note_id)),
        UserChangeView::PullNote { note_id } => with_notes(
            user,
            user.notes.filter(|n: Seq<char>| n != note_id),
        ),
        UserChangeView::PullNotes { note_ids } => with_notes(
            user,
            user.notes.filter(|n: Seq<char>| !note_ids.contains(n)),
        ),
        UserChangeView::PushFolder { folder } => with_folders(user, user.folders.push(folder)),
        UserChangeView::PullFolder { folder_id } => with_folders(
            user,
            user.folders.filter(|f: FolderView| f.id != folder_id),
        ),
        UserChangeView::SetLastNote { last_note } => UserView {
            id: user.id,
            email: user.email,
            notes: user.notes,
            folders: user.folders,
            prefs: user.prefs,
            last_note: last_note,
        },
        UserChangeView::SetPrefs { prefs } => UserView {
            id: user.id,
            email: user.email,
            notes: user.notes,
            folders: user.folders,
            prefs: prefs,
            last_note: user.last_note,
        },
        UserChangeView::ReplaceFolder { folder } => with_folders(
            user,
            replace_first_folder(user.folders, folder),
        ),
        UserChangeView::SetFolders { folders } => with_folders(user, folders),
    }
}

/// The position of the first item that satisfies a predicate, or -1 where none does.
pub open spec fn first_index_where<A>(s: Seq<A>, p: spec_fn(A) -> bool) -> int
    decreases s.len(),
{
    if s.len() == 0 {
        -1
    } else if p(s[0]) {
        0
    } else {
        let rest = first_index_where(s.drop_first(), p);
        if rest < 0 {
            -1
        } else {
            rest + 1
        }
    }
}

/// The first item that satisfies a predicate comes before any other that does.
pub proof fn first_index_where_is_first<A>(s: Seq<A>, p: spec_fn(A) -> bool)
    ensures
        -1 <= first_index_where(s, p) < s.len(),
        first_index_where(s, p) >= 0 ==> p(s[first_index_where(s, p)]),
        forall|j: int|
            0 <= j < s.len() && (first_index_where(s, p) < 0 || j < first_index_where(s, p))
                ==> !p(#[trigger] s[j]),
    decreases s.len(),
{
    if s.len() > 0 && !p(s[0]) {
        let rest = s.drop_first();
        first_index_where_is_first(rest, p);
        assert forall|j: int|
            0 <= j < s.len() && (first_index_where(s, p) < 0 || j < first_index_where(s, p))
                implies !p(#[trigger] s[j]) by {
            if j > 0 {
                assert(s[j] == rest[j - 1]);
            }
        }
    }
}

/// A position whose item satisfies a predicate, with none before it that does, is the
/// first such position.
pub proof fn first_index_where_unique<A>(s: Seq<A>, p: spec_fn(A) -> bool, k: int)
    requires
        0 <= k < s.len(),
        p(s[k]),
        forall|j: int| 0 <= j < k ==> !p(#[trigger] s[j]),
    ensures
        first_index_where(s, p) == k,
{
    first_index_where_is_first(s, p);
    let r = first_index_where(s, p);
    if r < 0 || r > k {
        assert(!p(s[k]));
    } else if r < k {
        assert(!p(s[r]));
    }
}

/// Whether a user holds a folder with the given id.
pub open spec fn has_folder(folders: Seq<FolderView>, id: Seq<char>) -> bool {
    exists|j: int| 0 <= j < folders.len() && #[trigger] folders[j].id == id
}

/// Whether the filter of a command reaches a user: the user has the command's email,
/// and, to replace a folder, holds a folder with that folder's id.
pub open spec fn command_reaches(command: UserCommandView, user: UserView) -> bool {
    &&& user.email == command.email
    &&& match command.change {
        UserChangeView::ReplaceFolder { folder } => has_folder(user.folders, folder.id),
        _ => true,
    }
}

/// The users that a command's filter reaches.
pub open spec fn reached_by(command: UserCommandView) -> spec_fn(UserView) -> bool {
    |u: UserView| command_reaches(command, u)
}

/// The users with an email.
pub open spec fn has_email(email: Seq<char>) -> spec_fn(UserView) -> bool {
    |u: UserView| u.email == email
}

/// The position of the first user that a command reaches, or -1 where it reaches none.
pub open spec fn first_reached_user(users: Seq<UserView>, command: UserCommandView) -> int {
    first_index_where(users, reached_by(command))
}

/// The position of the first user with an email, or -1 where there is none.
pub open spec fn first_user_with_email(users: Seq<UserView>, email: Seq<char>) -> int {
    first_index_where(users, has_email(email))
}

/// What a command does to the users collection: it changes the first user that its
/// filter reaches, as one-document updates do, and leaves every other user as it is.
pub open spec fn apply_to_users(command: UserCommandView, users: Seq<UserView>) -> Seq<UserView> {
    let k = first_reached_user(users, command);
    if k < 0 {
        users
    } else {
        users.update(k, apply_user_change(command.change, users[k]))
    }
}

/// A command that changes no folder reaches the users with its email.
pub proof fn command_reaches_by_email(command: UserCommandView)
    requires
        !(command.change is ReplaceFolder),
    ensures
        reached_by(command) == has_email(command.email),
{
    assert(reached_by(command) =~= has_email(command.email));
}

/// The notes that a query reaches.
pub open spec fn matched_by(query: NoteQueryView) -> spec_fn(NoteView) -> bool {
    |n: NoteView| note_matches(query, n)
}

/// The notes that a query does not reach.
pub open spec fn unmatched_by(query: NoteQueryView) -> spec_fn(NoteView) -> bool {
    |n: NoteView| !note_matches(query, n)
}

/// The position of the first note that a query reaches, or -1 where it reaches none.
pub open spec fn first_matching_note(notes: Seq<NoteView>, query: NoteQueryView) -> int {
    first_index_where(notes, matched_by(query))
}

/// The notes that a search finds, in the collection's order.
pub open spec fn find_notes(query: NoteQueryView, notes: Seq<NoteView>) -> Seq<NoteView> {
    notes.filter(matched_by(query))
}

/// No two notes of the collection share an id, as the database keeps its `_id` field.
pub open spec fn note_ids_unique(notes: Seq<NoteView>) -> bool {
    forall|i: int, j: int|
        0 <= i < notes.len() && 0 <= j < notes.len() && i != j ==> #[trigger] notes[i].id
            != #[trigger] notes[j].id
}

/// Whether some note of the collection has the given id.
pub open spec fn note_id_taken(notes: Seq<NoteView>, id: Seq<u8>) -> bool {
    exists|i: int| 0 <= i < notes.len() && #[trigger] notes[i].id == id
}

/// The notes collection after a note is stored: the note comes last. A note whose id
/// is already taken is refused, and then there is no new collection.
pub open spec fn insert_note(note: NoteView, notes: Seq<NoteView>) -> Option<Seq<NoteView>> {
    if note_id_taken(notes, note.id) {
        None
    } else {
        Some(notes.push(note))
    }
}

/// The notes collection after a one-document delete: the first note that the query
/// reaches is removed.
pub open spec fn delete_one_note(query: NoteQueryView, notes: Seq<NoteView>) -> Seq<NoteView> {
    let k = first_matching_note(notes, query);
    if k < 0 {
        notes
    } else {
        notes.remove(k)
    }
}

/// The notes collection after a many-document delete: every note that the query
/// reaches is removed.
pub open spec fn delete_many_notes(query: NoteQueryView, notes: Seq<NoteView>) -> Seq<NoteView> {
    notes.filter(unmatched_by(query))
}

/// The notes collection after a one-document update: the first note that the query
/// reaches gets the fields.
pub open spec fn update_one_note(
    query: NoteQueryView,
    fields: NoteFieldsView,
    notes: Seq<NoteView>,
) -> Seq<NoteView> {
    let k = first_matching_note(notes, query);
    if k < 0 {
        notes
    } else {
        notes.update(k, apply_note_fields(fields, notes[k]))
    }
}

/// The first folder with an id comes before any other folder with that id.
pub proof fn first_folder_index_is_first(folders: Seq<FolderView>, id: Seq<char>)
    ensures
        -1 <= first_folder_index(folders, id) < folders.len(),
        first_folder_index(folders, id) >= 0 ==> folders[first_folder_index(folders, id)].id
            == id,
        forall|j: int|
            0 <= j < folders.len() && (first_folder_index(folders, id) < 0 || j
                < first_folder_index(folders, id)) ==> #[trigger] folders[j].id != id,
    decreases folders.len(),
{
    if folders.len() > 0 && folders[0].id != id {
        let rest = folders.drop_first();
        first_folder_index_is_first(rest, id);
        assert forall|j: int|
            0 <= j < folders.len() && (first_folder_index(folders, id) < 0 || j
                < first_folder_index(folders, id)) implies #[trigger] folders[j].id != id by {
            if j > 0 {
                assert(folders[j] == rest[j - 1]);
            }
        }
    }
}

} // verus!
