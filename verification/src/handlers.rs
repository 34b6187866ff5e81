//! What each request of the server decides: the commands it sends to the note
//! database, and the answer it gives the client from what the database returns.

use vstd::prelude::*;
use vstd::string::StringExecFns;

use crate::commands::{
    find_notes, ids_view, NoteFields, NoteFieldsView, NoteQuery, NoteQueryView, UserChange, UserChangeView,
    UserCommand, UserCommandView,
};
use crate::model::{
    folders_view, notes_view, Folder, FolderView, Note, NoteView, Prefs, PrefsView, User,
};
use crate::note_name::{is_generated_note_name, random_note_name};
use crate::object_id::{
    bson_object_id_new, bson_object_id_to_string, hex_text_parses_back, is_object_id_hex,
    spec_decode_hex, spec_to_hex, ObjectId,
};

verus! {

/// A note as it is sent to the client, its id written as hexadecimal text.
pub struct NoteInterface {
    pub _id: String,
    pub title: String,
    pub text: String,
    pub folder: String,
    pub index: i32,
}

/// What a note sent to the client holds, as plain values.
pub struct NoteInterfaceView {
    pub id: Seq<char>,
    pub title: Seq<char>,
    pub text: Seq<char>,
    pub folder: Seq<char>,
    pub index: i32,
}

impl View for NoteInterface {
    type V = NoteInterfaceView;

    open spec fn view(&self) -> NoteInterfaceView {
        NoteInterfaceView {
            id: self._id@,
            title: self.title@,
            text: self.text@,
            folder: self.folder@,
            index: self.index,
        }
    }
}

/// The form in which a stored note is sent to the client.
pub open spec fn spec_note_interface(note: NoteView) -> NoteInterfaceView {
    NoteInterfaceView {
        id: spec_to_hex(note.id),
        title: note.title,
        text: note.text,
        folder: note.folder,
        index: note.index,
    }
}

/// A request to create a note for a user; an empty title asks for a generated one.
pub struct CreateNote {
    pub email: String,
    pub note_title: String,
}

/// A request to delete a note of a user.
pub struct DeleteNote {
    pub email: String,
    pub _id: ObjectId,
}

/// A request to create a folder for a user.
pub struct CreateFolder {
    pub email: String,
    pub folder_index: i32,
    pub folder_name: String,
}

/// A request to delete a folder of a user, with the notes filed in it.
pub struct DeleteFolder {
    pub email: String,
    pub _id: ObjectId,
}

/// A request to record the note that a user last opened.
pub struct UpdateUserLastNote {
    pub email: String,
    pub last_note: String,
}

/// A request to set a user's editor preferences.
pub struct UpdateUserPrefs {
    pub email: String,
    #[allow(non_snake_case)]
    pub editorWidth: String,
    #[allow(non_snake_case)]
    pub editorPosition: String,
}

/// A request to set the title, text, folder and position of a note.
pub struct UpdateNote {
    pub _id: ObjectId,
    pub title: String,
    pub text: String,
    pub folder: String,
    pub index: i32,
}

/// A request to change one folder of a user.
pub struct UpdateFolder {
    pub email: String,
    pub folder_id: String,
    pub name: String,
    pub order: i32,
    pub opened: bool,
}

/// A request to set the whole list of a user's folders.
pub struct UpdateUserFolders {
    pub email: String,
    pub folders: Vec<Folder>,
}

/// The greeting of the server's root.
pub fn hello_world() -> (r: String)
    ensures
        r@ == "Hello World!"@,
{
    "Hello World!".to_owned()
}

/// The documents among the results of a search that were read, in order.
pub open spec fn spec_ok_documents<T, E>(results: Seq<Result<T, E>>) -> Seq<T>
    decreases results.len(),
{
    if results.len() == 0 {
        Seq::empty()
    } else {
        let rest = spec_ok_documents(results.drop_last());
        match results.last() {
            Ok(document) => rest.push(document),
            Err(_) => rest,
        }
    }
}

/// Keeps the documents of a search that were read and drops those that failed.
pub fn ok_documents<T, E>(results: Vec<Result<T, E>>) -> (r: Vec<T>)
    ensures
        r@ == spec_ok_documents(results@),
        r.len() <= results.len(),
        (forall|i: int| 0 <= i < results.len() ==> #[trigger] results@[i] is Ok) ==> r.len()
            == results.len() && forall|i: int|
            0 <= i < results.len() ==> (match #[trigger] results@[i] {
                Ok(document) => r@[i] == document,
                Err(_) => false,
            }),
        (forall|i: int| 0 <= i < results.len() ==> #[trigger] results@[i] is Err) ==> r.len() == 0,
{
    let ghost all = results@;
    let mut found: Vec<T> = Vec::new();
    for item in it: results
        invariant
            all == it.seq(),
            found@ == spec_ok_documents(all.take(it.index() as int)),
    {
        proof {
            assert(all.take(it.index() + 1).drop_last() =~= all.take(it.index() as int));
        }
        match item {
            Ok(document) => found.push(document),
            Err(_) => {},
        }
    }
    proof {
        assert(all.take(all.len() as int) =~= all);
        lemma_ok_documents_len(all);
        if forall|i: int| 0 <= i < all.len() ==> #[trigger] all[i] is Ok {
            lemma_ok_documents_all_read(all);
        }
        if forall|i: int| 0 <= i < all.len() ==> #[trigger] all[i] is Err {
            lemma_ok_documents_none_read(all);
        }
    }
    found
}

/// A search keeps no more documents than it has results.
pub proof fn lemma_ok_documents_len<T, E>(results: Seq<Result<T, E>>)
    ensures
        spec_ok_documents(results).len() <= results.len(),
    decreases results.len(),
{
    if results.len() > 0 {
        lemma_ok_documents_len(results.drop_last());
    }
}

/// Where every result was read, a search keeps every document, each at its place.
pub proof fn lemma_ok_documents_all_read<T, E>(results: Seq<Result<T, E>>)
    requires
        forall|i: int| 0 <= i < results.len() ==> #[trigger] results[i] is Ok,
    ensures
        spec_ok_documents(results).len() == results.len(),
        forall|i: int|
            0 <= i < results.len() ==> (match #[trigger] results[i] {
                Ok(document) => spec_ok_documents(results)[i] == document,
                Err(_) => false,
            }),
    decreases results.len(),
{
    if results.len() > 0 {
        let rest = results.drop_last();
        assert forall|i: int| 0 <= i < rest.len() implies #[trigger] rest[i] is Ok by {
            assert(rest[i] == results[i]);
        }
        lemma_ok_documents_all_read(rest);
        assert(results[results.len() - 1] is Ok);
        assert forall|i: int| 0 <= i < results.len() implies (match #[trigger] results[i] {
            Ok(document) => spec_ok_documents(results)[i] == document,
            Err(_) => false,
        }) by {
            if i < rest.len() {
                assert(results[i] == rest[i]);
            }
        }
    }
}

/// Where no result was read, a search keeps nothing.
pub proof fn lemma_ok_documents_none_read<T, E>(results: Seq<Result<T, E>>)
    requires
        forall|i: int| 0 <= i < results.len() ==> #[trigger] results[i] is Err,
    ensures
        spec_ok_documents(results).len() == 0,
    decreases results.len(),
{
    if results.len() > 0 {
        let rest = results.drop_last();
        assert forall|i: int| 0 <= i < rest.len() implies #[trigger] rest[i] is Err by {
            assert(rest[i] == results[i]);
        }
        lemma_ok_documents_none_read(rest);
        assert(results[results.len() - 1] is Err);
    }
}

/// The document that a lookup found; a failed lookup finds none.
pub fn found_document<T, E>(result: Result<Option<T>, E>) -> (r: Option<T>)
    ensures
        r == (match result {
            Ok(document) => document,
            Err(_) => None,
        }),
{
    match result {
        Ok(document) => document,
        Err(_) => None,
    }
}

/// The answer to a lookup: the document, if any, or a bare failure.
pub fn lookup_reply<T, E>(result: Result<Option<T>, E>) -> (r: Result<Option<T>, ()>)
    ensures
        r == (match result {
            Ok(document) => Ok::<Option<T>, ()>(document),
            Err(_) => Err(()),
        }),
{
    match result {
        Ok(document) => Ok(document),
        Err(_) => Err(()),
    }
}

impl NoteInterface {
    /// The form in which a stored note is sent to the client.
    pub fn from_note(note: &Note) -> (r: NoteInterface)
        ensures
            r@ == spec_note_interface(note@),
    {
        NoteInterface {
            _id: note._id.to_hex(),
            title: note.title.clone(),
            text: note.text.clone(),
            folder: note.folder.clone(),
            index: note.index,
        }
    }
}

/// The notes of a search, in the form in which they are sent to the client, in order.
pub fn note_interfaces(notes: &Vec<Note>) -> (r: Vec<NoteInterface>)
    ensures
        r.len() == notes.len(),
        forall|i: int| 0 <= i < notes.len() ==> #[trigger] r[i]@ == spec_note_interface(notes[i]@),
{
    let mut out: Vec<NoteInterface> = Vec::new();
    for i in 0..notes.len()
        invariant
            out.len() == i,
            forall|j: int| 0 <= j < i ==> #[trigger] out[j]@ == spec_note_interface(notes[j]@),
    {
        out.push(NoteInterface::from_note(&notes[i]));
    }
    out
}

/// Whether every note id that a user lists is valid id text.
pub open spec fn all_note_ids_valid(notes: Seq<Seq<char>>) -> bool {
    forall|i: int| 0 <= i < notes.len() ==> is_object_id_hex(#[trigger] notes[i])
}

/// The query for the notes whose ids a user lists, in the user's order.
pub open spec fn spec_user_notes_query(notes: Seq<Seq<char>>) -> NoteQueryView {
    NoteQueryView::IdIn { ids: notes.map_values(|s: Seq<char>| spec_decode_hex(s)) }
}

/// The notes that a user is answered with when every read succeeds: the stored notes
/// whose ids the user lists, in the collection's order, in the form sent to the client.
pub open spec fn spec_listed_notes(user_notes: Seq<Seq<char>>, notes: Seq<NoteView>) -> Seq<
    NoteInterfaceView,
> {
    find_notes(spec_user_notes_query(user_notes), notes).map_values(
        |n: NoteView| spec_note_interface(n),
    )
}

/// The query for the notes that a user lists; none where one of the listed ids is not
/// valid id text.
pub fn user_notes_query(user: &User) -> (r: Option<NoteQuery>)
    ensures
        r is Some <==> all_note_ids_valid(user@.notes),
        r matches Some(q) ==> q@ == spec_user_notes_query(user@.notes),
{
    let ghost listed = user@.notes;
    let mut ids: Vec<ObjectId> = Vec::new();
    for i in 0..user.notes.len()
        invariant
            listed == user@.notes,
            ids.len() == i,
            forall|j: int| 0 <= j < i ==> is_object_id_hex(#[trigger] listed[j]),
            forall|j: int| 0 <= j < i ==> #[trigger] ids[j].bytes@ == spec_decode_hex(listed[j]),
    {
        assert(listed[i as int] == user.notes[i as int]@);
        match ObjectId::parse(user.notes[i].as_str()) {
            Some(id) => ids.push(id),
            None => {
                return None;
            },
        }
    }
    let q = NoteQuery::IdIn { ids };
    assert(ids_view(ids@) =~= listed.map_values(|s: Seq<char>| spec_decode_hex(s)));
    Some(q)
}

/// The query for the note whose text a collaborating client follows; none where the
/// given text is not valid id text.
pub fn note_contents_query(note_id: &str) -> (r: Option<NoteQuery>)
    ensures
        r is Some <==> is_object_id_hex(note_id@),
        r matches Some(q) ==> q@ == (NoteQueryView::ById { id: spec_decode_hex(note_id@) }),
{
    match ObjectId::parse(note_id) {
        Some(id) => Some(NoteQuery::ById { id }),
        None => None,
    }
}

/// The text sent to a collaborating client: the text of the note that was found, and
/// empty text where none was found or the lookup failed.
pub fn note_contents<E>(found: Result<Option<Note>, E>) -> (r: String)
    ensures
        r@ == (match found {
            Ok(Some(note)) => note.text@,
            _ => Seq::<char>::empty(),
        }),
{
    match found {
        Ok(Some(note)) => note.text,
        _ => String::new(),
    }
}

impl CreateNote {
    /// The request as one line: the email, a bar, and the requested title.
    pub fn summary(&self) -> (r: String)
        ensures
            r@ == self.email@ + " | "@ + self.note_title@,
    {
        let mut line = self.email.clone();
        line.append(" | ");
        line.append(self.note_title.as_str());
        line
    }
}

/// The title of a new note: the requested one, or a generated one where none was given.
pub fn title_for_new_note(requested: String) -> (t: String)
    ensures
        requested@.len() == 0 ==> is_generated_note_name(t@),
        requested@.len() != 0 ==> t@ == requested@,
{
    if requested.as_str().is_empty() {
        random_note_name()
    } else {
        requested
    }
}

/// A new note with the given id and title: no text, no folder, position -1.
pub open spec fn spec_new_note(id: Seq<u8>, title: Seq<char>) -> NoteView {
    NoteView { id: id, title: title, text: Seq::empty(), folder: Seq::empty(), index: -1i32 }
}

/// The note to store with the given id and title.
pub fn note_to_insert(id: ObjectId, title: String) -> (n: Note)
    ensures
        n@ == spec_new_note(id.bytes@, title@),
        n._id == id,
        n.title@ == title@,
        n.text@.len() == 0,
        n.folder@.len() == 0,
        n.index == -1,
{
    Note { _id: id, title: title, text: String::new(), folder: String::new(), index: -1 }
}

/// The note to store for a request to create one, under a fresh id: the requested
/// title, or a generated one where the request has none.
pub fn new_note(payload: &CreateNote) -> (n: Note)
    ensures
        n@ == spec_new_note(n@.id, n@.title),
        n.text@.len() == 0,
        n.folder@.len() == 0,
        n.index == -1,
        n.title@.len() > 0,
        payload.note_title@.len() == 0 ==> is_generated_note_name(n@.title),
        payload.note_title@.len() != 0 ==> n@.title == payload.note_title@,
{
    let title = title_for_new_note(payload.note_title.clone());
    note_to_insert(bson_object_id_new(), title)
}

/// The change that lists a new note under its user.
pub open spec fn spec_note_created_command(email: Seq<char>, id: Seq<u8>) -> UserCommandView {
    UserCommandView { email: email, change: UserChangeView::PushNote { note_id: spec_to_hex(id) } }
}

/// The answer to a request that created a note.
pub open spec fn spec_note_created_reply(id: Seq<u8>, title: Seq<char>) -> NoteInterfaceView {
    spec_note_interface(spec_new_note(id, title))
}

/// Once a note is stored under the given id: the change that lists it under the user
/// with the given email, and the answer to the client.
pub fn note_created(email: String, inserted: ObjectId, title: String) -> (r: (
    UserCommand,
    NoteInterface,
))
    ensures
        r.0@ == spec_note_created_command(email@, inserted.bytes@),
        r.1@ == spec_note_created_reply(inserted.bytes@, title@),
        r.0.email@ == email@,
        r.0.change matches UserChange::PushNote { note_id } && note_id@ == r.1._id@,
        r.1._id@ == spec_to_hex(inserted.bytes@),
        r.1.title@ == title@,
        r.1.text@.len() == 0,
        r.1.folder@.len() == 0,
        r.1.index == -1,
{
    let command = UserCommand {
        email: email,
        change: UserChange::PushNote { note_id: inserted.to_hex() },
    };
    let reply = NoteInterface {
        _id: inserted.to_hex(),
        title: title,
        text: String::new(),
        folder: String::new(),
        index: -1,
    };
    (command, reply)
}

/// The change that removes a note from the list of its user.
pub open spec fn spec_delete_note_command(email: Seq<char>, id: Seq<u8>) -> UserCommandView {
    UserCommandView { email: email, change: UserChangeView::PullNote { note_id: spec_to_hex(id) } }
}

/// For a request to delete a note: the note to delete, and the change that removes it
/// from the list of its user.
pub fn delete_note_commands(payload: DeleteNote) -> (r: (NoteQuery, UserCommand))
    ensures
        r.0@ == (NoteQueryView::ById { id: payload._id.bytes@ }),
        r.1@ == spec_delete_note_command(payload.email@, payload._id.bytes@),
{
    let note_id = bson_object_id_to_string(&payload._id);
    (
        NoteQuery::ById { id: payload._id },
        UserCommand { email: payload.email, change: UserChange::PullNote { note_id } },
    )
}

/// A new folder under the given id: its id is the id's text, and it is open.
pub open spec fn spec_new_folder(id: Seq<u8>, name: Seq<char>, order: i32) -> FolderView {
    FolderView { id: spec_to_hex(id), name: name, order: order, opened: true }
}

/// The folder to create for a request, under the given id.
pub fn folder_for(payload: &CreateFolder, id: ObjectId) -> (f: Folder)
    ensures
        f@ == spec_new_folder(id.bytes@, payload.folder_name@, payload.folder_index),
        f._id@ == spec_to_hex(id.bytes@),
        f.name@ == payload.folder_name@,
        f.order == payload.folder_index,
        f.opened,
{
    Folder {
        _id: bson_object_id_to_string(&id),
        name: payload.folder_name.clone(),
        order: payload.folder_index,
        opened: true,
    }
}

/// For a request to create a folder, under a fresh id: the change that adds it to its
/// user, and the folder, which is the answer to the client.
pub fn create_folder_command(payload: CreateFolder) -> (r: (UserCommand, Folder))
    ensures
        r.0@ == (UserCommandView {
            email: payload.email@,
            change: UserChangeView::PushFolder { folder: r.1@ },
        }),
        is_object_id_hex(r.1@.id),
        r.1@ == spec_new_folder(spec_decode_hex(r.1@.id), payload.folder_name@, payload.folder_index),
        r.1.name@ == payload.folder_name@,
        r.1.order == payload.folder_index,
        r.1.opened,
        r.0.email@ == payload.email@,
        r.0.change matches UserChange::PushFolder { folder } && folder@ == r.1@,
{
    let id = bson_object_id_new();
    let folder = folder_for(&payload, id);
    proof {
        hex_text_parses_back(id);
    }
    let reply = folder.clone();
    (UserCommand { email: payload.email, change: UserChange::PushFolder { folder } }, reply)
}

/// The query for the notes filed in a folder.
pub open spec fn spec_folder_notes_query(folder_id: Seq<u8>) -> NoteQueryView {
    NoteQueryView::InFolder { folder: spec_to_hex(folder_id) }
}

/// The notes that a request to delete a folder deletes: those filed in it.
pub fn folder_notes_query(payload: &DeleteFolder) -> (q: NoteQuery)
    ensures
        q@ == spec_folder_notes_query(payload._id.bytes@),
{
    NoteQuery::InFolder { folder: bson_object_id_to_string(&payload._id) }
}

/// The id texts of notes, in order.
pub open spec fn spec_note_id_texts(notes: Seq<NoteView>) -> Seq<Seq<char>> {
    notes.map_values(|n: NoteView| spec_to_hex(n.id))
}

/// The change that removes the given notes from the list of their user.
pub open spec fn spec_unlist_notes_command(email: Seq<char>, notes: Seq<NoteView>) -> UserCommandView {
    UserCommandView {
        email: email,
        change: UserChangeView::PullNotes { note_ids: spec_note_id_texts(notes) },
    }
}

/// The change that removes a folder from its user.
pub open spec fn spec_remove_folder_command(email: Seq<char>, folder_id: Seq<u8>) -> UserCommandView {
    UserCommandView {
        email: email,
        change: UserChangeView::PullFolder { folder_id: spec_to_hex(folder_id) },
    }
}

/// For a request to delete a folder, given the notes filed in it: the change that
/// removes those notes from the user's list, and the change that removes the folder.
pub fn delete_folder_commands(payload: &DeleteFolder, notes_in_folder: &Vec<Note>) -> (r: (
    UserCommand,
    UserCommand,
))
    ensures
        r.0@ == spec_unlist_notes_command(payload.email@, notes_view(notes_in_folder@)),
        r.1@ == spec_remove_folder_command(payload.email@, payload._id.bytes@),
{
    let mut note_ids: Vec<String> = Vec::new();
    for i in 0..notes_in_folder.len()
        invariant
            note_ids.len() == i,
            forall|j: int|
                0 <= j < i ==> #[trigger] note_ids[j]@ == spec_to_hex(notes_in_folder[j]._id.bytes@),
    {
        note_ids.push(bson_object_id_to_string(&notes_in_folder[i]._id));
    }
    let ghost texts = note_ids@.map_values(|s: String| s@);
    assert(texts =~= spec_note_id_texts(notes_view(notes_in_folder@)));
    let unlist = UserCommand {
        email: payload.email.clone(),
        change: UserChange::PullNotes { note_ids },
    };
    let remove = UserCommand {
        email: payload.email.clone(),
        change: UserChange::PullFolder { folder_id: bson_object_id_to_string(&payload._id) },
    };
    (unlist, remove)
}

/// For a request to record the note a user last opened: the change that records it.
pub fn last_note_command(payload: UpdateUserLastNote) -> (c: UserCommand)
    ensures
        c@ == (UserCommandView {
            email: payload.email@,
            change: UserChangeView::SetLastNote { last_note: payload.last_note@ },
        }),
{
    UserCommand {
        email: payload.email,
        change: UserChange::SetLastNote { last_note: payload.last_note },
    }
}

/// For a request to set a user's editor preferences: the change that sets them.
pub fn prefs_command(payload: UpdateUserPrefs) -> (c: UserCommand)
    ensures
        c@ == (UserCommandView {
            email: payload.email@,
            change: UserChangeView::SetPrefs {
                prefs: PrefsView {
                    editor_width: payload.editorWidth@,
                    editor_position: payload.editorPosition@,
                },
            },
        }),
{
    UserCommand {
        email: payload.email,
        change: UserChange::SetPrefs {
            prefs: Prefs::new(payload.editorWidth, payload.editorPosition),
        },
    }
}

/// For a request to update a note: the note it reaches, and the fields it sets.
pub fn note_update_command(payload: UpdateNote) -> (r: (NoteQuery, NoteFields))
    ensures
        r.0@ == (NoteQueryView::ById { id: payload._id.bytes@ }),
        r.1@ == (NoteFieldsView {
            title: payload.title@,
            text: payload.text@,
            folder: payload.folder@,
            index: payload.index,
        }),
{
    (
        NoteQuery::ById { id: payload._id },
        NoteFields {
            title: payload.title,
            text: payload.text,
            folder: payload.folder,
            index: payload.index,
        },
    )
}

/// For a request to change one folder: the change that puts the new folder, under the
/// same id, in place of the first folder with that id.
pub fn folder_update_command(payload: UpdateFolder) -> (c: UserCommand)
    ensures
        c@ == (UserCommandView {
            email: payload.email@,
            change: UserChangeView::ReplaceFolder {
                folder: FolderView {
                    id: payload.folder_id@,
                    name: payload.name@,
                    order: payload.order,
                    opened: payload.opened,
                },
            },
        }),
{
    UserCommand {
        email: payload.email,
        change: UserChange::ReplaceFolder {
            folder: Folder {
                _id: payload.folder_id,
                name: payload.name,
                order: payload.order,
                opened: payload.opened,
            },
        },
    }
}

/// For a request to set all of a user's folders: the change that sets them.
pub fn folders_command(payload: UpdateUserFolders) -> (c: UserCommand)
    ensures
        c@ == (UserCommandView {
            email: payload.email@,
            change: UserChangeView::SetFolders { folders: folders_view(payload.folders@) },
        }),
{
    UserCommand { email: payload.email, change: UserChange::SetFolders { folders: payload.folders } }
}

} // verus!
