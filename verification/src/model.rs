//! The documents kept by the note database: users, their folders and preferences, and notes.

use vstd::prelude::*;

use vstd::string::StringExecFns;

use crate::object_id::{bson_object_id_to_string, spec_to_hex, ObjectId};

verus! {

/// A folder of a user, in which notes are grouped.
pub struct Folder {
    pub _id: String,
    pub name: String,
    pub order: i32,
    pub opened: bool,
}

/// What a folder holds, as plain values.
pub struct FolderView {
    pub id: Seq<char>,
    pub name: Seq<char>,
    pub order: i32,
    pub opened: bool,
}

impl View for Folder {
    type V = FolderView;

    open spec fn view(&self) -> FolderView {
        FolderView { id: self._id@, name: self.name@, order: self.order, opened: self.opened }
    }
}

impl Clone for Folder {
    fn clone(&self) -> (r: Self)
        ensures
            r == *self,
    {
        Folder {
            _id: self._id.clone(),
            name: self.name.clone(),
            order: self.order,
            opened: self.opened,
        }
    }
}

/// A note: its title, its text, and the folder it is filed in.
pub struct Note {
    pub _id: ObjectId,
    pub title: String,
    pub text: String,
    pub folder: String,
    pub index: i32,
}

/// What a note holds, as plain values.
pub struct NoteView {
    pub id: Seq<u8>,
    pub title: Seq<char>,
    pub text: Seq<char>,
    pub folder: Seq<char>,
    pub index: i32,
}

impl View for Note {
    type V = NoteView;

    open spec fn view(&self) -> NoteView {
        NoteView {
            id: self._id.bytes@,
            title: self.title@,
            text: self.text@,
            folder: self.folder@,
            index: self.index,
        }
    }
}

impl Note {
    /// The note as one line: its id in hexadecimal, a bar, and its title.
    pub fn summary(&self) -> (r: String)
        ensures
            r@ == spec_to_hex(self._id.bytes@) + " | "@ + self.title@,
    {
        let mut line = bson_object_id_to_string(&self._id);
        line.append(" | ");
        line.append(self.title.as_str());
        line
    }
}

/// The plain values of a list of notes.
pub open spec fn notes_view(notes: Seq<Note>) -> Seq<NoteView> {
    notes.map_values(|n: Note| n@)
}

/// How a user's editor is laid out.
pub struct Prefs {
    #[allow(non_snake_case)]
    editorWidth: String,
    #[allow(non_snake_case)]
    editorPosition: String,
}

/// A user's editor preferences, as plain values.
pub struct PrefsView {
    pub editor_width: Seq<char>,
    pub editor_position: Seq<char>,
}

impl View for Prefs {
    type V = PrefsView;

    closed spec fn view(&self) -> PrefsView {
        PrefsView { editor_width: self.editorWidth@, editor_position: self.editorPosition@ }
    }
}

impl Prefs {
    /// Preferences with the given editor width and position.
    pub fn new(editor_width: String, editor_position: String) -> (r: Prefs)
        ensures
            r@ == (PrefsView { editor_width: editor_width@, editor_position: editor_position@ }),
    {
        Prefs { editorWidth: editor_width, editorPosition: editor_position }
    }

    /// The editor width.
    pub fn editor_width(&self) -> (r: &String)
        ensures
            r@ == self@.editor_width,
    {
        &self.editorWidth
    }

    /// The editor position.
    pub fn editor_position(&self) -> (r: &String)
        ensures
            r@ == self@.editor_position,
    {
        &self.editorPosition
    }
}

/// A user: the ids of their notes, their folders, their preferences and the note
/// they last opened.
pub struct User {
    pub _id: ObjectId,
    pub email: String,
    pub notes: Vec<String>,
    pub folders: Vec<Folder>,
    pub prefs: Prefs,
    #[allow(non_snake_case)]
    pub lastNote: String,
}

/// What a user document holds, as plain values.
pub struct UserView {
    pub id: Seq<u8>,
    pub email: Seq<char>,
    pub notes: Seq<Seq<char>>,
    pub folders: Seq<FolderView>,
    pub prefs: PrefsView,
    pub last_note: Seq<char>,
}

/// The plain values of a list of folders.
pub open spec fn folders_view(folders: Seq<Folder>) -> Seq<FolderView> {
    folders.map_values(|f: Folder| f@)
}

/// The plain values of a list of strings.
pub open spec fn strings_view(strings: Seq<String>) -> Seq<Seq<char>> {
    strings.map_values(|s: String| s@)
}

impl View for User {
    type V = UserView;

    open spec fn view(&self) -> UserView {
        UserView {
            id: self._id.bytes@,
            email: self.email@,
            notes: strings_view(self.notes@),
            folders: folders_view(self.folders@),
            prefs: self.prefs@,
            last_note: self.lastNote@,
        }
    }
}

impl User {
    /// The user as one line: their id in hexadecimal, a bar, and their email.
    pub fn summary(&self) -> (r: String)
        ensures
            r@ == spec_to_hex(self._id.bytes@) + " | "@ + self.email@,
    {
        let mut line = bson_object_id_to_string(&self._id);
        line.append(" | ");
        line.append(self.email.as_str());
        line
    }
}

} // verus!
