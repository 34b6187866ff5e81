use onote_server::commands::{NoteQuery, UserChange};
use onote_server::handlers::{
    create_folder_command, delete_folder_commands, delete_note_commands, folder_for,
    folder_notes_query, folder_update_command, folders_command, found_document, hello_world,
    last_note_command, lookup_reply, new_note, note_contents, note_contents_query, note_created,
    note_interfaces, note_to_insert, note_update_command, ok_documents, prefs_command,
    title_for_new_note, user_notes_query, CreateFolder, CreateNote, DeleteFolder, DeleteNote, NoteInterface, UpdateFolder, UpdateNote, UpdateUserFolders, UpdateUserLastNote,
    UpdateUserPrefs,
};
use onote_server::model::{Folder, Note, Prefs, User};
use onote_server::note_name::{note_name_from_digits, random_note_name};
use onote_server::object_id::ObjectId;

fn id(last: u8) -> ObjectId {
    ObjectId { bytes: [0x64, 0x1f, 0, 0, 0, 0, 0, 0, 0, 0, 0xab, last] }
}

fn note(last: u8, title: &str, folder: &str) -> Note {
    Note {
        _id: id(last),
        title: title.to_string(),
        text: format!("text of {}", title),
        folder: folder.to_string(),
        index: last as i32,
    }
}

fn user(notes: Vec<&str>) -> User {
    User {
        _id: id(99),
        email: "ann@example.com".to_string(),
        notes: notes.into_iter().map(|s| s.to_string()).collect(),
        folders: vec![],
        prefs: Prefs::new("wide".to_string(), "left".to_string()),
        lastNote: String::new(),
    }
}

fn is_generated_name(s: &str) -> bool {
    s.len() == 11 && s.starts_with("NewNote") && s[7..].chars().all(|c| c.is_ascii_digit())
}

#[test]
fn root_greets() {
    assert_eq!(hello_world(), "Hello World!");
}

#[test]
fn search_keeps_read_documents_in_order() {
    let results: Vec<Result<u32, String>> =
        vec![Ok(1), Err("broken".to_string()), Ok(2), Err("x".to_string()), Ok(3)];
    assert_eq!(ok_documents(results), vec![1, 2, 3]);
    let none: Vec<Result<u32, String>> = vec![Err("a".to_string())];
    assert!(ok_documents(none).is_empty());
}

#[test]
fn lookup_of_user_maps_failures() {
    assert_eq!(found_document::<u8, String>(Ok(Some(4))), Some(4));
    assert_eq!(found_document::<u8, String>(Ok(None)), None);
    assert_eq!(found_document::<u8, String>(Err("down".to_string())), None);
    assert_eq!(lookup_reply::<u8, String>(Ok(Some(4))), Ok(Some(4)));
    assert_eq!(lookup_reply::<u8, String>(Ok(None)), Ok(None));
    assert_eq!(lookup_reply::<u8, String>(Err("down".to_string())), Err(()));
}

#[test]
fn note_name_is_written_from_digits() {
    assert_eq!(note_name_from_digits([1, 2, 3, 4]), "NewNote1234");
    assert_eq!(note_name_from_digits([0, 0, 9, 0]), "NewNote0090");
    assert_eq!(note_name_from_digits([10, 0, 255, 7]), "NewNote1002557");
}

#[test]
fn random_note_name_is_new_note_and_four_digits() {
    for _ in 0..50 {
        let name = random_note_name();
        assert!(is_generated_name(&name), "{}", name);
    }
}

#[test]
fn empty_title_is_replaced_by_a_generated_one() {
    assert!(is_generated_name(&title_for_new_note(String::new())));
    assert_eq!(title_for_new_note("Groceries".to_string()), "Groceries");
}

#[test]
fn new_note_is_empty_and_unfiled() {
    let n = note_to_insert(id(7), "Plans".to_string());
    assert_eq!(n._id, id(7));
    assert_eq!(n.title, "Plans");
    assert_eq!(n.text, "");
    assert_eq!(n.folder, "");
    assert_eq!(n.index, -1);
    let requested = new_note(&CreateNote { email: "a@b".to_string(), note_title: "T".to_string() });
    assert_eq!(requested.title, "T");
    assert_eq!(requested.index, -1);
    let generated = new_note(&CreateNote { email: "a@b".to_string(), note_title: String::new() });
    assert!(is_generated_name(&generated.title));
    assert_eq!(generated.text, "");
}

#[test]
fn created_note_is_listed_under_the_id_answered() {
    let (command, reply) = note_created("ann@example.com".to_string(), id(7), "Plans".to_string());
    assert_eq!(command.email, "ann@example.com");
    match command.change {
        UserChange::PushNote { note_id } => assert_eq!(note_id, reply._id),
        _ => panic!("expected a push of the note id"),
    }
    assert_eq!(reply._id, "641f0000000000000000ab07");
    assert_eq!(reply.title, "Plans");
    assert_eq!(reply.text, "");
    assert_eq!(reply.folder, "");
    assert_eq!(reply.index, -1);
}

#[test]
fn deleted_note_is_pulled_by_its_id_text() {
    let (query, command) =
        delete_note_commands(DeleteNote { email: "ann@example.com".to_string(), _id: id(7) });
    match query {
        NoteQuery::ById { id: q } => assert_eq!(q, id(7)),
        _ => panic!("expected a query by id"),
    }
    assert_eq!(command.email, "ann@example.com");
    match command.change {
        UserChange::PullNote { note_id } => assert_eq!(note_id, "641f0000000000000000ab07"),
        _ => panic!("expected a pull of the note id"),
    }
}

#[test]
fn folder_is_created_open_under_the_id_text() {
    let payload = CreateFolder {
        email: "ann@example.com".to_string(),
        folder_index: 3,
        folder_name: "Work".to_string(),
    };
    let f = folder_for(&payload, id(5));
    assert_eq!(f._id, "641f0000000000000000ab05");
    assert_eq!(f.name, "Work");
    assert_eq!(f.order, 3);
    assert!(f.opened);
    let (command, reply) = create_folder_command(payload);
    assert_eq!(command.email, "ann@example.com");
    assert_eq!(reply.name, "Work");
    assert_eq!(reply.order, 3);
    assert!(reply.opened);
    assert!(ObjectId::parse(&reply._id).is_some());
    match command.change {
        UserChange::PushFolder { folder } => {
            assert_eq!(folder._id, reply._id);
            assert_eq!(folder.name, "Work");
        }
        _ => panic!("expected a push of the folder"),
    }
}

#[test]
fn deleted_folder_takes_its_notes_along() {
    let payload = DeleteFolder { email: "ann@example.com".to_string(), _id: id(5) };
    match folder_notes_query(&payload) {
        NoteQuery::InFolder { folder } => assert_eq!(folder, "641f0000000000000000ab05"),
        _ => panic!("expected a query by folder"),
    }
    let notes = vec![note(1, "a", "641f0000000000000000ab05"), note(2, "b", "641f0000000000000000ab05")];
    let (unlist, remove) = delete_folder_commands(&payload, &notes);
    assert_eq!(unlist.email, "ann@example.com");
    match unlist.change {
        UserChange::PullNotes { note_ids } => assert_eq!(
            note_ids,
            vec!["641f0000000000000000ab01".to_string(), "641f0000000000000000ab02".to_string()]
        ),
        _ => panic!("expected a pull of the notes"),
    }
    match remove.change {
        UserChange::PullFolder { folder_id } => assert_eq!(folder_id, "641f0000000000000000ab05"),
        _ => panic!("expected a pull of the folder"),
    }
    let (empty, _) = delete_folder_commands(&payload, &vec![]);
    match empty.change {
        UserChange::PullNotes { note_ids } => assert!(note_ids.is_empty()),
        _ => panic!("expected a pull of the notes"),
    }
}

#[test]
fn last_note_and_prefs_are_set() {
    let c = last_note_command(UpdateUserLastNote {
        email: "ann@example.com".to_string(),
        last_note: "641f0000000000000000ab01".to_string(),
    });
    assert_eq!(c.email, "ann@example.com");
    match c.change {
        UserChange::SetLastNote { last_note } => assert_eq!(last_note, "641f0000000000000000ab01"),
        _ => panic!("expected the last note to be set"),
    }
    let c = prefs_command(UpdateUserPrefs {
        email: "ann@example.com".to_string(),
        editorWidth: "80%".to_string(),
        editorPosition: "center".to_string(),
    });
    match c.change {
        UserChange::SetPrefs { prefs } => {
            assert_eq!(prefs.editor_width(), "80%");
            assert_eq!(prefs.editor_position(), "center");
        }
        _ => panic!("expected the preferences to be set"),
    }
}

#[test]
fn note_update_sets_all_four_fields() {
    let (query, fields) = note_update_command(UpdateNote {
        _id: id(3),
        title: "T".to_string(),
        text: "body".to_string(),
        folder: "f".to_string(),
        index: 2,
    });
    match query {
        NoteQuery::ById { id: q } => assert_eq!(q, id(3)),
        _ => panic!("expected a query by id"),
    }
    assert_eq!(fields.title, "T");
    assert_eq!(fields.text, "body");
    assert_eq!(fields.folder, "f");
    assert_eq!(fields.index, 2);
}

#[test]
fn folder_updates_keep_the_given_values() {
    let c = folder_update_command(UpdateFolder {
        email: "ann@example.com".to_string(),
        folder_id: "f1".to_string(),
        name: "Home".to_string(),
        order: 1,
        opened: false,
    });
    match c.change {
        UserChange::ReplaceFolder { folder } => {
            assert_eq!(folder._id, "f1");
            assert_eq!(folder.name, "Home");
            assert_eq!(folder.order, 1);
            assert!(!folder.opened);
        }
        _ => panic!("expected a folder replacement"),
    }
    let folders = vec![
        Folder { _id: "a".to_string(), name: "A".to_string(), order: 0, opened: true },
        Folder { _id: "b".to_string(), name: "B".to_string(), order: 1, opened: false },
    ];
    let c = folders_command(UpdateUserFolders { email: "ann@example.com".to_string(), folders });
    match c.change {
        UserChange::SetFolders { folders } => {
            assert_eq!(folders.len(), 2);
            assert_eq!(folders[0]._id, "a");
            assert_eq!(folders[1].name, "B");
            assert!(!folders[1].opened);
        }
        _ => panic!("expected the folders to be set"),
    }
}

#[test]
fn notes_of_a_user_are_queried_by_their_ids() {
    let u = user(vec!["641f0000000000000000ab01", "641F0000000000000000AB02"]);
    match user_notes_query(&u) {
        Some(NoteQuery::IdIn { ids }) => assert_eq!(ids, vec![id(1), id(2)]),
        _ => panic!("expected a query by ids"),
    }
    match user_notes_query(&user(vec![])) {
        Some(NoteQuery::IdIn { ids }) => assert!(ids.is_empty()),
        _ => panic!("expected a query by ids"),
    }
    assert!(user_notes_query(&user(vec!["641f0000000000000000ab01", "not an id"])).is_none());
}

#[test]
fn notes_are_sent_with_their_id_text() {
    let notes = vec![note(1, "a", "x"), note(2, "b", "")];
    let sent = note_interfaces(&notes);
    assert_eq!(sent.len(), 2);
    assert_eq!(sent[0]._id, "641f0000000000000000ab01");
    assert_eq!(sent[0].title, "a");
    assert_eq!(sent[0].text, "text of a");
    assert_eq!(sent[0].folder, "x");
    assert_eq!(sent[1].index, 2);
    let one = NoteInterface::from_note(&notes[1]);
    assert_eq!(one._id, "641f0000000000000000ab02");
    assert_eq!(ObjectId::parse(&one._id).unwrap(), id(2));
}

#[test]
fn documents_are_written_on_one_line() {
    let request = CreateNote { email: "ann@example.com".to_string(), note_title: "Plans".to_string() };
    assert_eq!(request.summary(), "ann@example.com | Plans");
    assert_eq!(note(7, "Plans", "").summary(), "641f0000000000000000ab07 | Plans");
    assert_eq!(user(vec![]).summary(), "641f0000000000000000ab63 | ann@example.com");
}

#[test]
fn deleting_a_created_note_pulls_the_id_that_was_pushed() {
    let (created, _) = note_created("ann@example.com".to_string(), id(9), "Draft".to_string());
    let (_, deleted) =
        delete_note_commands(DeleteNote { email: "ann@example.com".to_string(), _id: id(9) });
    assert_eq!(created.email, deleted.email);
    let pushed = match created.change {
        UserChange::PushNote { note_id } => note_id,
        _ => panic!("expected a push of the note id"),
    };
    let pulled = match deleted.change {
        UserChange::PullNote { note_id } => note_id,
        _ => panic!("expected a pull of the note id"),
    };
    assert_eq!(pushed, pulled);
}

#[test]
fn deleting_a_created_folder_pulls_the_folder_that_was_pushed() {
    let created = CreateFolder {
        email: "ann@example.com".to_string(),
        folder_index: 0,
        folder_name: "Trips".to_string(),
    };
    let f = folder_for(&created, id(4));
    let (unlist, remove) = delete_folder_commands(
        &DeleteFolder { email: "ann@example.com".to_string(), _id: id(4) },
        &vec![],
    );
    assert_eq!(unlist.email, remove.email);
    match unlist.change {
        UserChange::PullNotes { note_ids } => assert!(note_ids.is_empty()),
        _ => panic!("expected a pull of the notes"),
    }
    match remove.change {
        UserChange::PullFolder { folder_id } => assert_eq!(folder_id, f._id),
        _ => panic!("expected a pull of the folder"),
    }
}

#[test]
fn collaborating_client_follows_the_note_text() {
    match note_contents_query("641F0000000000000000AB07") {
        Some(NoteQuery::ById { id: q }) => assert_eq!(q, id(7)),
        _ => panic!("expected a query by id"),
    }
    assert!(note_contents_query("not an id").is_none());
    assert_eq!(note_contents::<String>(Ok(Some(note(7, "Plans", "")))), "text of Plans");
    assert_eq!(note_contents::<String>(Ok(None)), "");
    assert_eq!(note_contents::<String>(Err("down".to_string())), "");
}
