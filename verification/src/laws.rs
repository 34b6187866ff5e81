//! What the requests promise together: what their commands leave in the users and
//! notes collections, and what one request undoes of another.

use vstd::prelude::*;

use crate::commands::{
    apply_note_fields, apply_to_users, apply_user_change, command_reaches,
    command_reaches_by_email, delete_many_notes, delete_one_note, find_notes,
    first_folder_index, first_folder_index_is_first, first_index_where_is_first,
    first_index_where_unique, first_matching_note, first_reached_user, first_user_with_email,
    has_email, has_folder, insert_note, matched_by, note_id_taken, note_ids_unique, note_matches,
    reached_by, unmatched_by, update_one_note, with_folders, with_notes, NoteFieldsView,
    NoteQueryView, UserChangeView, UserCommandView,
};
use crate::handlers::{
    all_note_ids_valid, spec_delete_note_command, spec_folder_notes_query, spec_listed_notes,
    spec_new_folder, spec_new_note, spec_note_created_command, spec_note_created_reply, spec_note_id_texts,
    spec_note_interface, spec_ok_documents, spec_remove_folder_command,
    spec_unlist_notes_command, spec_user_notes_query, NoteInterfaceView,
};
use crate::model::{FolderView, NoteView, UserView};
use crate::object_id::{
    hex_text_decodes_back, hex_text_is_injective, is_object_id_hex, parsed_id_prints_lowercase,
    spec_decode_hex, spec_hex_lowercase, spec_to_hex,
};

verus! {

broadcast use vstd::seq_lib::group_filter_ensures;

/// Filtering with a predicate that every item satisfies keeps the sequence.
proof fn lemma_filter_all<A>(s: Seq<A>, p: spec_fn(A) -> bool)
    requires
        forall|i: int| 0 <= i < s.len() ==> p(#[trigger] s[i]),
    ensures
        s.filter(p) == s,
    decreases s.len(),
{
    reveal(Seq::filter);
    if s.len() > 0 {
        assert forall|i: int| 0 <= i < s.drop_last().len() implies p(
            #[trigger] s.drop_last()[i],
        ) by {
            assert(s.drop_last()[i] == s[i]);
        }
        lemma_filter_all(s.drop_last(), p);
        assert(p(s[s.len() - 1]));
        assert(s.drop_last().push(s.last()) =~= s);
    }
}

/// Filtering with a predicate that no item satisfies leaves nothing.
proof fn lemma_filter_none<A>(s: Seq<A>, p: spec_fn(A) -> bool)
    requires
        forall|i: int| 0 <= i < s.len() ==> !p(#[trigger] s[i]),
    ensures
        s.filter(p) == Seq::<A>::empty(),
    decreases s.len(),
{
    reveal(Seq::filter);
    if s.len() > 0 {
        assert forall|i: int| 0 <= i < s.drop_last().len() implies !p(
            #[trigger] s.drop_last()[i],
        ) by {
            assert(s.drop_last()[i] == s[i]);
        }
        lemma_filter_none(s.drop_last(), p);
        assert(!p(s[s.len() - 1]));
    }
}

/// An item that the predicate refuses, appended, is filtered out again.
proof fn lemma_filter_push_out<A>(s: Seq<A>, p: spec_fn(A) -> bool, x: A)
    requires
        !p(x),
    ensures
        s.push(x).filter(p) == s.filter(p),
{
    reveal(Seq::filter);
    assert(s.push(x).drop_last() =~= s);
}

/// For a command that changes no folder, the first user it reaches is the first user
/// with its email.
proof fn lemma_reached_is_first_with_email(users: Seq<UserView>, command: UserCommandView)
    requires
        !(command.change is ReplaceFolder),
    ensures
        first_reached_user(users, command) == first_user_with_email(users, command.email),
{
    command_reaches_by_email(command);
}

/// What is known of the first user with an email.
proof fn lemma_first_with_email(users: Seq<UserView>, email: Seq<char>)
    ensures
        -1 <= first_user_with_email(users, email) < users.len(),
        first_user_with_email(users, email) >= 0 ==> users[first_user_with_email(
            users,
            email,
        )].email == email,
        forall|j: int|
            0 <= j < users.len() && (first_user_with_email(users, email) < 0 || j
                < first_user_with_email(users, email)) ==> #[trigger] users[j].email != email,
{
    first_index_where_is_first(users, has_email(email));
    assert forall|j: int|
        0 <= j < users.len() && (first_user_with_email(users, email) < 0 || j
            < first_user_with_email(users, email)) implies #[trigger] users[j].email != email by {
        assert(!has_email(email)(users[j]));
    }
}

/// Where a user keeps their email, the first user with that email stays where it was.
proof fn lemma_first_with_email_kept(
    users: Seq<UserView>,
    email: Seq<char>,
    k: int,
    changed: UserView,
)
    requires
        k == first_user_with_email(users, email),
        k >= 0,
        changed.email == email,
    ensures
        first_user_with_email(users.update(k, changed), email) == k,
{
    lemma_first_with_email(users, email);
    let after = users.update(k, changed);
    assert forall|j: int| 0 <= j < k implies !has_email(email)(#[trigger] after[j]) by {
        assert(after[j] == users[j]);
        assert(users[j].email != email);
    }
    first_index_where_unique(after, has_email(email), k);
}

/// A command changes the first user that its filter reaches, in the way its change
/// says, and no other user; where it reaches none, the collection stays as it was.
pub proof fn commands_change_only_the_first_reached_user(
    users: Seq<UserView>,
    command: UserCommandView,
)
    ensures
        apply_to_users(command, users).len() == users.len(),
        first_reached_user(users, command) < 0 ==> apply_to_users(command, users) == users,
        first_reached_user(users, command) < 0 ==> forall|i: int|
            0 <= i < users.len() ==> !command_reaches(command, #[trigger] users[i]),
        first_reached_user(users, command) >= 0 ==> command_reaches(
            command,
            users[first_reached_user(users, command)],
        ) && apply_to_users(command, users)[first_reached_user(users, command)]
            == apply_user_change(command.change, users[first_reached_user(users, command)]),
        forall|j: int|
            0 <= j < first_reached_user(users, command) ==> !command_reaches(
                command,
                #[trigger] users[j],
            ),
        forall|i: int|
            0 <= i < users.len() && i != first_reached_user(users, command) ==> #[trigger] apply_to_users(
                command,
                users,
            )[i] == users[i],
{
    first_index_where_is_first(users, reached_by(command));
    assert forall|i: int|
        0 <= i < users.len() && (first_reached_user(users, command) < 0 || i < first_reached_user(
            users,
            command,
        )) implies !command_reaches(command, #[trigger] users[i]) by {
        assert(!reached_by(command)(users[i]));
    }
}

/// A note that a user's request creates is stored last in the notes collection, where
/// no note has its id yet, and its id is listed last under the first user with the
/// request's email; no other user changes. The client is answered the stored note,
/// its id in hexadecimal.
pub proof fn created_note_is_listed(
    users: Seq<UserView>,
    notes: Seq<NoteView>,
    email: Seq<char>,
    id: Seq<u8>,
    title: Seq<char>,
)
    ensures
        ({
            let after = apply_to_users(spec_note_created_command(email, id), users);
            let k = first_user_with_email(users, email);
            let inserted = insert_note(spec_new_note(id, title), notes);
            &&& after.len() == users.len()
            &&& k >= 0 ==> users[k].email == email && after[k] == with_notes(
                users[k],
                users[k].notes.push(spec_note_created_reply(id, title).id),
            )
            &&& forall|i: int| 0 <= i < users.len() && i != k ==> #[trigger] after[i] == users[i]
            &&& inserted is Some <==> !note_id_taken(notes, id)
            &&& inserted matches Some(stored) ==> stored.len() == notes.len() + 1 && stored.last()
                == spec_new_note(id, title) && spec_note_interface(stored.last())
                == spec_note_created_reply(id, title)
        }),
{
    let command = spec_note_created_command(email, id);
    lemma_reached_is_first_with_email(users, command);
    lemma_first_with_email(users, email);
}

/// Once a note is deleted, the first note with its id is gone from the notes
/// collection, the first user with the request's email lists its id nowhere and still
/// lists every other note in the same order, and no other user changes.
pub proof fn deleted_note_is_unlisted(
    users: Seq<UserView>,
    notes: Seq<NoteView>,
    email: Seq<char>,
    id: Seq<u8>,
)
    ensures
        ({
            let after = apply_to_users(spec_delete_note_command(email, id), users);
            let k = first_user_with_email(users, email);
            let m = first_matching_note(notes, NoteQueryView::ById { id: id });
            &&& after.len() == users.len()
            &&& k >= 0 ==> after[k] == with_notes(
                users[k],
                users[k].notes.filter(|n: Seq<char>| n != spec_to_hex(id)),
            )
            &&& k >= 0 ==> !after[k].notes.contains(spec_to_hex(id))
            &&& k >= 0 ==> forall|n: Seq<char>|
                users[k].notes.contains(n) && n != spec_to_hex(id) ==> after[k].notes.contains(n)
            &&& forall|i: int| 0 <= i < users.len() && i != k ==> #[trigger] after[i] == users[i]
            &&& m >= 0 ==> notes[m].id == id && delete_one_note(
                NoteQueryView::ById { id: id },
                notes,
            ) == notes.remove(m)
            &&& forall|j: int|
                0 <= j < notes.len() && (m < 0 || j < m) ==> #[trigger] notes[j].id != id
            &&& m < 0 ==> delete_one_note(NoteQueryView::ById { id: id }, notes) == notes
        }),
{
    let command = spec_delete_note_command(email, id);
    lemma_reached_is_first_with_email(users, command);
    lemma_first_with_email(users, email);
    let q = NoteQueryView::ById { id: id };
    first_index_where_is_first(notes, matched_by(q));
    assert forall|j: int|
        0 <= j < notes.len() && (first_matching_note(notes, q) < 0 || j < first_matching_note(
            notes,
            q,
        )) implies #[trigger] notes[j].id != id by {
        assert(!matched_by(q)(notes[j]));
    }
    let k = first_user_with_email(users, email);
    if k >= 0 {
        let x = spec_to_hex(id);
        let pred = |n: Seq<char>| n != x;
        let kept = users[k].notes.filter(pred);
        if kept.contains(x) {
            let i = choose|i: int| 0 <= i < kept.len() && kept[i] == x;
            assert(pred(kept[i]));
        }
        assert forall|n: Seq<char>| users[k].notes.contains(n) && n != x implies kept.contains(
            n,
        ) by {
            let i = choose|i: int| 0 <= i < users[k].notes.len() && users[k].notes[i] == n;
            users[k].notes.lemma_filter_contains(pred, i);
        }
    }
}

/// Deleting a note that was just created gives back both collections as they were,
/// where no note had its id and the first user with the email did not list it.
pub proof fn deleting_created_note_restores_collections(
    users: Seq<UserView>,
    notes: Seq<NoteView>,
    email: Seq<char>,
    id: Seq<u8>,
    title: Seq<char>,
)
    requires
        first_user_with_email(users, email) >= 0 ==> !users[first_user_with_email(
            users,
            email,
        )].notes.contains(spec_to_hex(id)),
        !note_id_taken(notes, id),
    ensures
        apply_to_users(
            spec_delete_note_command(email, id),
            apply_to_users(spec_note_created_command(email, id), users),
        ) == users,
        insert_note(spec_new_note(id, title), notes) is Some,
        delete_one_note(
            NoteQueryView::ById { id: id },
            insert_note(spec_new_note(id, title), notes).unwrap(),
        ) == notes,
{
    let create = spec_note_created_command(email, id);
    let delete = spec_delete_note_command(email, id);
    let x = spec_to_hex(id);
    lemma_reached_is_first_with_email(users, create);
    lemma_first_with_email(users, email);
    let k = first_user_with_email(users, email);
    let mid = apply_to_users(create, users);
    lemma_reached_is_first_with_email(mid, delete);
    if k >= 0 {
        let pushed = users[k].notes.push(x);
        lemma_first_with_email_kept(users, email, k, with_notes(users[k], pushed));
        lemma_filter_push_out(users[k].notes, |n: Seq<char>| n != x, x);
        lemma_filter_all(users[k].notes, |n: Seq<char>| n != x);
        assert(apply_to_users(delete, mid) =~= users);
    }
    let q = NoteQueryView::ById { id: id };
    let stored = insert_note(spec_new_note(id, title), notes).unwrap();
    assert forall|j: int| 0 <= j < notes.len() implies !matched_by(q)(#[trigger] stored[j]) by {
        assert(stored[j] == notes[j]);
        if notes[j].id == id {
            assert(note_id_taken(notes, id));
        }
    }
    first_index_where_unique(stored, matched_by(q), notes.len() as int);
    assert(stored.remove(notes.len() as int) =~= notes);
}

/// Once a folder is deleted, no note filed in it is left in the notes collection and
/// every other note stays; the first user with the request's email holds no folder
/// with its id, lists none of the deleted notes, and still lists every other note;
/// no other user changes.
pub proof fn deleted_folder_leaves_no_trace(
    users: Seq<UserView>,
    notes: Seq<NoteView>,
    email: Seq<char>,
    folder_id: Seq<u8>,
)
    ensures
        ({
            let q = spec_folder_notes_query(folder_id);
            let in_folder = find_notes(q, notes);
            let after = apply_to_users(
                spec_remove_folder_command(email, folder_id),
                apply_to_users(spec_unlist_notes_command(email, in_folder), users),
            );
            let left = delete_many_notes(q, notes);
            let k = first_user_with_email(users, email);
            &&& forall|j: int| 0 <= j < in_folder.len() ==> #[trigger] in_folder[j].folder
                == spec_to_hex(folder_id)
            &&& forall|j: int| 0 <= j < left.len() ==> #[trigger] left[j].folder != spec_to_hex(
                folder_id,
            )
            &&& forall|n: NoteView|
                notes.contains(n) && n.folder != spec_to_hex(folder_id) ==> left.contains(n)
            &&& after.len() == users.len()
            &&& k >= 0 ==> forall|i: int|
                0 <= i < after[k].folders.len() ==> #[trigger] after[k].folders[i].id
                    != spec_to_hex(folder_id)
            &&& k >= 0 ==> forall|j: int|
                0 <= j < in_folder.len() ==> !after[k].notes.contains(
                    spec_to_hex(#[trigger] in_folder[j].id),
                )
            &&& k >= 0 ==> forall|n: Seq<char>|
                users[k].notes.contains(n) && !spec_note_id_texts(in_folder).contains(n)
                    ==> after[k].notes.contains(n)
            &&& k >= 0 ==> after[k].email == users[k].email && after[k].id == users[k].id
                && after[k].prefs == users[k].prefs && after[k].last_note == users[k].last_note
            &&& forall|i: int| 0 <= i < users.len() && i != k ==> #[trigger] after[i] == users[i]
        }),
{
    let q = spec_folder_notes_query(folder_id);
    let fid = spec_to_hex(folder_id);
    let in_folder = find_notes(q, notes);
    let unlist = spec_unlist_notes_command(email, in_folder);
    let remove = spec_remove_folder_command(email, folder_id);
    let left = delete_many_notes(q, notes);
    assert forall|j: int| 0 <= j < in_folder.len() implies #[trigger] in_folder[j].folder
        == fid by {
        assert(matched_by(q)(in_folder[j]));
    }
    assert forall|j: int| 0 <= j < left.len() implies #[trigger] left[j].folder != fid by {
        assert(unmatched_by(q)(left[j]));
    }
    assert forall|n: NoteView| notes.contains(n) && n.folder != fid implies left.contains(n) by {
        let i = choose|i: int| 0 <= i < notes.len() && notes[i] == n;
        notes.lemma_filter_contains(unmatched_by(q), i);
    }
    lemma_reached_is_first_with_email(users, unlist);
    lemma_first_with_email(users, email);
    let k = first_user_with_email(users, email);
    let mid = apply_to_users(unlist, users);
    lemma_reached_is_first_with_email(mid, remove);
    if k >= 0 {
        let texts = spec_note_id_texts(in_folder);
        let keep = |n: Seq<char>| !texts.contains(n);
        let kept_notes = users[k].notes.filter(keep);
        lemma_first_with_email_kept(users, email, k, with_notes(users[k], kept_notes));
        let keep_folder = |f: FolderView| f.id != fid;
        let kept_folders = users[k].folders.filter(keep_folder);
        let after = apply_to_users(remove, mid);
        assert(after[k].notes == kept_notes);
        assert(after[k].folders == kept_folders);
        assert forall|i: int| 0 <= i < kept_folders.len() implies #[trigger] kept_folders[i].id
            != fid by {
            assert(keep_folder(kept_folders[i]));
        }
        assert forall|j: int| 0 <= j < in_folder.len() implies !kept_notes.contains(
            spec_to_hex(#[trigger] in_folder[j].id),
        ) by {
            let x = spec_to_hex(in_folder[j].id);
            assert(texts[j] == x);
            if kept_notes.contains(x) {
                let i = choose|i: int| 0 <= i < kept_notes.len() && kept_notes[i] == x;
                assert(keep(kept_notes[i]));
            }
        }
        assert forall|n: Seq<char>|
            users[k].notes.contains(n) && !texts.contains(n) implies kept_notes.contains(n) by {
            let i = choose|i: int| 0 <= i < users[k].notes.len() && users[k].notes[i] == n;
            users[k].notes.lemma_filter_contains(keep, i);
        }
    }
}

/// The notes that a folder deletion deletes are those filed in the folder.
pub proof fn folder_deletion_reaches_its_notes(folder_id: Seq<u8>, note: NoteView)
    ensures
        note_matches(spec_folder_notes_query(folder_id), note) <==> note.folder == spec_to_hex(
            folder_id,
        ),
{
}

/// A folder that a request creates is the last folder of the first user with the
/// request's email, and is the folder the client is answered; no other user changes.
pub proof fn created_folder_is_listed(
    users: Seq<UserView>,
    email: Seq<char>,
    id: Seq<u8>,
    name: Seq<char>,
    order: i32,
)
    ensures
        ({
            let after = apply_to_users(
                UserCommandView {
                    email: email,
                    change: UserChangeView::PushFolder { folder: spec_new_folder(id, name, order) },
                },
                users,
            );
            let k = first_user_with_email(users, email);
            &&& after.len() == users.len()
            &&& k >= 0 ==> users[k].email == email && after[k] == with_folders(
                users[k],
                users[k].folders.push(spec_new_folder(id, name, order)),
            )
            &&& forall|i: int| 0 <= i < users.len() && i != k ==> #[trigger] after[i] == users[i]
        }),
{
    let command = UserCommandView {
        email: email,
        change: UserChangeView::PushFolder { folder: spec_new_folder(id, name, order) },
    };
    lemma_reached_is_first_with_email(users, command);
    lemma_first_with_email(users, email);
}

/// Deleting a folder that was just created gives back both collections as they were,
/// where the first user with the email held no folder with its id and no note was
/// filed under that id.
pub proof fn deleting_created_folder_restores_collections(
    users: Seq<UserView>,
    notes: Seq<NoteView>,
    email: Seq<char>,
    id: Seq<u8>,
    name: Seq<char>,
    order: i32,
)
    requires
        first_user_with_email(users, email) >= 0 ==> !has_folder(
            users[first_user_with_email(users, email)].folders,
            spec_to_hex(id),
        ),
        forall|j: int| 0 <= j < notes.len() ==> #[trigger] notes[j].folder != spec_to_hex(id),
    ensures
        ({
            let created = apply_to_users(
                UserCommandView {
                    email: email,
                    change: UserChangeView::PushFolder {
                        folder: spec_new_folder(id, name, order),
                    },
                },
                users,
            );
            let q = spec_folder_notes_query(id);
            let in_folder = find_notes(q, notes);
            &&& in_folder.len() == 0
            &&& delete_many_notes(q, notes) == notes
            &&& apply_to_users(
                spec_remove_folder_command(email, id),
                apply_to_users(spec_unlist_notes_command(email, in_folder), created),
            ) == users
        }),
{
    let fid = spec_to_hex(id);
    let folder = spec_new_folder(id, name, order);
    let create = UserCommandView {
        email: email,
        change: UserChangeView::PushFolder { folder: folder },
    };
    let q = spec_folder_notes_query(id);
    assert forall|j: int| 0 <= j < notes.len() implies !matched_by(q)(#[trigger] notes[j]) by {
    }
    lemma_filter_none(notes, matched_by(q));
    assert forall|j: int| 0 <= j < notes.len() implies unmatched_by(q)(#[trigger] notes[j]) by {
    }
    lemma_filter_all(notes, unmatched_by(q));
    let in_folder = find_notes(q, notes);
    let unlist = spec_unlist_notes_command(email, in_folder);
    let remove = spec_remove_folder_command(email, id);
    lemma_reached_is_first_with_email(users, create);
    lemma_first_with_email(users, email);
    let k = first_user_with_email(users, email);
    let created = apply_to_users(create, users);
    lemma_reached_is_first_with_email(created, unlist);
    let mid = apply_to_users(unlist, created);
    lemma_reached_is_first_with_email(mid, remove);
    if k >= 0 {
        let u = users[k];
        let pushed = u.folders.push(folder);
        let c = with_folders(u, pushed);
        lemma_first_with_email_kept(users, email, k, c);
        let texts = spec_note_id_texts(in_folder);
        assert(texts =~= Seq::<Seq<char>>::empty());
        let keep = |n: Seq<char>| !texts.contains(n);
        assert forall|i: int| 0 <= i < u.notes.len() implies keep(#[trigger] u.notes[i]) by {
        }
        lemma_filter_all(u.notes, keep);
        assert(mid[k] == c);
        lemma_first_with_email_kept(created, email, k, c);
        let keep_folder = |f: FolderView| f.id != fid;
        lemma_filter_push_out(u.folders, keep_folder, folder);
        assert forall|i: int| 0 <= i < u.folders.len() implies keep_folder(
            #[trigger] u.folders[i],
        ) by {
            if u.folders[i].id == fid {
                assert(has_folder(u.folders, fid));
            }
        }
        lemma_filter_all(u.folders, keep_folder);
        assert(apply_to_users(remove, mid) =~= users);
    }
}

/// Changing one folder reaches the first user with the request's email that holds a
/// folder with its id; there the new folder replaces the first folder with that id,
/// and every other folder stays where it was. No other user changes, and where no user
/// is reached nothing changes.
pub proof fn folder_update_is_local(users: Seq<UserView>, email: Seq<char>, folder: FolderView)
    ensures
        ({
            let command = UserCommandView {
                email: email,
                change: UserChangeView::ReplaceFolder { folder: folder },
            };
            let after = apply_to_users(command, users);
            let k = first_reached_user(users, command);
            &&& after.len() == users.len()
            &&& k >= 0 ==> users[k].email == email && has_folder(users[k].folders, folder.id)
            &&& forall|i: int|
                0 <= i < users.len() && (k < 0 || i < k) ==> !(#[trigger] users[i].email == email
                    && has_folder(users[i].folders, folder.id))
            &&& k >= 0 ==> ({
                let j = first_folder_index(users[k].folders, folder.id);
                &&& 0 <= j < users[k].folders.len()
                &&& users[k].folders[j].id == folder.id
                &&& forall|i: int| 0 <= i < j ==> #[trigger] users[k].folders[i].id != folder.id
                &&& after[k] == with_folders(users[k], users[k].folders.update(j, folder))
            })
            &&& forall|i: int| 0 <= i < users.len() && i != k ==> #[trigger] after[i] == users[i]
        }),
{
    let command = UserCommandView {
        email: email,
        change: UserChangeView::ReplaceFolder { folder: folder },
    };
    commands_change_only_the_first_reached_user(users, command);
    let k = first_reached_user(users, command);
    assert forall|i: int| 0 <= i < users.len() && (k < 0 || i < k) implies !(
    #[trigger] users[i].email == email && has_folder(users[i].folders, folder.id)) by {
        assert(!command_reaches(command, users[i]));
    }
    if k >= 0 {
        let fs = users[k].folders;
        first_folder_index_is_first(fs, folder.id);
        let j = first_folder_index(fs, folder.id);
        if j < 0 {
            let w = choose|w: int| 0 <= w < fs.len() && #[trigger] fs[w].id == folder.id;
            assert(fs[w].id != folder.id);
        }
    }
}

/// An update of a note sets the fields on the first note with its id, keeps that
/// note's id, and leaves every other note as it was.
pub proof fn note_update_sets_fields(notes: Seq<NoteView>, id: Seq<u8>, fields: NoteFieldsView)
    ensures
        ({
            let q = NoteQueryView::ById { id: id };
            let after = update_one_note(q, fields, notes);
            let m = first_matching_note(notes, q);
            &&& after.len() == notes.len()
            &&& m >= 0 ==> notes[m].id == id && after[m] == apply_note_fields(fields, notes[m])
                && after[m].id == id
            &&& forall|j: int|
                0 <= j < notes.len() && (m < 0 || j < m) ==> #[trigger] notes[j].id != id
            &&& forall|i: int| 0 <= i < notes.len() && i != m ==> #[trigger] after[i] == notes[i]
        }),
{
    let q = NoteQueryView::ById { id: id };
    first_index_where_is_first(notes, matched_by(q));
    assert forall|j: int|
        0 <= j < notes.len() && (first_matching_note(notes, q) < 0 || j < first_matching_note(
            notes,
            q,
        )) implies #[trigger] notes[j].id != id by {
        assert(!matched_by(q)(notes[j]));
    }
}

/// The id with which a note is sent to the client reads back as the note's id.
pub proof fn note_interface_id_reads_back(note: NoteView)
    requires
        note.id.len() == 12,
    ensures
        is_object_id_hex(spec_note_interface(note).id),
        spec_decode_hex(spec_note_interface(note).id) == note.id,
{
    hex_text_decodes_back(note.id);
}

/// The notes that are looked up for a user are those whose id, in lower-case text,
/// the user lists in either case.
pub proof fn user_notes_query_reaches_listed_notes(notes: Seq<Seq<char>>, note: NoteView)
    requires
        all_note_ids_valid(notes),
        note.id.len() == 12,
    ensures
        note_matches(spec_user_notes_query(notes), note) <==> exists|i: int|
            0 <= i < notes.len() && #[trigger] spec_hex_lowercase(notes[i]) == spec_to_hex(
                note.id,
            ),
{
    let ids = notes.map_values(|s: Seq<char>| spec_decode_hex(s));
    if ids.contains(note.id) {
        let i = choose|i: int| 0 <= i < ids.len() && ids[i] == note.id;
        parsed_id_prints_lowercase(notes[i]);
        assert(spec_hex_lowercase(notes[i]) == spec_to_hex(note.id));
    }
    if exists|i: int|
        0 <= i < notes.len() && #[trigger] spec_hex_lowercase(notes[i]) == spec_to_hex(note.id) {
        let i = choose|i: int|
            0 <= i < notes.len() && #[trigger] spec_hex_lowercase(notes[i]) == spec_to_hex(note.id);
        parsed_id_prints_lowercase(notes[i]);
        hex_text_is_injective(spec_decode_hex(notes[i]), note.id);
        assert(ids[i] == note.id);
    }
}

/// No two notes that a user is answered with share an id.
pub open spec fn listed_ids_unique(listed: Seq<NoteInterfaceView>) -> bool {
    forall|i: int, j: int|
        0 <= i < listed.len() && 0 <= j < listed.len() && i != j ==> #[trigger] listed[i].id
            != #[trigger] listed[j].id
}

/// Filtering keeps note ids unique.
proof fn lemma_filter_keeps_ids_unique(notes: Seq<NoteView>, p: spec_fn(NoteView) -> bool)
    requires
        note_ids_unique(notes),
    ensures
        note_ids_unique(notes.filter(p)),
    decreases notes.len(),
{
    reveal(Seq::filter);
    if notes.len() > 0 {
        let rest = notes.drop_last();
        assert forall|i: int, j: int|
            0 <= i < rest.len() && 0 <= j < rest.len() && i != j implies #[trigger] rest[i].id
            != #[trigger] rest[j].id by {
            assert(rest[i] == notes[i] && rest[j] == notes[j]);
        }
        lemma_filter_keeps_ids_unique(rest, p);
        let f = rest.filter(p);
        if p(notes.last()) {
            let g = f.push(notes.last());
            assert forall|i: int, j: int|
                0 <= i < g.len() && 0 <= j < g.len() && i != j implies #[trigger] g[i].id
                != #[trigger] g[j].id by {
                if i == f.len() || j == f.len() {
                    let o = if i == f.len() {
                        j
                    } else {
                        i
                    };
                    assert(f.contains(f[o]));
                    rest.lemma_filter_contains_rev(p, f[o]);
                    let t = choose|t: int| 0 <= t < rest.len() && rest[t] == f[o];
                    assert(notes[t] == f[o]);
                    assert(notes[notes.len() - 1] == notes.last());
                    assert(notes[t].id != notes[notes.len() - 1].id);
                }
            }
        }
    }
}

/// What is known of each note a user is answered with: it is a stored note that the
/// query of the user's notes reaches, in the form sent to the client; and where the
/// stored ids are unique, so are the answered ids.
proof fn lemma_listed_notes(user_notes: Seq<Seq<char>>, notes: Seq<NoteView>)
    ensures
        ({
            let f = find_notes(spec_user_notes_query(user_notes), notes);
            let listed = spec_listed_notes(user_notes, notes);
            &&& listed.len() == f.len()
            &&& forall|i: int| 0 <= i < f.len() ==> #[trigger] listed[i] == spec_note_interface(f[i])
            &&& forall|i: int| 0 <= i < f.len() ==> notes.contains(#[trigger] f[i])
            &&& forall|i: int| 0 <= i < f.len() ==> note_matches(
                spec_user_notes_query(user_notes),
                #[trigger] f[i],
            )
            &&& forall|n: NoteView| notes.contains(n) && note_matches(
                spec_user_notes_query(user_notes),
                n,
            ) ==> #[trigger] f.contains(n)
            &&& note_ids_unique(notes) ==> listed_ids_unique(listed)
        }),
{
    let q = spec_user_notes_query(user_notes);
    let f = find_notes(q, notes);
    let listed = spec_listed_notes(user_notes, notes);
    assert forall|i: int| 0 <= i < f.len() implies notes.contains(#[trigger] f[i]) by {
        assert(f.contains(f[i]));
        notes.lemma_filter_contains_rev(matched_by(q), f[i]);
    }
    assert forall|i: int| 0 <= i < f.len() implies note_matches(q, #[trigger] f[i]) by {
        assert(matched_by(q)(f[i]));
    }
    assert forall|n: NoteView| notes.contains(n) && note_matches(q, n) implies #[trigger] f.contains(
        n,
    ) by {
        let t = choose|t: int| 0 <= t < notes.len() && notes[t] == n;
        notes.lemma_filter_contains(matched_by(q), t);
    }
    if note_ids_unique(notes) {
        lemma_filter_keeps_ids_unique(notes, matched_by(q));
        assert forall|i: int, j: int|
            0 <= i < listed.len() && 0 <= j < listed.len() && i != j implies #[trigger] listed[i].id
            != #[trigger] listed[j].id by {
            hex_text_is_injective(f[i].id, f[j].id);
        }
    }
}

/// The only stored note with a taken id, where ids are unique.
proof fn lemma_unique_holder(notes: Seq<NoteView>, m: int, n: NoteView)
    requires
        note_ids_unique(notes),
        0 <= m < notes.len(),
        notes.contains(n),
        n.id == notes[m].id,
    ensures
        n == notes[m],
{
    let t = choose|t: int| 0 <= t < notes.len() && notes[t] == n;
    if t != m {
        assert(notes[t].id != notes[m].id);
    }
}

/// A valid id text for the id of twelve bytes, and one that reads back as them.
proof fn lemma_hex_of_id(id: Seq<u8>)
    requires
        id.len() == 12,
    ensures
        is_object_id_hex(spec_to_hex(id)),
        spec_decode_hex(spec_to_hex(id)) == id,
{
    hex_text_decodes_back(id);
}

/// Storing, deleting and updating notes keep the ids of the notes collection unique.
pub proof fn note_changes_keep_ids_unique(
    notes: Seq<NoteView>,
    note: NoteView,
    query: NoteQueryView,
    fields: NoteFieldsView,
)
    requires
        note_ids_unique(notes),
    ensures
        insert_note(note, notes) matches Some(stored) ==> note_ids_unique(stored),
        note_ids_unique(delete_one_note(query, notes)),
        note_ids_unique(delete_many_notes(query, notes)),
        note_ids_unique(update_one_note(query, fields, notes)),
{
    if insert_note(note, notes) is Some {
        let stored = notes.push(note);
        assert forall|i: int, j: int|
            0 <= i < stored.len() && 0 <= j < stored.len() && i != j implies #[trigger] stored[i].id
            != #[trigger] stored[j].id by {
            if i == notes.len() && stored[j].id == note.id {
                assert(notes[j].id == note.id);
                assert(note_id_taken(notes, note.id));
            }
            if j == notes.len() && stored[i].id == note.id {
                assert(notes[i].id == note.id);
                assert(note_id_taken(notes, note.id));
            }
        }
    }
    let m = first_matching_note(notes, query);
    if m >= 0 {
        first_index_where_is_first(notes, matched_by(query));
        let r = notes.remove(m);
        assert forall|i: int, j: int|
            0 <= i < r.len() && 0 <= j < r.len() && i != j implies #[trigger] r[i].id
            != #[trigger] r[j].id by {
            let a = if i < m {
                i
            } else {
                i + 1
            };
            let b = if j < m {
                j
            } else {
                j + 1
            };
            assert(r[i] == notes[a] && r[j] == notes[b]);
        }
        let u = update_one_note(query, fields, notes);
        assert forall|i: int, j: int|
            0 <= i < u.len() && 0 <= j < u.len() && i != j implies #[trigger] u[i].id
            != #[trigger] u[j].id by {
            assert(u[i].id == notes[i].id && u[j].id == notes[j].id);
        }
    }
    lemma_filter_keeps_ids_unique(notes, unmatched_by(query));
}

/// After a user's request creates a note, where its id was free and every id the user
/// lists is valid, the user's notes answer the created note exactly once, as the
/// client was answered on creation.
pub proof fn created_note_is_shown(
    users: Seq<UserView>,
    notes: Seq<NoteView>,
    email: Seq<char>,
    id: Seq<u8>,
    title: Seq<char>,
)
    requires
        note_ids_unique(notes),
        !note_id_taken(notes, id),
        id.len() == 12,
        first_user_with_email(users, email) >= 0,
        all_note_ids_valid(users[first_user_with_email(users, email)].notes),
    ensures
        ({
            let after = apply_to_users(spec_note_created_command(email, id), users);
            let k = first_user_with_email(users, email);
            let stored = insert_note(spec_new_note(id, title), notes).unwrap();
            let listed = spec_listed_notes(after[k].notes, stored);
            let reply = spec_note_created_reply(id, title);
            &&& insert_note(spec_new_note(id, title), notes) is Some
            &&& note_ids_unique(stored)
            &&& all_note_ids_valid(after[k].notes)
            &&& listed.contains(reply)
            &&& forall|i: int| 0 <= i < listed.len() && #[trigger] listed[i].id == reply.id
                ==> listed[i] == reply
            &&& listed_ids_unique(listed)
        }),
{
    let command = spec_note_created_command(email, id);
    lemma_reached_is_first_with_email(users, command);
    lemma_first_with_email(users, email);
    let k = first_user_with_email(users, email);
    let after = apply_to_users(command, users);
    let x = spec_to_hex(id);
    let listed_ids = after[k].notes;
    assert(listed_ids == users[k].notes.push(x));
    lemma_hex_of_id(id);
    assert forall|i: int| 0 <= i < listed_ids.len() implies is_object_id_hex(
        #[trigger] listed_ids[i],
    ) by {
        if i < users[k].notes.len() {
            assert(listed_ids[i] == users[k].notes[i]);
        }
    }
    let new = spec_new_note(id, title);
    note_changes_keep_ids_unique(notes, new, NoteQueryView::All, no_fields());
    let stored = notes.push(new);
    let q = spec_user_notes_query(listed_ids);
    let ids = listed_ids.map_values(|s: Seq<char>| spec_decode_hex(s));
    assert(ids[listed_ids.len() - 1] == id);
    assert(note_matches(q, new));
    assert(stored.contains(new)) by {
        assert(stored[notes.len() as int] == new);
    }
    lemma_listed_notes(listed_ids, stored);
    let f = find_notes(q, stored);
    let listed = spec_listed_notes(listed_ids, stored);
    let reply = spec_note_created_reply(id, title);
    assert(f.contains(new));
    let w = choose|w: int| 0 <= w < f.len() && f[w] == new;
    assert(listed[w] == reply);
    assert forall|i: int| 0 <= i < listed.len() && #[trigger] listed[i].id == reply.id implies listed[i]
        == reply by {
        hex_text_is_injective(f[i].id, id);
        lemma_unique_holder(stored, notes.len() as int, f[i]);
    }
}

/// After a note is updated, the notes of a user who lists its id answer it with the new
/// fields, exactly once.
pub proof fn updated_note_is_shown(
    user_notes: Seq<Seq<char>>,
    notes: Seq<NoteView>,
    id: Seq<u8>,
    fields: NoteFieldsView,
)
    requires
        note_ids_unique(notes),
        all_note_ids_valid(user_notes),
        user_notes.contains(spec_to_hex(id)),
        note_id_taken(notes, id),
    ensures
        ({
            let after = update_one_note(NoteQueryView::ById { id: id }, fields, notes);
            let listed = spec_listed_notes(user_notes, after);
            let shown = NoteInterfaceView {
                id: spec_to_hex(id),
                title: fields.title,
                text: fields.text,
                folder: fields.folder,
                index: fields.index,
            };
            &&& note_ids_unique(after)
            &&& listed.contains(shown)
            &&& forall|i: int| 0 <= i < listed.len() && #[trigger] listed[i].id == shown.id
                ==> listed[i] == shown
            &&& listed_ids_unique(listed)
        }),
{
    let q = NoteQueryView::ById { id: id };
    note_changes_keep_ids_unique(notes, id_holder(id), q, fields);
    first_index_where_is_first(notes, matched_by(q));
    let m = first_matching_note(notes, q);
    if m < 0 {
        let t = choose|t: int| 0 <= t < notes.len() && #[trigger] notes[t].id == id;
        assert(!matched_by(q)(notes[t]));
    }
    let after = update_one_note(q, fields, notes);
    let changed = after[m];
    assert(changed.id == id);
    let t = choose|t: int| 0 <= t < user_notes.len() && user_notes[t] == spec_to_hex(id);
    let uq = spec_user_notes_query(user_notes);
    let ids = user_notes.map_values(|s: Seq<char>| spec_decode_hex(s));
    hex_text_decodes_back(id);
    assert(ids[t] == id);
    assert(note_matches(uq, changed));
    assert(after.contains(changed));
    lemma_listed_notes(user_notes, after);
    let f = find_notes(uq, after);
    let listed = spec_listed_notes(user_notes, after);
    assert(f.contains(changed));
    let w = choose|w: int| 0 <= w < f.len() && f[w] == changed;
    assert(listed[w] == spec_note_interface(changed));
    assert forall|i: int| 0 <= i < listed.len() && #[trigger] listed[i].id == spec_to_hex(id)
        implies listed[i] == listed[w] by {
        hex_text_is_injective(f[i].id, id);
        lemma_unique_holder(after, m, f[i]);
    }
}

/// After a note is deleted, no stored note has its id, so no user's notes answer it.
pub proof fn deleted_note_is_not_shown(user_notes: Seq<Seq<char>>, notes: Seq<NoteView>, id: Seq<u8>)
    requires
        note_ids_unique(notes),
    ensures
        ({
            let after = delete_one_note(NoteQueryView::ById { id: id }, notes);
            let listed = spec_listed_notes(user_notes, after);
            &&& note_ids_unique(after)
            &&& !note_id_taken(after, id)
            &&& forall|i: int| 0 <= i < listed.len() ==> #[trigger] listed[i].id != spec_to_hex(id)
        }),
{
    let q = NoteQueryView::ById { id: id };
    note_changes_keep_ids_unique(notes, id_holder(id), q, no_fields());
    first_index_where_is_first(notes, matched_by(q));
    let m = first_matching_note(notes, q);
    let after = delete_one_note(q, notes);
    if note_id_taken(after, id) {
        let t = choose|t: int| 0 <= t < after.len() && #[trigger] after[t].id == id;
        if m < 0 {
            assert(!matched_by(q)(notes[t]));
        } else {
            let a = if t < m {
                t
            } else {
                t + 1
            };
            assert(after[t] == notes[a]);
            assert(matched_by(q)(notes[m]));
        }
    }
    lemma_listed_notes(user_notes, after);
    let f = find_notes(spec_user_notes_query(user_notes), after);
    let listed = spec_listed_notes(user_notes, after);
    assert forall|i: int| 0 <= i < listed.len() implies #[trigger] listed[i].id != spec_to_hex(id) by {
        hex_text_is_injective(f[i].id, id);
        if f[i].id == id {
            let t = choose|t: int| 0 <= t < after.len() && after[t] == f[i];
            assert(note_id_taken(after, id));
        }
    }
}

/// Empty fields, where only the other changes of a note matter.
spec fn no_fields() -> NoteFieldsView {
    NoteFieldsView { title: Seq::empty(), text: Seq::empty(), folder: Seq::empty(), index: 0 }
}

/// Any note with the given id; only its id matters.
spec fn id_holder(id: Seq<u8>) -> NoteView {
    NoteView { id: id, title: Seq::empty(), text: Seq::empty(), folder: Seq::empty(), index: 0 }
}

/// Deleting the same note a second time finds no note and changes neither collection,
/// where note ids are unique.
pub proof fn deleting_note_twice_changes_nothing(
    users: Seq<UserView>,
    notes: Seq<NoteView>,
    email: Seq<char>,
    id: Seq<u8>,
)
    requires
        note_ids_unique(notes),
    ensures
        ({
            let command = spec_delete_note_command(email, id);
            let q = NoteQueryView::ById { id: id };
            let users_once = apply_to_users(command, users);
            let notes_once = delete_one_note(q, notes);
            &&& apply_to_users(command, users_once) == users_once
            &&& first_matching_note(notes_once, q) < 0
            &&& delete_one_note(q, notes_once) == notes_once
        }),
{
    let command = spec_delete_note_command(email, id);
    let q = NoteQueryView::ById { id: id };
    deleted_note_is_not_shown(Seq::empty(), notes, id);
    let notes_once = delete_one_note(q, notes);
    first_index_where_is_first(notes_once, matched_by(q));
    if first_matching_note(notes_once, q) >= 0 {
        assert(note_id_taken(notes_once, id));
    }
    lemma_reached_is_first_with_email(users, command);
    lemma_first_with_email(users, email);
    let k = first_user_with_email(users, email);
    let users_once = apply_to_users(command, users);
    lemma_reached_is_first_with_email(users_once, command);
    if k >= 0 {
        let x = spec_to_hex(id);
        let p = |n: Seq<char>| n != x;
        let kept = users[k].notes.filter(p);
        lemma_first_with_email_kept(users, email, k, with_notes(users[k], kept));
        assert forall|i: int| 0 <= i < kept.len() implies p(#[trigger] kept[i]) by {
        }
        lemma_filter_all(kept, p);
        assert(apply_to_users(command, users_once) =~= users_once);
    }
}

/// A search keeps the read documents of its results in order: the documents kept from
/// two runs of results, one after the other, are those kept from each run, one after
/// the other.
pub proof fn search_keeps_read_documents_in_order<T, E>(a: Seq<Result<T, E>>, b: Seq<Result<T, E>>)
    ensures
        spec_ok_documents(a + b) == spec_ok_documents(a) + spec_ok_documents(b),
    decreases b.len(),
{
    if b.len() == 0 {
        assert(a + b =~= a);
        assert(spec_ok_documents(b) =~= Seq::<T>::empty());
        assert(spec_ok_documents(a) + spec_ok_documents(b) =~= spec_ok_documents(a));
    } else {
        search_keeps_read_documents_in_order(a, b.drop_last());
        assert((a + b).drop_last() =~= a + b.drop_last());
        assert((a + b).last() == b.last());
        match b.last() {
            Ok(d) => {
                assert(spec_ok_documents(a) + spec_ok_documents(b.drop_last()).push(d)
                    =~= (spec_ok_documents(a) + spec_ok_documents(b.drop_last())).push(d));
            },
            Err(_) => {},
        }
    }
}

/// A read result gives its document, a failed one gives nothing, and no results give
/// no documents.
pub proof fn search_keeps_each_read_document<T, E>(d: T, e: E)
    ensures
        spec_ok_documents(Seq::<Result<T, E>>::empty()) == Seq::<T>::empty(),
        spec_ok_documents(seq![Ok::<T, E>(d)]) == seq![d],
        spec_ok_documents(seq![Err::<T, E>(e)]) == Seq::<T>::empty(),
{
    reveal_with_fuel(spec_ok_documents, 2);
    let read = seq![Ok::<T, E>(d)];
    let failed = seq![Err::<T, E>(e)];
    assert(read.drop_last() =~= Seq::<Result<T, E>>::empty());
    assert(failed.drop_last() =~= Seq::<Result<T, E>>::empty());
    assert(read.last() == Ok::<T, E>(d));
    assert(failed.last() == Err::<T, E>(e));
    assert(Seq::<T>::empty().push(d) =~= seq![d]);
}

/// Every new note, whatever its id and title, has that id and title, no text, no
/// folder and the position -1; the client is answered it with its id in hexadecimal.
pub proof fn new_notes_are_empty_and_unfiled(id: Seq<u8>, title: Seq<char>)
    ensures
        spec_new_note(id, title).id == id,
        spec_new_note(id, title).title == title,
        spec_new_note(id, title).text.len() == 0,
        spec_new_note(id, title).folder.len() == 0,
        spec_new_note(id, title).index == -1,
        spec_note_created_reply(id, title).id == spec_to_hex(id),
        spec_note_created_reply(id, title).title == title,
        spec_note_created_reply(id, title).text.len() == 0,
        spec_note_created_reply(id, title).folder.len() == 0,
        spec_note_created_reply(id, title).index == -1,
{
}

/// Every new folder, whatever its id, name and order, is open and carries that name,
/// that order and the id's hexadecimal text.
pub proof fn new_folders_are_open(id: Seq<u8>, name: Seq<char>, order: i32)
    ensures
        spec_new_folder(id, name, order).id == spec_to_hex(id),
        spec_new_folder(id, name, order).name == name,
        spec_new_folder(id, name, order).order == order,
        spec_new_folder(id, name, order).opened,
{
}

} // verus!
