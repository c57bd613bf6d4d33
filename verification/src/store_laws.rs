//! What every mutation of the store keeps true.

use crate::models::AuthEntryView;
use crate::models::GroupView;
use crate::models::Timestamp;
use crate::store::deduplicated;
use crate::store::entry_ids;
use crate::store::entry_names;
use crate::store::first_unknown;
use crate::store::group_ids;
use crate::store::group_names;
use crate::store::lemma_deduplicated;
use crate::store::lemma_entries_without;
use crate::store::lemma_first_unknown;
use crate::store::lemma_groups_without;
use crate::store::lemma_without;
use crate::store::without;
use crate::store::DataFileView;
use crate::text::first_index;
use crate::text::lemma_first_index;
use vstd::prelude::*;

verus! {

/// Where every id of `ids` is known, so is every id of `deduplicated(ids)`.
proof fn lemma_known_after_dedup(known: Seq<Seq<char>>, ids: Seq<Seq<char>>)
    requires
        first_unknown(known, ids) >= ids.len(),
    ensures
        forall|j: int|
            0 <= j < deduplicated(ids).len() ==> known.contains(#[trigger] deduplicated(ids)[j]),
        deduplicated(ids).no_duplicates(),
{
    lemma_first_unknown(known, ids);
    lemma_deduplicated(ids);
    assert forall|j: int| 0 <= j < deduplicated(ids).len() implies known.contains(
        #[trigger] deduplicated(ids)[j],
    ) by {
        let x = deduplicated(ids)[j];
        assert(deduplicated(ids).contains(x));
        assert(ids.contains(x));
        let m = choose|m: int| 0 <= m < ids.len() && ids[m] == x;
        assert(known.contains(ids[m]));
    }
}

/// Creating an entry keeps the store's invariant.
pub proof fn law_create_entry_keeps_invariant(d: DataFileView, entry: AuthEntryView)
    requires
        d.wf(),
        d.create_entry_error(entry) is None,
    ensures
        d.with_entry(entry.normalized()).wf(),
{
    let e = entry.normalized();
    let after = d.with_entry(e);
    lemma_first_unknown(group_ids(d.groups), entry.group_ids);
    lemma_known_after_dedup(group_ids(d.groups), entry.group_ids);
    assert forall|i: int, j: int|
        0 <= i < after.entries.len() && 0 <= j < after.entries[i].group_ids.len() implies group_ids(
        after.groups,
    ).contains(#[trigger] after.entries[i].group_ids[j]) by {
        if i < d.entries.len() {
            assert(after.entries[i] == d.entries[i]);
            assert(group_ids(d.groups).contains(d.entries[i].group_ids[j]));
        } else {
            assert(after.entries[i].group_ids == deduplicated(entry.group_ids));
        }
    }
    let names = entry_names(after.entries);
    assert forall|a: int, b: int|
        0 <= a < names.len() && 0 <= b < names.len() && a != b implies names[a] != names[b] by {
        if a < d.entries.len() && b < d.entries.len() {
            assert(entry_names(d.entries)[a] != entry_names(d.entries)[b]);
        } else {
            let inner = if a < b {
                a
            } else {
                b
            };
            assert(entry_names(d.entries)[inner] == d.entries[inner].name);
            assert(entry_names(d.entries).contains(d.entries[inner].name));
        }
    }
    assert forall|i: int| 0 <= i < after.entries.len() implies (
    #[trigger] after.entries[i]).group_ids.no_duplicates() by {
        if i < d.entries.len() {
            assert(after.entries[i] == d.entries[i]);
        }
    }
}

/// Updating an entry keeps the store's invariant.
pub proof fn law_update_entry_keeps_invariant(
    d: DataFileView,
    id: Seq<char>,
    name: Option<Seq<char>>,
    username: Option<Seq<char>>,
    password_hash: Option<Seq<char>>,
    new_group_ids: Option<Seq<Seq<char>>>,
    now: Timestamp,
)
    requires
        d.wf(),
        d.update_entry_error(id, name, new_group_ids) is None,
    ensures
        ({
            let p = first_index(entry_ids(d.entries), id);
            d.with_entry_at(
                p,
                d.entries[p].updated(name, username, password_hash, new_group_ids, now),
            ).wf()
        }),
{
    let p = first_index(entry_ids(d.entries), id);
    lemma_first_index(entry_ids(d.entries), id);
    let e = d.entries[p].updated(name, username, password_hash, new_group_ids, now);
    let after = d.with_entry_at(p, e);
    if new_group_ids is Some {
        lemma_known_after_dedup(group_ids(d.groups), new_group_ids->0);
    }
    assert forall|i: int, j: int|
        0 <= i < after.entries.len() && 0 <= j < after.entries[i].group_ids.len() implies group_ids(
        after.groups,
    ).contains(#[trigger] after.entries[i].group_ids[j]) by {
        if i != p {
            assert(after.entries[i] == d.entries[i]);
            assert(group_ids(d.groups).contains(d.entries[i].group_ids[j]));
        } else if new_group_ids is Some {
            assert(after.entries[i].group_ids == deduplicated(new_group_ids->0));
        } else {
            assert(group_ids(d.groups).contains(d.entries[p].group_ids[j]));
        }
    }
    let names = entry_names(after.entries);
    assert forall|a: int, b: int|
        0 <= a < names.len() && 0 <= b < names.len() && a != b implies names[a] != names[b] by {
        assert(entry_names(d.entries)[a] != entry_names(d.entries)[b]);
        if name is Some {
            if a == p {
                assert(d.entries[b].name != name->0);
            } else if b == p {
                assert(d.entries[a].name != name->0);
            }
        }
    }
    assert forall|i: int| 0 <= i < after.entries.len() implies (
    #[trigger] after.entries[i]).group_ids.no_duplicates() by {
        if i != p {
            assert(after.entries[i] == d.entries[i]);
        } else {
            assert(d.entries[p].group_ids.no_duplicates());
        }
    }
}

/// Deleting an entry keeps the store's invariant.
pub proof fn law_delete_entry_keeps_invariant(d: DataFileView, id: Seq<char>)
    requires
        d.wf(),
    ensures
        d.without_entry(id).wf(),
{
    let after = d.without_entry(id);
    lemma_entries_without(d.entries, id);
    assert forall|i: int, j: int|
        0 <= i < after.entries.len() && 0 <= j < after.entries[i].group_ids.len() implies group_ids(
        after.groups,
    ).contains(#[trigger] after.entries[i].group_ids[j]) by {
        assert(d.entries.contains(after.entries[i]));
        let m = choose|m: int| 0 <= m < d.entries.len() && d.entries[m] == after.entries[i];
        assert(group_ids(d.groups).contains(d.entries[m].group_ids[j]));
    }
    assert forall|i: int| 0 <= i < after.entries.len() implies (
    #[trigger] after.entries[i]).group_ids.no_duplicates() by {
        assert(d.entries.contains(after.entries[i]));
        let m = choose|m: int| 0 <= m < d.entries.len() && d.entries[m] == after.entries[i];
        assert(d.entries[m].group_ids.no_duplicates());
    }
}

/// Creating a group, with or without members, keeps the store's invariant.
pub proof fn law_create_group_keeps_invariant(
    d: DataFileView,
    group: GroupView,
    members: Option<Seq<Seq<char>>>,
    now: Timestamp,
)
    requires
        d.wf(),
        d.create_group_error(group, members) is None,
    ensures
        d.with_group(group, members, now).wf(),
{
    let after = d.with_group(group, members, now);
    assert(group_ids(after.groups)[d.groups.len() as int] == group.id);
    assert forall|x: Seq<char>| group_ids(d.groups).contains(x) implies group_ids(
        after.groups,
    ).contains(x) by {
        let m = choose|m: int| 0 <= m < d.groups.len() && group_ids(d.groups)[m] == x;
        assert(group_ids(after.groups)[m] == x);
    }
    assert forall|i: int, j: int|
        0 <= i < after.entries.len() && 0 <= j < after.entries[i].group_ids.len() implies group_ids(
        after.groups,
    ).contains(#[trigger] after.entries[i].group_ids[j]) by {
        if j < d.entries[i].group_ids.len() {
            assert(after.entries[i].group_ids[j] == d.entries[i].group_ids[j]);
            assert(group_ids(d.groups).contains(d.entries[i].group_ids[j]));
        } else {
            assert(after.entries[i].group_ids[j] == group.id);
        }
    }
    assert(entry_names(after.entries) =~= entry_names(d.entries));
    let names = group_names(after.groups);
    assert forall|a: int, b: int|
        0 <= a < names.len() && 0 <= b < names.len() && a != b implies names[a] != names[b] by {
        if a < d.groups.len() && b < d.groups.len() {
            assert(group_names(d.groups)[a] != group_names(d.groups)[b]);
        } else {
            let inner = if a < b {
                a
            } else {
                b
            };
            assert(group_names(d.groups)[inner] == d.groups[inner].name);
            assert(group_names(d.groups).contains(d.groups[inner].name));
        }
    }
    assert forall|i: int| 0 <= i < after.entries.len() implies (
    #[trigger] after.entries[i]).group_ids.no_duplicates() by {
        assert(d.entries[i].group_ids.no_duplicates());
    }
}

/// Updating a group, with or without a new list of members, keeps the
/// store's invariant.
pub proof fn law_update_group_keeps_invariant(
    d: DataFileView,
    id: Seq<char>,
    name: Seq<char>,
    members: Option<Seq<Seq<char>>>,
    now: Timestamp,
)
    requires
        d.wf(),
        d.update_group_error(id, name, members) is None,
    ensures
        d.with_group_updated(id, name, members, now).wf(),
{
    let p = first_index(group_ids(d.groups), id);
    lemma_first_index(group_ids(d.groups), id);
    let after = d.with_group_updated(id, name, members, now);
    assert(group_ids(after.groups) =~= group_ids(d.groups));
    assert(group_ids(d.groups)[p] == id);
    assert(group_ids(d.groups).contains(id));
    assert forall|i: int, j: int|
        0 <= i < after.entries.len() && 0 <= j < after.entries[i].group_ids.len() implies group_ids(
        after.groups,
    ).contains(#[trigger] after.entries[i].group_ids[j]) by {
        let x = after.entries[i].group_ids[j];
        lemma_without(d.entries[i].group_ids, id);
        if after.entries[i].group_ids == d.entries[i].group_ids {
            assert(group_ids(d.groups).contains(d.entries[i].group_ids[j]));
        } else if after.entries[i].group_ids == d.entries[i].group_ids.push(id) {
            if j < d.entries[i].group_ids.len() {
                assert(group_ids(d.groups).contains(d.entries[i].group_ids[j]));
            }
        } else {
            assert(after.entries[i].group_ids == without(d.entries[i].group_ids, id));
            assert(without(d.entries[i].group_ids, id).contains(x));
            assert(d.entries[i].group_ids.contains(x));
            let m = choose|m: int|
                0 <= m < d.entries[i].group_ids.len() && d.entries[i].group_ids[m] == x;
            assert(group_ids(d.groups).contains(d.entries[i].group_ids[m]));
        }
    }
    assert(entry_names(after.entries) =~= entry_names(d.entries));
    let names = group_names(after.groups);
    assert forall|a: int, b: int|
        0 <= a < names.len() && 0 <= b < names.len() && a != b implies names[a] != names[b] by {
        assert(group_names(d.groups)[a] != group_names(d.groups)[b]);
        if a == p {
            assert(d.groups[b].name != name);
        } else if b == p {
            assert(d.groups[a].name != name);
        }
    }
    assert forall|i: int| 0 <= i < after.entries.len() implies (
    #[trigger] after.entries[i]).group_ids.no_duplicates() by {
        assert(d.entries[i].group_ids.no_duplicates());
        lemma_without(d.entries[i].group_ids, id);
    }
}

/// Deleting a group keeps the store's invariant, and leaves no entry a
/// member of it: no reference to the deleted group remains.
pub proof fn law_delete_group_leaves_no_reference(d: DataFileView, id: Seq<char>, now: Timestamp)
    ensures
        forall|i: int|
            0 <= i < d.without_group(id, now).entries.len() ==> !(#[trigger] d.without_group(
                id,
                now,
            ).entries[i]).group_ids.contains(id),
        !group_ids(d.without_group(id, now).groups).contains(id),
        d.wf() ==> d.without_group(id, now).wf(),
{
    let after = d.without_group(id, now);
    lemma_groups_without(d.groups, id);
    assert forall|i: int| 0 <= i < after.entries.len() implies !(
    #[trigger] after.entries[i]).group_ids.contains(id) by {
        lemma_without(d.entries[i].group_ids, id);
    }
    if d.wf() {
        assert forall|i: int, j: int|
            0 <= i < after.entries.len() && 0 <= j < after.entries[i].group_ids.len() implies group_ids(
            after.groups,
        ).contains(#[trigger] after.entries[i].group_ids[j]) by {
            let x = after.entries[i].group_ids[j];
            lemma_without(d.entries[i].group_ids, id);
            assert(after.entries[i].group_ids.contains(x));
            assert(d.entries[i].group_ids.contains(x));
            let m = choose|m: int|
                0 <= m < d.entries[i].group_ids.len() && d.entries[i].group_ids[m] == x;
            assert(group_ids(d.groups).contains(d.entries[i].group_ids[m]));
            assert(x != id);
        }
        assert(entry_names(after.entries) =~= entry_names(d.entries));
        assert forall|i: int| 0 <= i < after.entries.len() implies (
        #[trigger] after.entries[i]).group_ids.no_duplicates() by {
            assert(d.entries[i].group_ids.no_duplicates());
            lemma_without(d.entries[i].group_ids, id);
        }
    }
}


/// The ids of the entries after one was added behind them.
proof fn lemma_ids_after_push(entries: Seq<AuthEntryView>, e: AuthEntryView)
    ensures
        entry_ids(entries.push(e)) == entry_ids(entries).push(e.id),
        entry_names(entries.push(e)) == entry_names(entries).push(e.name),
{
    assert(entry_ids(entries.push(e)) =~= entry_ids(entries).push(e.id));
    assert(entry_names(entries.push(e)) =~= entry_names(entries).push(e.name));
}

/// An entry that was created under an id that no entry had is the entry
/// that a read by that id gives, and is a member of each of its groups.
pub proof fn law_created_entry_is_read(d: DataFileView, entry: AuthEntryView)
    requires
        d.create_entry_error(entry) is None,
        !entry_ids(d.entries).contains(entry.id),
    ensures
        d.with_entry(entry.normalized()).entry(entry.id) == Some(entry.normalized()),
        d.with_entry(entry.normalized()).entries.contains(entry.normalized()),
        forall|j: int|
            0 <= j < entry.group_ids.len() ==> crate::store::members(
                d.with_entry(entry.normalized()).entries,
                #[trigger] entry.group_ids[j],
            ).contains(entry.normalized()),
{
    let e = entry.normalized();
    let after = d.with_entry(e);
    lemma_ids_after_push(d.entries, e);
    let ids = entry_ids(d.entries);
    crate::text::lemma_first_index_is(entry_ids(after.entries), entry.id, d.entries.len() as int);
    assert(after.entries[d.entries.len() as int] == e);
    lemma_deduplicated(entry.group_ids);
    assert forall|j: int| 0 <= j < entry.group_ids.len() implies crate::store::members(
        after.entries,
        #[trigger] entry.group_ids[j],
    ).contains(e) by {
        let gid = entry.group_ids[j];
        assert(entry.group_ids.contains(gid));
        assert(e.group_ids.contains(gid));
        assert(after.entries.drop_last() == d.entries);
        let m = crate::store::members(after.entries, gid);
        assert(m[m.len() - 1] == e);
    }
}

/// An entry that was updated is the entry that a read by its id gives.
pub proof fn law_updated_entry_is_read(
    d: DataFileView,
    id: Seq<char>,
    name: Option<Seq<char>>,
    username: Option<Seq<char>>,
    password_hash: Option<Seq<char>>,
    new_group_ids: Option<Seq<Seq<char>>>,
    now: Timestamp,
)
    requires
        d.update_entry_error(id, name, new_group_ids) is None,
    ensures
        ({
            let p = first_index(entry_ids(d.entries), id);
            let e = d.entries[p].updated(name, username, password_hash, new_group_ids, now);
            d.with_entry_at(p, e).entry(id) == Some(e)
        }),
{
    let p = first_index(entry_ids(d.entries), id);
    lemma_first_index(entry_ids(d.entries), id);
    let e = d.entries[p].updated(name, username, password_hash, new_group_ids, now);
    assert(entry_ids(d.with_entry_at(p, e).entries) =~= entry_ids(d.entries));
}

/// After an entry was deleted, no read by its id finds one.
pub proof fn law_deleted_entry_is_gone(d: DataFileView, id: Seq<char>)
    ensures
        d.without_entry(id).entry(id) is None,
        !entry_ids(d.without_entry(id).entries).contains(id),
{
    let after = d.without_entry(id);
    lemma_entries_without(d.entries, id);
    lemma_first_index(entry_ids(after.entries), id);
    if entry_ids(after.entries).contains(id) {
        let k = choose|k: int| 0 <= k < after.entries.len() && entry_ids(after.entries)[k] == id;
        assert(after.entries[k].id != id);
    }
    let p = first_index(entry_ids(after.entries), id);
    if p < after.entries.len() {
        assert(entry_ids(after.entries)[p] == id);
        assert(after.entries[p].id != id);
    }
}

/// A group that was created under an id that no group had is the group that
/// a read by its id, or by its name, gives; and every entry that was named
/// as a member is one.
pub proof fn law_created_group_is_read(
    d: DataFileView,
    group: GroupView,
    members: Option<Seq<Seq<char>>>,
    now: Timestamp,
)
    requires
        d.create_group_error(group, members) is None,
        !group_ids(d.groups).contains(group.id),
    ensures
        d.with_group(group, members, now).group(group.id) == Some(group),
        d.with_group(group, members, now).group_named(group.name) == Some(group),
        members is Some ==> forall|i: int|
            0 <= i < d.entries.len() && (members->0).contains(d.entries[i].id) ==> (
            #[trigger] d.with_group(group, members, now).entries[i]).in_group(group.id),
{
    let after = d.with_group(group, members, now);
    assert(group_ids(after.groups) =~= group_ids(d.groups).push(group.id));
    assert(group_names(after.groups) =~= group_names(d.groups).push(group.name));
    crate::text::lemma_first_index_is(group_ids(after.groups), group.id, d.groups.len() as int);
    crate::text::lemma_first_index_is(group_names(after.groups), group.name, d.groups.len() as int);
    if members is Some {
        assert forall|i: int|
            0 <= i < d.entries.len() && (members->0).contains(d.entries[i].id) implies (
        #[trigger] after.entries[i]).in_group(group.id) by {
            let before = d.entries[i].group_ids;
            if !before.contains(group.id) {
                assert(before.push(group.id)[before.len() as int] == group.id);
            }
        }
    }
}

/// A group that was updated is the group that a read by its id gives; and
/// where a list of members was given, exactly the entries that it names are
/// members of the group.
pub proof fn law_updated_group_is_read(
    d: DataFileView,
    id: Seq<char>,
    name: Seq<char>,
    members: Option<Seq<Seq<char>>>,
    now: Timestamp,
)
    requires
        d.update_group_error(id, name, members) is None,
    ensures
        d.with_group_updated(id, name, members, now).group(id) == Some(GroupView { id, name }),
        members is Some ==> forall|i: int|
            0 <= i < d.entries.len() ==> ((#[trigger] d.with_group_updated(
                id,
                name,
                members,
                now,
            ).entries[i]).in_group(id) <==> (members->0).contains(d.entries[i].id)),
{
    let p = first_index(group_ids(d.groups), id);
    lemma_first_index(group_ids(d.groups), id);
    let after = d.with_group_updated(id, name, members, now);
    assert(group_ids(after.groups) =~= group_ids(d.groups));
    if members is Some {
        assert forall|i: int| 0 <= i < d.entries.len() implies ((#[trigger] after.entries[i]).in_group(
            id,
        ) <==> (members->0).contains(d.entries[i].id)) by {
            let before = d.entries[i].group_ids;
            lemma_without(before, id);
            if !before.contains(id) {
                assert(before.push(id)[before.len() as int] == id);
            }
        }
    }
}

/// After a group was deleted, no read by its id finds one.
pub proof fn law_deleted_group_is_gone(d: DataFileView, id: Seq<char>, now: Timestamp)
    ensures
        d.without_group(id, now).group(id) is None,
{
    let after = d.without_group(id, now);
    lemma_groups_without(d.groups, id);
    lemma_first_index(group_ids(after.groups), id);
    let p = first_index(group_ids(after.groups), id);
    if p < after.groups.len() {
        assert(group_ids(after.groups)[p] == id);
        assert(group_ids(after.groups).contains(id));
    }
}

/// An update keeps an entry consistent with its kind where it gives a token
/// entry no username and no password hash.
pub proof fn law_update_keeps_kind(
    e: AuthEntryView,
    name: Option<Seq<char>>,
    username: Option<Seq<char>>,
    password_hash: Option<Seq<char>>,
    new_group_ids: Option<Seq<Seq<char>>>,
    now: Timestamp,
)
    requires
        e.consistent(),
        e.kind == crate::models::AuthEntryKind::Token ==> username is None && password_hash is None,
    ensures
        e.updated(name, username, password_hash, new_group_ids, now).consistent(),
        e.updated(name, username, password_hash, new_group_ids, now).id == e.id,
        e.updated(name, username, password_hash, new_group_ids, now).kind == e.kind,
        e.updated(name, username, password_hash, new_group_ids, now).created_at == e.created_at,
        e.updated(name, username, password_hash, new_group_ids, now).updated_at == now,
{
}

} // verus!
