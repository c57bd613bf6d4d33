//! The credential store: entries, groups and the rules that keep them
//! consistent with each other.

use crate::error::Error;
use crate::error::ErrorView;
use crate::models::now;
use crate::store_laws::law_create_entry_keeps_invariant;
use crate::store_laws::law_create_group_keeps_invariant;
use crate::store_laws::law_delete_entry_keeps_invariant;
use crate::store_laws::law_delete_group_leaves_no_reference;
use crate::store_laws::law_update_entry_keeps_invariant;
use crate::store_laws::law_update_group_keeps_invariant;
use crate::models::AuthEntry;
use crate::models::AuthEntryView;
use crate::models::Group;
use crate::models::GroupView;
use crate::models::Timestamp;
use crate::text::first_index;
use crate::text::lemma_first_index_is;
use vstd::prelude::*;

verus! {

/// What a `DataFile` holds, as plain values.
pub struct DataFileView {
    pub entries: Seq<AuthEntryView>,
    pub groups: Seq<GroupView>,
}

/// The persisted document: every entry and every group.
#[derive(Debug, PartialEq, Eq)]
pub struct DataFile {
    pub entries: Vec<AuthEntry>,
    pub groups: Vec<Group>,
}

/// The entries that the vector holds, as plain values.
pub open spec fn entry_views(v: Seq<AuthEntry>) -> Seq<AuthEntryView> {
    Seq::new(v.len(), |i: int| v[i]@)
}

/// The groups that the vector holds, as plain values.
pub open spec fn group_views(v: Seq<Group>) -> Seq<GroupView> {
    Seq::new(v.len(), |i: int| v[i]@)
}

impl View for DataFile {
    type V = DataFileView;

    open spec fn view(&self) -> DataFileView {
        DataFileView { entries: entry_views(self.entries@), groups: group_views(self.groups@) }
    }
}

/// The ids of the entries, in order.
pub open spec fn entry_ids(entries: Seq<AuthEntryView>) -> Seq<Seq<char>> {
    Seq::new(entries.len(), |i: int| entries[i].id)
}

/// The names of the entries, in order.
pub open spec fn entry_names(entries: Seq<AuthEntryView>) -> Seq<Seq<char>> {
    Seq::new(entries.len(), |i: int| entries[i].name)
}

/// The ids of the groups, in order.
pub open spec fn group_ids(groups: Seq<GroupView>) -> Seq<Seq<char>> {
    Seq::new(groups.len(), |i: int| groups[i].id)
}

/// The names of the groups, in order.
pub open spec fn group_names(groups: Seq<GroupView>) -> Seq<Seq<char>> {
    Seq::new(groups.len(), |i: int| groups[i].name)
}

/// `ids` with every id after its first occurrence left out.
pub open spec fn deduplicated(ids: Seq<Seq<char>>) -> Seq<Seq<char>>
    decreases ids.len(),
{
    if ids.len() == 0 {
        ids
    } else {
        let before = deduplicated(ids.drop_last());
        if before.contains(ids.last()) {
            before
        } else {
            before.push(ids.last())
        }
    }
}

/// `ids` without any occurrence of `id`.
pub open spec fn without(ids: Seq<Seq<char>>, id: Seq<char>) -> Seq<Seq<char>>
    decreases ids.len(),
{
    if ids.len() == 0 {
        ids
    } else if ids.last() == id {
        without(ids.drop_last(), id)
    } else {
        without(ids.drop_last(), id).push(ids.last())
    }
}

/// The position of the first id of `ids` that `known` does not hold; the
/// length of `ids` where it holds them all.
pub open spec fn first_unknown(known: Seq<Seq<char>>, ids: Seq<Seq<char>>) -> int
    decreases ids.len(),
{
    if ids.len() == 0 || !known.contains(ids[0]) {
        0
    } else {
        1 + first_unknown(known, ids.drop_first())
    }
}

/// The entries of `entries` whose id is not `id`, in order.
pub open spec fn entries_without(entries: Seq<AuthEntryView>, id: Seq<char>) -> Seq<AuthEntryView>
    decreases entries.len(),
{
    if entries.len() == 0 {
        entries
    } else if entries.last().id == id {
        entries_without(entries.drop_last(), id)
    } else {
        entries_without(entries.drop_last(), id).push(entries.last())
    }
}

/// The groups of `groups` whose id is not `id`, in order.
pub open spec fn groups_without(groups: Seq<GroupView>, id: Seq<char>) -> Seq<GroupView>
    decreases groups.len(),
{
    if groups.len() == 0 {
        groups
    } else if groups.last().id == id {
        groups_without(groups.drop_last(), id)
    } else {
        groups_without(groups.drop_last(), id).push(groups.last())
    }
}

/// The entries of `entries` that belong to the group `gid`, in order.
pub open spec fn members(entries: Seq<AuthEntryView>, gid: Seq<char>) -> Seq<AuthEntryView>
    decreases entries.len(),
{
    if entries.len() == 0 {
        entries
    } else if entries.last().in_group(gid) {
        members(entries.drop_last(), gid).push(entries.last())
    } else {
        members(entries.drop_last(), gid)
    }
}

impl AuthEntryView {
    /// The entry with its memberships deduplicated.
    pub open spec fn normalized(self) -> AuthEntryView {
        AuthEntryView { group_ids: deduplicated(self.group_ids), ..self }
    }

    /// The entry after it joined the group `gid` at `now`: the id is added
    /// unless it is there, and the time of the last change is `now`.
    pub open spec fn joined(self, gid: Seq<char>, now: Timestamp) -> AuthEntryView {
        AuthEntryView {
            group_ids: if self.group_ids.contains(gid) {
                self.group_ids
            } else {
                self.group_ids.push(gid)
            },
            updated_at: now,
            ..self
        }
    }

    /// The entry after it left the group `gid` at `now`; unchanged where it
    /// was no member.
    pub open spec fn parted(self, gid: Seq<char>, now: Timestamp) -> AuthEntryView {
        if self.group_ids.contains(gid) {
            AuthEntryView { group_ids: without(self.group_ids, gid), updated_at: now, ..self }
        } else {
            self
        }
    }

    /// The entry once its membership in `gid` is what `member` says; the
    /// time of the last change is `now` where the membership changed.
    pub open spec fn reshaped(self, gid: Seq<char>, member: bool, now: Timestamp) -> AuthEntryView {
        if member {
            if self.group_ids.contains(gid) {
                self
            } else {
                self.joined(gid, now)
            }
        } else {
            self.parted(gid, now)
        }
    }

    /// The entry after a partial update at `now`: each field that is given
    /// replaces the old one.
    pub open spec fn updated(
        self,
        name: Option<Seq<char>>,
        username: Option<Seq<char>>,
        password_hash: Option<Seq<char>>,
        group_ids: Option<Seq<Seq<char>>>,
        now: Timestamp,
    ) -> AuthEntryView {
        AuthEntryView {
            name: if name is Some {
                name->0
            } else {
                self.name
            },
            username: if username is Some {
                username
            } else {
                self.username
            },
            password_hash: if password_hash is Some {
                password_hash
            } else {
                self.password_hash
            },
            group_ids: if group_ids is Some {
                deduplicated(group_ids->0)
            } else {
                self.group_ids
            },
            updated_at: now,
            ..self
        }
    }
}

/// Whether an entry other than the one at `p` has the name `name`.
pub open spec fn name_taken_by_other_entry(
    entries: Seq<AuthEntryView>,
    p: int,
    name: Seq<char>,
) -> bool {
    exists|j: int| 0 <= j < entries.len() && j != p && #[trigger] entries[j].name == name
}

/// Whether a group other than the one at `p` has the name `name`.
pub open spec fn name_taken_by_other_group(groups: Seq<GroupView>, p: int, name: Seq<char>) -> bool {
    exists|j: int| 0 <= j < groups.len() && j != p && #[trigger] groups[j].name == name
}

/// The entries after those named by `ids` joined the group `gid` at `now`.
pub open spec fn entries_joined(
    entries: Seq<AuthEntryView>,
    ids: Seq<Seq<char>>,
    gid: Seq<char>,
    now: Timestamp,
) -> Seq<AuthEntryView> {
    Seq::new(
        entries.len(),
        |i: int|
            if ids.contains(entries[i].id) {
                entries[i].joined(gid, now)
            } else {
                entries[i]
            },
    )
}

/// The entries once exactly those named by `ids` are members of `gid`.
pub open spec fn entries_reshaped(
    entries: Seq<AuthEntryView>,
    ids: Seq<Seq<char>>,
    gid: Seq<char>,
    now: Timestamp,
) -> Seq<AuthEntryView> {
    Seq::new(entries.len(), |i: int| entries[i].reshaped(gid, ids.contains(entries[i].id), now))
}

/// The entries after each member of `gid` left it at `now`.
pub open spec fn entries_parted(
    entries: Seq<AuthEntryView>,
    gid: Seq<char>,
    now: Timestamp,
) -> Seq<AuthEntryView> {
    Seq::new(entries.len(), |i: int| entries[i].parted(gid, now))
}

impl DataFileView {
    /// Every group id that an entry holds is the id of a group.
    pub open spec fn references_resolve(self) -> bool {
        forall|i: int, j: int|
            0 <= i < self.entries.len() && 0 <= j < self.entries[i].group_ids.len() ==> group_ids(
                self.groups,
            ).contains(#[trigger] self.entries[i].group_ids[j])
    }

    /// No two entries have the same name.
    pub open spec fn entry_names_unique(self) -> bool {
        entry_names(self.entries).no_duplicates()
    }

    /// No two groups have the same name.
    pub open spec fn group_names_unique(self) -> bool {
        group_names(self.groups).no_duplicates()
    }

    /// No entry holds a group id twice.
    pub open spec fn memberships_deduplicated(self) -> bool {
        forall|i: int|
            0 <= i < self.entries.len() ==> (#[trigger] self.entries[i]).group_ids.no_duplicates()
    }

    /// The invariant of the store: references resolve, names are unique and
    /// memberships hold no id twice.
    pub open spec fn wf(self) -> bool {
        &&& self.references_resolve()
        &&& self.entry_names_unique()
        &&& self.group_names_unique()
        &&& self.memberships_deduplicated()
    }

    /// The error that creating `entry` fails with, if it fails: its name is
    /// taken, or, failing that, one of its group ids is unknown (reported is
    /// the first such id).
    pub open spec fn create_entry_error(self, entry: AuthEntryView) -> Option<ErrorView> {
        self.new_entry_error(entry.name, entry.group_ids)
    }

    /// The error that creating an entry with the name `name` in the groups
    /// `memberships` fails with, if it fails.
    pub open spec fn new_entry_error(
        self,
        name: Seq<char>,
        memberships: Seq<Seq<char>>,
    ) -> Option<ErrorView> {
        let k = first_unknown(group_ids(self.groups), memberships);
        if entry_names(self.entries).contains(name) {
            Some(ErrorView::DuplicateEntryName { name })
        } else if k < memberships.len() {
            Some(ErrorView::GroupNotFound { id: memberships[k] })
        } else {
            None
        }
    }

    /// The document with `entry` added behind the other entries.
    pub open spec fn with_entry(self, entry: AuthEntryView) -> DataFileView {
        DataFileView { entries: self.entries.push(entry), ..self }
    }

    /// The error that updating the entry `id` fails with, if it fails: the
    /// new name is taken by another entry; or no entry has the id; or one of
    /// the new group ids is unknown (reported is the first such id).
    pub open spec fn update_entry_error(
        self,
        id: Seq<char>,
        name: Option<Seq<char>>,
        group_ids: Option<Seq<Seq<char>>>,
    ) -> Option<ErrorView> {
        let p = first_index(entry_ids(self.entries), id);
        if name is Some && name_taken_by_other_entry(self.entries, p, name->0) {
            Some(ErrorView::DuplicateEntryName { name: name->0 })
        } else if p >= self.entries.len() {
            Some(ErrorView::EntryNotFound { id })
        } else if group_ids is Some && first_unknown(self::group_ids(self.groups), group_ids->0)
            < (group_ids->0).len() {
            Some(
                ErrorView::GroupNotFound {
                    id: (group_ids->0)[first_unknown(self::group_ids(self.groups), group_ids->0)],
                },
            )
        } else {
            None
        }
    }

    /// The first entry with the id `id`, if there is one.
    pub open spec fn entry(self, id: Seq<char>) -> Option<AuthEntryView> {
        let p = first_index(entry_ids(self.entries), id);
        if p < self.entries.len() {
            Some(self.entries[p])
        } else {
            None
        }
    }

    /// The first group with the id `id`, if there is one.
    pub open spec fn group(self, id: Seq<char>) -> Option<GroupView> {
        let p = first_index(group_ids(self.groups), id);
        if p < self.groups.len() {
            Some(self.groups[p])
        } else {
            None
        }
    }

    /// The first group with the name `name`, if there is one.
    pub open spec fn group_named(self, name: Seq<char>) -> Option<GroupView> {
        let p = first_index(group_names(self.groups), name);
        if p < self.groups.len() {
            Some(self.groups[p])
        } else {
            None
        }
    }

    /// The document with the entry at position `p` replaced by `entry`.
    pub open spec fn with_entry_at(self, p: int, entry: AuthEntryView) -> DataFileView {
        DataFileView { entries: self.entries.update(p, entry), ..self }
    }

    /// The document without the entries that have the id `id`.
    pub open spec fn without_entry(self, id: Seq<char>) -> DataFileView {
        DataFileView { entries: entries_without(self.entries, id), ..self }
    }

    /// The error that creating `group` with the members `entry_ids` fails
    /// with, if it fails: its name is taken, or, failing that, one of the
    /// entry ids is unknown (reported is the first such id).
    pub open spec fn create_group_error(
        self,
        group: GroupView,
        entry_ids: Option<Seq<Seq<char>>>,
    ) -> Option<ErrorView> {
        self.new_group_error(group.name, entry_ids)
    }

    /// The error that creating a group with the name `name` and the members
    /// `entry_ids` fails with, if it fails.
    pub open spec fn new_group_error(
        self,
        name: Seq<char>,
        entry_ids: Option<Seq<Seq<char>>>,
    ) -> Option<ErrorView> {
        if group_names(self.groups).contains(name) {
            Some(ErrorView::DuplicateGroupName { name })
        } else if entry_ids is Some && first_unknown(self::entry_ids(self.entries), entry_ids->0)
            < (entry_ids->0).len() {
            Some(
                ErrorView::EntryNotFound {
                    id: (entry_ids->0)[first_unknown(self::entry_ids(self.entries), entry_ids->0)],
                },
            )
        } else {
            None
        }
    }

    /// The document with `group` added and the entries named by `entry_ids`
    /// made members of it at `now`.
    pub open spec fn with_group(
        self,
        group: GroupView,
        entry_ids: Option<Seq<Seq<char>>>,
        now: Timestamp,
    ) -> DataFileView {
        DataFileView {
            entries: if entry_ids is Some {
                entries_joined(self.entries, entry_ids->0, group.id, now)
            } else {
                self.entries
            },
            groups: self.groups.push(group),
        }
    }

    /// The error that updating the group `id` fails with, if it fails: the
    /// new name is taken by another group; or no group has the id; or one of
    /// the entry ids is unknown (reported is the first such id).
    pub open spec fn update_group_error(
        self,
        id: Seq<char>,
        name: Seq<char>,
        entry_ids: Option<Seq<Seq<char>>>,
    ) -> Option<ErrorView> {
        let p = first_index(group_ids(self.groups), id);
        if name_taken_by_other_group(self.groups, p, name) {
            Some(ErrorView::DuplicateGroupName { name })
        } else if p >= self.groups.len() {
            Some(ErrorView::GroupNotFound { id })
        } else if entry_ids is Some && first_unknown(self::entry_ids(self.entries), entry_ids->0)
            < (entry_ids->0).len() {
            Some(
                ErrorView::EntryNotFound {
                    id: (entry_ids->0)[first_unknown(self::entry_ids(self.entries), entry_ids->0)],
                },
            )
        } else {
            None
        }
    }

    /// The document with the first group `id` renamed to `name` and, where
    /// `entry_ids` is given, exactly the entries that it names as members.
    pub open spec fn with_group_updated(
        self,
        id: Seq<char>,
        name: Seq<char>,
        entry_ids: Option<Seq<Seq<char>>>,
        now: Timestamp,
    ) -> DataFileView {
        let p = first_index(group_ids(self.groups), id);
        DataFileView {
            entries: if entry_ids is Some {
                entries_reshaped(self.entries, entry_ids->0, id, now)
            } else {
                self.entries
            },
            groups: self.groups.update(p, GroupView { id, name }),
        }
    }

    /// The document without the groups that have the id `id`, and with no
    /// entry a member of it any more.
    pub open spec fn without_group(self, id: Seq<char>, now: Timestamp) -> DataFileView {
        DataFileView {
            entries: entries_parted(self.entries, id, now),
            groups: groups_without(self.groups, id),
        }
    }
}

impl DataFile {
    /// The document without entries and groups.
    pub fn empty() -> (r: DataFile)
        ensures
            r@.entries.len() == 0,
            r@.groups.len() == 0,
            r@.wf(),
    {
        DataFile { entries: Vec::new(), groups: Vec::new() }
    }
}

impl Clone for DataFile {
    fn clone(&self) -> (r: Self)
        ensures
            r@ == self@,
    {
        let r = DataFile { entries: clone_entries(&self.entries), groups: clone_groups(&self.groups) };
        assert(r@.entries =~= self@.entries);
        assert(r@.groups =~= self@.groups);
        r
    }
}

/// A copy of a list of entries.
pub fn clone_entries(v: &Vec<AuthEntry>) -> (r: Vec<AuthEntry>)
    ensures
        entry_views(r@) == entry_views(v@),
{
    let mut r: Vec<AuthEntry> = Vec::new();
    let mut i: usize = 0;
    while i < v.len()
        invariant
            i <= v.len(),
            r.len() == i,
            forall|j: int| 0 <= j < i ==> r@[j]@ == v@[j]@,
        decreases v.len() - i,
    {
        r.push(v[i].clone());
        i += 1;
    }
    assert(entry_views(r@) =~= entry_views(v@));
    r
}

/// A copy of a list of groups.
pub fn clone_groups(v: &Vec<Group>) -> (r: Vec<Group>)
    ensures
        group_views(r@) == group_views(v@),
{
    let mut r: Vec<Group> = Vec::new();
    let mut i: usize = 0;
    while i < v.len()
        invariant
            i <= v.len(),
            r.len() == i,
            forall|j: int| 0 <= j < i ==> r@[j]@ == v@[j]@,
        decreases v.len() - i,
    {
        r.push(v[i].clone());
        i += 1;
    }
    assert(group_views(r@) =~= group_views(v@));
    r
}


/// What `first_unknown` is: the least position of `ids` that holds an id
/// which `known` lacks.
pub proof fn lemma_first_unknown(known: Seq<Seq<char>>, ids: Seq<Seq<char>>)
    ensures
        0 <= first_unknown(known, ids) <= ids.len(),
        first_unknown(known, ids) < ids.len() ==> !known.contains(ids[first_unknown(known, ids)]),
        forall|j: int| 0 <= j < first_unknown(known, ids) ==> known.contains(#[trigger] ids[j]),
    decreases ids.len(),
{
    if ids.len() == 0 || !known.contains(ids[0]) {
    } else {
        let t = ids.drop_first();
        lemma_first_unknown(known, t);
        assert forall|j: int| 0 <= j < first_unknown(known, ids) implies known.contains(
            #[trigger] ids[j],
        ) by {
            if j > 0 {
                assert(ids[j] == t[j - 1]);
            }
        }
    }
}

/// A position that holds an unknown id after none that does is the first.
pub proof fn lemma_first_unknown_is(known: Seq<Seq<char>>, ids: Seq<Seq<char>>, i: int)
    requires
        0 <= i <= ids.len(),
        forall|j: int| 0 <= j < i ==> known.contains(#[trigger] ids[j]),
        i < ids.len() ==> !known.contains(ids[i]),
    ensures
        first_unknown(known, ids) == i,
{
    lemma_first_unknown(known, ids);
    let k = first_unknown(known, ids);
    if k < i {
        assert(known.contains(ids[k]));
    }
}

/// What `deduplicated` keeps: every id once, and no other.
pub proof fn lemma_deduplicated(ids: Seq<Seq<char>>)
    ensures
        deduplicated(ids).no_duplicates(),
        forall|x: Seq<char>|
            #![trigger deduplicated(ids).contains(x)]
            #![trigger ids.contains(x)]
            deduplicated(ids).contains(x) <==> ids.contains(x),
        ids.no_duplicates() ==> deduplicated(ids) == ids,
    decreases ids.len(),
{
    if ids.len() > 0 {
        let init = ids.drop_last();
        let before = deduplicated(init);
        lemma_deduplicated(init);
        assert forall|x: Seq<char>|
            #![trigger deduplicated(ids).contains(x)]
            #![trigger ids.contains(x)]
            deduplicated(ids).contains(x) <==> ids.contains(x) by {
            if deduplicated(ids).contains(x) {
                let k = choose|k: int| 0 <= k < deduplicated(ids).len() && deduplicated(ids)[k] == x;
                if k < before.len() {
                    assert(before.contains(x));
                    let m = choose|m: int| 0 <= m < init.len() && init[m] == x;
                    assert(ids[m] == x);
                } else {
                    assert(ids[ids.len() - 1] == x);
                }
            }
            if ids.contains(x) {
                let m = choose|m: int| 0 <= m < ids.len() && ids[m] == x;
                if m < init.len() {
                    assert(init[m] == x);
                    assert(before.contains(x));
                    let k = choose|k: int| 0 <= k < before.len() && before[k] == x;
                    assert(deduplicated(ids)[k] == x);
                } else if before.contains(x) {
                } else {
                    assert(deduplicated(ids)[before.len() as int] == x);
                }
            }
        }
        if ids.no_duplicates() {
            assert(init.no_duplicates());
            if before.contains(ids.last()) {
                let m = choose|m: int| 0 <= m < init.len() && init[m] == ids.last();
                assert(ids[m] == ids[ids.len() - 1]);
            }
            assert(deduplicated(ids) =~= ids);
        }
    }
}

/// What `without` keeps: every id but `id`, in order and as often as before.
pub proof fn lemma_without(ids: Seq<Seq<char>>, id: Seq<char>)
    ensures
        !without(ids, id).contains(id),
        forall|x: Seq<char>|
            #![trigger without(ids, id).contains(x)]
            #![trigger ids.contains(x)]
            without(ids, id).contains(x) <==> (x != id && ids.contains(x)),
        ids.no_duplicates() ==> without(ids, id).no_duplicates(),
        !ids.contains(id) ==> without(ids, id) == ids,
    decreases ids.len(),
{
    if ids.len() > 0 {
        let init = ids.drop_last();
        let before = without(init, id);
        lemma_without(init, id);
        let out = without(ids, id);
        assert forall|x: Seq<char>|
            #![trigger out.contains(x)]
            #![trigger ids.contains(x)]
            out.contains(x) <==> (x != id && ids.contains(x)) by {
            if out.contains(x) {
                let k = choose|k: int| 0 <= k < out.len() && out[k] == x;
                if k < before.len() {
                    assert(before[k] == x);
                    assert(before.contains(x));
                    let m = choose|m: int| 0 <= m < init.len() && init[m] == x;
                    assert(ids[m] == x);
                } else {
                    assert(ids[ids.len() - 1] == x);
                }
            }
            if x != id && ids.contains(x) {
                let m = choose|m: int| 0 <= m < ids.len() && ids[m] == x;
                if m < init.len() {
                    assert(init[m] == x);
                    assert(before.contains(x));
                    let k = choose|k: int| 0 <= k < before.len() && before[k] == x;
                    assert(out[k] == x);
                } else {
                    assert(out[before.len() as int] == x);
                }
            }
        }
        if ids.no_duplicates() {
            assert(init.no_duplicates());
            if ids.last() != id {
                if before.contains(ids.last()) {
                    let m = choose|m: int| 0 <= m < init.len() && init[m] == ids.last();
                    assert(ids[m] == ids[ids.len() - 1]);
                }
            }
        }
        if !ids.contains(id) {
            assert(ids[ids.len() - 1] != id);
            assert forall|m: int| 0 <= m < init.len() implies init[m] != id by {
                assert(ids[m] == init[m]);
            }
            assert(!init.contains(id));
            assert(out =~= ids);
        }
    }
}

/// What `entries_without` keeps: the entries whose id is not `id`, each one
/// of the entries before, with names as unique as they were.
pub proof fn lemma_entries_without(entries: Seq<AuthEntryView>, id: Seq<char>)
    ensures
        entries_without(entries, id).len() <= entries.len(),
        forall|k: int|
            0 <= k < entries_without(entries, id).len() ==> entries.contains(
                #[trigger] entries_without(entries, id)[k],
            ) && entries_without(entries, id)[k].id != id,
        forall|j: int|
            0 <= j < entries.len() && entries[j].id != id ==> entries_without(entries, id).contains(
                #[trigger] entries[j],
            ),
        entry_names(entries).no_duplicates() ==> entry_names(
            entries_without(entries, id),
        ).no_duplicates(),
        entry_ids(entries).contains(id) <==> entries_without(entries, id).len() < entries.len(),
    decreases entries.len(),
{
    if entries.len() > 0 {
        let init = entries.drop_last();
        let before = entries_without(init, id);
        let out = entries_without(entries, id);
        lemma_entries_without(init, id);
        assert forall|k: int| 0 <= k < out.len() implies entries.contains(#[trigger] out[k])
            && out[k].id != id by {
            if k < before.len() {
                assert(init.contains(before[k]));
                let m = choose|m: int| 0 <= m < init.len() && init[m] == before[k];
                assert(entries[m] == out[k]);
            } else {
                assert(entries[entries.len() - 1] == out[k]);
            }
        }
        assert forall|j: int| 0 <= j < entries.len() && entries[j].id != id implies out.contains(
            #[trigger] entries[j],
        ) by {
            if j < init.len() {
                assert(init[j] == entries[j]);
                assert(before.contains(init[j]));
                let k = choose|k: int| 0 <= k < before.len() && before[k] == init[j];
                assert(out[k] == entries[j]);
            } else {
                assert(out[before.len() as int] == entries[j]);
            }
        }
        if entry_names(entries).no_duplicates() {
            assert forall|a: int, b: int|
                0 <= a < init.len() && 0 <= b < init.len() && a != b implies entry_names(init)[a]
                != entry_names(init)[b] by {
                assert(entry_names(entries)[a] != entry_names(entries)[b]);
            }
            let names = entry_names(out);
            assert forall|a: int, b: int|
                0 <= a < names.len() && 0 <= b < names.len() && a != b implies names[a]
                != names[b] by {
                if a < before.len() && b < before.len() {
                    assert(entry_names(before)[a] != entry_names(before)[b]);
                } else {
                    let inner = if a < b {
                        a
                    } else {
                        b
                    };
                    assert(init.contains(before[inner]));
                    let m = choose|m: int| 0 <= m < init.len() && init[m] == before[inner];
                    assert(entry_names(entries)[m] != entry_names(entries)[entries.len() - 1]);
                }
            }
        }
        if entry_ids(entries).contains(id) {
            let m = choose|m: int| 0 <= m < entries.len() && entry_ids(entries)[m] == id;
            if m < init.len() {
                assert(entry_ids(init)[m] == id);
            }
        }
        if out.len() < entries.len() {
            if entries.last().id == id {
                assert(entry_ids(entries)[entries.len() - 1] == id);
            } else {
                let m = choose|m: int| 0 <= m < init.len() && entry_ids(init)[m] == id;
                assert(entry_ids(entries)[m] == id);
            }
        }
    }
}

/// What `groups_without` keeps: the groups whose id is not `id`, with names
/// as unique as they were.
pub proof fn lemma_groups_without(groups: Seq<GroupView>, id: Seq<char>)
    ensures
        groups_without(groups, id).len() <= groups.len(),
        forall|x: Seq<char>|
            #![trigger group_ids(groups_without(groups, id)).contains(x)]
            #![trigger group_ids(groups).contains(x)]
            group_ids(groups_without(groups, id)).contains(x) <==> (x != id && group_ids(
                groups,
            ).contains(x)),
        forall|k: int|
            0 <= k < groups_without(groups, id).len() ==> groups.contains(
                #[trigger] groups_without(groups, id)[k],
            ),
        group_names(groups).no_duplicates() ==> group_names(
            groups_without(groups, id),
        ).no_duplicates(),
        group_ids(groups).contains(id) <==> groups_without(groups, id).len() < groups.len(),
    decreases groups.len(),
{
    if groups.len() > 0 {
        let init = groups.drop_last();
        let before = groups_without(init, id);
        let out = groups_without(groups, id);
        lemma_groups_without(init, id);
        assert forall|k: int| 0 <= k < out.len() implies groups.contains(#[trigger] out[k]) by {
            if k < before.len() {
                assert(init.contains(before[k]));
                let m = choose|m: int| 0 <= m < init.len() && init[m] == before[k];
                assert(groups[m] == out[k]);
            } else {
                assert(groups[groups.len() - 1] == out[k]);
            }
        }
        assert forall|x: Seq<char>|
            #![trigger group_ids(out).contains(x)]
            #![trigger group_ids(groups).contains(x)]
            group_ids(out).contains(x) <==> (x != id && group_ids(groups).contains(x)) by {
            if group_ids(out).contains(x) {
                let k = choose|k: int| 0 <= k < out.len() && group_ids(out)[k] == x;
                if k < before.len() {
                    assert(group_ids(before)[k] == x);
                    assert(group_ids(init).contains(x));
                    let m = choose|m: int| 0 <= m < init.len() && group_ids(init)[m] == x;
                    assert(group_ids(groups)[m] == x);
                } else {
                    assert(group_ids(groups)[groups.len() - 1] == x);
                }
            }
            if x != id && group_ids(groups).contains(x) {
                let m = choose|m: int| 0 <= m < groups.len() && group_ids(groups)[m] == x;
                if m < init.len() {
                    assert(group_ids(init)[m] == x);
                    assert(group_ids(before).contains(x));
                    let k = choose|k: int| 0 <= k < before.len() && group_ids(before)[k] == x;
                    assert(group_ids(out)[k] == x);
                } else {
                    assert(group_ids(out)[before.len() as int] == x);
                }
            }
        }
        if group_names(groups).no_duplicates() {
            assert forall|a: int, b: int|
                0 <= a < init.len() && 0 <= b < init.len() && a != b implies group_names(init)[a]
                != group_names(init)[b] by {
                assert(group_names(groups)[a] != group_names(groups)[b]);
            }
            let names = group_names(out);
            assert forall|a: int, b: int|
                0 <= a < names.len() && 0 <= b < names.len() && a != b implies names[a]
                != names[b] by {
                if a < before.len() && b < before.len() {
                    assert(group_names(before)[a] != group_names(before)[b]);
                } else {
                    let inner = if a < b {
                        a
                    } else {
                        b
                    };
                    assert(init.contains(before[inner]));
                    let m = choose|m: int| 0 <= m < init.len() && init[m] == before[inner];
                    assert(group_names(groups)[m] != group_names(groups)[groups.len() - 1]);
                }
            }
        }
        if group_ids(groups).contains(id) {
            let m = choose|m: int| 0 <= m < groups.len() && group_ids(groups)[m] == id;
            if m < init.len() {
                assert(group_ids(init)[m] == id);
            }
        }
        if out.len() < groups.len() {
            if groups.last().id == id {
                assert(group_ids(groups)[groups.len() - 1] == id);
            } else {
                let m = choose|m: int| 0 <= m < init.len() && group_ids(init)[m] == id;
                assert(group_ids(groups)[m] == id);
            }
        }
    }
}


/// The position of the first string of `v` that equals `s`; the length of
/// `v` where none does.
pub fn position_of(v: &Vec<String>, s: &String) -> (i: usize)
    ensures
        i <= v.len(),
        i == first_index(v.deep_view(), s@),
        i < v.len() <==> v.deep_view().contains(s@),
{
    let mut i: usize = 0;
    while i < v.len() && v[i] != *s
        invariant
            i <= v.len(),
            forall|j: int| 0 <= j < i ==> v.deep_view()[j] != s@,
        decreases v.len() - i,
    {
        i += 1;
    }
    proof {
        lemma_first_index_is(v.deep_view(), s@, i as int);
        if i < v.len() {
            assert(v.deep_view()[i as int] == s@);
        }
    }
    i
}

/// `v` with every string after its first occurrence left out.
pub fn dedup(v: &Vec<String>) -> (r: Vec<String>)
    ensures
        r.deep_view() == deduplicated(v.deep_view()),
{
    let mut r: Vec<String> = Vec::new();
    let mut i: usize = 0;
    assert(r.deep_view() =~= deduplicated(v.deep_view().take(0)));
    while i < v.len()
        invariant
            i <= v.len(),
            r.deep_view() == deduplicated(v.deep_view().take(i as int)),
        decreases v.len() - i,
    {
        let ghost before = r.deep_view();
        let ghost next = v.deep_view().take(i + 1);
        assert(next.drop_last() == v.deep_view().take(i as int));
        assert(next.last() == v@[i as int]@);
        if position_of(&r, &v[i]) >= r.len() {
            r.push(v[i].clone());
            assert(r.deep_view() =~= before.push(v@[i as int]@));
        }
        i += 1;
    }
    assert(v.deep_view().take(v.len() as int) == v.deep_view());
    r
}

/// `v` without any occurrence of `s`.
pub fn remove_all(v: &Vec<String>, s: &String) -> (r: Vec<String>)
    ensures
        r.deep_view() == without(v.deep_view(), s@),
{
    let mut r: Vec<String> = Vec::new();
    let mut i: usize = 0;
    assert(r.deep_view() =~= without(v.deep_view().take(0), s@));
    while i < v.len()
        invariant
            i <= v.len(),
            r.deep_view() == without(v.deep_view().take(i as int), s@),
        decreases v.len() - i,
    {
        let ghost before = r.deep_view();
        let ghost next = v.deep_view().take(i + 1);
        assert(next.drop_last() == v.deep_view().take(i as int));
        assert(next.last() == v@[i as int]@);
        if v[i] != *s {
            r.push(v[i].clone());
            assert(r.deep_view() =~= before.push(v@[i as int]@));
        }
        i += 1;
    }
    assert(v.deep_view().take(v.len() as int) == v.deep_view());
    r
}

/// The position of the first entry with the id `id`; the number of entries
/// where none has it.
pub fn entry_index(entries: &Vec<AuthEntry>, id: &String) -> (i: usize)
    ensures
        i <= entries.len(),
        i == first_index(entry_ids(entry_views(entries@)), id@),
        i < entries.len() <==> entry_ids(entry_views(entries@)).contains(id@),
{
    let mut i: usize = 0;
    while i < entries.len() && entries[i].id != *id
        invariant
            i <= entries.len(),
            forall|j: int| 0 <= j < i ==> entry_ids(entry_views(entries@))[j] != id@,
        decreases entries.len() - i,
    {
        i += 1;
    }
    proof {
        lemma_first_index_is(entry_ids(entry_views(entries@)), id@, i as int);
        if i < entries.len() {
            assert(entry_ids(entry_views(entries@))[i as int] == id@);
        }
    }
    i
}

/// The position of the first group with the id `id`; the number of groups
/// where none has it.
pub fn group_index(groups: &Vec<Group>, id: &String) -> (i: usize)
    ensures
        i <= groups.len(),
        i == first_index(group_ids(group_views(groups@)), id@),
        i < groups.len() <==> group_ids(group_views(groups@)).contains(id@),
{
    let mut i: usize = 0;
    while i < groups.len() && groups[i].id != *id
        invariant
            i <= groups.len(),
            forall|j: int| 0 <= j < i ==> group_ids(group_views(groups@))[j] != id@,
        decreases groups.len() - i,
    {
        i += 1;
    }
    proof {
        lemma_first_index_is(group_ids(group_views(groups@)), id@, i as int);
        if i < groups.len() {
            assert(group_ids(group_views(groups@))[i as int] == id@);
        }
    }
    i
}

/// The position of the first group with the name `name`; the number of
/// groups where none has it.
pub fn group_name_index(groups: &Vec<Group>, name: &String) -> (i: usize)
    ensures
        i <= groups.len(),
        i == first_index(group_names(group_views(groups@)), name@),
        i < groups.len() <==> group_names(group_views(groups@)).contains(name@),
{
    let mut i: usize = 0;
    while i < groups.len() && groups[i].name != *name
        invariant
            i <= groups.len(),
            forall|j: int| 0 <= j < i ==> group_names(group_views(groups@))[j] != name@,
        decreases groups.len() - i,
    {
        i += 1;
    }
    proof {
        lemma_first_index_is(group_names(group_views(groups@)), name@, i as int);
        if i < groups.len() {
            assert(group_names(group_views(groups@))[i as int] == name@);
        }
    }
    i
}

/// Whether an entry other than the one at `skip` has the name `name`.
pub fn entry_name_taken(entries: &Vec<AuthEntry>, skip: usize, name: &String) -> (r: bool)
    ensures
        r == name_taken_by_other_entry(entry_views(entries@), skip as int, name@),
{
    let mut j: usize = 0;
    while j < entries.len()
        invariant
            j <= entries.len(),
            forall|k: int| 0 <= k < j && k != skip ==> entry_views(entries@)[k].name != name@,
        decreases entries.len() - j,
    {
        if j != skip && entries[j].name == *name {
            assert(entry_views(entries@)[j as int].name == name@);
            return true;
        }
        j += 1;
    }
    false
}

/// Whether a group other than the one at `skip` has the name `name`.
pub fn group_name_taken(groups: &Vec<Group>, skip: usize, name: &String) -> (r: bool)
    ensures
        r == name_taken_by_other_group(group_views(groups@), skip as int, name@),
{
    let mut j: usize = 0;
    while j < groups.len()
        invariant
            j <= groups.len(),
            forall|k: int| 0 <= k < j && k != skip ==> group_views(groups@)[k].name != name@,
        decreases groups.len() - j,
    {
        if j != skip && groups[j].name == *name {
            assert(group_views(groups@)[j as int].name == name@);
            return true;
        }
        j += 1;
    }
    false
}

/// The position of the first id of `ids` that no group has; the length of
/// `ids` where every id is that of a group.
pub fn unknown_group(groups: &Vec<Group>, ids: &Vec<String>) -> (k: usize)
    ensures
        k <= ids.len(),
        k == first_unknown(group_ids(group_views(groups@)), ids.deep_view()),
{
    let mut k: usize = 0;
    while k < ids.len() && group_index(groups, &ids[k]) < groups.len()
        invariant
            k <= ids.len(),
            forall|j: int|
                0 <= j < k ==> group_ids(group_views(groups@)).contains(
                    #[trigger] ids.deep_view()[j],
                ),
        decreases ids.len() - k,
    {
        k += 1;
    }
    proof {
        lemma_first_unknown_is(group_ids(group_views(groups@)), ids.deep_view(), k as int);
    }
    k
}

/// The position of the first id of `ids` that no entry has; the length of
/// `ids` where every id is that of an entry.
pub fn unknown_entry(entries: &Vec<AuthEntry>, ids: &Vec<String>) -> (k: usize)
    ensures
        k <= ids.len(),
        k == first_unknown(entry_ids(entry_views(entries@)), ids.deep_view()),
{
    let mut k: usize = 0;
    while k < ids.len() && entry_index(entries, &ids[k]) < entries.len()
        invariant
            k <= ids.len(),
            forall|j: int|
                0 <= j < k ==> entry_ids(entry_views(entries@)).contains(
                    #[trigger] ids.deep_view()[j],
                ),
        decreases ids.len() - k,
    {
        k += 1;
    }
    proof {
        lemma_first_unknown_is(entry_ids(entry_views(entries@)), ids.deep_view(), k as int);
    }
    k
}


/// The store: the document in memory, and the version of the file that it
/// was last read from or written to.
pub struct Store {
    data: DataFile,
    version: Option<Timestamp>,
}

impl View for Store {
    type V = DataFileView;

    closed spec fn view(&self) -> DataFileView {
        self.data@
    }
}

impl Store {
    /// The modification time of the file that the document agrees with, if
    /// one was recorded.
    pub closed spec fn version(&self) -> Option<Timestamp> {
        self.version
    }

    /// The store over `data`, with no version recorded.
    pub fn load(data: DataFile) -> (s: Store)
        ensures
            s@ == data@,
            s.version() is None,
    {
        Store { data, version: None }
    }

    /// The document.
    pub fn data(&self) -> (d: &DataFile)
        ensures
            d@ == self@,
    {
        &self.data
    }

    /// The document, given up by the store.
    pub fn into_data(self) -> (d: DataFile)
        ensures
            d@ == self@,
    {
        self.data
    }

    /// The recorded version.
    pub fn cache_version(&self) -> (v: Option<Timestamp>)
        ensures
            v == self.version(),
    {
        self.version
    }

    /// Takes over the document that a mutation wrote, with the modification
    /// time that the file had after the write.
    pub fn commit(&mut self, data: DataFile, mtime: Timestamp)
        ensures
            final(self)@ == data@,
            final(self).version() == Some(mtime),
    {
        self.data = data;
        self.version = Some(mtime);
    }

    /// Takes over a document read from the file, unless the file's
    /// modification time is the recorded version; says whether it did.
    pub fn reload(&mut self, data: DataFile, mtime: Timestamp) -> (changed: bool)
        ensures
            changed == (old(self).version() != Some(mtime)),
            changed ==> final(self)@ == data@ && final(self).version() == Some(mtime),
            !changed ==> final(self)@ == old(self)@ && final(self).version() == old(self).version(),
    {
        let same = match self.version {
            Some(v) => v.secs == mtime.secs && v.nanos == mtime.nanos,
            None => false,
        };
        if same {
            false
        } else {
            self.data = data;
            self.version = Some(mtime);
            true
        }
    }

    /// A copy of every entry, in order.
    pub fn list_entries(&self) -> (r: Vec<AuthEntry>)
        ensures
            entry_views(r@) == self@.entries,
    {
        clone_entries(&self.data.entries)
    }

    /// A copy of every group, in order.
    pub fn list_groups(&self) -> (r: Vec<Group>)
        ensures
            group_views(r@) == self@.groups,
    {
        clone_groups(&self.data.groups)
    }

    /// The first entry with the id `id`.
    pub fn get_entry(&self, id: &str) -> (r: Result<AuthEntry, Error>)
        ensures
            match r {
                Ok(e) => self@.entry(id@) == Some(e@),
                Err(err) => self@.entry(id@) is None && err@ == (ErrorView::EntryNotFound {
                    id: id@,
                }),
            },
    {
        let key = String::from_str(id);
        let p = entry_index(&self.data.entries, &key);
        if p < self.data.entries.len() {
            Ok(self.data.entries[p].clone())
        } else {
            Err(Error::EntryNotFound { id: key })
        }
    }

    /// The first group with the id `id`.
    pub fn get_group(&self, id: &str) -> (r: Result<Group, Error>)
        ensures
            match r {
                Ok(g) => self@.group(id@) == Some(g@),
                Err(err) => self@.group(id@) is None && err@ == (ErrorView::GroupNotFound {
                    id: id@,
                }),
            },
    {
        let key = String::from_str(id);
        let p = group_index(&self.data.groups, &key);
        if p < self.data.groups.len() {
            Ok(self.data.groups[p].clone())
        } else {
            Err(Error::GroupNotFound { id: key })
        }
    }

    /// The first group with the name `name`, if there is one.
    pub fn find_group_by_name(&self, name: &str) -> (r: Option<Group>)
        ensures
            r.is_some() == self@.group_named(name@).is_some(),
            r matches Some(g) ==> self@.group_named(name@) == Some(g@),
    {
        let key = String::from_str(name);
        let p = group_name_index(&self.data.groups, &key);
        if p < self.data.groups.len() {
            Some(self.data.groups[p].clone())
        } else {
            None
        }
    }

    /// A copy of every entry that belongs to the group `gid`, in order.
    pub fn entries_by_group_id(&self, gid: &str) -> (r: Vec<AuthEntry>)
        ensures
            entry_views(r@) == members(self@.entries, gid@),
    {
        let key = String::from_str(gid);
        let mut r: Vec<AuthEntry> = Vec::new();
        let mut i: usize = 0;
        assert(entry_views(r@) =~= members(self@.entries.take(0), gid@));
        while i < self.data.entries.len()
            invariant
                i <= self.data.entries.len(),
                key@ == gid@,
                entry_views(r@) == members(self@.entries.take(i as int), gid@),
            decreases self.data.entries.len() - i,
        {
            let ghost before = entry_views(r@);
            let ghost next = self@.entries.take(i + 1);
            assert(next.drop_last() == self@.entries.take(i as int));
            assert(next.last() == self.data.entries@[i as int]@);
            let e = &self.data.entries[i];
            if position_of(&e.group_ids, &key) < e.group_ids.len() {
                r.push(e.clone());
                assert(entry_views(r@) =~= before.push(self.data.entries@[i as int]@));
            }
            i += 1;
        }
        assert(self@.entries.take(self@.entries.len() as int) == self@.entries);
        r
    }

    /// A copy of every entry that belongs to the first group named
    /// `group_name`, in order; none where no group has the name.
    pub fn entries_by_group(&self, group_name: &str) -> (r: Vec<AuthEntry>)
        ensures
            entry_views(r@) == match self@.group_named(group_name@) {
                Some(g) => members(self@.entries, g.id),
                None => Seq::empty(),
            },
    {
        match self.find_group_by_name(group_name) {
            Some(g) => self.entries_by_group_id(g.id.as_str()),
            None => {
                let r: Vec<AuthEntry> = Vec::new();
                assert(entry_views(r@) =~= Seq::empty());
                r
            },
        }
    }
}


/// The entries whose id is not `id`, copied in order.
fn entries_except(entries: &Vec<AuthEntry>, id: &String) -> (r: Vec<AuthEntry>)
    ensures
        entry_views(r@) == entries_without(entry_views(entries@), id@),
{
    let mut r: Vec<AuthEntry> = Vec::new();
    let mut i: usize = 0;
    let ghost all = entry_views(entries@);
    assert(entry_views(r@) =~= entries_without(all.take(0), id@));
    while i < entries.len()
        invariant
            i <= entries.len(),
            all == entry_views(entries@),
            entry_views(r@) == entries_without(all.take(i as int), id@),
        decreases entries.len() - i,
    {
        let ghost before = entry_views(r@);
        let ghost next = all.take(i + 1);
        assert(next.drop_last() == all.take(i as int));
        assert(next.last() == entries@[i as int]@);
        if entries[i].id != *id {
            r.push(entries[i].clone());
            assert(entry_views(r@) =~= before.push(entries@[i as int]@));
        }
        i += 1;
    }
    assert(all.take(entries.len() as int) == all);
    r
}

/// The groups whose id is not `id`, copied in order.
fn groups_except(groups: &Vec<Group>, id: &String) -> (r: Vec<Group>)
    ensures
        group_views(r@) == groups_without(group_views(groups@), id@),
{
    let mut r: Vec<Group> = Vec::new();
    let mut i: usize = 0;
    let ghost all = group_views(groups@);
    assert(group_views(r@) =~= groups_without(all.take(0), id@));
    while i < groups.len()
        invariant
            i <= groups.len(),
            all == group_views(groups@),
            group_views(r@) == groups_without(all.take(i as int), id@),
        decreases groups.len() - i,
    {
        let ghost before = group_views(r@);
        let ghost next = all.take(i + 1);
        assert(next.drop_last() == all.take(i as int));
        assert(next.last() == groups@[i as int]@);
        if groups[i].id != *id {
            r.push(groups[i].clone());
            assert(group_views(r@) =~= before.push(groups@[i as int]@));
        }
        i += 1;
    }
    assert(all.take(groups.len() as int) == all);
    r
}

/// A copy of `e` after it joined the group `gid` at `now`.
fn entry_joined(e: &AuthEntry, gid: &String, now: Timestamp) -> (r: AuthEntry)
    ensures
        r@ == e@.joined(gid@, now),
{
    let mut r = e.clone();
    if position_of(&r.group_ids, gid) >= r.group_ids.len() {
        let ghost before = r.group_ids.deep_view();
        r.group_ids.push(gid.clone());
        assert(r.group_ids.deep_view() =~= before.push(gid@));
    }
    r.updated_at = now;
    r
}

/// A copy of `e` after it left the group `gid` at `now`.
fn entry_parted(e: &AuthEntry, gid: &String, now: Timestamp) -> (r: AuthEntry)
    ensures
        r@ == e@.parted(gid@, now),
{
    let mut r = e.clone();
    if position_of(&r.group_ids, gid) < r.group_ids.len() {
        r.group_ids = remove_all(&e.group_ids, gid);
        r.updated_at = now;
    }
    r
}

/// A copy of `e` once its membership in `gid` is what `member` says.
fn entry_reshaped(e: &AuthEntry, gid: &String, member: bool, now: Timestamp) -> (r: AuthEntry)
    ensures
        r@ == e@.reshaped(gid@, member, now),
{
    if member {
        if position_of(&e.group_ids, gid) < e.group_ids.len() {
            e.clone()
        } else {
            entry_joined(e, gid, now)
        }
    } else {
        entry_parted(e, gid, now)
    }
}

/// The entries after those named by `ids` joined the group `gid` at `now`.
fn all_joined(entries: &Vec<AuthEntry>, ids: &Vec<String>, gid: &String, now: Timestamp) -> (r:
    Vec<AuthEntry>)
    ensures
        entry_views(r@) == entries_joined(entry_views(entries@), ids.deep_view(), gid@, now),
{
    let mut r: Vec<AuthEntry> = Vec::new();
    let mut i: usize = 0;
    let ghost goal = entries_joined(entry_views(entries@), ids.deep_view(), gid@, now);
    while i < entries.len()
        invariant
            i <= entries.len(),
            r.len() == i,
            goal == entries_joined(entry_views(entries@), ids.deep_view(), gid@, now),
            forall|j: int| 0 <= j < i ==> r@[j]@ == goal[j],
        decreases entries.len() - i,
    {
        if position_of(ids, &entries[i].id) < ids.len() {
            r.push(entry_joined(&entries[i], gid, now));
        } else {
            r.push(entries[i].clone());
        }
        i += 1;
    }
    assert(entry_views(r@) =~= goal);
    r
}

/// The entries once exactly those named by `ids` are members of `gid`.
fn all_reshaped(entries: &Vec<AuthEntry>, ids: &Vec<String>, gid: &String, now: Timestamp) -> (r:
    Vec<AuthEntry>)
    ensures
        entry_views(r@) == entries_reshaped(entry_views(entries@), ids.deep_view(), gid@, now),
{
    let mut r: Vec<AuthEntry> = Vec::new();
    let mut i: usize = 0;
    let ghost goal = entries_reshaped(entry_views(entries@), ids.deep_view(), gid@, now);
    while i < entries.len()
        invariant
            i <= entries.len(),
            r.len() == i,
            goal == entries_reshaped(entry_views(entries@), ids.deep_view(), gid@, now),
            forall|j: int| 0 <= j < i ==> r@[j]@ == goal[j],
        decreases entries.len() - i,
    {
        let member = position_of(ids, &entries[i].id) < ids.len();
        r.push(entry_reshaped(&entries[i], gid, member, now));
        i += 1;
    }
    assert(entry_views(r@) =~= goal);
    r
}

/// The entries after each member of `gid` left it at `now`.
fn all_parted(entries: &Vec<AuthEntry>, gid: &String, now: Timestamp) -> (r: Vec<AuthEntry>)
    ensures
        entry_views(r@) == entries_parted(entry_views(entries@), gid@, now),
{
    let mut r: Vec<AuthEntry> = Vec::new();
    let mut i: usize = 0;
    let ghost goal = entries_parted(entry_views(entries@), gid@, now);
    while i < entries.len()
        invariant
            i <= entries.len(),
            r.len() == i,
            goal == entries_parted(entry_views(entries@), gid@, now),
            forall|j: int| 0 <= j < i ==> r@[j]@ == goal[j],
        decreases entries.len() - i,
    {
        r.push(entry_parted(&entries[i], gid, now));
        i += 1;
    }
    assert(entry_views(r@) =~= goal);
    r
}

impl Store {
    /// Adds `entry`, with its memberships deduplicated, behind the other
    /// entries, and hands back what was stored. Fails, and changes nothing,
    /// where the name is taken or a group id is unknown.
    pub fn create_entry(&mut self, entry: AuthEntry) -> (r: Result<AuthEntry, Error>)
        ensures
            match r {
                Ok(e) => old(self)@.create_entry_error(entry@) is None && e@
                    == entry@.normalized() && final(self)@ == old(self)@.with_entry(e@),
                Err(err) => old(self)@.create_entry_error(entry@) == Some(err@) && final(self)@
                    == old(self)@,
            },
            final(self).version() == old(self).version(),
            old(self)@.wf() ==> final(self)@.wf(),
    {
        let n = self.data.entries.len();
        let taken = entry_name_taken(&self.data.entries, n, &entry.name);
        proof {
            let names = entry_names(self@.entries);
            if taken {
                let j = choose|j: int|
                    0 <= j < self@.entries.len() && j != n && #[trigger] self@.entries[j].name
                        == entry@.name;
                assert(names[j] == entry@.name);
            }
            if names.contains(entry@.name) {
                let j = choose|j: int| 0 <= j < names.len() && names[j] == entry@.name;
                assert(self@.entries[j].name == entry@.name);
            }
        }
        if taken {
            return Err(Error::DuplicateEntryName { name: entry.name.clone() });
        }
        let k = unknown_group(&self.data.groups, &entry.group_ids);
        if k < entry.group_ids.len() {
            return Err(Error::GroupNotFound { id: entry.group_ids[k].clone() });
        }
        let mut stored = entry;
        stored.group_ids = dedup(&stored.group_ids);
        let ret = stored.clone();
        let ghost before = self@.entries;
        self.data.entries.push(stored);
        proof {
            assert(self@.entries =~= before.push(ret@));
            if old(self)@.wf() {
                law_create_entry_keeps_invariant(old(self)@, entry@);
            }
        }
        Ok(ret)
    }

    /// Updates the first entry with the id `id` at `now`: each field that
    /// is given replaces the old one, the memberships deduplicated. Fails,
    /// and changes nothing, where the new name is taken by another entry, no
    /// entry has the id, or a group id is unknown.
    pub fn update_entry_at(
        &mut self,
        id: &str,
        name: Option<String>,
        username: Option<String>,
        password_hash: Option<String>,
        group_ids: Option<Vec<String>>,
        now: Timestamp,
    ) -> (r: Result<AuthEntry, Error>)
        ensures
            match r {
                Ok(e) => {
                    let p = first_index(entry_ids(old(self)@.entries), id@);
                    &&& old(self)@.update_entry_error(
                        id@,
                        name.deep_view(),
                        group_ids.deep_view(),
                    ) is None
                    &&& e@ == old(self)@.entries[p].updated(
                        name.deep_view(),
                        username.deep_view(),
                        password_hash.deep_view(),
                        group_ids.deep_view(),
                        now,
                    )
                    &&& final(self)@ == old(self)@.with_entry_at(p, e@)
                },
                Err(err) => old(self)@.update_entry_error(
                    id@,
                    name.deep_view(),
                    group_ids.deep_view(),
                ) == Some(err@) && final(self)@ == old(self)@,
            },
            final(self).version() == old(self).version(),
            old(self)@.wf() ==> final(self)@.wf(),
    {
        let key = String::from_str(id);
        let p = entry_index(&self.data.entries, &key);
        match &name {
            Some(n) => {
                if entry_name_taken(&self.data.entries, p, n) {
                    return Err(Error::DuplicateEntryName { name: n.clone() });
                }
            },
            None => {},
        }
        if p >= self.data.entries.len() {
            return Err(Error::EntryNotFound { id: key });
        }
        match &group_ids {
            Some(g) => {
                let k = unknown_group(&self.data.groups, g);
                if k < g.len() {
                    return Err(Error::GroupNotFound { id: g[k].clone() });
                }
            },
            None => {},
        }
        let mut e = self.data.entries[p].clone();
        let ghost name_view = name.deep_view();
        let ghost username_view = username.deep_view();
        let ghost password_view = password_hash.deep_view();
        let ghost groups_view = group_ids.deep_view();
        match name {
            Some(n) => {
                e.name = n;
            },
            None => {},
        }
        match username {
            Some(u) => {
                e.username = Some(u);
            },
            None => {},
        }
        match password_hash {
            Some(h) => {
                e.password_hash = Some(h);
            },
            None => {},
        }
        match group_ids {
            Some(g) => {
                e.group_ids = dedup(&g);
            },
            None => {},
        }
        e.updated_at = now;
        let ret = e.clone();
        let ghost before = self@.entries;
        self.data.entries.set(p, e);
        proof {
            assert(self@.entries =~= before.update(p as int, ret@));
            if old(self)@.wf() {
                law_update_entry_keeps_invariant(
                    old(self)@,
                    id@,
                    name_view,
                    username_view,
                    password_view,
                    groups_view,
                    now,
                );
            }
        }
        Ok(ret)
    }

    /// Updates the first entry with the id `id`, as `update_entry_at` does,
    /// at the current time.
    pub fn update_entry(
        &mut self,
        id: &str,
        name: Option<String>,
        username: Option<String>,
        password_hash: Option<String>,
        group_ids: Option<Vec<String>>,
    ) -> (r: Result<AuthEntry, Error>)
        ensures
            match r {
                Ok(e) => {
                    let p = first_index(entry_ids(old(self)@.entries), id@);
                    &&& old(self)@.update_entry_error(
                        id@,
                        name.deep_view(),
                        group_ids.deep_view(),
                    ) is None
                    &&& e@ == old(self)@.entries[p].updated(
                        name.deep_view(),
                        username.deep_view(),
                        password_hash.deep_view(),
                        group_ids.deep_view(),
                        e@.updated_at,
                    )
                    &&& final(self)@ == old(self)@.with_entry_at(p, e@)
                },
                Err(err) => old(self)@.update_entry_error(
                    id@,
                    name.deep_view(),
                    group_ids.deep_view(),
                ) == Some(err@) && final(self)@ == old(self)@,
            },
            final(self).version() == old(self).version(),
            old(self)@.wf() ==> final(self)@.wf(),
    {
        let at = now();
        self.update_entry_at(id, name, username, password_hash, group_ids, at)
    }

    /// Removes every entry with the id `id`. Fails, and changes nothing,
    /// where no entry has it.
    pub fn delete_entry(&mut self, id: &str) -> (r: Result<(), Error>)
        ensures
            match r {
                Ok(_) => entry_ids(old(self)@.entries).contains(id@) && final(self)@ == old(self)@.without_entry(id@),
                Err(err) => !entry_ids(old(self)@.entries).contains(id@) && err@
                    == (ErrorView::EntryNotFound { id: id@ }) && final(self)@ == old(self)@,
            },
            final(self).version() == old(self).version(),
            old(self)@.wf() ==> final(self)@.wf(),
    {
        let key = String::from_str(id);
        let kept = entries_except(&self.data.entries, &key);
        proof {
            lemma_entries_without(self@.entries, id@);
            if self@.wf() {
                law_delete_entry_keeps_invariant(self@, id@);
            }
        }
        if kept.len() == self.data.entries.len() {
            return Err(Error::EntryNotFound { id: key });
        }
        self.data.entries = kept;
        Ok(())
    }

    /// Adds `group` behind the other groups and makes the entries named by
    /// `entry_ids` members of it at `now`. Fails, and changes nothing, where
    /// the name is taken or an entry id is unknown.
    pub fn create_group_at(
        &mut self,
        group: Group,
        entry_ids: Option<Vec<String>>,
        now: Timestamp,
    ) -> (r: Result<Group, Error>)
        ensures
            match r {
                Ok(g) => old(self)@.create_group_error(group@, entry_ids.deep_view()) is None
                    && g@ == group@ && final(self)@ == old(self)@.with_group(
                    group@,
                    entry_ids.deep_view(),
                    now,
                ),
                Err(err) => old(self)@.create_group_error(group@, entry_ids.deep_view()) == Some(
                    err@,
                ) && final(self)@ == old(self)@,
            },
            final(self).version() == old(self).version(),
            old(self)@.wf() ==> final(self)@.wf(),
    {
        if group_name_index(&self.data.groups, &group.name) < self.data.groups.len() {
            return Err(Error::DuplicateGroupName { name: group.name.clone() });
        }
        match &entry_ids {
            Some(ids) => {
                let k = unknown_entry(&self.data.entries, ids);
                if k < ids.len() {
                    return Err(Error::EntryNotFound { id: ids[k].clone() });
                }
                self.data.entries = all_joined(&self.data.entries, ids, &group.id, now);
            },
            None => {},
        }
        let ret = group.clone();
        let ghost before = self@.groups;
        self.data.groups.push(group);
        proof {
            assert(self@.groups =~= before.push(ret@));
            if old(self)@.wf() {
                law_create_group_keeps_invariant(old(self)@, group@, entry_ids.deep_view(), now);
            }
        }
        Ok(ret)
    }

    /// Creates a group, as `create_group_at` does, at the current time.
    pub fn create_group(&mut self, group: Group, entry_ids: Option<Vec<String>>) -> (r: Result<
        Group,
        Error,
    >)
        ensures
            match r {
                Ok(g) => old(self)@.create_group_error(group@, entry_ids.deep_view()) is None
                    && g@ == group@ && exists|now: Timestamp|
                    final(self)@ == old(self)@.with_group(group@, entry_ids.deep_view(), now),
                Err(err) => old(self)@.create_group_error(group@, entry_ids.deep_view()) == Some(
                    err@,
                ) && final(self)@ == old(self)@,
            },
            final(self).version() == old(self).version(),
            old(self)@.wf() ==> final(self)@.wf(),
    {
        let at = now();
        self.create_group_at(group, entry_ids, at)
    }

    /// Renames the first group with the id `id` and, where `entry_ids` is
    /// given, makes exactly the entries that it names members of the group,
    /// at `now`. Fails, and changes nothing, where the name is taken by
    /// another group, no group has the id, or an entry id is unknown.
    pub fn update_group_at(
        &mut self,
        id: &str,
        name: String,
        entry_ids: Option<Vec<String>>,
        now: Timestamp,
    ) -> (r: Result<Group, Error>)
        ensures
            match r {
                Ok(g) => old(self)@.update_group_error(id@, name@, entry_ids.deep_view()) is None
                    && g@ == (GroupView { id: id@, name: name@ }) && final(self)@ == old(self)@.with_group_updated(id@, name@, entry_ids.deep_view(), now),
                Err(err) => old(self)@.update_group_error(id@, name@, entry_ids.deep_view())
                    == Some(err@) && final(self)@ == old(self)@,
            },
            final(self).version() == old(self).version(),
            old(self)@.wf() ==> final(self)@.wf(),
    {
        let key = String::from_str(id);
        let p = group_index(&self.data.groups, &key);
        if group_name_taken(&self.data.groups, p, &name) {
            return Err(Error::DuplicateGroupName { name });
        }
        if p >= self.data.groups.len() {
            return Err(Error::GroupNotFound { id: key });
        }
        match &entry_ids {
            Some(ids) => {
                let k = unknown_entry(&self.data.entries, ids);
                if k < ids.len() {
                    return Err(Error::EntryNotFound { id: ids[k].clone() });
                }
                self.data.entries = all_reshaped(&self.data.entries, ids, &key, now);
            },
            None => {},
        }
        let g = Group { id: key, name };
        let ret = g.clone();
        let ghost before = self@.groups;
        self.data.groups.set(p, g);
        proof {
            assert(self@.groups =~= before.update(p as int, ret@));
            if old(self)@.wf() {
                law_update_group_keeps_invariant(old(self)@, id@, name@, entry_ids.deep_view(), now);
            }
        }
        Ok(ret)
    }

    /// Updates a group, as `update_group_at` does, at the current time.
    pub fn update_group(&mut self, id: &str, name: String, entry_ids: Option<Vec<String>>) -> (r:
        Result<Group, Error>)
        ensures
            match r {
                Ok(g) => old(self)@.update_group_error(id@, name@, entry_ids.deep_view()) is None
                    && g@ == (GroupView { id: id@, name: name@ }) && exists|now: Timestamp|
                    final(self)@ == old(self)@.with_group_updated(
                        id@,
                        name@,
                        entry_ids.deep_view(),
                        now,
                    ),
                Err(err) => old(self)@.update_group_error(id@, name@, entry_ids.deep_view())
                    == Some(err@) && final(self)@ == old(self)@,
            },
            final(self).version() == old(self).version(),
            old(self)@.wf() ==> final(self)@.wf(),
    {
        let at = now();
        self.update_group_at(id, name, entry_ids, at)
    }

    /// Removes every group with the id `id` and takes the id out of every
    /// entry's memberships, at `now`. Fails, and changes nothing, where no
    /// group has the id.
    pub fn delete_group_at(&mut self, id: &str, now: Timestamp) -> (r: Result<(), Error>)
        ensures
            match r {
                Ok(_) => group_ids(old(self)@.groups).contains(id@) && final(self)@ == old(self)@.without_group(id@, now),
                Err(err) => !group_ids(old(self)@.groups).contains(id@) && err@
                    == (ErrorView::GroupNotFound { id: id@ }) && final(self)@ == old(self)@,
            },
            r is Ok ==> forall|i: int|
                0 <= i < final(self)@.entries.len() ==> !(#[trigger] final(self)@.entries[i]).in_group(id@),
            final(self).version() == old(self).version(),
            old(self)@.wf() ==> final(self)@.wf(),
    {
        let key = String::from_str(id);
        let kept = groups_except(&self.data.groups, &key);
        proof {
            lemma_groups_without(self@.groups, id@);
            law_delete_group_leaves_no_reference(self@, id@, now);
        }
        if kept.len() == self.data.groups.len() {
            return Err(Error::GroupNotFound { id: key });
        }
        self.data.entries = all_parted(&self.data.entries, &key, now);
        self.data.groups = kept;
        Ok(())
    }

    /// Deletes a group, as `delete_group_at` does, at the current time.
    pub fn delete_group(&mut self, id: &str) -> (r: Result<(), Error>)
        ensures
            match r {
                Ok(_) => group_ids(old(self)@.groups).contains(id@) && exists|now: Timestamp|
                    final(self)@ == old(self)@.without_group(id@, now),
                Err(err) => !group_ids(old(self)@.groups).contains(id@) && err@
                    == (ErrorView::GroupNotFound { id: id@ }) && final(self)@ == old(self)@,
            },
            r is Ok ==> forall|i: int|
                0 <= i < final(self)@.entries.len() ==> !(#[trigger] final(self)@.entries[i]).in_group(id@),
            final(self).version() == old(self).version(),
            old(self)@.wf() ==> final(self)@.wf(),
    {
        let at = now();
        self.delete_group_at(id, at)
    }
}

/// Whether no string occurs twice in `v`.
pub fn all_distinct(v: &Vec<String>) -> (r: bool)
    ensures
        r == v.deep_view().no_duplicates(),
{
    let mut i: usize = 0;
    while i < v.len()
        invariant
            i <= v.len(),
            forall|a: int, b: int| 0 <= a < b < i ==> v.deep_view()[a] != v.deep_view()[b],
        decreases v.len() - i,
    {
        let mut j: usize = 0;
        while j < i
            invariant
                j <= i < v.len(),
                forall|a: int| 0 <= a < j ==> v.deep_view()[a] != v.deep_view()[i as int],
            decreases i - j,
        {
            if v[j] == v[i] {
                assert(v.deep_view()[j as int] == v.deep_view()[i as int]);
                return false;
            }
            j += 1;
        }
        i += 1;
    }
    assert forall|a: int, b: int|
        0 <= a < v.deep_view().len() && 0 <= b < v.deep_view().len() && a != b implies v.deep_view()[a]
        != v.deep_view()[b] by {
        if a < b {
            assert(v.deep_view()[a] != v.deep_view()[b]);
        } else {
            assert(v.deep_view()[b] != v.deep_view()[a]);
        }
    }
    true
}

impl DataFile {
    /// Whether the document meets the store's invariant.
    pub fn is_well_formed(&self) -> (r: bool)
        ensures
            r == self@.wf(),
    {
        let mut entry_names_seen: Vec<String> = Vec::new();
        let mut i: usize = 0;
        while i < self.entries.len()
            invariant
                i <= self.entries.len(),
                entry_names_seen.len() == i,
                forall|k: int| 0 <= k < i ==> entry_names_seen@[k]@ == self.entries@[k].name@,
                forall|k: int, j: int|
                    0 <= k < i && 0 <= j < self@.entries[k].group_ids.len() ==> group_ids(
                        self@.groups,
                    ).contains(#[trigger] self@.entries[k].group_ids[j]),
                forall|k: int|
                    0 <= k < i ==> (#[trigger] self@.entries[k]).group_ids.no_duplicates(),
            decreases self.entries.len() - i,
        {
            let e = &self.entries[i];
            assert(self@.entries[i as int] == e@);
            let k = unknown_group(&self.groups, &e.group_ids);
            proof {
                lemma_first_unknown(group_ids(self@.groups), e@.group_ids);
            }
            if k < e.group_ids.len() {
                assert(!group_ids(self@.groups).contains(self@.entries[i as int].group_ids[k as int]));
                return false;
            }
            if !all_distinct(&e.group_ids) {
                return false;
            }
            entry_names_seen.push(e.name.clone());
            i += 1;
        }
        assert(entry_names_seen.deep_view() =~= entry_names(self@.entries));
        if !all_distinct(&entry_names_seen) {
            return false;
        }
        let mut group_names_seen: Vec<String> = Vec::new();
        let mut g: usize = 0;
        while g < self.groups.len()
            invariant
                g <= self.groups.len(),
                group_names_seen.len() == g,
                forall|k: int| 0 <= k < g ==> group_names_seen@[k]@ == self.groups@[k].name@,
            decreases self.groups.len() - g,
        {
            group_names_seen.push(self.groups[g].name.clone());
            g += 1;
        }
        assert(group_names_seen.deep_view() =~= group_names(self@.groups));
        all_distinct(&group_names_seen)
    }
}

} // verus!
