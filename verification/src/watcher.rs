//! Change detection by polling.
//!
//! A [`FileWatcher`] remembers the last-modified time of every path it has
//! been shown. Each poll hands it the direct children of the watched root;
//! it answers with the number of notifications that are due and remembers
//! the new times.

use vstd::prelude::*;
use vstd::hash_map::StringHashMap;
use crate::timestamp::Timestamp;

verus! {

/// Whether a watcher has been started.
#[derive(Debug)]
pub struct WatchState {
    watching: bool,
}

impl WatchState {
    /// The state before any watcher was started.
    pub fn new() -> (state: WatchState)
        ensures
            !state.is_watching(),
    {
        WatchState { watching: false }
    }

    /// Whether a watcher was started.
    pub closed spec fn spec_is_watching(&self) -> bool {
        self.watching
    }

    /// Whether a watcher was started.
    #[verifier::when_used_as_spec(spec_is_watching)]
    pub fn is_watching(&self) -> (watching: bool)
        ensures
            watching == self.is_watching(),
    {
        self.watching
    }

    /// Records that a watcher was started. There is no way back.
    pub fn start(&mut self)
        ensures
            final(self).is_watching(),
    {
        self.watching = true;
    }
}

impl Default for WatchState {
    fn default() -> (state: WatchState)
        ensures
            !state.is_watching(),
    {
        WatchState::new()
    }
}

/// One child of the watched root as a poll saw it.
#[derive(Debug)]
pub struct Observation {
    /// The child's path.
    pub path: String,
    /// When the child was last modified.
    pub modified: Timestamp,
}

/// The times a watcher remembers, by path.
pub type Seen = Map<Seq<char>, Timestamp>;

/// Whether seeing `path` with time `modified` is news to a watcher that
/// remembers `seen`: the path is known and its time is another one.
pub open spec fn is_change(seen: Seen, path: Seq<char>, modified: Timestamp) -> bool {
    seen.contains_key(path) && seen[path] != modified
}

/// What a watcher that remembered `seen` remembers after it was shown
/// `children`, one after the other.
pub open spec fn seen_after(seen: Seen, children: Seq<Observation>) -> Seen
    decreases children.len(),
{
    if children.len() == 0 {
        seen
    } else {
        seen_after(seen, children.drop_last()).insert(
            children.last().path@,
            children.last().modified,
        )
    }
}

/// How many notifications are due when a watcher that remembers `seen` is
/// shown `children`, one after the other.
pub open spec fn changes(seen: Seen, children: Seq<Observation>) -> nat
    decreases children.len(),
{
    if children.len() == 0 {
        0
    } else {
        let before = children.drop_last();
        let last = children.last();
        if is_change(seen_after(seen, before), last.path@, last.modified) {
            changes(seen, before) + 1
        } else {
            changes(seen, before)
        }
    }
}

/// The memory of a polling watcher.
pub struct FileWatcher {
    last_modified: StringHashMap<Timestamp>,
}

impl View for FileWatcher {
    type V = Seen;

    closed spec fn view(&self) -> Seen {
        self.last_modified@
    }
}

impl FileWatcher {
    /// A watcher that has seen nothing yet.
    pub fn new() -> (watcher: FileWatcher)
        ensures
            watcher@ == Seen::empty(),
    {
        FileWatcher { last_modified: StringHashMap::new() }
    }

    /// Shows the watcher one child. The answer says whether a notification is
    /// due; the child's time is remembered either way.
    pub fn observe(&mut self, path: &str, modified: Timestamp) -> (notify: bool)
        ensures
            notify == is_change(old(self)@, path@, modified),
            final(self)@ == old(self)@.insert(path@, modified),
    {
        let notify = match self.last_modified.get(path) {
            Some(previous) => *previous != modified,
            None => false,
        };
        self.last_modified.insert(path.to_owned(), modified);
        notify
    }

    /// Shows the watcher the children found by one poll and counts the
    /// notifications that are due.
    pub fn poll(&mut self, children: &Vec<Observation>) -> (notifications: usize)
        ensures
            notifications == changes(old(self)@, children@),
            final(self)@ == seen_after(old(self)@, children@),
    {
        let ghost start = self@;
        let mut notifications: usize = 0;
        let mut i: usize = 0;
        while i < children.len()
            invariant
                i <= children.len(),
                notifications <= i,
                notifications == changes(start, children@.take(i as int)),
                self@ == seen_after(start, children@.take(i as int)),
            decreases children.len() - i,
        {
            assert(children@.take(i + 1).drop_last() == children@.take(i as int));
            let child = &children[i];
            if self.observe(child.path.as_str(), child.modified) {
                notifications += 1;
            }
            i += 1;
        }
        assert(children@.take(i as int) == children@);
        notifications
    }
}

/// Whether no two of `children` share a path, as holds of the entries of one
/// directory.
pub open spec fn distinct_paths(children: Seq<Observation>) -> bool {
    forall|i: int, j: int|
        0 <= i < j < children.len() ==> #[trigger] children[i].path@ != #[trigger] children[j].path@
}

/// How many of `children` are news to a watcher that remembers `seen`, each
/// taken by itself.
pub open spec fn changed_among(seen: Seen, children: Seq<Observation>) -> nat
    decreases children.len(),
{
    if children.len() == 0 {
        0
    } else {
        let last = children.last();
        if is_change(seen, last.path@, last.modified) {
            changed_among(seen, children.drop_last()) + 1
        } else {
            changed_among(seen, children.drop_last())
        }
    }
}

/// A path that is not among `children` is remembered after them as it was
/// before.
pub proof fn lemma_unseen_path_is_kept(seen: Seen, children: Seq<Observation>, path: Seq<char>)
    requires
        forall|i: int| 0 <= i < children.len() ==> #[trigger] children[i].path@ != path,
    ensures
        seen_after(seen, children).contains_key(path) == seen.contains_key(path),
        seen.contains_key(path) ==> seen_after(seen, children)[path] == seen[path],
    decreases children.len(),
{
    if children.len() > 0 {
        let before = children.drop_last();
        assert forall|i: int| 0 <= i < before.len() implies #[trigger] before[i].path@ != path by {
            assert(before[i] == children[i]);
        }
        lemma_unseen_path_is_kept(seen, before, path);
        assert(children.last() == children[children.len() - 1]);
    }
}

/// After a poll the watcher remembers, for every child of the listing, the
/// time that the listing gave, given that the listing names no path twice.
pub proof fn lemma_seen_children_are_remembered(seen: Seen, children: Seq<Observation>, i: int)
    requires
        distinct_paths(children),
        0 <= i < children.len(),
    ensures
        seen_after(seen, children).contains_key(children[i].path@),
        seen_after(seen, children)[children[i].path@] == children[i].modified,
    decreases children.len(),
{
    let before = children.drop_last();
    if i < children.len() - 1 {
        assert(distinct_paths(before)) by {
            assert forall|a: int, b: int| 0 <= a < b < before.len() implies #[trigger] before[a]
                .path@ != #[trigger] before[b].path@ by {
                assert(before[a] == children[a] && before[b] == children[b]);
            }
        }
        assert(before[i] == children[i]);
        lemma_seen_children_are_remembered(seen, before, i);
        assert(children[i].path@ != children[children.len() - 1].path@);
    }
}

/// On a listing that names no path twice, the notifications of a poll are
/// exactly the children whose time differs from the one remembered before the
/// poll: no change is missed and none is counted twice.
pub proof fn lemma_poll_counts_each_change_once(seen: Seen, children: Seq<Observation>)
    requires
        distinct_paths(children),
    ensures
        changes(seen, children) == changed_among(seen, children),
    decreases children.len(),
{
    if children.len() > 0 {
        let before = children.drop_last();
        let last = children.last();
        assert(distinct_paths(before)) by {
            assert forall|a: int, b: int| 0 <= a < b < before.len() implies #[trigger] before[a]
                .path@ != #[trigger] before[b].path@ by {
                assert(before[a] == children[a] && before[b] == children[b]);
            }
        }
        lemma_poll_counts_each_change_once(seen, before);
        assert forall|i: int| 0 <= i < before.len() implies #[trigger] before[i].path@
            != last.path@ by {
            assert(before[i] == children[i]);
            assert(last == children[children.len() - 1]);
        }
        lemma_unseen_path_is_kept(seen, before, last.path@);
    }
}

/// A watcher that has seen nothing notifies of nothing: the first poll only
/// records.
pub proof fn lemma_first_poll_is_silent(children: Seq<Observation>)
    requires
        distinct_paths(children),
    ensures
        changes(Seen::empty(), children) == 0,
{
    lemma_poll_counts_each_change_once(Seen::empty(), children);
    lemma_nothing_changed(Seen::empty(), children);
}

/// Polling again with nothing modified in between notifies of nothing.
pub proof fn lemma_repeated_poll_is_silent(seen: Seen, children: Seq<Observation>)
    requires
        distinct_paths(children),
    ensures
        changes(seen_after(seen, children), children) == 0,
        seen_after(seen_after(seen, children), children) == seen_after(seen, children),
{
    let now = seen_after(seen, children);
    lemma_poll_counts_each_change_once(now, children);
    assert forall|i: int| 0 <= i < children.len() implies now.contains_key(
        #[trigger] children[i].path@,
    ) && now[children[i].path@] == children[i].modified by {
        lemma_seen_children_are_remembered(seen, children, i);
    }
    lemma_nothing_changed(now, children);
    lemma_known_children_change_nothing(now, children);
}

/// A known child whose time differs from the remembered one is notified of.
pub proof fn lemma_change_is_noticed(seen: Seen, children: Seq<Observation>, i: int)
    requires
        distinct_paths(children),
        0 <= i < children.len(),
        is_change(seen, children[i].path@, children[i].modified),
    ensures
        changes(seen, children) >= 1,
{
    lemma_poll_counts_each_change_once(seen, children);
    lemma_changed_among_counts(seen, children, i);
}

proof fn lemma_changed_among_counts(seen: Seen, children: Seq<Observation>, i: int)
    requires
        0 <= i < children.len(),
        is_change(seen, children[i].path@, children[i].modified),
    ensures
        changed_among(seen, children) >= 1,
    decreases children.len(),
{
    if i < children.len() - 1 {
        assert(children.drop_last()[i] == children[i]);
        lemma_changed_among_counts(seen, children.drop_last(), i);
    }
}

proof fn lemma_nothing_changed(seen: Seen, children: Seq<Observation>)
    requires
        forall|i: int|
            0 <= i < children.len() ==> !is_change(
                seen,
                #[trigger] children[i].path@,
                children[i].modified,
            ),
    ensures
        changed_among(seen, children) == 0,
    decreases children.len(),
{
    if children.len() > 0 {
        let before = children.drop_last();
        assert forall|i: int| 0 <= i < before.len() implies !is_change(
            seen,
            #[trigger] before[i].path@,
            before[i].modified,
        ) by {
            assert(before[i] == children[i]);
        }
        lemma_nothing_changed(seen, before);
        assert(children.last() == children[children.len() - 1]);
    }
}

proof fn lemma_known_children_change_nothing(seen: Seen, children: Seq<Observation>)
    requires
        forall|i: int|
            0 <= i < children.len() ==> seen.contains_key(#[trigger] children[i].path@)
                && seen[children[i].path@] == children[i].modified,
    ensures
        seen_after(seen, children) == seen,
    decreases children.len(),
{
    if children.len() > 0 {
        let before = children.drop_last();
        assert forall|i: int| 0 <= i < before.len() implies seen.contains_key(
            #[trigger] before[i].path@,
        ) && seen[before[i].path@] == before[i].modified by {
            assert(before[i] == children[i]);
        }
        lemma_known_children_change_nothing(seen, before);
        assert(children.last() == children[children.len() - 1]);
        assert(seen.insert(children.last().path@, children.last().modified) =~= seen);
    }
}

} // verus!
