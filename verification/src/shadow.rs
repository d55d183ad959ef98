//! The shadow files: texts held in memory that stand for files on disk, so
//! that what the editor has not saved yet takes part in the compilation.
//!
//! The compiler holds the shadow files. The library says how a request of
//! the editor changes them, and what they are after a change.

use crate::request::{MemoryFiles, MemoryFilesShort};
use vstd::prelude::*;

verus! {

/// A change of the shadow files: paths to take out, then texts to put in.
#[derive(Debug)]
pub struct FileChangeSet {
    pub removes: Vec<String>,
    pub inserts: Vec<(String, String)>,
}

/// A change of the shadow files together with how to apply it.
#[derive(Debug)]
pub enum MemoryEvent {
    /// Forget all shadow files, then apply the change.
    Sync(FileChangeSet),
    /// Apply the change to the shadow files as they are.
    Update(FileChangeSet),
}

/// The mathematical content of a [`FileChangeSet`].
pub ghost struct ChangeSet {
    pub removes: Seq<Seq<char>>,
    pub inserts: Seq<(Seq<char>, Seq<char>)>,
}

/// The mathematical content of a [`MemoryEvent`].
pub ghost enum Change {
    Sync(ChangeSet),
    Update(ChangeSet),
}

/// The shadow files: the text for every path that has one.
pub type Shadow = Map<Seq<char>, Seq<char>>;

impl View for FileChangeSet {
    type V = ChangeSet;

    open spec fn view(&self) -> ChangeSet {
        ChangeSet { removes: self.removes.deep_view(), inserts: self.inserts.deep_view() }
    }
}

impl View for MemoryEvent {
    type V = Change;

    open spec fn view(&self) -> Change {
        match *self {
            MemoryEvent::Sync(set) => Change::Sync(set@),
            MemoryEvent::Update(set) => Change::Update(set@),
        }
    }
}

/// The shadow files with the paths `removes` taken out.
pub open spec fn without(shadow: Shadow, removes: Seq<Seq<char>>) -> Shadow
    decreases removes.len(),
{
    if removes.len() == 0 {
        shadow
    } else {
        without(shadow, removes.drop_last()).remove(removes.last())
    }
}

/// The shadow files with the texts `inserts` put in, one after the other: of
/// two texts for one path the later one stays.
pub open spec fn with_all(shadow: Shadow, inserts: Seq<(Seq<char>, Seq<char>)>) -> Shadow
    decreases inserts.len(),
{
    if inserts.len() == 0 {
        shadow
    } else {
        with_all(shadow, inserts.drop_last()).insert(inserts.last().0, inserts.last().1)
    }
}

/// The shadow files after the change `set`.
pub open spec fn changed(shadow: Shadow, set: ChangeSet) -> Shadow {
    with_all(without(shadow, set.removes), set.inserts)
}

/// The shadow files after the event `change`.
pub open spec fn applied(shadow: Shadow, change: Change) -> Shadow {
    match change {
        Change::Sync(set) => changed(Map::empty(), set),
        Change::Update(set) => changed(shadow, set),
    }
}

/// The shadow files after the events `changes`, one after the other.
pub open spec fn applied_all(shadow: Shadow, changes: Seq<Change>) -> Shadow
    decreases changes.len(),
{
    if changes.len() == 0 {
        shadow
    } else {
        applied(applied_all(shadow, changes.drop_last()), changes.last())
    }
}

/// The change that puts in the texts `files`.
pub open spec fn inserting(files: Seq<(Seq<char>, Seq<char>)>) -> ChangeSet {
    ChangeSet { removes: Seq::empty(), inserts: files }
}

/// The change that takes out the paths `paths`.
pub open spec fn removing(paths: Seq<Seq<char>>) -> ChangeSet {
    ChangeSet { removes: paths, inserts: Seq::empty() }
}

impl FileChangeSet {
    /// The change that puts in the texts `inserts`.
    pub fn new_inserts(inserts: Vec<(String, String)>) -> (res: Self)
        ensures
            res@ == inserting(inserts.deep_view()),
    {
        let res = FileChangeSet { removes: Vec::new(), inserts };
        proof {
            assert(res.removes.deep_view() =~= Seq::<Seq<char>>::empty());
        }
        res
    }

    /// The change that takes out the paths `removes`.
    pub fn new_removes(removes: Vec<String>) -> (res: Self)
        ensures
            res@ == removing(removes.deep_view()),
    {
        let res = FileChangeSet { removes, inserts: Vec::new() };
        proof {
            assert(res.inserts.deep_view() =~= Seq::<(Seq<char>, Seq<char>)>::empty());
        }
        res
    }
}

/// The event for files that the editor sends: with `reset_shadow` they
/// replace all shadow files, without it they are put in beside the others.
pub fn update_memory_files(files: MemoryFiles, reset_shadow: bool) -> (res: MemoryEvent)
    ensures
        res@ == if reset_shadow {
            Change::Sync(inserting(files.files.deep_view()))
        } else {
            Change::Update(inserting(files.files.deep_view()))
        },
{
    let set = FileChangeSet::new_inserts(files.files);
    if reset_shadow {
        MemoryEvent::Sync(set)
    } else {
        MemoryEvent::Update(set)
    }
}

/// The event for files that the editor no longer holds unsaved.
pub fn remove_shadow_files(files: MemoryFilesShort) -> (res: MemoryEvent)
    ensures
        res@ == Change::Update(removing(files.files.deep_view())),
{
    MemoryEvent::Update(FileChangeSet::new_removes(files.files))
}

/// Putting in texts one list after the other is putting in the two lists as
/// one.
pub proof fn law_inserts_accumulate(
    shadow: Shadow,
    first: Seq<(Seq<char>, Seq<char>)>,
    second: Seq<(Seq<char>, Seq<char>)>,
)
    ensures
        with_all(with_all(shadow, first), second) == with_all(shadow, first + second),
    decreases second.len(),
{
    if second.len() == 0 {
        assert(first + second =~= first);
    } else {
        law_inserts_accumulate(shadow, first, second.drop_last());
        assert((first + second).drop_last() =~= first + second.drop_last());
        assert((first + second).last() == second.last());
    }
}

/// All the texts of the lists `updates`, in their order.
pub open spec fn all_inserts(updates: Seq<Seq<(Seq<char>, Seq<char>)>>) -> Seq<
    (Seq<char>, Seq<char>),
>
    decreases updates.len(),
{
    if updates.len() == 0 {
        Seq::empty()
    } else {
        all_inserts(updates.drop_last()) + updates.last()
    }
}

/// The update events for the lists `updates`.
pub open spec fn update_events(updates: Seq<Seq<(Seq<char>, Seq<char>)>>) -> Seq<Change> {
    Seq::new(updates.len(), |i: int| Change::Update(inserting(updates[i])))
}

/// After any number of updates the shadow files hold all that the updates
/// put in, beside what they held before.
pub proof fn law_updates_accumulate(shadow: Shadow, updates: Seq<Seq<(Seq<char>, Seq<char>)>>)
    ensures
        applied_all(shadow, update_events(updates)) == with_all(shadow, all_inserts(updates)),
    decreases updates.len(),
{
    if updates.len() > 0 {
        let front = updates.drop_last();
        law_updates_accumulate(shadow, front);
        assert(update_events(updates).drop_last() =~= update_events(front));
        assert(update_events(updates).last() == Change::Update(inserting(updates.last())));
        law_inserts_accumulate(shadow, all_inserts(front), updates.last());
    }
}

/// The last text that `inserts` holds for `path`, if it holds one.
pub open spec fn last_text(inserts: Seq<(Seq<char>, Seq<char>)>, path: Seq<char>) -> Option<
    Seq<char>,
>
    decreases inserts.len(),
{
    if inserts.len() == 0 {
        None
    } else if inserts.last().0 == path {
        Some(inserts.last().1)
    } else {
        last_text(inserts.drop_last(), path)
    }
}

/// After texts were put in, a path has the last text put in for it, or what
/// it had before where none was put in for it.
pub proof fn law_inserted_text_wins(
    shadow: Shadow,
    inserts: Seq<(Seq<char>, Seq<char>)>,
    path: Seq<char>,
)
    ensures
        match last_text(inserts, path) {
            Some(text) => with_all(shadow, inserts).contains_key(path) && with_all(
                shadow,
                inserts,
            )[path] == text,
            None => with_all(shadow, inserts).contains_key(path) == shadow.contains_key(path) && (
            shadow.contains_key(path) ==> with_all(shadow, inserts)[path] == shadow[path]),
        },
    decreases inserts.len(),
{
    if inserts.len() > 0 {
        law_inserted_text_wins(shadow, inserts.drop_last(), path);
    }
}

/// A sync leaves the same shadow files whatever was there before, so that
/// the same sync twice leaves what it leaves once.
pub proof fn law_sync_is_idempotent(shadow: Shadow, other: Shadow, set: ChangeSet)
    ensures
        applied(shadow, Change::Sync(set)) == applied(other, Change::Sync(set)),
        applied(applied(shadow, Change::Sync(set)), Change::Sync(set)) == applied(
            shadow,
            Change::Sync(set),
        ),
{
}

/// After paths were taken out, none of them has a text, and every other path
/// has what it had.
pub proof fn law_removed_paths_are_gone(shadow: Shadow, removes: Seq<Seq<char>>, path: Seq<char>)
    ensures
        without(shadow, removes).contains_key(path) == (shadow.contains_key(path)
            && !removes.contains(path)),
        without(shadow, removes).contains_key(path) ==> without(shadow, removes)[path]
            == shadow[path],
    decreases removes.len(),
{
    if removes.len() > 0 {
        law_removed_paths_are_gone(shadow, removes.drop_last(), path);
        let front = removes.drop_last();
        if removes.contains(path) && removes.last() != path {
            let i = choose|i: int| 0 <= i < removes.len() && removes[i] == path;
            assert(front[i] == path);
        }
        if front.contains(path) {
            let i = choose|i: int| 0 <= i < front.len() && front[i] == path;
            assert(removes[i] == path);
        }
        if removes.last() == path {
            assert(removes[removes.len() - 1] == path);
        }
    }
}

} // verus!
