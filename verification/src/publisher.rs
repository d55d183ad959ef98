//! The document cell: one slot that holds the document published last.
//!
//! The compiler supervisor writes the cell, the render actors read it. A
//! reader always gets what was written last, and may miss what was written
//! before.

use std::sync::Arc;
use vstd::prelude::*;

verus! {

/// `Arc::clone`: another pointer to the same value.
#[verifier::external_body]
fn share<T>(data: &Arc<T>) -> (res: Arc<T>)
    ensures
        res == *data,
{
    Arc::clone(data)
}

/// What a cell holds, and how many values were published to it so far.
pub ghost struct Cell<T> {
    pub held: Option<Arc<T>>,
    pub version: nat,
}

/// The cell after `data` was published to it: it holds `data`, and its
/// version is one more.
pub open spec fn published<T>(cell: Cell<T>, data: Arc<T>) -> Cell<T> {
    Cell { held: Some(data), version: cell.version + 1 }
}

/// The cell after the values `all` were published to it, one after the
/// other.
pub open spec fn published_all<T>(cell: Cell<T>, all: Seq<Arc<T>>) -> Cell<T>
    decreases all.len(),
{
    if all.len() == 0 {
        cell
    } else {
        published(published_all(cell, all.drop_last()), all.last())
    }
}

/// A cell with one slot, in which the newest value replaces the one before.
pub struct PublisherImpl<T> {
    data: Option<Arc<T>>,
    version: Ghost<nat>,
}

impl<T> View for PublisherImpl<T> {
    type V = Cell<T>;

    closed spec fn view(&self) -> Cell<T> {
        Cell { held: self.data, version: self.version@ }
    }
}

impl<T> PublisherImpl<T> {
    /// What the cell holds.
    pub open spec fn held(&self) -> Option<Arc<T>> {
        self@.held
    }

    /// The number of values that were published to the cell.
    pub open spec fn version(&self) -> nat {
        self@.version
    }

    /// A cell that holds nothing.
    pub fn new() -> (res: Self)
        ensures
            res@ == (Cell::<T> { held: None, version: 0 }),
    {
        PublisherImpl { data: None, version: Ghost(0) }
    }

    /// A cell that holds `data`.
    pub fn with_data(data: Arc<T>) -> (res: Self)
        ensures
            res@ == published(Cell::<T> { held: None, version: 0 }, data),
    {
        PublisherImpl { data: Some(data), version: Ghost(1) }
    }

    /// What the cell holds now.
    pub fn latest(&self) -> (res: Option<Arc<T>>)
        ensures
            res == self@.held,
    {
        match &self.data {
            Some(data) => Some(share(data)),
            None => None,
        }
    }

    /// Puts `data` into the cell, in place of what it held.
    pub fn publish(&mut self, data: Arc<T>)
        ensures
            final(self)@ == published(old(self)@, data),
    {
        self.data = Some(data);
        self.version = Ghost(self.version@ + 1);
    }
}

/// However many values are published to a cell, a look at the cell sees the
/// value published last before it, and of two looks the later one never
/// sees an older version: after the first `j` of the values `all` the cell
/// holds the `j`th, at a version that is `j` above the one it started from,
/// and so no smaller than after the first `i`, where `i` is at most `j`.
pub proof fn law_later_look_sees_no_older_version<T>(
    cell: Cell<T>,
    all: Seq<Arc<T>>,
    i: int,
    j: int,
)
    requires
        0 <= i <= j <= all.len(),
    ensures
        published_all(cell, all.take(j)).version == cell.version + j,
        published_all(cell, all.take(i)).version <= published_all(cell, all.take(j)).version,
        j > 0 ==> published_all(cell, all.take(j)).held == Some(all[j - 1]),
        j == 0 ==> published_all(cell, all.take(j)) == cell,
{
    lemma_version_counts(cell, all.take(i));
    lemma_version_counts(cell, all.take(j));
    if j > 0 {
        assert(all.take(j).last() == all[j - 1]);
    }
}

/// Every publication raises the version by one.
proof fn lemma_version_counts<T>(cell: Cell<T>, all: Seq<Arc<T>>)
    ensures
        published_all(cell, all).version == cell.version + all.len(),
    decreases all.len(),
{
    if all.len() > 0 {
        lemma_version_counts(cell, all.drop_last());
    }
}

} // verus!
