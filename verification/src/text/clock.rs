//! Version vectors: how many operations of each replica have been seen.

use vstd::prelude::*;

verus! {

/// How many operations of each replica have been seen. A replica past the end of the
/// vector has contributed none.
#[derive(Debug)]
pub struct Global {
    values: Vec<u32>,
}

impl View for Global {
    type V = Seq<u32>;

    closed spec fn view(&self) -> Seq<u32> {
        self.values@
    }
}

/// The number of operations of `replica` that `version` counts.
pub open spec fn operations_seen(version: Seq<u32>, replica: int) -> u32 {
    if 0 <= replica < version.len() {
        version[replica]
    } else {
        0
    }
}

/// Whether `version` counts an operation that `other` does not.
pub open spec fn changed_since(version: Seq<u32>, other: Seq<u32>) -> bool {
    exists|replica: int|
        #![trigger operations_seen(version, replica)]
        operations_seen(version, replica) > operations_seen(other, replica)
}

impl Global {
    /// The version at which nothing has been seen.
    pub fn new() -> (version: Global)
        ensures
            version@ == Seq::<u32>::empty(),
    {
        Global { values: Vec::new() }
    }

    /// The number of operations of `replica` that have been seen.
    pub fn get(&self, replica: usize) -> (count: u32)
        ensures
            count == operations_seen(self@, replica as int),
    {
        if replica < self.values.len() {
            self.values[replica]
        } else {
            0
        }
    }

    /// A copy of this version.
    pub fn duplicate(&self) -> (version: Global)
        ensures
            version@ == self@,
    {
        let values: Vec<u32> = self.values.clone();
        assert(values@ =~= self.values@);
        Global { values }
    }

    /// Counts one more operation of `replica`, and leaves every other count as it is.
    pub fn observe(&mut self, replica: u16)
        requires
            operations_seen(old(self)@, replica as int) < u32::MAX,
        ensures
            operations_seen(final(self)@, replica as int) == operations_seen(
                old(self)@,
                replica as int,
            ) + 1,
            forall|other: int|
                other != replica ==> #[trigger] operations_seen(final(self)@, other)
                    == operations_seen(old(self)@, other),
    {
        let index: usize = replica as usize;
        while self.values.len() <= index
            invariant
                index == replica,
                operations_seen(old(self)@, replica as int) < u32::MAX,
                forall|other: int| #[trigger]
                    operations_seen(self@, other) == operations_seen(old(self)@, other),
            decreases index + 1 - self.values.len(),
        {
            let ghost before = self@;
            self.values.push(0);
            assert forall|other: int| #[trigger]
                operations_seen(self@, other) == operations_seen(old(self)@, other) by {
                assert(operations_seen(before, other) == operations_seen(old(self)@, other));
            }
        }
        let ghost before = self@;
        let count: u32 = self.values[index];
        assert(count == operations_seen(self@, replica as int));
        self.values.set(index, count + 1);
        assert forall|other: int| other != replica implies #[trigger] operations_seen(
            self@,
            other,
        ) == operations_seen(old(self)@, other) by {
            assert(operations_seen(before, other) == operations_seen(old(self)@, other));
        }
    }

    /// Whether this version counts an operation that `other` does not.
    pub fn changed_since(&self, other: &Global) -> (changed: bool)
        ensures
            changed == changed_since(self@, other@),
    {
        let mut replica: usize = 0;
        while replica < self.values.len()
            invariant
                replica <= self.values.len(),
                forall|seen: int|
                    0 <= seen < replica ==> #[trigger] operations_seen(self@, seen)
                        <= operations_seen(other@, seen),
            decreases self.values.len() - replica,
        {
            let count: u32 = self.get(replica);
            if count > other.get(replica) {
                return true;
            }
            replica += 1;
        }
        false
    }
}

/// A version has not changed since itself.
pub proof fn law_unchanged_since_itself(version: Seq<u32>)
    ensures
        !changed_since(version, version),
{
}

/// A version has changed since another exactly if it counts more operations of some replica, where a
/// replica that the other does not list has contributed none.
pub proof fn law_changes_are_counted_by_replica(version: Seq<u32>, other: Seq<u32>)
    ensures
        !changed_since(version, other) == (forall|replica: int|
            0 <= replica < version.len() ==> #[trigger] version[replica] <= (if replica
                < other.len() {
                other[replica]
            } else {
                0
            })),
{
    if !changed_since(version, other) {
        assert forall|replica: int| 0 <= replica < version.len() implies #[trigger] version[replica]
            <= (if replica < other.len() {
            other[replica]
        } else {
            0
        }) by {
            assert(operations_seen(version, replica) <= operations_seen(other, replica));
        }
    }
}

} // verus!
