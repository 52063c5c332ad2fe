use std::sync::atomic::AtomicU32;
use super::object_id::ObjectId;
use std::sync::atomic::Ordering;
use vstd::prelude::*;

verus! {

/// The bit of the lock word that is set while a writer holds the lock.
pub const WRITER: u32 = 1;

/// What one reader adds to the lock word: the readers are counted in steps
/// of two, above the writer's bit.
pub const READER: u32 = 2;

/// Whether the writer's bit is set in a lock word.
pub open spec fn writer_present(word: u32) -> bool {
    word % 2 == 1
}

/// How many readers a lock word counts.
pub open spec fn readers_counted(word: u32) -> nat {
    (word / 2) as nat
}

/// What a reader concludes from the word that it found when it added itself:
/// it may go on exactly when no writer's bit was set.
pub fn admits_reader(previous: u32) -> (admitted: bool)
    ensures
        admitted == !writer_present(previous),
{
    assert(previous & 1 == 0 <==> previous % 2 == 0) by (bit_vector);
    previous & WRITER == 0
}

/// What a writer's exchange of 0 for the writer's bit came to: the writer
/// may go on exactly when the exchange took place.
pub fn admits_writer(outcome: Result<u32, u32>) -> (admitted: bool)
    ensures
        admitted == outcome.is_ok(),
{
    outcome.is_ok()
}

/// A lock for many readers or one writer in one atomic word, without any
/// waiting built in: taking it is one attempt, and who wants to wait tries
/// again.
#[derive(Debug)]
pub struct SyncState(AtomicU32);

impl SyncState {
    /// A lock that nobody holds.
    pub fn new() -> Self {
        Self(AtomicU32::new(0))
    }

    /// One attempt to enter as a reader: adds a reader to the word, and takes
    /// it back at once if a writer was found in it. `true` means that the
    /// caller holds the lock as a reader and owes a `release_read`.
    pub fn try_take_read(&self) -> bool {
        let previous_value = self.0.fetch_add(READER, Ordering::AcqRel);
        if admits_reader(previous_value) {
            true
        } else {
            // A writer is active. We need to release again
            self.0.fetch_sub(READER, Ordering::AcqRel);
            false
        }
    }

    /// Leaves as a reader. Only for a caller that has entered as one.
    pub fn release_read(&self) {
        self.0.fetch_sub(READER, Ordering::AcqRel);
    }

    /// One attempt to enter as the writer: exchanges an empty word for the
    /// writer's bit. `true` means that the caller holds the lock as the
    /// writer and owes a `release_write`.
    pub fn try_take_write(&self) -> bool {
        admits_writer(
            self.0.compare_exchange_weak(0, WRITER, Ordering::Acquire, Ordering::Relaxed),
        )
    }

    /// Leaves as the writer. Only for the caller that has entered as it.
    pub fn release_write(&self) {
        self.0.fetch_sub(WRITER, Ordering::AcqRel);
    }
}

/// Whether the numbers of `ids` go strictly up.
pub open spec fn strictly_increasing(ids: Seq<u32>) -> bool {
    forall|i: int, j: int| 0 <= i < j < ids.len() ==> ids[i] < ids[j]
}

/// The lock of every object of a registry, kept in the order of the objects'
/// numbers so that a lock is found by bisection.
#[derive(Debug)]
pub struct ObjectSync {
    states: Vec<(ObjectId<()>, SyncState)>,
}

impl ObjectSync {
    #[verifier::type_invariant]
    spec fn well_formed(self) -> bool {
        strictly_increasing(self.ids())
    }

    /// The objects and their locks, in order.
    pub closed spec fn entries(self) -> Seq<(ObjectId<()>, SyncState)> {
        self.states@
    }

    /// The numbers of the objects that have a lock here, in order.
    pub open spec fn ids(self) -> Seq<u32> {
        Seq::new(self.entries().len(), |i: int| self.entries()[i].0@)
    }

    /// Whether the object with this number has a lock here.
    pub open spec fn has(self, id: u32) -> bool {
        exists|i: int| 0 <= i < self.entries().len() && (#[trigger] self.entries()[i]).0@ == id
    }

    /// A table without any lock.
    pub fn new() -> (table: Self)
        ensures
            table.entries().len() == 0,
    {
        Self { states: Vec::new() }
    }

    /// Looks for the lock of `object_id`: `Ok` with its place in the table,
    /// or, where it has none, `Err` with the place at which it would have to
    /// go in.
    pub fn find_index(&self, object_id: ObjectId<()>) -> (found: Result<usize, usize>)
        ensures
            strictly_increasing(self.ids()),
            match found {
                Ok(index) => index < self.entries().len() && self.entries()[index as int].0@
                    == object_id@,
                Err(index) => {
                    &&& !self.has(object_id@)
                    &&& index <= self.entries().len()
                    &&& forall|i: int| 0 <= i < index ==> (#[trigger] self.entries()[i]).0@ < object_id@
                    &&& forall|i: int|
                        index <= i < self.entries().len() ==> (#[trigger] self.entries()[i]).0@
                            > object_id@
                },
            },
    {
        proof {
            use_type_invariant(self);
        }
        let wanted = object_id.index();
        let mut low: usize = 0;
        let mut high: usize = self.states.len();
        while low < high
            invariant
                low <= high <= self.states.len(),
                wanted == object_id@,
                strictly_increasing(self.ids()),
                forall|i: int| 0 <= i < low ==> (#[trigger] self.states@[i]).0@ < wanted,
                forall|i: int| high <= i < self.states.len() ==> (#[trigger] self.states@[i]).0@ > wanted,
            decreases high - low,
        {
            let middle = low + (high - low) / 2;
            let there = self.states[middle].0.index();
            assert(self.ids()[middle as int] == there);
            if there == wanted {
                return Ok(middle);
            } else if there < wanted {
                assert forall|i: int| 0 <= i < middle + 1 implies (#[trigger] self.states@[i]).0@
                    < wanted by {
                    assert(self.ids()[i] <= self.ids()[middle as int]);
                }
                low = middle + 1;
            } else {
                assert forall|i: int| middle <= i < self.states.len() implies (
                #[trigger] self.states@[i]).0@ > wanted by {
                    assert(self.ids()[i] >= self.ids()[middle as int]);
                }
                high = middle;
            }
        }
        Err(low)
    }

    /// Gives the object `object_id`, which has no lock yet, a lock that
    /// nobody holds. The locks of the other objects stay as they are.
    pub fn push_object(&mut self, object_id: ObjectId<()>)
        requires
            !old(self).has(object_id@),
        ensures
            forall|id: u32| final(self).has(id) <==> old(self).has(id) || id == object_id@,
            strictly_increasing(final(self).ids()),
            exists|at: int|
                0 <= at <= old(self).entries().len() && (#[trigger] final(self).entries()[at]).0@
                    == object_id@ && final(self).entries() == old(self).entries().insert(
                    at,
                    final(self).entries()[at],
                ),
    {
        let insert_index = match self.find_index(object_id) {
            Ok(index) => index,
            Err(index) => index,
        };
        let ghost before = self.states@;
        let entry = (object_id, SyncState::new());
        let mut states: Vec<(ObjectId<()>, SyncState)> = Vec::new();
        std::mem::swap(&mut self.states, &mut states);
        states.insert(insert_index, entry);
        proof {
            let after = states@;
            assert(after == before.insert(insert_index as int, entry));
            assert(after[insert_index as int] == entry);
            assert forall|i: int, j: int| 0 <= i < j < after.len() implies after[i].0@
                < after[j].0@ by {
                let bi = if i < insert_index {
                    i
                } else {
                    i - 1
                };
                let bj = if j < insert_index {
                    j
                } else {
                    j - 1
                };
                if i != insert_index {
                    assert(after[i] == before[bi]);
                }
                if j != insert_index {
                    assert(after[j] == before[bj]);
                }
                if i != insert_index && j != insert_index {
                    assert(old(self).ids()[bi] < old(self).ids()[bj]);
                }
            }
            assert forall|id: u32|
                (exists|i: int| 0 <= i < after.len() && (#[trigger] after[i]).0@ == id) <==> old(self).has(id) || id == object_id@ by {
                if old(self).has(id) {
                    let k = choose|k: int| 0 <= k < before.len() && (#[trigger] before[k]).0@ == id;
                    let ak = if k < insert_index {
                        k
                    } else {
                        k + 1
                    };
                    assert(after[ak] == before[k]);
                }
                if exists|i: int| 0 <= i < after.len() && (#[trigger] after[i]).0@ == id {
                    let i = choose|i: int| 0 <= i < after.len() && (#[trigger] after[i]).0@ == id;
                    if i != insert_index {
                        let bi = if i < insert_index {
                            i
                        } else {
                            i - 1
                        };
                        assert(after[i] == before[bi]);
                    }
                }
            }
        }
        self.states = states;
    }

    /// Takes the lock of the object `object_id` out of the table. The locks
    /// of the other objects stay as they are.
    pub fn remove_object(&mut self, object_id: ObjectId<()>)
        requires
            old(self).has(object_id@),
        ensures
            forall|id: u32| final(self).has(id) <==> old(self).has(id) && id != object_id@,
            strictly_increasing(final(self).ids()),
            exists|at: int|
                0 <= at < old(self).entries().len() && (#[trigger] old(self).entries()[at]).0@
                    == object_id@ && final(self).entries() == old(self).entries().remove(at),
    {
        let remove_index = match self.find_index(object_id) {
            Ok(index) => index,
            Err(index) => {
                proof {
                    assert(false);
                }
                index
            },
        };
        let ghost before = self.states@;
        let mut states: Vec<(ObjectId<()>, SyncState)> = Vec::new();
        std::mem::swap(&mut self.states, &mut states);
        states.remove(remove_index);
        proof {
            let after = states@;
            assert(after == before.remove(remove_index as int));
            assert forall|i: int, j: int| 0 <= i < j < after.len() implies after[i].0@
                < after[j].0@ by {
                let bi = if i < remove_index {
                    i
                } else {
                    i + 1
                };
                let bj = if j < remove_index {
                    j
                } else {
                    j + 1
                };
                assert(after[i] == before[bi]);
                assert(after[j] == before[bj]);
                assert(old(self).ids()[bi] < old(self).ids()[bj]);
            }
            assert forall|id: u32|
                (exists|i: int| 0 <= i < after.len() && (#[trigger] after[i]).0@ == id) <==> old(self).has(id) && id != object_id@ by {
                if old(self).has(id) && id != object_id@ {
                    let k = choose|k: int| 0 <= k < before.len() && (#[trigger] before[k]).0@ == id;
                    let ak = if k < remove_index {
                        k
                    } else {
                        k - 1
                    };
                    assert(after[ak] == before[k]);
                }
                if exists|i: int| 0 <= i < after.len() && (#[trigger] after[i]).0@ == id {
                    let i = choose|i: int| 0 <= i < after.len() && (#[trigger] after[i]).0@ == id;
                    let bi = if i < remove_index {
                        i
                    } else {
                        i + 1
                    };
                    assert(after[i] == before[bi]);
                    assert(old(self).ids()[bi] != old(self).ids()[remove_index as int]);
                }
            }
        }
        self.states = states;
    }

    /// The lock of the object `object_id`.
    pub fn state(&self, object_id: ObjectId<()>) -> (state: &SyncState)
        requires
            self.has(object_id@),
        ensures
            exists|at: int|
                0 <= at < self.entries().len() && (#[trigger] self.entries()[at]).0@ == object_id@
                    && self.entries()[at].1 == *state,
    {
        match self.find_index(object_id) {
            Ok(index) => &self.states[index].1,
            Err(index) => {
                proof {
                    assert(false);
                }
                &self.states[index].1
            },
        }
    }

    /// One attempt to enter the object's lock as a reader; `true` means that
    /// the caller holds it and owes a `free_read_access`.
    pub fn try_take_read_access(&self, object_id: ObjectId<()>) -> bool
        requires
            self.has(object_id@),
    {
        self.state(object_id).try_take_read()
    }

    /// Leaves the object's lock as a reader. Only for a caller that has
    /// entered it as one.
    pub fn free_read_access(&self, object_id: ObjectId<()>)
        requires
            self.has(object_id@),
    {
        self.state(object_id).release_read();
    }

    /// One attempt to enter the object's lock as the writer; `true` means
    /// that the caller holds it and owes a `free_write_access`.
    pub fn try_take_write_access(&self, object_id: ObjectId<()>) -> bool
        requires
            self.has(object_id@),
    {
        self.state(object_id).try_take_write()
    }

    /// Leaves the object's lock as the writer. Only for the caller that has
    /// entered it as it.
    pub fn free_write_access(&self, object_id: ObjectId<()>)
        requires
            self.has(object_id@),
    {
        self.state(object_id).release_write();
    }
}

} // verus!
