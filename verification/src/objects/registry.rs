use super::object_id::{ObjectId, ObjectProperties};
use super::sync::ObjectSync;
use vstd::prelude::*;

verus! {

/// An object of a registry together with the number it was given.
#[derive(Debug)]
pub struct Object<T> {
    pub id: u32,
    pub object: T,
}

impl<T> Object<T> {
    /// The handle of the object.
    pub fn id(&self) -> (handle: ObjectId<T>)
        ensures
            handle == ObjectId::<T>::numbered(self.id),
            handle@ == self.id,
    {
        ObjectId::new(self.id)
    }
}

/// Whether the numbers of the objects of `list` go strictly up.
pub open spec fn in_id_order<T>(list: Seq<Object<T>>) -> bool {
    forall|i: int, j: int| 0 <= i < j < list.len() ==> list[i].id < list[j].id
}

/// Whether `list` holds an object with the number `id`.
pub open spec fn holds<T>(list: Seq<Object<T>>, id: u32) -> bool {
    exists|i: int| 0 <= i < list.len() && (#[trigger] list[i]).id == id
}

/// The place in `list` of the object with the number `id`, where there is
/// one.
pub open spec fn position<T>(list: Seq<Object<T>>, id: u32) -> int {
    choose|i: int| 0 <= i < list.len() && (#[trigger] list[i]).id == id
}

/// In a list in the order of the numbers, an object stands where its number
/// is looked up.
pub proof fn lemma_position<T>(list: Seq<Object<T>>, index: int)
    requires
        in_id_order(list),
        0 <= index < list.len(),
    ensures
        position(list, list[index].id) == index,
        holds(list, list[index].id),
{
    let found = position(list, list[index].id);
    assert(0 <= found < list.len() && list[found].id == list[index].id);
    if found < index {
        assert(list[found].id < list[index].id);
    }
    if index < found {
        assert(list[index].id < list[found].id);
    }
}

/// Whether every object of `list` has a number below `bound`.
pub open spec fn ids_below<T>(list: Seq<Object<T>>, bound: u32) -> bool {
    forall|i: int| 0 <= i < list.len() ==> (#[trigger] list[i]).id < bound
}

/// Looks by bisection for the object with the number `id` in a list that is
/// in the order of the numbers.
fn find_object<T>(list: &Vec<Object<T>>, id: u32) -> (found: Option<usize>)
    requires
        in_id_order(list@),
    ensures
        match found {
            Some(index) => index < list.len() && list[index as int].id == id,
            None => !holds(list@, id),
        },
{
    let mut low: usize = 0;
    let mut high: usize = list.len();
    while low < high
        invariant
            low <= high <= list.len(),
            in_id_order(list@),
            forall|i: int| 0 <= i < low ==> (#[trigger] list@[i]).id < id,
            forall|i: int| high <= i < list.len() ==> (#[trigger] list@[i]).id > id,
        decreases high - low,
    {
        let middle = low + (high - low) / 2;
        let there = list[middle].id;
        if there == id {
            return Some(middle);
        } else if there < id {
            low = middle + 1;
        } else {
            high = middle;
        }
    }
    None
}

/// Mutable access to the object at `index` of a list, which keeps its
/// number whatever the caller leaves in it.
fn object_mut<T>(list: &mut Vec<Object<T>>, index: usize) -> (object: &mut T)
    requires
        index < old(list).len(),
    ensures
        *object == old(list)[index as int].object,
        final(list)@ == old(list)@.update(
            index as int,
            Object { id: old(list)[index as int].id, object: *final(object) },
        ),
{
    &mut list[index].object
}

/// Taking the object at `index` out of a list in the order of the numbers
/// leaves a list in that order that holds every other object and no longer
/// the one taken out.
proof fn lemma_remove_keeps_order<T>(list: Seq<Object<T>>, index: int)
    requires
        in_id_order(list),
        0 <= index < list.len(),
    ensures
        in_id_order(list.remove(index)),
        forall|id: u32| holds(list.remove(index), id) <==> holds(list, id) && id != list[index].id,
        forall|bound: u32| ids_below(list, bound) ==> ids_below(list.remove(index), bound),
{
    let rest = list.remove(index);
    assert forall|id: u32| holds(rest, id) <==> holds(list, id) && id != list[index].id by {
        if holds(list, id) && id != list[index].id {
            let k = choose|k: int| 0 <= k < list.len() && (#[trigger] list[k]).id == id;
            let r = if k < index {
                k
            } else {
                k - 1
            };
            assert(rest[r] == list[k]);
        }
        if holds(rest, id) {
            let r = choose|r: int| 0 <= r < rest.len() && (#[trigger] rest[r]).id == id;
            let k = if r < index {
                r
            } else {
                r + 1
            };
            assert(rest[r] == list[k]);
        }
    }
}

/// Putting an object whose number is above all others at the end of a list
/// in the order of the numbers leaves a list in that order that holds what
/// it held and the new object.
proof fn lemma_push_keeps_order<T>(list: Seq<Object<T>>, object: Object<T>)
    requires
        in_id_order(list),
        ids_below(list, object.id),
    ensures
        in_id_order(list.push(object)),
        forall|id: u32| holds(list.push(object), id) <==> holds(list, id) || id == object.id,
        object.id < u32::MAX ==> ids_below(list.push(object), (object.id + 1) as u32),
{
    let more = list.push(object);
    assert forall|id: u32| holds(more, id) <==> holds(list, id) || id == object.id by {
        if holds(list, id) {
            let k = choose|k: int| 0 <= k < list.len() && (#[trigger] list[k]).id == id;
            assert(more[k] == list[k]);
        }
        if id == object.id {
            assert(more[list.len() as int] == object);
        }
        if holds(more, id) {
            let k = choose|k: int| 0 <= k < more.len() && (#[trigger] more[k]).id == id;
            if k < list.len() {
                assert(more[k] == list[k]);
            }
        }
    }
}

/// Whatever replaces the object at `index`, a list keeps its numbers as
/// long as the number at `index` stays.
proof fn lemma_update_keeps_ids<T>(list: Seq<Object<T>>, index: int, object: T)
    requires
        0 <= index < list.len(),
    ensures
        ({
            let changed = list.update(index, Object { id: list[index].id, object });
            &&& in_id_order(list) ==> in_id_order(changed)
            &&& forall|bound: u32| ids_below(list, bound) ==> ids_below(changed, bound)
            &&& forall|id: u32| holds(changed, id) <==> holds(list, id)
        }),
{
    let changed = list.update(index, Object { id: list[index].id, object });
    assert forall|i: int| 0 <= i < list.len() implies (#[trigger] changed[i]).id == list[i].id by {}
    if in_id_order(list) {
        assert forall|i: int, j: int| 0 <= i < j < changed.len() implies changed[i].id
            < changed[j].id by {
            assert(changed[i].id == list[i].id);
            assert(changed[j].id == list[j].id);
        }
    }
    assert forall|id: u32| holds(changed, id) <==> holds(list, id) by {
        if holds(changed, id) {
            let k = choose|k: int| 0 <= k < changed.len() && (#[trigger] changed[k]).id == id;
            assert(list[k].id == id);
        }
        if holds(list, id) {
            let k = choose|k: int| 0 <= k < list.len() && (#[trigger] list[k]).id == id;
            assert(changed[k].id == id);
        }
    }
    assert forall|bound: u32| ids_below(list, bound) implies ids_below(changed, bound) by {
        assert forall|i: int| 0 <= i < changed.len() implies (#[trigger] changed[i]).id
            < bound by {
            assert(list[i].id < bound);
        }
    }
}

/// Whether `after` is what a list of a registry is after the object with
/// the number `id` was added to `before` (`change` is 1), was taken out of it
/// (-1), or nothing came or went (0): it is in the order of the numbers, it
/// holds the numbers that this leaves, and it stays below every bound that
/// held before and holds of `id` where `id` came.
spec fn list_follows<T>(
    before: Seq<Object<T>>,
    after: Seq<Object<T>>,
    id: u32,
    change: int,
) -> bool {
    &&& in_id_order(after)
    &&& forall|i: u32| #[trigger]
        holds(after, i) <==> (holds(before, i) || (change == 1 && i == id)) && !(change == -1 && i
            == id)
    &&& forall|bound: u32|
        ids_below(before, bound) && (change == 1 ==> id < bound) ==> #[trigger] ids_below(
            after,
            bound,
        )
}

/// Puts an object whose number is above all others at the end of a list.
fn push_last<T>(list: &mut Vec<Object<T>>, object: Object<T>)
    requires
        in_id_order(old(list)@),
        ids_below(old(list)@, object.id),
    ensures
        final(list)@ == old(list)@.push(object),
        list_follows(old(list)@, final(list)@, object.id, 1),
{
    proof {
        lemma_push_keeps_order(list@, object);
        let more = list@.push(object);
        assert forall|bound: u32| ids_below(list@, bound) && object.id < bound implies ids_below(
            more,
            bound,
        ) by {
            assert forall|i: int| 0 <= i < more.len() implies (#[trigger] more[i]).id < bound by {
                if i < list@.len() {
                    assert(more[i] == list@[i]);
                }
            }
        }
    }
    list.push(object);
}

/// Takes the object with the number `id` out of a list that holds it.
fn take_out<T>(list: &mut Vec<Object<T>>, id: u32) -> (removed: T)
    requires
        in_id_order(old(list)@),
        holds(old(list)@, id),
    ensures
        exists|index: int|
            0 <= index < old(list)@.len() && (#[trigger] old(list)@[index]) == (Object {
                id,
                object: removed,
            }) && final(list)@ == old(list)@.remove(index),
        list_follows(old(list)@, final(list)@, id, -1),
{
    let index = match find_object(list, id) {
        Some(index) => index,
        None => {
            proof {
                assert(false);
            }
            0
        },
    };
    proof {
        lemma_remove_keeps_order(list@, index as int);
    }
    let object = list.remove(index);
    assert(old(list)@[index as int] == object);
    object.object
}

/// The object with the number `id` in a list, if the list holds one.
fn look_up<T>(list: &Vec<Object<T>>, id: u32) -> (found: Option<&Object<T>>)
    requires
        in_id_order(list@),
    ensures
        match found {
            Some(object) => object.id == id && exists|index: int|
                0 <= index < list@.len() && #[trigger] list@[index] == *object,
            None => !holds(list@, id),
        },
{
    match find_object(list, id) {
        Some(index) => Some(&list[index]),
        None => None,
    }
}

/// Mutable access to the object with the number `id` in a list, if the list
/// holds one. The object keeps its number and its place whatever the caller
/// leaves in it.
fn look_up_mut<T>(list: &mut Vec<Object<T>>, id: u32) -> (found: Option<&mut T>)
    requires
        in_id_order(old(list)@),
    ensures
        list_follows(old(list)@, final(list)@, id, 0),
        match found {
            Some(object) => exists|index: int|
                0 <= index < old(list)@.len() && (#[trigger] old(list)@[index]).id == id
                    && *object == old(list)@[index].object && final(list)@ == old(list)@.update(
                    index,
                    Object { id, object: *final(object) },
                ),
            None => !holds(old(list)@, id) && final(list)@ == old(list)@,
        },
{
    match find_object(list, id) {
        Some(index) => {
            let object = object_mut(list, index);
            proof {
                lemma_update_keeps_ids(old(list)@, index as int, *final(object));
            }
            Some(object)
        },
        None => None,
    }
}

/// The objects of a world: the fixed effectors on its environment, the
/// buildings and the characters, each kind in a list of its own in the order
/// of the objects' numbers, and one lock for every object.
///
/// A number is given to one object and never again, whatever its kind.
#[derive(Debug)]
pub struct Objects<E, B, C> {
    next_object_id: u32,
    object_sync: ObjectSync,
    // These object arrays must be in order of object ID
    environment_objects: Vec<Object<E>>,
    buildings: Vec<Object<B>>,
    characters: Vec<Object<C>>,
}

impl<E, B, C> Objects<E, B, C> {
    /// The number that the next object will be given.
    pub closed spec fn next_id(self) -> u32 {
        self.next_object_id
    }

    /// The effectors on the environment, in the order of their numbers.
    pub closed spec fn environment_objects(self) -> Seq<Object<E>> {
        self.environment_objects@
    }

    /// The buildings, in the order of their numbers.
    pub closed spec fn buildings(self) -> Seq<Object<B>> {
        self.buildings@
    }

    /// The characters, in the order of their numbers.
    pub closed spec fn characters(self) -> Seq<Object<C>> {
        self.characters@
    }

    /// The locks of the objects.
    pub closed spec fn locks(self) -> ObjectSync {
        self.object_sync
    }

    /// Whether an object of any kind has the number `id`.
    pub open spec fn has(self, id: u32) -> bool {
        holds(self.environment_objects(), id) || holds(self.buildings(), id) || holds(
            self.characters(),
            id,
        )
    }

    /// Whether no number stands in two of the lists.
    pub open spec fn kinds_apart(self) -> bool {
        forall|id: u32|
            #![trigger holds(self.environment_objects(), id)]
            #![trigger holds(self.buildings(), id)]
            #![trigger holds(self.characters(), id)]
            !(holds(self.environment_objects(), id) && holds(self.buildings(), id)) && !(holds(
                self.environment_objects(),
                id,
            ) && holds(self.characters(), id)) && !(holds(self.buildings(), id) && holds(
                self.characters(),
                id,
            ))
    }

    /// Whether exactly the objects of the lists have a lock.
    pub open spec fn all_locked(self) -> bool {
        forall|id: u32| #[trigger] self.locks().has(id) <==> self.has(id)
    }

    /// What every registry keeps: each list is in the order of the numbers,
    /// every number given out is below the next one, no number stands in two
    /// lists, and exactly the objects of the lists have a lock.
    pub open spec fn consistent(self) -> bool {
        &&& in_id_order(self.environment_objects())
        &&& in_id_order(self.buildings())
        &&& in_id_order(self.characters())
        &&& ids_below(self.environment_objects(), self.next_id())
        &&& ids_below(self.buildings(), self.next_id())
        &&& ids_below(self.characters(), self.next_id())
        &&& self.kinds_apart()
        &&& self.all_locked()
    }
}

/// The number that comes next is the number of no object and of no lock.
proof fn lemma_next_number_is_free<E, B, C>(objects: Objects<E, B, C>)
    requires
        objects.consistent(),
    ensures
        !objects.has(objects.next_id()),
        !objects.locks().has(objects.next_id()),
{
    let id = objects.next_id();
    assert(objects.locks().has(id) <==> objects.has(id));
}

/// The lists of a registry after a change to the list of one kind: the
/// effectors (`kind` is 0), the buildings (1) or the characters (2). The
/// other two lists are as they were.
spec fn one_list_follows<E, B, C>(
    before: Objects<E, B, C>,
    after: Objects<E, B, C>,
    kind: int,
    id: u32,
    change: int,
) -> bool {
    &&& if kind == 0 {
        list_follows(before.environment_objects(), after.environment_objects(), id, change)
    } else {
        after.environment_objects() == before.environment_objects()
    }
    &&& if kind == 1 {
        list_follows(before.buildings(), after.buildings(), id, change)
    } else {
        after.buildings() == before.buildings()
    }
    &&& if kind == 2 {
        list_follows(before.characters(), after.characters(), id, change)
    } else {
        after.characters() == before.characters()
    }
}

/// A registry stays consistent when an object gets the next number and a
/// lock (`change` is 1), when an object leaves with its lock (-1), and when
/// objects are only rewritten (0).
proof fn lemma_stays_consistent<E, B, C>(
    before: Objects<E, B, C>,
    after: Objects<E, B, C>,
    kind: int,
    id: u32,
    change: int,
)
    requires
        before.consistent(),
        0 <= kind <= 2,
        -1 <= change <= 1,
        one_list_follows(before, after, kind, id, change),
        change == 1 ==> id == before.next_id() && after.next_id() == id + 1,
        change != 1 ==> after.next_id() == before.next_id(),
        change == -1 ==> before.has(id) && (kind == 0 ==> holds(before.environment_objects(), id))
            && (kind == 1 ==> holds(before.buildings(), id)) && (kind == 2 ==> holds(
            before.characters(),
            id,
        )),
        forall|i: u32| #[trigger]
            after.locks().has(i) <==> (before.locks().has(i) || (change == 1 && i == id))
                && !(change == -1 && i == id),
    ensures
        after.consistent(),
{
    lemma_next_number_is_free(before);
    assert forall|i: u32| #[trigger] after.locks().has(i) <==> after.has(i) by {
        assert(before.locks().has(i) <==> before.has(i));
    }
}

/// Whatever is left in an object of one kind, a registry in which nothing
/// else changes stays consistent.
proof fn lemma_rewriting_stays_consistent<E, B, C>(before: Objects<E, B, C>, kind: int, id: u32)
    requires
        before.consistent(),
        0 <= kind <= 2,
    ensures
        forall|after: Objects<E, B, C>|
            one_list_follows(before, after, kind, id, 0) && after.next_id() == before.next_id()
                && after.locks() == before.locks() ==> #[trigger] after.consistent(),
{
    assert forall|after: Objects<E, B, C>|
        one_list_follows(before, after, kind, id, 0) && after.next_id() == before.next_id()
            && after.locks() == before.locks() implies #[trigger] after.consistent() by {
        lemma_stays_consistent(before, after, kind, id, 0);
    }
}

impl<E: ObjectProperties, B: ObjectProperties, C: ObjectProperties> Objects<E, B, C> {
    /// A registry without objects, whose first object will get the number 0.
    pub fn new() -> (objects: Self)
        ensures
            objects.consistent(),
            objects.next_id() == 0,
            objects.environment_objects().len() == 0,
            objects.buildings().len() == 0,
            objects.characters().len() == 0,
    {
        Self {
            next_object_id: 0,
            object_sync: ObjectSync::new(),
            environment_objects: Vec::new(),
            buildings: Vec::new(),
            characters: Vec::new(),
        }
    }

    /// The locks of the objects.
    pub fn object_sync(&self) -> (locks: &ObjectSync)
        ensures
            *locks == self.locks(),
    {
        &self.object_sync
    }

    /// All effectors on the environment, in the order of their numbers.
    pub fn get_environment_objects(&self) -> (list: &Vec<Object<E>>)
        ensures
            list@ == self.environment_objects(),
    {
        &self.environment_objects
    }

    /// Adds an effector on the environment under the next free number and gives it a lock
    /// that nobody holds.
    pub fn push_environment_object(&mut self, object: E) -> (handle: ObjectId<E>)
        requires
            old(self).consistent(),
            old(self).next_id() < u32::MAX,
        ensures
            final(self).consistent(),
            handle@ == old(self).next_id(),
            final(self).next_id() == old(self).next_id() + 1,
            final(self).environment_objects() == old(self).environment_objects().push(Object { id: handle@, object }),
            final(self).buildings() == old(self).buildings(),
            final(self).characters() == old(self).characters(),
    {
        proof {
            lemma_next_number_is_free(*self);
        }
        let new_object_id = self.next_object_id;
        self.next_object_id = new_object_id + 1;

        let object = Object { id: new_object_id, object };
        let object_id = object.id();
        push_last(&mut self.environment_objects, object);

        self.object_sync.push_object(object_id.cast());
        proof {
            lemma_stays_consistent(*old(self), *self, 0, new_object_id, 1);
        }
        object_id
    }

    /// Takes the effector on the environment with the handle `id` out of the registry, and its
    /// lock with it. The number is not given to another object.
    pub fn remove_environment_object(&mut self, id: ObjectId<E>) -> (removed: E)
        requires
            old(self).consistent(),
            holds(old(self).environment_objects(), id@),
        ensures
            final(self).consistent(),
            final(self).next_id() == old(self).next_id(),
            exists|index: int|
                0 <= index < old(self).environment_objects().len() && (#[trigger] old(self).environment_objects()[index])
                    == (Object { id: id@, object: removed }) && final(self).environment_objects() == old(self).environment_objects().remove(index),
            final(self).buildings() == old(self).buildings(),
            final(self).characters() == old(self).characters(),
    {
        proof {
            assert(self.locks().has(id@) <==> self.has(id@));
        }
        let removed = take_out(&mut self.environment_objects, id.index());

        self.object_sync.remove_object(id.cast());
        proof {
            lemma_stays_consistent(*old(self), *self, 0, id@, -1);
        }
        removed
    }

    /// The effector on the environment with the handle `id`, if there is one.
    pub fn get_environment_object(&self, id: ObjectId<E>) -> (found: Option<&Object<E>>)
        requires
            self.consistent(),
        ensures
            match found {
                Some(object) => object.id == id@ && exists|index: int|
                    0 <= index < self.environment_objects().len() && #[trigger] self.environment_objects()[index]
                        == *object,
                None => !holds(self.environment_objects(), id@),
            },
    {
        look_up(&self.environment_objects, id.index())
    }

    /// Mutable access to the effector on the environment with the handle `id`, if there is one.
    /// Whatever the caller leaves in it is that effector on the environment from then on; nothing
    /// else changes.
    pub fn get_environment_object_mut(&mut self, id: ObjectId<E>) -> (found: Option<&mut E>)
        requires
            old(self).consistent(),
        ensures
            final(self).consistent(),
            final(self).next_id() == old(self).next_id(),
            final(self).locks() == old(self).locks(),
            final(self).buildings() == old(self).buildings(),
            final(self).characters() == old(self).characters(),
            match found {
                Some(object) => exists|index: int|
                    0 <= index < old(self).environment_objects().len() && (#[trigger] old(self).environment_objects()[index]).id
                        == id@ && *object == old(self).environment_objects()[index].object && final(self).environment_objects() == old(self).environment_objects().update(
                        index,
                        Object { id: id@, object: *final(object) },
                    ),
                None => !holds(old(self).environment_objects(), id@) && final(self).environment_objects() == old(self).environment_objects(),
            },
    {
        proof {
            lemma_rewriting_stays_consistent(*self, 0, id@);
        }
        look_up_mut(&mut self.environment_objects, id.index())
    }

    /// All buildings, in the order of their numbers.
    pub fn get_buildings(&self) -> (list: &Vec<Object<B>>)
        ensures
            list@ == self.buildings(),
    {
        &self.buildings
    }

    /// Adds a building under the next free number and gives it a lock
    /// that nobody holds.
    pub fn push_building(&mut self, object: B) -> (handle: ObjectId<B>)
        requires
            old(self).consistent(),
            old(self).next_id() < u32::MAX,
        ensures
            final(self).consistent(),
            handle@ == old(self).next_id(),
            final(self).next_id() == old(self).next_id() + 1,
            final(self).buildings() == old(self).buildings().push(Object { id: handle@, object }),
            final(self).environment_objects() == old(self).environment_objects(),
            final(self).characters() == old(self).characters(),
    {
        proof {
            lemma_next_number_is_free(*self);
        }
        let new_object_id = self.next_object_id;
        self.next_object_id = new_object_id + 1;

        let object = Object { id: new_object_id, object };
        let object_id = object.id();
        push_last(&mut self.buildings, object);

        self.object_sync.push_object(object_id.cast());
        proof {
            lemma_stays_consistent(*old(self), *self, 1, new_object_id, 1);
        }
        object_id
    }

    /// Takes the building with the handle `id` out of the registry, and its
    /// lock with it. The number is not given to another object.
    pub fn remove_building(&mut self, id: ObjectId<B>) -> (removed: B)
        requires
            old(self).consistent(),
            holds(old(self).buildings(), id@),
        ensures
            final(self).consistent(),
            final(self).next_id() == old(self).next_id(),
            exists|index: int|
                0 <= index < old(self).buildings().len() && (#[trigger] old(self).buildings()[index])
                    == (Object { id: id@, object: removed }) && final(self).buildings() == old(self).buildings().remove(index),
            final(self).environment_objects() == old(self).environment_objects(),
            final(self).characters() == old(self).characters(),
    {
        proof {
            assert(self.locks().has(id@) <==> self.has(id@));
        }
        let removed = take_out(&mut self.buildings, id.index());

        self.object_sync.remove_object(id.cast());
        proof {
            lemma_stays_consistent(*old(self), *self, 1, id@, -1);
        }
        removed
    }

    /// The building with the handle `id`, if there is one.
    pub fn get_building(&self, id: ObjectId<B>) -> (found: Option<&Object<B>>)
        requires
            self.consistent(),
        ensures
            match found {
                Some(object) => object.id == id@ && exists|index: int|
                    0 <= index < self.buildings().len() && #[trigger] self.buildings()[index]
                        == *object,
                None => !holds(self.buildings(), id@),
            },
    {
        look_up(&self.buildings, id.index())
    }

    /// Mutable access to the building with the handle `id`, if there is one.
    /// Whatever the caller leaves in it is that building from then on; nothing
    /// else changes.
    pub fn get_building_mut(&mut self, id: ObjectId<B>) -> (found: Option<&mut B>)
        requires
            old(self).consistent(),
        ensures
            final(self).consistent(),
            final(self).next_id() == old(self).next_id(),
            final(self).locks() == old(self).locks(),
            final(self).environment_objects() == old(self).environment_objects(),
            final(self).characters() == old(self).characters(),
            match found {
                Some(object) => exists|index: int|
                    0 <= index < old(self).buildings().len() && (#[trigger] old(self).buildings()[index]).id
                        == id@ && *object == old(self).buildings()[index].object && final(self).buildings() == old(self).buildings().update(
                        index,
                        Object { id: id@, object: *final(object) },
                    ),
                None => !holds(old(self).buildings(), id@) && final(self).buildings() == old(self).buildings(),
            },
    {
        proof {
            lemma_rewriting_stays_consistent(*self, 1, id@);
        }
        look_up_mut(&mut self.buildings, id.index())
    }

    /// All characters, in the order of their numbers.
    pub fn get_characters(&self) -> (list: &Vec<Object<C>>)
        ensures
            list@ == self.characters(),
    {
        &self.characters
    }

    /// Adds a character under the next free number and gives it a lock
    /// that nobody holds.
    pub fn push_character(&mut self, object: C) -> (handle: ObjectId<C>)
        requires
            old(self).consistent(),
            old(self).next_id() < u32::MAX,
        ensures
            final(self).consistent(),
            handle@ == old(self).next_id(),
            final(self).next_id() == old(self).next_id() + 1,
            final(self).characters() == old(self).characters().push(Object { id: handle@, object }),
            final(self).environment_objects() == old(self).environment_objects(),
            final(self).buildings() == old(self).buildings(),
    {
        proof {
            lemma_next_number_is_free(*self);
        }
        let new_object_id = self.next_object_id;
        self.next_object_id = new_object_id + 1;

        let object = Object { id: new_object_id, object };
        let object_id = object.id();
        push_last(&mut self.characters, object);

        self.object_sync.push_object(object_id.cast());
        proof {
            lemma_stays_consistent(*old(self), *self, 2, new_object_id, 1);
        }
        object_id
    }

    /// Takes the character with the handle `id` out of the registry, and its
    /// lock with it. The number is not given to another object.
    pub fn remove_character(&mut self, id: ObjectId<C>) -> (removed: C)
        requires
            old(self).consistent(),
            holds(old(self).characters(), id@),
        ensures
            final(self).consistent(),
            final(self).next_id() == old(self).next_id(),
            exists|index: int|
                0 <= index < old(self).characters().len() && (#[trigger] old(self).characters()[index])
                    == (Object { id: id@, object: removed }) && final(self).characters() == old(self).characters().remove(index),
            final(self).environment_objects() == old(self).environment_objects(),
            final(self).buildings() == old(self).buildings(),
    {
        proof {
            assert(self.locks().has(id@) <==> self.has(id@));
        }
        let removed = take_out(&mut self.characters, id.index());

        self.object_sync.remove_object(id.cast());
        proof {
            lemma_stays_consistent(*old(self), *self, 2, id@, -1);
        }
        removed
    }

    /// The character with the handle `id`, if there is one.
    pub fn get_character(&self, id: ObjectId<C>) -> (found: Option<&Object<C>>)
        requires
            self.consistent(),
        ensures
            match found {
                Some(object) => object.id == id@ && exists|index: int|
                    0 <= index < self.characters().len() && #[trigger] self.characters()[index]
                        == *object,
                None => !holds(self.characters(), id@),
            },
    {
        look_up(&self.characters, id.index())
    }

    /// Mutable access to the character with the handle `id`, if there is one.
    /// Whatever the caller leaves in it is that character from then on; nothing
    /// else changes.
    pub fn get_character_mut(&mut self, id: ObjectId<C>) -> (found: Option<&mut C>)
        requires
            old(self).consistent(),
        ensures
            final(self).consistent(),
            final(self).next_id() == old(self).next_id(),
            final(self).locks() == old(self).locks(),
            final(self).environment_objects() == old(self).environment_objects(),
            final(self).buildings() == old(self).buildings(),
            match found {
                Some(object) => exists|index: int|
                    0 <= index < old(self).characters().len() && (#[trigger] old(self).characters()[index]).id
                        == id@ && *object == old(self).characters()[index].object && final(self).characters() == old(self).characters().update(
                        index,
                        Object { id: id@, object: *final(object) },
                    ),
                None => !holds(old(self).characters(), id@) && final(self).characters() == old(self).characters(),
            },
    {
        proof {
            lemma_rewriting_stays_consistent(*self, 2, id@);
        }
        look_up_mut(&mut self.characters, id.index())
    }
}

} // verus!
