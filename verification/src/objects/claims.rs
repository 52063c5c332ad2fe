use super::building::{lemma_with_occupation, Building, WorkSpotOccupation};
use super::characters::{
    spot_answer, with_spot_occupied, with_spot_released, AiChange, AiOutcome, Character,
    CharacterTask, Crew,
};
use super::object_id::ObjectId;
use super::registry::{holds, in_id_order, lemma_position, position, Object};
use vstd::prelude::*;

verus! {

/// Whether the task `task` is work at the workspot `index` of the building
/// with the number `building`.
pub open spec fn works_at<Q>(task: CharacterTask<Q>, building: u32, index: int) -> bool {
    match task {
        CharacterTask::WorkAtSpot { building: at, workspot_index } => at@ == building
            && workspot_index == index,
        _ => false,
    }
}

/// Whether the workspot `index` of the building at the place `at` is open,
/// or else held by a character that is there and has work at this very
/// workspot as its task.
pub open spec fn claim_backed<Q>(crew: Crew<Q>, at: int, index: int) -> bool {
    match crew.buildings[at].object.occupation(index).holder() {
        Some(holder) => holds(crew.characters, holder) && works_at(
            crew.characters[position(crew.characters, holder)].object.current_task,
            crew.buildings[at].id,
            index,
        ),
        None => true,
    }
}

/// Whether no workspot is held without a character whose task it is to work
/// there.
pub open spec fn claims_backed<Q>(crew: Crew<Q>) -> bool {
    forall|at: int, index: int|
        0 <= at < crew.buildings.len() && 0 <= index
            < crew.buildings[at].object.workspot_total() ==> #[trigger] claim_backed(
            crew,
            at,
            index,
        )
}

/// Whether both lists of the crew are in the order of the numbers.
pub open spec fn crew_in_order<Q>(crew: Crew<Q>) -> bool {
    in_id_order(crew.buildings) && in_id_order(crew.characters)
}

/// What opening the workspot of a task does to the buildings: the list keeps
/// its length and its numbers, and every workspot its occupation, but for
/// the workspot of the task, which is open afterwards.
pub proof fn lemma_released<Q>(buildings: Seq<Object<Building<Q>>>, task: CharacterTask<Q>)
    requires
        in_id_order(buildings),
    ensures
        ({
            let released = with_spot_released(buildings, task);
            &&& released.len() == buildings.len()
            &&& in_id_order(released)
            &&& forall|id: u32| holds(released, id) <==> holds(buildings, id)
            &&& forall|at: int|
                0 <= at < buildings.len() ==> (#[trigger] released[at]).id == buildings[at].id
                    && released[at].object.workspot_total()
                    == buildings[at].object.workspot_total()
            &&& forall|at: int, index: int|
                0 <= at < buildings.len() && 0 <= index < buildings[at].object.workspot_total()
                    ==> #[trigger] released[at].object.occupation(index) == if works_at(
                    task,
                    buildings[at].id,
                    index,
                ) {
                    WorkSpotOccupation::Open
                } else {
                    buildings[at].object.occupation(index)
                }
        }),
{
    let released = with_spot_released(buildings, task);
    match task {
        CharacterTask::WorkAtSpot { building, workspot_index } => {
            let spot = position(buildings, building@);
            if holds(buildings, building@) && workspot_index
                < buildings[spot].object.workspot_total() {
                lemma_position(buildings, spot);
                assert forall|id: u32| holds(released, id) <==> holds(buildings, id) by {
                    if holds(released, id) {
                        let k = choose|k: int|
                            0 <= k < released.len() && (#[trigger] released[k]).id == id;
                        assert(buildings[k].id == id);
                    }
                    if holds(buildings, id) {
                        let k = choose|k: int|
                            0 <= k < buildings.len() && (#[trigger] buildings[k]).id == id;
                        assert(released[k].id == id);
                    }
                }
                assert forall|at: int, index: int|
                    0 <= at < buildings.len() && 0 <= index
                        < buildings[at].object.workspot_total() implies #[trigger] released[at].object.occupation(
                    index,
                ) == if works_at(task, buildings[at].id, index) {
                    WorkSpotOccupation::Open
                } else {
                    buildings[at].object.occupation(index)
                } by {
                    if at == spot {
                        lemma_with_occupation(buildings[spot].object, workspot_index as int, WorkSpotOccupation::Open);
                    } else {
                        lemma_position(buildings, at);
                    }
                }
                assert forall|at: int| 0 <= at < buildings.len() implies (
                #[trigger] released[at]).id == buildings[at].id
                    && released[at].object.workspot_total()
                    == buildings[at].object.workspot_total() by {
                    if at == spot {
                        lemma_with_occupation(buildings[spot].object, workspot_index as int, WorkSpotOccupation::Open);
                    }
                }
            } else {
                assert forall|at: int, index: int|
                    0 <= at < buildings.len() && 0 <= index
                        < buildings[at].object.workspot_total() implies !works_at(
                    task,
                    buildings[at].id,
                    index,
                ) by {
                    if works_at(task, buildings[at].id, index) {
                        lemma_position(buildings, at);
                    }
                }
            }
        },
        _ => {},
    }
}

/// What giving the workspot of a task an occupation does to the buildings:
/// the list keeps its length and its numbers, and every workspot its
/// occupation, but for the workspot of the task. A character that is refused
/// the workspot it came to work at does not hold it.
pub proof fn lemma_occupied<Q>(
    buildings: Seq<Object<Building<Q>>>,
    task: CharacterTask<Q>,
    holder: ObjectId<Character<Q>>,
    to_work: bool,
)
    requires
        in_id_order(buildings),
    ensures
        ({
            let answer = spot_answer(buildings, task, holder, to_work);
            let occupied = with_spot_occupied(buildings, task, answer.1);
            &&& occupied.len() == buildings.len()
            &&& answer.1 is Some ==> answer.0 == AiOutcome::Settled && answer.1->0.holder() == Some(
                holder@,
            )
            &&& forall|at: int|
                0 <= at < buildings.len() ==> (#[trigger] occupied[at]).id == buildings[at].id
                    && occupied[at].object.workspot_total()
                    == buildings[at].object.workspot_total()
            &&& forall|at: int, index: int|
                0 <= at < buildings.len() && 0 <= index < buildings[at].object.workspot_total()
                    ==> #[trigger] occupied[at].object.occupation(index) == if answer.1 is Some
                    && works_at(task, buildings[at].id, index) {
                    answer.1->0
                } else {
                    buildings[at].object.occupation(index)
                }
            &&& to_work && answer.0 != AiOutcome::Settled ==> forall|at: int, index: int|
                0 <= at < buildings.len() && 0 <= index < buildings[at].object.workspot_total()
                    && works_at(task, buildings[at].id, index) ==> (
                #[trigger] buildings[at].object.occupation(index)).holder() != Some(holder@)
        }),
{
    let answer = spot_answer(buildings, task, holder, to_work);
    let occupied = with_spot_occupied(buildings, task, answer.1);
    match task {
        CharacterTask::WorkAtSpot { building, workspot_index } => {
            let spot = position(buildings, building@);
            assert forall|at: int, index: int|
                0 <= at < buildings.len() && 0 <= index < buildings[at].object.workspot_total()
                    && works_at(task, buildings[at].id, index) implies at == spot && holds(
                buildings,
                building@,
            ) by {
                lemma_position(buildings, at);
            }
            if answer.1 is Some {
                lemma_position(buildings, spot);
                assert forall|at: int, index: int|
                    0 <= at < buildings.len() && 0 <= index
                        < buildings[at].object.workspot_total() implies #[trigger] occupied[at].object.occupation(
                    index,
                ) == if works_at(task, buildings[at].id, index) {
                    answer.1->0
                } else {
                    buildings[at].object.occupation(index)
                } by {
                    if at == spot {
                        lemma_with_occupation(buildings[spot].object, workspot_index as int, answer.1->0);
                    } else {
                        lemma_position(buildings, at);
                    }
                }
                assert forall|at: int| 0 <= at < buildings.len() implies (
                #[trigger] occupied[at]).id == buildings[at].id
                    && occupied[at].object.workspot_total()
                    == buildings[at].object.workspot_total() by {
                    if at == spot {
                        lemma_with_occupation(buildings[spot].object, workspot_index as int, answer.1->0);
                    }
                }
            }
        },
        _ => {},
    }
}

/// Replacing one character leaves every other character where and what it
/// was.
pub proof fn lemma_with_character<Q>(crew: Crew<Q>, character: u32, with: Character<Q>, other: u32)
    requires
        in_id_order(crew.characters),
        holds(crew.characters, character),
    ensures
        ({
            let after = crew.with_character(character, with);
            &&& in_id_order(after.characters)
            &&& after.buildings == crew.buildings
            &&& holds(after.characters, other) <==> holds(crew.characters, other)
            &&& holds(crew.characters, other) ==> after.characters[position(
                after.characters,
                other,
            )].object == if other == character {
                with
            } else {
                crew.characters[position(crew.characters, other)].object
            }
        }),
{
    let after = crew.with_character(character, with);
    let place = position(crew.characters, character);
    assert forall|i: int| 0 <= i < crew.characters.len() implies (#[trigger] after.characters[i]).id
        == crew.characters[i].id by {}
    assert(in_id_order(after.characters)) by {
        assert forall|i: int, j: int| 0 <= i < j < after.characters.len() implies after.characters[i].id
            < after.characters[j].id by {
            assert(after.characters[i].id == crew.characters[i].id);
            assert(after.characters[j].id == crew.characters[j].id);
        }
    }
    if holds(crew.characters, other) {
        let k = position(crew.characters, other);
        assert(after.characters[k].id == other);
        lemma_position(after.characters, k);
        lemma_position(crew.characters, k);
        lemma_position(crew.characters, place);
    }
    if holds(after.characters, other) {
        let k = choose|k: int| 0 <= k < after.characters.len() && (#[trigger] after.characters[k]).id
            == other;
        assert(crew.characters[k].id == other);
    }
}

/// Carrying out a decision never leaves a workspot held by a character
/// whose task is elsewhere: if every held workspot was backed by its
/// holder's task before, every one is afterwards, whatever came of the
/// decision.
pub proof fn lemma_change_keeps_claims_backed<Q>(crew: Crew<Q>, change: AiChange<Q>)
    requires
        crew_in_order(crew),
        claims_backed(crew),
    ensures
        crew_in_order(crew.changed(change).0),
        claims_backed(crew.changed(change).0),
{
    let id = change.character_id;
    if holds(crew.characters, id@) {
        let character = crew.characters[position(crew.characters, id@)].object;
        let released = with_spot_released(crew.buildings, character.current_task);
        let answer = spot_answer(released, change.new_task, id, false);
        let occupied = with_spot_occupied(released, change.new_task, answer.1);
        let settled = Crew { buildings: occupied, ..crew };
        let with = if answer.0 == AiOutcome::Settled {
            character.assigned(change.new_goal, change.new_task, change.new_path)
        } else {
            character.idled()
        };
        let after = settled.with_character(id@, with);
        assert(after == crew.changed(change).0);
        lemma_released(crew.buildings, character.current_task);
        lemma_occupied(released, change.new_task, id, false);
        assert(in_id_order(occupied)) by {
            assert forall|i: int, j: int| 0 <= i < j < occupied.len() implies occupied[i].id
                < occupied[j].id by {
                assert(occupied[i].id == released[i].id);
                assert(occupied[j].id == released[j].id);
            }
        }
        assert forall|at: int, index: int|
            0 <= at < after.buildings.len() && 0 <= index
                < after.buildings[at].object.workspot_total() implies #[trigger] claim_backed(
            after,
            at,
            index,
        ) by {
            assert(claim_backed(crew, at, index));
            assert(occupied[at].id == released[at].id);
            assert(released[at].id == crew.buildings[at].id);
            let now = occupied[at].object.occupation(index);
            let between = released[at].object.occupation(index);
            match now.holder() {
                Some(holder) => {
                    lemma_with_character(settled, id@, with, holder);
                    if answer.1 is Some && works_at(change.new_task, released[at].id, index) {
                    } else {
                        assert(now == between);
                        assert(!works_at(character.current_task, crew.buildings[at].id, index));
                        assert(between == crew.buildings[at].object.occupation(index));
                    }
                },
                None => {},
            }
        }
        lemma_with_character(settled, id@, with, id@);
    }
}

/// An arrival never leaves a workspot held by a character whose task is
/// elsewhere: if every held workspot was backed by its holder's task before,
/// every one is afterwards, whatever came of the arrival.
pub proof fn lemma_arrival_keeps_claims_backed<Q>(crew: Crew<Q>, character: ObjectId<Character<Q>>)
    requires
        crew_in_order(crew),
        claims_backed(crew),
    ensures
        crew_in_order(crew.arrived(character).0),
        claims_backed(crew.arrived(character).0),
{
    if holds(crew.characters, character@) {
        let walker = crew.characters[position(crew.characters, character@)].object;
        let answer = spot_answer(crew.buildings, walker.current_task, character, true);
        let occupied = with_spot_occupied(crew.buildings, walker.current_task, answer.1);
        let settled = Crew { buildings: occupied, ..crew };
        let after = crew.arrived(character).0;
        lemma_occupied(crew.buildings, walker.current_task, character, true);
        assert(in_id_order(occupied)) by {
            assert forall|i: int, j: int| 0 <= i < j < occupied.len() implies occupied[i].id
                < occupied[j].id by {
                assert(occupied[i].id == crew.buildings[i].id);
                assert(occupied[j].id == crew.buildings[j].id);
            }
        }
        lemma_with_character(settled, character@, walker.stopped(), character@);
        assert forall|at: int, index: int|
            0 <= at < after.buildings.len() && 0 <= index
                < after.buildings[at].object.workspot_total() implies #[trigger] claim_backed(
            after,
            at,
            index,
        ) by {
            assert(claim_backed(crew, at, index));
            assert(occupied[at].id == crew.buildings[at].id);
            let now = occupied[at].object.occupation(index);
            match now.holder() {
                Some(holder) => {
                    if answer.0 != AiOutcome::Settled {
                        lemma_with_character(settled, character@, walker.stopped(), holder);
                        assert(now == crew.buildings[at].object.occupation(index));
                    }
                },
                None => {},
            }
        }
    }
}

} // verus!
