use super::building::{Building, WorkSpot, WorkSpotOccupation};
use super::object_id::{ObjectId, ObjectProperties};
use super::registry::{holds, lemma_position, position, Object, Objects};
use crate::facing::Facing;
use vstd::prelude::*;

verus! {

/// What a character does to stay alive.
#[derive(Debug, Clone, Copy, PartialEq, Eq, Structural)]
pub enum SurviveGoal {
    RunFromDanger,
    PreventStarvation,
}

/// What a character does for the colony.
#[derive(Debug, Clone, Copy, PartialEq, Eq, Structural)]
pub enum WorkGoal {
    WorkAtVentilation,
}

/// What a character is after at the moment. Staying alive comes before work,
/// and work before idling.
#[derive(Debug, Clone, Copy, PartialEq, Eq, Structural)]
pub enum CharacterGoal {
    Survive(SurviveGoal),
    Work(WorkGoal),
    Idle,
}

/// What a character is busy with in pursuit of its goal.
#[derive(Debug)]
pub enum CharacterTask<Q> {
    PanicRun { target_x: Q, target_y: Q },
    WorkAtSpot { building: ObjectId<Building<Q>>, workspot_index: usize },
    Idle,
}

impl<Q: Copy> Copy for CharacterTask<Q> {

}

impl<Q: Copy> Clone for CharacterTask<Q> {
    fn clone(&self) -> (copy: Self)
        ensures
            copy == *self,
    {
        *self
    }
}

/// A way across the grid as the points to walk through, the walker's own
/// position first.
#[derive(Debug)]
pub struct Path<Q> {
    pub points: Vec<(Q, Q)>,
}

/// A mobile agent.
#[derive(Debug)]
pub struct Character<Q> {
    pub location: (Q, Q),
    pub health: Q,
    pub work_goals_order: Vec<WorkGoal>,
    pub current_goal: CharacterGoal,
    pub current_task: CharacterTask<Q>,
    pub current_path: Option<Path<Q>>,
}

impl<Q> ObjectProperties for Character<Q> {

}

impl<Q> Character<Q> {
    /// A character at `location` that idles and has no way to go.
    pub fn new(location: (Q, Q), health: Q, work_goals_order: Vec<WorkGoal>) -> (character: Self)
        ensures
            character.location == location,
            character.health == health,
            character.work_goals_order == work_goals_order,
            character.current_goal == CharacterGoal::Idle,
            character.current_task == CharacterTask::<Q>::Idle,
            character.current_path.is_none(),
    {
        Self {
            location,
            health,
            work_goals_order,
            current_goal: CharacterGoal::Idle,
            current_task: CharacterTask::Idle,
            current_path: None,
        }
    }
}

/// A decision that a character takes up a goal, with the task and the way
/// that go with it. It is made while the world is only read, and carried out
/// afterwards.
#[derive(Debug)]
pub struct AiChange<Q> {
    pub character_id: ObjectId<Character<Q>>,
    pub new_goal: CharacterGoal,
    pub new_task: CharacterTask<Q>,
    pub new_path: Option<Path<Q>>,
}

/// What came of carrying out a decision, or of an arrival.
#[derive(Debug, Clone, Copy, PartialEq, Eq, Structural)]
pub enum AiOutcome {
    /// The character has the task and holds its workspot, if the task has
    /// one.
    Settled,
    /// There is no such character; nothing has changed.
    CharacterMissing,
    /// The building of the task is gone; the character idles.
    BuildingMissing,
    /// The building has no such workspot; the character idles.
    WorkspotMissing,
    /// Another character holds the workspot; the character idles.
    WorkspotTaken,
    /// The workspot is open: the claim that the character came on is gone;
    /// the character idles.
    ClaimVanished,
}

/// The buildings after the workspot of `task` was opened. Nothing changes
/// where the task has no workspot, or its building or workspot is not there.
pub open spec fn with_spot_released<Q>(
    buildings: Seq<Object<Building<Q>>>,
    task: CharacterTask<Q>,
) -> Seq<Object<Building<Q>>> {
    match task {
        CharacterTask::WorkAtSpot { building, workspot_index } => {
            let at = position(buildings, building@);
            if holds(buildings, building@) && workspot_index < buildings[at].object.workspot_total() {
                buildings.update(
                    at,
                    Object {
                        id: building@,
                        object: buildings[at].object.with_occupation(
                            workspot_index as int,
                            WorkSpotOccupation::Open,
                        ),
                    },
                )
            } else {
                buildings
            }
        },
        _ => buildings,
    }
}

/// What the character `holder` finds at the workspot of `task` when it
/// comes to claim it, or, where `to_work` is true, to work at it, and what
/// the workspot is occupied by if the character gets it. A character that
/// comes to work and finds the workspot open has lost its claim. A task
/// without a workspot is settled as it is.
pub open spec fn spot_answer<Q>(
    buildings: Seq<Object<Building<Q>>>,
    task: CharacterTask<Q>,
    holder: ObjectId<Character<Q>>,
    to_work: bool,
) -> (AiOutcome, Option<WorkSpotOccupation<Q>>) {
    match task {
        CharacterTask::WorkAtSpot { building, workspot_index } => {
            let at = position(buildings, building@);
            if !holds(buildings, building@) {
                (AiOutcome::BuildingMissing, None)
            } else if workspot_index >= buildings[at].object.workspot_total() {
                (AiOutcome::WorkspotMissing, None)
            } else {
                let found = buildings[at].object.occupation(workspot_index as int);
                let granted = if to_work {
                    found.worked_by(holder)
                } else {
                    found.claimed_by(holder)
                };
                match granted {
                    Some(occupation) => (AiOutcome::Settled, Some(occupation)),
                    None => if found is Open {
                        (AiOutcome::ClaimVanished, None)
                    } else {
                        (AiOutcome::WorkspotTaken, None)
                    },
                }
            }
        },
        _ => (AiOutcome::Settled, None),
    }
}

/// The buildings after the workspot of `task` got the occupation
/// `occupation`, if there is one to give.
pub open spec fn with_spot_occupied<Q>(
    buildings: Seq<Object<Building<Q>>>,
    task: CharacterTask<Q>,
    occupation: Option<WorkSpotOccupation<Q>>,
) -> Seq<Object<Building<Q>>> {
    match (task, occupation) {
        (CharacterTask::WorkAtSpot { building, workspot_index }, Some(occupation)) => {
            let at = position(buildings, building@);
            buildings.update(
                at,
                Object {
                    id: building@,
                    object: buildings[at].object.with_occupation(workspot_index as int, occupation),
                },
            )
        },
        _ => buildings,
    }
}

impl<Q> Character<Q> {
    /// This character with another goal, task and way.
    pub open spec fn assigned(
        self,
        goal: CharacterGoal,
        task: CharacterTask<Q>,
        path: Option<Path<Q>>,
    ) -> Character<Q> {
        Character { current_goal: goal, current_task: task, current_path: path, ..self }
    }

    /// This character idling, with no way to go.
    pub open spec fn idled(self) -> Character<Q> {
        self.assigned(CharacterGoal::Idle, CharacterTask::Idle, None)
    }

    /// This character idling, with the way it has.
    pub open spec fn stopped(self) -> Character<Q> {
        Character { current_goal: CharacterGoal::Idle, current_task: CharacterTask::Idle, ..self }
    }
}

/// Tries to get the workspot of `task` for the character `holder`: claims it
/// where `to_work` is false, starts to work at it where `to_work` is true.
fn occupy_spot<E: ObjectProperties, Q: Copy>(
    objects: &mut Objects<E, Building<Q>, Character<Q>>,
    task: CharacterTask<Q>,
    holder: ObjectId<Character<Q>>,
    to_work: bool,
) -> (outcome: AiOutcome)
    requires
        old(objects).consistent(),
    ensures
        final(objects).consistent(),
        final(objects).next_id() == old(objects).next_id(),
        final(objects).locks() == old(objects).locks(),
        final(objects).environment_objects() == old(objects).environment_objects(),
        final(objects).characters() == old(objects).characters(),
        ({
            let answer = spot_answer(old(objects).buildings(), task, holder, to_work);
            outcome == answer.0 && final(objects).buildings() == with_spot_occupied(
                old(objects).buildings(),
                task,
                answer.1,
            )
        }),
{
    match task {
        CharacterTask::WorkAtSpot { building, workspot_index } => {
            let ghost before = objects.buildings();
            match objects.get_building_mut(building) {
                None => AiOutcome::BuildingMissing,
                Some(target_building) => {
                    proof {
                        let index = choose|index: int|
                            0 <= index < before.len() && (#[trigger] before[index]).id == building@
                                && *target_building == before[index].object;
                        lemma_position(before, index);
                    }
                    if workspot_index >= target_building.workspot_count() {
                        AiOutcome::WorkspotMissing
                    } else {
                        let open = target_building.building_type.relative_workspots()[workspot_index].occupation.is_open();
                        let got = if to_work {
                            target_building.start_work_at_workspot(workspot_index, holder)
                        } else {
                            target_building.claim_workspot(workspot_index, holder)
                        };
                        if got.is_ok() {
                            AiOutcome::Settled
                        } else if open {
                            AiOutcome::ClaimVanished
                        } else {
                            AiOutcome::WorkspotTaken
                        }
                    }
                },
            }
        },
        _ => AiOutcome::Settled,
    }
}

/// Opens the workspot of `task`, if the task has one and it is there.
fn release_spot<E: ObjectProperties, Q: Copy>(
    objects: &mut Objects<E, Building<Q>, Character<Q>>,
    task: CharacterTask<Q>,
)
    requires
        old(objects).consistent(),
    ensures
        final(objects).consistent(),
        final(objects).next_id() == old(objects).next_id(),
        final(objects).locks() == old(objects).locks(),
        final(objects).environment_objects() == old(objects).environment_objects(),
        final(objects).characters() == old(objects).characters(),
        final(objects).buildings() == with_spot_released(old(objects).buildings(), task),
{
    match task {
        CharacterTask::WorkAtSpot { building, workspot_index } => {
            let ghost before = objects.buildings();
            match objects.get_building_mut(building) {
                None => {},
                Some(target_building) => {
                    proof {
                        let index = choose|index: int|
                            0 <= index < before.len() && (#[trigger] before[index]).id == building@
                                && *target_building == before[index].object;
                        lemma_position(before, index);
                    }
                    if workspot_index < target_building.workspot_count() {
                        target_building.release_workspot(workspot_index);
                    }
                },
            }
        },
        _ => {},
    }
}

/// The buildings and the characters of a world, which is all that the
/// characters' decisions read and change.
pub struct Crew<Q> {
    pub buildings: Seq<Object<Building<Q>>>,
    pub characters: Seq<Object<Character<Q>>>,
}

/// The buildings and the characters of a registry.
pub open spec fn crew_of<E, Q>(objects: Objects<E, Building<Q>, Character<Q>>) -> Crew<Q> {
    Crew { buildings: objects.buildings(), characters: objects.characters() }
}

impl<Q> Crew<Q> {
    /// The crew after the character `character` was replaced by `with`.
    pub open spec fn with_character(self, character: u32, with: Character<Q>) -> Crew<Q> {
        Crew {
            characters: self.characters.update(
                position(self.characters, character),
                Object { id: character, object: with },
            ),
            ..self
        }
    }

    /// The crew after one decision was carried out, and what came of it.
    ///
    /// A decision for a character that is not there changes nothing.
    /// Otherwise the workspot of the character's old task is opened, the
    /// workspot of the new task is claimed for it, and the character gets the
    /// goal, the task and the way of the decision. Where the workspot of
    /// the new task cannot be had, the character idles instead.
    pub open spec fn changed(self, change: AiChange<Q>) -> (Crew<Q>, AiOutcome) {
        let id = change.character_id;
        if !holds(self.characters, id@) {
            (self, AiOutcome::CharacterMissing)
        } else {
            let character = self.characters[position(self.characters, id@)].object;
            let released = with_spot_released(self.buildings, character.current_task);
            let answer = spot_answer(released, change.new_task, id, false);
            let settled = Crew {
                buildings: with_spot_occupied(released, change.new_task, answer.1),
                ..self
            };
            (
                settled.with_character(
                    id@,
                    if answer.0 == AiOutcome::Settled {
                        character.assigned(change.new_goal, change.new_task, change.new_path)
                    } else {
                        character.idled()
                    },
                ),
                answer.0,
            )
        }
    }

    /// The crew after the decisions `changes` were carried out one after
    /// the other, and what came of each.
    pub open spec fn changed_by_all(self, changes: Seq<AiChange<Q>>) -> (Crew<Q>, Seq<AiOutcome>)
        decreases changes.len(),
    {
        if changes.len() == 0 {
            (self, Seq::empty())
        } else {
            let so_far = self.changed_by_all(changes.drop_last());
            let last = so_far.0.changed(changes.last());
            (last.0, so_far.1.push(last.1))
        }
    }

    /// The crew after the character `character` reached the end of its way,
    /// and what came of it.
    ///
    /// A character that is not there changes nothing, and so does one whose
    /// task has no workspot. Otherwise the character starts to work at the
    /// workspot of its task, which it must have claimed. Where the building
    /// or the claim is gone, or another character holds the workspot, the
    /// character idles instead and the workspot stays as it is.
    pub open spec fn arrived(self, character: ObjectId<Character<Q>>) -> (Crew<Q>, AiOutcome) {
        if !holds(self.characters, character@) {
            (self, AiOutcome::CharacterMissing)
        } else {
            let walker = self.characters[position(self.characters, character@)].object;
            let answer = spot_answer(self.buildings, walker.current_task, character, true);
            let settled = Crew {
                buildings: with_spot_occupied(self.buildings, walker.current_task, answer.1),
                ..self
            };
            if answer.0 == AiOutcome::Settled {
                (settled, answer.0)
            } else {
                (settled.with_character(character@, walker.stopped()), answer.0)
            }
        }
    }
}

/// Carries out one decision: see [`Crew::changed`].
pub fn apply_ai_change<E: ObjectProperties, Q: Copy>(
    objects: &mut Objects<E, Building<Q>, Character<Q>>,
    ai_change: AiChange<Q>,
) -> (outcome: AiOutcome)
    requires
        old(objects).consistent(),
    ensures
        final(objects).consistent(),
        final(objects).next_id() == old(objects).next_id(),
        final(objects).locks() == old(objects).locks(),
        final(objects).environment_objects() == old(objects).environment_objects(),
        (crew_of(*final(objects)), outcome) == crew_of(*old(objects)).changed(ai_change),
{
    let id = ai_change.character_id;
    let ghost characters = objects.characters();
    let previous_task = match objects.get_character(id) {
        None => {
            return AiOutcome::CharacterMissing;
        },
        Some(character) => {
            proof {
                let index = choose|index: int|
                    0 <= index < characters.len() && #[trigger] characters[index] == *character;
                lemma_position(characters, index);
            }
            character.object.current_task
        },
    };
    // We need to book off anything the character will stop doing like old workspots
    release_spot(objects, previous_task);
    // We need to make some changes to the environment like workspot claims
    let outcome = occupy_spot(objects, ai_change.new_task, id, false);
    match objects.get_character_mut(id) {
        None => {},
        Some(character) => {
            proof {
                let index = choose|index: int|
                    0 <= index < characters.len() && (#[trigger] characters[index]).id == id@
                        && *character == characters[index].object;
                lemma_position(characters, index);
            }
            if outcome == AiOutcome::Settled {
                character.current_goal = ai_change.new_goal;
                character.current_task = ai_change.new_task;
                character.current_path = ai_change.new_path;
            } else {
                character.current_goal = CharacterGoal::Idle;
                character.current_task = CharacterTask::Idle;
                character.current_path = None;
            }
        },
    }
    outcome
}

/// Carries out the decisions one after the other, in their order: see
/// [`Crew::changed_by_all`].
pub fn apply_ai_changes<E: ObjectProperties, Q: Copy>(
    objects: &mut Objects<E, Building<Q>, Character<Q>>,
    ai_changes: Vec<AiChange<Q>>,
) -> (outcomes: Vec<AiOutcome>)
    requires
        old(objects).consistent(),
    ensures
        final(objects).consistent(),
        final(objects).next_id() == old(objects).next_id(),
        final(objects).locks() == old(objects).locks(),
        final(objects).environment_objects() == old(objects).environment_objects(),
        (crew_of(*final(objects)), outcomes@) == crew_of(*old(objects)).changed_by_all(
            ai_changes@,
        ),
{
    let mut outcomes: Vec<AiOutcome> = Vec::new();
    let ghost start = crew_of(*objects);
    let ghost all = ai_changes@;
    for ai_change in iter: ai_changes
        invariant
            objects.consistent(),
            objects.next_id() == old(objects).next_id(),
            objects.locks() == old(objects).locks(),
            objects.environment_objects() == old(objects).environment_objects(),
            start == crew_of(*old(objects)),
            iter.seq() == all,
            (crew_of(*objects), outcomes@) == start.changed_by_all(
                all.take(iter.index() as int),
            ),
    {
        proof {
            let done = all.take(iter.index() + 1);
            assert(done.drop_last() == all.take(iter.index() as int));
            assert(done.last() == ai_change);
        }
        let outcome = apply_ai_change(objects, ai_change);
        outcomes.push(outcome);
    }
    proof {
        assert(all.take(all.len() as int) == all);
    }
    outcomes
}

/// Lets a character that reached the end of its way start on the work that
/// it came for: see [`Crew::arrived`].
pub fn arrive_at_destination<E: ObjectProperties, Q: Copy>(
    objects: &mut Objects<E, Building<Q>, Character<Q>>,
    character_id: ObjectId<Character<Q>>,
) -> (outcome: AiOutcome)
    requires
        old(objects).consistent(),
    ensures
        final(objects).consistent(),
        final(objects).next_id() == old(objects).next_id(),
        final(objects).locks() == old(objects).locks(),
        final(objects).environment_objects() == old(objects).environment_objects(),
        (crew_of(*final(objects)), outcome) == crew_of(*old(objects)).arrived(character_id),
{
    let ghost characters = objects.characters();
    let task = match objects.get_character(character_id) {
        None => {
            return AiOutcome::CharacterMissing;
        },
        Some(character) => {
            proof {
                let index = choose|index: int|
                    0 <= index < characters.len() && #[trigger] characters[index] == *character;
                lemma_position(characters, index);
            }
            character.object.current_task
        },
    };
    let outcome = occupy_spot(objects, task, character_id, true);
    if outcome != AiOutcome::Settled {
        match objects.get_character_mut(character_id) {
            None => {},
            Some(character) => {
                proof {
                    let index = choose|index: int|
                        0 <= index < characters.len() && (#[trigger] characters[index]).id
                            == character_id@ && *character == characters[index].object;
                    lemma_position(characters, index);
                }
                character.current_goal = CharacterGoal::Idle;
                character.current_task = CharacterTask::Idle;
            },
        }
    }
    outcome
}

/// The place in `order` of the first work goal from `from` on that `goal`
/// is the pursuit of, or the length of `order` if there is none.
pub open spec fn pursued_from(goal: CharacterGoal, order: Seq<WorkGoal>, from: int) -> int
    decreases order.len() - from,
{
    if from < 0 || from >= order.len() {
        order.len() as int
    } else if goal == CharacterGoal::Work(order[from]) {
        from
    } else {
        pursued_from(goal, order, from + 1)
    }
}

/// The work goals that a character with the goal `goal` and the work goals
/// `order` thinks over anew, in order.
///
/// A character that is busy staying alive thinks over none. Any other goes
/// through its work goals in their order and stops at the one that it is
/// after already.
pub open spec fn goals_in_question(goal: CharacterGoal, order: Seq<WorkGoal>) -> Seq<WorkGoal> {
    if goal is Survive {
        Seq::empty()
    } else {
        order.take(pursued_from(goal, order, 0))
    }
}

impl<Q> Character<Q> {
    /// The work goals that the character thinks over anew: see
    /// [`goals_in_question`].
    pub fn work_goals_to_evaluate(&self) -> (goals: Vec<WorkGoal>)
        ensures
            goals@ == goals_in_question(self.current_goal, self.work_goals_order@),
    {
        let mut goals: Vec<WorkGoal> = Vec::new();
        match self.current_goal {
            CharacterGoal::Survive(_) => {
                // We already work on a goal of this importance
                return goals;
            },
            _ => {},
        }
        let ghost order = self.work_goals_order@;
        let mut index: usize = 0;
        while index < self.work_goals_order.len()
            invariant
                index <= order.len(),
                order == self.work_goals_order@,
                goals@ == order.take(index as int),
                pursued_from(self.current_goal, order, 0) == pursued_from(
                    self.current_goal,
                    order,
                    index as int,
                ),
            decreases order.len() - index,
        {
            let possible_work_goal = self.work_goals_order[index];
            if self.current_goal == CharacterGoal::Work(possible_work_goal) {
                // We already work on a goal of this importance
                return goals;
            }
            goals.push(possible_work_goal);
            index = index + 1;
            assert(goals@ == order.take(index as int));
        }
        assert(order.take(order.len() as int) == order);
        goals
    }
}

/// An open workspot that a character could go to.
#[derive(Debug)]
pub struct OpenWorkSpot<Q> {
    pub building: ObjectId<Building<Q>>,
    pub workspot_index: usize,
    /// The workspot, placed relative to its building.
    pub workspot: WorkSpot<Q>,
    /// The tile that the building stands on.
    pub location: (u32, u32),
    pub facing: Facing,
}

/// The open ones among the first `upto` workspots of `building`, in order.
pub open spec fn open_spots_of<Q>(building: Object<Building<Q>>, upto: int) -> Seq<OpenWorkSpot<Q>>
    decreases upto,
{
    if upto <= 0 {
        Seq::empty()
    } else {
        let before = open_spots_of(building, upto - 1);
        let workspot = building.object.building_type.workspots()[upto - 1];
        if workspot.occupation is Open {
            before.push(
                OpenWorkSpot {
                    building: ObjectId::numbered(building.id),
                    workspot_index: (upto - 1) as usize,
                    workspot,
                    location: building.object.location,
                    facing: building.object.facing,
                },
            )
        } else {
            before
        }
    }
}

/// The open workspots of the ventilators among the first `upto` buildings,
/// building by building in the order of the list.
pub open spec fn open_ventilator_spots<Q>(buildings: Seq<Object<Building<Q>>>, upto: int) -> Seq<
    OpenWorkSpot<Q>,
>
    decreases upto,
{
    if upto <= 0 {
        Seq::empty()
    } else {
        let building = buildings[upto - 1];
        open_ventilator_spots(buildings, upto - 1) + if building.object.building_type
            is HandCrankedVentilator {
            open_spots_of(building, building.object.workspot_total() as int)
        } else {
            Seq::empty()
        }
    }
}

/// Every open workspot of every ventilator, building by building in the
/// order of their numbers.
pub fn open_ventilator_workspots<E: ObjectProperties, Q: Copy>(
    objects: &Objects<E, Building<Q>, Character<Q>>,
) -> (found: Vec<OpenWorkSpot<Q>>)
    ensures
        found@ == open_ventilator_spots(objects.buildings(), objects.buildings().len() as int),
{
    let buildings = objects.get_buildings();
    let mut found: Vec<OpenWorkSpot<Q>> = Vec::new();
    let mut at: usize = 0;
    while at < buildings.len()
        invariant
            at <= buildings.len(),
            buildings@ == objects.buildings(),
            found@ == open_ventilator_spots(buildings@, at as int),
        decreases buildings.len() - at,
    {
        let building = &buildings[at];
        let ghost so_far = found@;
        // Only keep the ventilators
        if building.object.building_type.is_ventilator() {
            let workspots = building.object.building_type.relative_workspots();
            let mut index: usize = 0;
            while index < workspots.len()
                invariant
                    index <= workspots.len(),
                    workspots@ == building.object.building_type.workspots(),
                    found@ == so_far + open_spots_of(*building, index as int),
                decreases workspots.len() - index,
            {
                let workspot = workspots[index];
                if workspot.occupation.is_open() {
                    found.push(
                        OpenWorkSpot {
                            building: building.id(),
                            workspot_index: index,
                            workspot,
                            location: building.object.location,
                            facing: building.object.facing,
                        },
                    );
                }
                index = index + 1;
            }
        }
        at = at + 1;
    }
    found
}

/// Whether a character may stand on a tile: the tile must be ground, and it
/// must not hold what the character is told to avoid, which is liquid deep
/// enough to drown in or any lava.
pub fn position_walkable(
    ground: bool,
    will_drown: bool,
    is_lava: bool,
    avoid_lava: bool,
    avoid_drowning: bool,
) -> (walkable: bool)
    ensures
        walkable == (ground && !(will_drown && avoid_drowning) && !(is_lava && avoid_lava)),
{
    if !ground {
        return false;
    }
    if will_drown && avoid_drowning || is_lava && avoid_lava {
        return false;
    }
    true
}

/// A way from `from` to `to`, where `from_walkable` and `to_walkable` say
/// whether a character may stand on either end. There is a way exactly when
/// it may stand on both, and it leads straight from the one to the other.
pub fn find_path<Q: Copy>(from: (Q, Q), to: (Q, Q), from_walkable: bool, to_walkable: bool) -> (path:
    Option<Path<Q>>)
    ensures
        path.is_some() == (from_walkable && to_walkable),
        path.is_some() ==> path.unwrap().points@ == seq![from, to],
{
    // First make sure the from and to vectors are valid open positions
    if !from_walkable || !to_walkable {
        return None;
    }
    let mut points: Vec<(Q, Q)> = Vec::new();
    points.push(from);
    points.push(to);
    Some(Path { points })
}

} // verus!
