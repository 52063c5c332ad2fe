use aci_map::objects::building::{Building, BuildingType, WorkSpot, WorkSpotOccupation};
use aci_map::objects::characters::{
    apply_ai_change, apply_ai_changes, arrive_at_destination, open_ventilator_workspots, AiChange,
    AiOutcome, Character, CharacterGoal, CharacterTask, Path, SurviveGoal, WorkGoal,
};
use aci_map::objects::{ObjectId, ObjectProperties, Objects};
use aci_map::Facing;

#[derive(Debug)]
struct Nothing;

impl ObjectProperties for Nothing {}

type World = Objects<Nothing, Building<f32>, Character<f32>>;

fn ventilator(x: u32, y: u32) -> Building<f32> {
    Building {
        location: (x, y),
        facing: Facing::East,
        building_type: BuildingType::HandCrankedVentilator {
            workspots: [
                WorkSpot { location: (0.2, 0.5), occupation: WorkSpotOccupation::Open },
                WorkSpot { location: (0.8, 0.5), occupation: WorkSpotOccupation::Open },
            ],
        },
    }
}

fn walker() -> Character<f32> {
    Character::new((0.5, 0.5), 1.0, vec![WorkGoal::WorkAtVentilation])
}

fn work_at(
    character: ObjectId<Character<f32>>,
    building: ObjectId<Building<f32>>,
    workspot_index: usize,
) -> AiChange<f32> {
    AiChange {
        character_id: character,
        new_goal: CharacterGoal::Work(WorkGoal::WorkAtVentilation),
        new_task: CharacterTask::WorkAtSpot { building, workspot_index },
        new_path: Some(Path { points: vec![(0.5, 0.5), (3.2, 4.5)] }),
    }
}

fn holder(world: &World, building: ObjectId<Building<f32>>, index: usize) -> (u8, Option<u32>) {
    let spots = world.get_building(building).unwrap().object.building_type.relative_workspots();
    match spots[index].occupation {
        WorkSpotOccupation::Open => (0, None),
        WorkSpotOccupation::Claimed(id) => (1, Some(id.index())),
        WorkSpotOccupation::Working(id) => (2, Some(id.index())),
    }
}

fn task_of(world: &World, character: ObjectId<Character<f32>>) -> Option<(u32, usize)> {
    match world.get_character(character).unwrap().object.current_task {
        CharacterTask::WorkAtSpot { building, workspot_index } => {
            Some((building.index(), workspot_index))
        }
        _ => None,
    }
}

#[test]
fn workspot_occupation_kinds() {
    let open: WorkSpotOccupation<f32> = WorkSpotOccupation::Open;
    let claimed: WorkSpotOccupation<f32> = WorkSpotOccupation::Claimed(ObjectId::new(1));
    let working: WorkSpotOccupation<f32> = WorkSpotOccupation::Working(ObjectId::new(1));
    assert!(open.is_open() && !open.is_working());
    assert!(!claimed.is_open() && !claimed.is_working());
    assert!(!working.is_open() && working.is_working());
}

#[test]
fn workspot_claims() {
    let mut building = ventilator(3, 4);
    let one = ObjectId::new(1);
    let two = ObjectId::new(2);
    assert_eq!(building.workspot_count(), 2);
    assert!(building.building_type.is_ventilator());
    assert_eq!(building.claim_workspot(0, one), Ok(()));
    assert_eq!(building.claim_workspot(0, one), Ok(()));
    assert_eq!(building.claim_workspot(0, two), Err(()));
    assert_eq!(building.claim_workspot(1, two), Ok(()));
    assert_eq!(building.building_type.working_count(), 0);
    assert_eq!(building.start_work_at_workspot(0, two), Err(()));
    assert_eq!(building.start_work_at_workspot(0, one), Ok(()));
    assert_eq!(building.start_work_at_workspot(0, one), Ok(()));
    assert_eq!(building.claim_workspot(0, one), Err(()));
    assert_eq!(building.building_type.working_count(), 1);
    assert_eq!(building.start_work_at_workspot(1, two), Ok(()));
    assert_eq!(building.building_type.working_count(), 2);
    building.release_workspot(0);
    assert_eq!(building.building_type.working_count(), 1);
    // Nobody has a claim on an open spot, so nobody can start to work at it.
    assert_eq!(building.start_work_at_workspot(0, two), Err(()));
    assert_eq!(building.start_work_at_workspot(0, one), Err(()));
    assert!(building.building_type.relative_workspots()[0].occupation.is_open());
    assert_eq!(building.building_type.working_count(), 1);
    assert_eq!(building.claim_workspot(0, two), Ok(()));
    assert_eq!(building.start_work_at_workspot(0, one), Err(()));
    assert_eq!(building.start_work_at_workspot(0, two), Ok(()));
    assert_eq!(building.building_type.working_count(), 2);
    let spots = building.building_type.relative_workspots();
    assert_eq!(spots[0].location, (0.2, 0.5));
    assert_eq!(spots[1].location, (0.8, 0.5));
    assert_eq!(building.location, (3, 4));
    assert_eq!(building.facing, Facing::East);
}

#[test]
fn character_starts_idle() {
    let character = walker();
    assert_eq!(character.location, (0.5, 0.5));
    assert_eq!(character.health, 1.0);
    assert_eq!(character.work_goals_order, vec![WorkGoal::WorkAtVentilation]);
    assert_eq!(character.current_goal, CharacterGoal::Idle);
    assert!(matches!(character.current_task, CharacterTask::Idle));
    assert!(character.current_path.is_none());
}

#[test]
fn goals_are_thought_over_in_order_of_priority() {
    let mut character = Character::new(
        (0.0f32, 0.0f32),
        1.0,
        vec![WorkGoal::WorkAtVentilation, WorkGoal::WorkAtVentilation],
    );
    assert_eq!(character.work_goals_to_evaluate().len(), 2);
    character.current_goal = CharacterGoal::Work(WorkGoal::WorkAtVentilation);
    assert_eq!(character.work_goals_to_evaluate(), vec![]);
    character.current_goal = CharacterGoal::Survive(SurviveGoal::RunFromDanger);
    assert_eq!(character.work_goals_to_evaluate(), vec![]);
    character.current_goal = CharacterGoal::Survive(SurviveGoal::PreventStarvation);
    assert_eq!(character.work_goals_to_evaluate(), vec![]);
    let idler = Character::new((0.0f32, 0.0f32), 1.0, vec![]);
    assert_eq!(idler.work_goals_to_evaluate(), vec![]);
}

#[test]
fn open_workspots_are_listed_building_by_building() {
    let mut world = World::new();
    let first = world.push_building(ventilator(3, 4));
    let someone = world.push_character(walker());
    let second = world.push_building(ventilator(6, 1));
    world.get_building_mut(first).unwrap().claim_workspot(0, someone).unwrap();
    let found: Vec<(u32, usize, (f32, f32), (u32, u32), Facing)> = open_ventilator_workspots(&world)
        .iter()
        .map(|s| (s.building.index(), s.workspot_index, s.workspot.location, s.location, s.facing))
        .collect();
    assert_eq!(
        found,
        vec![
            (0, 1, (0.8, 0.5), (3, 4), Facing::East),
            (2, 0, (0.2, 0.5), (6, 1), Facing::East),
            (2, 1, (0.8, 0.5), (6, 1), Facing::East),
        ]
    );
    world.get_building_mut(second).unwrap().claim_workspot(1, someone).unwrap();
    world.get_building_mut(second).unwrap().start_work_at_workspot(1, someone).unwrap();
    world.get_building_mut(second).unwrap().claim_workspot(0, someone).unwrap();
    world.get_building_mut(first).unwrap().claim_workspot(1, someone).unwrap();
    assert!(open_ventilator_workspots(&world).is_empty());
}

#[test]
fn a_decision_claims_the_workspot_and_sets_the_character_to_work() {
    let mut world = World::new();
    let house = world.push_building(ventilator(3, 4));
    let who = world.push_character(walker());
    assert_eq!(apply_ai_change(&mut world, work_at(who, house, 1)), AiOutcome::Settled);
    assert_eq!(holder(&world, house, 1), (1, Some(who.index())));
    assert_eq!(holder(&world, house, 0), (0, None));
    let character = &world.get_character(who).unwrap().object;
    assert_eq!(character.current_goal, CharacterGoal::Work(WorkGoal::WorkAtVentilation));
    assert_eq!(task_of(&world, who), Some((house.index(), 1)));
    assert_eq!(character.current_path.as_ref().unwrap().points, vec![(0.5, 0.5), (3.2, 4.5)]);
}

#[test]
fn a_decision_releases_the_old_workspot() {
    let mut world = World::new();
    let house = world.push_building(ventilator(3, 4));
    let other = world.push_building(ventilator(5, 5));
    let who = world.push_character(walker());
    assert_eq!(apply_ai_change(&mut world, work_at(who, house, 0)), AiOutcome::Settled);
    assert_eq!(apply_ai_change(&mut world, work_at(who, other, 1)), AiOutcome::Settled);
    assert_eq!(holder(&world, house, 0), (0, None));
    assert_eq!(holder(&world, other, 1), (1, Some(who.index())));
    assert_eq!(task_of(&world, who), Some((other.index(), 1)));
    // The same workspot again: opened, then claimed anew.
    assert_eq!(apply_ai_change(&mut world, work_at(who, other, 1)), AiOutcome::Settled);
    assert_eq!(holder(&world, other, 1), (1, Some(who.index())));
}

#[test]
fn a_lost_race_leaves_the_loser_idle() {
    let mut world = World::new();
    let house = world.push_building(ventilator(3, 4));
    let first = world.push_character(walker());
    let second = world.push_character(walker());
    let outcomes = apply_ai_changes(
        &mut world,
        vec![work_at(first, house, 0), work_at(second, house, 0), work_at(second, house, 1)],
    );
    assert_eq!(outcomes, vec![AiOutcome::Settled, AiOutcome::WorkspotTaken, AiOutcome::Settled]);
    assert_eq!(holder(&world, house, 0), (1, Some(first.index())));
    assert_eq!(holder(&world, house, 1), (1, Some(second.index())));
    // Now the second loses the race for the first one's workspot, and with it its own.
    assert_eq!(apply_ai_change(&mut world, work_at(second, house, 0)), AiOutcome::WorkspotTaken);
    assert_eq!(holder(&world, house, 0), (1, Some(first.index())));
    assert_eq!(holder(&world, house, 1), (0, None));
    let loser = &world.get_character(second).unwrap().object;
    assert_eq!(loser.current_goal, CharacterGoal::Idle);
    assert!(matches!(loser.current_task, CharacterTask::Idle));
    assert!(loser.current_path.is_none());
}

#[test]
fn decisions_about_what_is_gone() {
    let mut world = World::new();
    let house = world.push_building(ventilator(3, 4));
    let who = world.push_character(walker());
    let gone = world.push_character(walker());
    world.remove_character(gone);
    assert_eq!(apply_ai_change(&mut world, work_at(gone, house, 0)), AiOutcome::CharacterMissing);
    assert_eq!(holder(&world, house, 0), (0, None));
    assert_eq!(apply_ai_change(&mut world, work_at(who, house, 2)), AiOutcome::WorkspotMissing);
    assert_eq!(task_of(&world, who), None);
    assert_eq!(apply_ai_change(&mut world, work_at(who, house, 0)), AiOutcome::Settled);
    assert_eq!(
        apply_ai_change(&mut world, work_at(who, ObjectId::new(77), 0)),
        AiOutcome::BuildingMissing
    );
    assert_eq!(holder(&world, house, 0), (0, None));
    assert_eq!(world.get_character(who).unwrap().object.current_goal, CharacterGoal::Idle);
    assert_eq!(task_of(&world, who), None);
}

#[test]
fn a_decision_without_a_workspot_is_taken_as_it_is() {
    let mut world = World::new();
    let house = world.push_building(ventilator(3, 4));
    let who = world.push_character(walker());
    assert_eq!(apply_ai_change(&mut world, work_at(who, house, 0)), AiOutcome::Settled);
    let rest = AiChange {
        character_id: who,
        new_goal: CharacterGoal::Idle,
        new_task: CharacterTask::Idle,
        new_path: None,
    };
    assert_eq!(apply_ai_change(&mut world, rest), AiOutcome::Settled);
    assert_eq!(holder(&world, house, 0), (0, None));
    assert_eq!(world.get_character(who).unwrap().object.current_goal, CharacterGoal::Idle);
    let run = AiChange {
        character_id: who,
        new_goal: CharacterGoal::Survive(SurviveGoal::RunFromDanger),
        new_task: CharacterTask::PanicRun { target_x: 1.0, target_y: 2.0 },
        new_path: None,
    };
    assert_eq!(apply_ai_change(&mut world, run), AiOutcome::Settled);
    assert!(matches!(
        world.get_character(who).unwrap().object.current_task,
        CharacterTask::PanicRun { target_x, target_y } if target_x == 1.0 && target_y == 2.0
    ));
}

#[test]
fn arrival_starts_the_work() {
    let mut world = World::new();
    let house = world.push_building(ventilator(3, 4));
    let who = world.push_character(walker());
    assert_eq!(apply_ai_change(&mut world, work_at(who, house, 1)), AiOutcome::Settled);
    assert_eq!(arrive_at_destination(&mut world, who), AiOutcome::Settled);
    assert_eq!(holder(&world, house, 1), (2, Some(who.index())));
    assert_eq!(task_of(&world, who), Some((house.index(), 1)));
    assert_eq!(
        world.get_character(who).unwrap().object.current_goal,
        CharacterGoal::Work(WorkGoal::WorkAtVentilation)
    );
    assert_eq!(arrive_at_destination(&mut world, who), AiOutcome::Settled);
    assert_eq!(world.get_building(house).unwrap().object.building_type.working_count(), 1);
}

#[test]
fn arrival_at_what_is_gone_or_taken_falls_back_to_idle() {
    let mut world = World::new();
    let house = world.push_building(ventilator(3, 4));
    let who = world.push_character(walker());
    let rival = world.push_character(walker());
    assert_eq!(arrive_at_destination(&mut world, who), AiOutcome::Settled);
    assert_eq!(arrive_at_destination(&mut world, ObjectId::new(50)), AiOutcome::CharacterMissing);
    assert_eq!(apply_ai_change(&mut world, work_at(who, house, 0)), AiOutcome::Settled);
    // The claim vanishes: the workspot is open when the character arrives.
    world.get_building_mut(house).unwrap().release_workspot(0);
    assert_eq!(arrive_at_destination(&mut world, who), AiOutcome::ClaimVanished);
    assert_eq!(holder(&world, house, 0), (0, None));
    assert_eq!(world.get_character(who).unwrap().object.current_goal, CharacterGoal::Idle);
    assert_eq!(task_of(&world, who), None);
    // The claim vanishes and a rival takes the workspot.
    assert_eq!(apply_ai_change(&mut world, work_at(who, house, 0)), AiOutcome::Settled);
    world.get_building_mut(house).unwrap().release_workspot(0);
    world.get_building_mut(house).unwrap().claim_workspot(0, rival).unwrap();
    assert_eq!(arrive_at_destination(&mut world, who), AiOutcome::WorkspotTaken);
    assert_eq!(holder(&world, house, 0), (1, Some(rival.index())));
    let character = &world.get_character(who).unwrap().object;
    assert_eq!(character.current_goal, CharacterGoal::Idle);
    assert!(matches!(character.current_task, CharacterTask::Idle));
    assert!(character.current_path.is_some());
    // The building vanishes.
    assert_eq!(apply_ai_change(&mut world, work_at(who, house, 1)), AiOutcome::Settled);
    world.remove_building(house);
    assert_eq!(arrive_at_destination(&mut world, who), AiOutcome::BuildingMissing);
    assert_eq!(world.get_character(who).unwrap().object.current_goal, CharacterGoal::Idle);
    assert_eq!(task_of(&world, who), None);
}

#[test]
fn every_held_workspot_is_some_characters_task() {
    let mut world = World::new();
    let houses = [world.push_building(ventilator(1, 1)), world.push_building(ventilator(2, 2))];
    let crew = [
        world.push_character(walker()),
        world.push_character(walker()),
        world.push_character(walker()),
    ];
    let mut step = 0usize;
    for round in 0..40usize {
        let who = crew[(round * 7 + 1) % 3];
        if round % 3 == 2 {
            arrive_at_destination(&mut world, who);
        } else {
            step += 5;
            apply_ai_change(&mut world, work_at(who, houses[step % 2], (step / 2) % 2));
        }
        for house in houses {
            for index in 0..2 {
                if let (_, Some(held_by)) = holder(&world, house, index) {
                    assert_eq!(task_of(&world, ObjectId::new(held_by)), Some((house.index(), index)));
                }
            }
        }
    }
}
