use super::characters::Character;
use super::object_id::{ObjectId, ObjectProperties};
use crate::facing::Facing;
use vstd::prelude::*;

verus! {

/// Who occupies a workspot.
#[derive(Debug)]
pub enum WorkSpotOccupation<Q> {
    /// No character is working this spot, nor is one coming to work it
    Open,
    /// No character is working this spot, but one is coming to work it
    Claimed(ObjectId<Character<Q>>),
    /// A character is working this spot
    Working(ObjectId<Character<Q>>),
}

impl<Q> Copy for WorkSpotOccupation<Q> {

}

impl<Q> Clone for WorkSpotOccupation<Q> {
    fn clone(&self) -> (copy: Self)
        ensures
            copy == *self,
    {
        *self
    }
}

impl<Q> WorkSpotOccupation<Q> {
    /// The occupation after the character `claimer` asked for the spot: an
    /// open spot, or one that the same character has claimed before, is
    /// claimed by it. Any other spot is refused.
    pub open spec fn claimed_by(self, claimer: ObjectId<Character<Q>>) -> Option<
        WorkSpotOccupation<Q>,
    > {
        match self {
            WorkSpotOccupation::Open => Some(WorkSpotOccupation::Claimed(claimer)),
            WorkSpotOccupation::Claimed(old_claimer) => if old_claimer@ == claimer@ {
                Some(WorkSpotOccupation::Claimed(claimer))
            } else {
                None
            },
            WorkSpotOccupation::Working(_) => None,
        }
    }

    /// The occupation after the character `claimer` set out to work at the
    /// spot: a spot that the same character has claimed or works at is
    /// worked at by it. Any other spot is refused: one that another
    /// character holds, and an open one, on which the character has no
    /// claim.
    pub open spec fn worked_by(self, claimer: ObjectId<Character<Q>>) -> Option<
        WorkSpotOccupation<Q>,
    > {
        match self {
            WorkSpotOccupation::Open => None,
            WorkSpotOccupation::Claimed(old_claimer) => if old_claimer@ == claimer@ {
                Some(WorkSpotOccupation::Working(claimer))
            } else {
                None
            },
            WorkSpotOccupation::Working(old_claimer) => if old_claimer@ == claimer@ {
                Some(WorkSpotOccupation::Working(claimer))
            } else {
                None
            },
        }
    }

    /// The number of the character that has claimed the spot or works at
    /// it.
    pub open spec fn holder(self) -> Option<u32> {
        match self {
            WorkSpotOccupation::Open => None,
            WorkSpotOccupation::Claimed(claimer) => Some(claimer@),
            WorkSpotOccupation::Working(worker) => Some(worker@),
        }
    }

    /// Returns `true` if the work spot occupation is `Open`.
    #[must_use]
    pub fn is_open(&self) -> (open: bool)
        ensures
            open == (*self is Open),
    {
        match self {
            WorkSpotOccupation::Open => true,
            _ => false,
        }
    }

    /// Returns `true` if the work spot occupation is `Working`.
    #[must_use]
    pub fn is_working(&self) -> (working: bool)
        ensures
            working == (*self is Working),
    {
        match self {
            WorkSpotOccupation::Working(_) => true,
            _ => false,
        }
    }
}

/// A place at a building where one character can work.
#[derive(Debug)]
pub struct WorkSpot<Q> {
    /// Where the spot lies, relative to the building.
    pub location: (Q, Q),
    pub occupation: WorkSpotOccupation<Q>,
}

impl<Q: Copy> Copy for WorkSpot<Q> {

}

impl<Q: Copy> Clone for WorkSpot<Q> {
    fn clone(&self) -> (copy: Self)
        ensures
            copy == *self,
    {
        *self
    }
}

/// What a building is, with the workspots that it offers.
#[derive(Debug)]
pub enum BuildingType<Q> {
    HandCrankedVentilator { workspots: [WorkSpot<Q>; 2] },
}

/// A fixed structure on the grid.
#[derive(Debug)]
pub struct Building<Q> {
    /// The tile that the building stands on.
    pub location: (u32, u32),
    pub facing: Facing,
    pub building_type: BuildingType<Q>,
}

impl<Q> ObjectProperties for Building<Q> {

}

impl<Q> BuildingType<Q> {
    /// The workspots of the building, placed relative to it.
    pub open spec fn workspots(self) -> Seq<WorkSpot<Q>> {
        match self {
            BuildingType::HandCrankedVentilator { workspots } => workspots@,
        }
    }

    /// The same kind of building with other workspots, as many as before.
    pub open spec fn with_workspots(self, workspots: Seq<WorkSpot<Q>>) -> BuildingType<Q>
        recommends
            workspots.len() == self.workspots().len(),
    {
        match self {
            BuildingType::HandCrankedVentilator { .. } => BuildingType::HandCrankedVentilator {
                workspots: [workspots[0], workspots[1]],
            },
        }
    }

    pub fn is_ventilator(&self) -> (ventilator: bool)
        ensures
            ventilator == (*self is HandCrankedVentilator),
    {
        match self {
            BuildingType::HandCrankedVentilator { .. } => true,
        }
    }

    pub fn relative_workspots(&self) -> (workspots: &[WorkSpot<Q>])
        ensures
            workspots@ == self.workspots(),
    {
        match self {
            BuildingType::HandCrankedVentilator { workspots } => workspots,
        }
    }

    /// How many of the workspots a character is working at.
    pub fn working_count(&self) -> (count: usize)
        ensures
            count == working_among(self.workspots(), self.workspots().len() as int),
            count <= self.workspots().len(),
    {
        let workspots = self.relative_workspots();
        let mut count: usize = 0;
        let mut index: usize = 0;
        while index < workspots.len()
            invariant
                index <= workspots.len(),
                workspots@ == self.workspots(),
                count == working_among(self.workspots(), index as int),
                count <= index,
            decreases workspots.len() - index,
        {
            if workspots[index].occupation.is_working() {
                count = count + 1;
            }
            index = index + 1;
        }
        count
    }
}

/// How many of the first `upto` workspots a character is working at.
pub open spec fn working_among<Q>(workspots: Seq<WorkSpot<Q>>, upto: int) -> int
    decreases upto,
{
    if upto <= 0 {
        0
    } else {
        working_among(workspots, upto - 1) + if workspots[upto - 1].occupation is Working {
            1int
        } else {
            0int
        }
    }
}

impl<Q> Building<Q> {
    /// How many workspots the building has.
    pub open spec fn workspot_total(self) -> nat {
        self.building_type.workspots().len()
    }

    /// The occupation of the workspot `index`.
    pub open spec fn occupation(self, index: int) -> WorkSpotOccupation<Q> {
        self.building_type.workspots()[index].occupation
    }

    /// This building with the occupation of the workspot `index` changed to
    /// `occupation`, and nothing else.
    pub open spec fn with_occupation(self, index: int, occupation: WorkSpotOccupation<Q>) -> Building<
        Q,
    > {
        Building {
            building_type: self.building_type.with_workspots(
                self.building_type.workspots().update(
                    index,
                    WorkSpot { occupation, ..self.building_type.workspots()[index] },
                ),
            ),
            ..self
        }
    }

    /// Whether `after` is this building with the workspot `index` occupied
    /// as `occupation` says: it stands where this one stands and faces the
    /// same way, it has the same workspots at the same places, and every
    /// workspot but `index` is occupied as before.
    pub open spec fn changed_at(
        self,
        after: Building<Q>,
        index: int,
        occupation: WorkSpotOccupation<Q>,
    ) -> bool {
        &&& after.location == self.location
        &&& after.facing == self.facing
        &&& after.workspot_total() == self.workspot_total()
        &&& forall|j: int|
            0 <= j < self.workspot_total() ==> (#[trigger] after.building_type.workspots()[j]).location
                == self.building_type.workspots()[j].location
        &&& forall|j: int|
            0 <= j < self.workspot_total() ==> #[trigger] after.occupation(j) == if j == index {
                occupation
            } else {
                self.occupation(j)
            }
    }

    /// How many workspots the building has.
    pub fn workspot_count(&self) -> (count: usize)
        ensures
            count == self.workspot_total(),
    {
        self.building_type.relative_workspots().len()
    }

    /// Opens the workspot `index`, whoever held it.
    pub fn release_workspot(&mut self, index: usize)
        requires
            index < old(self).workspot_total(),
        ensures
            *final(self) == old(self).with_occupation(index as int, WorkSpotOccupation::Open),
            old(self).changed_at(*final(self), index as int, WorkSpotOccupation::Open),
    {
        match &mut self.building_type {
            BuildingType::HandCrankedVentilator { workspots } => {
                workspots[index].occupation = WorkSpotOccupation::Open;
            },
        }
        proof {
            lemma_same_workspots(
                *self,
                old(self).with_occupation(index as int, WorkSpotOccupation::Open),
            );
            lemma_with_occupation(*old(self), index as int, WorkSpotOccupation::Open);
        }
    }

    /// Claims the workspot `index` for the character `claimer`. An open spot
    /// and one that the character has claimed already are claimed by it;
    /// any other spot is refused and nothing changes.
    pub fn claim_workspot(&mut self, index: usize, claimer: ObjectId<Character<Q>>) -> (claim:
        Result<(), ()>)
        requires
            index < old(self).workspot_total(),
        ensures
            match old(self).occupation(index as int).claimed_by(claimer) {
                Some(occupation) => claim.is_ok() && *final(self) == old(self).with_occupation(
                    index as int,
                    occupation,
                ) && old(self).changed_at(*final(self), index as int, occupation),
                None => claim.is_err() && *final(self) == *old(self),
            },
            claim.is_ok() <==> old(self).occupation(index as int) is Open || old(self).occupation(
                index as int,
            ).holder() == Some(claimer@) && old(self).occupation(index as int) is Claimed,
            claim.is_ok() ==> final(self).occupation(index as int) == WorkSpotOccupation::Claimed(
                claimer,
            ),
    {
        match &mut self.building_type {
            BuildingType::HandCrankedVentilator { workspots } => {
                let occupation = match workspots[index].occupation {
                    WorkSpotOccupation::Open => WorkSpotOccupation::Claimed(claimer),
                    WorkSpotOccupation::Claimed(old_claimer) => {
                        if old_claimer == claimer {
                            WorkSpotOccupation::Claimed(claimer)
                        } else {
                            return Err(());
                        }
                    },
                    WorkSpotOccupation::Working(_) => {
                        return Err(());
                    },
                };
                workspots[index].occupation = occupation;
            },
        }
        proof {
            lemma_same_workspots(
                *self,
                old(self).with_occupation(index as int, WorkSpotOccupation::Claimed(claimer)),
            );
            lemma_with_occupation(*old(self), index as int, WorkSpotOccupation::Claimed(claimer));
        }
        Ok(())
    }

    /// Lets the character `claimer` start to work at the workspot `index`.
    /// A spot that the character has claimed or works at already is worked
    /// at by it. Any other spot is refused and nothing changes: one that
    /// another character holds, and an open one, where the character's claim
    /// is gone.
    pub fn start_work_at_workspot(
        &mut self,
        index: usize,
        claimer: ObjectId<Character<Q>>,
    ) -> (start: Result<(), ()>)
        requires
            index < old(self).workspot_total(),
        ensures
            match old(self).occupation(index as int).worked_by(claimer) {
                Some(occupation) => start.is_ok() && *final(self) == old(self).with_occupation(
                    index as int,
                    occupation,
                ) && old(self).changed_at(*final(self), index as int, occupation),
                None => start.is_err() && *final(self) == *old(self),
            },
            start.is_ok() <==> old(self).occupation(index as int).holder() == Some(claimer@),
            start.is_ok() ==> final(self).occupation(index as int) == WorkSpotOccupation::Working(
                claimer,
            ),
    {
        match &mut self.building_type {
            BuildingType::HandCrankedVentilator { workspots } => {
                let occupation = match workspots[index].occupation {
                    WorkSpotOccupation::Open => {
                        return Err(());
                    },
                    WorkSpotOccupation::Claimed(old_claimer) => {
                        if old_claimer == claimer {
                            WorkSpotOccupation::Working(claimer)
                        } else {
                            return Err(());
                        }
                    },
                    WorkSpotOccupation::Working(old_claimer) => {
                        if old_claimer == claimer {
                            WorkSpotOccupation::Working(claimer)
                        } else {
                            return Err(());
                        }
                    },
                };
                workspots[index].occupation = occupation;
            },
        }
        proof {
            lemma_same_workspots(
                *self,
                old(self).with_occupation(index as int, WorkSpotOccupation::Working(claimer)),
            );
            lemma_with_occupation(*old(self), index as int, WorkSpotOccupation::Working(claimer));
        }
        Ok(())
    }
}

/// Two buildings on the same tile, facing the same way, of the same kind
/// and with the same workspots are the same building.
proof fn lemma_same_workspots<Q>(a: Building<Q>, b: Building<Q>)
    requires
        a.location == b.location,
        a.facing == b.facing,
        a.building_type.workspots() =~= b.building_type.workspots(),
    ensures
        a == b,
{
    match (a.building_type, b.building_type) {
        (
            BuildingType::HandCrankedVentilator { workspots: first },
            BuildingType::HandCrankedVentilator { workspots: second },
        ) => {
            assert(first@ == second@);
            assert(first =~= second);
        },
    }
}

/// What changing the occupation of one workspot does to a building: the
/// building stays where it is, keeps its workspots and their places, and
/// every other workspot its occupation.
pub proof fn lemma_with_occupation<Q>(
    building: Building<Q>,
    index: int,
    occupation: WorkSpotOccupation<Q>,
)
    requires
        0 <= index < building.workspot_total(),
    ensures
        building.changed_at(building.with_occupation(index, occupation), index, occupation),
{
    match building.building_type {
        BuildingType::HandCrankedVentilator { workspots } => {
            let updated = workspots@.update(index, WorkSpot { occupation, ..workspots@[index] });
            let after = building.with_occupation(index, occupation);
            assert(after.building_type.workspots() =~= updated);
        },
    }
}

} // verus!
