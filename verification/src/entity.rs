//! The entities of a load, in the order in which they are loaded.

use vstd::prelude::*;

verus! {

/// One sub-load: one input file and the table its rows go to. The first seven
/// make the core of a load; the last three are the stage of a sprint weekend.
#[derive(Clone, Copy, Debug, PartialEq, Eq, Structural)]
pub enum Entity {
    LapTime,
    PitStop,
    Qualifying,
    RaceResult,
    DriverStanding,
    ConstructorStanding,
    ConstructorResult,
    ConstructorSprintResult,
    SprintLapTime,
    DriverSprintResult,
}

impl Entity {
    /// The entity that a load begins with.
    pub open spec fn spec_first() -> Entity {
        Entity::LapTime
    }

    /// The entity loaded after this one, if any. The sprint stage follows the
    /// core only where `sprint` is set.
    pub open spec fn spec_next(self, sprint: bool) -> Option<Entity> {
        match self {
            Entity::LapTime => Some(Entity::PitStop),
            Entity::PitStop => Some(Entity::Qualifying),
            Entity::Qualifying => Some(Entity::RaceResult),
            Entity::RaceResult => Some(Entity::DriverStanding),
            Entity::DriverStanding => Some(Entity::ConstructorStanding),
            Entity::ConstructorStanding => Some(Entity::ConstructorResult),
            Entity::ConstructorResult => if sprint {
                Some(Entity::ConstructorSprintResult)
            } else {
                None
            },
            Entity::ConstructorSprintResult => Some(Entity::SprintLapTime),
            Entity::SprintLapTime => Some(Entity::DriverSprintResult),
            Entity::DriverSprintResult => None,
        }
    }

    /// The entity's place in the order of loading, from 0.
    pub open spec fn spec_index(self) -> nat {
        match self {
            Entity::LapTime => 0,
            Entity::PitStop => 1,
            Entity::Qualifying => 2,
            Entity::RaceResult => 3,
            Entity::DriverStanding => 4,
            Entity::ConstructorStanding => 5,
            Entity::ConstructorResult => 6,
            Entity::ConstructorSprintResult => 7,
            Entity::SprintLapTime => 8,
            Entity::DriverSprintResult => 9,
        }
    }

    /// A duplicate key is passed over. Only lap times are tolerant: their
    /// file may come again with laps that are already loaded.
    pub open spec fn spec_tolerant(self) -> bool {
        self == Entity::LapTime
    }

    /// The entity belongs to the stage of a sprint weekend.
    pub open spec fn spec_in_sprint_stage(self) -> bool {
        self.spec_index() >= 7
    }

    /// The name of the entity's input file.
    pub open spec fn spec_file_name(self) -> Seq<char> {
        match self {
            Entity::LapTime => "lap_times.csv"@,
            Entity::PitStop => "pit_stops.csv"@,
            Entity::Qualifying => "qualifying.csv"@,
            Entity::RaceResult => "results.csv"@,
            Entity::DriverStanding => "driver_standings.csv"@,
            Entity::ConstructorStanding => "constructor_standings.csv"@,
            Entity::ConstructorResult => "constructor_results.csv"@,
            Entity::ConstructorSprintResult => "constructor_race_result.csv"@,
            Entity::SprintLapTime => "sprint_laps_analysis.csv"@,
            Entity::DriverSprintResult => "driver_sprint_result.csv"@,
        }
    }

    pub fn first() -> (entity: Entity)
        ensures
            entity == Entity::spec_first(),
    {
        Entity::LapTime
    }

    pub fn next(&self, sprint: bool) -> (next: Option<Entity>)
        ensures
            next == self.spec_next(sprint),
            next matches Some(n) ==> n.spec_index() == self.spec_index() + 1,
    {
        match self {
            Entity::LapTime => Some(Entity::PitStop),
            Entity::PitStop => Some(Entity::Qualifying),
            Entity::Qualifying => Some(Entity::RaceResult),
            Entity::RaceResult => Some(Entity::DriverStanding),
            Entity::DriverStanding => Some(Entity::ConstructorStanding),
            Entity::ConstructorStanding => Some(Entity::ConstructorResult),
            Entity::ConstructorResult => if sprint {
                Some(Entity::ConstructorSprintResult)
            } else {
                None
            },
            Entity::ConstructorSprintResult => Some(Entity::SprintLapTime),
            Entity::SprintLapTime => Some(Entity::DriverSprintResult),
            Entity::DriverSprintResult => None,
        }
    }

    pub fn tolerant(&self) -> (tolerant: bool)
        ensures
            tolerant == self.spec_tolerant(),
    {
        match self {
            Entity::LapTime => true,
            _ => false,
        }
    }

    pub fn in_sprint_stage(&self) -> (sprint: bool)
        ensures
            sprint == self.spec_in_sprint_stage(),
    {
        match self {
            Entity::ConstructorSprintResult | Entity::SprintLapTime | Entity::DriverSprintResult => true,
            _ => false,
        }
    }

    /// The name of the entity's input file, to be looked for in the input
    /// directory.
    pub fn file_name(&self) -> (name: &'static str)
        ensures
            name@ == self.spec_file_name(),
    {
        match self {
            Entity::LapTime => "lap_times.csv",
            Entity::PitStop => "pit_stops.csv",
            Entity::Qualifying => "qualifying.csv",
            Entity::RaceResult => "results.csv",
            Entity::DriverStanding => "driver_standings.csv",
            Entity::ConstructorStanding => "constructor_standings.csv",
            Entity::ConstructorResult => "constructor_results.csv",
            Entity::ConstructorSprintResult => "constructor_race_result.csv",
            Entity::SprintLapTime => "sprint_laps_analysis.csv",
            Entity::DriverSprintResult => "driver_sprint_result.csv",
        }
    }
}

/// The car number under which a driver is looked up: the champion's number 1
/// stands for the car number 33.
pub open spec fn spec_driver_number(no: u16) -> u16 {
    if no == 1 {
        33
    } else {
        no
    }
}

pub fn driver_number(no: u16) -> (number: u16)
    ensures
        number == spec_driver_number(no),
{
    if no == 1 {
        33
    } else {
        no
    }
}

} // verus!
