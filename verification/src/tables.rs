//! The destination schema: for each table, its name and the names of its columns.
//!
//! Each enum stands for one table. `Table` is the table itself, every other
//! variant one of its columns.

use vstd::prelude::*;

verus! {

/// The `constructorResults` table.
#[derive(Clone, Copy, Debug, PartialEq, Eq, Structural)]
pub enum ConstructorResults {
    Table,
    RaceID,
    ConstructorID,
    Points,
    Status,
}

impl ConstructorResults {
    /// The identifier as the schema spells it.
    pub open spec fn spec_name(self) -> Seq<char> {
        match self {
            ConstructorResults::Table => "constructorResults"@,
            ConstructorResults::RaceID => "raceId"@,
            ConstructorResults::ConstructorID => "constructorId"@,
            ConstructorResults::Points => "points"@,
            ConstructorResults::Status => "status"@,
        }
    }

    /// The identifier as the schema spells it.
    pub fn name(&self) -> (s: &'static str)
        ensures
            s@ == self.spec_name(),
    {
        match self {
            ConstructorResults::Table => "constructorResults",
            ConstructorResults::RaceID => "raceId",
            ConstructorResults::ConstructorID => "constructorId",
            ConstructorResults::Points => "points",
            ConstructorResults::Status => "status",
        }
    }
}

/// The `constructorStandings` table.
#[derive(Clone, Copy, Debug, PartialEq, Eq, Structural)]
pub enum ConstructorStandings {
    Table,
    RaceID,
    ConstructorID,
    Points,
    Position,
    PositionText,
    Wins,
}

impl ConstructorStandings {
    /// The identifier as the schema spells it.
    pub open spec fn spec_name(self) -> Seq<char> {
        match self {
            ConstructorStandings::Table => "constructorStandings"@,
            ConstructorStandings::RaceID => "raceId"@,
            ConstructorStandings::ConstructorID => "constructorId"@,
            ConstructorStandings::Points => "points"@,
            ConstructorStandings::Position => "position"@,
            ConstructorStandings::PositionText => "positionText"@,
            ConstructorStandings::Wins => "wins"@,
        }
    }

    /// The identifier as the schema spells it.
    pub fn name(&self) -> (s: &'static str)
        ensures
            s@ == self.spec_name(),
    {
        match self {
            ConstructorStandings::Table => "constructorStandings",
            ConstructorStandings::RaceID => "raceId",
            ConstructorStandings::ConstructorID => "constructorId",
            ConstructorStandings::Points => "points",
            ConstructorStandings::Position => "position",
            ConstructorStandings::PositionText => "positionText",
            ConstructorStandings::Wins => "wins",
        }
    }
}

/// The `driverStandings` table.
#[derive(Clone, Copy, Debug, PartialEq, Eq, Structural)]
pub enum DriverStandings {
    Table,
    RaceID,
    DriverID,
    Points,
    Position,
    PositionText,
    Wins,
}

impl DriverStandings {
    /// The identifier as the schema spells it.
    pub open spec fn spec_name(self) -> Seq<char> {
        match self {
            DriverStandings::Table => "driverStandings"@,
            DriverStandings::RaceID => "raceId"@,
            DriverStandings::DriverID => "driverId"@,
            DriverStandings::Points => "points"@,
            DriverStandings::Position => "position"@,
            DriverStandings::PositionText => "positionText"@,
            DriverStandings::Wins => "wins"@,
        }
    }

    /// The identifier as the schema spells it.
    pub fn name(&self) -> (s: &'static str)
        ensures
            s@ == self.spec_name(),
    {
        match self {
            DriverStandings::Table => "driverStandings",
            DriverStandings::RaceID => "raceId",
            DriverStandings::DriverID => "driverId",
            DriverStandings::Points => "points",
            DriverStandings::Position => "position",
            DriverStandings::PositionText => "positionText",
            DriverStandings::Wins => "wins",
        }
    }
}

/// The `lapTimes` table.
#[derive(Clone, Copy, Debug, PartialEq, Eq, Structural)]
pub enum LapTimes {
    Table,
    RaceID,
    DriverID,
    Lap,
    Position,
    Time,
    Milliseconds,
}

impl LapTimes {
    /// The identifier as the schema spells it.
    pub open spec fn spec_name(self) -> Seq<char> {
        match self {
            LapTimes::Table => "lapTimes"@,
            LapTimes::RaceID => "raceId"@,
            LapTimes::DriverID => "driverId"@,
            LapTimes::Lap => "lap"@,
            LapTimes::Position => "position"@,
            LapTimes::Time => "time"@,
            LapTimes::Milliseconds => "milliseconds"@,
        }
    }

    /// The identifier as the schema spells it.
    pub fn name(&self) -> (s: &'static str)
        ensures
            s@ == self.spec_name(),
    {
        match self {
            LapTimes::Table => "lapTimes",
            LapTimes::RaceID => "raceId",
            LapTimes::DriverID => "driverId",
            LapTimes::Lap => "lap",
            LapTimes::Position => "position",
            LapTimes::Time => "time",
            LapTimes::Milliseconds => "milliseconds",
        }
    }
}

/// The `pitStops` table.
#[derive(Clone, Copy, Debug, PartialEq, Eq, Structural)]
pub enum PitStops {
    Table,
    RaceID,
    DriverID,
    Stop,
    Lap,
    Time,
    Duration,
    Milliseconds,
}

impl PitStops {
    /// The identifier as the schema spells it.
    pub open spec fn spec_name(self) -> Seq<char> {
        match self {
            PitStops::Table => "pitStops"@,
            PitStops::RaceID => "raceId"@,
            PitStops::DriverID => "driverId"@,
            PitStops::Stop => "stop"@,
            PitStops::Lap => "lap"@,
            PitStops::Time => "time"@,
            PitStops::Duration => "duration"@,
            PitStops::Milliseconds => "milliseconds"@,
        }
    }

    /// The identifier as the schema spells it.
    pub fn name(&self) -> (s: &'static str)
        ensures
            s@ == self.spec_name(),
    {
        match self {
            PitStops::Table => "pitStops",
            PitStops::RaceID => "raceId",
            PitStops::DriverID => "driverId",
            PitStops::Stop => "stop",
            PitStops::Lap => "lap",
            PitStops::Time => "time",
            PitStops::Duration => "duration",
            PitStops::Milliseconds => "milliseconds",
        }
    }
}

/// The `qualifying` table.
#[derive(Clone, Copy, Debug, PartialEq, Eq, Structural)]
pub enum Qualifying {
    Table,
    RaceID,
    DriverID,
    ConstructorID,
    Number,
    Position,
    Q1,
    Q2,
    Q3,
}

impl Qualifying {
    /// The identifier as the schema spells it.
    pub open spec fn spec_name(self) -> Seq<char> {
        match self {
            Qualifying::Table => "qualifying"@,
            Qualifying::RaceID => "raceId"@,
            Qualifying::DriverID => "driverId"@,
            Qualifying::ConstructorID => "constructorId"@,
            Qualifying::Number => "number"@,
            Qualifying::Position => "position"@,
            Qualifying::Q1 => "q1"@,
            Qualifying::Q2 => "q2"@,
            Qualifying::Q3 => "q3"@,
        }
    }

    /// The identifier as the schema spells it.
    pub fn name(&self) -> (s: &'static str)
        ensures
            s@ == self.spec_name(),
    {
        match self {
            Qualifying::Table => "qualifying",
            Qualifying::RaceID => "raceId",
            Qualifying::DriverID => "driverId",
            Qualifying::ConstructorID => "constructorId",
            Qualifying::Number => "number",
            Qualifying::Position => "position",
            Qualifying::Q1 => "q1",
            Qualifying::Q2 => "q2",
            Qualifying::Q3 => "q3",
        }
    }
}

/// The `results` table.
#[derive(Clone, Copy, Debug, PartialEq, Eq, Structural)]
pub enum Results {
    Table,
    RaceID,
    DriverID,
    ConstructorID,
    Number,
    Grid,
    Position,
    PositionText,
    PositionOrder,
    Points,
    Laps,
    Time,
    Milliseconds,
    FastestLap,
    Rank,
    FastestLapTime,
    FastestLapSpeed,
    StatusID,
}

impl Results {
    /// The identifier as the schema spells it.
    pub open spec fn spec_name(self) -> Seq<char> {
        match self {
            Results::Table => "results"@,
            Results::RaceID => "raceId"@,
            Results::DriverID => "driverId"@,
            Results::ConstructorID => "constructorId"@,
            Results::Number => "number"@,
            Results::Grid => "grid"@,
            Results::Position => "position"@,
            Results::PositionText => "positionText"@,
            Results::PositionOrder => "positionOrder"@,
            Results::Points => "points"@,
            Results::Laps => "laps"@,
            Results::Time => "time"@,
            Results::Milliseconds => "milliseconds"@,
            Results::FastestLap => "fastestLap"@,
            Results::Rank => "rank"@,
            Results::FastestLapTime => "fastestLapTime"@,
            Results::FastestLapSpeed => "fastestLapSpeed"@,
            Results::StatusID => "statusId"@,
        }
    }

    /// The identifier as the schema spells it.
    pub fn name(&self) -> (s: &'static str)
        ensures
            s@ == self.spec_name(),
    {
        match self {
            Results::Table => "results",
            Results::RaceID => "raceId",
            Results::DriverID => "driverId",
            Results::ConstructorID => "constructorId",
            Results::Number => "number",
            Results::Grid => "grid",
            Results::Position => "position",
            Results::PositionText => "positionText",
            Results::PositionOrder => "positionOrder",
            Results::Points => "points",
            Results::Laps => "laps",
            Results::Time => "time",
            Results::Milliseconds => "milliseconds",
            Results::FastestLap => "fastestLap",
            Results::Rank => "rank",
            Results::FastestLapTime => "fastestLapTime",
            Results::FastestLapSpeed => "fastestLapSpeed",
            Results::StatusID => "statusId",
        }
    }
}

/// The `sprintResults` table.
#[derive(Clone, Copy, Debug, PartialEq, Eq, Structural)]
pub enum SprintResults {
    Table,
    RaceID,
    DriverID,
    ConstructorID,
    Number,
    Grid,
    Position,
    PositionText,
    PositionOrder,
    Points,
    Laps,
    Time,
    Milliseconds,
    FastestLap,
    FastestLapTime,
    FastestLapSpeed,
    StatusID,
}

impl SprintResults {
    /// The identifier as the schema spells it.
    pub open spec fn spec_name(self) -> Seq<char> {
        match self {
            SprintResults::Table => "sprintResults"@,
            SprintResults::RaceID => "raceId"@,
            SprintResults::DriverID => "driverId"@,
            SprintResults::ConstructorID => "constructorId"@,
            SprintResults::Number => "number"@,
            SprintResults::Grid => "grid"@,
            SprintResults::Position => "position"@,
            SprintResults::PositionText => "positionText"@,
            SprintResults::PositionOrder => "positionOrder"@,
            SprintResults::Points => "points"@,
            SprintResults::Laps => "laps"@,
            SprintResults::Time => "time"@,
            SprintResults::Milliseconds => "milliseconds"@,
            SprintResults::FastestLap => "fastestLap"@,
            SprintResults::FastestLapTime => "fastestLapTime"@,
            SprintResults::FastestLapSpeed => "fastestLapSpeed"@,
            SprintResults::StatusID => "statusId"@,
        }
    }

    /// The identifier as the schema spells it.
    pub fn name(&self) -> (s: &'static str)
        ensures
            s@ == self.spec_name(),
    {
        match self {
            SprintResults::Table => "sprintResults",
            SprintResults::RaceID => "raceId",
            SprintResults::DriverID => "driverId",
            SprintResults::ConstructorID => "constructorId",
            SprintResults::Number => "number",
            SprintResults::Grid => "grid",
            SprintResults::Position => "position",
            SprintResults::PositionText => "positionText",
            SprintResults::PositionOrder => "positionOrder",
            SprintResults::Points => "points",
            SprintResults::Laps => "laps",
            SprintResults::Time => "time",
            SprintResults::Milliseconds => "milliseconds",
            SprintResults::FastestLap => "fastestLap",
            SprintResults::FastestLapTime => "fastestLapTime",
            SprintResults::FastestLapSpeed => "fastestLapSpeed",
            SprintResults::StatusID => "statusId",
        }
    }
}

} // verus!
