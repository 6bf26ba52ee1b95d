//! The records that the input files hold, one shape per file.
//!
//! None of them names its race: the loader supplies it.

use crate::timing::{Elapsed, WallTime};
use vstd::prelude::*;

verus! {

/// The characters of a text that may be absent.
pub open spec fn opt_text(text: Option<String>) -> Option<Seq<char>> {
    match text {
        Some(t) => Some(t@),
        None => None,
    }
}

/// One lap of one driver.
#[derive(Clone, Copy, Debug, PartialEq, Eq, Structural)]
pub struct LapTime {
    pub driver_id: i32,
    pub lap: u16,
    pub position: u16,
    pub time: Elapsed,
}

/// One pit stop of one driver: when it happened and how long it took.
#[derive(Clone, Copy, Debug, PartialEq, Eq, Structural)]
pub struct PitStop {
    pub driver_id: i32,
    pub stop: u16,
    pub lap: u16,
    pub time: WallTime,
    pub duration: Elapsed,
}

/// A driver's best laps in the up to three segments of qualifying.
#[derive(Debug, PartialEq, Eq)]
pub struct Qualifying {
    pub driver_id: i32,
    pub constructor_id: i32,
    pub position: u16,
    pub number: u16,
    pub q1: String,
    pub q2: Option<String>,
    pub q3: Option<String>,
}

pub struct QualifyingView {
    pub driver_id: i32,
    pub constructor_id: i32,
    pub position: u16,
    pub number: u16,
    pub q1: Seq<char>,
    pub q2: Option<Seq<char>>,
    pub q3: Option<Seq<char>>,
}

impl View for Qualifying {
    type V = QualifyingView;

    open spec fn view(&self) -> QualifyingView {
        QualifyingView {
            driver_id: self.driver_id,
            constructor_id: self.constructor_id,
            position: self.position,
            number: self.number,
            q1: self.q1@,
            q2: opt_text(self.q2),
            q3: opt_text(self.q3),
        }
    }
}

/// A driver's result in the race. A driver who retired has no `position`.
/// `fastest_lap_speed` is a decimal numeral, kept as it was written.
#[derive(Debug, PartialEq, Eq)]
pub struct RaceResult {
    pub driver_id: i32,
    pub constructor_id: i32,
    pub driver_number: u16,
    pub position: Option<u16>,
    pub grid: u16,
    pub position_text: String,
    pub position_order: u16,
    pub points: u16,
    pub laps: u16,
    pub time: Option<String>,
    pub milliseconds: Option<String>,
    pub fastest_lap: Option<u16>,
    pub fatest_lap_time: Option<String>,
    pub rank: Option<u16>,
    pub fastest_lap_speed: Option<String>,
}

pub struct RaceResultView {
    pub driver_id: i32,
    pub constructor_id: i32,
    pub driver_number: u16,
    pub position: Option<u16>,
    pub grid: u16,
    pub position_text: Seq<char>,
    pub position_order: u16,
    pub points: u16,
    pub laps: u16,
    pub time: Option<Seq<char>>,
    pub milliseconds: Option<Seq<char>>,
    pub fastest_lap: Option<u16>,
    pub fatest_lap_time: Option<Seq<char>>,
    pub rank: Option<u16>,
    pub fastest_lap_speed: Option<Seq<char>>,
}

impl View for RaceResult {
    type V = RaceResultView;

    open spec fn view(&self) -> RaceResultView {
        RaceResultView {
            driver_id: self.driver_id,
            constructor_id: self.constructor_id,
            driver_number: self.driver_number,
            position: self.position,
            grid: self.grid,
            position_text: self.position_text@,
            position_order: self.position_order,
            points: self.points,
            laps: self.laps,
            time: opt_text(self.time),
            milliseconds: opt_text(self.milliseconds),
            fastest_lap: self.fastest_lap,
            fatest_lap_time: opt_text(self.fatest_lap_time),
            rank: self.rank,
            fastest_lap_speed: opt_text(self.fastest_lap_speed),
        }
    }
}

/// A driver's place in the championship after the race.
#[derive(Debug, PartialEq, Eq)]
pub struct DriverStanding {
    pub driver_id: i32,
    pub points: u32,
    pub position: u32,
    pub position_text: String,
    pub wins: u32,
}

pub struct DriverStandingView {
    pub driver_id: i32,
    pub points: u32,
    pub position: u32,
    pub position_text: Seq<char>,
    pub wins: u32,
}

impl View for DriverStanding {
    type V = DriverStandingView;

    open spec fn view(&self) -> DriverStandingView {
        DriverStandingView {
            driver_id: self.driver_id,
            points: self.points,
            position: self.position,
            position_text: self.position_text@,
            wins: self.wins,
        }
    }
}

/// A constructor's place in the championship after the race.
#[derive(Debug, PartialEq, Eq)]
pub struct ConstructorStanding {
    pub constructor_id: i32,
    pub points: u32,
    pub position: u32,
    pub position_text: String,
    pub wins: u32,
}

pub struct ConstructorStandingView {
    pub constructor_id: i32,
    pub points: u32,
    pub position: u32,
    pub position_text: Seq<char>,
    pub wins: u32,
}

impl View for ConstructorStanding {
    type V = ConstructorStandingView;

    open spec fn view(&self) -> ConstructorStandingView {
        ConstructorStandingView {
            constructor_id: self.constructor_id,
            points: self.points,
            position: self.position,
            position_text: self.position_text@,
            wins: self.wins,
        }
    }
}

/// The points a constructor scored in the race.
#[derive(Clone, Copy, Debug, PartialEq, Eq, Structural)]
pub struct ConstructorResult {
    pub constructor_id: i32,
    pub points: u16,
}

/// A driver's result in the sprint, as the sprint's own file gives it: by car
/// number and entrant's name. `fastest_lap_speed` is a decimal numeral, kept as
/// it was written.
#[derive(Debug, PartialEq, Eq)]
pub struct DriverSprintResult {
    pub no: u16,
    pub entrant: String,
    pub grid: u16,
    pub position: String,
    pub position_order: u16,
    pub points: u16,
    pub laps: u16,
    pub time: Option<String>,
    pub milliseconds: Option<String>,
    pub fastest_lap: Option<u16>,
    pub fatest_lap_time: Option<String>,
    pub fastest_lap_speed: Option<String>,
}

pub struct DriverSprintResultView {
    pub no: u16,
    pub entrant: Seq<char>,
    pub grid: u16,
    pub position: Seq<char>,
    pub position_order: u16,
    pub points: u16,
    pub laps: u16,
    pub time: Option<Seq<char>>,
    pub milliseconds: Option<Seq<char>>,
    pub fastest_lap: Option<u16>,
    pub fatest_lap_time: Option<Seq<char>>,
    pub fastest_lap_speed: Option<Seq<char>>,
}

impl View for DriverSprintResult {
    type V = DriverSprintResultView;

    open spec fn view(&self) -> DriverSprintResultView {
        DriverSprintResultView {
            no: self.no,
            entrant: self.entrant@,
            grid: self.grid,
            position: self.position@,
            position_order: self.position_order,
            points: self.points,
            laps: self.laps,
            time: opt_text(self.time),
            milliseconds: opt_text(self.milliseconds),
            fastest_lap: self.fastest_lap,
            fatest_lap_time: opt_text(self.fatest_lap_time),
            fastest_lap_speed: opt_text(self.fastest_lap_speed),
        }
    }
}

/// A driver's result in the sprint with its driver and constructor resolved.
#[derive(Debug, PartialEq, Eq)]
pub struct SprintResult {
    pub driver_id: i32,
    pub constructor_id: i32,
    pub result: DriverSprintResult,
}

pub struct SprintResultView {
    pub driver_id: i32,
    pub constructor_id: i32,
    pub result: DriverSprintResultView,
}

impl View for SprintResult {
    type V = SprintResultView;

    open spec fn view(&self) -> SprintResultView {
        SprintResultView {
            driver_id: self.driver_id,
            constructor_id: self.constructor_id,
            result: self.result@,
        }
    }
}

/// A record of any kind that has a row in the destination.
#[derive(Debug, PartialEq, Eq)]
pub enum Record {
    LapTime(LapTime),
    PitStop(PitStop),
    Qualifying(Qualifying),
    RaceResult(RaceResult),
    DriverStanding(DriverStanding),
    ConstructorStanding(ConstructorStanding),
    ConstructorResult(ConstructorResult),
    SprintResult(SprintResult),
}

pub enum RecordView {
    LapTime(LapTime),
    PitStop(PitStop),
    Qualifying(QualifyingView),
    RaceResult(RaceResultView),
    DriverStanding(DriverStandingView),
    ConstructorStanding(ConstructorStandingView),
    ConstructorResult(ConstructorResult),
    SprintResult(SprintResultView),
}

impl View for Record {
    type V = RecordView;

    open spec fn view(&self) -> RecordView {
        match self {
            Record::LapTime(r) => RecordView::LapTime(*r),
            Record::PitStop(r) => RecordView::PitStop(*r),
            Record::Qualifying(r) => RecordView::Qualifying(r@),
            Record::RaceResult(r) => RecordView::RaceResult(r@),
            Record::DriverStanding(r) => RecordView::DriverStanding(r@),
            Record::ConstructorStanding(r) => RecordView::ConstructorStanding(r@),
            Record::ConstructorResult(r) => RecordView::ConstructorResult(*r),
            Record::SprintResult(r) => RecordView::SprintResult(r@),
        }
    }
}

} // verus!
