//! The shape of each kind of record: the columns it is read from, and how the
//! cells of a row make the record.

use crate::decode::{
    cells_view, decode_row, fields_view, record_view, spec_decode_row, Cell, CellView,
    DecodeFault, Field, FieldKind, FieldView,
};
use crate::models::{
    ConstructorResult, ConstructorStanding, ConstructorStandingView, DriverSprintResult,
    DriverSprintResultView, DriverStanding, DriverStandingView, LapTime, PitStop, Qualifying,
    QualifyingView, RaceResult, RaceResultView,
};
use crate::timing::{Elapsed, WallTime};
use vstd::prelude::*;

verus! {

/// The number in a cell.
pub open spec fn cell_int(cell: CellView) -> i64 {
    match cell {
        CellView::Int(n) => n,
        _ => 0,
    }
}

/// The text in a cell.
pub open spec fn cell_text(cell: CellView) -> Seq<char> {
    match cell {
        CellView::Text(t) => t,
        _ => Seq::empty(),
    }
}

/// The text in a cell that may be absent.
pub open spec fn cell_opt_text(cell: CellView) -> Option<Seq<char>> {
    match cell {
        CellView::Text(t) => Some(t),
        _ => None,
    }
}

/// The small number in a cell that may be absent.
pub open spec fn cell_opt_u16(cell: CellView) -> Option<u16> {
    match cell {
        CellView::Int(n) => Some(n as u16),
        _ => None,
    }
}

/// The time of day in a cell.
pub open spec fn cell_time(cell: CellView) -> WallTime {
    match cell {
        CellView::Time(t) => t,
        _ => WallTime { hour: 0, minute: 0, second: 0, nanosecond: 0 },
    }
}

/// The span of time in a cell.
pub open spec fn cell_span(cell: CellView) -> Elapsed {
    match cell {
        CellView::Span(e) => e,
        _ => Elapsed { millis: 0 },
    }
}

fn int_of(cell: &Cell) -> (n: i64)
    requires
        cell@ is Int,
    ensures
        n == cell_int(cell@),
{
    match cell {
        Cell::Int(n) => *n,
        _ => 0,
    }
}

fn text_of(cell: &Cell) -> (text: String)
    requires
        cell@ is Text,
    ensures
        text@ == cell_text(cell@),
{
    match cell {
        Cell::Text(t) => t.clone(),
        _ => String::new(),
    }
}

fn opt_text_of(cell: &Cell) -> (text: Option<String>)
    requires
        cell@ is Text || cell@ is Absent,
    ensures
        crate::models::opt_text(text) == cell_opt_text(cell@),
{
    match cell {
        Cell::Text(t) => Some(t.clone()),
        _ => None,
    }
}

fn opt_u16_of(cell: &Cell) -> (n: Option<u16>)
    requires
        cell@ is Absent || (cell@ matches CellView::Int(v) && 0 <= v <= u16::MAX),
    ensures
        n == cell_opt_u16(cell@),
{
    match cell {
        Cell::Int(v) => Some(*v as u16),
        _ => None,
    }
}

fn time_of(cell: &Cell) -> (time: WallTime)
    requires
        cell@ is Time,
    ensures
        time == cell_time(cell@),
{
    match cell {
        Cell::Time(t) => *t,
        _ => WallTime { hour: 0, minute: 0, second: 0, nanosecond: 0 },
    }
}

fn span_of(cell: &Cell) -> (span: Elapsed)
    requires
        cell@ is Span,
    ensures
        span == cell_span(cell@),
{
    match cell {
        Cell::Span(e) => *e,
        _ => Elapsed { millis: 0 },
    }
}

/// The columns of a lap.
pub open spec fn spec_lap_time_fields() -> Seq<FieldView> {
    seq![
        FieldView { name: "driver_id"@, kind: FieldKind::I32 },
        FieldView { name: "lap"@, kind: FieldKind::U16 },
        FieldView { name: "position"@, kind: FieldKind::U16 },
        FieldView { name: "time"@, kind: FieldKind::LapDuration },
    ]
}

/// The columns of a lap.
pub fn lap_time_fields() -> (fields: Vec<Field>)
    ensures
        fields_view(fields) == spec_lap_time_fields(),
{
    let mut fields: Vec<Field> = Vec::new();
    fields.push(Field { name: "driver_id", kind: FieldKind::I32 });
    fields.push(Field { name: "lap", kind: FieldKind::U16 });
    fields.push(Field { name: "position", kind: FieldKind::U16 });
    fields.push(Field { name: "time", kind: FieldKind::LapDuration });
    assert(fields_view(fields) =~= spec_lap_time_fields());
    fields
}

/// The record that the cells of a row make, one cell for each column of the shape.
pub open spec fn lap_time_of(cells: Seq<CellView>) -> LapTime {
    LapTime {
        driver_id: cell_int(cells[0]) as i32,
        lap: cell_int(cells[1]) as u16,
        position: cell_int(cells[2]) as u16,
        time: cell_span(cells[3]),
    }
}

/// What a row is read as: a lap, or the row's first fault.
pub open spec fn spec_decode_lap_time(header: Seq<Seq<u8>>, row: Seq<Seq<u8>>) -> Result<
    LapTime,
    DecodeFault,
> {
    match spec_decode_row(spec_lap_time_fields(), header, row) {
        Ok(cells) => Ok(lap_time_of(cells)),
        Err(fault) => Err(fault),
    }
}

/// Reads a row under a header as a lap.
pub fn decode_lap_time(header: &Vec<Vec<u8>>, row: &Vec<Vec<u8>>) -> (result: Result<
    LapTime,
    DecodeFault,
>)
    ensures
        match result {
            Ok(record) => spec_decode_lap_time(record_view(*header), record_view(*row)) == Ok::<
                LapTime,
                DecodeFault,
            >(record),
            Err(fault) => spec_decode_lap_time(record_view(*header), record_view(*row)) == Err::<
                LapTime,
                DecodeFault,
            >(fault),
        },
{
    let fields = lap_time_fields();
    match decode_row(&fields, header, row) {
        Err(fault) => Err(fault),
        Ok(cells) => {
            proof {
                assert(fields_view(fields)[0] == fields@[0]@);
                assert(cells_view(cells)[0] == cells@[0]@);
                assert(fields_view(fields)[1] == fields@[1]@);
                assert(cells_view(cells)[1] == cells@[1]@);
                assert(fields_view(fields)[2] == fields@[2]@);
                assert(cells_view(cells)[2] == cells@[2]@);
                assert(fields_view(fields)[3] == fields@[3]@);
                assert(cells_view(cells)[3] == cells@[3]@);
            }
            Ok(
                LapTime {
                    driver_id: int_of(&cells[0]) as i32,
                    lap: int_of(&cells[1]) as u16,
                    position: int_of(&cells[2]) as u16,
                    time: span_of(&cells[3]),
                },
            )
        },
    }
}

/// The columns of a pit stop.
pub open spec fn spec_pit_stop_fields() -> Seq<FieldView> {
    seq![
        FieldView { name: "driver_id"@, kind: FieldKind::I32 },
        FieldView { name: "stop"@, kind: FieldKind::U16 },
        FieldView { name: "lap"@, kind: FieldKind::U16 },
        FieldView { name: "time"@, kind: FieldKind::TimeOfDay },
        FieldView { name: "duration"@, kind: FieldKind::StopDuration },
    ]
}

/// The columns of a pit stop.
pub fn pit_stop_fields() -> (fields: Vec<Field>)
    ensures
        fields_view(fields) == spec_pit_stop_fields(),
{
    let mut fields: Vec<Field> = Vec::new();
    fields.push(Field { name: "driver_id", kind: FieldKind::I32 });
    fields.push(Field { name: "stop", kind: FieldKind::U16 });
    fields.push(Field { name: "lap", kind: FieldKind::U16 });
    fields.push(Field { name: "time", kind: FieldKind::TimeOfDay });
    fields.push(Field { name: "duration", kind: FieldKind::StopDuration });
    assert(fields_view(fields) =~= spec_pit_stop_fields());
    fields
}

/// The record that the cells of a row make, one cell for each column of the shape.
pub open spec fn pit_stop_of(cells: Seq<CellView>) -> PitStop {
    PitStop {
        driver_id: cell_int(cells[0]) as i32,
        stop: cell_int(cells[1]) as u16,
        lap: cell_int(cells[2]) as u16,
        time: cell_time(cells[3]),
        duration: cell_span(cells[4]),
    }
}

/// What a row is read as: a pit stop, or the row's first fault.
pub open spec fn spec_decode_pit_stop(header: Seq<Seq<u8>>, row: Seq<Seq<u8>>) -> Result<
    PitStop,
    DecodeFault,
> {
    match spec_decode_row(spec_pit_stop_fields(), header, row) {
        Ok(cells) => Ok(pit_stop_of(cells)),
        Err(fault) => Err(fault),
    }
}

/// Reads a row under a header as a pit stop.
pub fn decode_pit_stop(header: &Vec<Vec<u8>>, row: &Vec<Vec<u8>>) -> (result: Result<
    PitStop,
    DecodeFault,
>)
    ensures
        match result {
            Ok(record) => spec_decode_pit_stop(record_view(*header), record_view(*row)) == Ok::<
                PitStop,
                DecodeFault,
            >(record),
            Err(fault) => spec_decode_pit_stop(record_view(*header), record_view(*row)) == Err::<
                PitStop,
                DecodeFault,
            >(fault),
        },
{
    let fields = pit_stop_fields();
    match decode_row(&fields, header, row) {
        Err(fault) => Err(fault),
        Ok(cells) => {
            proof {
                assert(fields_view(fields)[0] == fields@[0]@);
                assert(cells_view(cells)[0] == cells@[0]@);
                assert(fields_view(fields)[1] == fields@[1]@);
                assert(cells_view(cells)[1] == cells@[1]@);
                assert(fields_view(fields)[2] == fields@[2]@);
                assert(cells_view(cells)[2] == cells@[2]@);
                assert(fields_view(fields)[3] == fields@[3]@);
                assert(cells_view(cells)[3] == cells@[3]@);
                assert(fields_view(fields)[4] == fields@[4]@);
                assert(cells_view(cells)[4] == cells@[4]@);
            }
            Ok(
                PitStop {
                    driver_id: int_of(&cells[0]) as i32,
                    stop: int_of(&cells[1]) as u16,
                    lap: int_of(&cells[2]) as u16,
                    time: time_of(&cells[3]),
                    duration: span_of(&cells[4]),
                },
            )
        },
    }
}

/// The columns of a qualifying result.
pub open spec fn spec_qualifying_fields() -> Seq<FieldView> {
    seq![
        FieldView { name: "driver_id"@, kind: FieldKind::I32 },
        FieldView { name: "constructor_id"@, kind: FieldKind::I32 },
        FieldView { name: "position"@, kind: FieldKind::U16 },
        FieldView { name: "number"@, kind: FieldKind::U16 },
        FieldView { name: "q1"@, kind: FieldKind::Text },
        FieldView { name: "q2"@, kind: FieldKind::OptText },
        FieldView { name: "q3"@, kind: FieldKind::OptText },
    ]
}

/// The columns of a qualifying result.
pub fn qualifying_fields() -> (fields: Vec<Field>)
    ensures
        fields_view(fields) == spec_qualifying_fields(),
{
    let mut fields: Vec<Field> = Vec::new();
    fields.push(Field { name: "driver_id", kind: FieldKind::I32 });
    fields.push(Field { name: "constructor_id", kind: FieldKind::I32 });
    fields.push(Field { name: "position", kind: FieldKind::U16 });
    fields.push(Field { name: "number", kind: FieldKind::U16 });
    fields.push(Field { name: "q1", kind: FieldKind::Text });
    fields.push(Field { name: "q2", kind: FieldKind::OptText });
    fields.push(Field { name: "q3", kind: FieldKind::OptText });
    assert(fields_view(fields) =~= spec_qualifying_fields());
    fields
}

/// The record that the cells of a row make, one cell for each column of the shape.
pub open spec fn qualifying_of(cells: Seq<CellView>) -> QualifyingView {
    QualifyingView {
        driver_id: cell_int(cells[0]) as i32,
        constructor_id: cell_int(cells[1]) as i32,
        position: cell_int(cells[2]) as u16,
        number: cell_int(cells[3]) as u16,
        q1: cell_text(cells[4]),
        q2: cell_opt_text(cells[5]),
        q3: cell_opt_text(cells[6]),
    }
}

/// What a row is read as: a qualifying result, or the row's first fault.
pub open spec fn spec_decode_qualifying(header: Seq<Seq<u8>>, row: Seq<Seq<u8>>) -> Result<
    QualifyingView,
    DecodeFault,
> {
    match spec_decode_row(spec_qualifying_fields(), header, row) {
        Ok(cells) => Ok(qualifying_of(cells)),
        Err(fault) => Err(fault),
    }
}

/// Reads a row under a header as a qualifying result.
pub fn decode_qualifying(header: &Vec<Vec<u8>>, row: &Vec<Vec<u8>>) -> (result: Result<
    Qualifying,
    DecodeFault,
>)
    ensures
        match result {
            Ok(record) => spec_decode_qualifying(record_view(*header), record_view(*row)) == Ok::<
                QualifyingView,
                DecodeFault,
            >(record@),
            Err(fault) => spec_decode_qualifying(record_view(*header), record_view(*row)) == Err::<
                QualifyingView,
                DecodeFault,
            >(fault),
        },
{
    let fields = qualifying_fields();
    match decode_row(&fields, header, row) {
        Err(fault) => Err(fault),
        Ok(cells) => {
            proof {
                assert(fields_view(fields)[0] == fields@[0]@);
                assert(cells_view(cells)[0] == cells@[0]@);
                assert(fields_view(fields)[1] == fields@[1]@);
                assert(cells_view(cells)[1] == cells@[1]@);
                assert(fields_view(fields)[2] == fields@[2]@);
                assert(cells_view(cells)[2] == cells@[2]@);
                assert(fields_view(fields)[3] == fields@[3]@);
                assert(cells_view(cells)[3] == cells@[3]@);
                assert(fields_view(fields)[4] == fields@[4]@);
                assert(cells_view(cells)[4] == cells@[4]@);
                assert(fields_view(fields)[5] == fields@[5]@);
                assert(cells_view(cells)[5] == cells@[5]@);
                assert(fields_view(fields)[6] == fields@[6]@);
                assert(cells_view(cells)[6] == cells@[6]@);
            }
            Ok(
                Qualifying {
                    driver_id: int_of(&cells[0]) as i32,
                    constructor_id: int_of(&cells[1]) as i32,
                    position: int_of(&cells[2]) as u16,
                    number: int_of(&cells[3]) as u16,
                    q1: text_of(&cells[4]),
                    q2: opt_text_of(&cells[5]),
                    q3: opt_text_of(&cells[6]),
                },
            )
        },
    }
}

/// The columns of a race result.
pub open spec fn spec_race_result_fields() -> Seq<FieldView> {
    seq![
        FieldView { name: "driver_id"@, kind: FieldKind::I32 },
        FieldView { name: "constructor_id"@, kind: FieldKind::I32 },
        FieldView { name: "driver_number"@, kind: FieldKind::U16 },
        FieldView { name: "position"@, kind: FieldKind::OptU16 },
        FieldView { name: "grid"@, kind: FieldKind::U16 },
        FieldView { name: "position_text"@, kind: FieldKind::Text },
        FieldView { name: "position_order"@, kind: FieldKind::U16 },
        FieldView { name: "points"@, kind: FieldKind::U16 },
        FieldView { name: "laps"@, kind: FieldKind::U16 },
        FieldView { name: "time"@, kind: FieldKind::OptText },
        FieldView { name: "milliseconds"@, kind: FieldKind::OptText },
        FieldView { name: "fastest_lap"@, kind: FieldKind::OptU16 },
        FieldView { name: "fatest_lap_time"@, kind: FieldKind::OptText },
        FieldView { name: "rank"@, kind: FieldKind::OptU16 },
        FieldView { name: "fastest_lap_speed"@, kind: FieldKind::OptDecimal },
    ]
}

/// The columns of a race result.
pub fn race_result_fields() -> (fields: Vec<Field>)
    ensures
        fields_view(fields) == spec_race_result_fields(),
{
    let mut fields: Vec<Field> = Vec::new();
    fields.push(Field { name: "driver_id", kind: FieldKind::I32 });
    fields.push(Field { name: "constructor_id", kind: FieldKind::I32 });
    fields.push(Field { name: "driver_number", kind: FieldKind::U16 });
    fields.push(Field { name: "position", kind: FieldKind::OptU16 });
    fields.push(Field { name: "grid", kind: FieldKind::U16 });
    fields.push(Field { name: "position_text", kind: FieldKind::Text });
    fields.push(Field { name: "position_order", kind: FieldKind::U16 });
    fields.push(Field { name: "points", kind: FieldKind::U16 });
    fields.push(Field { name: "laps", kind: FieldKind::U16 });
    fields.push(Field { name: "time", kind: FieldKind::OptText });
    fields.push(Field { name: "milliseconds", kind: FieldKind::OptText });
    fields.push(Field { name: "fastest_lap", kind: FieldKind::OptU16 });
    fields.push(Field { name: "fatest_lap_time", kind: FieldKind::OptText });
    fields.push(Field { name: "rank", kind: FieldKind::OptU16 });
    fields.push(Field { name: "fastest_lap_speed", kind: FieldKind::OptDecimal });
    assert(fields_view(fields) =~= spec_race_result_fields());
    fields
}

/// The record that the cells of a row make, one cell for each column of the shape.
pub open spec fn race_result_of(cells: Seq<CellView>) -> RaceResultView {
    RaceResultView {
        driver_id: cell_int(cells[0]) as i32,
        constructor_id: cell_int(cells[1]) as i32,
        driver_number: cell_int(cells[2]) as u16,
        position: cell_opt_u16(cells[3]),
        grid: cell_int(cells[4]) as u16,
        position_text: cell_text(cells[5]),
        position_order: cell_int(cells[6]) as u16,
        points: cell_int(cells[7]) as u16,
        laps: cell_int(cells[8]) as u16,
        time: cell_opt_text(cells[9]),
        milliseconds: cell_opt_text(cells[10]),
        fastest_lap: cell_opt_u16(cells[11]),
        fatest_lap_time: cell_opt_text(cells[12]),
        rank: cell_opt_u16(cells[13]),
        fastest_lap_speed: cell_opt_text(cells[14]),
    }
}

/// What a row is read as: a race result, or the row's first fault.
pub open spec fn spec_decode_race_result(header: Seq<Seq<u8>>, row: Seq<Seq<u8>>) -> Result<
    RaceResultView,
    DecodeFault,
> {
    match spec_decode_row(spec_race_result_fields(), header, row) {
        Ok(cells) => Ok(race_result_of(cells)),
        Err(fault) => Err(fault),
    }
}

/// Reads a row under a header as a race result.
pub fn decode_race_result(header: &Vec<Vec<u8>>, row: &Vec<Vec<u8>>) -> (result: Result<
    RaceResult,
    DecodeFault,
>)
    ensures
        match result {
            Ok(record) => spec_decode_race_result(record_view(*header), record_view(*row)) == Ok::<
                RaceResultView,
                DecodeFault,
            >(record@),
            Err(fault) => spec_decode_race_result(record_view(*header), record_view(*row)) == Err::<
                RaceResultView,
                DecodeFault,
            >(fault),
        },
{
    let fields = race_result_fields();
    match decode_row(&fields, header, row) {
        Err(fault) => Err(fault),
        Ok(cells) => {
            proof {
                assert(fields_view(fields)[0] == fields@[0]@);
                assert(cells_view(cells)[0] == cells@[0]@);
                assert(fields_view(fields)[1] == fields@[1]@);
                assert(cells_view(cells)[1] == cells@[1]@);
                assert(fields_view(fields)[2] == fields@[2]@);
                assert(cells_view(cells)[2] == cells@[2]@);
                assert(fields_view(fields)[3] == fields@[3]@);
                assert(cells_view(cells)[3] == cells@[3]@);
                assert(fields_view(fields)[4] == fields@[4]@);
                assert(cells_view(cells)[4] == cells@[4]@);
                assert(fields_view(fields)[5] == fields@[5]@);
                assert(cells_view(cells)[5] == cells@[5]@);
                assert(fields_view(fields)[6] == fields@[6]@);
                assert(cells_view(cells)[6] == cells@[6]@);
                assert(fields_view(fields)[7] == fields@[7]@);
                assert(cells_view(cells)[7] == cells@[7]@);
                assert(fields_view(fields)[8] == fields@[8]@);
                assert(cells_view(cells)[8] == cells@[8]@);
                assert(fields_view(fields)[9] == fields@[9]@);
                assert(cells_view(cells)[9] == cells@[9]@);
                assert(fields_view(fields)[10] == fields@[10]@);
                assert(cells_view(cells)[10] == cells@[10]@);
                assert(fields_view(fields)[11] == fields@[11]@);
                assert(cells_view(cells)[11] == cells@[11]@);
                assert(fields_view(fields)[12] == fields@[12]@);
                assert(cells_view(cells)[12] == cells@[12]@);
                assert(fields_view(fields)[13] == fields@[13]@);
                assert(cells_view(cells)[13] == cells@[13]@);
                assert(fields_view(fields)[14] == fields@[14]@);
                assert(cells_view(cells)[14] == cells@[14]@);
            }
            Ok(
                RaceResult {
                    driver_id: int_of(&cells[0]) as i32,
                    constructor_id: int_of(&cells[1]) as i32,
                    driver_number: int_of(&cells[2]) as u16,
                    position: opt_u16_of(&cells[3]),
                    grid: int_of(&cells[4]) as u16,
                    position_text: text_of(&cells[5]),
                    position_order: int_of(&cells[6]) as u16,
                    points: int_of(&cells[7]) as u16,
                    laps: int_of(&cells[8]) as u16,
                    time: opt_text_of(&cells[9]),
                    milliseconds: opt_text_of(&cells[10]),
                    fastest_lap: opt_u16_of(&cells[11]),
                    fatest_lap_time: opt_text_of(&cells[12]),
                    rank: opt_u16_of(&cells[13]),
                    fastest_lap_speed: opt_text_of(&cells[14]),
                },
            )
        },
    }
}

/// The columns of a driver's standing.
pub open spec fn spec_driver_standing_fields() -> Seq<FieldView> {
    seq![
        FieldView { name: "driver_id"@, kind: FieldKind::I32 },
        FieldView { name: "points"@, kind: FieldKind::U32 },
        FieldView { name: "position"@, kind: FieldKind::U32 },
        FieldView { name: "position_text"@, kind: FieldKind::Text },
        FieldView { name: "wins"@, kind: FieldKind::U32 },
    ]
}

/// The columns of a driver's standing.
pub fn driver_standing_fields() -> (fields: Vec<Field>)
    ensures
        fields_view(fields) == spec_driver_standing_fields(),
{
    let mut fields: Vec<Field> = Vec::new();
    fields.push(Field { name: "driver_id", kind: FieldKind::I32 });
    fields.push(Field { name: "points", kind: FieldKind::U32 });
    fields.push(Field { name: "position", kind: FieldKind::U32 });
    fields.push(Field { name: "position_text", kind: FieldKind::Text });
    fields.push(Field { name: "wins", kind: FieldKind::U32 });
    assert(fields_view(fields) =~= spec_driver_standing_fields());
    fields
}

/// The record that the cells of a row make, one cell for each column of the shape.
pub open spec fn driver_standing_of(cells: Seq<CellView>) -> DriverStandingView {
    DriverStandingView {
        driver_id: cell_int(cells[0]) as i32,
        points: cell_int(cells[1]) as u32,
        position: cell_int(cells[2]) as u32,
        position_text: cell_text(cells[3]),
        wins: cell_int(cells[4]) as u32,
    }
}

/// What a row is read as: a driver's standing, or the row's first fault.
pub open spec fn spec_decode_driver_standing(header: Seq<Seq<u8>>, row: Seq<Seq<u8>>) -> Result<
    DriverStandingView,
    DecodeFault,
> {
    match spec_decode_row(spec_driver_standing_fields(), header, row) {
        Ok(cells) => Ok(driver_standing_of(cells)),
        Err(fault) => Err(fault),
    }
}

/// Reads a row under a header as a driver's standing.
pub fn decode_driver_standing(header: &Vec<Vec<u8>>, row: &Vec<Vec<u8>>) -> (result: Result<
    DriverStanding,
    DecodeFault,
>)
    ensures
        match result {
            Ok(record) => spec_decode_driver_standing(record_view(*header), record_view(*row)) == Ok::<
                DriverStandingView,
                DecodeFault,
            >(record@),
            Err(fault) => spec_decode_driver_standing(record_view(*header), record_view(*row)) == Err::<
                DriverStandingView,
                DecodeFault,
            >(fault),
        },
{
    let fields = driver_standing_fields();
    match decode_row(&fields, header, row) {
        Err(fault) => Err(fault),
        Ok(cells) => {
            proof {
                assert(fields_view(fields)[0] == fields@[0]@);
                assert(cells_view(cells)[0] == cells@[0]@);
                assert(fields_view(fields)[1] == fields@[1]@);
                assert(cells_view(cells)[1] == cells@[1]@);
                assert(fields_view(fields)[2] == fields@[2]@);
                assert(cells_view(cells)[2] == cells@[2]@);
                assert(fields_view(fields)[3] == fields@[3]@);
                assert(cells_view(cells)[3] == cells@[3]@);
                assert(fields_view(fields)[4] == fields@[4]@);
                assert(cells_view(cells)[4] == cells@[4]@);
            }
            Ok(
                DriverStanding {
                    driver_id: int_of(&cells[0]) as i32,
                    points: int_of(&cells[1]) as u32,
                    position: int_of(&cells[2]) as u32,
                    position_text: text_of(&cells[3]),
                    wins: int_of(&cells[4]) as u32,
                },
            )
        },
    }
}

/// The columns of a constructor's standing.
pub open spec fn spec_constructor_standing_fields() -> Seq<FieldView> {
    seq![
        FieldView { name: "constructor_id"@, kind: FieldKind::I32 },
        FieldView { name: "points"@, kind: FieldKind::U32 },
        FieldView { name: "position"@, kind: FieldKind::U32 },
        FieldView { name: "position_text"@, kind: FieldKind::Text },
        FieldView { name: "wins"@, kind: FieldKind::U32 },
    ]
}

/// The columns of a constructor's standing.
pub fn constructor_standing_fields() -> (fields: Vec<Field>)
    ensures
        fields_view(fields) == spec_constructor_standing_fields(),
{
    let mut fields: Vec<Field> = Vec::new();
    fields.push(Field { name: "constructor_id", kind: FieldKind::I32 });
    fields.push(Field { name: "points", kind: FieldKind::U32 });
    fields.push(Field { name: "position", kind: FieldKind::U32 });
    fields.push(Field { name: "position_text", kind: FieldKind::Text });
    fields.push(Field { name: "wins", kind: FieldKind::U32 });
    assert(fields_view(fields) =~= spec_constructor_standing_fields());
    fields
}

/// The record that the cells of a row make, one cell for each column of the shape.
pub open spec fn constructor_standing_of(cells: Seq<CellView>) -> ConstructorStandingView {
    ConstructorStandingView {
        constructor_id: cell_int(cells[0]) as i32,
        points: cell_int(cells[1]) as u32,
        position: cell_int(cells[2]) as u32,
        position_text: cell_text(cells[3]),
        wins: cell_int(cells[4]) as u32,
    }
}

/// What a row is read as: a constructor's standing, or the row's first fault.
pub open spec fn spec_decode_constructor_standing(header: Seq<Seq<u8>>, row: Seq<Seq<u8>>) -> Result<
    ConstructorStandingView,
    DecodeFault,
> {
    match spec_decode_row(spec_constructor_standing_fields(), header, row) {
        Ok(cells) => Ok(constructor_standing_of(cells)),
        Err(fault) => Err(fault),
    }
}

/// Reads a row under a header as a constructor's standing.
pub fn decode_constructor_standing(header: &Vec<Vec<u8>>, row: &Vec<Vec<u8>>) -> (result: Result<
    ConstructorStanding,
    DecodeFault,
>)
    ensures
        match result {
            Ok(record) => spec_decode_constructor_standing(record_view(*header), record_view(*row)) == Ok::<
                ConstructorStandingView,
                DecodeFault,
            >(record@),
            Err(fault) => spec_decode_constructor_standing(record_view(*header), record_view(*row)) == Err::<
                ConstructorStandingView,
                DecodeFault,
            >(fault),
        },
{
    let fields = constructor_standing_fields();
    match decode_row(&fields, header, row) {
        Err(fault) => Err(fault),
        Ok(cells) => {
            proof {
                assert(fields_view(fields)[0] == fields@[0]@);
                assert(cells_view(cells)[0] == cells@[0]@);
                assert(fields_view(fields)[1] == fields@[1]@);
                assert(cells_view(cells)[1] == cells@[1]@);
                assert(fields_view(fields)[2] == fields@[2]@);
                assert(cells_view(cells)[2] == cells@[2]@);
                assert(fields_view(fields)[3] == fields@[3]@);
                assert(cells_view(cells)[3] == cells@[3]@);
                assert(fields_view(fields)[4] == fields@[4]@);
                assert(cells_view(cells)[4] == cells@[4]@);
            }
            Ok(
                ConstructorStanding {
                    constructor_id: int_of(&cells[0]) as i32,
                    points: int_of(&cells[1]) as u32,
                    position: int_of(&cells[2]) as u32,
                    position_text: text_of(&cells[3]),
                    wins: int_of(&cells[4]) as u32,
                },
            )
        },
    }
}

/// The columns of a constructor's result.
pub open spec fn spec_constructor_result_fields() -> Seq<FieldView> {
    seq![
        FieldView { name: "constructor_id"@, kind: FieldKind::I32 },
        FieldView { name: "points"@, kind: FieldKind::U16 },
    ]
}

/// The columns of a constructor's result.
pub fn constructor_result_fields() -> (fields: Vec<Field>)
    ensures
        fields_view(fields) == spec_constructor_result_fields(),
{
    let mut fields: Vec<Field> = Vec::new();
    fields.push(Field { name: "constructor_id", kind: FieldKind::I32 });
    fields.push(Field { name: "points", kind: FieldKind::U16 });
    assert(fields_view(fields) =~= spec_constructor_result_fields());
    fields
}

/// The record that the cells of a row make, one cell for each column of the shape.
pub open spec fn constructor_result_of(cells: Seq<CellView>) -> ConstructorResult {
    ConstructorResult {
        constructor_id: cell_int(cells[0]) as i32,
        points: cell_int(cells[1]) as u16,
    }
}

/// What a row is read as: a constructor's result, or the row's first fault.
pub open spec fn spec_decode_constructor_result(header: Seq<Seq<u8>>, row: Seq<Seq<u8>>) -> Result<
    ConstructorResult,
    DecodeFault,
> {
    match spec_decode_row(spec_constructor_result_fields(), header, row) {
        Ok(cells) => Ok(constructor_result_of(cells)),
        Err(fault) => Err(fault),
    }
}

/// Reads a row under a header as a constructor's result.
pub fn decode_constructor_result(header: &Vec<Vec<u8>>, row: &Vec<Vec<u8>>) -> (result: Result<
    ConstructorResult,
    DecodeFault,
>)
    ensures
        match result {
            Ok(record) => spec_decode_constructor_result(record_view(*header), record_view(*row)) == Ok::<
                ConstructorResult,
                DecodeFault,
            >(record),
            Err(fault) => spec_decode_constructor_result(record_view(*header), record_view(*row)) == Err::<
                ConstructorResult,
                DecodeFault,
            >(fault),
        },
{
    let fields = constructor_result_fields();
    match decode_row(&fields, header, row) {
        Err(fault) => Err(fault),
        Ok(cells) => {
            proof {
                assert(fields_view(fields)[0] == fields@[0]@);
                assert(cells_view(cells)[0] == cells@[0]@);
                assert(fields_view(fields)[1] == fields@[1]@);
                assert(cells_view(cells)[1] == cells@[1]@);
            }
            Ok(
                ConstructorResult {
                    constructor_id: int_of(&cells[0]) as i32,
                    points: int_of(&cells[1]) as u16,
                },
            )
        },
    }
}

/// The columns of a driver's sprint result.
pub open spec fn spec_driver_sprint_result_fields() -> Seq<FieldView> {
    seq![
        FieldView { name: "no"@, kind: FieldKind::U16 },
        FieldView { name: "entrant"@, kind: FieldKind::Text },
        FieldView { name: "grid"@, kind: FieldKind::U16 },
        FieldView { name: "position"@, kind: FieldKind::Text },
        FieldView { name: "positionOrder"@, kind: FieldKind::U16 },
        FieldView { name: "points"@, kind: FieldKind::U16 },
        FieldView { name: "laps"@, kind: FieldKind::U16 },
        FieldView { name: "time"@, kind: FieldKind::OptText },
        FieldView { name: "milliseconds"@, kind: FieldKind::OptText },
        FieldView { name: "fastestLap"@, kind: FieldKind::OptU16 },
        FieldView { name: "fastestLapTime"@, kind: FieldKind::OptText },
        FieldView { name: "fastestLapSpeed"@, kind: FieldKind::OptDecimal },
    ]
}

/// The columns of a driver's sprint result.
pub fn driver_sprint_result_fields() -> (fields: Vec<Field>)
    ensures
        fields_view(fields) == spec_driver_sprint_result_fields(),
{
    let mut fields: Vec<Field> = Vec::new();
    fields.push(Field { name: "no", kind: FieldKind::U16 });
    fields.push(Field { name: "entrant", kind: FieldKind::Text });
    fields.push(Field { name: "grid", kind: FieldKind::U16 });
    fields.push(Field { name: "position", kind: FieldKind::Text });
    fields.push(Field { name: "positionOrder", kind: FieldKind::U16 });
    fields.push(Field { name: "points", kind: FieldKind::U16 });
    fields.push(Field { name: "laps", kind: FieldKind::U16 });
    fields.push(Field { name: "time", kind: FieldKind::OptText });
    fields.push(Field { name: "milliseconds", kind: FieldKind::OptText });
    fields.push(Field { name: "fastestLap", kind: FieldKind::OptU16 });
    fields.push(Field { name: "fastestLapTime", kind: FieldKind::OptText });
    fields.push(Field { name: "fastestLapSpeed", kind: FieldKind::OptDecimal });
    assert(fields_view(fields) =~= spec_driver_sprint_result_fields());
    fields
}

/// The record that the cells of a row make, one cell for each column of the shape.
pub open spec fn driver_sprint_result_of(cells: Seq<CellView>) -> DriverSprintResultView {
    DriverSprintResultView {
        no: cell_int(cells[0]) as u16,
        entrant: cell_text(cells[1]),
        grid: cell_int(cells[2]) as u16,
        position: cell_text(cells[3]),
        position_order: cell_int(cells[4]) as u16,
        points: cell_int(cells[5]) as u16,
        laps: cell_int(cells[6]) as u16,
        time: cell_opt_text(cells[7]),
        milliseconds: cell_opt_text(cells[8]),
        fastest_lap: cell_opt_u16(cells[9]),
        fatest_lap_time: cell_opt_text(cells[10]),
        fastest_lap_speed: cell_opt_text(cells[11]),
    }
}

/// What a row is read as: a driver's sprint result, or the row's first fault.
pub open spec fn spec_decode_driver_sprint_result(header: Seq<Seq<u8>>, row: Seq<Seq<u8>>) -> Result<
    DriverSprintResultView,
    DecodeFault,
> {
    match spec_decode_row(spec_driver_sprint_result_fields(), header, row) {
        Ok(cells) => Ok(driver_sprint_result_of(cells)),
        Err(fault) => Err(fault),
    }
}

/// Reads a row under a header as a driver's sprint result.
pub fn decode_driver_sprint_result(header: &Vec<Vec<u8>>, row: &Vec<Vec<u8>>) -> (result: Result<
    DriverSprintResult,
    DecodeFault,
>)
    ensures
        match result {
            Ok(record) => spec_decode_driver_sprint_result(record_view(*header), record_view(*row)) == Ok::<
                DriverSprintResultView,
                DecodeFault,
            >(record@),
            Err(fault) => spec_decode_driver_sprint_result(record_view(*header), record_view(*row)) == Err::<
                DriverSprintResultView,
                DecodeFault,
            >(fault),
        },
{
    let fields = driver_sprint_result_fields();
    match decode_row(&fields, header, row) {
        Err(fault) => Err(fault),
        Ok(cells) => {
            proof {
                assert(fields_view(fields)[0] == fields@[0]@);
                assert(cells_view(cells)[0] == cells@[0]@);
                assert(fields_view(fields)[1] == fields@[1]@);
                assert(cells_view(cells)[1] == cells@[1]@);
                assert(fields_view(fields)[2] == fields@[2]@);
                assert(cells_view(cells)[2] == cells@[2]@);
                assert(fields_view(fields)[3] == fields@[3]@);
                assert(cells_view(cells)[3] == cells@[3]@);
                assert(fields_view(fields)[4] == fields@[4]@);
                assert(cells_view(cells)[4] == cells@[4]@);
                assert(fields_view(fields)[5] == fields@[5]@);
                assert(cells_view(cells)[5] == cells@[5]@);
                assert(fields_view(fields)[6] == fields@[6]@);
                assert(cells_view(cells)[6] == cells@[6]@);
                assert(fields_view(fields)[7] == fields@[7]@);
                assert(cells_view(cells)[7] == cells@[7]@);
                assert(fields_view(fields)[8] == fields@[8]@);
                assert(cells_view(cells)[8] == cells@[8]@);
                assert(fields_view(fields)[9] == fields@[9]@);
                assert(cells_view(cells)[9] == cells@[9]@);
                assert(fields_view(fields)[10] == fields@[10]@);
                assert(cells_view(cells)[10] == cells@[10]@);
                assert(fields_view(fields)[11] == fields@[11]@);
                assert(cells_view(cells)[11] == cells@[11]@);
            }
            Ok(
                DriverSprintResult {
                    no: int_of(&cells[0]) as u16,
                    entrant: text_of(&cells[1]),
                    grid: int_of(&cells[2]) as u16,
                    position: text_of(&cells[3]),
                    position_order: int_of(&cells[4]) as u16,
                    points: int_of(&cells[5]) as u16,
                    laps: int_of(&cells[6]) as u16,
                    time: opt_text_of(&cells[7]),
                    milliseconds: opt_text_of(&cells[8]),
                    fastest_lap: opt_u16_of(&cells[9]),
                    fatest_lap_time: opt_text_of(&cells[10]),
                    fastest_lap_speed: opt_text_of(&cells[11]),
                },
            )
        },
    }
}

} // verus!
