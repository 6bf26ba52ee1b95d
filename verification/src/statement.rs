//! Insert statements: which table and columns a record goes to, and with which
//! values. The values are bound to the statement as data; none is ever written
//! into its text.

use crate::models::{
    opt_text, ConstructorResult, ConstructorStanding, ConstructorStandingView, DriverStanding,
    DriverStandingView, LapTime, PitStop, Qualifying, QualifyingView, RaceResult, RaceResultView,
    Record, RecordView, SprintResult, SprintResultView,
};
use crate::numeral::{parse_u16_decimal, spec_u16_decimal};
use crate::tables::{
    ConstructorResults, ConstructorStandings, DriverStandings, LapTimes, PitStops, Results,
    SprintResults,
};
use vstd::utf8::encode_utf8;
use vstd::prelude::*;
use vstd::string::*;

verus! {

/// A value bound to a statement. `Null` marks a field that is absent;
/// `Decimal` holds a decimal numeral as it was written.
#[derive(Debug, PartialEq, Eq)]
pub enum Value {
    Null,
    Int(i64),
    Text(String),
    Decimal(String),
}

pub enum ValueView {
    Null,
    Int(i64),
    Text(Seq<char>),
    Decimal(Seq<char>),
}

impl View for Value {
    type V = ValueView;

    open spec fn view(&self) -> ValueView {
        match self {
            Value::Null => ValueView::Null,
            Value::Int(v) => ValueView::Int(*v),
            Value::Text(t) => ValueView::Text(t@),
            Value::Decimal(t) => ValueView::Decimal(t@),
        }
    }
}

/// The value of a text that may be absent.
pub open spec fn spec_opt_text_value(text: Option<Seq<char>>) -> ValueView {
    match text {
        Some(t) => ValueView::Text(t),
        None => ValueView::Null,
    }
}

/// The value of a decimal numeral that may be absent.
pub open spec fn spec_opt_decimal_value(text: Option<Seq<char>>) -> ValueView {
    match text {
        Some(t) => ValueView::Decimal(t),
        None => ValueView::Null,
    }
}

/// The value of a small number that may be absent.
pub open spec fn spec_opt_small_value(number: Option<u16>) -> ValueView {
    match number {
        Some(n) => ValueView::Int(n as i64),
        None => ValueView::Null,
    }
}

fn text_value(text: &String) -> (value: Value)
    ensures
        value@ == ValueView::Text(text@),
{
    Value::Text(text.clone())
}

fn opt_text_value(text: &Option<String>) -> (value: Value)
    ensures
        value@ == spec_opt_text_value(opt_text(*text)),
{
    match text {
        Some(t) => Value::Text(t.clone()),
        None => Value::Null,
    }
}

fn opt_decimal_value(text: &Option<String>) -> (value: Value)
    ensures
        value@ == spec_opt_decimal_value(opt_text(*text)),
{
    match text {
        Some(t) => Value::Decimal(t.clone()),
        None => Value::Null,
    }
}

fn opt_small_value(number: Option<u16>) -> (value: Value)
    ensures
        value@ == spec_opt_small_value(number),
{
    match number {
        Some(n) => Value::Int(n as i64),
        None => Value::Null,
    }
}

/// The text of the statement as `sea_query` builds it for MySQL, with a
/// placeholder in the place of each value.
pub uninterp spec fn mysql_insert_sql(statement: InsertView) -> Seq<char>;

/// One row to insert: the table, and for each column named the value at the
/// same place in `values`.
#[derive(Debug, PartialEq, Eq)]
pub struct InsertStatement {
    pub table: String,
    pub columns: Vec<String>,
    pub values: Vec<Value>,
}

pub struct InsertView {
    pub table: Seq<char>,
    pub columns: Seq<Seq<char>>,
    pub values: Seq<ValueView>,
}

impl InsertView {
    /// A statement for `table` that names no column yet.
    pub open spec fn into_table(table: Seq<char>) -> InsertView {
        InsertView { table, columns: Seq::empty(), values: Seq::empty() }
    }

    /// The statement with one more column and its value.
    pub open spec fn bound(self, column: Seq<char>, value: ValueView) -> InsertView {
        InsertView {
            table: self.table,
            columns: self.columns.push(column),
            values: self.values.push(value),
        }
    }

    /// Every column has its value.
    pub open spec fn wf(self) -> bool {
        self.columns.len() == self.values.len()
    }
}

impl View for InsertStatement {
    type V = InsertView;

    open spec fn view(&self) -> InsertView {
        InsertView {
            table: self.table@,
            columns: self.columns@.map_values(|c: String| c@),
            values: self.values@.map_values(|v: Value| v@),
        }
    }
}

impl InsertStatement {
    fn into_table(table: &str) -> (statement: InsertStatement)
        ensures
            statement@ == InsertView::into_table(table@),
    {
        let statement = InsertStatement {
            table: String::from_str(table),
            columns: Vec::new(),
            values: Vec::new(),
        };
        assert(statement@.columns =~= Seq::empty());
        assert(statement@.values =~= Seq::empty());
        statement
    }

    fn bind(&mut self, column: &str, value: Value)
        ensures
            final(self)@ == old(self)@.bound(column@, value@),
    {
        self.columns.push(String::from_str(column));
        self.values.push(value);
        assert(self@.columns =~= old(self)@.columns.push(column@));
        assert(self@.values =~= old(self)@.values.push(value@));
    }
}

/// The row of `lapTimes` for one lap: the time both as `M:SS.mmm` and in milliseconds.
pub open spec fn spec_lap_time_insert(race_id: i32, lap: LapTime) -> InsertView {
    InsertView::into_table(LapTimes::Table.spec_name())
        .bound(LapTimes::RaceID.spec_name(), ValueView::Int(race_id as i64))
        .bound(LapTimes::DriverID.spec_name(), ValueView::Int(lap.driver_id as i64))
        .bound(LapTimes::Lap.spec_name(), ValueView::Int(lap.lap as i64))
        .bound(LapTimes::Position.spec_name(), ValueView::Int(lap.position as i64))
        .bound(LapTimes::Time.spec_name(), ValueView::Text(lap.time.spec_lap_text()))
        .bound(LapTimes::Milliseconds.spec_name(), ValueView::Int(lap.time.millis as i64))
}

/// The row of `pitStops` for one stop: the time of day as `HH:MM:SS`, the
/// duration both as `S.mmm` and in milliseconds.
pub open spec fn spec_pit_stop_insert(race_id: i32, stop: PitStop) -> InsertView {
    InsertView::into_table(PitStops::Table.spec_name())
        .bound(PitStops::RaceID.spec_name(), ValueView::Int(race_id as i64))
        .bound(PitStops::DriverID.spec_name(), ValueView::Int(stop.driver_id as i64))
        .bound(PitStops::Stop.spec_name(), ValueView::Int(stop.stop as i64))
        .bound(PitStops::Lap.spec_name(), ValueView::Int(stop.lap as i64))
        .bound(PitStops::Time.spec_name(), ValueView::Text(stop.time.spec_text()))
        .bound(PitStops::Duration.spec_name(), ValueView::Text(stop.duration.spec_stop_text()))
        .bound(PitStops::Milliseconds.spec_name(), ValueView::Int(stop.duration.millis as i64))
}

/// The row of `qualifying` for one driver.
pub open spec fn spec_qualifying_insert(race_id: i32, q: QualifyingView) -> InsertView {
    InsertView::into_table(crate::tables::Qualifying::Table.spec_name())
        .bound(crate::tables::Qualifying::RaceID.spec_name(), ValueView::Int(race_id as i64))
        .bound(crate::tables::Qualifying::DriverID.spec_name(), ValueView::Int(q.driver_id as i64))
        .bound(
            crate::tables::Qualifying::ConstructorID.spec_name(),
            ValueView::Int(q.constructor_id as i64),
        )
        .bound(crate::tables::Qualifying::Number.spec_name(), ValueView::Int(q.number as i64))
        .bound(
            crate::tables::Qualifying::Position.spec_name(),
            ValueView::Int(q.position as i64),
        )
        .bound(crate::tables::Qualifying::Q1.spec_name(), ValueView::Text(q.q1))
        .bound(crate::tables::Qualifying::Q2.spec_name(), spec_opt_text_value(q.q2))
        .bound(crate::tables::Qualifying::Q3.spec_name(), spec_opt_text_value(q.q3))
}

/// The row of `results` for one driver.
pub open spec fn spec_race_result_insert(race_id: i32, r: RaceResultView) -> InsertView {
    InsertView::into_table(Results::Table.spec_name())
        .bound(Results::RaceID.spec_name(), ValueView::Int(race_id as i64))
        .bound(Results::DriverID.spec_name(), ValueView::Int(r.driver_id as i64))
        .bound(Results::ConstructorID.spec_name(), ValueView::Int(r.constructor_id as i64))
        .bound(Results::Number.spec_name(), ValueView::Int(r.driver_number as i64))
        .bound(Results::Grid.spec_name(), ValueView::Int(r.grid as i64))
        .bound(Results::Position.spec_name(), spec_opt_small_value(r.position))
        .bound(Results::PositionText.spec_name(), ValueView::Text(r.position_text))
        .bound(Results::PositionOrder.spec_name(), ValueView::Int(r.position_order as i64))
        .bound(Results::Points.spec_name(), ValueView::Int(r.points as i64))
        .bound(Results::Laps.spec_name(), ValueView::Int(r.laps as i64))
        .bound(Results::Time.spec_name(), spec_opt_text_value(r.time))
        .bound(Results::Milliseconds.spec_name(), spec_opt_text_value(r.milliseconds))
        .bound(Results::FastestLap.spec_name(), spec_opt_small_value(r.fastest_lap))
        .bound(Results::Rank.spec_name(), spec_opt_small_value(r.rank))
        .bound(Results::FastestLapTime.spec_name(), spec_opt_text_value(r.fatest_lap_time))
        .bound(Results::FastestLapSpeed.spec_name(), spec_opt_decimal_value(r.fastest_lap_speed))
}

/// The row of `driverStandings` for one driver.
pub open spec fn spec_driver_standing_insert(race_id: i32, s: DriverStandingView) -> InsertView {
    InsertView::into_table(DriverStandings::Table.spec_name())
        .bound(DriverStandings::RaceID.spec_name(), ValueView::Int(race_id as i64))
        .bound(DriverStandings::DriverID.spec_name(), ValueView::Int(s.driver_id as i64))
        .bound(DriverStandings::Points.spec_name(), ValueView::Int(s.points as i64))
        .bound(DriverStandings::Position.spec_name(), ValueView::Int(s.position as i64))
        .bound(DriverStandings::PositionText.spec_name(), ValueView::Text(s.position_text))
        .bound(DriverStandings::Wins.spec_name(), ValueView::Int(s.wins as i64))
}

/// The row of `constructorStandings` for one constructor.
pub open spec fn spec_constructor_standing_insert(
    race_id: i32,
    s: ConstructorStandingView,
) -> InsertView {
    InsertView::into_table(ConstructorStandings::Table.spec_name())
        .bound(ConstructorStandings::RaceID.spec_name(), ValueView::Int(race_id as i64))
        .bound(ConstructorStandings::ConstructorID.spec_name(), ValueView::Int(s.constructor_id as i64))
        .bound(ConstructorStandings::Points.spec_name(), ValueView::Int(s.points as i64))
        .bound(ConstructorStandings::Position.spec_name(), ValueView::Int(s.position as i64))
        .bound(ConstructorStandings::PositionText.spec_name(), ValueView::Text(s.position_text))
        .bound(ConstructorStandings::Wins.spec_name(), ValueView::Int(s.wins as i64))
}

/// The row of `constructorResults` for one constructor.
pub open spec fn spec_constructor_result_insert(race_id: i32, r: ConstructorResult) -> InsertView {
    InsertView::into_table(ConstructorResults::Table.spec_name())
        .bound(ConstructorResults::RaceID.spec_name(), ValueView::Int(race_id as i64))
        .bound(ConstructorResults::ConstructorID.spec_name(), ValueView::Int(r.constructor_id as i64))
        .bound(ConstructorResults::Points.spec_name(), ValueView::Int(r.points as i64))
}

pub fn lap_time_insert(race_id: i32, lap: &LapTime) -> (statement: InsertStatement)
    ensures
        statement@ == spec_lap_time_insert(race_id, *lap),
{
    let mut statement = InsertStatement::into_table(LapTimes::Table.name());
    statement.bind(LapTimes::RaceID.name(), Value::Int(race_id as i64));
    statement.bind(LapTimes::DriverID.name(), Value::Int(lap.driver_id as i64));
    statement.bind(LapTimes::Lap.name(), Value::Int(lap.lap as i64));
    statement.bind(LapTimes::Position.name(), Value::Int(lap.position as i64));
    statement.bind(LapTimes::Time.name(), Value::Text(lap.time.lap_text()));
    statement.bind(LapTimes::Milliseconds.name(), Value::Int(lap.time.millis as i64));
    statement
}

pub fn pit_stop_insert(race_id: i32, stop: &PitStop) -> (statement: InsertStatement)
    ensures
        statement@ == spec_pit_stop_insert(race_id, *stop),
{
    let mut statement = InsertStatement::into_table(PitStops::Table.name());
    statement.bind(PitStops::RaceID.name(), Value::Int(race_id as i64));
    statement.bind(PitStops::DriverID.name(), Value::Int(stop.driver_id as i64));
    statement.bind(PitStops::Stop.name(), Value::Int(stop.stop as i64));
    statement.bind(PitStops::Lap.name(), Value::Int(stop.lap as i64));
    statement.bind(PitStops::Time.name(), Value::Text(stop.time.text()));
    statement.bind(PitStops::Duration.name(), Value::Text(stop.duration.stop_text()));
    statement.bind(PitStops::Milliseconds.name(), Value::Int(stop.duration.millis as i64));
    statement
}

pub fn qualifying_insert(race_id: i32, q: &Qualifying) -> (statement: InsertStatement)
    ensures
        statement@ == spec_qualifying_insert(race_id, q@),
{
    let mut statement = InsertStatement::into_table(crate::tables::Qualifying::Table.name());
    statement.bind(crate::tables::Qualifying::RaceID.name(), Value::Int(race_id as i64));
    statement.bind(crate::tables::Qualifying::DriverID.name(), Value::Int(q.driver_id as i64));
    statement.bind(crate::tables::Qualifying::ConstructorID.name(), Value::Int(q.constructor_id as i64));
    statement.bind(crate::tables::Qualifying::Number.name(), Value::Int(q.number as i64));
    statement.bind(crate::tables::Qualifying::Position.name(), Value::Int(q.position as i64));
    statement.bind(crate::tables::Qualifying::Q1.name(), text_value(&q.q1));
    statement.bind(crate::tables::Qualifying::Q2.name(), opt_text_value(&q.q2));
    statement.bind(crate::tables::Qualifying::Q3.name(), opt_text_value(&q.q3));
    statement
}

pub fn race_result_insert(race_id: i32, r: &RaceResult) -> (statement: InsertStatement)
    ensures
        statement@ == spec_race_result_insert(race_id, r@),
{
    let mut statement = InsertStatement::into_table(Results::Table.name());
    statement.bind(Results::RaceID.name(), Value::Int(race_id as i64));
    statement.bind(Results::DriverID.name(), Value::Int(r.driver_id as i64));
    statement.bind(Results::ConstructorID.name(), Value::Int(r.constructor_id as i64));
    statement.bind(Results::Number.name(), Value::Int(r.driver_number as i64));
    statement.bind(Results::Grid.name(), Value::Int(r.grid as i64));
    statement.bind(Results::Position.name(), opt_small_value(r.position));
    statement.bind(Results::PositionText.name(), text_value(&r.position_text));
    statement.bind(Results::PositionOrder.name(), Value::Int(r.position_order as i64));
    statement.bind(Results::Points.name(), Value::Int(r.points as i64));
    statement.bind(Results::Laps.name(), Value::Int(r.laps as i64));
    statement.bind(Results::Time.name(), opt_text_value(&r.time));
    statement.bind(Results::Milliseconds.name(), opt_text_value(&r.milliseconds));
    statement.bind(Results::FastestLap.name(), opt_small_value(r.fastest_lap));
    statement.bind(Results::Rank.name(), opt_small_value(r.rank));
    statement.bind(Results::FastestLapTime.name(), opt_text_value(&r.fatest_lap_time));
    statement.bind(Results::FastestLapSpeed.name(), opt_decimal_value(&r.fastest_lap_speed));
    statement
}

pub fn driver_standing_insert(race_id: i32, s: &DriverStanding) -> (statement: InsertStatement)
    ensures
        statement@ == spec_driver_standing_insert(race_id, s@),
{
    let mut statement = InsertStatement::into_table(DriverStandings::Table.name());
    statement.bind(DriverStandings::RaceID.name(), Value::Int(race_id as i64));
    statement.bind(DriverStandings::DriverID.name(), Value::Int(s.driver_id as i64));
    statement.bind(DriverStandings::Points.name(), Value::Int(s.points as i64));
    statement.bind(DriverStandings::Position.name(), Value::Int(s.position as i64));
    statement.bind(DriverStandings::PositionText.name(), text_value(&s.position_text));
    statement.bind(DriverStandings::Wins.name(), Value::Int(s.wins as i64));
    statement
}

pub fn constructor_standing_insert(race_id: i32, s: &ConstructorStanding) -> (statement:
    InsertStatement)
    ensures
        statement@ == spec_constructor_standing_insert(race_id, s@),
{
    let mut statement = InsertStatement::into_table(ConstructorStandings::Table.name());
    statement.bind(ConstructorStandings::RaceID.name(), Value::Int(race_id as i64));
    statement.bind(ConstructorStandings::ConstructorID.name(), Value::Int(s.constructor_id as i64));
    statement.bind(ConstructorStandings::Points.name(), Value::Int(s.points as i64));
    statement.bind(ConstructorStandings::Position.name(), Value::Int(s.position as i64));
    statement.bind(ConstructorStandings::PositionText.name(), text_value(&s.position_text));
    statement.bind(ConstructorStandings::Wins.name(), Value::Int(s.wins as i64));
    statement
}

pub fn constructor_result_insert(race_id: i32, r: &ConstructorResult) -> (statement:
    InsertStatement)
    ensures
        statement@ == spec_constructor_result_insert(race_id, *r),
{
    let mut statement = InsertStatement::into_table(ConstructorResults::Table.name());
    statement.bind(ConstructorResults::RaceID.name(), Value::Int(race_id as i64));
    statement.bind(ConstructorResults::ConstructorID.name(), Value::Int(r.constructor_id as i64));
    statement.bind(ConstructorResults::Points.name(), Value::Int(r.points as i64));
    statement
}

/// The row of `sprintResults` for one driver. The finishing position is the
/// number that the position text writes in decimal, and absent where it
/// writes none.
pub open spec fn spec_sprint_result_insert(race_id: i32, s: SprintResultView) -> InsertView {
    InsertView::into_table(SprintResults::Table.spec_name())
        .bound(SprintResults::RaceID.spec_name(), ValueView::Int(race_id as i64))
        .bound(SprintResults::DriverID.spec_name(), ValueView::Int(s.driver_id as i64))
        .bound(SprintResults::ConstructorID.spec_name(), ValueView::Int(s.constructor_id as i64))
        .bound(SprintResults::Number.spec_name(), ValueView::Int(s.result.no as i64))
        .bound(SprintResults::Grid.spec_name(), ValueView::Int(s.result.grid as i64))
        .bound(
            SprintResults::Position.spec_name(),
            spec_opt_small_value(spec_u16_decimal(encode_utf8(s.result.position))),
        )
        .bound(SprintResults::PositionText.spec_name(), ValueView::Text(s.result.position))
        .bound(
            SprintResults::PositionOrder.spec_name(),
            ValueView::Int(s.result.position_order as i64),
        )
        .bound(SprintResults::Points.spec_name(), ValueView::Int(s.result.points as i64))
        .bound(SprintResults::Laps.spec_name(), ValueView::Int(s.result.laps as i64))
        .bound(SprintResults::Time.spec_name(), spec_opt_text_value(s.result.time))
        .bound(SprintResults::Milliseconds.spec_name(), spec_opt_text_value(s.result.milliseconds))
        .bound(SprintResults::FastestLap.spec_name(), spec_opt_small_value(s.result.fastest_lap))
        .bound(
            SprintResults::FastestLapTime.spec_name(),
            spec_opt_text_value(s.result.fatest_lap_time),
        )
}

pub fn sprint_result_insert(race_id: i32, s: &SprintResult) -> (statement: InsertStatement)
    ensures
        statement@ == spec_sprint_result_insert(race_id, s@),
{
    let r = &s.result;
    let position = parse_u16_decimal(r.position.as_str().as_bytes());
    let mut statement = InsertStatement::into_table(SprintResults::Table.name());
    statement.bind(SprintResults::RaceID.name(), Value::Int(race_id as i64));
    statement.bind(SprintResults::DriverID.name(), Value::Int(s.driver_id as i64));
    statement.bind(SprintResults::ConstructorID.name(), Value::Int(s.constructor_id as i64));
    statement.bind(SprintResults::Number.name(), Value::Int(r.no as i64));
    statement.bind(SprintResults::Grid.name(), Value::Int(r.grid as i64));
    statement.bind(SprintResults::Position.name(), opt_small_value(position));
    statement.bind(SprintResults::PositionText.name(), text_value(&r.position));
    statement.bind(SprintResults::PositionOrder.name(), Value::Int(r.position_order as i64));
    statement.bind(SprintResults::Points.name(), Value::Int(r.points as i64));
    statement.bind(SprintResults::Laps.name(), Value::Int(r.laps as i64));
    statement.bind(SprintResults::Time.name(), opt_text_value(&r.time));
    statement.bind(SprintResults::Milliseconds.name(), opt_text_value(&r.milliseconds));
    statement.bind(SprintResults::FastestLap.name(), opt_small_value(r.fastest_lap));
    statement.bind(SprintResults::FastestLapTime.name(), opt_text_value(&r.fatest_lap_time));
    statement
}

/// The row that a record goes to its table as.
pub open spec fn spec_build_insert(race_id: i32, record: RecordView) -> InsertView {
    match record {
        RecordView::LapTime(r) => spec_lap_time_insert(race_id, r),
        RecordView::PitStop(r) => spec_pit_stop_insert(race_id, r),
        RecordView::Qualifying(r) => spec_qualifying_insert(race_id, r),
        RecordView::RaceResult(r) => spec_race_result_insert(race_id, r),
        RecordView::DriverStanding(r) => spec_driver_standing_insert(race_id, r),
        RecordView::ConstructorStanding(r) => spec_constructor_standing_insert(race_id, r),
        RecordView::ConstructorResult(r) => spec_constructor_result_insert(race_id, r),
        RecordView::SprintResult(r) => spec_sprint_result_insert(race_id, r),
    }
}

/// Maps a record of the race `race_id` to the row that inserts it.
pub fn build_insert(race_id: i32, record: &Record) -> (statement: InsertStatement)
    ensures
        statement@ == spec_build_insert(race_id, record@),
        statement@.wf(),
{
    match record {
        Record::LapTime(r) => lap_time_insert(race_id, r),
        Record::PitStop(r) => pit_stop_insert(race_id, r),
        Record::Qualifying(r) => qualifying_insert(race_id, r),
        Record::RaceResult(r) => race_result_insert(race_id, r),
        Record::DriverStanding(r) => driver_standing_insert(race_id, r),
        Record::ConstructorStanding(r) => constructor_standing_insert(race_id, r),
        Record::ConstructorResult(r) => constructor_result_insert(race_id, r),
        Record::SprintResult(r) => sprint_result_insert(race_id, r),
    }
}

/// Builds the statement with `sea_query`'s `InsertStatement` (`into_table`,
/// `columns`, `values`, `build` for MySQL) and keeps the text. The contract
/// names the text, and says that there is one exactly when `values` accepts the
/// row: when it has as many values as the statement has columns.
#[verifier::external_body]
fn build_mysql_insert(statement: &InsertStatement) -> (sql: Option<String>)
    ensures
        sql.is_some() <==> statement@.wf(),
        sql matches Some(text) ==> text@ == mysql_insert_sql(statement@),
{
    let mut query = sea_query::Query::insert();
    query.into_table(sea_query::Alias::new(&statement.table));
    query.columns(statement.columns.iter().map(sea_query::Alias::new));
    let values = statement.values.iter().map(|v| match v {
        Value::Null => sea_query::Value::String(None).into(),
        Value::Int(n) => (*n).into(),
        Value::Text(t) | Value::Decimal(t) => t.as_str().into(),
    });
    query.values(values).ok()?;
    Some(query.build(sea_query::MysqlQueryBuilder).0)
}

/// A statement whose columns and values differ in number.
#[derive(Clone, Copy, Debug, PartialEq, Eq, Structural)]
pub struct ColumnValueMismatch {
    pub columns: usize,
    pub values: usize,
}

impl InsertStatement {
    /// The statement's text for MySQL, with a placeholder for each value; the
    /// values go with it in the order of `values`.
    pub fn sql(&self) -> (result: Result<String, ColumnValueMismatch>)
        ensures
            match result {
                Ok(text) => self@.wf() && text@ == mysql_insert_sql(self@),
                Err(e) => !self@.wf() && e.columns == self.columns.len() && e.values
                    == self.values.len(),
            },
    {
        match build_mysql_insert(self) {
            Some(text) => Ok(text),
            None => Err(
                ColumnValueMismatch { columns: self.columns.len(), values: self.values.len() },
            ),
        }
    }
}

} // verus!
