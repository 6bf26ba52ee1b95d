use f1_sql_updater::decode::DecodeFault;
use f1_sql_updater::entity::Entity;
use f1_sql_updater::loader::{
    row_plan, Action, Event, LoadError, Loader, Lookup, Pending, Phase, RowPlan,
};
use f1_sql_updater::policy::InsertFailure;
use f1_sql_updater::statement::{InsertStatement, Value};
use std::collections::{BTreeMap, BTreeSet};

/// A destination that keeps rows by their key and rejects a key that it holds.
struct Destination {
    committed: BTreeMap<String, InsertStatement>,
    pending: BTreeMap<String, InsertStatement>,
    drivers: BTreeMap<u16, i32>,
    constructors: BTreeMap<String, i32>,
}

fn key(statement: &InsertStatement) -> String {
    let width = match statement.table.as_str() {
        "lapTimes" | "pitStops" => 3,
        _ => 2,
    };
    format!("{}{:?}", statement.table, &statement.values[..width])
}

fn copy(statement: &InsertStatement) -> InsertStatement {
    InsertStatement {
        table: statement.table.clone(),
        columns: statement.columns.clone(),
        values: statement
            .values
            .iter()
            .map(|v| match v {
                Value::Null => Value::Null,
                Value::Int(n) => Value::Int(*n),
                Value::Text(t) => Value::Text(t.clone()),
                Value::Decimal(t) => Value::Decimal(t.clone()),
            })
            .collect(),
    }
}

impl Destination {
    fn new() -> Destination {
        Destination {
            committed: BTreeMap::new(),
            pending: BTreeMap::new(),
            drivers: BTreeMap::new(),
            constructors: BTreeMap::new(),
        }
    }

    fn execute(&mut self, statement: &InsertStatement) -> Result<(), InsertFailure> {
        let k = key(statement);
        if self.committed.contains_key(&k) || self.pending.contains_key(&k) {
            Err(InsertFailure { code: Some(1062), message: format!("Duplicate entry {}", k) })
        } else {
            self.pending.insert(k, copy(statement));
            Ok(())
        }
    }

    fn rows(&self, table: &str) -> Vec<&InsertStatement> {
        self.committed.values().filter(|s| s.table == table).collect()
    }
}

/// What a run did: the phase it ended in, the error it aborted with, and the
/// inputs it asked for.
struct Run {
    phase: Phase,
    error: Option<LoadError>,
    opened: Vec<Entity>,
    executed: usize,
}

fn run(files: &[(&str, &str)], destination: &mut Destination, race_id: i32, sprint: bool) -> Run {
    let mut loader = Loader::new(race_id, sprint);
    let mut opened = Vec::new();
    let mut executed = 0;
    let mut error = None;
    let mut event = Event::Start;
    loop {
        match loader.step(event) {
            Action::Open(entity) => {
                opened.push(entity);
                let found = files.iter().find(|(name, _)| *name == entity.file_name());
                event = Event::Input(found.map(|(_, text)| text.as_bytes().to_vec()));
            }
            Action::Execute(statement) => {
                executed += 1;
                event = Event::Outcome(destination.execute(&statement));
            }
            Action::Find(Lookup::DriverByNumber(number)) => {
                event = Event::Found(destination.drivers.get(&number).copied());
            }
            Action::Find(Lookup::ConstructorByName(name)) => {
                event = Event::Found(destination.constructors.get(&name).copied());
            }
            Action::Commit => {
                let pending = std::mem::take(&mut destination.pending);
                destination.committed.extend(pending);
                break;
            }
            Action::Abort(e) => {
                destination.pending.clear();
                error = Some(e);
                break;
            }
            Action::Done => break,
        }
    }
    assert!(matches!(loader.step(Event::Start), Action::Done));
    Run { phase: loader.phase, error, opened, executed }
}

const LAPS: &str = "driver_id,lap,position,time\n830,1,1,1:23.456\n";
const STOPS: &str = "driver_id,stop,lap,time,duration\n830,1,12,14:05:09,23.456\n";
const QUALIFYING: &str =
    "driver_id,constructor_id,position,number,q1,q2,q3\n830,9,1,33,1:30.100,1:29.900,\n";
const RESULTS: &str = "driver_id,constructor_id,driver_number,position,grid,position_text,position_order,points,laps,time,milliseconds,fastest_lap,fatest_lap_time,rank,fastest_lap_speed\n830,9,33,1,1,1,1,25,57,1:31:44.742,5504742,44,1:34.015,1,215.123\n";
const DRIVER_STANDINGS: &str = "driver_id,points,position,position_text,wins\n830,25,1,1,1\n";
const CONSTRUCTOR_STANDINGS: &str =
    "constructor_id,points,position,position_text,wins\n9,25,1,1,1\n";
const CONSTRUCTOR_RESULTS: &str = "constructor_id,points\n9,25\n";
const NO_STOPS: &str = "driver_id,stop,lap,time,duration\n";
const NO_QUALIFYING: &str = "driver_id,constructor_id,position,number,q1,q2,q3\n";
const NO_STANDINGS: &str = "driver_id,points,position,position_text,wins\n";
const NO_CONSTRUCTOR_STANDINGS: &str = "constructor_id,points,position,position_text,wins\n";
const NO_CONSTRUCTOR_RESULTS: &str = "constructor_id,points\n";

fn seven<'a>() -> Vec<(&'a str, &'a str)> {
    vec![
        ("lap_times.csv", LAPS),
        ("pit_stops.csv", STOPS),
        ("qualifying.csv", QUALIFYING),
        ("results.csv", RESULTS),
        ("driver_standings.csv", DRIVER_STANDINGS),
        ("constructor_standings.csv", CONSTRUCTOR_STANDINGS),
        ("constructor_results.csv", CONSTRUCTOR_RESULTS),
    ]
}

fn with<'a>(mut files: Vec<(&'a str, &'a str)>, name: &'a str, text: &'a str) -> Vec<(&'a str, &'a str)> {
    for file in files.iter_mut() {
        if file.0 == name {
            file.1 = text;
        }
    }
    files
}

fn text(t: &str) -> Value {
    Value::Text(String::from(t))
}

#[test]
fn seven_one_row_files_give_seven_committed_rows() {
    let mut destination = Destination::new();
    let done = run(&seven(), &mut destination, 42, false);
    assert_eq!(done.phase, Phase::Committed);
    assert_eq!(done.error, None);
    assert_eq!(done.executed, 7);
    assert_eq!(
        done.opened,
        vec![
            Entity::LapTime,
            Entity::PitStop,
            Entity::Qualifying,
            Entity::RaceResult,
            Entity::DriverStanding,
            Entity::ConstructorStanding,
            Entity::ConstructorResult,
        ]
    );
    assert_eq!(destination.committed.len(), 7);
    let tables = [
        "lapTimes", "pitStops", "qualifying", "results", "driverStandings",
        "constructorStandings", "constructorResults",
    ];
    for table in tables {
        assert_eq!(destination.rows(table).len(), 1);
        assert_eq!(destination.rows(table)[0].values[0], Value::Int(42));
    }
    assert_eq!(
        destination.rows("lapTimes")[0].values,
        vec![Value::Int(42), Value::Int(830), Value::Int(1), Value::Int(1), text("1:23.456"), Value::Int(83456)]
    );
    assert_eq!(
        destination.rows("pitStops")[0].values,
        vec![
            Value::Int(42), Value::Int(830), Value::Int(1), Value::Int(12), text("14:05:09"),
            text("23.456"), Value::Int(23456),
        ]
    );
    assert_eq!(
        destination.rows("qualifying")[0].values,
        vec![
            Value::Int(42), Value::Int(830), Value::Int(9), Value::Int(33), Value::Int(1),
            text("1:30.100"), text("1:29.900"), Value::Null,
        ]
    );
    assert_eq!(
        destination.rows("results")[0].values,
        vec![
            Value::Int(42), Value::Int(830), Value::Int(9), Value::Int(33), Value::Int(1),
            Value::Int(1), text("1"), Value::Int(1), Value::Int(25), Value::Int(57),
            text("1:31:44.742"), text("5504742"), Value::Int(44), Value::Int(1),
            text("1:34.015"), Value::Decimal(String::from("215.123")),
        ]
    );
    assert_eq!(
        destination.rows("driverStandings")[0].values,
        vec![Value::Int(42), Value::Int(830), Value::Int(25), Value::Int(1), text("1"), Value::Int(1)]
    );
    assert_eq!(
        destination.rows("constructorStandings")[0].values,
        vec![Value::Int(42), Value::Int(9), Value::Int(25), Value::Int(1), text("1"), Value::Int(1)]
    );
    assert_eq!(
        destination.rows("constructorResults")[0].values,
        vec![Value::Int(42), Value::Int(9), Value::Int(25)]
    );
}

#[test]
fn lap_times_loaded_again_as_a_superset_add_only_the_new_laps() {
    let first = "driver_id,lap,position,time\n830,1,1,1:23.456\n830,2,1,1:22.000\n";
    let second = "driver_id,lap,position,time\n830,1,1,1:23.456\n830,2,1,1:22.000\n830,3,1,1:21.500\n1,1,2,1:25.000\n";
    let others = |laps| {
        let files = with(seven(), "lap_times.csv", laps);
        let files = with(files, "pit_stops.csv", NO_STOPS);
        let files = with(files, "qualifying.csv", NO_QUALIFYING);
        let files = with(files, "results.csv", "driver_id\n");
        let files = with(files, "driver_standings.csv", NO_STANDINGS);
        let files = with(files, "constructor_standings.csv", NO_CONSTRUCTOR_STANDINGS);
        with(files, "constructor_results.csv", NO_CONSTRUCTOR_RESULTS)
    };
    let mut destination = Destination::new();
    let one = run(&others(first), &mut destination, 42, false);
    assert_eq!(one.phase, Phase::Committed);
    assert_eq!(destination.rows("lapTimes").len(), 2);
    let two = run(&others(second), &mut destination, 42, false);
    assert_eq!(two.phase, Phase::Committed);
    assert_eq!(two.error, None);
    assert_eq!(two.executed, 4);
    assert_eq!(destination.rows("lapTimes").len(), 4);
    assert_eq!(destination.committed.len(), 4);
}

#[test]
fn a_pit_stop_loaded_again_aborts_the_run_with_nothing_committed() {
    let mut destination = Destination::new();
    assert_eq!(run(&seven(), &mut destination, 42, false).phase, Phase::Committed);
    let again = "driver_id,stop,lap,time,duration\n830,2,30,14:30:00,24.000\n830,1,12,14:05:09,23.456\n";
    let second = run(&with(seven(), "pit_stops.csv", again), &mut destination, 42, false);
    assert_eq!(second.phase, Phase::Aborted);
    assert_eq!(second.opened, vec![Entity::LapTime, Entity::PitStop]);
    match second.error {
        Some(LoadError::Insert { entity, row, failure }) => {
            assert_eq!(entity, Entity::PitStop);
            assert_eq!(row, 2);
            assert_eq!(failure.code, Some(1062));
        }
        other => panic!("unexpected error: {:?}", other),
    }
    assert_eq!(destination.committed.len(), 7);
    assert_eq!(destination.rows("pitStops").len(), 1);
}

#[test]
fn a_malformed_race_result_aborts_before_the_standings() {
    let results = "driver_id,constructor_id,driver_number,position,grid,position_text,position_order,points,laps\n830,9,33,1,1,1,1,25,57\n1,9,44,2,2,2,2,eighteen,57\n";
    let mut destination = Destination::new();
    let done = run(&with(seven(), "results.csv", results), &mut destination, 42, false);
    assert_eq!(done.phase, Phase::Aborted);
    assert_eq!(
        done.error,
        Some(LoadError::Decode {
            entity: Entity::RaceResult,
            row: 2,
            fault: DecodeFault::InvalidField { column: 7 },
        })
    );
    assert_eq!(
        done.opened,
        vec![Entity::LapTime, Entity::PitStop, Entity::Qualifying, Entity::RaceResult]
    );
    assert_eq!(done.executed, 4);
    assert_eq!(destination.committed.len(), 0);
}

#[test]
fn a_missing_input_aborts_the_run() {
    let files: Vec<(&str, &str)> =
        seven().into_iter().filter(|(name, _)| *name != "qualifying.csv").collect();
    let mut destination = Destination::new();
    let done = run(&files, &mut destination, 42, false);
    assert_eq!(done.phase, Phase::Aborted);
    assert_eq!(done.error, Some(LoadError::ResourceNotFound { entity: Entity::Qualifying }));
    assert_eq!(destination.committed.len(), 0);
}

#[test]
fn a_failure_other_than_a_duplicate_aborts_lap_times_too() {
    let mut loader = Loader::new(42, false);
    assert_eq!(loader.step(Event::Start), Action::Open(Entity::LapTime));
    assert!(matches!(loader.step(Event::Input(Some(LAPS.as_bytes().to_vec()))), Action::Execute(_)));
    let failure = InsertFailure { code: Some(1452), message: String::from("no such driver") };
    assert_eq!(
        loader.step(Event::Outcome(Err(InsertFailure {
            code: Some(1452),
            message: String::from("no such driver"),
        }))),
        Action::Abort(LoadError::Insert { entity: Entity::LapTime, row: 1, failure })
    );
    assert_eq!(loader.phase, Phase::Aborted);
}

#[test]
fn an_event_that_was_not_asked_for_aborts_the_run() {
    let mut loader = Loader::new(42, false);
    assert_eq!(loader.step(Event::Found(Some(1))), Action::Abort(LoadError::UnexpectedEvent));
    assert_eq!(loader.phase, Phase::Aborted);
    let mut loader = Loader::new(42, false);
    assert_eq!(loader.step(Event::Start), Action::Open(Entity::LapTime));
    assert_eq!(loader.pending, Pending::Input);
    assert_eq!(loader.step(Event::Outcome(Ok(()))), Action::Abort(LoadError::UnexpectedEvent));
    assert_eq!(loader.step(Event::Input(None)), Action::Done);
}

#[test]
fn an_input_without_rows_loads_nothing() {
    let files = with(seven(), "lap_times.csv", "");
    let files = with(files, "pit_stops.csv", NO_STOPS);
    let mut destination = Destination::new();
    let done = run(&files, &mut destination, 42, false);
    assert_eq!(done.phase, Phase::Committed);
    assert_eq!(done.executed, 5);
    assert_eq!(destination.committed.len(), 5);
}

fn sprint_files<'a>() -> Vec<(&'a str, &'a str)> {
    let mut files = seven();
    files.push(("constructor_race_result.csv", "constructor_id,points\n3,8\n"));
    files.push(("sprint_laps_analysis.csv", "driver_id,lap,position,time\n830,2,1,1:20.000\n"));
    files.push((
        "driver_sprint_result.csv",
        "no,entrant,grid,position,positionOrder,points,laps,time,milliseconds,fastestLap,fastestLapTime,fastestLapSpeed\n1,Red Bull,1,1,1,8,24,30:00.000,1800000,12,1:10.000,\n",
    ));
    files
}

#[test]
fn the_sprint_stage_follows_the_core_where_it_is_asked_for() {
    let mut destination = Destination::new();
    destination.drivers.insert(33, 830);
    destination.constructors.insert(String::from("Red Bull"), 9);
    let done = run(&sprint_files(), &mut destination, 42, true);
    assert_eq!(done.error, None);
    assert_eq!(done.phase, Phase::Committed);
    assert_eq!(done.opened.len(), 10);
    assert_eq!(
        &done.opened[7..],
        &[Entity::ConstructorSprintResult, Entity::SprintLapTime, Entity::DriverSprintResult]
    );
    assert_eq!(destination.committed.len(), 10);
    let sprint = destination.rows("sprintResults");
    assert_eq!(sprint.len(), 1);
    assert_eq!(
        sprint[0].values[..7],
        [
            Value::Int(42), Value::Int(830), Value::Int(9), Value::Int(1), Value::Int(1),
            Value::Int(1), text("1"),
        ]
    );
    let mut plain = Destination::new();
    let core = run(&sprint_files(), &mut plain, 42, false);
    assert_eq!(core.opened.len(), 7);
    assert_eq!(plain.committed.len(), 7);
}

#[test]
fn a_driver_that_is_not_found_aborts_the_sprint_stage() {
    let mut destination = Destination::new();
    destination.constructors.insert(String::from("Red Bull"), 9);
    let done = run(&sprint_files(), &mut destination, 42, true);
    assert_eq!(done.phase, Phase::Aborted);
    assert_eq!(
        done.error,
        Some(LoadError::Lookup {
            entity: Entity::DriverSprintResult,
            row: 1,
            lookup: Lookup::DriverByNumber(33),
        })
    );
    assert_eq!(destination.committed.len(), 0);
    destination.drivers.insert(33, 830);
    destination.constructors.clear();
    let done = run(&sprint_files(), &mut destination, 42, true);
    assert_eq!(
        done.error,
        Some(LoadError::Lookup {
            entity: Entity::DriverSprintResult,
            row: 1,
            lookup: Lookup::ConstructorByName(String::from("Red Bull")),
        })
    );
    assert_eq!(destination.committed.len(), 0);
}

#[test]
fn sprint_lap_times_do_not_tolerate_duplicates() {
    let mut destination = Destination::new();
    destination.drivers.insert(33, 830);
    destination.constructors.insert(String::from("Red Bull"), 9);
    let files = with(
        sprint_files(),
        "sprint_laps_analysis.csv",
        "driver_id,lap,position,time\n830,1,1,1:23.456\n",
    );
    let done = run(&files, &mut destination, 42, true);
    assert_eq!(done.phase, Phase::Aborted);
    assert!(matches!(
        done.error,
        Some(LoadError::Insert { entity: Entity::SprintLapTime, row: 1, .. })
    ));
    assert_eq!(destination.committed.len(), 0);
}

#[test]
fn a_load_begins_idle() {
    let loader = Loader::new(42, true);
    assert_eq!(loader.race_id, 42);
    assert!(loader.sprint);
    assert_eq!(loader.phase, Phase::Idle);
    assert_eq!(loader.row, 0);
    assert!(loader.records.is_empty());
}

#[test]
fn lookups_are_queries_with_a_bound_value() {
    let by_number = Lookup::DriverByNumber(33);
    assert_eq!(by_number.sql(), "SELECT driverId FROM drivers WHERE number = ?");
    assert_eq!(by_number.parameter(), Value::Int(33));
    let by_name = Lookup::ConstructorByName(String::from("Red Bull'; --"));
    assert_eq!(by_name.sql(), "SELECT constructorId FROM constructors WHERE name = ?");
    assert_eq!(by_name.parameter(), text("Red Bull'; --"));
}

#[test]
fn a_row_asks_for_its_insert_or_for_its_ids() {
    let header: Vec<Vec<u8>> = vec![b"constructor_id".to_vec(), b"points".to_vec()];
    let row: Vec<Vec<u8>> = vec![b"9".to_vec(), b"43".to_vec()];
    match row_plan(Entity::ConstructorSprintResult, 42, &header, &row) {
        Ok(RowPlan::Insert(statement)) => {
            assert_eq!(statement.table, "constructorResults");
            assert_eq!(statement.values, vec![Value::Int(42), Value::Int(9), Value::Int(43)]);
        }
        other => panic!("unexpected plan: {:?}", other),
    }
    assert_eq!(
        row_plan(Entity::LapTime, 42, &header, &row),
        Err(DecodeFault::MissingField { field: 0 })
    );
    let records = f1_sql_updater::decode::read_records(
        "no,entrant,grid,position,positionOrder,points,laps\n44,Mercedes,2,R,20,0,3\n".as_bytes(),
    );
    match row_plan(Entity::DriverSprintResult, 42, &records[0], &records[1]) {
        Ok(RowPlan::Resolve(result)) => {
            assert_eq!(result.no, 44);
            assert_eq!(result.entrant, "Mercedes");
            assert_eq!(result.time, None);
        }
        other => panic!("unexpected plan: {:?}", other),
    }
}

#[test]
fn duplicate_laps_within_one_input_are_passed_over() {
    let laps = "driver_id,lap,position,time\n830,1,1,1:23.456\n830,1,1,1:23.456\n830,2,1,1:22.000\n";
    let mut destination = Destination::new();
    let done = run(&with(seven(), "lap_times.csv", laps), &mut destination, 42, false);
    assert_eq!(done.phase, Phase::Committed);
    assert_eq!(done.executed, 9);
    assert_eq!(destination.rows("lapTimes").len(), 2);
    let stops = "driver_id,stop,lap,time,duration\n830,1,12,14:05:09,23.456\n830,1,12,14:05:09,23.456\n";
    let mut destination = Destination::new();
    let done = run(&with(seven(), "pit_stops.csv", stops), &mut destination, 42, false);
    assert_eq!(done.phase, Phase::Aborted);
    assert_eq!(destination.committed.len(), 0);
}
