use f1_sql_updater::models::{
    ConstructorResult, ConstructorStanding, DriverSprintResult, DriverStanding, LapTime, PitStop,
    Qualifying, RaceResult, Record, SprintResult,
};
use f1_sql_updater::statement::{
    build_insert, constructor_standing_insert, lap_time_insert, ColumnValueMismatch,
    InsertStatement, Value,
};
use f1_sql_updater::tables::{LapTimes, Results, SprintResults};
use f1_sql_updater::timing::{Elapsed, WallTime};

fn names(columns: &[&str]) -> Vec<String> {
    columns.iter().map(|c| String::from(*c)).collect()
}

fn text(t: &str) -> Value {
    Value::Text(String::from(t))
}

#[test]
fn tables_and_columns_are_named_as_the_schema_spells_them() {
    assert_eq!(LapTimes::Table.name(), "lapTimes");
    assert_eq!(LapTimes::RaceID.name(), "raceId");
    assert_eq!(LapTimes::Milliseconds.name(), "milliseconds");
    assert_eq!(Results::Table.name(), "results");
    assert_eq!(Results::FastestLapSpeed.name(), "fastestLapSpeed");
    assert_eq!(Results::StatusID.name(), "statusId");
    assert_eq!(SprintResults::Table.name(), "sprintResults");
    assert_eq!(f1_sql_updater::tables::Qualifying::Table.name(), "qualifying");
    assert_eq!(f1_sql_updater::tables::Qualifying::Q1.name(), "q1");
    assert_eq!(f1_sql_updater::tables::PitStops::Duration.name(), "duration");
    assert_eq!(f1_sql_updater::tables::DriverStandings::PositionText.name(), "positionText");
    assert_eq!(f1_sql_updater::tables::ConstructorStandings::Table.name(), "constructorStandings");
    assert_eq!(f1_sql_updater::tables::ConstructorResults::Status.name(), "status");
}

#[test]
fn a_lap_time_goes_to_its_six_columns() {
    let lap = LapTime { driver_id: 830, lap: 12, position: 3, time: Elapsed { millis: 83456 } };
    let statement = lap_time_insert(42, &lap);
    assert_eq!(
        statement,
        InsertStatement {
            table: String::from("lapTimes"),
            columns: names(&["raceId", "driverId", "lap", "position", "time", "milliseconds"]),
            values: vec![
                Value::Int(42),
                Value::Int(830),
                Value::Int(12),
                Value::Int(3),
                text("1:23.456"),
                Value::Int(83456),
            ],
        }
    );
    assert_eq!(build_insert(42, &Record::LapTime(lap)), statement);
}

#[test]
fn a_pit_stop_goes_to_its_seven_columns() {
    let stop = PitStop {
        driver_id: 1,
        stop: 2,
        lap: 31,
        time: WallTime { hour: 14, minute: 5, second: 9, nanosecond: 0 },
        duration: Elapsed { millis: 23456 },
    };
    assert_eq!(
        build_insert(42, &Record::PitStop(stop)),
        InsertStatement {
            table: String::from("pitStops"),
            columns: names(&["raceId", "driverId", "stop", "lap", "time", "duration", "milliseconds"]),
            values: vec![
                Value::Int(42),
                Value::Int(1),
                Value::Int(2),
                Value::Int(31),
                text("14:05:09"),
                text("23.456"),
                Value::Int(23456),
            ],
        }
    );
}

#[test]
fn absent_fields_are_bound_as_null() {
    let q = Qualifying {
        driver_id: 1,
        constructor_id: 9,
        position: 4,
        number: 44,
        q1: String::from("1:30.100"),
        q2: Some(String::from("1:29.900")),
        q3: None,
    };
    assert_eq!(
        build_insert(42, &Record::Qualifying(q)),
        InsertStatement {
            table: String::from("qualifying"),
            columns: names(&[
                "raceId", "driverId", "constructorId", "number", "position", "q1", "q2", "q3",
            ]),
            values: vec![
                Value::Int(42),
                Value::Int(1),
                Value::Int(9),
                Value::Int(44),
                Value::Int(4),
                text("1:30.100"),
                text("1:29.900"),
                Value::Null,
            ],
        }
    );
}

#[test]
fn a_race_result_goes_to_its_sixteen_columns() {
    let r = RaceResult {
        driver_id: 1,
        constructor_id: 9,
        driver_number: 44,
        position: None,
        grid: 2,
        position_text: String::from("R"),
        position_order: 20,
        points: 0,
        laps: 12,
        time: None,
        milliseconds: Some(String::from("5504742")),
        fastest_lap: Some(44),
        fatest_lap_time: None,
        rank: Some(2),
        fastest_lap_speed: Some(String::from("215.123")),
    };
    assert_eq!(
        build_insert(7, &Record::RaceResult(r)),
        InsertStatement {
            table: String::from("results"),
            columns: names(&[
                "raceId", "driverId", "constructorId", "number", "grid", "position",
                "positionText", "positionOrder", "points", "laps", "time", "milliseconds",
                "fastestLap", "rank", "fastestLapTime", "fastestLapSpeed",
            ]),
            values: vec![
                Value::Int(7),
                Value::Int(1),
                Value::Int(9),
                Value::Int(44),
                Value::Int(2),
                Value::Null,
                text("R"),
                Value::Int(20),
                Value::Int(0),
                Value::Int(12),
                Value::Null,
                text("5504742"),
                Value::Int(44),
                Value::Int(2),
                Value::Null,
                Value::Decimal(String::from("215.123")),
            ],
        }
    );
}

#[test]
fn standings_keep_their_position_label() {
    let s = ConstructorStanding {
        constructor_id: 9,
        points: 120,
        position: 2,
        position_text: String::from("E"),
        wins: 1,
    };
    assert_eq!(
        constructor_standing_insert(42, &s),
        InsertStatement {
            table: String::from("constructorStandings"),
            columns: names(&["raceId", "constructorId", "points", "position", "positionText", "wins"]),
            values: vec![
                Value::Int(42),
                Value::Int(9),
                Value::Int(120),
                Value::Int(2),
                text("E"),
                Value::Int(1),
            ],
        }
    );
    let d = DriverStanding {
        driver_id: 1,
        points: 4_000_000_000,
        position: 1,
        position_text: String::from("1"),
        wins: 3,
    };
    assert_eq!(
        build_insert(42, &Record::DriverStanding(d)),
        InsertStatement {
            table: String::from("driverStandings"),
            columns: names(&["raceId", "driverId", "points", "position", "positionText", "wins"]),
            values: vec![
                Value::Int(42),
                Value::Int(1),
                Value::Int(4_000_000_000),
                Value::Int(1),
                text("1"),
                Value::Int(3),
            ],
        }
    );
    assert_eq!(
        build_insert(42, &Record::ConstructorResult(ConstructorResult { constructor_id: 9, points: 43 })),
        InsertStatement {
            table: String::from("constructorResults"),
            columns: names(&["raceId", "constructorId", "points"]),
            values: vec![Value::Int(42), Value::Int(9), Value::Int(43)],
        }
    );
}

fn sprint(position: &str) -> SprintResult {
    SprintResult {
        driver_id: 830,
        constructor_id: 9,
        result: DriverSprintResult {
            no: 1,
            entrant: String::from("Red Bull"),
            grid: 1,
            position: String::from(position),
            position_order: 1,
            points: 8,
            laps: 24,
            time: Some(String::from("30:00.000")),
            milliseconds: None,
            fastest_lap: Some(12),
            fatest_lap_time: None,
            fastest_lap_speed: Some(String::from("200.1")),
        },
    }
}

#[test]
fn a_sprint_result_takes_its_position_from_the_position_text() {
    let statement = build_insert(42, &Record::SprintResult(sprint("3")));
    assert_eq!(statement.table, "sprintResults");
    assert_eq!(
        statement.columns,
        names(&[
            "raceId", "driverId", "constructorId", "number", "grid", "position", "positionText",
            "positionOrder", "points", "laps", "time", "milliseconds", "fastestLap",
            "fastestLapTime",
        ])
    );
    assert_eq!(
        statement.values,
        vec![
            Value::Int(42),
            Value::Int(830),
            Value::Int(9),
            Value::Int(1),
            Value::Int(1),
            Value::Int(3),
            text("3"),
            Value::Int(1),
            Value::Int(8),
            Value::Int(24),
            text("30:00.000"),
            Value::Null,
            Value::Int(12),
            Value::Null,
        ]
    );
    let retired = build_insert(42, &Record::SprintResult(sprint("R")));
    assert_eq!(retired.values[5], Value::Null);
    assert_eq!(retired.values[6], text("R"));
}

#[test]
fn the_statement_text_holds_placeholders_and_no_value() {
    let lap = LapTime { driver_id: 830, lap: 12, position: 3, time: Elapsed { millis: 83456 } };
    assert_eq!(
        lap_time_insert(42, &lap).sql(),
        Ok(String::from(
            "INSERT INTO `lapTimes` (`raceId`, `driverId`, `lap`, `position`, `time`, `milliseconds`) VALUES (?, ?, ?, ?, ?, ?)"
        ))
    );
    let injected = InsertStatement {
        table: String::from("t"),
        columns: names(&["a", "b"]),
        values: vec![text("'); DROP TABLE t; --"), Value::Null],
    };
    assert_eq!(injected.sql(), Ok(String::from("INSERT INTO `t` (`a`, `b`) VALUES (?, ?)")));
}

#[test]
fn a_statement_with_unequal_columns_and_values_has_no_text() {
    let statement = InsertStatement {
        table: String::from("t"),
        columns: names(&["a", "b"]),
        values: vec![Value::Int(1)],
    };
    assert_eq!(statement.sql(), Err(ColumnValueMismatch { columns: 2, values: 1 }));
}
