use f1_sql_updater::decode::{
    decode_cell, decode_row, read_records, Cell, DecodeFault, Field, FieldKind,
};
use f1_sql_updater::models::{
    ConstructorResult, ConstructorStanding, DriverSprintResult, DriverStanding, LapTime, PitStop,
    Qualifying, RaceResult,
};
use f1_sql_updater::shapes::{
    decode_constructor_result, decode_constructor_standing, decode_driver_sprint_result,
    decode_driver_standing, decode_lap_time, decode_pit_stop, decode_qualifying,
    decode_race_result, lap_time_fields,
};
use f1_sql_updater::timing::{Elapsed, WallTime};

fn record(fields: &[&str]) -> Vec<Vec<u8>> {
    fields.iter().map(|f| f.as_bytes().to_vec()).collect()
}

#[test]
fn records_are_split_header_first() {
    let records = read_records(b"driver_id,lap\n1,2\n3,4\n");
    assert_eq!(records, vec![record(&["driver_id", "lap"]), record(&["1", "2"]), record(&["3", "4"])]);
}

#[test]
fn quoted_fields_and_blank_lines_are_handled_by_the_reader() {
    let records = read_records(b"name,note\n\"Red Bull, Racing\",\"said \"\"go\"\"\"\n\n\"a\nb\",c\n");
    assert_eq!(
        records,
        vec![
            record(&["name", "note"]),
            record(&["Red Bull, Racing", "said \"go\""]),
            record(&["a\nb", "c"]),
        ]
    );
}

#[test]
fn records_of_any_length_are_split() {
    let records = read_records(b"a,b,c\n1\n1,2,3,4\n");
    assert_eq!(records, vec![record(&["a", "b", "c"]), record(&["1"]), record(&["1", "2", "3", "4"])]);
    assert_eq!(read_records(b""), Vec::<Vec<Vec<u8>>>::new());
}

#[test]
fn a_lap_time_is_decoded() {
    let header = record(&["driver_id", "lap", "position", "time"]);
    let row = record(&["830", "12", "3", "1:23.456"]);
    assert_eq!(
        decode_lap_time(&header, &row),
        Ok(LapTime { driver_id: 830, lap: 12, position: 3, time: Elapsed { millis: 83456 } })
    );
}

#[test]
fn columns_go_by_name_and_unknown_ones_are_passed_over() {
    let header = record(&["time", "comment", "position", "driver_id", "lap"]);
    let row = record(&["0:59.001", "not a number", "3", "-7", "0x10"]);
    assert_eq!(
        decode_lap_time(&header, &row),
        Ok(LapTime { driver_id: -7, lap: 16, position: 3, time: Elapsed { millis: 59001 } })
    );
}

#[test]
fn a_row_of_another_length_than_the_header_is_refused() {
    let header = record(&["driver_id", "lap", "position", "time"]);
    assert_eq!(
        decode_lap_time(&header, &record(&["830", "12", "3"])),
        Err(DecodeFault::UnequalLengths { expected: 4, found: 3 })
    );
    assert_eq!(
        decode_lap_time(&header, &record(&["830", "12", "3", "1:23.456", "x"])),
        Err(DecodeFault::UnequalLengths { expected: 4, found: 5 })
    );
}

#[test]
fn an_invalid_number_is_refused_with_its_column() {
    let header = record(&["driver_id", "lap", "position", "time"]);
    assert_eq!(
        decode_lap_time(&header, &record(&["830", "twelve", "3", "1:23.456"])),
        Err(DecodeFault::InvalidField { column: 1 })
    );
    assert_eq!(
        decode_lap_time(&header, &record(&["830", "70000", "3", "1:23.456"])),
        Err(DecodeFault::InvalidField { column: 1 })
    );
    assert_eq!(
        decode_lap_time(&header, &record(&["", "1", "3", "1:23.456"])),
        Err(DecodeFault::InvalidField { column: 0 })
    );
}

#[test]
fn an_invalid_time_is_refused_with_its_column() {
    let header = record(&["driver_id", "lap", "position", "time"]);
    assert_eq!(
        decode_lap_time(&header, &record(&["830", "12", "3", "1:23.45"])),
        Err(DecodeFault::InvalidField { column: 3 })
    );
}

#[test]
fn the_leftmost_fault_is_reported() {
    let header = record(&["time", "lap", "position", "driver_id"]);
    assert_eq!(
        decode_lap_time(&header, &record(&["bad", "bad", "3", "bad"])),
        Err(DecodeFault::InvalidField { column: 0 })
    );
}

#[test]
fn a_missing_column_is_refused_with_its_field() {
    let header = record(&["driver_id", "lap", "time"]);
    assert_eq!(
        decode_lap_time(&header, &record(&["830", "12", "1:23.456"])),
        Err(DecodeFault::MissingField { field: 2 })
    );
}

#[test]
fn a_repeated_column_is_refused() {
    let header = record(&["driver_id", "lap", "lap", "position", "time"]);
    assert_eq!(
        decode_lap_time(&header, &record(&["830", "12", "12", "3", "1:23.456"])),
        Err(DecodeFault::DuplicateField { column: 2 })
    );
    assert_eq!(
        decode_lap_time(&header, &record(&["830", "x", "12", "3", "1:23.456"])),
        Err(DecodeFault::InvalidField { column: 1 })
    );
}

#[test]
fn a_row_that_is_not_text_is_refused() {
    let header = record(&["driver_id", "lap", "position", "time", "note"]);
    let mut row = record(&["830", "12", "3", "1:23.456", ""]);
    row[4] = vec![0xff, 0xfe];
    assert_eq!(decode_lap_time(&header, &row), Err(DecodeFault::InvalidText));
    row.pop();
    assert_eq!(
        decode_lap_time(&header, &row),
        Err(DecodeFault::UnequalLengths { expected: 5, found: 4 })
    );
}

#[test]
fn under_a_header_that_is_not_text_columns_go_by_place() {
    let mut header = record(&["a", "b", "c", "d"]);
    header[0] = vec![0xff];
    assert_eq!(
        decode_lap_time(&header, &record(&["830", "12", "3", "1:23.456"])),
        Ok(LapTime { driver_id: 830, lap: 12, position: 3, time: Elapsed { millis: 83456 } })
    );
    let mut short = record(&["a", "b"]);
    short[0] = vec![0xff];
    assert_eq!(
        decode_lap_time(&short, &record(&["830", "12"])),
        Err(DecodeFault::MissingField { field: 2 })
    );
}

#[test]
fn a_pit_stop_is_decoded() {
    let header = record(&["driver_id", "stop", "lap", "time", "duration"]);
    let row = record(&["1", "2", "31", "14:05:09", "23.456"]);
    assert_eq!(
        decode_pit_stop(&header, &row),
        Ok(PitStop {
            driver_id: 1,
            stop: 2,
            lap: 31,
            time: WallTime { hour: 14, minute: 5, second: 9, nanosecond: 0 },
            duration: Elapsed { millis: 23456 },
        })
    );
    assert_eq!(
        decode_pit_stop(&header, &record(&["1", "2", "31", "14:05", "23.456"])),
        Err(DecodeFault::InvalidField { column: 3 })
    );
    assert_eq!(
        decode_pit_stop(&header, &record(&["1", "2", "31", "14:05:09", "1:23.456"])),
        Err(DecodeFault::InvalidField { column: 4 })
    );
}

#[test]
fn a_qualifying_result_is_decoded_with_its_later_segments_optional() {
    let header = record(&["driver_id", "constructor_id", "position", "number", "q1", "q2", "q3"]);
    assert_eq!(
        decode_qualifying(&header, &record(&["1", "9", "4", "44", "1:30.100", "1:29.900", ""])),
        Ok(Qualifying {
            driver_id: 1,
            constructor_id: 9,
            position: 4,
            number: 44,
            q1: String::from("1:30.100"),
            q2: Some(String::from("1:29.900")),
            q3: None,
        })
    );
    let narrow = record(&["driver_id", "constructor_id", "position", "number", "q1"]);
    assert_eq!(
        decode_qualifying(&narrow, &record(&["1", "9", "4", "44", ""])),
        Ok(Qualifying {
            driver_id: 1,
            constructor_id: 9,
            position: 4,
            number: 44,
            q1: String::new(),
            q2: None,
            q3: None,
        })
    );
}

#[test]
fn a_race_result_is_decoded_with_its_optional_fields() {
    let header = record(&[
        "driver_id", "constructor_id", "driver_number", "position", "grid", "position_text",
        "position_order", "points", "laps", "time", "milliseconds", "fastest_lap",
        "fatest_lap_time", "rank", "fastest_lap_speed",
    ]);
    let finished = record(&[
        "1", "9", "44", "1", "2", "1", "1", "25", "57", "1:31:44.742", "5504742", "44",
        "1:34.015", "2", "215.123",
    ]);
    assert_eq!(
        decode_race_result(&header, &finished),
        Ok(RaceResult {
            driver_id: 1,
            constructor_id: 9,
            driver_number: 44,
            position: Some(1),
            grid: 2,
            position_text: String::from("1"),
            position_order: 1,
            points: 25,
            laps: 57,
            time: Some(String::from("1:31:44.742")),
            milliseconds: Some(String::from("5504742")),
            fastest_lap: Some(44),
            fatest_lap_time: Some(String::from("1:34.015")),
            rank: Some(2),
            fastest_lap_speed: Some(String::from("215.123")),
        })
    );
    let retired =
        record(&["1", "9", "44", "", "2", "R", "20", "0", "12", "", "", "", "", "", ""]);
    assert_eq!(
        decode_race_result(&header, &retired),
        Ok(RaceResult {
            driver_id: 1,
            constructor_id: 9,
            driver_number: 44,
            position: None,
            grid: 2,
            position_text: String::from("R"),
            position_order: 20,
            points: 0,
            laps: 12,
            time: None,
            milliseconds: None,
            fastest_lap: None,
            fatest_lap_time: None,
            rank: None,
            fastest_lap_speed: None,
        })
    );
    let mut wrong = finished.clone();
    wrong[14] = b"fast".to_vec();
    assert_eq!(decode_race_result(&header, &wrong), Err(DecodeFault::InvalidField { column: 14 }));
    let mut wrong = finished.clone();
    wrong[11] = b"x".to_vec();
    assert_eq!(decode_race_result(&header, &wrong), Err(DecodeFault::InvalidField { column: 11 }));
}

#[test]
fn standings_and_constructor_results_are_decoded() {
    let header = record(&["driver_id", "points", "position", "position_text", "wins"]);
    assert_eq!(
        decode_driver_standing(&header, &record(&["1", "4000000000", "1", "1", "3"])),
        Ok(DriverStanding {
            driver_id: 1,
            points: 4_000_000_000,
            position: 1,
            position_text: String::from("1"),
            wins: 3,
        })
    );
    let header = record(&["constructor_id", "points", "position", "position_text", "wins"]);
    assert_eq!(
        decode_constructor_standing(&header, &record(&["9", "120", "2", "2", "1"])),
        Ok(ConstructorStanding {
            constructor_id: 9,
            points: 120,
            position: 2,
            position_text: String::from("2"),
            wins: 1,
        })
    );
    assert_eq!(
        decode_constructor_standing(&header, &record(&["9", "-1", "2", "2", "1"])),
        Err(DecodeFault::InvalidField { column: 1 })
    );
    let header = record(&["constructor_id", "points"]);
    assert_eq!(
        decode_constructor_result(&header, &record(&["9", "43"])),
        Ok(ConstructorResult { constructor_id: 9, points: 43 })
    );
}

#[test]
fn a_sprint_result_is_decoded_from_its_own_column_names() {
    let header = record(&[
        "no", "entrant", "grid", "position", "positionOrder", "points", "laps", "time",
        "milliseconds", "fastestLap", "fastestLapTime", "fastestLapSpeed",
    ]);
    let row = record(&[
        "1", "Red Bull", "1", "1", "1", "8", "24", "30:00.000", "1800000", "12", "1:10.000", "",
    ]);
    assert_eq!(
        decode_driver_sprint_result(&header, &row),
        Ok(DriverSprintResult {
            no: 1,
            entrant: String::from("Red Bull"),
            grid: 1,
            position: String::from("1"),
            position_order: 1,
            points: 8,
            laps: 24,
            time: Some(String::from("30:00.000")),
            milliseconds: Some(String::from("1800000")),
            fastest_lap: Some(12),
            fatest_lap_time: Some(String::from("1:10.000")),
            fastest_lap_speed: None,
        })
    );
}

#[test]
fn cells_are_read_as_their_kind_asks() {
    assert_eq!(decode_cell(FieldKind::I32, b"-3"), Some(Cell::Int(-3)));
    assert_eq!(decode_cell(FieldKind::U16, b"-3"), None);
    assert_eq!(decode_cell(FieldKind::Text, b""), Some(Cell::Text(String::new())));
    assert_eq!(decode_cell(FieldKind::OptText, b""), Some(Cell::Absent));
    assert_eq!(decode_cell(FieldKind::OptU16, b""), Some(Cell::Absent));
    assert_eq!(decode_cell(FieldKind::OptU16, b"7"), Some(Cell::Int(7)));
    assert_eq!(decode_cell(FieldKind::OptDecimal, b"1.5"), Some(Cell::Text(String::from("1.5"))));
    assert_eq!(decode_cell(FieldKind::OptDecimal, b"1,5"), None);
    assert_eq!(
        decode_cell(FieldKind::LapDuration, b"1:23.456"),
        Some(Cell::Span(Elapsed { millis: 83456 }))
    );
    assert_eq!(
        decode_cell(FieldKind::StopDuration, b"23.456"),
        Some(Cell::Span(Elapsed { millis: 23456 }))
    );
    assert_eq!(
        decode_cell(FieldKind::TimeOfDay, b"14:05:09"),
        Some(Cell::Time(WallTime { hour: 14, minute: 5, second: 9, nanosecond: 0 }))
    );
    assert!(FieldKind::OptText.optional());
    assert!(!FieldKind::Text.optional());
}

#[test]
fn a_row_gives_one_cell_for_each_field_of_the_shape() {
    let fields = lap_time_fields();
    assert_eq!(fields[3], Field { name: "time", kind: FieldKind::LapDuration });
    let header = record(&["time", "driver_id", "lap", "position"]);
    let row = record(&["1:23.456", "830", "12", "3"]);
    assert_eq!(
        decode_row(&fields, &header, &row),
        Ok(vec![
            Cell::Int(830),
            Cell::Int(12),
            Cell::Int(3),
            Cell::Span(Elapsed { millis: 83456 }),
        ])
    );
}

#[test]
fn text_is_decoded_from_utf8() {
    let header = record(&["driver_id", "points", "position", "position_text", "wins"]);
    let row = record(&["1", "25", "1", "première", "3"]);
    assert_eq!(
        decode_driver_standing(&header, &row).unwrap().position_text,
        "première"
    );
    assert_eq!(decode_cell(FieldKind::Text, &[0xff]), None);
    assert_eq!(decode_cell(FieldKind::LapDuration, &[0xff]), None);
    assert_eq!(decode_cell(FieldKind::I32, &[0xff]), None);
}
