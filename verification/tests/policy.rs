use f1_sql_updater::entity::{driver_number, Entity};
use f1_sql_updater::policy::{settle, Conflict, InsertFailure, DUPLICATE_ENTRY};

fn failure(code: Option<u16>) -> InsertFailure {
    InsertFailure { code, message: String::from("rejected") }
}

#[test]
fn duplicate_entry_is_the_code_of_a_duplicate_key() {
    assert_eq!(DUPLICATE_ENTRY, 1062);
    assert_eq!(failure(Some(1062)).conflict(), Conflict::DuplicateKey);
    assert_eq!(failure(Some(1061)).conflict(), Conflict::Other);
    assert_eq!(failure(None).conflict(), Conflict::Other);
}

#[test]
fn a_tolerated_duplicate_counts_as_success() {
    assert_eq!(settle(Err(failure(Some(1062))), true), Ok(()));
}

#[test]
fn a_duplicate_stands_where_it_is_not_tolerated() {
    assert_eq!(settle(Err(failure(Some(1062))), false), Err(failure(Some(1062))));
}

#[test]
fn other_failures_stand_either_way() {
    assert_eq!(settle(Err(failure(Some(1452))), true), Err(failure(Some(1452))));
    assert_eq!(settle(Err(failure(None)), true), Err(failure(None)));
    assert_eq!(settle(Err(failure(None)), false), Err(failure(None)));
}

#[test]
fn success_stays_success() {
    assert_eq!(settle(Ok(()), true), Ok(()));
    assert_eq!(settle(Ok(()), false), Ok(()));
}

#[test]
fn only_lap_times_tolerate_duplicates() {
    let mut entity = Some(Entity::first());
    let mut tolerant = Vec::new();
    while let Some(e) = entity {
        if e.tolerant() {
            tolerant.push(e);
        }
        entity = e.next(true);
    }
    assert_eq!(tolerant, vec![Entity::LapTime]);
}

#[test]
fn entities_come_in_their_fixed_order() {
    let mut order = vec![Entity::first()];
    while let Some(next) = order[order.len() - 1].next(false) {
        order.push(next);
    }
    assert_eq!(
        order,
        vec![
            Entity::LapTime,
            Entity::PitStop,
            Entity::Qualifying,
            Entity::RaceResult,
            Entity::DriverStanding,
            Entity::ConstructorStanding,
            Entity::ConstructorResult,
        ]
    );
    assert_eq!(Entity::ConstructorResult.next(true), Some(Entity::ConstructorSprintResult));
    assert_eq!(Entity::ConstructorSprintResult.next(true), Some(Entity::SprintLapTime));
    assert_eq!(Entity::SprintLapTime.next(true), Some(Entity::DriverSprintResult));
    assert_eq!(Entity::DriverSprintResult.next(true), None);
    assert!(Entity::SprintLapTime.in_sprint_stage());
    assert!(!Entity::ConstructorResult.in_sprint_stage());
}

#[test]
fn entities_name_their_files() {
    assert_eq!(Entity::LapTime.file_name(), "lap_times.csv");
    assert_eq!(Entity::PitStop.file_name(), "pit_stops.csv");
    assert_eq!(Entity::Qualifying.file_name(), "qualifying.csv");
    assert_eq!(Entity::RaceResult.file_name(), "results.csv");
    assert_eq!(Entity::DriverStanding.file_name(), "driver_standings.csv");
    assert_eq!(Entity::ConstructorStanding.file_name(), "constructor_standings.csv");
    assert_eq!(Entity::ConstructorResult.file_name(), "constructor_results.csv");
}

#[test]
fn car_number_one_is_looked_up_as_thirty_three() {
    assert_eq!(driver_number(1), 33);
    assert_eq!(driver_number(33), 33);
    assert_eq!(driver_number(44), 44);
    assert_eq!(driver_number(0), 0);
}
