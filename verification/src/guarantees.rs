//! What a load guarantees, stated of the machine run against a destination
//! that enforces unique keys.
//!
//! The destination is a model: it holds the keys of its rows, accepts a row
//! whose key is new and rejects, as a duplicate entry, one whose key it holds.
//! What the key of a row is, is left to the destination: the laws hold for
//! every choice.

use crate::decode::{csv_records, DecodeFault};
use crate::entity::{spec_driver_number, Entity};
use crate::loader::{
    spec_row_plan, ActionView, EventView, LoadErrorView, LoaderView, LookupView, Pending, Phase,
    RowPlanView,
};
use crate::models::SprintResultView;
use crate::policy::{InsertFailureView, DUPLICATE_ENTRY};
use crate::statement::{spec_sprint_result_insert, InsertView};
use vstd::prelude::*;

verus! {

/// What a load runs against: the inputs that are there, the key by which the
/// destination tells rows apart, and the drivers and constructors it knows.
#[verifier::reject_recursive_types(K)]
pub struct World<K> {
    pub inputs: Map<Entity, Seq<u8>>,
    pub key: spec_fn(InsertView) -> K,
    pub drivers: Map<u16, i32>,
    pub constructors: Map<Seq<char>, i32>,
}

/// How a run ends.
#[verifier::reject_recursive_types(K)]
pub enum Ending<K> {
    /// Committed: the destination holds the rows with these keys.
    Committed { rows: Set<K> },
    /// Aborted: the destination holds what it held before the run.
    Aborted { error: LoadErrorView },
    /// Stopped without either.
    Halted,
}

/// The failure with which the destination rejects a row whose key it holds.
pub open spec fn duplicate_entry() -> InsertFailureView {
    InsertFailureView { code: Some(DUPLICATE_ENTRY), message: Seq::empty() }
}

impl<K> World<K> {
    /// The input of `entity`, if it is there.
    pub open spec fn input(self, entity: Entity) -> Option<Seq<u8>> {
        if self.inputs.dom().contains(entity) {
            Some(self.inputs[entity])
        } else {
            None
        }
    }

    /// The id that a lookup finds, if any.
    pub open spec fn find(self, lookup: LookupView) -> Option<i32> {
        match lookup {
            LookupView::DriverByNumber(number) => if self.drivers.dom().contains(number) {
                Some(self.drivers[number])
            } else {
                None
            },
            LookupView::ConstructorByName(name) => if self.constructors.dom().contains(name) {
                Some(self.constructors[name])
            } else {
                None
            },
        }
    }

    /// What the world answers to an action, and the keys that the destination
    /// holds after it. `held` are the keys it holds before, those of this run's
    /// rows included.
    pub open spec fn answer(self, held: Set<K>, action: ActionView) -> (EventView, Set<K>) {
        match action {
            ActionView::Open(entity) => (EventView::Input(self.input(entity)), held),
            ActionView::Execute(statement) => if held.contains((self.key)(statement)) {
                (EventView::Outcome(Err(duplicate_entry())), held)
            } else {
                (EventView::Outcome(Ok(())), held.insert((self.key)(statement)))
            },
            ActionView::Find(lookup) => (EventView::Found(self.find(lookup)), held),
            _ => (EventView::Start, held),
        }
    }
}

/// How many entities a load at this phase has before it, the current one included.
pub open spec fn stages_left(phase: Phase) -> nat {
    match phase {
        Phase::Idle => 11,
        Phase::Loading(entity) => (10 - entity.spec_index()) as nat,
        Phase::Committed | Phase::Aborted => 0,
    }
}

/// 1 while the entity's input is awaited, 0 after.
pub open spec fn input_left(pending: Pending) -> nat {
    if pending == Pending::Input {
        1
    } else {
        0
    }
}

/// How many records of the current input a load has before it.
pub open spec fn rows_left(loader: LoaderView) -> nat {
    if loader.row < loader.records.len() {
        (loader.records.len() - loader.row) as nat
    } else {
        0
    }
}

/// How many answers the current row still waits for before its insert.
pub open spec fn lookups_left(pending: Pending) -> nat {
    match pending {
        Pending::Driver => 2,
        Pending::Constructor(_) => 1,
        _ => 0,
    }
}

/// The machine run against the world from where it stands, having just asked
/// for `action`, to its end.
pub open spec fn drive<K>(
    loader: LoaderView,
    action: ActionView,
    world: World<K>,
    held: Set<K>,
) -> Ending<K>
    decreases
        stages_left(loader.phase),
        input_left(loader.pending),
        rows_left(loader),
        lookups_left(loader.pending),
    via drive_terminates::<K>
{
    match action {
        ActionView::Commit => Ending::Committed { rows: held },
        ActionView::Abort(error) => Ending::Aborted { error },
        ActionView::Done => Ending::Halted,
        _ => if loader.phase == Phase::Committed || loader.phase == Phase::Aborted {
            Ending::Halted
        } else {
            let (event, held_after) = world.answer(held, action);
            let (next, asked) = loader.step(event);
            drive(next, asked, world, held_after)
        },
    }
}

/// The load `after` has less before it than the load `before`.
pub open spec fn advanced(before: LoaderView, after: LoaderView) -> bool {
    ||| stages_left(after.phase) < stages_left(before.phase)
    ||| {
        &&& stages_left(after.phase) == stages_left(before.phase)
        &&& input_left(after.pending) < input_left(before.pending)
    }
    ||| {
        &&& stages_left(after.phase) == stages_left(before.phase)
        &&& input_left(after.pending) == input_left(before.pending)
        &&& rows_left(after) < rows_left(before)
    }
    ||| {
        &&& stages_left(after.phase) == stages_left(before.phase)
        &&& input_left(after.pending) == input_left(before.pending)
        &&& rows_left(after) == rows_left(before)
        &&& lookups_left(after.pending) < lookups_left(before.pending)
    }
}

/// The entity loaded next is the next in the order.
pub proof fn lemma_next_index(entity: Entity, sprint: bool)
    ensures
        entity.spec_index() < 10,
        entity.spec_next(sprint) matches Some(next) ==> next.spec_index() == entity.spec_index()
            + 1,
{
}

/// Turning to a record of the input, the load advances, provided the record
/// is a later one or the input has only now come.
proof fn lemma_take_row_advances(
    origin: LoaderView,
    loader: LoaderView,
    entity: Entity,
    row: nat,
)
    requires
        origin.phase == Phase::Loading(entity),
        loader.phase == origin.phase,
        origin.pending == Pending::Input || (origin.pending == Pending::Outcome
            && loader.records == origin.records && origin.row < origin.records.len() && row
            == origin.row + 1),
    ensures
        advanced(origin, loader.take_row(entity, row).0),
{
    lemma_next_index(entity, loader.sprint);
}

/// Every step of a load that is not over advances it.
pub proof fn lemma_step_advances(loader: LoaderView, event: EventView)
    requires
        loader.phase != Phase::Committed,
        loader.phase != Phase::Aborted,
    ensures
        advanced(loader, loader.step(event).0),
{
    match loader.phase {
        Phase::Idle => {},
        Phase::Loading(entity) => {
            lemma_next_index(entity, loader.sprint);
            match (loader.pending, event) {
                (Pending::Input, EventView::Input(Some(bytes))) => {
                    let fed = LoaderView { records: csv_records(bytes), ..loader };
                    lemma_take_row_advances(loader, fed, entity, 1);
                },
                (Pending::Outcome, EventView::Outcome(outcome)) => {
                    if loader.row < loader.records.len() {
                        lemma_take_row_advances(loader, loader, entity, loader.row + 1);
                    }
                },
                _ => {},
            }
        },
        _ => {},
    }
}

#[via_fn]
proof fn drive_terminates<K>(
    loader: LoaderView,
    action: ActionView,
    world: World<K>,
    held: Set<K>,
) {
    if loader.phase != Phase::Committed && loader.phase != Phase::Aborted {
        lemma_step_advances(loader, world.answer(held, action).0);
    }
}

/// A whole load of the race `race_id` run against the world, whose
/// destination holds the keys `before`.
pub open spec fn run<K>(race_id: i32, sprint: bool, world: World<K>, before: Set<K>) -> Ending<K> {
    let (loader, action) = LoaderView::idle(race_id, sprint).step(EventView::Start);
    drive(loader, action, world, before)
}

/// The keys that the destination holds after a run that found it holding `before`.
pub open spec fn rows_after<K>(ending: Ending<K>, before: Set<K>) -> Set<K> {
    match ending {
        Ending::Committed { rows } => rows,
        _ => before,
    }
}

/// What the insert of a row does to the keys that the destination holds: a
/// new key is added; a key that is held aborts the load, unless the entity
/// tolerates duplicates, and then changes nothing.
pub open spec fn insert_effect<K>(
    entity: Entity,
    row: nat,
    statement: InsertView,
    world: World<K>,
    held: Set<K>,
) -> Result<Set<K>, LoadErrorView> {
    if !held.contains((world.key)(statement)) {
        Ok(held.insert((world.key)(statement)))
    } else if entity.spec_tolerant() {
        Ok(held)
    } else {
        Err(LoadErrorView::Insert { entity, row, failure: duplicate_entry() })
    }
}

/// What one record of an entity's input does to the keys that the destination holds.
pub open spec fn row_effect<K>(
    entity: Entity,
    race_id: i32,
    records: Seq<Seq<Seq<u8>>>,
    row: nat,
    world: World<K>,
    held: Set<K>,
) -> Result<Set<K>, LoadErrorView> {
    match spec_row_plan(entity, race_id, records[0], records[row as int]) {
        Err(fault) => Err(LoadErrorView::Decode { entity, row, fault }),
        Ok(RowPlanView::Insert(statement)) => insert_effect(entity, row, statement, world, held),
        Ok(RowPlanView::Resolve(result)) => {
            let by_number = LookupView::DriverByNumber(spec_driver_number(result.no));
            let by_name = LookupView::ConstructorByName(result.entrant);
            match (world.find(by_number), world.find(by_name)) {
                (None, _) => Err(LoadErrorView::Lookup { entity, row, lookup: by_number }),
                (Some(_), None) => Err(LoadErrorView::Lookup { entity, row, lookup: by_name }),
                (Some(driver_id), Some(constructor_id)) => insert_effect(
                    entity,
                    row,
                    spec_sprint_result_insert(
                        race_id,
                        SprintResultView { driver_id, constructor_id, result },
                    ),
                    world,
                    held,
                ),
            }
        },
    }
}

/// What the records of an entity's input do from `row` on, one after the
/// other, up to the first that aborts the load.
pub open spec fn rows_effect<K>(
    entity: Entity,
    race_id: i32,
    records: Seq<Seq<Seq<u8>>>,
    row: nat,
    world: World<K>,
    held: Set<K>,
) -> Result<Set<K>, LoadErrorView>
    decreases records.len() - row,
{
    if row >= records.len() {
        Ok(held)
    } else {
        match row_effect(entity, race_id, records, row, world, held) {
            Err(error) => Err(error),
            Ok(after) => rows_effect(entity, race_id, records, row + 1, world, after),
        }
    }
}

/// What loading one entity does: its input must be there, and its records
/// after the header are loaded in their order.
pub open spec fn entity_effect<K>(
    entity: Entity,
    race_id: i32,
    world: World<K>,
    held: Set<K>,
) -> Result<Set<K>, LoadErrorView> {
    match world.input(entity) {
        None => Err(LoadErrorView::ResourceNotFound { entity }),
        Some(bytes) => rows_effect(entity, race_id, csv_records(bytes), 1, world, held),
    }
}

/// What loading `entity` and every entity after it does.
pub open spec fn load_effect<K>(
    entity: Entity,
    race_id: i32,
    sprint: bool,
    world: World<K>,
    held: Set<K>,
) -> Result<Set<K>, LoadErrorView>
    decreases 10 - entity.spec_index(),
{
    match entity_effect(entity, race_id, world, held) {
        Err(error) => Err(error),
        Ok(after) => match entity.spec_next(sprint) {
            Some(next) => {
                proof {
                    lemma_next_index(entity, sprint);
                }
                load_effect(next, race_id, sprint, world, after)
            },
            None => Ok(after),
        },
    }
}

/// The ending of a run that loads with this effect.
pub open spec fn ending_of<K>(effect: Result<Set<K>, LoadErrorView>) -> Ending<K> {
    match effect {
        Ok(rows) => Ending::Committed { rows },
        Err(error) => Ending::Aborted { error },
    }
}

/// The run from the point where the entity's records are loaded, given what
/// loading them did.
pub open spec fn drive_on<K>(
    loader: LoaderView,
    entity: Entity,
    world: World<K>,
    effect: Result<Set<K>, LoadErrorView>,
) -> Ending<K> {
    match effect {
        Err(error) => Ending::Aborted { error },
        Ok(held) => drive(loader.finish(entity).0, loader.finish(entity).1, world, held),
    }
}

/// Executing a row's statement against the world does what `insert_effect` says.
proof fn lemma_drive_execute<K>(
    loader: LoaderView,
    entity: Entity,
    statement: InsertView,
    world: World<K>,
    held: Set<K>,
)
    requires
        loader.phase == Phase::Loading(entity),
        loader.pending == Pending::Outcome,
        loader.row < loader.records.len(),
    ensures
        drive(loader, ActionView::Execute(statement), world, held) == match insert_effect(
            entity,
            loader.row,
            statement,
            world,
            held,
        ) {
            Err(error) => Ending::Aborted { error },
            Ok(after) => drive(
                loader.take_row(entity, loader.row + 1).0,
                loader.take_row(entity, loader.row + 1).1,
                world,
                after,
            ),
        },
{
    let (event, after) = world.answer(held, ActionView::Execute(statement));
    let (next, asked) = loader.step(event);
    assert(drive(loader, ActionView::Execute(statement), world, held) == drive(
        next,
        asked,
        world,
        after,
    ));
}

/// Driving the machine through the records of an input does what
/// `rows_effect` says.
proof fn lemma_drive_rows<K>(
    loader: LoaderView,
    entity: Entity,
    row: nat,
    world: World<K>,
    held: Set<K>,
)
    requires
        loader.phase == Phase::Loading(entity),
    ensures
        drive(loader.take_row(entity, row).0, loader.take_row(entity, row).1, world, held)
            == drive_on(
            loader,
            entity,
            world,
            rows_effect(entity, loader.race_id, loader.records, row, world, held),
        ),
    decreases loader.records.len() - row,
{
    if row < loader.records.len() {
        match spec_row_plan(entity, loader.race_id, loader.records[0], loader.records[row as int]) {
            Err(fault) => {},
            Ok(RowPlanView::Insert(statement)) => {
                let at = LoaderView { pending: Pending::Outcome, row, ..loader };
                lemma_drive_execute(at, entity, statement, world, held);
                if let Ok(after) = insert_effect(entity, row, statement, world, held) {
                    lemma_drive_rows(at, entity, row + 1, world, after);
                    assert(at.finish(entity) == loader.finish(entity));
                }
            },
            Ok(RowPlanView::Resolve(result)) => {
                let by_number = LookupView::DriverByNumber(spec_driver_number(result.no));
                let by_name = LookupView::ConstructorByName(result.entrant);
                let first = LoaderView { pending: Pending::Driver, row, ..loader };
                assert(first.current_sprint_result(entity) == Some(result));
                let (event, _) = world.answer(held, ActionView::Find(by_number));
                assert(drive(first, ActionView::Find(by_number), world, held) == drive(
                    first.step(event).0,
                    first.step(event).1,
                    world,
                    held,
                ));
                if let Some(driver_id) = world.find(by_number) {
                    let second = LoaderView { pending: Pending::Constructor(driver_id), ..first };
                    assert(second.current_sprint_result(entity) == Some(result));
                    let (found, _) = world.answer(held, ActionView::Find(by_name));
                    assert(drive(second, ActionView::Find(by_name), world, held) == drive(
                        second.step(found).0,
                        second.step(found).1,
                        world,
                        held,
                    ));
                    if let Some(constructor_id) = world.find(by_name) {
                        let at = LoaderView { pending: Pending::Outcome, ..second };
                        let statement = spec_sprint_result_insert(
                            loader.race_id,
                            SprintResultView { driver_id, constructor_id, result },
                        );
                        lemma_drive_execute(at, entity, statement, world, held);
                        if let Ok(after) = insert_effect(entity, row, statement, world, held) {
                            lemma_drive_rows(at, entity, row + 1, world, after);
                            assert(at.finish(entity) == loader.finish(entity));
                        }
                    }
                }
            },
        }
    }
}

/// Driving the machine through one entity does what `entity_effect` says.
proof fn lemma_drive_entity<K>(loader: LoaderView, entity: Entity, world: World<K>, held: Set<K>)
    requires
        loader.phase == Phase::Loading(entity),
        loader.pending == Pending::Input,
    ensures
        drive(loader, ActionView::Open(entity), world, held) == drive_on(
            loader,
            entity,
            world,
            entity_effect(entity, loader.race_id, world, held),
        ),
{
    let (event, _) = world.answer(held, ActionView::Open(entity));
    assert(drive(loader, ActionView::Open(entity), world, held) == drive(
        loader.step(event).0,
        loader.step(event).1,
        world,
        held,
    ));
    if let Some(bytes) = world.input(entity) {
        let fed = LoaderView { records: csv_records(bytes), ..loader };
        lemma_drive_rows(fed, entity, 1, world, held);
        assert(fed.finish(entity) == loader.finish(entity));
    }
}

/// Driving the machine from an entity to the end does what `load_effect` says.
proof fn lemma_drive_load<K>(loader: LoaderView, entity: Entity, world: World<K>, held: Set<K>)
    requires
        loader.phase == Phase::Loading(entity),
        loader.pending == Pending::Input,
    ensures
        drive(loader, ActionView::Open(entity), world, held) == ending_of(
            load_effect(entity, loader.race_id, loader.sprint, world, held),
        ),
    decreases 10 - entity.spec_index(),
{
    lemma_drive_entity(loader, entity, world, held);
    lemma_next_index(entity, loader.sprint);
    if let Ok(after) = entity_effect(entity, loader.race_id, world, held) {
        if let Some(next) = entity.spec_next(loader.sprint) {
            lemma_drive_load(loader.enter(next).0, next, world, after);
        }
    }
}

/// A run of the machine against the world ends as the effects of its
/// entities say: committed with the keys they add up to, or aborted with the
/// first error among them.
pub proof fn law_run_follows_the_effects<K>(
    race_id: i32,
    sprint: bool,
    world: World<K>,
    before: Set<K>,
)
    ensures
        run(race_id, sprint, world, before) == ending_of(
            load_effect(Entity::spec_first(), race_id, sprint, world, before),
        ),
{
    let (loader, action) = LoaderView::idle(race_id, sprint).step(EventView::Start);
    lemma_drive_load(loader, Entity::spec_first(), world, before);
}

/// The key of the row that a record of an entity's input inserts, if the
/// record is read as an insert.
pub open spec fn row_key<K>(
    entity: Entity,
    race_id: i32,
    records: Seq<Seq<Seq<u8>>>,
    row: nat,
    world: World<K>,
) -> Option<K> {
    match spec_row_plan(entity, race_id, records[0], records[row as int]) {
        Ok(RowPlanView::Insert(statement)) => Some((world.key)(statement)),
        _ => None,
    }
}

/// The keys of the rows that the records of an input insert, from `from` on.
pub open spec fn row_keys<K>(
    entity: Entity,
    race_id: i32,
    records: Seq<Seq<Seq<u8>>>,
    from: nat,
    world: World<K>,
) -> Set<K> {
    Set::new(
        |k: K|
            exists|r: nat|
                from <= r < records.len() && #[trigger] row_key(entity, race_id, records, r, world)
                    == Some(k),
    )
}

/// Every record of the input from `from` on is read without a fault.
pub open spec fn all_rows_decode(
    entity: Entity,
    race_id: i32,
    records: Seq<Seq<Seq<u8>>>,
    from: nat,
) -> bool {
    forall|r: nat|
        from <= r < records.len() ==> (#[trigger] spec_row_plan(
            entity,
            race_id,
            records[0],
            records[r as int],
        )) is Ok
}

/// An entity that tolerates duplicates loads every input whose records are
/// read without a fault, whatever the destination holds, and the destination
/// then holds the keys it held and the keys of the input's rows, each once.
pub proof fn law_tolerant_load_adds_the_new_keys<K>(
    entity: Entity,
    race_id: i32,
    records: Seq<Seq<Seq<u8>>>,
    from: nat,
    world: World<K>,
    held: Set<K>,
)
    requires
        entity.spec_tolerant(),
        all_rows_decode(entity, race_id, records, from),
    ensures
        rows_effect(entity, race_id, records, from, world, held) == Ok::<Set<K>, LoadErrorView>(
            held.union(row_keys(entity, race_id, records, from, world)),
        ),
    decreases records.len() - from,
{
    let keys = row_keys(entity, race_id, records, from, world);
    if from >= records.len() {
        assert(held.union(keys) =~= held);
    } else {
        let plan = spec_row_plan(entity, race_id, records[0], records[from as int]);
        assert(plan is Ok);
        let key = row_key(entity, race_id, records, from, world).unwrap();
        let after = row_effect(entity, race_id, records, from, world, held)->Ok_0;
        assert(after =~= held.insert(key));
        law_tolerant_load_adds_the_new_keys(entity, race_id, records, from + 1, world, after);
        let rest = row_keys(entity, race_id, records, from + 1, world);
        assert forall|k: K| keys.contains(k) <==> (k == key || rest.contains(k)) by {
            if keys.contains(k) {
                let r = choose|r: nat|
                    from <= r < records.len() && #[trigger] row_key(
                        entity,
                        race_id,
                        records,
                        r,
                        world,
                    ) == Some(k);
                if r != from {
                    assert(from + 1 <= r && row_key(entity, race_id, records, r, world) == Some(k));
                }
            }
            if rest.contains(k) {
                let r = choose|r: nat|
                    from + 1 <= r < records.len() && #[trigger] row_key(
                        entity,
                        race_id,
                        records,
                        r,
                        world,
                    ) == Some(k);
                assert(from <= r && row_key(entity, race_id, records, r, world) == Some(k));
            }
            if k == key {
                assert(row_key(entity, race_id, records, from, world) == Some(k));
            }
        }
        assert(after.union(rest) =~= held.union(keys));
    }
}

/// Lap times can be loaded again: where the records of two inputs are all
/// read without a fault, both load, one after the other, and the destination
/// then holds the distinct keys of both. Where the second input holds every
/// row of the first, loading it after the first leaves what loading it alone
/// would.
pub proof fn law_lap_times_load_again<K>(
    race_id: i32,
    first: Seq<Seq<Seq<u8>>>,
    second: Seq<Seq<Seq<u8>>>,
    world: World<K>,
    before: Set<K>,
)
    requires
        all_rows_decode(Entity::LapTime, race_id, first, 1),
        all_rows_decode(Entity::LapTime, race_id, second, 1),
    ensures
        ({
            let keys_first = row_keys(Entity::LapTime, race_id, first, 1, world);
            let keys_second = row_keys(Entity::LapTime, race_id, second, 1, world);
            let once = rows_effect(Entity::LapTime, race_id, first, 1, world, before);
            &&& once == Ok::<Set<K>, LoadErrorView>(before.union(keys_first))
            &&& rows_effect(Entity::LapTime, race_id, second, 1, world, once->Ok_0) == Ok::<
                Set<K>,
                LoadErrorView,
            >(before.union(keys_first.union(keys_second)))
            &&& keys_first.subset_of(keys_second) ==> rows_effect(
                Entity::LapTime,
                race_id,
                second,
                1,
                world,
                once->Ok_0,
            ) == rows_effect(Entity::LapTime, race_id, second, 1, world, before)
        }),
{
    let keys_first = row_keys(Entity::LapTime, race_id, first, 1, world);
    let keys_second = row_keys(Entity::LapTime, race_id, second, 1, world);
    law_tolerant_load_adds_the_new_keys(Entity::LapTime, race_id, first, 1, world, before);
    law_tolerant_load_adds_the_new_keys(
        Entity::LapTime,
        race_id,
        second,
        1,
        world,
        before.union(keys_first),
    );
    law_tolerant_load_adds_the_new_keys(Entity::LapTime, race_id, second, 1, world, before);
    assert(before.union(keys_first).union(keys_second) =~= before.union(
        keys_first.union(keys_second),
    ));
    if keys_first.subset_of(keys_second) {
        assert(before.union(keys_first).union(keys_second) =~= before.union(keys_second));
    }
}

/// Lap times never stop a run by being there already: where the records of
/// their input are all read without a fault, the run goes on to the pit stops
/// with the keys of the laps added, whatever the destination held.
pub proof fn law_lap_times_never_stop_a_run<K>(
    race_id: i32,
    sprint: bool,
    world: World<K>,
    before: Set<K>,
    bytes: Seq<u8>,
)
    requires
        world.input(Entity::LapTime) == Some(bytes),
        all_rows_decode(Entity::LapTime, race_id, csv_records(bytes), 1),
    ensures
        run(race_id, sprint, world, before) == ending_of(
            load_effect(
                Entity::PitStop,
                race_id,
                sprint,
                world,
                before.union(row_keys(Entity::LapTime, race_id, csv_records(bytes), 1, world)),
            ),
        ),
{
    law_run_follows_the_effects(race_id, sprint, world, before);
    law_tolerant_load_adds_the_new_keys(
        Entity::LapTime,
        race_id,
        csv_records(bytes),
        1,
        world,
        before,
    );
}

/// The entity that an error names.
pub open spec fn error_entity(error: LoadErrorView) -> Option<Entity> {
    match error {
        LoadErrorView::ResourceNotFound { entity } => Some(entity),
        LoadErrorView::Decode { entity, .. } => Some(entity),
        LoadErrorView::Insert { entity, .. } => Some(entity),
        LoadErrorView::Lookup { entity, .. } => Some(entity),
        LoadErrorView::UnexpectedEvent => None,
    }
}

/// Loading the records of an entity takes no key from the destination, and
/// an error in them names the entity.
proof fn lemma_rows_effect_grows<K>(
    entity: Entity,
    race_id: i32,
    records: Seq<Seq<Seq<u8>>>,
    from: nat,
    world: World<K>,
    held: Set<K>,
)
    ensures
        match rows_effect(entity, race_id, records, from, world, held) {
            Ok(after) => held.subset_of(after),
            Err(error) => error_entity(error) == Some(entity),
        },
    decreases records.len() - from,
{
    if from < records.len() {
        if let Ok(after) = row_effect(entity, race_id, records, from, world, held) {
            lemma_rows_effect_grows(entity, race_id, records, from + 1, world, after);
        }
    }
}

/// The record `row` of the input stops the load of its entity: it is read
/// with a fault, or the entity does not tolerate duplicates and the
/// destination held the key of the record's row before the run.
pub open spec fn stops_the_load<K>(
    entity: Entity,
    race_id: i32,
    records: Seq<Seq<Seq<u8>>>,
    row: nat,
    world: World<K>,
    before: Set<K>,
) -> bool {
    match spec_row_plan(entity, race_id, records[0], records[row as int]) {
        Err(_) => true,
        Ok(RowPlanView::Insert(statement)) => !entity.spec_tolerant() && before.contains(
            (world.key)(statement),
        ),
        Ok(RowPlanView::Resolve(_)) => false,
    }
}

proof fn lemma_rows_effect_stops<K>(
    entity: Entity,
    race_id: i32,
    records: Seq<Seq<Seq<u8>>>,
    from: nat,
    row: nat,
    world: World<K>,
    before: Set<K>,
    held: Set<K>,
)
    requires
        from <= row < records.len(),
        stops_the_load(entity, race_id, records, row, world, before),
        before.subset_of(held),
    ensures
        rows_effect(entity, race_id, records, from, world, held) matches Err(error)
            && error_entity(error) == Some(entity),
    decreases row - from,
{
    if from < row {
        match row_effect(entity, race_id, records, from, world, held) {
            Ok(after) => {
                lemma_rows_effect_stops(entity, race_id, records, from + 1, row, world, before, after);
            },
            Err(_) => {},
        }
    }
}

/// The entity is part of the load.
pub open spec fn loaded(entity: Entity, sprint: bool) -> bool {
    sprint || !entity.spec_in_sprint_stage()
}

proof fn lemma_load_effect_stops<K>(
    start: Entity,
    entity: Entity,
    race_id: i32,
    sprint: bool,
    bytes: Seq<u8>,
    row: nat,
    world: World<K>,
    before: Set<K>,
    held: Set<K>,
)
    requires
        start.spec_index() <= entity.spec_index(),
        loaded(entity, sprint),
        world.input(entity) == Some(bytes),
        1 <= row < csv_records(bytes).len(),
        stops_the_load(entity, race_id, csv_records(bytes), row, world, before),
        before.subset_of(held),
    ensures
        load_effect(start, race_id, sprint, world, held) matches Err(error) && (error_entity(error)
            matches Some(e) && e.spec_index() <= entity.spec_index()),
    decreases entity.spec_index() - start.spec_index(),
{
    lemma_next_index(start, sprint);
    if start == entity {
        lemma_rows_effect_stops(entity, race_id, csv_records(bytes), 1, row, world, before, held);
    } else {
        match world.input(start) {
            None => {},
            Some(input) => {
                lemma_rows_effect_grows(start, race_id, csv_records(input), 1, world, held);
                if let Ok(after) = entity_effect(start, race_id, world, held) {
                    let next = start.spec_next(sprint).unwrap();
                    lemma_load_effect_stops(next, entity, race_id, sprint, bytes, row, world, before, after);
                }
            },
        }
    }
}

/// A record that is read with a fault aborts the run, whatever else the
/// inputs hold: the run ends aborted at that entity or at one before it, and
/// the destination holds what it held before.
pub proof fn law_malformed_row_aborts_the_run<K>(
    race_id: i32,
    sprint: bool,
    world: World<K>,
    before: Set<K>,
    entity: Entity,
    bytes: Seq<u8>,
    row: nat,
)
    requires
        loaded(entity, sprint),
        world.input(entity) == Some(bytes),
        1 <= row < csv_records(bytes).len(),
        spec_row_plan(entity, race_id, csv_records(bytes)[0], csv_records(bytes)[row as int])
            is Err,
    ensures
        run(race_id, sprint, world, before) matches Ending::Aborted { error } && (error_entity(
            error,
        ) matches Some(e) && e.spec_index() <= entity.spec_index()),
        rows_after(run(race_id, sprint, world, before), before) == before,
{
    law_run_follows_the_effects(race_id, sprint, world, before);
    lemma_load_effect_stops(
        Entity::spec_first(),
        entity,
        race_id,
        sprint,
        bytes,
        row,
        world,
        before,
        before,
    );
}

/// Only lap times tolerate duplicates: a row of any other entity whose key
/// the destination held before the run aborts the run, at that entity or at
/// one before it, and the destination holds what it held before.
pub proof fn law_duplicate_aborts_the_run<K>(
    race_id: i32,
    sprint: bool,
    world: World<K>,
    before: Set<K>,
    entity: Entity,
    bytes: Seq<u8>,
    row: nat,
    statement: InsertView,
)
    requires
        entity != Entity::LapTime,
        loaded(entity, sprint),
        world.input(entity) == Some(bytes),
        1 <= row < csv_records(bytes).len(),
        spec_row_plan(entity, race_id, csv_records(bytes)[0], csv_records(bytes)[row as int])
            == Ok::<RowPlanView, DecodeFault>(RowPlanView::Insert(statement)),
        before.contains((world.key)(statement)),
    ensures
        run(race_id, sprint, world, before) matches Ending::Aborted { error } && (error_entity(
            error,
        ) matches Some(e) && e.spec_index() <= entity.spec_index()),
        rows_after(run(race_id, sprint, world, before), before) == before,
{
    law_run_follows_the_effects(race_id, sprint, world, before);
    lemma_load_effect_stops(
        Entity::spec_first(),
        entity,
        race_id,
        sprint,
        bytes,
        row,
        world,
        before,
        before,
    );
}

/// A load is over once it is committed or aborted: whatever it is told of
/// then, it stays as it is and asks for nothing.
pub proof fn law_ended_load_asks_for_nothing(loader: LoaderView, event: EventView)
    requires
        loader.phase == Phase::Committed || loader.phase == Phase::Aborted,
    ensures
        loader.step(event) == (loader, ActionView::Done),
{
}

/// The commit is asked for only when the last entity of the load is loaded,
/// and a load is committed only by the step that asks for the commit.
pub proof fn law_commit_comes_last(loader: LoaderView, event: EventView)
    requires
        loader.phase != Phase::Committed,
    ensures
        loader.step(event).1 == ActionView::Commit <==> loader.step(event).0.phase
            == Phase::Committed,
        loader.step(event).1 == ActionView::Commit ==> (loader.phase matches Phase::Loading(
            entity,
        ) && entity.spec_next(loader.sprint) is None),
{
}

/// An abort leaves the load aborted, and a load is aborted only by the step
/// that asks for the abort.
pub proof fn law_abort_is_final(loader: LoaderView, event: EventView)
    requires
        loader.phase != Phase::Aborted,
    ensures
        loader.step(event).1 is Abort <==> loader.step(event).0.phase == Phase::Aborted,
{
}

} // verus!
