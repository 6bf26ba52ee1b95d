//! The load of one race as a state machine.
//!
//! The machine decides; its caller acts. Each step takes what came of the last
//! action and answers with the next one: open an input, execute a statement,
//! look something up, commit, or abort. Nothing is committed before every
//! entity is loaded, and after an abort nothing more is asked for.

use crate::decode::{read_records, record_view, records_view, csv_records, DecodeFault};
use crate::entity::{driver_number, spec_driver_number, Entity};
use crate::models::{DriverSprintResult, DriverSprintResultView, SprintResult, SprintResultView};
use crate::policy::{outcome_view, settle, spec_settle, InsertFailure, InsertFailureView};
use crate::shapes::{
    decode_constructor_result, decode_constructor_standing, decode_driver_sprint_result,
    decode_driver_standing, decode_lap_time, decode_pit_stop, decode_qualifying,
    decode_race_result, spec_decode_constructor_result, spec_decode_constructor_standing,
    spec_decode_driver_sprint_result, spec_decode_driver_standing, spec_decode_lap_time,
    spec_decode_pit_stop, spec_decode_qualifying, spec_decode_race_result,
};
use crate::statement::{
    constructor_result_insert, constructor_standing_insert, driver_standing_insert,
    lap_time_insert, pit_stop_insert, qualifying_insert, race_result_insert,
    spec_constructor_result_insert, spec_constructor_standing_insert,
    spec_driver_standing_insert, spec_lap_time_insert, spec_pit_stop_insert,
    spec_qualifying_insert, spec_race_result_insert, spec_sprint_result_insert,
    sprint_result_insert, InsertStatement, InsertView, Value, ValueView,
};
use vstd::prelude::*;

verus! {

/// Something that the stage of a sprint weekend has to find in the destination.
#[derive(Debug, PartialEq, Eq)]
pub enum Lookup {
    /// The id of the driver with this car number.
    DriverByNumber(u16),
    /// The id of the constructor with this name.
    ConstructorByName(String),
}

pub enum LookupView {
    DriverByNumber(u16),
    ConstructorByName(Seq<char>),
}

impl View for Lookup {
    type V = LookupView;

    open spec fn view(&self) -> LookupView {
        match self {
            Lookup::DriverByNumber(n) => LookupView::DriverByNumber(*n),
            Lookup::ConstructorByName(name) => LookupView::ConstructorByName(name@),
        }
    }
}

impl LookupView {
    /// The query that finds the id, with a placeholder for what is looked for.
    pub open spec fn sql(self) -> Seq<char> {
        match self {
            LookupView::DriverByNumber(_) => "SELECT driverId FROM drivers WHERE number = ?"@,
            LookupView::ConstructorByName(_) => "SELECT constructorId FROM constructors WHERE name = ?"@,
        }
    }

    /// What is looked for, as the value bound to the query.
    pub open spec fn parameter(self) -> ValueView {
        match self {
            LookupView::DriverByNumber(number) => ValueView::Int(number as i64),
            LookupView::ConstructorByName(name) => ValueView::Text(name),
        }
    }
}

impl Lookup {
    /// The query that finds the id, with a placeholder for what is looked for.
    pub fn sql(&self) -> (text: &'static str)
        ensures
            text@ == self@.sql(),
    {
        match self {
            Lookup::DriverByNumber(_) => "SELECT driverId FROM drivers WHERE number = ?",
            Lookup::ConstructorByName(_) => "SELECT constructorId FROM constructors WHERE name = ?",
        }
    }

    /// What is looked for, as the value bound to the query.
    pub fn parameter(&self) -> (value: Value)
        ensures
            value@ == self@.parameter(),
    {
        match self {
            Lookup::DriverByNumber(number) => Value::Int(*number as i64),
            Lookup::ConstructorByName(name) => Value::Text(name.clone()),
        }
    }
}

/// Why a load was aborted.
#[derive(Debug, PartialEq, Eq)]
pub enum LoadError {
    /// The entity's input is not there.
    ResourceNotFound { entity: Entity },
    /// A row of the entity's input gives no record. `row` counts the records
    /// of the input from the header, which is 0.
    Decode { entity: Entity, row: usize, fault: DecodeFault },
    /// The destination rejected the row's insert.
    Insert { entity: Entity, row: usize, failure: InsertFailure },
    /// What the row refers to is not in the destination.
    Lookup { entity: Entity, row: usize, lookup: Lookup },
    /// The machine was told of something that it had not asked for.
    UnexpectedEvent,
}

pub enum LoadErrorView {
    ResourceNotFound { entity: Entity },
    Decode { entity: Entity, row: nat, fault: DecodeFault },
    Insert { entity: Entity, row: nat, failure: InsertFailureView },
    Lookup { entity: Entity, row: nat, lookup: LookupView },
    UnexpectedEvent,
}

impl View for LoadError {
    type V = LoadErrorView;

    open spec fn view(&self) -> LoadErrorView {
        match self {
            LoadError::ResourceNotFound { entity } => LoadErrorView::ResourceNotFound {
                entity: *entity,
            },
            LoadError::Decode { entity, row, fault } => LoadErrorView::Decode {
                entity: *entity,
                row: *row as nat,
                fault: *fault,
            },
            LoadError::Insert { entity, row, failure } => LoadErrorView::Insert {
                entity: *entity,
                row: *row as nat,
                failure: failure@,
            },
            LoadError::Lookup { entity, row, lookup } => LoadErrorView::Lookup {
                entity: *entity,
                row: *row as nat,
                lookup: lookup@,
            },
            LoadError::UnexpectedEvent => LoadErrorView::UnexpectedEvent,
        }
    }
}

/// What a row asks for: an insert, or first the ids that its insert needs.
#[derive(Debug, PartialEq, Eq)]
pub enum RowPlan {
    Insert(InsertStatement),
    Resolve(DriverSprintResult),
}

pub enum RowPlanView {
    Insert(InsertView),
    Resolve(DriverSprintResultView),
}

impl View for RowPlan {
    type V = RowPlanView;

    open spec fn view(&self) -> RowPlanView {
        match self {
            RowPlan::Insert(statement) => RowPlanView::Insert(statement@),
            RowPlan::Resolve(result) => RowPlanView::Resolve(result@),
        }
    }
}

/// What a row of an entity's input asks for, or the row's first fault.
pub open spec fn spec_row_plan(
    entity: Entity,
    race_id: i32,
    header: Seq<Seq<u8>>,
    row: Seq<Seq<u8>>,
) -> Result<RowPlanView, DecodeFault> {
    match entity {
        Entity::LapTime | Entity::SprintLapTime => match spec_decode_lap_time(header, row) {
            Ok(r) => Ok(RowPlanView::Insert(spec_lap_time_insert(race_id, r))),
            Err(fault) => Err(fault),
        },
        Entity::PitStop => match spec_decode_pit_stop(header, row) {
            Ok(r) => Ok(RowPlanView::Insert(spec_pit_stop_insert(race_id, r))),
            Err(fault) => Err(fault),
        },
        Entity::Qualifying => match spec_decode_qualifying(header, row) {
            Ok(r) => Ok(RowPlanView::Insert(spec_qualifying_insert(race_id, r))),
            Err(fault) => Err(fault),
        },
        Entity::RaceResult => match spec_decode_race_result(header, row) {
            Ok(r) => Ok(RowPlanView::Insert(spec_race_result_insert(race_id, r))),
            Err(fault) => Err(fault),
        },
        Entity::DriverStanding => match spec_decode_driver_standing(header, row) {
            Ok(r) => Ok(RowPlanView::Insert(spec_driver_standing_insert(race_id, r))),
            Err(fault) => Err(fault),
        },
        Entity::ConstructorStanding => match spec_decode_constructor_standing(header, row) {
            Ok(r) => Ok(RowPlanView::Insert(spec_constructor_standing_insert(race_id, r))),
            Err(fault) => Err(fault),
        },
        Entity::ConstructorResult | Entity::ConstructorSprintResult => match spec_decode_constructor_result(
            header,
            row,
        ) {
            Ok(r) => Ok(RowPlanView::Insert(spec_constructor_result_insert(race_id, r))),
            Err(fault) => Err(fault),
        },
        Entity::DriverSprintResult => match spec_decode_driver_sprint_result(header, row) {
            Ok(r) => Ok(RowPlanView::Resolve(r)),
            Err(fault) => Err(fault),
        },
    }
}

/// Reads a row of an entity's input and says what it asks for.
pub fn row_plan(entity: Entity, race_id: i32, header: &Vec<Vec<u8>>, row: &Vec<Vec<u8>>) -> (plan:
    Result<RowPlan, DecodeFault>)
    ensures
        match plan {
            Ok(p) => spec_row_plan(entity, race_id, record_view(*header), record_view(*row))
                == Ok::<RowPlanView, DecodeFault>(p@),
            Err(fault) => spec_row_plan(entity, race_id, record_view(*header), record_view(*row))
                == Err::<RowPlanView, DecodeFault>(fault),
        },
{
    match entity {
        Entity::LapTime | Entity::SprintLapTime => match decode_lap_time(header, row) {
            Ok(r) => Ok(RowPlan::Insert(lap_time_insert(race_id, &r))),
            Err(fault) => Err(fault),
        },
        Entity::PitStop => match decode_pit_stop(header, row) {
            Ok(r) => Ok(RowPlan::Insert(pit_stop_insert(race_id, &r))),
            Err(fault) => Err(fault),
        },
        Entity::Qualifying => match decode_qualifying(header, row) {
            Ok(r) => Ok(RowPlan::Insert(qualifying_insert(race_id, &r))),
            Err(fault) => Err(fault),
        },
        Entity::RaceResult => match decode_race_result(header, row) {
            Ok(r) => Ok(RowPlan::Insert(race_result_insert(race_id, &r))),
            Err(fault) => Err(fault),
        },
        Entity::DriverStanding => match decode_driver_standing(header, row) {
            Ok(r) => Ok(RowPlan::Insert(driver_standing_insert(race_id, &r))),
            Err(fault) => Err(fault),
        },
        Entity::ConstructorStanding => match decode_constructor_standing(header, row) {
            Ok(r) => Ok(RowPlan::Insert(constructor_standing_insert(race_id, &r))),
            Err(fault) => Err(fault),
        },
        Entity::ConstructorResult | Entity::ConstructorSprintResult => match decode_constructor_result(
            header,
            row,
        ) {
            Ok(r) => Ok(RowPlan::Insert(constructor_result_insert(race_id, &r))),
            Err(fault) => Err(fault),
        },
        Entity::DriverSprintResult => match decode_driver_sprint_result(header, row) {
            Ok(r) => Ok(RowPlan::Resolve(r)),
            Err(fault) => Err(fault),
        },
    }
}

/// Where a load stands.
#[derive(Clone, Copy, Debug, PartialEq, Eq, Structural)]
pub enum Phase {
    /// Not begun.
    Idle,
    /// Loading the entity.
    Loading(Entity),
    /// Every entity is loaded and the commit is asked for.
    Committed,
    /// The load failed; nothing of it is to be committed.
    Aborted,
}

/// What a load in progress waits for.
#[derive(Clone, Copy, Debug, PartialEq, Eq, Structural)]
pub enum Pending {
    /// The entity's input.
    Input,
    /// The outcome of the current row's insert.
    Outcome,
    /// The id of the current row's driver.
    Driver,
    /// The id of the current row's constructor; the driver's id is known.
    Constructor(i32),
}

/// What the caller tells the machine.
#[derive(Debug, PartialEq, Eq)]
pub enum Event {
    /// The load is to begin.
    Start,
    /// The input that was asked for: its bytes, or `None` where it is not there.
    Input(Option<Vec<u8>>),
    /// What came of the statement that was to be executed.
    Outcome(Result<(), InsertFailure>),
    /// The id that was looked up, or `None` where there is none.
    Found(Option<i32>),
}

pub enum EventView {
    Start,
    Input(Option<Seq<u8>>),
    Outcome(Result<(), InsertFailureView>),
    Found(Option<i32>),
}

impl View for Event {
    type V = EventView;

    open spec fn view(&self) -> EventView {
        match self {
            Event::Start => EventView::Start,
            Event::Input(input) => EventView::Input(
                match input {
                    Some(bytes) => Some(bytes@),
                    None => None,
                },
            ),
            Event::Outcome(outcome) => EventView::Outcome(outcome_view(*outcome)),
            Event::Found(id) => EventView::Found(*id),
        }
    }
}

/// What the machine asks of its caller.
#[derive(Debug, PartialEq, Eq)]
pub enum Action {
    /// Read the entity's input and answer with `Event::Input`.
    Open(Entity),
    /// Execute the statement in the transaction and answer with `Event::Outcome`.
    Execute(InsertStatement),
    /// Look the id up in the transaction and answer with `Event::Found`.
    Find(Lookup),
    /// Commit the transaction: the load is complete.
    Commit,
    /// Give the transaction up: the load failed.
    Abort(LoadError),
    /// Nothing: the load is over.
    Done,
}

pub enum ActionView {
    Open(Entity),
    Execute(InsertView),
    Find(LookupView),
    Commit,
    Abort(LoadErrorView),
    Done,
}

impl View for Action {
    type V = ActionView;

    open spec fn view(&self) -> ActionView {
        match self {
            Action::Open(entity) => ActionView::Open(*entity),
            Action::Execute(statement) => ActionView::Execute(statement@),
            Action::Find(lookup) => ActionView::Find(lookup@),
            Action::Commit => ActionView::Commit,
            Action::Abort(error) => ActionView::Abort(error@),
            Action::Done => ActionView::Done,
        }
    }
}

/// The load of one race. `records` holds the input of the entity that is
/// being loaded, the header first; `row` is the record that is being handled.
#[derive(Debug, PartialEq, Eq)]
pub struct Loader {
    pub race_id: i32,
    pub sprint: bool,
    pub phase: Phase,
    pub pending: Pending,
    pub records: Vec<Vec<Vec<u8>>>,
    pub row: usize,
}

pub struct LoaderView {
    pub race_id: i32,
    pub sprint: bool,
    pub phase: Phase,
    pub pending: Pending,
    pub records: Seq<Seq<Seq<u8>>>,
    pub row: nat,
}

impl View for Loader {
    type V = LoaderView;

    open spec fn view(&self) -> LoaderView {
        LoaderView {
            race_id: self.race_id,
            sprint: self.sprint,
            phase: self.phase,
            pending: self.pending,
            records: records_view(self.records),
            row: self.row as nat,
        }
    }
}

impl LoaderView {
    /// A load that has not begun.
    pub open spec fn idle(race_id: i32, sprint: bool) -> LoaderView {
        LoaderView {
            race_id,
            sprint,
            phase: Phase::Idle,
            pending: Pending::Input,
            records: Seq::empty(),
            row: 0,
        }
    }

    /// The load fails with `error`.
    pub open spec fn abort(self, error: LoadErrorView) -> (LoaderView, ActionView) {
        (LoaderView { phase: Phase::Aborted, ..self }, ActionView::Abort(error))
    }

    /// The load turns to `entity` and asks for its input.
    pub open spec fn enter(self, entity: Entity) -> (LoaderView, ActionView) {
        (
            LoaderView {
                phase: Phase::Loading(entity),
                pending: Pending::Input,
                records: Seq::empty(),
                row: 0,
                ..self
            },
            ActionView::Open(entity),
        )
    }

    /// `entity` is loaded: the load turns to the next one, or commits after the last.
    pub open spec fn finish(self, entity: Entity) -> (LoaderView, ActionView) {
        match entity.spec_next(self.sprint) {
            Some(next) => self.enter(next),
            None => (
                LoaderView {
                    phase: Phase::Committed,
                    pending: Pending::Input,
                    records: Seq::empty(),
                    row: 0,
                    ..self
                },
                ActionView::Commit,
            ),
        }
    }

    /// The load turns to the record `row` of the input of `entity`: it reads
    /// the row and asks for what it needs, or finishes the entity where the
    /// input has no such record.
    pub open spec fn take_row(self, entity: Entity, row: nat) -> (LoaderView, ActionView) {
        if row >= self.records.len() {
            self.finish(entity)
        } else {
            match spec_row_plan(entity, self.race_id, self.records[0], self.records[row as int]) {
                Err(fault) => self.abort(LoadErrorView::Decode { entity, row, fault }),
                Ok(RowPlanView::Insert(statement)) => (
                    LoaderView { pending: Pending::Outcome, row, ..self },
                    ActionView::Execute(statement),
                ),
                Ok(RowPlanView::Resolve(result)) => (
                    LoaderView { pending: Pending::Driver, row, ..self },
                    ActionView::Find(LookupView::DriverByNumber(spec_driver_number(result.no))),
                ),
            }
        }
    }

    /// The sprint result in the current row, where the load is at one.
    pub open spec fn current_sprint_result(self, entity: Entity) -> Option<
        DriverSprintResultView,
    > {
        if entity == Entity::DriverSprintResult && self.row < self.records.len() {
            match spec_decode_driver_sprint_result(self.records[0], self.records[self.row as int]) {
                Ok(result) => Some(result),
                Err(_) => None,
            }
        } else {
            None
        }
    }

    /// The load while it is at `entity`, told of `event`.
    pub open spec fn step_loading(self, entity: Entity, event: EventView) -> (
        LoaderView,
        ActionView,
    ) {
        match (self.pending, event) {
            (Pending::Input, EventView::Input(None)) => self.abort(
                LoadErrorView::ResourceNotFound { entity },
            ),
            (Pending::Input, EventView::Input(Some(bytes))) => LoaderView {
                records: csv_records(bytes),
                ..self
            }.take_row(entity, 1),
            (Pending::Outcome, EventView::Outcome(outcome)) => if self.row
                >= self.records.len() {
                self.abort(LoadErrorView::UnexpectedEvent)
            } else {
                match spec_settle(outcome, entity.spec_tolerant()) {
                    Ok(_) => self.take_row(entity, self.row + 1),
                    Err(failure) => self.abort(
                        LoadErrorView::Insert { entity, row: self.row, failure },
                    ),
                }
            },
            (Pending::Driver, EventView::Found(found)) => match self.current_sprint_result(
                entity,
            ) {
                None => self.abort(LoadErrorView::UnexpectedEvent),
                Some(result) => match found {
                    None => self.abort(
                        LoadErrorView::Lookup {
                            entity,
                            row: self.row,
                            lookup: LookupView::DriverByNumber(spec_driver_number(result.no)),
                        },
                    ),
                    Some(driver_id) => (
                        LoaderView { pending: Pending::Constructor(driver_id), ..self },
                        ActionView::Find(LookupView::ConstructorByName(result.entrant)),
                    ),
                },
            },
            (Pending::Constructor(driver_id), EventView::Found(found)) => match self.current_sprint_result(
                entity,
            ) {
                None => self.abort(LoadErrorView::UnexpectedEvent),
                Some(result) => match found {
                    None => self.abort(
                        LoadErrorView::Lookup {
                            entity,
                            row: self.row,
                            lookup: LookupView::ConstructorByName(result.entrant),
                        },
                    ),
                    Some(constructor_id) => (
                        LoaderView { pending: Pending::Outcome, ..self },
                        ActionView::Execute(
                            spec_sprint_result_insert(
                                self.race_id,
                                SprintResultView { driver_id, constructor_id, result },
                            ),
                        ),
                    ),
                },
            },
            _ => self.abort(LoadErrorView::UnexpectedEvent),
        }
    }

    /// The load told of `event`: where it stands then, and what it asks for.
    pub open spec fn step(self, event: EventView) -> (LoaderView, ActionView) {
        match self.phase {
            Phase::Idle => match event {
                EventView::Start => self.enter(Entity::spec_first()),
                _ => self.abort(LoadErrorView::UnexpectedEvent),
            },
            Phase::Loading(entity) => self.step_loading(entity, event),
            Phase::Committed | Phase::Aborted => (self, ActionView::Done),
        }
    }
}

impl Loader {
    /// A load of the race `race_id` that has not begun. With `sprint` the
    /// stage of a sprint weekend follows the core.
    pub fn new(race_id: i32, sprint: bool) -> (loader: Loader)
        ensures
            loader@ == LoaderView::idle(race_id, sprint),
    {
        let loader = Loader {
            race_id,
            sprint,
            phase: Phase::Idle,
            pending: Pending::Input,
            records: Vec::new(),
            row: 0,
        };
        assert(loader@.records =~= Seq::empty());
        loader
    }

    fn abort(&mut self, error: LoadError) -> (action: Action)
        ensures
            (final(self)@, action@) == old(self)@.abort(error@),
    {
        self.phase = Phase::Aborted;
        Action::Abort(error)
    }

    fn enter(&mut self, entity: Entity) -> (action: Action)
        ensures
            (final(self)@, action@) == old(self)@.enter(entity),
    {
        self.phase = Phase::Loading(entity);
        self.pending = Pending::Input;
        self.records = Vec::new();
        self.row = 0;
        assert(self@.records =~= Seq::empty());
        Action::Open(entity)
    }

    fn finish(&mut self, entity: Entity) -> (action: Action)
        ensures
            (final(self)@, action@) == old(self)@.finish(entity),
    {
        match entity.next(self.sprint) {
            Some(next) => self.enter(next),
            None => {
                self.phase = Phase::Committed;
                self.pending = Pending::Input;
                self.records = Vec::new();
                self.row = 0;
                assert(self@.records =~= Seq::empty());
                Action::Commit
            },
        }
    }

    fn take_row(&mut self, entity: Entity, row: usize) -> (action: Action)
        ensures
            (final(self)@, action@) == old(self)@.take_row(entity, row as nat),
    {
        if row >= self.records.len() {
            return self.finish(entity);
        }
        assert(self@.records[0] == record_view(self.records@[0]));
        assert(self@.records[row as int] == record_view(self.records@[row as int]));
        match row_plan(entity, self.race_id, &self.records[0], &self.records[row]) {
            Err(fault) => self.abort(LoadError::Decode { entity, row, fault }),
            Ok(RowPlan::Insert(statement)) => {
                self.pending = Pending::Outcome;
                self.row = row;
                Action::Execute(statement)
            },
            Ok(RowPlan::Resolve(result)) => {
                self.pending = Pending::Driver;
                self.row = row;
                Action::Find(Lookup::DriverByNumber(driver_number(result.no)))
            },
        }
    }

    fn current_sprint_result(&self, entity: Entity) -> (result: Option<DriverSprintResult>)
        ensures
            match result {
                Some(r) => self@.current_sprint_result(entity) == Some(r@),
                None => self@.current_sprint_result(entity) is None,
            },
    {
        match entity {
            Entity::DriverSprintResult => {
                if self.row < self.records.len() {
                    assert(self@.records[0] == record_view(self.records@[0]));
                    assert(self@.records[self.row as int] == record_view(
                        self.records@[self.row as int],
                    ));
                    match decode_driver_sprint_result(&self.records[0], &self.records[self.row]) {
                        Ok(r) => Some(r),
                        Err(_) => None,
                    }
                } else {
                    None
                }
            },
            _ => None,
        }
    }

    fn step_loading(&mut self, entity: Entity, event: Event) -> (action: Action)
        ensures
            (final(self)@, action@) == old(self)@.step_loading(entity, event@),
    {
        match (self.pending, event) {
            (Pending::Input, Event::Input(None)) => self.abort(
                LoadError::ResourceNotFound { entity },
            ),
            (Pending::Input, Event::Input(Some(bytes))) => {
                self.records = read_records(bytes.as_slice());
                self.take_row(entity, 1)
            },
            (Pending::Outcome, Event::Outcome(outcome)) => {
                if self.row >= self.records.len() {
                    self.abort(LoadError::UnexpectedEvent)
                } else {
                    match settle(outcome, entity.tolerant()) {
                        Ok(_) => {
                            let next = self.row + 1;
                            self.take_row(entity, next)
                        },
                        Err(failure) => {
                            let row = self.row;
                            self.abort(LoadError::Insert { entity, row, failure })
                        },
                    }
                }
            },
            (Pending::Driver, Event::Found(found)) => match self.current_sprint_result(entity) {
                None => self.abort(LoadError::UnexpectedEvent),
                Some(result) => match found {
                    None => {
                        let row = self.row;
                        self.abort(
                            LoadError::Lookup {
                                entity,
                                row,
                                lookup: Lookup::DriverByNumber(driver_number(result.no)),
                            },
                        )
                    },
                    Some(driver_id) => {
                        self.pending = Pending::Constructor(driver_id);
                        Action::Find(Lookup::ConstructorByName(result.entrant))
                    },
                },
            },
            (Pending::Constructor(driver_id), Event::Found(found)) => match self.current_sprint_result(
                entity,
            ) {
                None => self.abort(LoadError::UnexpectedEvent),
                Some(result) => match found {
                    None => {
                        let row = self.row;
                        self.abort(
                            LoadError::Lookup {
                                entity,
                                row,
                                lookup: Lookup::ConstructorByName(result.entrant),
                            },
                        )
                    },
                    Some(constructor_id) => {
                        self.pending = Pending::Outcome;
                        let resolved = SprintResult { driver_id, constructor_id, result };
                        Action::Execute(sprint_result_insert(self.race_id, &resolved))
                    },
                },
            },
            _ => self.abort(LoadError::UnexpectedEvent),
        }
    }

    /// Tells the machine what came of its last action and gets the next one.
    /// The first event of a load is `Event::Start`.
    pub fn step(&mut self, event: Event) -> (action: Action)
        ensures
            (final(self)@, action@) == old(self)@.step(event@),
    {
        match self.phase {
            Phase::Idle => match event {
                Event::Start => self.enter(Entity::first()),
                _ => self.abort(LoadError::UnexpectedEvent),
            },
            Phase::Loading(entity) => self.step_loading(entity, event),
            Phase::Committed | Phase::Aborted => Action::Done,
        }
    }
}

} // verus!
