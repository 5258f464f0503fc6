//! Creating and changing a cargo, step by step.
//!
//! Each of the two takes several turns with the store. What is asked of the
//! store in each turn, and what follows from its answer, is decided here;
//! whoever holds the store carries out what is asked and hands back the
//! answer. The turns of one flow follow each other strictly, but they are
//! not one transaction: the store may fail, or another flow may write,
//! between any two of them.

use crate::cargo::{hydrated, new_spec_row, outcome_view, SpecStamp};
use crate::error::RepoError;
use crate::key::{gen_key, is_valid_name, key_of};
use crate::models::{
    Cargo, CargoDb, CargoPatch, CargoRow, CargoSpec, CargoSpecPartial, CargoSpecView,
    CargoUpdateDb, CargoView, PartialView, SpecDb, SpecRow, Timestamp,
};
use crate::repository::{
    RepositoryCreate, RepositoryReadBy, RepositoryReadByTransform, RepositoryUpdate, WithSpec,
};
use crate::store::{Store, StoreView};
use vstd::prelude::*;

verus! {

/// The patch that repoints a cargo to another spec and changes nothing
/// else.
pub open spec fn repointing(spec_key: Seq<char>) -> CargoPatch {
    CargoPatch { key: None, name: None, namespace_name: None, spec_key: Some(spec_key) }
}

/// What a flow asks of the store.
#[derive(Debug)]
pub enum StoreAction {
    /// Read the cargo with the key, joined to its current spec.
    ReadCargo(String),
    /// Add the spec.
    CreateSpec(SpecDb),
    /// Add the cargo.
    CreateCargo(CargoDb),
    /// Apply the patch to the cargo with the key.
    UpdateCargo(String, CargoUpdateDb),
}

/// The view of a [`StoreAction`].
pub ghost enum ActionView {
    ReadCargo(Seq<char>),
    CreateSpec(SpecRow),
    CreateCargo(CargoRow),
    UpdateCargo(Seq<char>, CargoPatch),
}

impl View for StoreAction {
    type V = ActionView;

    open spec fn view(&self) -> ActionView {
        match self {
            StoreAction::ReadCargo(key) => ActionView::ReadCargo(key@),
            StoreAction::CreateSpec(row) => ActionView::CreateSpec(row@),
            StoreAction::CreateCargo(row) => ActionView::CreateCargo(row@),
            StoreAction::UpdateCargo(key, patch) => ActionView::UpdateCargo(key@, patch@),
        }
    }
}

/// What the store answers.
#[derive(Debug)]
pub enum StoreEvent {
    /// The joined row that was read.
    CargoRead(Result<(CargoDb, SpecDb), RepoError>),
    /// The spec as stored.
    SpecCreated(Result<SpecDb, RepoError>),
    /// The cargo as stored.
    CargoCreated(Result<CargoDb, RepoError>),
    CargoUpdated(Result<(), RepoError>),
}

/// The view of a [`StoreEvent`].
pub ghost enum EventView {
    CargoRead(Result<(CargoRow, SpecRow), RepoError>),
    SpecCreated(Result<SpecRow, RepoError>),
    CargoCreated(Result<CargoRow, RepoError>),
    CargoUpdated(Result<(), RepoError>),
}

impl View for StoreEvent {
    type V = EventView;

    open spec fn view(&self) -> EventView {
        match self {
            StoreEvent::CargoRead(answer) => EventView::CargoRead(
                match answer {
                    Ok(row) => Ok((row.0@, row.1@)),
                    Err(e) => Err(*e),
                },
            ),
            StoreEvent::SpecCreated(answer) => EventView::SpecCreated(
                match answer {
                    Ok(row) => Ok(row@),
                    Err(e) => Err(*e),
                },
            ),
            StoreEvent::CargoCreated(answer) => EventView::CargoCreated(
                match answer {
                    Ok(row) => Ok(row@),
                    Err(e) => Err(*e),
                },
            ),
            StoreEvent::CargoUpdated(answer) => EventView::CargoUpdated(
                match answer {
                    Ok(_) => Ok(()),
                    Err(e) => Err(*e),
                },
            ),
        }
    }
}

/// Where a flow stands while it waits for the store, with what it has to
/// remember.
#[derive(Debug)]
pub enum Flow {
    /// Creating: the first spec is being written.
    CreateSpec { namespace: String, item: CargoSpecPartial, created_at: Timestamp },
    /// Creating: the cargo row is being written.
    CreateCargo { spec: CargoSpec },
    /// Changing: the cargo is being read.
    ReadCargo { key: String, item: CargoSpecPartial, version: String, stamp: SpecStamp },
    /// Changing: the new spec is being written.
    UpdateSpec { key: String, cargo: Cargo },
    /// Changing: the cargo row is being repointed.
    UpdateCargo { cargo: Cargo, spec: CargoSpec },
}

/// The view of a [`Flow`].
pub ghost enum FlowView {
    CreateSpec { namespace: Seq<char>, item: PartialView, created_at: Timestamp },
    CreateCargo { spec: CargoSpecView },
    ReadCargo {
        key: Seq<char>,
        item: PartialView,
        version: Seq<char>,
        spec_key: Seq<char>,
        spec_created_at: Timestamp,
    },
    UpdateSpec { key: Seq<char>, cargo: CargoView },
    UpdateCargo { cargo: CargoView, spec: CargoSpecView },
}

impl View for Flow {
    type V = FlowView;

    open spec fn view(&self) -> FlowView {
        match self {
            Flow::CreateSpec { namespace, item, created_at } => FlowView::CreateSpec {
                namespace: namespace@,
                item: item@,
                created_at: *created_at,
            },
            Flow::CreateCargo { spec } => FlowView::CreateCargo { spec: spec@ },
            Flow::ReadCargo { key, item, version, stamp } => FlowView::ReadCargo {
                key: key@,
                item: item@,
                version: version@,
                spec_key: stamp.key@,
                spec_created_at: stamp.created_at,
            },
            Flow::UpdateSpec { key, cargo } => FlowView::UpdateSpec { key: key@, cargo: cargo@ },
            Flow::UpdateCargo { cargo, spec } => FlowView::UpdateCargo {
                cargo: cargo@,
                spec: spec@,
            },
        }
    }
}

impl FlowView {
    /// The number of turns with the store that the flow has before it, at
    /// most.
    pub open spec fn turns_left(self) -> nat {
        match self {
            FlowView::CreateSpec { .. } => 2,
            FlowView::CreateCargo { .. } => 1,
            FlowView::ReadCargo { .. } => 3,
            FlowView::UpdateSpec { .. } => 2,
            FlowView::UpdateCargo { .. } => 1,
        }
    }
}

/// What a flow does next: it asks the store, or it is done.
#[derive(Debug)]
pub enum Step {
    Ask(Flow, StoreAction),
    Done(Result<Cargo, RepoError>),
}

/// The view of a [`Step`].
pub ghost enum StepView {
    Ask(FlowView, ActionView),
    Done(Result<CargoView, RepoError>),
}

impl View for Step {
    type V = StepView;

    open spec fn view(&self) -> StepView {
        match self {
            Step::Ask(flow, action) => StepView::Ask(flow@, action@),
            Step::Done(outcome) => StepView::Done(
                match outcome {
                    Ok(cargo) => Ok(cargo@),
                    Err(e) => Err(*e),
                },
            ),
        }
    }
}

impl StepView {
    /// The number of turns with the store that are left, at most.
    pub open spec fn turns_left(self) -> nat {
        match self {
            StepView::Ask(flow, _) => flow.turns_left(),
            StepView::Done(_) => 0,
        }
    }
}

/// The first step of creating a cargo: an item that is not acceptable is
/// refused before the store is asked anything; else the spec is to be
/// written.
pub open spec fn create_begins(
    namespace: Seq<char>,
    item: PartialView,
    version: Seq<char>,
    spec_key: Seq<char>,
    spec_created_at: Timestamp,
    created_at: Timestamp,
) -> StepView {
    if !item.acceptable() {
        StepView::Done(Err(RepoError::InvalidInput))
    } else {
        StepView::Ask(
            FlowView::CreateSpec { namespace, item, created_at },
            ActionView::CreateSpec(
                new_spec_row(
                    key_of(namespace, item.name),
                    version,
                    item.data,
                    spec_key,
                    spec_created_at,
                ),
            ),
        )
    }
}

/// The first step of changing a cargo: an item that is not well formed is
/// refused before the store is asked anything; else the cargo is to be
/// read.
pub open spec fn update_begins(
    key: Seq<char>,
    item: PartialView,
    version: Seq<char>,
    spec_key: Seq<char>,
    spec_created_at: Timestamp,
) -> StepView {
    if !item.well_formed() {
        StepView::Done(Err(RepoError::InvalidInput))
    } else {
        StepView::Ask(
            FlowView::ReadCargo { key, item, version, spec_key, spec_created_at },
            ActionView::ReadCargo(key),
        )
    }
}

/// What follows from an answer of the store.
///
/// A failure of the store ends the flow with that failure. A row whose
/// configuration does not decode ends it with a transform error. An answer
/// to something that the flow did not ask ends it as if the store were
/// unavailable.
pub open spec fn resumed(flow: FlowView, event: EventView) -> StepView {
    match (flow, event) {
        (_, EventView::CargoRead(Err(e))) => StepView::Done(Err(e)),
        (_, EventView::SpecCreated(Err(e))) => StepView::Done(Err(e)),
        (_, EventView::CargoCreated(Err(e))) => StepView::Done(Err(e)),
        (_, EventView::CargoUpdated(Err(e))) => StepView::Done(Err(e)),
        (
            FlowView::CreateSpec { namespace, item, created_at },
            EventView::SpecCreated(Ok(stored)),
        ) => match stored.resolved() {
            None => StepView::Done(Err(RepoError::TransformError)),
            Some(spec) => StepView::Ask(
                FlowView::CreateCargo { spec },
                ActionView::CreateCargo(
                    CargoRow {
                        key: key_of(namespace, item.name),
                        created_at,
                        name: item.name,
                        spec_key: spec.key,
                        namespace_name: namespace,
                    },
                ),
            ),
        },
        (FlowView::CreateCargo { spec }, EventView::CargoCreated(Ok(row))) => StepView::Done(
            Ok(
                CargoView { namespace_name: row.namespace_name, created_at: row.created_at, spec },
            ),
        ),
        (
            FlowView::ReadCargo { key, item, version, spec_key, spec_created_at },
            EventView::CargoRead(Ok(row)),
        ) => match hydrated(row) {
            None => StepView::Done(Err(RepoError::TransformError)),
            Some(cargo) => if !item.well_formed() {
                StepView::Done(Err(RepoError::InvalidInput))
            } else {
                StepView::Ask(
                    FlowView::UpdateSpec { key, cargo },
                    ActionView::CreateSpec(
                        new_spec_row(key, version, item.data, spec_key, spec_created_at),
                    ),
                )
            },
        },
        (
            FlowView::UpdateSpec { key, cargo },
            EventView::SpecCreated(Ok(stored)),
        ) => match stored.resolved() {
            None => StepView::Done(Err(RepoError::TransformError)),
            Some(spec) => StepView::Ask(
                FlowView::UpdateCargo { cargo, spec },
                ActionView::UpdateCargo(key, repointing(spec.key)),
            ),
        },
        (FlowView::UpdateCargo { cargo, spec }, EventView::CargoUpdated(Ok(_))) => StepView::Done(
            Ok(CargoView { spec, ..cargo }),
        ),
        _ => StepView::Done(Err(RepoError::StoreUnavailable)),
    }
}

impl StoreView {
    /// What the store answers to an action, and what it is afterwards.
    pub open spec fn answer(self, action: ActionView) -> (StoreView, EventView) {
        match action {
            ActionView::ReadCargo(key) => (
                self,
                EventView::CargoRead(
                    if self.has_cargo(key) {
                        Ok(self.current(key))
                    } else {
                        Err(RepoError::NotFound)
                    },
                ),
            ),
            ActionView::CreateSpec(row) => match self.after_create_spec(row) {
                Ok(next) => (next, EventView::SpecCreated(Ok(row))),
                Err(e) => (self, EventView::SpecCreated(Err(e))),
            },
            ActionView::CreateCargo(row) => match self.after_create_cargo(row) {
                Ok(next) => (next, EventView::CargoCreated(Ok(row))),
                Err(e) => (self, EventView::CargoCreated(Err(e))),
            },
            ActionView::UpdateCargo(key, patch) => match self.after_update_cargo(key, patch) {
                Ok(next) => (next, EventView::CargoUpdated(Ok(()))),
                Err(e) => (self, EventView::CargoUpdated(Err(e))),
            },
        }
    }
}

/// Where a flow ends, and what the store is then, when the store answers
/// every turn and nothing else writes in between.
pub open spec fn run(step: StepView, store: StoreView) -> (StoreView, Result<CargoView, RepoError>)
    decreases step.turns_left(),
{
    match step {
        StepView::Done(outcome) => (store, outcome),
        StepView::Ask(flow, action) => {
            let (next, event) = store.answer(action);
            run(resumed(flow, event), next)
        },
    }
}

impl Cargo {
    /// The cargo with `spec` in place of its spec.
    pub fn with_new_spec(self, spec: CargoSpec) -> (cargo: Cargo)
        ensures
            cargo@ == (CargoView { spec: spec@, ..self@ }),
    {
        Cargo { namespace_name: self.namespace_name, created_at: self.created_at, spec }
    }
}

impl CargoDb {
    /// The first step of creating a cargo: checks the item and builds the
    /// spec row to write.
    pub fn spec_for_create(
        namespace: &str,
        item: &CargoSpecPartial,
        version: &str,
        stamp: SpecStamp,
    ) -> (outcome: Result<SpecDb, RepoError>)
        ensures
            match outcome {
                Ok(row) => item@.acceptable() && row@ == new_spec_row(
                    key_of(namespace@, item.name@),
                    version@,
                    item.data@,
                    stamp.key@,
                    stamp.created_at,
                ),
                Err(e) => !item@.acceptable() && e == RepoError::InvalidInput,
            },
    {
        if !is_valid_name(item.name.as_str()) {
            return Err(RepoError::InvalidInput);
        }
        let key = gen_key(namespace, item.name.as_str());
        SpecDb::try_from_cargo_partial(key.as_str(), version, item, stamp)
    }

    /// The second step of creating a cargo: the cargo row to write once the
    /// spec is stored.
    pub fn row_for_create(
        namespace: &str,
        item: &CargoSpecPartial,
        spec: &CargoSpec,
        created_at: Timestamp,
    ) -> (row: CargoDb)
        ensures
            row@ == (CargoRow {
                key: key_of(namespace@, item.name@),
                created_at,
                name: item.name@,
                spec_key: spec@.key,
                namespace_name: namespace@,
            }),
    {
        CargoDb {
            key: gen_key(namespace, item.name.as_str()),
            created_at,
            name: item.name.clone(),
            spec_key: spec.key.clone(),
            namespace_name: namespace.to_owned(),
        }
    }

    /// The first step of changing a cargo, once it is known to exist:
    /// checks the item and builds the spec row to write.
    pub fn spec_for_update(
        key: &str,
        item: &CargoSpecPartial,
        version: &str,
        stamp: SpecStamp,
    ) -> (outcome: Result<SpecDb, RepoError>)
        ensures
            match outcome {
                Ok(row) => item@.well_formed() && row@ == new_spec_row(
                    key@,
                    version@,
                    item.data@,
                    stamp.key@,
                    stamp.created_at,
                ),
                Err(e) => !item@.well_formed() && e == RepoError::InvalidInput,
            },
    {
        SpecDb::try_from_cargo_partial(key, version, item, stamp)
    }

    /// The second step of changing a cargo: the patch that repoints the
    /// row to the stored spec.
    pub fn patch_for_update(spec: &CargoSpec) -> (patch: CargoUpdateDb)
        ensures
            patch@ == repointing(spec@.key),
    {
        CargoUpdateDb {
            key: None,
            name: None,
            namespace_name: None,
            spec_key: Some(spec.key.clone()),
        }
    }
}

/// Begins creating a cargo: checks the item and asks for its first spec to
/// be written.
pub fn begin_create(
    namespace: &str,
    item: &CargoSpecPartial,
    version: &str,
    stamp: SpecStamp,
    created_at: Timestamp,
) -> (step: Step)
    ensures
        step@ == create_begins(
            namespace@,
            item@,
            version@,
            stamp.key@,
            stamp.created_at,
            created_at,
        ),
{
    match CargoDb::spec_for_create(namespace, item, version, stamp) {
        Ok(row) => Step::Ask(
            Flow::CreateSpec { namespace: namespace.to_owned(), item: item.clone(), created_at },
            StoreAction::CreateSpec(row),
        ),
        Err(e) => Step::Done(Err(e)),
    }
}

/// Begins changing a cargo: checks the item and asks for the cargo to be
/// read.
pub fn begin_update(
    key: &str,
    item: &CargoSpecPartial,
    version: &str,
    stamp: SpecStamp,
) -> (step: Step)
    ensures
        step@ == update_begins(key@, item@, version@, stamp.key@, stamp.created_at),
{
    if !item.is_well_formed() {
        return Step::Done(Err(RepoError::InvalidInput));
    }
    Step::Ask(
        Flow::ReadCargo {
            key: key.to_owned(),
            item: item.clone(),
            version: version.to_owned(),
            stamp,
        },
        StoreAction::ReadCargo(key.to_owned()),
    )
}

/// An answer to something that the flow did not ask.
fn unasked() -> (step: Step)
    ensures
        step@ == StepView::Done(Err(RepoError::StoreUnavailable)),
{
    Step::Done(Err(RepoError::StoreUnavailable))
}

/// Takes the answer of the store and decides what the flow does next.
pub fn resume(flow: Flow, event: StoreEvent) -> (step: Step)
    ensures
        step@ == resumed(flow@, event@),
{
    match event {
        StoreEvent::CargoRead(Err(e)) => Step::Done(Err(e)),
        StoreEvent::SpecCreated(Err(e)) => Step::Done(Err(e)),
        StoreEvent::CargoCreated(Err(e)) => Step::Done(Err(e)),
        StoreEvent::CargoUpdated(Err(e)) => Step::Done(Err(e)),
        StoreEvent::CargoRead(Ok(row)) => match flow {
            Flow::ReadCargo { key, item, version, stamp } => match CargoDb::transform(row) {
                Err(e) => Step::Done(Err(e)),
                Ok(cargo) => {
                    let new_spec = CargoDb::spec_for_update(
                        key.as_str(),
                        &item,
                        version.as_str(),
                        stamp,
                    );
                    match new_spec {
                        Err(e) => Step::Done(Err(e)),
                        Ok(row) => Step::Ask(
                            Flow::UpdateSpec { key, cargo },
                            StoreAction::CreateSpec(row),
                        ),
                    }
                },
            },
            _ => unasked(),
        },
        StoreEvent::SpecCreated(Ok(stored)) => match flow {
            Flow::CreateSpec { namespace, item, created_at } => match stored.try_to_cargo_spec() {
                Err(e) => Step::Done(Err(e)),
                Ok(spec) => {
                    let row = CargoDb::row_for_create(namespace.as_str(), &item, &spec, created_at);
                    Step::Ask(Flow::CreateCargo { spec }, StoreAction::CreateCargo(row))
                },
            },
            Flow::UpdateSpec { key, cargo } => match stored.try_to_cargo_spec() {
                Err(e) => Step::Done(Err(e)),
                Ok(spec) => {
                    let patch = CargoDb::patch_for_update(&spec);
                    Step::Ask(
                        Flow::UpdateCargo { cargo, spec },
                        StoreAction::UpdateCargo(key, patch),
                    )
                },
            },
            _ => unasked(),
        },
        StoreEvent::CargoCreated(Ok(row)) => match flow {
            Flow::CreateCargo { spec } => Step::Done(Ok(row.with_spec(&spec))),
            _ => unasked(),
        },
        StoreEvent::CargoUpdated(Ok(_)) => match flow {
            Flow::UpdateCargo { cargo, spec } => Step::Done(Ok(cargo.with_new_spec(spec))),
            _ => unasked(),
        },
    }
}

impl Store {
    /// Carries out what a flow asks and answers it.
    pub fn perform(&mut self, action: StoreAction) -> (event: StoreEvent)
        requires
            old(self).wf(),
        ensures
            final(self).wf(),
            (final(self)@, event@) == old(self)@.answer(action@),
    {
        match action {
            StoreAction::ReadCargo(key) => {
                let answer = CargoDb::read_by_pk(key.as_str(), self);
                StoreEvent::CargoRead(answer)
            },
            StoreAction::CreateSpec(row) => {
                let answer = SpecDb::create_from(row, self);
                StoreEvent::SpecCreated(answer)
            },
            StoreAction::CreateCargo(row) => {
                let answer = CargoDb::create_from(row, self);
                StoreEvent::CargoCreated(answer)
            },
            StoreAction::UpdateCargo(key, patch) => {
                let answer = CargoDb::update_pk(key.as_str(), patch, self);
                StoreEvent::CargoUpdated(answer)
            },
        }
    }
}

/// Runs a flow to its end against the store.
pub fn drive(first: Step, store: &mut Store) -> (outcome: Result<Cargo, RepoError>)
    requires
        old(store).wf(),
    ensures
        final(store).wf(),
        (final(store)@, outcome_view(outcome)) == run(first@, old(store)@),
{
    let ghost goal = run(first@, store@);
    let mut step = first;
    loop
        invariant
            store.wf(),
            run(step@, store@) == goal,
            goal == run(first@, old(store)@),
        decreases step@.turns_left(),
    {
        match step {
            Step::Done(outcome) => {
                return outcome;
            },
            Step::Ask(flow, action) => {
                let event = store.perform(action);
                step = resume(flow, event);
            },
        }
    }
}

} // verus!
