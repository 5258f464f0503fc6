//! Creating, changing, reading and counting cargoes: the operations of the
//! cargo entity on a store in memory, each stated as what it does to the
//! store and what it hands back, and what holds of them.
//!
//! Creating and changing a cargo take two writes, the spec first and the
//! cargo row second, and the two are not one transaction: where the second
//! write fails, the new spec stays in the store and no cargo refers to it.

use crate::cargo::{
    all_hydrated, by_namespace, cargo_schema, cargo_views, cargoes_of, count_in_namespace,
    lemma_point_and_namespace_reads, new_spec_row, only, outcome_view, read_outcome, SpecStamp,
};
use crate::error::RepoError;
use crate::filter::{Clause, FilterView, GenericClause, GenericFilter};
use crate::flow::{
    begin_create, begin_update, create_begins, drive, repointing, run, update_begins,
};
use crate::key::{key_of, valid_name};
use crate::models::{
    Cargo, CargoDb, CargoRow, CargoSpecPartial, CargoView, PartialView, SpecRow, Timestamp,
};
use crate::outside::{fresh_key, utc_now};
use crate::query::{
    condition_views, lemma_unknown_field_is_ignored, translation, Condition, ReadQuery,
};
use crate::read::{lemma_newest_first, newest_first};
use crate::repository::RepositoryReadByTransform;
use crate::store::{
    keeps_specs, lemma_added_spec_keeps_others, lemma_index_of_unique, lemma_push_keeps_distinct,
    Store, StoreView,
};
use vstd::prelude::*;

verus! {

/// What creating a cargo does to the store and what it hands back.
///
/// An item that is not acceptable is refused before anything is written.
/// Then the spec is written, then the cargo row that refers to it. Where
/// the second write is refused, the spec stays.
pub open spec fn create_outcome(
    store: StoreView,
    namespace: Seq<char>,
    item: PartialView,
    version: Seq<char>,
    spec_key: Seq<char>,
    spec_created_at: Timestamp,
    created_at: Timestamp,
) -> (StoreView, Result<CargoView, RepoError>) {
    if !item.acceptable() {
        (store, Err(RepoError::InvalidInput))
    } else {
        let key = key_of(namespace, item.name);
        let spec = new_spec_row(key, version, item.data, spec_key, spec_created_at);
        match store.after_create_spec(spec) {
            Err(e) => (store, Err(e)),
            Ok(with_spec) => {
                let row = CargoRow {
                    key,
                    created_at,
                    name: item.name,
                    spec_key,
                    namespace_name: namespace,
                };
                match with_spec.after_create_cargo(row) {
                    Err(e) => (with_spec, Err(e)),
                    Ok(next) => (
                        next,
                        Ok(
                            CargoView {
                                namespace_name: namespace,
                                created_at,
                                spec: spec.named(item.name),
                            },
                        ),
                    ),
                }
            },
        }
    }
}

/// What changing the configuration of a cargo does to the store and what
/// it hands back.
///
/// An item that is not well formed is refused before the store is touched.
/// Then the cargo is read, the new spec is written, and the cargo row is
/// repointed to it: its key, its name and its namespace stay. The cargo
/// handed back is the one that was read, with the new spec in place of the
/// old.
pub open spec fn update_outcome(
    store: StoreView,
    key: Seq<char>,
    item: PartialView,
    version: Seq<char>,
    spec_key: Seq<char>,
    spec_created_at: Timestamp,
) -> (StoreView, Result<CargoView, RepoError>) {
    if !item.well_formed() {
        (store, Err(RepoError::InvalidInput))
    } else {
        match read_outcome(store, key) {
            Err(e) => (store, Err(e)),
            Ok(current) => {
                let spec = new_spec_row(key, version, item.data, spec_key, spec_created_at);
                match store.after_create_spec(spec) {
                    Err(e) => (store, Err(e)),
                    Ok(with_spec) => match with_spec.after_update_cargo(
                        key,
                        repointing(spec_key),
                    ) {
                        Err(e) => (with_spec, Err(e)),
                        Ok(next) => (
                            next,
                            Ok(CargoView { spec: spec.named(item.name), ..current }),
                        ),
                    },
                }
            },
        }
    }
}

impl CargoDb {
    /// Creates a cargo from its configuration, with the given key and time
    /// for the new spec and the given time for the cargo.
    pub fn create_from_spec_at(
        namespace: &str,
        item: &CargoSpecPartial,
        version: &str,
        stamp: SpecStamp,
        created_at: Timestamp,
        store: &mut Store,
    ) -> (outcome: Result<Cargo, RepoError>)
        requires
            old(store).wf(),
        ensures
            final(store).wf(),
            (final(store)@, outcome_view(outcome)) == create_outcome(
                old(store)@,
                namespace@,
                item@,
                version@,
                stamp.key@,
                stamp.created_at,
                created_at,
            ),
    {
        proof {
            lemma_create_runs(
                store@,
                namespace@,
                item@,
                version@,
                stamp.key@,
                stamp.created_at,
                created_at,
            );
        }
        drive(begin_create(namespace, item, version, stamp, created_at), store)
    }

    /// Changes the configuration of the cargo with the given key, with the
    /// given key and time for the new spec.
    pub fn update_from_spec_at(
        key: &str,
        item: &CargoSpecPartial,
        version: &str,
        stamp: SpecStamp,
        store: &mut Store,
    ) -> (outcome: Result<Cargo, RepoError>)
        requires
            old(store).wf(),
        ensures
            final(store).wf(),
            (final(store)@, outcome_view(outcome)) == update_outcome(
                old(store)@,
                key@,
                item@,
                version@,
                stamp.key@,
                stamp.created_at,
            ),
    {
        proof {
            lemma_update_runs(store@, key@, item@, version@, stamp.key@, stamp.created_at);
        }
        drive(begin_update(key, item, version, stamp), store)
    }

    /// Creates a cargo from its configuration. The key of the new spec is
    /// drawn at random, and the times are read from the clock.
    pub fn create_from_spec(
        namespace: &str,
        item: &CargoSpecPartial,
        version: &str,
        store: &mut Store,
    ) -> (outcome: Result<Cargo, RepoError>)
        requires
            old(store).wf(),
        ensures
            final(store).wf(),
            exists|spec_key: Seq<char>, spec_created_at: Timestamp, created_at: Timestamp|
                (final(store)@, outcome_view(outcome)) == #[trigger] create_outcome(
                    old(store)@,
                    namespace@,
                    item@,
                    version@,
                    spec_key,
                    spec_created_at,
                    created_at,
                ),
    {
        let stamp = SpecStamp { key: fresh_key(), created_at: utc_now() };
        let created_at = utc_now();
        CargoDb::create_from_spec_at(namespace, item, version, stamp, created_at, store)
    }

    /// Changes the configuration of the cargo with the given key. The key
    /// of the new spec is drawn at random, and its time is read from the
    /// clock.
    pub fn update_from_spec(
        key: &str,
        item: &CargoSpecPartial,
        version: &str,
        store: &mut Store,
    ) -> (outcome: Result<Cargo, RepoError>)
        requires
            old(store).wf(),
        ensures
            final(store).wf(),
            exists|spec_key: Seq<char>, spec_created_at: Timestamp|
                (final(store)@, outcome_view(outcome)) == #[trigger] update_outcome(
                    old(store)@,
                    key@,
                    item@,
                    version@,
                    spec_key,
                    spec_created_at,
                ),
    {
        let stamp = SpecStamp { key: fresh_key(), created_at: utc_now() };
        CargoDb::update_from_spec_at(key, item, version, stamp, store)
    }

    /// Reads the cargoes of a namespace, newest first, each with its
    /// current spec. Fails if the configuration of one of them does not
    /// decode. Where it succeeds, it hands out as many cargoes as
    /// [`CargoDb::count_by_namespace`] counts.
    pub fn read_by_namespace(name: &str, store: &Store) -> (outcome: Result<Vec<Cargo>, RepoError>)
        requires
            store.wf(),
        ensures
            ({
                let rows = store@.rows_of(by_namespace(name@));
                match outcome {
                    Ok(cargoes) => all_hydrated(rows) && cargo_views(cargoes@) == cargoes_of(rows)
                        && cargoes.len() == store@.count_of(count_in_namespace(name@)),
                    Err(e) => !all_hydrated(rows) && e == RepoError::TransformError,
                }
            }),
    {
        let filter = GenericFilter::new().with_where(
            "namespace_name",
            GenericClause::Eq(name.to_owned()),
        );
        proof {
            assert(filter@ == only("namespace_name"@, Clause::Eq(name@)));
            lemma_point_and_namespace_reads(name@);
            lemma_count_is_length_of_read(store@, name@);
        }
        let outcome = CargoDb::transform_read_by(&filter, store);
        proof {
            if outcome is Ok {
                assert(cargo_views(outcome->Ok_0@).len() == outcome->Ok_0.len());
            }
        }
        outcome
    }

    /// The query that counts the cargoes of a namespace: it reads the cargo
    /// relation alone.
    pub fn count_query(namespace: &str) -> (query: ReadQuery)
        ensures
            query@ == count_in_namespace(namespace@),
    {
        let mut conditions: Vec<Condition> = Vec::new();
        conditions.push(
            Condition {
                column: "namespace_name".to_owned(),
                clause: GenericClause::Eq(namespace.to_owned()),
            },
        );
        assert(condition_views(conditions@) =~= count_in_namespace(namespace@).conditions);
        ReadQuery {
            table: "cargoes".to_owned(),
            join: None,
            conditions,
            newest_first: false,
            limit: None,
            offset: None,
        }
    }

    /// Counts the cargoes of a namespace, without reading their specs.
    pub fn count_by_namespace(namespace: &str, store: &Store) -> (outcome: Result<i64, RepoError>)
        requires
            store.wf(),
        ensures
            match outcome {
                Ok(n) => n == store@.count_of(count_in_namespace(namespace@)),
                Err(e) => store@.count_of(count_in_namespace(namespace@)) > i64::MAX && e
                    == RepoError::StoreUnavailable,
            },
    {
        store.count(&CargoDb::count_query(namespace))
    }
}

impl StoreView {
    /// Every cargo has a valid name and the key that its namespace and its
    /// name give.
    pub open spec fn keys_derived(self) -> bool {
        forall|i: int|
            0 <= i < self.cargoes.len() ==> valid_name((#[trigger] self.cargoes[i]).name)
                && self.cargoes[i].key == key_of(
                self.cargoes[i].namespace_name,
                self.cargoes[i].name,
            )
    }
}

/// Creating a cargo and changing its configuration keep the keys derived:
/// afterwards, as before, every cargo has a valid name and the key that its
/// namespace and its name give.
pub proof fn lemma_keys_stay_derived(
    store: StoreView,
    namespace: Seq<char>,
    key: Seq<char>,
    item: PartialView,
    version: Seq<char>,
    spec_key: Seq<char>,
    spec_created_at: Timestamp,
    created_at: Timestamp,
)
    requires
        store.wf(),
        store.keys_derived(),
    ensures
        create_outcome(
            store,
            namespace,
            item,
            version,
            spec_key,
            spec_created_at,
            created_at,
        ).0.keys_derived(),
        update_outcome(store, key, item, version, spec_key, spec_created_at).0.keys_derived(),
{
    let spec = new_spec_row(key, version, item.data, spec_key, spec_created_at);
    if let Ok(with_spec) = store.after_create_spec(spec) {
        let patch = repointing(spec_key);
        if let Ok(next) = with_spec.after_update_cargo(key, patch) {
            let at = with_spec.cargo_keys().index_of(key);
            assert forall|i: int| 0 <= i < next.cargoes.len() implies valid_name(
                (#[trigger] next.cargoes[i]).name,
            ) && next.cargoes[i].key == key_of(
                next.cargoes[i].namespace_name,
                next.cargoes[i].name,
            ) by {
                assert(store.cargoes[i].key == key_of(
                    store.cargoes[i].namespace_name,
                    store.cargoes[i].name,
                ));
            }
        }
    }
    let (created, _) = create_outcome(
        store,
        namespace,
        item,
        version,
        spec_key,
        spec_created_at,
        created_at,
    );
    assert forall|i: int| 0 <= i < created.cargoes.len() implies valid_name(
        (#[trigger] created.cargoes[i]).name,
    ) && created.cargoes[i].key == key_of(
        created.cargoes[i].namespace_name,
        created.cargoes[i].name,
    ) by {
        if i < store.cargoes.len() {
            assert(store.cargoes[i].key == key_of(
                store.cargoes[i].namespace_name,
                store.cargoes[i].name,
            ));
        }
    }
}

/// Where the keys are derived, a namespace holds one cargo of a name at
/// most.
pub proof fn lemma_one_cargo_per_name(store: StoreView, i: int, j: int)
    requires
        store.wf(),
        store.keys_derived(),
        0 <= i < store.cargoes.len(),
        0 <= j < store.cargoes.len(),
        store.cargoes[i].namespace_name == store.cargoes[j].namespace_name,
        store.cargoes[i].name == store.cargoes[j].name,
    ensures
        i == j,
{
    assert(store.cargo_keys()[i] == store.cargo_keys()[j]);
}

/// A cargo whose name holds the delimiter is refused before anything is
/// written: the store stays as it was, and no spec is left behind.
pub proof fn lemma_bad_name_writes_nothing(
    store: StoreView,
    namespace: Seq<char>,
    item: PartialView,
    version: Seq<char>,
    spec_key: Seq<char>,
    spec_created_at: Timestamp,
    created_at: Timestamp,
)
    requires
        !valid_name(item.name),
    ensures
        create_outcome(store, namespace, item, version, spec_key, spec_created_at, created_at) == (
            store,
            Err::<CargoView, RepoError>(RepoError::InvalidInput),
        ),
{
}

/// Creating a cargo step by step, with a store that answers every turn and
/// with nothing else written in between, comes out as [`create_outcome`]
/// says.
pub proof fn lemma_create_runs(
    store: StoreView,
    namespace: Seq<char>,
    item: PartialView,
    version: Seq<char>,
    spec_key: Seq<char>,
    spec_created_at: Timestamp,
    created_at: Timestamp,
)
    ensures
        run(
            create_begins(namespace, item, version, spec_key, spec_created_at, created_at),
            store,
        ) == create_outcome(store, namespace, item, version, spec_key, spec_created_at, created_at),
{
    reveal_with_fuel(run, 3);
}

/// Changing a cargo step by step, with a store that answers every turn and
/// with nothing else written in between, comes out as [`update_outcome`]
/// says.
pub proof fn lemma_update_runs(
    store: StoreView,
    key: Seq<char>,
    item: PartialView,
    version: Seq<char>,
    spec_key: Seq<char>,
    spec_created_at: Timestamp,
)
    ensures
        run(update_begins(key, item, version, spec_key, spec_created_at), store)
            == update_outcome(store, key, item, version, spec_key, spec_created_at),
{
    reveal_with_fuel(run, 4);
}

/// Creating a cargo leaves a store that obeys the rules, keeps every spec,
/// and, where it succeeds, answers a read by the new key with the very
/// cargo that was handed back.
pub proof fn lemma_created_cargo_is_read_back(
    store: StoreView,
    namespace: Seq<char>,
    item: PartialView,
    version: Seq<char>,
    spec_key: Seq<char>,
    spec_created_at: Timestamp,
    created_at: Timestamp,
)
    requires
        store.wf(),
    ensures
        ({
            let (next, outcome) = create_outcome(
                store,
                namespace,
                item,
                version,
                spec_key,
                spec_created_at,
                created_at,
            );
            &&& keeps_specs(store, next)
            &&& outcome matches Ok(cargo) ==> {
                &&& cargo.spec.cargo_key == key_of(namespace, item.name)
                &&& cargo.spec.version == version
                &&& read_outcome(next, key_of(namespace, item.name)) == Ok::<CargoView, RepoError>(
                    cargo,
                )
            }
        }),
{
    if item.acceptable() {
        let key = key_of(namespace, item.name);
        let spec = new_spec_row(key, version, item.data, spec_key, spec_created_at);
        if let Ok(with_spec) = store.after_create_spec(spec) {
            lemma_spec_is_added(store, spec);
            let row = CargoRow {
                key,
                created_at,
                name: item.name,
                spec_key,
                namespace_name: namespace,
            };
            if let Ok(next) = with_spec.after_create_cargo(row) {
                let last = with_spec.cargoes.len() as int;
                assert(next.cargo_keys() =~= with_spec.cargo_keys().push(key));
                lemma_push_keeps_distinct(with_spec.cargo_keys(), key);
                assert(next.cargo_keys()[last] == key);
                lemma_index_of_unique(next.cargo_keys(), last);
                assert(next.cargo(key) == row);
            }
        }
    }
}

/// Adding a spec whose key is free leaves a store that obeys the rules,
/// keeps every spec that was there, and holds the new spec under its key.
pub proof fn lemma_spec_is_added(store: StoreView, spec: SpecRow)
    requires
        store.wf(),
        !store.has_spec(spec.key),
    ensures
        ({
            let next = store.after_create_spec(spec)->Ok_0;
            &&& store.after_create_spec(spec) is Ok
            &&& next.wf()
            &&& keeps_specs(store, next)
            &&& next.has_spec(spec.key)
            &&& next.spec(spec.key) == spec
            &&& next.cargoes == store.cargoes
            &&& next.namespaces == store.namespaces
        }),
{
    let next = store.after_create_spec(spec)->Ok_0;
    assert(next.spec_keys() =~= store.spec_keys().push(spec.key));
    lemma_push_keeps_distinct(store.spec_keys(), spec.key);
    let last = store.specs.len() as int;
    assert(next.spec_keys()[last] == spec.key);
    lemma_index_of_unique(next.spec_keys(), last);
    assert forall|k: Seq<char>| #[trigger] store.has_spec(k) implies next.has_spec(k) && next.spec(
        k,
    ) == store.spec(k) by {
        lemma_added_spec_keeps_others(store, spec, k);
    }
    assert forall|i: int| 0 <= i < next.cargoes.len() implies next.has_namespace(
        (#[trigger] next.cargoes[i]).namespace_name,
    ) && next.has_spec(next.cargoes[i].spec_key) by {
        assert(store.has_spec(store.cargoes[i].spec_key));
    }
}

/// Changing the configuration of a cargo keeps every spec that was in the
/// store, the one that was current too, each under its own key. Where the
/// change succeeds, the cargo keeps its key, its current spec is the new
/// one, and a read by the key answers with the very cargo that was handed
/// back.
pub proof fn lemma_update_keeps_history(
    store: StoreView,
    key: Seq<char>,
    item: PartialView,
    version: Seq<char>,
    spec_key: Seq<char>,
    spec_created_at: Timestamp,
)
    requires
        store.wf(),
    ensures
        ({
            let (next, outcome) = update_outcome(
                store,
                key,
                item,
                version,
                spec_key,
                spec_created_at,
            );
            &&& keeps_specs(store, next)
            &&& outcome matches Ok(cargo) ==> {
                &&& next.has_cargo(key)
                &&& next.cargo(key).spec_key == spec_key
                &&& next.spec(spec_key).version == version
                &&& cargo.spec.version == version
                &&& cargo.spec.cargo_key == key
                &&& read_outcome(next, key) == Ok::<CargoView, RepoError>(cargo)
            }
        }),
{
    if item.well_formed() {
        if let Ok(current) = read_outcome(store, key) {
            let spec = new_spec_row(key, version, item.data, spec_key, spec_created_at);
            if let Ok(with_spec) = store.after_create_spec(spec) {
                lemma_spec_is_added(store, spec);
                let patch = repointing(spec_key);
                if let Ok(next) = with_spec.after_update_cargo(key, patch) {
                    let at = with_spec.cargo_keys().index_of(key);
                    let row = patch.apply(with_spec.cargo(key));
                    assert(with_spec.cargo_keys()[at] == key);
                    assert(next.cargo_keys() =~= with_spec.cargo_keys().update(at, key));
                    assert(next.cargo_keys() =~= with_spec.cargo_keys());
                    assert(next.cargo_keys()[at] == key);
                    lemma_index_of_unique(next.cargo_keys(), at);
                    assert(next.cargo(key) == row);
                    assert(with_spec.cargo(key) == store.cargo(key));
                }
            }
        }
    }
}

/// A clause on a field that is no column of the cargo relation changes no
/// result: the filter with it and the filter without it read the same rows.
pub proof fn lemma_unknown_field_reads_the_same(
    store: StoreView,
    filter: FilterView,
    field: Seq<char>,
    clause: Clause,
    is_multiple: bool,
)
    requires
        field != "key"@,
        field != "name"@,
        field != "namespace_name"@,
    ensures
        store.rows_of(
            translation(
                cargo_schema(),
                FilterView { clauses: filter.clauses.insert(field, clause), ..filter },
                is_multiple,
            ),
        ) == store.rows_of(translation(cargo_schema(), filter, is_multiple)),
{
    lemma_unknown_field_is_ignored(cargo_schema(), filter, field, clause, is_multiple);
}

/// The count of the cargoes of a namespace is the number of the cargoes
/// that a read of the namespace returns.
pub proof fn lemma_count_is_length_of_read(store: StoreView, namespace: Seq<char>)
    ensures
        store.count_of(count_in_namespace(namespace)) == store.rows_of(
            by_namespace(namespace),
        ).len(),
{
    let found = store.selected(by_namespace(namespace).conditions);
    lemma_newest_first(found);
    let ordered = newest_first(found);
    assert(ordered.subrange(0, ordered.len() as int) =~= ordered);
}

/// Where creating a cargo fails, no cargo was added or changed. At most the
/// new spec was left behind, and then no cargo refers to it.
pub proof fn lemma_failed_create_leaves_an_orphan_at_most(
    store: StoreView,
    namespace: Seq<char>,
    item: PartialView,
    version: Seq<char>,
    spec_key: Seq<char>,
    spec_created_at: Timestamp,
    created_at: Timestamp,
)
    requires
        store.wf(),
    ensures
        ({
            let (next, outcome) = create_outcome(
                store,
                namespace,
                item,
                version,
                spec_key,
                spec_created_at,
                created_at,
            );
            outcome is Err ==> {
                &&& next.wf()
                &&& next.cargoes == store.cargoes
                &&& next.namespaces == store.namespaces
                &&& next.specs == store.specs || (next.specs.len() == store.specs.len() + 1
                    && next.specs.last().key == spec_key && forall|i: int|
                    0 <= i < next.cargoes.len() ==> (#[trigger] next.cargoes[i]).spec_key
                        != spec_key)
            }
        }),
{
    if item.acceptable() {
        let spec = new_spec_row(
            key_of(namespace, item.name),
            version,
            item.data,
            spec_key,
            spec_created_at,
        );
        if let Ok(with_spec) = store.after_create_spec(spec) {
            lemma_spec_is_added(store, spec);
            assert forall|i: int| 0 <= i < store.cargoes.len() implies (
            #[trigger] store.cargoes[i]).spec_key != spec_key by {
                assert(store.has_spec(store.cargoes[i].spec_key));
            }
        }
    }
}

/// Two changes of one cargo that are under way at once both leave their
/// spec in the store; the cargo ends up with the spec of the change whose
/// repointing comes last.
pub proof fn lemma_last_repointing_wins(
    store: StoreView,
    key: Seq<char>,
    first: Seq<char>,
    second: Seq<char>,
)
    requires
        store.wf(),
        store.has_cargo(key),
        store.has_spec(first),
        store.has_spec(second),
    ensures
        ({
            let between = store.after_update_cargo(key, repointing(first));
            let after = between->Ok_0.after_update_cargo(key, repointing(second));
            &&& between is Ok
            &&& after is Ok
            &&& after->Ok_0.wf()
            &&& after->Ok_0.specs == store.specs
            &&& after->Ok_0.has_cargo(key)
            &&& after->Ok_0.cargo(key).spec_key == second
            &&& after->Ok_0.cargo(key).key == key
        }),
{
    let at = store.cargo_keys().index_of(key);
    assert(store.cargo_keys()[at] == key);
    assert(store.cargoes[at].key == key);
    assert(store.admits(store.cargoes[at]));
    let between = store.after_update_cargo(key, repointing(first))->Ok_0;
    lemma_repointed(store, key, first);
    lemma_repointed(between, key, second);
}

/// Repointing a cargo to a spec that exists succeeds, keeps the rules, the
/// specs and the keys of the cargoes, and makes that spec the current one.
pub proof fn lemma_repointed(store: StoreView, key: Seq<char>, spec_key: Seq<char>)
    requires
        store.wf(),
        store.has_cargo(key),
        store.has_spec(spec_key),
    ensures
        ({
            let next = store.after_update_cargo(key, repointing(spec_key));
            &&& next is Ok
            &&& next->Ok_0.wf()
            &&& next->Ok_0.specs == store.specs
            &&& next->Ok_0.namespaces == store.namespaces
            &&& next->Ok_0.cargo_keys() == store.cargo_keys()
            &&& next->Ok_0.has_cargo(key)
            &&& next->Ok_0.cargo(key) == (CargoRow { spec_key, ..store.cargo(key) })
        }),
{
    let at = store.cargo_keys().index_of(key);
    assert(store.cargo_keys()[at] == key);
    assert(store.cargoes[at].key == key);
    assert(store.admits(store.cargoes[at]));
    let row = repointing(spec_key).apply(store.cargo(key));
    let next = store.after_update_cargo(key, repointing(spec_key))->Ok_0;
    assert(next.cargo_keys() =~= store.cargo_keys());
    assert forall|i: int| 0 <= i < next.cargoes.len() implies next.admits(
        #[trigger] next.cargoes[i],
    ) by {
        if i != at {
            assert(next.cargoes[i] == store.cargoes[i]);
            assert(store.admits(store.cargoes[i]));
        }
    }
    assert(next.cargoes[at] == row);
}

} // verus!
