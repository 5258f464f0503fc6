//! The cargo entity: how its rows are read, hydrated, created and changed.
//!
//! A cargo is stored as a row that refers to its current spec. Callers never
//! see the reference: every read hands out the cargo with the spec itself.
//! A change of configuration adds a spec and then repoints the cargo; the
//! specs that were current before stay in the store.

use crate::error::RepoError;
use crate::filter::{Clause, FilterView, GenericClause, GenericFilter};
use crate::key::{is_valid_name, valid_name};
use crate::models::{
    text_view, Cargo, CargoDb, CargoRow, CargoSpec, CargoSpecPartial, CargoSpecView,
    CargoUpdateDb, CargoView, PartialView, SpecDb, SpecRow, Timestamp,
};
use crate::outside::{config_name, decode_name};
use crate::query::{
    conditions_for, translate, translation, ConditionView, QueryView, ReadQuery, Schema,
    SchemaView,
};
use crate::read::{joined_views, lemma_filter_none, lemma_filter_one, passes};
use crate::repository::{
    report, DriverFailure, RepositoryBase, RepositoryCreate, RepositoryDelByPk, RepositoryReadBy,
    RepositoryReadByTransform, RepositoryUpdate, WithSpec,
};
use crate::store::{Store, StoreView};
use vstd::prelude::*;

verus! {

/// The schema of the cargo relation: every read joins it to the specs, and
/// a filter may constrain the key, the name and the namespace.
pub open spec fn cargo_schema() -> SchemaView {
    SchemaView {
        table: "cargoes"@,
        join: Some("specs"@),
        columns: seq!["key"@, "name"@, "namespace_name"@],
    }
}

/// What the outside world supplies for a new spec row: its key and the
/// time of its creation.
#[derive(Debug)]
pub struct SpecStamp {
    pub key: String,
    pub created_at: Timestamp,
}

/// The spec row that records the configuration `data` for the cargo
/// `cargo_key`.
pub open spec fn new_spec_row(
    cargo_key: Seq<char>,
    version: Seq<char>,
    data: Seq<char>,
    key: Seq<char>,
    created_at: Timestamp,
) -> SpecRow {
    SpecRow { key, created_at, kind_name: "Cargo"@, kind_key: cargo_key, version, data }
}

impl SpecRow {
    /// The row in its domain shape, given the name that its configuration
    /// declares.
    pub open spec fn named(self, name: Seq<char>) -> CargoSpecView {
        CargoSpecView {
            key: self.key,
            cargo_key: self.kind_key,
            version: self.version,
            created_at: self.created_at,
            name,
            data: self.data,
        }
    }

    /// The row in its domain shape; `None` if its configuration does not
    /// decode.
    pub open spec fn resolved(self) -> Option<CargoSpecView> {
        match config_name(self.data) {
            Some(name) => Some(self.named(name)),
            None => None,
        }
    }
}

/// The cargo that a joined row stands for; `None` if the configuration of
/// the spec does not decode.
pub open spec fn hydrated(row: (CargoRow, SpecRow)) -> Option<CargoView> {
    match row.1.resolved() {
        Some(spec) => Some(
            CargoView { namespace_name: row.0.namespace_name, created_at: row.0.created_at, spec },
        ),
        None => None,
    }
}

impl PartialView {
    /// The configuration decodes and declares the name that the item
    /// carries.
    pub open spec fn well_formed(self) -> bool {
        config_name(self.data) == Some(self.name)
    }

    /// The item may found a cargo: it is well formed, and its name holds no
    /// delimiter.
    pub open spec fn acceptable(self) -> bool {
        valid_name(self.name) && self.well_formed()
    }
}

impl CargoSpecPartial {
    /// Tells whether the item is well formed, given the name that its
    /// configuration was found to declare, or that none was found.
    pub fn is_well_formed_with(&self, declared: &Option<String>) -> (ok: bool)
        ensures
            ok == (text_view(*declared) == Some(self.name@)),
    {
        match declared {
            Some(name) => *name == self.name,
            None => false,
        }
    }

    /// Tells whether the configuration decodes and declares the name that
    /// the item carries.
    pub fn is_well_formed(&self) -> (ok: bool)
        ensures
            ok == self@.well_formed(),
    {
        let declared = decoded_name(decode_name(self.data.as_str()));
        self.is_well_formed_with(&declared)
    }

    /// Tells whether the item may found a cargo.
    pub fn is_acceptable(&self) -> (ok: bool)
        ensures
            ok == self@.acceptable(),
    {
        is_valid_name(self.name.as_str()) && self.is_well_formed()
    }
}

/// The name that a decoder's answer holds, if it decoded.
pub fn decoded_name(decoded: Result<String, serde_json::Error>) -> (name: Option<String>)
    ensures
        match decoded {
            Ok(n) => name == Some(n),
            Err(_) => name is None,
        },
{
    match decoded {
        Ok(n) => Some(n),
        Err(_) => None,
    }
}

impl SpecDb {
    /// Builds the spec row for a configuration, given the name that the
    /// configuration was found to declare. The configuration is refused
    /// unless it declares the name that `item` carries.
    pub fn from_cargo_partial_with(
        cargo_key: &str,
        version: &str,
        item: &CargoSpecPartial,
        stamp: SpecStamp,
        declared: Option<String>,
    ) -> (outcome: Result<SpecDb, RepoError>)
        ensures
            match outcome {
                Ok(row) => text_view(declared) == Some(item.name@) && row@
                    == new_spec_row(cargo_key@, version@, item.data@, stamp.key@, stamp.created_at),
                Err(e) => text_view(declared) != Some(item.name@) && e
                    == RepoError::InvalidInput,
            },
    {
        match declared {
            Some(name) => {
                if name == item.name {
                    Ok(
                        SpecDb {
                            key: stamp.key,
                            created_at: stamp.created_at,
                            kind_name: "Cargo".to_owned(),
                            kind_key: cargo_key.to_owned(),
                            version: version.to_owned(),
                            data: item.data.clone(),
                        },
                    )
                } else {
                    Err(RepoError::InvalidInput)
                }
            },
            None => Err(RepoError::InvalidInput),
        }
    }

    /// Builds the spec row that records `item` for the cargo `cargo_key`.
    /// The configuration must decode and declare the name that `item`
    /// carries.
    pub fn try_from_cargo_partial(
        cargo_key: &str,
        version: &str,
        item: &CargoSpecPartial,
        stamp: SpecStamp,
    ) -> (outcome: Result<SpecDb, RepoError>)
        ensures
            match outcome {
                Ok(row) => config_name(item.data@) == Some(item.name@) && row@ == new_spec_row(
                    cargo_key@,
                    version@,
                    item.data@,
                    stamp.key@,
                    stamp.created_at,
                ),
                Err(e) => config_name(item.data@) != Some(item.name@) && e
                    == RepoError::InvalidInput,
            },
    {
        let declared = decoded_name(decode_name(item.data.as_str()));
        SpecDb::from_cargo_partial_with(cargo_key, version, item, stamp, declared)
    }

    /// The row in its domain shape, given the name that its configuration
    /// was found to declare, or that none was found.
    pub fn to_cargo_spec_with(&self, declared: Option<String>) -> (outcome: Result<
        CargoSpec,
        RepoError,
    >)
        ensures
            match declared {
                Some(name) => outcome matches Ok(spec) && spec@ == self@.named(name@),
                None => outcome matches Err(e) && e == RepoError::TransformError,
            },
    {
        match declared {
            Some(name) => Ok(
                CargoSpec {
                    key: self.key.clone(),
                    cargo_key: self.kind_key.clone(),
                    version: self.version.clone(),
                    created_at: self.created_at,
                    name,
                    data: self.data.clone(),
                },
            ),
            None => Err(RepoError::TransformError),
        }
    }

    /// The row in its domain shape. Fails if the stored configuration does
    /// not decode.
    pub fn try_to_cargo_spec(&self) -> (outcome: Result<CargoSpec, RepoError>)
        ensures
            match self@.resolved() {
                Some(resolved) => outcome matches Ok(spec) && spec@ == resolved,
                None => outcome matches Err(e) && e == RepoError::TransformError,
            },
    {
        let declared = decoded_name(decode_name(self.data.as_str()));
        self.to_cargo_spec_with(declared)
    }
}

impl CargoDb {
    /// The schema of the cargo relation.
    pub fn schema() -> (schema: Schema)
        ensures
            schema@ == cargo_schema(),
    {
        let mut columns: Vec<String> = Vec::new();
        columns.push("key".to_owned());
        columns.push("name".to_owned());
        columns.push("namespace_name".to_owned());
        let schema = Schema {
            table: "cargoes".to_owned(),
            join: Some("specs".to_owned()),
            columns,
        };
        assert(schema@.columns =~= cargo_schema().columns);
        schema
    }
}

impl RepositoryBase for CargoDb {
    fn get_pk() -> (column: &'static str)
        ensures
            column@ == "key"@,
    {
        "key"
    }

    fn map_err(failure: DriverFailure) -> (error: RepoError) {
        report(failure)
    }
}

impl RepositoryBase for SpecDb {
    fn get_pk() -> (column: &'static str)
        ensures
            column@ == "key"@,
    {
        "key"
    }

    fn map_err(failure: DriverFailure) -> (error: RepoError) {
        report(failure)
    }
}

impl RepositoryCreate for SpecDb {
    /// Adds the spec. Refused if the key is taken.
    fn create_from(item: Self, store: &mut Store) -> (outcome: Result<Self, RepoError>)
        ensures
            match old(store)@.after_create_spec(item@) {
                Ok(next) => final(store)@ == next && (outcome matches Ok(stored) && stored@
                    == item@),
                Err(e) => outcome == Err::<SpecDb, RepoError>(e) && final(store)@ == old(store)@,
            },
    {
        store.create_spec(item)
    }
}

impl RepositoryCreate for CargoDb {
    /// Adds the cargo. Refused if the key is taken, or if the namespace or
    /// the spec that the row refers to does not exist.
    fn create_from(item: Self, store: &mut Store) -> (outcome: Result<Self, RepoError>)
        ensures
            match old(store)@.after_create_cargo(item@) {
                Ok(next) => final(store)@ == next && (outcome matches Ok(stored) && stored@
                    == item@),
                Err(e) => outcome == Err::<CargoDb, RepoError>(e) && final(store)@ == old(store)@,
            },
    {
        store.create_cargo(item)
    }
}

impl RepositoryUpdate for CargoDb {
    type UpdateItem = CargoUpdateDb;

    /// Patches the cargo with the given key. Not found if no cargo has the
    /// key.
    fn update_pk(pk: &str, values: CargoUpdateDb, store: &mut Store) -> (outcome: Result<
        (),
        RepoError,
    >)
        ensures
            match old(store)@.after_update_cargo(pk@, values@) {
                Ok(next) => outcome is Ok && final(store)@ == next,
                Err(e) => outcome == Err::<(), RepoError>(e) && final(store)@ == old(store)@,
            },
    {
        store.update_cargo_by_pk(pk, &values)
    }
}

impl RepositoryDelByPk for CargoDb {
    /// Removes the cargo with the given key. Not found if no cargo has the
    /// key.
    fn del_by_pk(pk: &str, store: &mut Store) -> (outcome: Result<(), RepoError>)
        ensures
            match old(store)@.after_delete_cargo(pk@) {
                Ok(next) => outcome is Ok && final(store)@ == next,
                Err(e) => outcome == Err::<(), RepoError>(e) && final(store)@ == old(store)@,
            },
    {
        store.delete_cargo_by_pk(pk)
    }
}

impl WithSpec for CargoDb {
    type Output = Cargo;

    type Relation = CargoSpec;

    /// The cargo as callers see it: the row with the given spec attached.
    fn with_spec(self, r: &CargoSpec) -> (cargo: Cargo)
        ensures
            cargo@ == (CargoView {
                namespace_name: self@.namespace_name,
                created_at: self@.created_at,
                spec: r@,
            }),
    {
        Cargo { namespace_name: self.namespace_name, created_at: self.created_at, spec: r.clone() }
    }
}

/// The read of the one cargo with the given key.
pub open spec fn by_key(key: Seq<char>) -> QueryView {
    QueryView {
        table: "cargoes"@,
        join: Some("specs"@),
        conditions: seq![ConditionView { column: "key"@, clause: Clause::Eq(key) }],
        newest_first: false,
        limit: None,
        offset: None,
    }
}

/// The read of all cargoes of a namespace, newest first.
pub open spec fn by_namespace(name: Seq<char>) -> QueryView {
    QueryView {
        table: "cargoes"@,
        join: Some("specs"@),
        conditions: seq![ConditionView { column: "namespace_name"@, clause: Clause::Eq(name) }],
        newest_first: true,
        limit: None,
        offset: None,
    }
}

/// The count of the cargoes of a namespace: the cargo relation alone, not
/// joined to the specs.
pub open spec fn count_in_namespace(name: Seq<char>) -> QueryView {
    QueryView {
        table: "cargoes"@,
        join: None,
        conditions: seq![ConditionView { column: "namespace_name"@, clause: Clause::Eq(name) }],
        newest_first: false,
        limit: None,
        offset: None,
    }
}

/// The filter that sets one clause and no bounds.
pub open spec fn only(field: Seq<char>, clause: Clause) -> FilterView {
    FilterView { clauses: Map::empty().insert(field, clause), limit: None, offset: None }
}

/// The columns of the cargo schema are three different names.
pub proof fn lemma_cargo_columns()
    ensures
        "key"@ != "name"@,
        "key"@ != "namespace_name"@,
        "name"@ != "namespace_name"@,
        "key"@ != "spec_key"@,
        "name"@ != "spec_key"@,
        "namespace_name"@ != "spec_key"@,
{
    reveal_strlit("key");
    reveal_strlit("name");
    reveal_strlit("namespace_name");
    reveal_strlit("spec_key");
    assert("key"@.len() == 3);
    assert("name"@.len() == 4);
    assert("namespace_name"@.len() == 14);
    assert("spec_key"@.len() == 8);
}

/// A filter on the primary key alone asks for the read [`by_key`], and a
/// filter on the namespace alone, for many rows, for [`by_namespace`].
pub proof fn lemma_point_and_namespace_reads(text: Seq<char>)
    ensures
        translation(cargo_schema(), only("key"@, Clause::Eq(text)), false) == by_key(text),
        translation(cargo_schema(), only("namespace_name"@, Clause::Eq(text)), true)
            == by_namespace(text),
{
    lemma_cargo_columns();
    reveal_with_fuel(conditions_for, 4);
    let columns = cargo_schema().columns;
    assert(columns.drop_last() =~= seq!["key"@, "name"@]);
    assert(columns.drop_last().drop_last() =~= seq!["key"@]);
    assert(columns.drop_last().drop_last().drop_last() =~= Seq::<Seq<char>>::empty());
    let on_key = only("key"@, Clause::Eq(text)).clauses;
    assert(conditions_for(columns, on_key) =~= by_key(text).conditions);
    let on_namespace = only("namespace_name"@, Clause::Eq(text)).clauses;
    assert(conditions_for(columns, on_namespace) =~= by_namespace(text).conditions);
}

impl StoreView {
    /// The cargo with the given key, joined to its current spec.
    pub open spec fn current(self, key: Seq<char>) -> (CargoRow, SpecRow) {
        (self.cargo(key), self.spec(self.cargo(key).spec_key))
    }
}

/// A read by primary key finds the cargo that has the key, joined to its
/// current spec, and nothing else; it finds nothing if no cargo has the key.
pub proof fn lemma_read_by_key(store: StoreView, key: Seq<char>)
    requires
        store.wf(),
    ensures
        store.rows_of(by_key(key)) == if store.has_cargo(key) {
            seq![store.current(key)]
        } else {
            Seq::<(CargoRow, SpecRow)>::empty()
        },
{
    let conditions = by_key(key).conditions;
    let test = passes(conditions);
    let all = store.joined();
    assert forall|j: int| 0 <= j < all.len() implies test(#[trigger] all[j]) == (
    store.cargo_keys()[j] == key) by {
        let row = store.cargoes[j];
        assert(all[j].0 == row);
        if row.key == key {
            assert forall|i: int| 0 <= i < conditions.len() implies row.meets(
                #[trigger] conditions[i],
            ) by {
                assert(conditions[i] == conditions[0]);
            }
        } else {
            assert(!row.meets(conditions[0]));
        }
    }
    let found = all.filter(test);
    if store.has_cargo(key) {
        let at = store.cargo_keys().index_of(key);
        assert(store.cargo_keys()[at] == key);
        assert(all[at] == store.current(key));
        lemma_filter_one(all, test, at);
    } else {
        lemma_filter_none(all, test);
    }
    assert(found.subrange(0, found.len() as int) =~= found);
}

/// Every one of the joined rows stands for a cargo.
pub open spec fn all_hydrated(rows: Seq<(CargoRow, SpecRow)>) -> bool {
    forall|i: int| 0 <= i < rows.len() ==> hydrated(#[trigger] rows[i]) is Some
}

/// The cargoes that the joined rows stand for.
pub open spec fn cargoes_of(rows: Seq<(CargoRow, SpecRow)>) -> Seq<CargoView> {
    Seq::new(rows.len(), |i: int| hydrated(rows[i]).unwrap())
}

/// The views of a list of cargoes.
pub open spec fn cargo_views(cargoes: Seq<Cargo>) -> Seq<CargoView> {
    Seq::new(cargoes.len(), |i: int| cargoes[i]@)
}

/// The view of the outcome of an operation that hands out a cargo.
pub open spec fn outcome_view(outcome: Result<Cargo, RepoError>) -> Result<CargoView, RepoError> {
    match outcome {
        Ok(cargo) => Ok(cargo@),
        Err(e) => Err(e),
    }
}

/// Turns every joined row into the cargo that it stands for. Fails if the
/// configuration of one of the specs does not decode.
pub fn transform_all(rows: &Vec<(CargoDb, SpecDb)>) -> (outcome: Result<Vec<Cargo>, RepoError>)
    ensures
        match outcome {
            Ok(cargoes) => all_hydrated(joined_views(rows@)) && cargo_views(cargoes@)
                == cargoes_of(joined_views(rows@)),
            Err(e) => !all_hydrated(joined_views(rows@)) && e == RepoError::TransformError,
        },
{
    let mut cargoes: Vec<Cargo> = Vec::new();
    let mut i: usize = 0;
    while i < rows.len()
        invariant
            i <= rows.len(),
            cargoes.len() == i,
            forall|j: int|
                0 <= j < i ==> hydrated(#[trigger] joined_views(rows@)[j]) == Some(cargoes[j]@),
        decreases rows.len() - i,
    {
        assert(joined_views(rows@)[i as int] == (rows[i as int].0@, rows[i as int].1@));
        match CargoDb::transform((rows[i].0.clone(), rows[i].1.clone())) {
            Ok(cargo) => {
                cargoes.push(cargo);
            },
            Err(e) => {
                return Err(e);
            },
        }
        i = i + 1;
    }
    assert(cargo_views(cargoes@) =~= cargoes_of(joined_views(rows@)));
    Ok(cargoes)
}

/// What reading the cargo with the given key hands back.
pub open spec fn read_outcome(store: StoreView, key: Seq<char>) -> Result<CargoView, RepoError> {
    if !store.has_cargo(key) {
        Err(RepoError::NotFound)
    } else {
        match hydrated(store.current(key)) {
            Some(cargo) => Ok(cargo),
            None => Err(RepoError::TransformError),
        }
    }
}

impl RepositoryReadBy for CargoDb {
    type Output = (CargoDb, SpecDb);

    /// Translates a filter into a read of the cargo relation, joined to
    /// the specs.
    fn gen_read_query(filter: &GenericFilter, is_multiple: bool) -> (query: ReadQuery)
        ensures
            query@ == translation(cargo_schema(), filter@, is_multiple),
    {
        translate(&CargoDb::schema(), filter, is_multiple)
    }

    /// Reads the cargoes that the filter asks for, each joined to its
    /// current spec, newest first, within the bounds of the filter.
    fn read_by(filter: &GenericFilter, store: &Store) -> (rows: Vec<(CargoDb, SpecDb)>)
        ensures
            joined_views(rows@) == store@.rows_of(translation(cargo_schema(), filter@, true)),
    {
        store.read(&CargoDb::gen_read_query(filter, true))
    }

    /// Reads the first cargo that the filter asks for, joined to its
    /// current spec. Not found if the filter asks for none.
    fn read_one_by(filter: &GenericFilter, store: &Store) -> (outcome: Result<
        (CargoDb, SpecDb),
        RepoError,
    >)
        ensures
            ({
                let rows = store@.rows_of(translation(cargo_schema(), filter@, false));
                match outcome {
                    Ok(row) => rows.len() > 0 && (row.0@, row.1@) == rows[0],
                    Err(e) => rows.len() == 0 && e == RepoError::NotFound,
                }
            }),
    {
        store.read_one(&CargoDb::gen_read_query(filter, false))
    }

    /// Reads the cargo with the given key, joined to its current spec. Not
    /// found if no cargo has the key.
    fn read_by_pk(pk: &str, store: &Store) -> (outcome: Result<(CargoDb, SpecDb), RepoError>)
        ensures
            match outcome {
                Ok(row) => store@.has_cargo(pk@) && (row.0@, row.1@) == store@.current(pk@),
                Err(e) => !store@.has_cargo(pk@) && e == RepoError::NotFound,
            },
    {
        let filter = GenericFilter::new().with_where(
            CargoDb::get_pk(),
            GenericClause::Eq(pk.to_owned()),
        );
        proof {
            assert(filter@ == only("key"@, Clause::Eq(pk@)));
            lemma_point_and_namespace_reads(pk@);
            lemma_read_by_key(store@, pk@);
        }
        CargoDb::read_one_by(&filter, store)
    }
}

impl RepositoryReadByTransform for CargoDb {
    type NewOutput = Cargo;

    /// Turns a joined row into the cargo that it stands for. Fails if the
    /// configuration of the spec does not decode.
    fn transform(item: (CargoDb, SpecDb)) -> (outcome: Result<Cargo, RepoError>)
        ensures
            match hydrated((item.0@, item.1@)) {
                Some(cargo) => outcome matches Ok(c) && c@ == cargo,
                None => outcome matches Err(e) && e == RepoError::TransformError,
            },
    {
        let (cargodb, specdb) = item;
        match specdb.try_to_cargo_spec() {
            Ok(spec) => Ok(cargodb.with_spec(&spec)),
            Err(e) => Err(e),
        }
    }

    /// Reads the cargoes that the filter asks for, each with its current
    /// spec. Fails if the configuration of one of them does not decode.
    fn transform_read_by(filter: &GenericFilter, store: &Store) -> (outcome: Result<
        Vec<Cargo>,
        RepoError,
    >)
        ensures
            ({
                let rows = store@.rows_of(translation(cargo_schema(), filter@, true));
                match outcome {
                    Ok(cargoes) => all_hydrated(rows) && cargo_views(cargoes@) == cargoes_of(rows),
                    Err(e) => !all_hydrated(rows) && e == RepoError::TransformError,
                }
            }),
    {
        let rows = CargoDb::read_by(filter, store);
        transform_all(&rows)
    }

    /// Reads the cargo with the given key, with its current spec. Not
    /// found if no cargo has the key; fails if the configuration of its
    /// spec does not decode.
    fn transform_read_by_pk(pk: &str, store: &Store) -> (outcome: Result<Cargo, RepoError>)
        ensures
            outcome_view(outcome) == read_outcome(store@, pk@),
    {
        match CargoDb::read_by_pk(pk, store) {
            Ok(row) => CargoDb::transform(row),
            Err(e) => Err(e),
        }
    }
}

} // verus!
