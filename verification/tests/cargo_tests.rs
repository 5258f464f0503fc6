use cargo_repo::cargo::{decoded_name, transform_all, SpecStamp};
use cargo_repo::error::RepoError;
use cargo_repo::filter::{GenericClause, GenericFilter};
use cargo_repo::models::{Cargo, CargoDb, CargoSpec, CargoSpecPartial, SpecDb, Timestamp};
use cargo_repo::repository::{RepositoryReadBy, RepositoryReadByTransform, WithSpec};
use cargo_repo::store::Store;

const NGINX_1: &str = "{\"Name\":\"web\",\"Container\":{\"Image\":\"nginx:1\"}}";
const NGINX_2: &str = "{\"Name\":\"web\",\"Container\":{\"Image\":\"nginx:2\"}}";

fn at(secs: i64) -> Timestamp {
    Timestamp { secs, nanos: 0 }
}

fn stamp(key: &str, secs: i64) -> SpecStamp {
    SpecStamp { key: key.to_string(), created_at: at(secs) }
}

fn partial(name: &str, data: &str) -> CargoSpecPartial {
    CargoSpecPartial { name: name.to_string(), data: data.to_string() }
}

fn config(name: &str, image: &str) -> CargoSpecPartial {
    partial(name, &format!("{{\"Name\":\"{name}\",\"Container\":{{\"Image\":\"{image}\"}}}}"))
}

fn spec_row(key: &str, cargo_key: &str, data: &str) -> SpecDb {
    SpecDb {
        key: key.to_string(),
        created_at: at(1),
        kind_name: "Cargo".to_string(),
        kind_key: cargo_key.to_string(),
        version: "v1".to_string(),
        data: data.to_string(),
    }
}

fn cargo_row(namespace: &str, name: &str, spec_key: &str) -> CargoDb {
    CargoDb {
        key: format!("{namespace}.{name}"),
        created_at: at(2),
        name: name.to_string(),
        spec_key: spec_key.to_string(),
        namespace_name: namespace.to_string(),
    }
}

fn with_namespace(name: &str) -> Store {
    let mut store = Store::new();
    store.create_namespace(name).unwrap();
    store
}

/// Creates a cargo whose spec is stamped with `secs` and whose row is
/// stamped one second later.
fn create(
    store: &mut Store,
    namespace: &str,
    item: &CargoSpecPartial,
    version: &str,
    spec_key: &str,
    secs: i64,
) -> Result<Cargo, RepoError> {
    let stamp = stamp(spec_key, secs);
    CargoDb::create_from_spec_at(namespace, item, version, stamp, at(secs + 1), store)
}

fn update(
    store: &mut Store,
    key: &str,
    item: &CargoSpecPartial,
    version: &str,
    spec_key: &str,
    secs: i64,
) -> Result<Cargo, RepoError> {
    CargoDb::update_from_spec_at(key, item, version, stamp(spec_key, secs), store)
}

fn json_error() -> serde_json::Error {
    serde_json::from_str::<serde_json::Value>("{").unwrap_err()
}

#[test]
fn stored_configuration_resolves_to_its_name() {
    let spec = spec_row("s1", "system.web", NGINX_1).try_to_cargo_spec().unwrap();
    assert_eq!(spec.name, "web");
    assert_eq!(spec.key, "s1");
    assert_eq!(spec.cargo_key, "system.web");
    assert_eq!(spec.version, "v1");
    assert_eq!(spec.created_at, at(1));
    assert_eq!(spec.data, NGINX_1);
}

#[test]
fn malformed_configuration_is_a_transform_error() {
    let failure = Some(RepoError::TransformError);
    assert_eq!(spec_row("s1", "k", "{").try_to_cargo_spec().err(), failure);
    assert_eq!(spec_row("s1", "k", "").try_to_cargo_spec().err(), failure);
    // no container
    assert_eq!(spec_row("s1", "k", "{\"Name\":\"web\"}").try_to_cargo_spec().err(), failure);
    // a field that a cargo configuration does not have
    let colored = "{\"Name\":\"web\",\"Container\":{},\"Color\":\"blue\"}";
    assert_eq!(spec_row("s1", "k", colored).try_to_cargo_spec().err(), failure);
}

#[test]
fn decoder_answer_becomes_a_name_or_nothing() {
    assert_eq!(decoded_name(Ok("web".to_string())), Some("web".to_string()));
    assert_eq!(decoded_name(Err(json_error())), None);
}

#[test]
fn spec_takes_the_name_that_was_declared() {
    let row = spec_row("s1", "system.web", NGINX_1);
    let spec = row.to_cargo_spec_with(Some("anything".to_string())).unwrap();
    assert_eq!(spec.name, "anything");
    assert_eq!(spec.key, "s1");
    assert_eq!(spec.cargo_key, "system.web");
    assert_eq!(spec.data, NGINX_1);
    assert_eq!(row.to_cargo_spec_with(None).err(), Some(RepoError::TransformError));
}

#[test]
fn item_is_well_formed_when_its_configuration_declares_its_name() {
    assert!(partial("web", NGINX_1).is_well_formed());
    assert!(!partial("api", NGINX_1).is_well_formed());
    assert!(!partial("web", "{").is_well_formed());
    assert!(config("foo.bar", "nginx:1").is_well_formed());
    let item = partial("web", "ignored");
    assert!(item.is_well_formed_with(&Some("web".to_string())));
    assert!(!item.is_well_formed_with(&Some("api".to_string())));
    assert!(!item.is_well_formed_with(&None));
}

#[test]
fn item_is_acceptable_when_it_is_well_formed_and_its_name_is_valid() {
    assert!(partial("web", NGINX_1).is_acceptable());
    assert!(!partial("api", NGINX_1).is_acceptable());
    assert!(!partial("web", "{").is_acceptable());
    assert!(!config("foo.bar", "nginx:1").is_acceptable());
}

#[test]
fn spec_row_records_the_configuration_for_the_cargo() {
    let item = partial("web", NGINX_1);
    let row = SpecDb::try_from_cargo_partial("system.web", "0.1", &item, stamp("s1", 7)).unwrap();
    assert_eq!(row.key, "s1");
    assert_eq!(row.created_at, at(7));
    assert_eq!(row.kind_name, "Cargo");
    assert_eq!(row.kind_key, "system.web");
    assert_eq!(row.version, "0.1");
    assert_eq!(row.data, NGINX_1);
}

#[test]
fn spec_row_is_refused_for_a_configuration_that_does_not_declare_the_name() {
    let refused = Some(RepoError::InvalidInput);
    let other = partial("api", NGINX_1);
    assert_eq!(SpecDb::try_from_cargo_partial("k", "0.1", &other, stamp("s1", 7)).err(), refused);
    let broken = partial("web", "not json");
    assert_eq!(SpecDb::try_from_cargo_partial("k", "0.1", &broken, stamp("s1", 7)).err(), refused);
    let item = partial("web", "x");
    let declared = Some("web".to_string());
    assert!(SpecDb::from_cargo_partial_with("k", "v", &item, stamp("s", 1), declared).is_ok());
    let declared = Some("api".to_string());
    assert_eq!(
        SpecDb::from_cargo_partial_with("k", "v", &item, stamp("s", 1), declared).err(),
        refused
    );
    assert_eq!(
        SpecDb::from_cargo_partial_with("k", "v", &item, stamp("s", 1), None).err(),
        refused
    );
}

#[test]
fn with_spec_attaches_the_spec_to_the_row() {
    let spec = spec_row("s1", "system.web", NGINX_1).try_to_cargo_spec().unwrap();
    let cargo = cargo_row("system", "web", "s1").with_spec(&spec);
    assert_eq!(cargo.namespace_name, "system");
    assert_eq!(cargo.created_at, at(2));
    assert_eq!(cargo.spec.key, "s1");
    assert_eq!(cargo.spec.name, "web");
}

#[test]
fn transform_hydrates_a_joined_row() {
    let row = (cargo_row("system", "web", "s1"), spec_row("s1", "system.web", NGINX_1));
    let cargo = CargoDb::transform(row).unwrap();
    assert_eq!(cargo.namespace_name, "system");
    assert_eq!(cargo.created_at, at(2));
    assert_eq!(cargo.spec.key, "s1");
    assert_eq!(cargo.spec.cargo_key, "system.web");
    assert_eq!(cargo.spec.name, "web");
    assert_eq!(cargo.spec.data, NGINX_1);
}

#[test]
fn transform_of_a_row_with_a_malformed_configuration_fails() {
    let row = (cargo_row("system", "web", "s1"), spec_row("s1", "system.web", "[]"));
    assert_eq!(CargoDb::transform(row).err(), Some(RepoError::TransformError));
}

#[test]
fn transform_all_fails_if_one_row_fails() {
    let good = (cargo_row("system", "web", "s1"), spec_row("s1", "system.web", NGINX_1));
    let bad = (cargo_row("system", "api", "s2"), spec_row("s2", "system.api", "oops"));
    assert_eq!(transform_all(&vec![good.clone()]).unwrap().len(), 1);
    assert_eq!(transform_all(&vec![good, bad]).err(), Some(RepoError::TransformError));
    assert_eq!(transform_all(&Vec::new()).unwrap().len(), 0);
}

#[test]
fn create_hands_back_the_cargo_with_its_first_spec() {
    let mut store = with_namespace("system");
    let cargo = create(&mut store, "system", &config("web", "nginx:1"), "0.1", "s1", 5).unwrap();
    assert_eq!(cargo.namespace_name, "system");
    assert_eq!(cargo.created_at, at(6));
    assert_eq!(cargo.spec.key, "s1");
    assert_eq!(cargo.spec.cargo_key, "system.web");
    assert_eq!(cargo.spec.version, "0.1");
    assert_eq!(cargo.spec.created_at, at(5));
    assert_eq!(cargo.spec.name, "web");
    assert_eq!(store.sizes(), (1, 1, 1));
    let row = CargoDb::read_by_pk("system.web", &store).unwrap();
    assert_eq!(row.0.name, "web");
    assert_eq!(row.0.spec_key, "s1");
    assert_eq!(row.1.kind_name, "Cargo");
}

#[test]
fn create_with_a_delimiter_in_the_name_writes_nothing() {
    let mut store = with_namespace("system");
    let outcome = create(&mut store, "system", &config("foo.bar", "nginx:1"), "0.1", "s1", 5);
    assert_eq!(outcome.err(), Some(RepoError::InvalidInput));
    assert_eq!(store.sizes(), (1, 0, 0));
    assert!(!store.has_spec("s1"));
}

#[test]
fn create_with_a_malformed_configuration_writes_nothing() {
    let mut store = with_namespace("system");
    let outcome = create(&mut store, "system", &partial("web", "{"), "0.1", "s1", 5);
    assert_eq!(outcome.err(), Some(RepoError::InvalidInput));
    assert_eq!(store.sizes(), (1, 0, 0));
}

#[test]
fn create_in_a_namespace_that_does_not_exist_leaves_the_spec_behind() {
    let mut store = with_namespace("system");
    let outcome = create(&mut store, "mars", &config("web", "nginx:1"), "0.1", "s1", 5);
    assert_eq!(outcome.err(), Some(RepoError::Conflict));
    assert_eq!(store.sizes(), (1, 1, 0));
    assert!(store.has_spec("s1"));
}

#[test]
fn create_twice_conflicts_on_the_key() {
    let mut store = with_namespace("system");
    create(&mut store, "system", &config("web", "nginx:1"), "0.1", "s1", 5).unwrap();
    let again = create(&mut store, "system", &config("web", "nginx:1"), "0.1", "s2", 5);
    assert_eq!(again.err(), Some(RepoError::Conflict));
    assert_eq!(store.sizes(), (1, 2, 1));
    let taken = create(&mut store, "system", &config("api", "nginx:1"), "0.1", "s1", 5);
    assert_eq!(taken.err(), Some(RepoError::Conflict));
    assert_eq!(store.sizes(), (1, 2, 1));
}

#[test]
fn update_adds_a_spec_and_repoints_the_cargo() {
    let mut store = with_namespace("system");
    create(&mut store, "system", &partial("web", NGINX_1), "v1", "s1", 5).unwrap();
    let cargo = update(&mut store, "system.web", &partial("web", NGINX_2), "v2", "s2", 9).unwrap();
    assert_eq!(cargo.namespace_name, "system");
    assert_eq!(cargo.created_at, at(6));
    assert_eq!(cargo.spec.key, "s2");
    assert_eq!(cargo.spec.cargo_key, "system.web");
    assert_eq!(cargo.spec.version, "v2");
    assert_eq!(cargo.spec.data, NGINX_2);
    assert_eq!(store.sizes(), (1, 2, 1));
    // the spec that was current before is unchanged
    let old = store.read_spec_by_pk("s1").unwrap();
    assert_eq!(old.version, "v1");
    assert_eq!(old.data, NGINX_1);
    assert_eq!(old.kind_key, "system.web");
    assert_eq!(old.created_at, at(5));
    // a read hands out the new one
    let read = CargoDb::transform_read_by_pk("system.web", &store).unwrap();
    assert_eq!(read.spec.key, "s2");
    assert_eq!(read.spec.version, "v2");
    assert_eq!(read.spec.data, NGINX_2);
}

#[test]
fn update_of_a_cargo_that_does_not_exist_is_not_found_and_writes_nothing() {
    let mut store = with_namespace("system");
    let outcome = update(&mut store, "system.web", &partial("web", NGINX_1), "v2", "s2", 9);
    assert_eq!(outcome.err(), Some(RepoError::NotFound));
    assert_eq!(store.sizes(), (1, 0, 0));
}

#[test]
fn update_with_a_malformed_item_is_invalid_input_and_writes_nothing() {
    let mut store = with_namespace("system");
    create(&mut store, "system", &partial("web", NGINX_1), "v1", "s1", 5).unwrap();
    let broken = update(&mut store, "system.web", &partial("web", "{"), "v2", "s2", 9);
    assert_eq!(broken.err(), Some(RepoError::InvalidInput));
    let other = update(&mut store, "system.web", &partial("api", NGINX_2), "v2", "s2", 9);
    assert_eq!(other.err(), Some(RepoError::InvalidInput));
    assert_eq!(store.sizes(), (1, 1, 1));
    // the item is checked before the store is asked for the cargo
    let absent = update(&mut store, "system.nope", &partial("web", "{"), "v2", "s2", 9);
    assert_eq!(absent.err(), Some(RepoError::InvalidInput));
}

#[test]
fn update_with_a_taken_spec_key_conflicts() {
    let mut store = with_namespace("system");
    create(&mut store, "system", &partial("web", NGINX_1), "v1", "s1", 5).unwrap();
    let outcome = update(&mut store, "system.web", &partial("web", NGINX_2), "v2", "s1", 9);
    assert_eq!(outcome.err(), Some(RepoError::Conflict));
    assert_eq!(CargoDb::transform_read_by_pk("system.web", &store).unwrap().spec.version, "v1");
}

#[test]
fn update_of_a_cargo_whose_current_configuration_is_malformed_fails() {
    let mut store = with_namespace("system");
    store.create_spec(spec_row("s1", "system.web", "broken")).unwrap();
    store.create_cargo(cargo_row("system", "web", "s1")).unwrap();
    let read = CargoDb::transform_read_by_pk("system.web", &store);
    assert_eq!(read.err(), Some(RepoError::TransformError));
    let outcome = update(&mut store, "system.web", &partial("web", NGINX_2), "v2", "s2", 9);
    assert_eq!(outcome.err(), Some(RepoError::TransformError));
    assert_eq!(store.sizes(), (1, 1, 1));
}

#[test]
fn update_changes_the_spec_reference_and_nothing_else_of_the_row() {
    let mut store = with_namespace("system");
    create(&mut store, "system", &partial("web", NGINX_1), "v1", "s1", 5).unwrap();
    let renamed = config("front", "nginx:2");
    let cargo = update(&mut store, "system.web", &renamed, "v2", "s2", 9).unwrap();
    assert_eq!(cargo.spec.name, "front");
    assert_eq!(cargo.spec.cargo_key, "system.web");
    let row = CargoDb::read_by_pk("system.web", &store).unwrap();
    assert_eq!(row.0.key, "system.web");
    assert_eq!(row.0.name, "web");
    assert_eq!(row.0.namespace_name, "system");
    assert_eq!(row.0.created_at, at(6));
    assert_eq!(row.0.spec_key, "s2");
}

#[test]
fn pure_steps_of_create_and_update() {
    let refused = Some(RepoError::InvalidInput);
    let item = partial("web", NGINX_1);
    let row = CargoDb::spec_for_create("system", &item, "0.1", stamp("s1", 5)).unwrap();
    assert_eq!(row.kind_key, "system.web");
    assert_eq!(row.key, "s1");
    let dotted = config("a.b", "x:1");
    assert_eq!(CargoDb::spec_for_create("system", &dotted, "0.1", stamp("s1", 5)).err(), refused);
    let spec = row.try_to_cargo_spec().unwrap();
    let cargo = CargoDb::row_for_create("system", &item, &spec, at(8));
    assert_eq!(cargo.key, "system.web");
    assert_eq!(cargo.name, "web");
    assert_eq!(cargo.spec_key, "s1");
    assert_eq!(cargo.namespace_name, "system");
    assert_eq!(cargo.created_at, at(8));
    let changed = partial("web", NGINX_2);
    let next = CargoDb::spec_for_update("system.web", &changed, "0.2", stamp("s2", 9)).unwrap();
    assert_eq!(next.kind_key, "system.web");
    assert_eq!(next.version, "0.2");
    let broken = partial("web", "x");
    assert_eq!(CargoDb::spec_for_update("k", &broken, "0.2", stamp("s2", 9)).err(), refused);
    let patch = CargoDb::patch_for_update(&next.try_to_cargo_spec().unwrap());
    assert_eq!(patch.key, None);
    assert_eq!(patch.namespace_name, None);
    assert_eq!(patch.name, None);
    assert_eq!(patch.spec_key.as_deref(), Some("s2"));
}

#[test]
fn with_new_spec_replaces_the_spec_only() {
    let first: CargoSpec = spec_row("s1", "system.web", NGINX_1).try_to_cargo_spec().unwrap();
    let second: CargoSpec = spec_row("s2", "system.web", NGINX_2).try_to_cargo_spec().unwrap();
    let cargo: Cargo = cargo_row("system", "web", "s1").with_spec(&first);
    let changed = cargo.with_new_spec(second);
    assert_eq!(changed.namespace_name, "system");
    assert_eq!(changed.created_at, at(2));
    assert_eq!(changed.spec.key, "s2");
}

#[test]
fn read_by_namespace_hydrates_the_cargoes_newest_first() {
    let mut store = with_namespace("system");
    store.create_namespace("global").unwrap();
    create(&mut store, "system", &config("web", "nginx:1"), "v1", "s1", 10).unwrap();
    create(&mut store, "system", &config("api", "node:1"), "v1", "s2", 20).unwrap();
    create(&mut store, "global", &config("db", "pg:1"), "v1", "s3", 30).unwrap();
    let cargoes = CargoDb::read_by_namespace("system", &store).unwrap();
    assert_eq!(cargoes.len(), 2);
    assert_eq!(cargoes[0].spec.cargo_key, "system.api");
    assert_eq!(cargoes[0].spec.name, "api");
    assert_eq!(cargoes[1].spec.cargo_key, "system.web");
    assert!(CargoDb::read_by_namespace("mars", &store).unwrap().is_empty());
}

#[test]
fn read_by_namespace_fails_on_a_malformed_configuration() {
    let mut store = with_namespace("system");
    store.create_spec(spec_row("s1", "system.web", "broken")).unwrap();
    store.create_cargo(cargo_row("system", "web", "s1")).unwrap();
    let read = CargoDb::read_by_namespace("system", &store);
    assert_eq!(read.err(), Some(RepoError::TransformError));
    // the count does not read the configuration
    assert_eq!(CargoDb::count_by_namespace("system", &store), Ok(1));
}

#[test]
fn count_equals_the_length_of_the_read() {
    let mut store = with_namespace("system");
    store.create_namespace("global").unwrap();
    assert_eq!(CargoDb::count_by_namespace("system", &store), Ok(0));
    assert_eq!(CargoDb::read_by_namespace("system", &store).unwrap().len(), 0);
    let names = ["a", "b", "c", "d", "e"];
    let mut n: i64 = 0;
    for name in names {
        n += 1;
        create(&mut store, "system", &config(name, "img:1"), "v1", &format!("s-{name}"), n)
            .unwrap();
        let count = CargoDb::count_by_namespace("system", &store).unwrap();
        assert_eq!(count, n);
        assert_eq!(CargoDb::read_by_namespace("system", &store).unwrap().len() as i64, count);
        assert_eq!(CargoDb::count_by_namespace("global", &store), Ok(0));
    }
}

#[test]
fn count_query_reads_the_cargo_relation_alone() {
    let query = CargoDb::count_query("system");
    assert_eq!(query.table, "cargoes");
    assert_eq!(query.join, None);
    assert_eq!(query.conditions.len(), 1);
    assert_eq!(query.conditions[0].column, "namespace_name");
    assert!(matches!(&query.conditions[0].clause, GenericClause::Eq(v) if v == "system"));
    assert!(!query.newest_first);
    assert_eq!(query.limit, None);
    assert_eq!(query.offset, None);
}

#[test]
fn transform_read_by_takes_the_bounds_of_the_filter() {
    let mut store = with_namespace("system");
    create(&mut store, "system", &config("a", "i:1"), "v1", "s1", 1).unwrap();
    create(&mut store, "system", &config("b", "i:1"), "v1", "s2", 2).unwrap();
    create(&mut store, "system", &config("c", "i:1"), "v1", "s3", 3).unwrap();
    let filter = GenericFilter::new().limit(1).offset(1);
    let cargoes = CargoDb::transform_read_by(&filter, &store).unwrap();
    assert_eq!(cargoes.len(), 1);
    assert_eq!(cargoes[0].spec.name, "b");
}

#[test]
fn create_draws_a_fresh_key_and_reads_the_clock() {
    let mut store = with_namespace("system");
    let web = config("web", "nginx:1");
    let created = CargoDb::create_from_spec("system", &web, "0.1", &mut store).unwrap();
    let api = config("api", "nginx:1");
    let other = CargoDb::create_from_spec("system", &api, "0.1", &mut store).unwrap();
    assert_eq!(created.spec.cargo_key, "system.web");
    assert_eq!(created.spec.version, "0.1");
    assert_eq!(created.spec.key.len(), 36);
    assert_ne!(created.spec.key, other.spec.key);
    // some time after the beginning of 2020
    assert!(created.created_at.secs > 1_577_836_800);
    assert!(!created.created_at.is_earlier(&created.spec.created_at));
    assert!(store.has_spec(&created.spec.key));
    let next = config("web", "nginx:2");
    let changed = CargoDb::update_from_spec("system.web", &next, "0.2", &mut store).unwrap();
    assert_eq!(changed.spec.version, "0.2");
    assert_ne!(changed.spec.key, created.spec.key);
    assert_eq!(store.read_spec_by_pk(&created.spec.key).unwrap().version, "0.1");
    assert_eq!(store.sizes(), (1, 3, 2));
    let dotted = config("a.b", "nginx:1");
    assert_eq!(
        CargoDb::create_from_spec("system", &dotted, "0.1", &mut store).err(),
        Some(RepoError::InvalidInput)
    );
    assert_eq!(
        CargoDb::update_from_spec("system.nope", &next, "0.2", &mut store).err(),
        Some(RepoError::NotFound)
    );
}
