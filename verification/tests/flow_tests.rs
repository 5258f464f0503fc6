use cargo_repo::cargo::SpecStamp;
use cargo_repo::error::RepoError;
use cargo_repo::flow::{
    begin_create, begin_update, drive, resume, Flow, Step, StoreAction, StoreEvent,
};
use cargo_repo::models::{CargoDb, CargoSpecPartial, SpecDb, Timestamp};
use cargo_repo::store::Store;

const NGINX_1: &str = "{\"Name\":\"web\",\"Container\":{\"Image\":\"nginx:1\"}}";
const NGINX_2: &str = "{\"Name\":\"web\",\"Container\":{\"Image\":\"nginx:2\"}}";

fn at(secs: i64) -> Timestamp {
    Timestamp { secs, nanos: 0 }
}

fn stamp(key: &str, secs: i64) -> SpecStamp {
    SpecStamp { key: key.to_string(), created_at: at(secs) }
}

fn item(data: &str) -> CargoSpecPartial {
    CargoSpecPartial { name: "web".to_string(), data: data.to_string() }
}

fn asked(step: Step) -> (Flow, StoreAction) {
    match step {
        Step::Ask(flow, action) => (flow, action),
        Step::Done(outcome) => panic!("the flow ended: {outcome:?}"),
    }
}

fn ended(step: Step) -> Result<cargo_repo::models::Cargo, RepoError> {
    match step {
        Step::Done(outcome) => outcome,
        Step::Ask(_, action) => panic!("the flow asks: {action:?}"),
    }
}

/// Begins creating the cargo `web` in `system`.
fn creating() -> Step {
    begin_create("system", &item(NGINX_1), "0.1", stamp("s1", 5), at(6))
}

fn system() -> Store {
    let mut store = Store::new();
    store.create_namespace("system").unwrap();
    store
}

#[test]
fn create_asks_for_the_spec_then_for_the_cargo() {
    let mut store = system();
    let (flow, action) = asked(creating());
    match &action {
        StoreAction::CreateSpec(row) => {
            assert_eq!(row.key, "s1");
            assert_eq!(row.kind_key, "system.web");
            assert_eq!(row.version, "0.1");
            assert_eq!(row.created_at, at(5));
            assert_eq!(row.data, NGINX_1);
        }
        other => panic!("asked {other:?}"),
    }
    assert_eq!(store.sizes(), (1, 0, 0));
    let (flow, action) = asked(resume(flow, store.perform(action)));
    match &action {
        StoreAction::CreateCargo(row) => {
            assert_eq!(row.key, "system.web");
            assert_eq!(row.name, "web");
            assert_eq!(row.namespace_name, "system");
            assert_eq!(row.spec_key, "s1");
            assert_eq!(row.created_at, at(6));
        }
        other => panic!("asked {other:?}"),
    }
    assert_eq!(store.sizes(), (1, 1, 0));
    let cargo = ended(resume(flow, store.perform(action))).unwrap();
    assert_eq!(cargo.spec.cargo_key, "system.web");
    assert_eq!(cargo.spec.key, "s1");
    assert_eq!(cargo.namespace_name, "system");
    assert_eq!(store.sizes(), (1, 1, 1));
}

#[test]
fn create_of_a_bad_item_ends_before_the_store_is_asked() {
    let dotted = CargoSpecPartial {
        name: "a.b".to_string(),
        data: "{\"Name\":\"a.b\",\"Container\":{}}".to_string(),
    };
    let step = begin_create("system", &dotted, "0.1", stamp("s1", 5), at(6));
    assert_eq!(ended(step).err(), Some(RepoError::InvalidInput));
    let step = begin_create("system", &item("{"), "0.1", stamp("s1", 5), at(6));
    assert_eq!(ended(step).err(), Some(RepoError::InvalidInput));
}

#[test]
fn update_reads_then_writes_the_spec_then_repoints() {
    let mut store = system();
    drive(creating(), &mut store).unwrap();
    let (flow, action) = asked(begin_update("system.web", &item(NGINX_2), "0.2", stamp("s2", 9)));
    assert!(matches!(&action, StoreAction::ReadCargo(key) if key == "system.web"));
    let (flow, action) = asked(resume(flow, store.perform(action)));
    match &action {
        StoreAction::CreateSpec(row) => {
            assert_eq!(row.key, "s2");
            assert_eq!(row.kind_key, "system.web");
            assert_eq!(row.version, "0.2");
            assert_eq!(row.data, NGINX_2);
        }
        other => panic!("asked {other:?}"),
    }
    let (flow, action) = asked(resume(flow, store.perform(action)));
    match &action {
        StoreAction::UpdateCargo(key, patch) => {
            assert_eq!(key, "system.web");
            assert_eq!(patch.spec_key.as_deref(), Some("s2"));
            assert_eq!(patch.key, None);
            assert_eq!(patch.name, None);
            assert_eq!(patch.namespace_name, None);
        }
        other => panic!("asked {other:?}"),
    }
    // until the row is repointed, a read still hands out the first spec
    assert_eq!(store.sizes(), (1, 2, 1));
    let cargo = ended(resume(flow, store.perform(action))).unwrap();
    assert_eq!(cargo.spec.key, "s2");
    assert_eq!(cargo.spec.version, "0.2");
    assert_eq!(cargo.created_at, at(6));
}

#[test]
fn update_of_a_malformed_item_ends_before_the_store_is_asked() {
    let step = begin_update("system.web", &item("{"), "0.2", stamp("s2", 9));
    assert_eq!(ended(step).err(), Some(RepoError::InvalidInput));
}

#[test]
fn failure_of_the_store_ends_the_flow_with_that_failure() {
    let (flow, _) = asked(creating());
    let step = resume(flow, StoreEvent::SpecCreated(Err(RepoError::StoreUnavailable)));
    assert_eq!(ended(step).err(), Some(RepoError::StoreUnavailable));
    let (flow, _) = asked(begin_update("system.web", &item(NGINX_2), "0.2", stamp("s2", 9)));
    let step = resume(flow, StoreEvent::CargoRead(Err(RepoError::NotFound)));
    assert_eq!(ended(step).err(), Some(RepoError::NotFound));
}

#[test]
fn failure_between_the_two_writes_leaves_the_spec_behind() {
    let mut store = system();
    drive(creating(), &mut store).unwrap();
    let (flow, action) = asked(begin_update("system.web", &item(NGINX_2), "0.2", stamp("s2", 9)));
    let (flow, action) = asked(resume(flow, store.perform(action)));
    let (flow, _) = asked(resume(flow, store.perform(action)));
    // the store fails where the row was to be repointed
    let step = resume(flow, StoreEvent::CargoUpdated(Err(RepoError::StoreUnavailable)));
    assert_eq!(ended(step).err(), Some(RepoError::StoreUnavailable));
    assert!(store.has_spec("s2"));
    let row = store.perform(StoreAction::ReadCargo("system.web".to_string()));
    assert!(matches!(row, StoreEvent::CargoRead(Ok((cargo, _))) if cargo.spec_key == "s1"));
}

#[test]
fn stored_row_that_does_not_decode_ends_the_flow_with_a_transform_error() {
    let (flow, _) = asked(creating());
    let broken = SpecDb {
        key: "s1".to_string(),
        created_at: at(5),
        kind_name: "Cargo".to_string(),
        kind_key: "system.web".to_string(),
        version: "0.1".to_string(),
        data: "broken".to_string(),
    };
    let step = resume(flow, StoreEvent::SpecCreated(Ok(broken)));
    assert_eq!(ended(step).err(), Some(RepoError::TransformError));
}

#[test]
fn answer_to_what_was_not_asked_ends_the_flow() {
    let (flow, _) = asked(creating());
    let row = CargoDb {
        key: "system.web".to_string(),
        created_at: at(6),
        name: "web".to_string(),
        spec_key: "s1".to_string(),
        namespace_name: "system".to_string(),
    };
    let step = resume(flow, StoreEvent::CargoCreated(Ok(row)));
    assert_eq!(ended(step).err(), Some(RepoError::StoreUnavailable));
    let (flow, _) = asked(begin_update("system.web", &item(NGINX_2), "0.2", stamp("s2", 9)));
    let step = resume(flow, StoreEvent::CargoUpdated(Ok(())));
    assert_eq!(ended(step).err(), Some(RepoError::StoreUnavailable));
}

#[test]
fn two_changes_under_way_at_once_both_keep_their_spec_and_the_last_repointing_wins() {
    let mut store = system();
    drive(creating(), &mut store).unwrap();
    let (a, read_a) = asked(begin_update("system.web", &item(NGINX_2), "a", stamp("sa", 9)));
    let (b, read_b) = asked(begin_update("system.web", &item(NGINX_2), "b", stamp("sb", 9)));
    let (a, write_a) = asked(resume(a, store.perform(read_a)));
    let (b, write_b) = asked(resume(b, store.perform(read_b)));
    let (a, point_a) = asked(resume(a, store.perform(write_a)));
    let (b, point_b) = asked(resume(b, store.perform(write_b)));
    let done_b = ended(resume(b, store.perform(point_b))).unwrap();
    let done_a = ended(resume(a, store.perform(point_a))).unwrap();
    assert_eq!(done_a.spec.version, "a");
    assert_eq!(done_b.spec.version, "b");
    assert!(store.has_spec("s1") && store.has_spec("sa") && store.has_spec("sb"));
    let row = store.perform(StoreAction::ReadCargo("system.web".to_string()));
    assert!(matches!(row, StoreEvent::CargoRead(Ok((cargo, _))) if cargo.spec_key == "sa"));
}
