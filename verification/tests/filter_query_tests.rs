use cargo_repo::filter::{clone_texts, GenericClause, GenericFilter};
use cargo_repo::models::CargoDb;
use cargo_repo::query::{is_among, same_text, translate, Schema};
use cargo_repo::repository::{RepositoryBase, RepositoryReadBy};

fn eq(value: &str) -> GenericClause {
    GenericClause::Eq(value.to_string())
}

fn is_eq(clause: &GenericClause, value: &str) -> bool {
    matches!(clause, GenericClause::Eq(v) if v == value)
}

#[test]
fn new_filter_constrains_nothing() {
    let filter = GenericFilter::new();
    assert!(filter.get("key").is_none());
    assert_eq!(filter.row_limit(), None);
    assert_eq!(filter.row_offset(), None);
}

#[test]
fn filter_keeps_the_clause_of_each_field() {
    let filter = GenericFilter::new().with_where("key", eq("a")).with_where("name", eq("b"));
    assert!(is_eq(filter.get("key").unwrap(), "a"));
    assert!(is_eq(filter.get("name").unwrap(), "b"));
    assert!(filter.get("namespace_name").is_none());
}

#[test]
fn a_later_clause_replaces_an_earlier_one_for_the_same_field() {
    let filter = GenericFilter::new().with_where("key", eq("a")).with_where("key", eq("b"));
    assert!(is_eq(filter.get("key").unwrap(), "b"));
}

#[test]
fn filter_bounds_are_kept() {
    let filter = GenericFilter::new().limit(10).offset(5);
    assert_eq!(filter.row_limit(), Some(10));
    assert_eq!(filter.row_offset(), Some(5));
    let filter = filter.with_where("key", eq("a")).limit(3);
    assert_eq!(filter.row_limit(), Some(3));
    assert_eq!(filter.row_offset(), Some(5));
    assert!(is_eq(filter.get("key").unwrap(), "a"));
}

#[test]
fn clone_texts_copies_every_item() {
    let items = vec!["a".to_string(), "b".to_string()];
    assert_eq!(clone_texts(&items), items);
    assert_eq!(clone_texts(&Vec::new()), Vec::<String>::new());
}

#[test]
fn clause_clone_keeps_the_clause() {
    let clause = GenericClause::In(vec!["a".to_string(), "b".to_string()]);
    assert!(matches!(clause.clone(), GenericClause::In(items) if items == vec!["a", "b"]));
    assert!(matches!(GenericClause::IsNull.clone(), GenericClause::IsNull));
    let like = GenericClause::Like("a%".to_string());
    assert!(matches!(like.clone(), GenericClause::Like(p) if p == "a%"));
}

#[test]
fn clauses_on_text_are_told_from_the_others() {
    assert!(eq("a").is_on_text());
    assert!(GenericClause::NotIn(vec![]).is_on_text());
    assert!(GenericClause::Like("a".to_string()).is_on_text());
    assert!(!GenericClause::IsNull.is_on_text());
    assert!(!GenericClause::IsNotNull.is_on_text());
    assert!(!GenericClause::Contains("{}".to_string()).is_on_text());
    assert!(!GenericClause::HasKey("k".to_string()).is_on_text());
}

#[test]
fn each_clause_holds_of_the_texts_it_describes() {
    assert!(eq("web").accepts("web"));
    assert!(!eq("web").accepts("web2"));
    assert!(GenericClause::Ne("web".to_string()).accepts("api"));
    assert!(!GenericClause::Ne("web".to_string()).accepts("web"));
    assert!(GenericClause::Gt("b".to_string()).accepts("c"));
    assert!(!GenericClause::Gt("b".to_string()).accepts("b"));
    assert!(!GenericClause::Gt("b".to_string()).accepts("a"));
    assert!(GenericClause::Lt("b".to_string()).accepts("a"));
    assert!(!GenericClause::Lt("b".to_string()).accepts("b"));
    assert!(GenericClause::Ge("b".to_string()).accepts("b"));
    assert!(GenericClause::Ge("b".to_string()).accepts("c"));
    assert!(!GenericClause::Ge("b".to_string()).accepts("a"));
    assert!(GenericClause::Le("b".to_string()).accepts("b"));
    assert!(GenericClause::Le("b".to_string()).accepts("a"));
    assert!(!GenericClause::Le("b".to_string()).accepts("c"));
    assert!(GenericClause::Like("w%".to_string()).accepts("web"));
    assert!(!GenericClause::Like("w%".to_string()).accepts("api"));
    assert!(GenericClause::NotLike("w%".to_string()).accepts("api"));
    assert!(!GenericClause::NotLike("w%".to_string()).accepts("web"));
    let items = vec!["a".to_string(), "b".to_string()];
    assert!(GenericClause::In(items.clone()).accepts("b"));
    assert!(!GenericClause::In(items.clone()).accepts("c"));
    assert!(GenericClause::NotIn(items.clone()).accepts("c"));
    assert!(!GenericClause::NotIn(items).accepts("a"));
    assert!(!GenericClause::In(vec![]).accepts("a"));
    assert!(GenericClause::IsNull.accepts("a"));
}

#[test]
fn same_text_and_is_among() {
    assert!(same_text("a", &"a".to_string()));
    assert!(!same_text("a", &"b".to_string()));
    assert!(is_among("b", &vec!["a".to_string(), "b".to_string()]));
    assert!(!is_among("c", &vec!["a".to_string(), "b".to_string()]));
}

#[test]
fn primary_key_of_a_cargo_is_its_key_column() {
    assert_eq!(<CargoDb as RepositoryBase>::get_pk(), "key");
}

#[test]
fn cargo_schema_names_the_relation_its_join_and_its_columns() {
    let schema = CargoDb::schema();
    assert_eq!(schema.table, "cargoes");
    assert_eq!(schema.join.as_deref(), Some("specs"));
    assert_eq!(schema.columns, vec!["key", "name", "namespace_name"]);
}

#[test]
fn translation_applies_the_clauses_of_known_columns_in_column_order() {
    let filter = GenericFilter::new()
        .with_where("namespace_name", eq("system"))
        .with_where("key", eq("system.web"));
    let query = CargoDb::gen_read_query(&filter, false);
    assert_eq!(query.table, "cargoes");
    assert_eq!(query.join.as_deref(), Some("specs"));
    assert_eq!(query.conditions.len(), 2);
    assert_eq!(query.conditions[0].column, "key");
    assert!(is_eq(&query.conditions[0].clause, "system.web"));
    assert_eq!(query.conditions[1].column, "namespace_name");
    assert!(is_eq(&query.conditions[1].clause, "system"));
}

#[test]
fn translation_of_an_empty_filter_has_no_condition() {
    let query = CargoDb::gen_read_query(&GenericFilter::new(), true);
    assert!(query.conditions.is_empty());
    assert!(query.newest_first);
    assert_eq!(query.limit, None);
    assert_eq!(query.offset, None);
}

#[test]
fn single_reads_are_neither_ordered_nor_bounded() {
    let filter = GenericFilter::new().with_where("name", eq("web")).limit(10).offset(2);
    let query = CargoDb::gen_read_query(&filter, false);
    assert!(!query.newest_first);
    assert_eq!(query.limit, None);
    assert_eq!(query.offset, None);
    assert_eq!(query.conditions.len(), 1);
}

#[test]
fn multiple_reads_are_ordered_and_take_the_bounds_of_the_filter() {
    let filter = GenericFilter::new().with_where("name", eq("web")).limit(10).offset(2);
    let query = CargoDb::gen_read_query(&filter, true);
    assert!(query.newest_first);
    assert_eq!(query.limit, Some(10));
    assert_eq!(query.offset, Some(2));
    let filter = GenericFilter::new().with_where("name", eq("web"));
    let unbounded = CargoDb::gen_read_query(&filter, true);
    assert_eq!(unbounded.limit, None);
    assert_eq!(unbounded.offset, None);
}

#[test]
fn unknown_fields_are_passed_over() {
    let with = GenericFilter::new()
        .with_where("namespace_name", eq("system"))
        .with_where("color", eq("blue"));
    let without = GenericFilter::new().with_where("namespace_name", eq("system"));
    let a = CargoDb::gen_read_query(&with, true);
    let b = CargoDb::gen_read_query(&without, true);
    assert_eq!(a.conditions.len(), 1);
    assert_eq!(a.conditions.len(), b.conditions.len());
    assert_eq!(a.conditions[0].column, b.conditions[0].column);
    assert!(is_eq(&a.conditions[0].clause, "system"));
    assert_eq!(a.newest_first, b.newest_first);
    assert_eq!(a.limit, b.limit);
    assert_eq!(a.offset, b.offset);
}

#[test]
fn clauses_that_are_not_on_text_are_passed_over() {
    let filter = GenericFilter::new()
        .with_where("key", GenericClause::IsNull)
        .with_where("name", GenericClause::HasKey("x".to_string()));
    let query = CargoDb::gen_read_query(&filter, true);
    assert!(query.conditions.is_empty());
}

#[test]
fn translator_serves_any_schema() {
    let schema = Schema {
        table: "jobs".to_string(),
        join: None,
        columns: vec!["key".to_string()],
    };
    let filter = GenericFilter::new().with_where("key", eq("j1")).with_where("name", eq("n"));
    let query = translate(&schema, &filter, true);
    assert_eq!(query.table, "jobs");
    assert_eq!(query.join, None);
    assert_eq!(query.conditions.len(), 1);
    assert_eq!(query.conditions[0].column, "key");
}
