//! The query translator: from a filter to the description of a read.
//!
//! The translator knows a relation only by its schema. It applies the
//! clauses that the filter sets for the schema's columns, passes over every
//! other field of the filter, and orders and bounds the rows only when more
//! than one row is asked for.

use crate::filter::{texts, Clause, FilterView, GenericClause, GenericFilter};
use crate::models::text_view;
use crate::text::{is_like, is_text_lt, like, text_lt};
use vstd::prelude::*;

verus! {

/// What the translator knows of a relation.
#[derive(Debug)]
pub struct Schema {
    /// The name of the relation.
    pub table: String,
    /// The relation that every read joins to this one, if any.
    pub join: Option<String>,
    /// The text columns that a filter may constrain.
    pub columns: Vec<String>,
}

/// The view of a [`Schema`].
pub ghost struct SchemaView {
    pub table: Seq<char>,
    pub join: Option<Seq<char>>,
    pub columns: Seq<Seq<char>>,
}

impl View for Schema {
    type V = SchemaView;

    open spec fn view(&self) -> SchemaView {
        SchemaView {
            table: self.table@,
            join: text_view(self.join),
            columns: texts(self.columns@),
        }
    }
}

/// A clause applied to a column.
#[derive(Debug)]
pub struct Condition {
    pub column: String,
    pub clause: GenericClause,
}

/// The view of a [`Condition`].
pub ghost struct ConditionView {
    pub column: Seq<char>,
    pub clause: Clause,
}

impl View for Condition {
    type V = ConditionView;

    open spec fn view(&self) -> ConditionView {
        ConditionView { column: self.column@, clause: self.clause@ }
    }
}

/// The views of a list of conditions.
pub open spec fn condition_views(conditions: Seq<Condition>) -> Seq<ConditionView> {
    Seq::new(conditions.len(), |i: int| conditions[i]@)
}

/// The description of a read: which relation, which rows, in what order,
/// and how many.
#[derive(Debug)]
pub struct ReadQuery {
    pub table: String,
    pub join: Option<String>,
    /// A row is read only if every condition holds of it.
    pub conditions: Vec<Condition>,
    /// Whether the rows are ordered by their time of creation, newest first;
    /// otherwise the order is left to the store.
    pub newest_first: bool,
    pub limit: Option<usize>,
    pub offset: Option<usize>,
}

/// The view of a [`ReadQuery`].
pub ghost struct QueryView {
    pub table: Seq<char>,
    pub join: Option<Seq<char>>,
    pub conditions: Seq<ConditionView>,
    pub newest_first: bool,
    pub limit: Option<usize>,
    pub offset: Option<usize>,
}

impl View for ReadQuery {
    type V = QueryView;

    open spec fn view(&self) -> QueryView {
        QueryView {
            table: self.table@,
            join: text_view(self.join),
            conditions: condition_views(self.conditions@),
            newest_first: self.newest_first,
            limit: self.limit,
            offset: self.offset,
        }
    }
}

impl Clause {
    /// The clause compares a text column with text; the others concern
    /// columns of other kinds, and the translator passes over them.
    pub open spec fn on_text(self) -> bool {
        match self {
            Clause::IsNull | Clause::IsNotNull | Clause::Contains(_) | Clause::HasKey(_) => false,
            _ => true,
        }
    }

    /// The clause holds of the text `value`.
    pub open spec fn holds(self, value: Seq<char>) -> bool {
        match self {
            Clause::Eq(v) => value == v,
            Clause::Ne(v) => value != v,
            Clause::Gt(v) => text_lt(v, value),
            Clause::Lt(v) => text_lt(value, v),
            Clause::Ge(v) => !text_lt(value, v),
            Clause::Le(v) => !text_lt(v, value),
            Clause::Like(pattern) => like(value, pattern),
            Clause::NotLike(pattern) => !like(value, pattern),
            Clause::In(items) => items.contains(value),
            Clause::NotIn(items) => !items.contains(value),
            _ => true,
        }
    }
}

impl GenericClause {
    /// Tells whether the clause compares a text column with text.
    pub fn is_on_text(&self) -> (b: bool)
        ensures
            b == self@.on_text(),
    {
        match self {
            GenericClause::IsNull => false,
            GenericClause::IsNotNull => false,
            GenericClause::Contains(_) => false,
            GenericClause::HasKey(_) => false,
            _ => true,
        }
    }

    /// Tells whether the clause holds of the text `value`.
    pub fn accepts(&self, value: &str) -> (b: bool)
        ensures
            b == self@.holds(value@),
    {
        match self {
            GenericClause::Eq(v) => same_text(value, v),
            GenericClause::Ne(v) => !same_text(value, v),
            GenericClause::Gt(v) => is_text_lt(v.as_str(), value),
            GenericClause::Lt(v) => is_text_lt(value, v.as_str()),
            GenericClause::Ge(v) => !is_text_lt(value, v.as_str()),
            GenericClause::Le(v) => !is_text_lt(v.as_str(), value),
            GenericClause::Like(pattern) => is_like(value, pattern.as_str()),
            GenericClause::NotLike(pattern) => !is_like(value, pattern.as_str()),
            GenericClause::In(items) => is_among(value, items),
            GenericClause::NotIn(items) => !is_among(value, items),
            _ => true,
        }
    }
}

/// Tells whether `value` and `other` are the same text.
pub fn same_text(value: &str, other: &String) -> (same: bool)
    ensures
        same == (value@ == other@),
{
    value.to_owned() == *other
}

/// Tells whether `value` is one of `items`.
pub fn is_among(value: &str, items: &Vec<String>) -> (found: bool)
    ensures
        found == texts(items@).contains(value@),
{
    let wanted = value.to_owned();
    let mut i: usize = 0;
    while i < items.len()
        invariant
            i <= items.len(),
            wanted@ == value@,
            forall|j: int| 0 <= j < i ==> items[j]@ != value@,
        decreases items.len() - i,
    {
        if items[i] == wanted {
            assert(texts(items@)[i as int] == value@);
            return true;
        }
        i = i + 1;
    }
    false
}

/// The conditions that a filter's clauses put on the given columns: one for
/// each column, in the order of the columns, for which the filter sets a
/// clause on text.
pub open spec fn conditions_for(
    columns: Seq<Seq<char>>,
    clauses: Map<Seq<char>, Clause>,
) -> Seq<ConditionView>
    decreases columns.len(),
{
    if columns.len() == 0 {
        Seq::empty()
    } else {
        let before = conditions_for(columns.drop_last(), clauses);
        let column = columns.last();
        if clauses.contains_key(column) && clauses[column].on_text() {
            before.push(ConditionView { column, clause: clauses[column] })
        } else {
            before
        }
    }
}

/// The read that a filter asks of a relation.
pub open spec fn translation(
    schema: SchemaView,
    filter: FilterView,
    is_multiple: bool,
) -> QueryView {
    QueryView {
        table: schema.table,
        join: schema.join,
        conditions: conditions_for(schema.columns, filter.clauses),
        newest_first: is_multiple,
        limit: if is_multiple { filter.limit } else { None },
        offset: if is_multiple { filter.offset } else { None },
    }
}

/// Translates a filter into the read that it asks of the relation.
///
/// A field of the filter that is no column of the schema is passed over. A
/// read of a single row is neither ordered nor bounded.
pub fn translate(schema: &Schema, filter: &GenericFilter, is_multiple: bool) -> (query: ReadQuery)
    ensures
        query@ == translation(schema@, filter@, is_multiple),
{
    let mut conditions: Vec<Condition> = Vec::new();
    let mut i: usize = 0;
    assert(texts(schema.columns@).take(0) == Seq::<Seq<char>>::empty());
    while i < schema.columns.len()
        invariant
            i <= schema.columns.len(),
            condition_views(conditions@) == conditions_for(
                texts(schema.columns@).take(i as int),
                filter@.clauses,
            ),
        decreases schema.columns.len() - i,
    {
        let ghost columns = texts(schema.columns@);
        let ghost before = condition_views(conditions@);
        assert(columns.take(i + 1).drop_last() == columns.take(i as int));
        assert(columns.take(i + 1).last() == schema.columns[i as int]@);
        let column = &schema.columns[i];
        match filter.get(column.as_str()) {
            Some(clause) => {
                if clause.is_on_text() {
                    conditions.push(Condition { column: column.clone(), clause: clause.clone() });
                    assert(condition_views(conditions@) == before.push(
                        ConditionView { column: column@, clause: clause@ },
                    ));
                }
            },
            None => {},
        }
        i = i + 1;
    }
    assert(texts(schema.columns@).take(i as int) == texts(schema.columns@));
    let join = match &schema.join {
        Some(relation) => Some(relation.clone()),
        None => None,
    };
    if is_multiple {
        ReadQuery {
            table: schema.table.clone(),
            join,
            conditions,
            newest_first: true,
            limit: filter.row_limit(),
            offset: filter.row_offset(),
        }
    } else {
        ReadQuery {
            table: schema.table.clone(),
            join,
            conditions,
            newest_first: false,
            limit: None,
            offset: None,
        }
    }
}

/// Two filters that set the same clauses for the columns of a schema are
/// translated into the same conditions.
pub proof fn lemma_conditions_depend_on_columns(
    columns: Seq<Seq<char>>,
    a: Map<Seq<char>, Clause>,
    b: Map<Seq<char>, Clause>,
)
    requires
        forall|i: int|
            0 <= i < columns.len() ==> (a.contains_key(#[trigger] columns[i]) == b.contains_key(
                columns[i],
            ) && (a.contains_key(columns[i]) ==> a[columns[i]] == b[columns[i]])),
    ensures
        conditions_for(columns, a) == conditions_for(columns, b),
    decreases columns.len(),
{
    if columns.len() > 0 {
        let shorter = columns.drop_last();
        assert forall|i: int| 0 <= i < shorter.len() implies (a.contains_key(
            #[trigger] shorter[i],
        ) == b.contains_key(shorter[i]) && (a.contains_key(shorter[i]) ==> a[shorter[i]]
            == b[shorter[i]])) by {
            assert(shorter[i] == columns[i]);
        }
        lemma_conditions_depend_on_columns(shorter, a, b);
        assert(columns.last() == columns[columns.len() - 1]);
    }
}

/// A clause for a field that is no column of the schema changes nothing:
/// the filter with it and the filter without it ask for the same read.
pub proof fn lemma_unknown_field_is_ignored(
    schema: SchemaView,
    filter: FilterView,
    field: Seq<char>,
    clause: Clause,
    is_multiple: bool,
)
    requires
        !schema.columns.contains(field),
    ensures
        translation(
            schema,
            FilterView { clauses: filter.clauses.insert(field, clause), ..filter },
            is_multiple,
        ) == translation(schema, filter, is_multiple),
{
    lemma_conditions_depend_on_columns(
        schema.columns,
        filter.clauses.insert(field, clause),
        filter.clauses,
    );
}

/// Every condition of a translated read is on a column of the schema.
pub proof fn lemma_conditions_on_columns(columns: Seq<Seq<char>>, clauses: Map<Seq<char>, Clause>)
    ensures
        forall|i: int|
            0 <= i < conditions_for(columns, clauses).len() ==> columns.contains(
                #[trigger] conditions_for(columns, clauses)[i].column,
            ),
    decreases columns.len(),
{
    if columns.len() > 0 {
        let shorter = columns.drop_last();
        lemma_conditions_on_columns(shorter, clauses);
        let found = conditions_for(columns, clauses);
        assert forall|i: int| 0 <= i < found.len() implies columns.contains(
            #[trigger] found[i].column,
        ) by {
            if i < conditions_for(shorter, clauses).len() {
                let c = conditions_for(shorter, clauses)[i].column;
                assert(shorter.contains(c));
                let k = choose|k: int| 0 <= k < shorter.len() && shorter[k] == c;
                assert(columns[k] == c);
            } else {
                assert(found[i].column == columns[columns.len() - 1]);
            }
        }
    }
}

} // verus!
