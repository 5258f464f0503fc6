//! Filters: a description of which rows a read should return, passed around
//! as data. A filter maps field names to clauses and may bound the result.

use vstd::prelude::*;

verus! {

/// The character sequences of a list of strings.
pub open spec fn texts(items: Seq<String>) -> Seq<Seq<char>> {
    Seq::new(items.len(), |i: int| items[i]@)
}

/// Copies a list of strings.
pub fn clone_texts(items: &Vec<String>) -> (copy: Vec<String>)
    ensures
        texts(copy@) == texts(items@),
{
    let mut copy: Vec<String> = Vec::new();
    let mut i: usize = 0;
    while i < items.len()
        invariant
            i <= items.len(),
            copy.len() == i,
            forall|j: int| 0 <= j < i ==> copy[j]@ == items[j]@,
        decreases items.len() - i,
    {
        copy.push(items[i].clone());
        i = i + 1;
    }
    assert(texts(copy@) =~= texts(items@));
    copy
}

/// One constraint on a field.
#[derive(Debug)]
pub enum GenericClause {
    /// Equal to the value.
    Eq(String),
    /// Not equal to the value.
    Ne(String),
    /// Greater than the value.
    Gt(String),
    /// Less than the value.
    Lt(String),
    /// Greater than or equal to the value.
    Ge(String),
    /// Less than or equal to the value.
    Le(String),
    /// Matches the pattern.
    Like(String),
    /// Does not match the pattern.
    NotLike(String),
    /// Is one of the values.
    In(Vec<String>),
    /// Is none of the values.
    NotIn(Vec<String>),
    /// Is null.
    IsNull,
    /// Is not null.
    IsNotNull,
    /// A JSON field contains the value, given as JSON text.
    Contains(String),
    /// A JSON field has the key.
    HasKey(String),
}

/// The view of a [`GenericClause`].
pub ghost enum Clause {
    Eq(Seq<char>),
    Ne(Seq<char>),
    Gt(Seq<char>),
    Lt(Seq<char>),
    Ge(Seq<char>),
    Le(Seq<char>),
    Like(Seq<char>),
    NotLike(Seq<char>),
    In(Seq<Seq<char>>),
    NotIn(Seq<Seq<char>>),
    IsNull,
    IsNotNull,
    Contains(Seq<char>),
    HasKey(Seq<char>),
}

impl View for GenericClause {
    type V = Clause;

    open spec fn view(&self) -> Clause {
        match self {
            GenericClause::Eq(v) => Clause::Eq(v@),
            GenericClause::Ne(v) => Clause::Ne(v@),
            GenericClause::Gt(v) => Clause::Gt(v@),
            GenericClause::Lt(v) => Clause::Lt(v@),
            GenericClause::Ge(v) => Clause::Ge(v@),
            GenericClause::Le(v) => Clause::Le(v@),
            GenericClause::Like(v) => Clause::Like(v@),
            GenericClause::NotLike(v) => Clause::NotLike(v@),
            GenericClause::In(items) => Clause::In(texts(items@)),
            GenericClause::NotIn(items) => Clause::NotIn(texts(items@)),
            GenericClause::IsNull => Clause::IsNull,
            GenericClause::IsNotNull => Clause::IsNotNull,
            GenericClause::Contains(v) => Clause::Contains(v@),
            GenericClause::HasKey(v) => Clause::HasKey(v@),
        }
    }
}

impl Clone for GenericClause {
    fn clone(&self) -> (clause: Self)
        ensures
            clause@ == self@,
    {
        match self {
            GenericClause::Eq(v) => GenericClause::Eq(v.clone()),
            GenericClause::Ne(v) => GenericClause::Ne(v.clone()),
            GenericClause::Gt(v) => GenericClause::Gt(v.clone()),
            GenericClause::Lt(v) => GenericClause::Lt(v.clone()),
            GenericClause::Ge(v) => GenericClause::Ge(v.clone()),
            GenericClause::Le(v) => GenericClause::Le(v.clone()),
            GenericClause::Like(v) => GenericClause::Like(v.clone()),
            GenericClause::NotLike(v) => GenericClause::NotLike(v.clone()),
            GenericClause::In(items) => GenericClause::In(clone_texts(items)),
            GenericClause::NotIn(items) => GenericClause::NotIn(clone_texts(items)),
            GenericClause::IsNull => GenericClause::IsNull,
            GenericClause::IsNotNull => GenericClause::IsNotNull,
            GenericClause::Contains(v) => GenericClause::Contains(v.clone()),
            GenericClause::HasKey(v) => GenericClause::HasKey(v.clone()),
        }
    }
}

/// A field name with the clause set for it.
#[derive(Debug)]
pub struct WhereEntry {
    pub field: String,
    pub clause: GenericClause,
}

impl Clone for WhereEntry {
    fn clone(&self) -> (entry: Self)
        ensures
            entry.field@ == self.field@,
            entry.clause@ == self.clause@,
    {
        WhereEntry { field: self.field.clone(), clause: self.clause.clone() }
    }
}

/// The clauses that a list of entries sets: where a field is named more than
/// once, the entry that comes last counts.
pub open spec fn clauses_of(entries: Seq<WhereEntry>) -> Map<Seq<char>, Clause>
    decreases entries.len(),
{
    if entries.len() == 0 {
        Map::empty()
    } else {
        clauses_of(entries.drop_last()).insert(entries.last().field@, entries.last().clause@)
    }
}

/// A filter for read operations.
#[derive(Debug)]
pub struct GenericFilter {
    entries: Vec<WhereEntry>,
    limit: Option<usize>,
    offset: Option<usize>,
}

/// The view of a [`GenericFilter`].
pub ghost struct FilterView {
    /// The clause set for each constrained field.
    pub clauses: Map<Seq<char>, Clause>,
    /// The largest number of rows to return, if bounded.
    pub limit: Option<usize>,
    /// The number of rows to pass over before the first one returned.
    pub offset: Option<usize>,
}

impl FilterView {
    /// The filter that constrains nothing.
    pub open spec fn empty() -> FilterView {
        FilterView { clauses: Map::empty(), limit: None, offset: None }
    }
}

impl View for GenericFilter {
    type V = FilterView;

    closed spec fn view(&self) -> FilterView {
        FilterView { clauses: clauses_of(self.entries@), limit: self.limit, offset: self.offset }
    }
}

impl Default for GenericFilter {
    fn default() -> (filter: Self)
        ensures
            filter@ == FilterView::empty(),
    {
        GenericFilter::new()
    }
}

impl Clone for GenericFilter {
    fn clone(&self) -> (filter: Self)
        ensures
            filter@ == self@,
    {
        let mut entries: Vec<WhereEntry> = Vec::new();
        let mut i: usize = 0;
        assert(self.entries@.take(0) =~= entries@);
        while i < self.entries.len()
            invariant
                i <= self.entries.len(),
                entries.len() == i,
                clauses_of(entries@) == clauses_of(self.entries@.take(i as int)),
            decreases self.entries.len() - i,
        {
            let ghost before = entries@;
            entries.push(self.entries[i].clone());
            proof {
                let next = self.entries@.take(i + 1);
                assert(next.drop_last() == self.entries@.take(i as int));
                assert(entries@.drop_last() == before);
            }
            i = i + 1;
        }
        assert(self.entries@.take(i as int) == self.entries@);
        GenericFilter { entries, limit: self.limit, offset: self.offset }
    }
}

impl GenericFilter {
    /// A filter that constrains nothing.
    pub fn new() -> (filter: Self)
        ensures
            filter@ == FilterView::empty(),
    {
        GenericFilter { entries: Vec::new(), limit: None, offset: None }
    }

    /// Bounds the number of rows.
    pub fn limit(self, limit: usize) -> (filter: Self)
        ensures
            filter@ == (FilterView { limit: Some(limit), ..self@ }),
    {
        GenericFilter { entries: self.entries, limit: Some(limit), offset: self.offset }
    }

    /// Sets the number of rows to pass over.
    pub fn offset(self, offset: usize) -> (filter: Self)
        ensures
            filter@ == (FilterView { offset: Some(offset), ..self@ }),
    {
        GenericFilter { entries: self.entries, limit: self.limit, offset: Some(offset) }
    }

    /// The largest number of rows to return, if bounded.
    pub fn row_limit(&self) -> (limit: Option<usize>)
        ensures
            limit == self@.limit,
    {
        self.limit
    }

    /// The number of rows to pass over, if set.
    pub fn row_offset(&self) -> (offset: Option<usize>)
        ensures
            offset == self@.offset,
    {
        self.offset
    }

    /// Sets the clause for `field`, in place of any clause set for it before.
    pub fn with_where(self, field: &str, clause: GenericClause) -> (filter: Self)
        ensures
            filter@ == (FilterView {
                clauses: self@.clauses.insert(field@, clause@),
                ..self@
            }),
    {
        let mut entries = self.entries;
        let ghost before = entries@;
        entries.push(WhereEntry { field: field.to_owned(), clause });
        assert(entries@.drop_last() == before);
        GenericFilter { entries, limit: self.limit, offset: self.offset }
    }

    /// The clause set for `field`, if there is one.
    pub fn get(&self, field: &str) -> (found: Option<&GenericClause>)
        ensures
            match found {
                Some(clause) => self@.clauses.contains_key(field@) && self@.clauses[field@]
                    == clause@,
                None => !self@.clauses.contains_key(field@),
            },
    {
        let wanted = field.to_owned();
        let mut i: usize = self.entries.len();
        assert(self.entries@.take(i as int) == self.entries@);
        while i > 0
            invariant
                i <= self.entries.len(),
                wanted@ == field@,
                clauses_of(self.entries@).contains_key(field@) <==> clauses_of(
                    self.entries@.take(i as int),
                ).contains_key(field@),
                clauses_of(self.entries@).contains_key(field@) ==> clauses_of(self.entries@)[field@]
                    == clauses_of(self.entries@.take(i as int))[field@],
            decreases i,
        {
            let ghost prefix = self.entries@.take(i as int);
            assert(prefix.drop_last() == self.entries@.take(i - 1));
            assert(prefix.last() == self.entries@[i - 1]);
            assert(clauses_of(prefix) == clauses_of(prefix.drop_last()).insert(
                prefix.last().field@,
                prefix.last().clause@,
            ));
            i = i - 1;
            if self.entries[i].field == wanted {
                return Some(&self.entries[i].clause);
            }
        }
        assert(self.entries@.take(0).len() == 0);
        None
    }
}

} // verus!
