//! What a read returns: the rows of the cargo relation, each joined to its
//! current spec, that satisfy the conditions of a query, ordered and bounded
//! as the query says.

use crate::error::RepoError;
use crate::models::{CargoDb, CargoRow, SpecDb, SpecRow};
use crate::query::{condition_views, Condition, ConditionView, QueryView, ReadQuery};
use crate::store::{lemma_index_of_unique, Store, StoreView};
use vstd::prelude::*;

verus! {

/// The views of a list of joined rows.
pub open spec fn joined_views(rows: Seq<(CargoDb, SpecDb)>) -> Seq<(CargoRow, SpecRow)> {
    Seq::new(rows.len(), |i: int| (rows[i].0@, rows[i].1@))
}

impl CargoRow {
    /// The text in the column of the given name; `None` if the relation has
    /// no text column of that name.
    pub open spec fn column(self, name: Seq<char>) -> Option<Seq<char>> {
        if name == "key"@ {
            Some(self.key)
        } else if name == "name"@ {
            Some(self.name)
        } else if name == "namespace_name"@ {
            Some(self.namespace_name)
        } else if name == "spec_key"@ {
            Some(self.spec_key)
        } else {
            None
        }
    }

    /// The condition holds of the row. A condition on a column that the
    /// relation lacks constrains nothing.
    pub open spec fn meets(self, condition: ConditionView) -> bool {
        match self.column(condition.column) {
            Some(value) => condition.clause.holds(value),
            None => true,
        }
    }

    /// Every one of the conditions holds of the row.
    pub open spec fn satisfies(self, conditions: Seq<ConditionView>) -> bool {
        forall|i: int| 0 <= i < conditions.len() ==> self.meets(#[trigger] conditions[i])
    }
}

impl CargoDb {
    /// The text in the column of the given name.
    pub fn column(&self, name: &str) -> (value: Option<&String>)
        ensures
            match value {
                Some(text) => self@.column(name@) == Some(text@),
                None => self@.column(name@) is None,
            },
    {
        let wanted = name.to_owned();
        if wanted == "key".to_owned() {
            Some(&self.key)
        } else if wanted == "name".to_owned() {
            Some(&self.name)
        } else if wanted == "namespace_name".to_owned() {
            Some(&self.namespace_name)
        } else if wanted == "spec_key".to_owned() {
            Some(&self.spec_key)
        } else {
            None
        }
    }

    /// Tells whether the condition holds of the row.
    pub fn meets(&self, condition: &Condition) -> (b: bool)
        ensures
            b == self@.meets(condition@),
    {
        match self.column(condition.column.as_str()) {
            Some(value) => condition.clause.accepts(value.as_str()),
            None => true,
        }
    }

    /// Tells whether every one of the conditions holds of the row.
    pub fn satisfies(&self, conditions: &Vec<Condition>) -> (b: bool)
        ensures
            b == self@.satisfies(condition_views(conditions@)),
    {
        let mut i: usize = 0;
        while i < conditions.len()
            invariant
                i <= conditions.len(),
                forall|j: int|
                    0 <= j < i ==> self@.meets(#[trigger] condition_views(conditions@)[j]),
            decreases conditions.len() - i,
        {
            if !self.meets(&conditions[i]) {
                assert(!self@.meets(condition_views(conditions@)[i as int]));
                return false;
            }
            i = i + 1;
        }
        true
    }
}

/// The row `a` was created before the row `b`.
pub open spec fn older(a: (CargoRow, SpecRow), b: (CargoRow, SpecRow)) -> bool {
    a.0.created_at.earlier(b.0.created_at)
}

/// `row` put into a list that is ordered newest first: behind every row
/// that is not older than it.
pub open spec fn placed(ordered: Seq<(CargoRow, SpecRow)>, row: (CargoRow, SpecRow)) -> Seq<
    (CargoRow, SpecRow),
>
    decreases ordered.len(),
{
    if ordered.len() == 0 {
        seq![row]
    } else if older(ordered.last(), row) {
        placed(ordered.drop_last(), row).push(ordered.last())
    } else {
        ordered.push(row)
    }
}

/// The rows ordered by their time of creation, newest first; rows created
/// at the same time keep their order.
pub open spec fn newest_first(rows: Seq<(CargoRow, SpecRow)>) -> Seq<(CargoRow, SpecRow)>
    decreases rows.len(),
{
    if rows.len() == 0 {
        Seq::empty()
    } else {
        placed(newest_first(rows.drop_last()), rows.last())
    }
}

/// No row of the list is older than a row that comes behind it.
pub open spec fn is_newest_first(rows: Seq<(CargoRow, SpecRow)>) -> bool {
    forall|i: int, j: int|
        0 <= i < j < rows.len() ==> !older(#[trigger] rows[i], #[trigger] rows[j])
}

/// The part of the rows that the bounds leave: `offset` rows are passed
/// over, then at most `limit` rows are kept.
pub open spec fn page(
    rows: Seq<(CargoRow, SpecRow)>,
    offset: Option<usize>,
    limit: Option<usize>,
) -> Seq<(CargoRow, SpecRow)> {
    let start = match offset {
        Some(n) => if n <= rows.len() { n as int } else { rows.len() as int },
        None => 0,
    };
    let end = match limit {
        Some(n) => if start + n <= rows.len() { start + n } else { rows.len() as int },
        None => rows.len() as int,
    };
    rows.subrange(start, end)
}

/// The test that a joined row passes when every condition holds of its
/// cargo.
pub open spec fn passes(conditions: Seq<ConditionView>) -> spec_fn((CargoRow, SpecRow)) -> bool {
    |row: (CargoRow, SpecRow)| row.0.satisfies(conditions)
}

impl StoreView {
    /// Every cargo with its current spec, in the order of the cargoes.
    pub open spec fn joined(self) -> Seq<(CargoRow, SpecRow)> {
        Seq::new(
            self.cargoes.len(),
            |i: int| (self.cargoes[i], self.spec(self.cargoes[i].spec_key)),
        )
    }

    /// The joined rows of which every condition holds.
    pub open spec fn selected(self, conditions: Seq<ConditionView>) -> Seq<(CargoRow, SpecRow)> {
        self.joined().filter(passes(conditions))
    }

    /// The rows that a query returns. The store holds the cargo relation
    /// and its join partner and no other, so the relation and the join that
    /// the query names select nothing here.
    pub open spec fn rows_of(self, query: QueryView) -> Seq<(CargoRow, SpecRow)> {
        let found = self.selected(query.conditions);
        let ordered = if query.newest_first { newest_first(found) } else { found };
        page(ordered, query.offset, query.limit)
    }

    /// The number of cargoes of which every condition of the query holds.
    pub open spec fn count_of(self, query: QueryView) -> nat {
        self.selected(query.conditions).len()
    }
}

/// Where a row is placed: at the index behind which every row is older, and
/// before which the nearest row is not.
pub proof fn lemma_placed_at(ordered: Seq<(CargoRow, SpecRow)>, row: (CargoRow, SpecRow), at: int)
    requires
        0 <= at <= ordered.len(),
        forall|k: int| at <= k < ordered.len() ==> older(#[trigger] ordered[k], row),
        at > 0 ==> !older(ordered[at - 1], row),
    ensures
        placed(ordered, row) == ordered.insert(at, row),
    decreases ordered.len() - at,
{
    if at == ordered.len() {
        assert(ordered.insert(at, row) =~= ordered.push(row));
    } else {
        assert(ordered.last() == ordered[ordered.len() - 1]);
        let shorter = ordered.drop_last();
        assert forall|k: int| at <= k < shorter.len() implies older(#[trigger] shorter[k], row) by {
            assert(shorter[k] == ordered[k]);
        }
        if at > 0 {
            assert(shorter[at - 1] == ordered[at - 1]);
        }
        lemma_placed_at(shorter, row, at);
        assert(shorter.insert(at, row).push(ordered.last()) =~= ordered.insert(at, row));
    }
}

/// Placing a row keeps a list ordered, and adds that row and no other.
pub proof fn lemma_placed_is_ordered(ordered: Seq<(CargoRow, SpecRow)>, row: (CargoRow, SpecRow))
    requires
        is_newest_first(ordered),
    ensures
        is_newest_first(placed(ordered, row)),
        placed(ordered, row).len() == ordered.len() + 1,
        placed(ordered, row).to_multiset() == ordered.to_multiset().insert(row),
    decreases ordered.len(),
{
    broadcast use vstd::seq_lib::group_to_multiset_ensures;

    if ordered.len() == 0 {
        assert(ordered =~= Seq::empty());
        assert(seq![row] =~= ordered.push(row));
    } else if older(ordered.last(), row) {
        let shorter = ordered.drop_last();
        let last = ordered.last();
        assert forall|i: int, j: int| 0 <= i < j < shorter.len() implies !older(
            #[trigger] shorter[i],
            #[trigger] shorter[j],
        ) by {
            assert(shorter[i] == ordered[i] && shorter[j] == ordered[j]);
        }
        lemma_placed_is_ordered(shorter, row);
        let inner = placed(shorter, row);
        let result = inner.push(last);
        assert forall|i: int, j: int| 0 <= i < j < result.len() implies !older(
            #[trigger] result[i],
            #[trigger] result[j],
        ) by {
            if j < inner.len() {
                assert(result[i] == inner[i] && result[j] == inner[j]);
            } else {
                assert(result[j] == last);
                assert(result[i] == inner[i]);
                assert(inner.to_multiset().count(inner[i]) > 0);
                if inner[i] != row {
                    assert(shorter.to_multiset().count(inner[i]) > 0);
                    assert(shorter.contains(inner[i]));
                    let k = choose|k: int| 0 <= k < shorter.len() && shorter[k] == inner[i];
                    assert(ordered[k] == inner[i]);
                    assert(!older(ordered[k], ordered[ordered.len() - 1]));
                }
            }
        }
        assert(ordered =~= shorter.push(last));
    } else {
        let result = ordered.push(row);
        let end = ordered.len() - 1;
        assert forall|i: int, j: int| 0 <= i < j < result.len() implies !older(
            #[trigger] result[i],
            #[trigger] result[j],
        ) by {
            if j < ordered.len() {
                assert(result[i] == ordered[i] && result[j] == ordered[j]);
            } else {
                assert(result[i] == ordered[i]);
                assert(i == end || !older(ordered[i], ordered[end]));
            }
        }
    }
}

/// Ordering rows keeps every row, as often as it occurs, and puts no row
/// behind an older one.
pub proof fn lemma_newest_first(rows: Seq<(CargoRow, SpecRow)>)
    ensures
        is_newest_first(newest_first(rows)),
        newest_first(rows).len() == rows.len(),
        newest_first(rows).to_multiset() == rows.to_multiset(),
    decreases rows.len(),
{
    broadcast use vstd::seq_lib::group_to_multiset_ensures;

    if rows.len() == 0 {
        assert(rows =~= Seq::empty());
    } else {
        lemma_newest_first(rows.drop_last());
        lemma_placed_is_ordered(newest_first(rows.drop_last()), rows.last());
        assert(rows =~= rows.drop_last().push(rows.last()));
    }
}

/// Where no item passes the test, nothing is kept.
pub proof fn lemma_filter_none<T>(items: Seq<T>, test: spec_fn(T) -> bool)
    requires
        forall|j: int| 0 <= j < items.len() ==> !test(#[trigger] items[j]),
    ensures
        items.filter(test) == Seq::<T>::empty(),
    decreases items.len(),
{
    if items.len() == 0 {
        items.lemma_filter_len(test);
        assert(items.filter(test) =~= Seq::<T>::empty());
    } else {
        let shorter = items.drop_last();
        assert(items == shorter.push(items.last()));
        shorter.lemma_filter_push(items.last(), test);
        assert forall|j: int| 0 <= j < shorter.len() implies !test(#[trigger] shorter[j]) by {
            assert(shorter[j] == items[j]);
        }
        lemma_filter_none(shorter, test);
        assert(!test(items[items.len() - 1]));
    }
}

/// Where one item alone passes the test, it alone is kept.
pub proof fn lemma_filter_one<T>(items: Seq<T>, test: spec_fn(T) -> bool, at: int)
    requires
        0 <= at < items.len(),
        test(items[at]),
        forall|j: int| 0 <= j < items.len() && j != at ==> !test(#[trigger] items[j]),
    ensures
        items.filter(test) == seq![items[at]],
    decreases items.len(),
{
    let shorter = items.drop_last();
    assert(items == shorter.push(items.last()));
    shorter.lemma_filter_push(items.last(), test);
    if at == items.len() - 1 {
        assert forall|j: int| 0 <= j < shorter.len() implies !test(#[trigger] shorter[j]) by {
            assert(shorter[j] == items[j]);
        }
        lemma_filter_none(shorter, test);
        assert(Seq::<T>::empty().push(items.last()) =~= seq![items[at]]);
    } else {
        assert forall|j: int| 0 <= j < shorter.len() && j != at implies !test(
            #[trigger] shorter[j],
        ) by {
            assert(shorter[j] == items[j]);
        }
        assert(shorter[at] == items[at]);
        lemma_filter_one(shorter, test, at);
        assert(!test(items[items.len() - 1]));
    }
}

/// Orders rows by their time of creation, newest first.
fn order_newest_first(rows: &Vec<(CargoDb, SpecDb)>) -> (ordered: Vec<(CargoDb, SpecDb)>)
    ensures
        joined_views(ordered@) == newest_first(joined_views(rows@)),
{
    let mut ordered: Vec<(CargoDb, SpecDb)> = Vec::new();
    let mut i: usize = 0;
    assert(joined_views(rows@).take(0) =~= Seq::empty());
    assert(joined_views(ordered@) =~= Seq::empty());
    while i < rows.len()
        invariant
            i <= rows.len(),
            joined_views(ordered@) == newest_first(joined_views(rows@).take(i as int)),
        decreases rows.len() - i,
    {
        let row = (rows[i].0.clone(), rows[i].1.clone());
        let mut at: usize = ordered.len();
        while at > 0 && ordered[at - 1].0.created_at.is_earlier(&row.0.created_at)
            invariant
                at <= ordered.len(),
                forall|k: int|
                    at <= k < ordered.len() ==> older(
                        #[trigger] joined_views(ordered@)[k],
                        (row.0@, row.1@),
                    ),
            decreases at,
        {
            at = at - 1;
        }
        proof {
            let before = joined_views(rows@).take(i as int);
            let next = joined_views(rows@).take(i + 1);
            assert(next.drop_last() == before);
            assert(next.last() == (row.0@, row.1@));
            if at > 0 {
                assert(joined_views(ordered@)[at - 1] == (ordered[at - 1].0@, ordered[at - 1].1@));
            }
            lemma_placed_at(joined_views(ordered@), (row.0@, row.1@), at as int);
        }
        let ghost placed_rows = joined_views(ordered@).insert(at as int, (row.0@, row.1@));
        ordered.insert(at, row);
        assert(joined_views(ordered@) =~= placed_rows);
        i = i + 1;
    }
    assert(joined_views(rows@).take(i as int) == joined_views(rows@));
    ordered
}

/// Keeps the part of the rows that the bounds leave.
fn take_page(rows: &Vec<(CargoDb, SpecDb)>, offset: Option<usize>, limit: Option<usize>) -> (kept:
    Vec<(CargoDb, SpecDb)>)
    ensures
        joined_views(kept@) == page(joined_views(rows@), offset, limit),
{
    let start: usize = match offset {
        Some(n) => if n <= rows.len() { n } else { rows.len() },
        None => 0,
    };
    let end: usize = match limit {
        Some(n) => if n <= rows.len() - start { start + n } else { rows.len() },
        None => rows.len(),
    };
    let mut kept: Vec<(CargoDb, SpecDb)> = Vec::new();
    let mut i: usize = start;
    while i < end
        invariant
            start <= i <= end,
            end <= rows.len(),
            kept.len() == i - start,
            forall|k: int|
                0 <= k < kept.len() ==> (kept[k].0@, kept[k].1@) == (
                    rows[start + k].0@,
                    rows[start + k].1@,
                ),
        decreases end - i,
    {
        kept.push((rows[i].0.clone(), rows[i].1.clone()));
        i = i + 1;
    }
    assert(joined_views(kept@) =~= joined_views(rows@).subrange(start as int, end as int));
    kept
}

impl Store {
    /// The joined rows of which every condition holds.
    fn select(&self, conditions: &Vec<Condition>) -> (rows: Vec<(CargoDb, SpecDb)>)
        requires
            self.wf(),
        ensures
            joined_views(rows@) == self@.selected(condition_views(conditions@)),
    {
        let ghost test = passes(condition_views(conditions@));
        let ghost all = self@.joined();
        let mut rows: Vec<(CargoDb, SpecDb)> = Vec::new();
        let mut i: usize = 0;
        proof {
            all.take(0).lemma_filter_len(test);
            assert(all.take(0).filter(test) =~= Seq::empty());
            assert(joined_views(rows@) =~= Seq::empty());
        }
        while i < self.cargoes.len()
            invariant
                i <= self.cargoes.len(),
                self.wf(),
                all == self@.joined(),
                test == passes(condition_views(conditions@)),
                joined_views(rows@) == all.take(i as int).filter(test),
            decreases self.cargoes.len() - i,
        {
            let cargo = &self.cargoes[i];
            proof {
                assert(all.take(i + 1) == all.take(i as int).push(all[i as int]));
                all.take(i as int).lemma_filter_push(all[i as int], test);
                assert(self@.cargoes[i as int] == cargo@);
            }
            if cargo.satisfies(conditions) {
                match self.find_spec(cargo.spec_key.as_str()) {
                    Some(j) => {
                        proof {
                            assert(self@.spec_keys()[j as int] == cargo@.spec_key);
                            lemma_index_of_unique(self@.spec_keys(), j as int);
                        }
                        let ghost before = joined_views(rows@);
                        rows.push((cargo.clone(), self.specs[j].clone()));
                        assert(joined_views(rows@) =~= before.push(all[i as int]));
                    },
                    None => {
                        assert(self@.has_spec(self@.cargoes[i as int].spec_key));
                        assert(false);
                    },
                }
            }
            i = i + 1;
        }
        assert(all.take(i as int) == all);
        rows
    }

    /// Reads the rows that the query asks for: every cargo of which the
    /// conditions hold, joined to its current spec; newest first if the
    /// query says so; within the bounds of the query.
    pub fn read(&self, query: &ReadQuery) -> (rows: Vec<(CargoDb, SpecDb)>)
        requires
            self.wf(),
        ensures
            joined_views(rows@) == self@.rows_of(query@),
    {
        let found = self.select(&query.conditions);
        if query.newest_first {
            let ordered = order_newest_first(&found);
            take_page(&ordered, query.offset, query.limit)
        } else {
            take_page(&found, query.offset, query.limit)
        }
    }

    /// Reads the first of the rows that the query asks for.
    pub fn read_one(&self, query: &ReadQuery) -> (outcome: Result<(CargoDb, SpecDb), RepoError>)
        requires
            self.wf(),
        ensures
            match outcome {
                Ok(row) => self@.rows_of(query@).len() > 0 && (row.0@, row.1@) == self@.rows_of(
                    query@,
                )[0],
                Err(e) => self@.rows_of(query@).len() == 0 && e == RepoError::NotFound,
            },
    {
        let mut rows = self.read(query);
        if rows.len() == 0 {
            Err(RepoError::NotFound)
        } else {
            assert(joined_views(rows@)[0] == (rows[0].0@, rows[0].1@));
            Ok(rows.swap_remove(0))
        }
    }

    /// Counts the cargoes of which every condition of the query holds. The
    /// count is refused where it does not fit the result.
    pub fn count(&self, query: &ReadQuery) -> (outcome: Result<i64, RepoError>)
        requires
            self.wf(),
        ensures
            match outcome {
                Ok(n) => n == self@.count_of(query@),
                Err(e) => self@.count_of(query@) > i64::MAX && e == RepoError::StoreUnavailable,
            },
    {
        let ghost test = passes(query@.conditions);
        let ghost all = self@.joined();
        let mut found: usize = 0;
        let mut i: usize = 0;
        proof {
            all.take(0).lemma_filter_len(test);
        }
        while i < self.cargoes.len()
            invariant
                i <= self.cargoes.len(),
                all == self@.joined(),
                test == passes(query@.conditions),
                found <= i,
                found == all.take(i as int).filter(test).len(),
            decreases self.cargoes.len() - i,
        {
            proof {
                assert(all.take(i + 1) == all.take(i as int).push(all[i as int]));
                all.take(i as int).lemma_filter_push(all[i as int], test);
                assert(self@.cargoes[i as int] == self.cargoes[i as int]@);
            }
            if self.cargoes[i].satisfies(&query.conditions) {
                found = found + 1;
            }
            i = i + 1;
        }
        assert(all.take(i as int) == all);
        let wide: u64 = found as u64;
        if wide > 0x7fff_ffff_ffff_ffff {
            Err(RepoError::StoreUnavailable)
        } else {
            Ok(wide as i64)
        }
    }
}

} // verus!
