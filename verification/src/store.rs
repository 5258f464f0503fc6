//! The relations of the data-access layer and what each capability does to
//! them: namespaces, specs and cargoes, with their keys and references.
//!
//! [`StoreView`] states the rules of the relations as mathematics. [`Store`]
//! keeps the relations in memory and follows those rules exactly; a store
//! on disk is held to the same rules by its own constraints.

use crate::error::RepoError;
use crate::filter::texts;
use crate::models::{CargoDb, CargoPatch, CargoRow, CargoUpdateDb, SpecDb, SpecRow};
use vstd::prelude::*;

verus! {

/// The rows of the three relations, each in the order of insertion.
pub ghost struct StoreView {
    pub namespaces: Seq<Seq<char>>,
    pub specs: Seq<SpecRow>,
    pub cargoes: Seq<CargoRow>,
}

/// The views of a list of spec rows.
pub open spec fn spec_rows(rows: Seq<SpecDb>) -> Seq<SpecRow> {
    Seq::new(rows.len(), |i: int| rows[i]@)
}

/// The views of a list of cargo rows.
pub open spec fn cargo_rows(rows: Seq<CargoDb>) -> Seq<CargoRow> {
    Seq::new(rows.len(), |i: int| rows[i]@)
}

impl StoreView {
    /// The store with no rows.
    pub open spec fn empty() -> StoreView {
        StoreView { namespaces: Seq::empty(), specs: Seq::empty(), cargoes: Seq::empty() }
    }

    /// The primary keys of the specs, row by row.
    pub open spec fn spec_keys(self) -> Seq<Seq<char>> {
        Seq::new(self.specs.len(), |i: int| self.specs[i].key)
    }

    /// The primary keys of the cargoes, row by row.
    pub open spec fn cargo_keys(self) -> Seq<Seq<char>> {
        Seq::new(self.cargoes.len(), |i: int| self.cargoes[i].key)
    }

    pub open spec fn has_namespace(self, name: Seq<char>) -> bool {
        self.namespaces.contains(name)
    }

    pub open spec fn has_spec(self, key: Seq<char>) -> bool {
        self.spec_keys().contains(key)
    }

    pub open spec fn has_cargo(self, key: Seq<char>) -> bool {
        self.cargo_keys().contains(key)
    }

    /// The spec with the given key; arbitrary if there is none.
    pub open spec fn spec(self, key: Seq<char>) -> SpecRow {
        self.specs[self.spec_keys().index_of(key)]
    }

    /// The cargo with the given key; arbitrary if there is none.
    pub open spec fn cargo(self, key: Seq<char>) -> CargoRow {
        self.cargoes[self.cargo_keys().index_of(key)]
    }

    /// The rules of the relations: no primary key occurs twice, and every
    /// cargo refers to a namespace and to a spec that exist.
    pub open spec fn wf(self) -> bool {
        &&& self.namespaces.no_duplicates()
        &&& self.spec_keys().no_duplicates()
        &&& self.cargo_keys().no_duplicates()
        &&& forall|i: int|
            0 <= i < self.cargoes.len() ==> self.has_namespace(
                (#[trigger] self.cargoes[i]).namespace_name,
            ) && self.has_spec(self.cargoes[i].spec_key)
    }

    /// Creating a namespace: refused if the name is taken.
    pub open spec fn after_create_namespace(self, name: Seq<char>) -> Result<StoreView, RepoError> {
        if self.has_namespace(name) {
            Err(RepoError::Conflict)
        } else {
            Ok(StoreView { namespaces: self.namespaces.push(name), ..self })
        }
    }

    /// Creating a spec: refused if the key is taken. Specs are only ever
    /// added: no operation changes or removes one.
    pub open spec fn after_create_spec(self, row: SpecRow) -> Result<StoreView, RepoError> {
        if self.has_spec(row.key) {
            Err(RepoError::Conflict)
        } else {
            Ok(StoreView { specs: self.specs.push(row), ..self })
        }
    }

    /// A cargo row may stand in the relation: its namespace and its spec
    /// exist.
    pub open spec fn admits(self, row: CargoRow) -> bool {
        self.has_namespace(row.namespace_name) && self.has_spec(row.spec_key)
    }

    /// Creating a cargo: refused if the key is taken or if the namespace or
    /// the spec that the row refers to does not exist.
    pub open spec fn after_create_cargo(self, row: CargoRow) -> Result<StoreView, RepoError> {
        if self.has_cargo(row.key) || !self.admits(row) {
            Err(RepoError::Conflict)
        } else {
            Ok(StoreView { cargoes: self.cargoes.push(row), ..self })
        }
    }

    /// Patching the cargo with the given key: not found if no cargo has
    /// the key; refused if the patched row would take the key of another
    /// cargo or refer to a namespace or a spec that does not exist.
    pub open spec fn after_update_cargo(self, key: Seq<char>, patch: CargoPatch) -> Result<
        StoreView,
        RepoError,
    > {
        if !self.has_cargo(key) {
            Err(RepoError::NotFound)
        } else {
            let row = patch.apply(self.cargo(key));
            if (row.key != key && self.has_cargo(row.key)) || !self.admits(row) {
                Err(RepoError::Conflict)
            } else {
                Ok(
                    StoreView {
                        cargoes: self.cargoes.update(self.cargo_keys().index_of(key), row),
                        ..self
                    },
                )
            }
        }
    }

    /// Deleting the cargo with the given key: not found if no cargo has the
    /// key.
    pub open spec fn after_delete_cargo(self, key: Seq<char>) -> Result<StoreView, RepoError> {
        if !self.has_cargo(key) {
            Err(RepoError::NotFound)
        } else {
            Ok(StoreView { cargoes: self.cargoes.remove(self.cargo_keys().index_of(key)), ..self })
        }
    }
}

/// In a list without duplicates an item stands at one index only.
pub proof fn lemma_index_of_unique(keys: Seq<Seq<char>>, i: int)
    requires
        keys.no_duplicates(),
        0 <= i < keys.len(),
    ensures
        keys.contains(keys[i]),
        keys.index_of(keys[i]) == i,
{
}

/// A list without duplicates stays so when an item that it lacks is added.
pub proof fn lemma_push_keeps_distinct(keys: Seq<Seq<char>>, key: Seq<char>)
    requires
        keys.no_duplicates(),
        !keys.contains(key),
    ensures
        keys.push(key).no_duplicates(),
{
    let longer = keys.push(key);
    assert forall|i: int, j: int|
        0 <= i < longer.len() && 0 <= j < longer.len() && i != j implies longer[i] != longer[j] by {
        if i < keys.len() && j < keys.len() {
        } else if i < keys.len() {
            assert(keys[i] == longer[i]);
        } else {
            assert(keys[j] == longer[j]);
        }
    }
}

/// A list without duplicates stays so when one item is replaced by itself or
/// by an item that the list lacks.
pub proof fn lemma_update_keeps_distinct(keys: Seq<Seq<char>>, i: int, key: Seq<char>)
    requires
        keys.no_duplicates(),
        0 <= i < keys.len(),
        key == keys[i] || !keys.contains(key),
    ensures
        keys.update(i, key).no_duplicates(),
{
    let changed = keys.update(i, key);
    assert forall|a: int, b: int|
        0 <= a < changed.len() && 0 <= b < changed.len() && a != b implies changed[a]
        != changed[b] by {
        if a == i {
            assert(keys[b] == changed[b]);
        } else if b == i {
            assert(keys[a] == changed[a]);
        }
    }
}

/// A list without duplicates stays so when an item is removed.
pub proof fn lemma_remove_keeps_distinct(keys: Seq<Seq<char>>, i: int)
    requires
        keys.no_duplicates(),
        0 <= i < keys.len(),
    ensures
        keys.remove(i).no_duplicates(),
        !keys.remove(i).contains(keys[i]),
{
    let shorter = keys.remove(i);
    assert forall|a: int, b: int|
        0 <= a < shorter.len() && 0 <= b < shorter.len() && a != b implies shorter[a]
        != shorter[b] by {
        let x = if a < i { a } else { a + 1 };
        let y = if b < i { b } else { b + 1 };
        assert(shorter[a] == keys[x]);
        assert(shorter[b] == keys[y]);
    }
    assert forall|a: int| 0 <= a < shorter.len() implies shorter[a] != keys[i] by {
        let x = if a < i { a } else { a + 1 };
        assert(shorter[a] == keys[x]);
    }
}

/// A cargo that does not exist can be neither changed nor deleted: both
/// are answered with not found, and the store stays as it is.
pub proof fn lemma_absent_cargo_is_not_found(store: StoreView, key: Seq<char>, patch: CargoPatch)
    requires
        !store.has_cargo(key),
    ensures
        store.after_update_cargo(key, patch) == Err::<StoreView, RepoError>(RepoError::NotFound),
        store.after_delete_cargo(key) == Err::<StoreView, RepoError>(RepoError::NotFound),
{
}

/// Deleting a cargo succeeds once: afterwards no cargo has the key, so a
/// second delete, or an update, of the same key is answered with not found.
pub proof fn lemma_deleted_cargo_is_absent(store: StoreView, key: Seq<char>)
    requires
        store.wf(),
        store.has_cargo(key),
    ensures
        store.after_delete_cargo(key) is Ok,
        !store.after_delete_cargo(key)->Ok_0.has_cargo(key),
        store.after_delete_cargo(key)->Ok_0.after_delete_cargo(key) == Err::<StoreView, RepoError>(
            RepoError::NotFound,
        ),
{
    let at = store.cargo_keys().index_of(key);
    let next = store.after_delete_cargo(key)->Ok_0;
    assert(next.cargo_keys() =~= store.cargo_keys().remove(at));
    lemma_remove_keeps_distinct(store.cargo_keys(), at);
}

/// No store has a cargo before one is created.
pub proof fn lemma_empty_store_has_no_cargo(key: Seq<char>)
    ensures
        StoreView::empty().wf(),
        !StoreView::empty().has_cargo(key),
{
}

/// A spec stays what it is when another spec is added.
pub proof fn lemma_added_spec_keeps_others(store: StoreView, row: SpecRow, key: Seq<char>)
    requires
        store.wf(),
        store.has_spec(key),
        !store.has_spec(row.key),
    ensures
        store.after_create_spec(row) is Ok,
        store.after_create_spec(row)->Ok_0.has_spec(key),
        store.after_create_spec(row)->Ok_0.spec(key) == store.spec(key),
        store.after_create_spec(row)->Ok_0.has_spec(row.key),
        store.after_create_spec(row)->Ok_0.spec(row.key) == row,
{
    let next = store.after_create_spec(row)->Ok_0;
    let at = store.spec_keys().index_of(key);
    assert(next.spec_keys() =~= store.spec_keys().push(row.key));
    lemma_push_keeps_distinct(store.spec_keys(), row.key);
    assert(next.spec_keys()[at] == key);
    lemma_index_of_unique(next.spec_keys(), at);
    let last = store.specs.len() as int;
    assert(next.spec_keys()[last] == row.key);
    lemma_index_of_unique(next.spec_keys(), last);
}

/// The specs are a history: whatever one operation does to the store,
/// every spec that was there is still there, unchanged.
pub open spec fn keeps_specs(before: StoreView, after: StoreView) -> bool {
    forall|key: Seq<char>| #[trigger]
        before.has_spec(key) ==> after.has_spec(key) && after.spec(key) == before.spec(key)
}

/// Each operation on the store keeps every spec, whether it succeeds or
/// not.
pub proof fn lemma_operations_keep_specs(
    store: StoreView,
    name: Seq<char>,
    spec: SpecRow,
    cargo: CargoRow,
    key: Seq<char>,
    patch: CargoPatch,
)
    requires
        store.wf(),
    ensures
        store.after_create_namespace(name) matches Ok(next) ==> keeps_specs(store, next),
        store.after_create_spec(spec) matches Ok(next) ==> keeps_specs(store, next),
        store.after_create_cargo(cargo) matches Ok(next) ==> keeps_specs(store, next),
        store.after_update_cargo(key, patch) matches Ok(next) ==> keeps_specs(store, next),
        store.after_delete_cargo(key) matches Ok(next) ==> keeps_specs(store, next),
{
    if let Ok(next) = store.after_create_spec(spec) {
        assert forall|k: Seq<char>| #[trigger] store.has_spec(k) implies next.has_spec(k)
            && next.spec(k) == store.spec(k) by {
            lemma_added_spec_keeps_others(store, spec, k);
        }
    }
}

/// Each operation on the store keeps the rules of the relations: where
/// it succeeds, no primary key occurs twice afterwards, and every cargo
/// still refers to a namespace and to a spec that exist.
pub proof fn lemma_operations_keep_rules(
    store: StoreView,
    name: Seq<char>,
    spec: SpecRow,
    cargo: CargoRow,
    key: Seq<char>,
    patch: CargoPatch,
)
    requires
        store.wf(),
    ensures
        store.after_create_namespace(name) matches Ok(next) ==> next.wf(),
        store.after_create_spec(spec) matches Ok(next) ==> next.wf(),
        store.after_create_cargo(cargo) matches Ok(next) ==> next.wf(),
        store.after_update_cargo(key, patch) matches Ok(next) ==> next.wf(),
        store.after_delete_cargo(key) matches Ok(next) ==> next.wf(),
{
    if let Ok(next) = store.after_create_namespace(name) {
        lemma_push_keeps_distinct(store.namespaces, name);
        assert forall|i: int| 0 <= i < next.cargoes.len() implies next.admits(
            #[trigger] next.cargoes[i],
        ) by {
            let k = store.namespaces.index_of(store.cargoes[i].namespace_name);
            assert(next.namespaces[k] == store.cargoes[i].namespace_name);
        }
    }
    if let Ok(next) = store.after_create_spec(spec) {
        assert(next.spec_keys() =~= store.spec_keys().push(spec.key));
        lemma_push_keeps_distinct(store.spec_keys(), spec.key);
        assert forall|i: int| 0 <= i < next.cargoes.len() implies next.admits(
            #[trigger] next.cargoes[i],
        ) by {
            let k = store.spec_keys().index_of(store.cargoes[i].spec_key);
            assert(next.spec_keys()[k] == store.cargoes[i].spec_key);
        }
    }
    if let Ok(next) = store.after_create_cargo(cargo) {
        assert(next.cargo_keys() =~= store.cargo_keys().push(cargo.key));
        lemma_push_keeps_distinct(store.cargo_keys(), cargo.key);
        assert forall|i: int| 0 <= i < next.cargoes.len() implies next.admits(
            #[trigger] next.cargoes[i],
        ) by {
            if i < store.cargoes.len() {
                assert(store.admits(store.cargoes[i]));
            }
        }
    }
    if let Ok(next) = store.after_update_cargo(key, patch) {
        let at = store.cargo_keys().index_of(key);
        let row = patch.apply(store.cargo(key));
        assert(store.cargo_keys()[at] == key);
        assert(next.cargo_keys() =~= store.cargo_keys().update(at, row.key));
        lemma_update_keeps_distinct(store.cargo_keys(), at, row.key);
        assert forall|i: int| 0 <= i < next.cargoes.len() implies next.admits(
            #[trigger] next.cargoes[i],
        ) by {
            if i != at {
                assert(store.admits(store.cargoes[i]));
            }
        }
    }
    if let Ok(next) = store.after_delete_cargo(key) {
        let at = store.cargo_keys().index_of(key);
        assert(store.cargo_keys()[at] == key);
        assert(next.cargo_keys() =~= store.cargo_keys().remove(at));
        lemma_remove_keeps_distinct(store.cargo_keys(), at);
        assert forall|i: int| 0 <= i < next.cargoes.len() implies next.admits(
            #[trigger] next.cargoes[i],
        ) by {
            let from = if i < at { i } else { i + 1 };
            assert(next.cargoes[i] == store.cargoes[from]);
            assert(store.admits(store.cargoes[from]));
        }
    }
}

/// The relations, kept in memory.
#[derive(Debug)]
pub struct Store {
    pub(crate) namespaces: Vec<String>,
    pub(crate) specs: Vec<SpecDb>,
    pub(crate) cargoes: Vec<CargoDb>,
}

impl View for Store {
    type V = StoreView;

    open(crate) spec fn view(&self) -> StoreView {
        StoreView {
            namespaces: texts(self.namespaces@),
            specs: spec_rows(self.specs@),
            cargoes: cargo_rows(self.cargoes@),
        }
    }
}

impl Store {
    /// The rules of the relations hold of this store.
    pub open spec fn wf(&self) -> bool {
        self@.wf()
    }

    /// A store with no rows.
    pub fn new() -> (store: Self)
        ensures
            store.wf(),
            store@ == StoreView::empty(),
    {
        let store = Store { namespaces: Vec::new(), specs: Vec::new(), cargoes: Vec::new() };
        assert(store@.namespaces =~= Seq::empty());
        assert(store@.specs =~= Seq::empty());
        assert(store@.cargoes =~= Seq::empty());
        store
    }

    /// Tells whether a namespace of that name exists.
    pub fn has_namespace(&self, name: &str) -> (found: bool)
        ensures
            found == self@.has_namespace(name@),
    {
        let wanted = name.to_owned();
        let mut i: usize = 0;
        while i < self.namespaces.len()
            invariant
                i <= self.namespaces.len(),
                wanted@ == name@,
                forall|j: int| 0 <= j < i ==> self.namespaces[j]@ != name@,
            decreases self.namespaces.len() - i,
        {
            if self.namespaces[i] == wanted {
                assert(texts(self.namespaces@)[i as int] == name@);
                return true;
            }
            i = i + 1;
        }
        false
    }

    /// The index of the spec with the given key.
    pub(crate) fn find_spec(&self, key: &str) -> (found: Option<usize>)
        ensures
            match found {
                Some(i) => i < self.specs.len() && self.specs[i as int].key@ == key@,
                None => !self@.has_spec(key@),
            },
    {
        let wanted = key.to_owned();
        let mut i: usize = 0;
        while i < self.specs.len()
            invariant
                i <= self.specs.len(),
                wanted@ == key@,
                forall|j: int| 0 <= j < i ==> self.specs[j].key@ != key@,
            decreases self.specs.len() - i,
        {
            if self.specs[i].key == wanted {
                return Some(i);
            }
            i = i + 1;
        }
        None
    }

    /// The index of the cargo with the given key.
    pub(crate) fn find_cargo(&self, key: &str) -> (found: Option<usize>)
        ensures
            match found {
                Some(i) => i < self.cargoes.len() && self.cargoes[i as int].key@ == key@,
                None => !self@.has_cargo(key@),
            },
    {
        let wanted = key.to_owned();
        let mut i: usize = 0;
        while i < self.cargoes.len()
            invariant
                i <= self.cargoes.len(),
                wanted@ == key@,
                forall|j: int| 0 <= j < i ==> self.cargoes[j].key@ != key@,
            decreases self.cargoes.len() - i,
        {
            if self.cargoes[i].key == wanted {
                return Some(i);
            }
            i = i + 1;
        }
        None
    }

    /// Tells whether a spec with that key exists.
    pub fn has_spec(&self, key: &str) -> (found: bool)
        ensures
            found == self@.has_spec(key@),
    {
        match self.find_spec(key) {
            Some(i) => {
                assert(self@.spec_keys()[i as int] == key@);
                true
            },
            None => false,
        }
    }

    /// Tells whether a cargo with that key exists.
    pub fn has_cargo(&self, key: &str) -> (found: bool)
        ensures
            found == self@.has_cargo(key@),
    {
        match self.find_cargo(key) {
            Some(i) => {
                assert(self@.cargo_keys()[i as int] == key@);
                true
            },
            None => false,
        }
    }

    /// Creates a namespace.
    pub fn create_namespace(&mut self, name: &str) -> (outcome: Result<(), RepoError>)
        requires
            old(self).wf(),
        ensures
            final(self).wf(),
            match old(self)@.after_create_namespace(name@) {
                Ok(next) => outcome is Ok && final(self)@ == next,
                Err(e) => outcome == Err::<(), RepoError>(e) && final(self)@ == old(self)@,
            },
    {
        if self.has_namespace(name) {
            return Err(RepoError::Conflict);
        }
        let ghost before = self@;
        self.namespaces.push(name.to_owned());
        proof {
            assert(self@.namespaces =~= before.namespaces.push(name@));
            assert(self@.specs == before.specs);
            assert(self@.cargoes == before.cargoes);
            lemma_push_keeps_distinct(before.namespaces, name@);
            assert forall|i: int| 0 <= i < self@.cargoes.len() implies self@.has_namespace(
                (#[trigger] self@.cargoes[i]).namespace_name,
            ) by {
                let name = before.cargoes[i].namespace_name;
                let k = before.namespaces.index_of(name);
                assert(self@.namespaces[k] == name);
            }
        }
        Ok(())
    }

    /// Creates a spec and returns the row as stored.
    pub fn create_spec(&mut self, row: SpecDb) -> (outcome: Result<SpecDb, RepoError>)
        requires
            old(self).wf(),
        ensures
            final(self).wf(),
            match old(self)@.after_create_spec(row@) {
                Ok(next) => final(self)@ == next && (outcome matches Ok(stored) && stored@
                    == row@),
                Err(e) => outcome == Err::<SpecDb, RepoError>(e) && final(self)@ == old(self)@,
            },
    {
        if self.has_spec(row.key.as_str()) {
            return Err(RepoError::Conflict);
        }
        let ghost before = self@;
        self.specs.push(row.clone());
        proof {
            assert(self@.specs =~= before.specs.push(row@));
            assert(self@.namespaces == before.namespaces);
            assert(self@.cargoes == before.cargoes);
            assert(self@.spec_keys() =~= before.spec_keys().push(row@.key));
            lemma_push_keeps_distinct(before.spec_keys(), row@.key);
            assert forall|i: int| 0 <= i < self@.cargoes.len() implies self@.has_spec(
                (#[trigger] self@.cargoes[i]).spec_key,
            ) by {
                let key = before.cargoes[i].spec_key;
                let k = before.spec_keys().index_of(key);
                assert(self@.spec_keys()[k] == key);
            }
        }
        Ok(row)
    }

    /// Creates a cargo and returns the row as stored.
    pub fn create_cargo(&mut self, row: CargoDb) -> (outcome: Result<CargoDb, RepoError>)
        requires
            old(self).wf(),
        ensures
            final(self).wf(),
            match old(self)@.after_create_cargo(row@) {
                Ok(next) => final(self)@ == next && (outcome matches Ok(stored) && stored@
                    == row@),
                Err(e) => outcome == Err::<CargoDb, RepoError>(e) && final(self)@ == old(self)@,
            },
    {
        if self.has_cargo(row.key.as_str()) || !self.has_namespace(row.namespace_name.as_str())
            || !self.has_spec(row.spec_key.as_str()) {
            return Err(RepoError::Conflict);
        }
        let ghost before = self@;
        self.cargoes.push(row.clone());
        proof {
            assert(self@.cargoes =~= before.cargoes.push(row@));
            assert(self@.namespaces == before.namespaces);
            assert(self@.specs == before.specs);
            assert(self@.cargo_keys() =~= before.cargo_keys().push(row@.key));
            lemma_push_keeps_distinct(before.cargo_keys(), row@.key);
        }
        Ok(row)
    }

    /// Applies a patch to the cargo with the given key: a field that the
    /// patch leaves out keeps its value.
    pub fn update_cargo_by_pk(&mut self, key: &str, patch: &CargoUpdateDb) -> (outcome: Result<
        (),
        RepoError,
    >)
        requires
            old(self).wf(),
        ensures
            final(self).wf(),
            match old(self)@.after_update_cargo(key@, patch@) {
                Ok(next) => outcome is Ok && final(self)@ == next,
                Err(e) => outcome == Err::<(), RepoError>(e) && final(self)@ == old(self)@,
            },
    {
        let ghost before = self@;
        match self.find_cargo(key) {
            None => Err(RepoError::NotFound),
            Some(i) => {
                proof {
                    assert(before.cargo_keys()[i as int] == key@);
                    lemma_index_of_unique(before.cargo_keys(), i as int);
                }
                let row = patch.apply_to(&self.cargoes[i]);
                let moved = row.key != self.cargoes[i].key;
                if (moved && self.has_cargo(row.key.as_str())) || !self.has_namespace(
                    row.namespace_name.as_str(),
                ) || !self.has_spec(row.spec_key.as_str()) {
                    return Err(RepoError::Conflict);
                }
                let ghost new_row = row@;
                self.cargoes.set(i, row);
                proof {
                    assert(self@.cargoes =~= before.cargoes.update(i as int, new_row));
                    assert(self@.namespaces == before.namespaces);
                    assert(self@.specs == before.specs);
                    assert(self@.cargo_keys() =~= before.cargo_keys().update(
                        i as int,
                        new_row.key,
                    ));
                    lemma_update_keeps_distinct(before.cargo_keys(), i as int, new_row.key);
                    assert forall|j: int| 0 <= j < self@.cargoes.len() implies self@.admits(
                        #[trigger] self@.cargoes[j],
                    ) by {
                        if j != i {
                            assert(self@.cargoes[j] == before.cargoes[j]);
                        }
                    }
                }
                Ok(())
            },
        }
    }

    /// Removes the cargo with the given key.
    pub fn delete_cargo_by_pk(&mut self, key: &str) -> (outcome: Result<(), RepoError>)
        requires
            old(self).wf(),
        ensures
            final(self).wf(),
            match old(self)@.after_delete_cargo(key@) {
                Ok(next) => outcome is Ok && final(self)@ == next,
                Err(e) => outcome == Err::<(), RepoError>(e) && final(self)@ == old(self)@,
            },
    {
        let ghost before = self@;
        match self.find_cargo(key) {
            None => Err(RepoError::NotFound),
            Some(i) => {
                proof {
                    assert(before.cargo_keys()[i as int] == key@);
                    lemma_index_of_unique(before.cargo_keys(), i as int);
                }
                let _ = self.cargoes.remove(i);
                proof {
                    assert(self@.cargoes =~= before.cargoes.remove(i as int));
                    assert(self@.namespaces == before.namespaces);
                    assert(self@.specs == before.specs);
                    assert(self@.cargo_keys() =~= before.cargo_keys().remove(i as int));
                    lemma_remove_keeps_distinct(before.cargo_keys(), i as int);
                    assert forall|j: int| 0 <= j < self@.cargoes.len() implies self@.admits(
                        #[trigger] self@.cargoes[j],
                    ) by {
                        if j < i {
                            assert(self@.cargoes[j] == before.cargoes[j]);
                        } else {
                            assert(self@.cargoes[j] == before.cargoes[j + 1]);
                        }
                    }
                }
                Ok(())
            },
        }
    }

    /// Reads the spec with the given key.
    pub fn read_spec_by_pk(&self, key: &str) -> (outcome: Result<SpecDb, RepoError>)
        requires
            self.wf(),
        ensures
            match outcome {
                Ok(row) => self@.has_spec(key@) && row@ == self@.spec(key@),
                Err(e) => !self@.has_spec(key@) && e == RepoError::NotFound,
            },
    {
        match self.find_spec(key) {
            None => Err(RepoError::NotFound),
            Some(i) => {
                proof {
                    assert(self@.spec_keys()[i as int] == key@);
                    lemma_index_of_unique(self@.spec_keys(), i as int);
                }
                Ok(self.specs[i].clone())
            },
        }
    }

    /// The number of rows in each relation: namespaces, specs, cargoes.
    pub fn sizes(&self) -> (sizes: (usize, usize, usize))
        ensures
            sizes.0 == self@.namespaces.len(),
            sizes.1 == self@.specs.len(),
            sizes.2 == self@.cargoes.len(),
    {
        (self.namespaces.len(), self.specs.len(), self.cargoes.len())
    }
}

} // verus!
