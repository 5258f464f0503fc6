//! The rows that the store keeps and the domain objects built from them.
//!
//! Every type that holds text has a view in which each `String` is the
//! sequence of its characters; contracts are stated over those views.

use vstd::prelude::*;

verus! {

/// A point in time: seconds since the Unix epoch, and the nanoseconds
/// within that second.
#[derive(Clone, Copy, Debug, PartialEq, Eq, Structural)]
pub struct Timestamp {
    pub secs: i64,
    pub nanos: u32,
}

impl Timestamp {
    /// `self` lies strictly before `other`.
    pub open spec fn earlier(self, other: Timestamp) -> bool {
        self.secs < other.secs || (self.secs == other.secs && self.nanos < other.nanos)
    }

    /// Tells whether `self` lies strictly before `other`.
    pub fn is_earlier(&self, other: &Timestamp) -> (b: bool)
        ensures
            b == self.earlier(*other),
    {
        self.secs < other.secs || (self.secs == other.secs && self.nanos < other.nanos)
    }
}

/// A stored cargo: the entity row.
#[derive(Debug)]
pub struct CargoDb {
    /// Primary key, derived from namespace and name.
    pub key: String,
    pub created_at: Timestamp,
    pub name: String,
    /// The key of the cargo's current spec.
    pub spec_key: String,
    pub namespace_name: String,
}

/// The view of a [`CargoDb`].
pub ghost struct CargoRow {
    pub key: Seq<char>,
    pub created_at: Timestamp,
    pub name: Seq<char>,
    pub spec_key: Seq<char>,
    pub namespace_name: Seq<char>,
}

impl View for CargoDb {
    type V = CargoRow;

    open spec fn view(&self) -> CargoRow {
        CargoRow {
            key: self.key@,
            created_at: self.created_at,
            name: self.name@,
            spec_key: self.spec_key@,
            namespace_name: self.namespace_name@,
        }
    }
}

impl Clone for CargoDb {
    fn clone(&self) -> (row: Self)
        ensures
            row@ == self@,
    {
        CargoDb {
            key: self.key.clone(),
            created_at: self.created_at,
            name: self.name.clone(),
            spec_key: self.spec_key.clone(),
            namespace_name: self.namespace_name.clone(),
        }
    }
}

/// A partial change of a cargo row: a field that is `None` is left as it is.
#[derive(Debug)]
pub struct CargoUpdateDb {
    pub key: Option<String>,
    pub name: Option<String>,
    pub namespace_name: Option<String>,
    pub spec_key: Option<String>,
}

/// The view of a [`CargoUpdateDb`].
pub ghost struct CargoPatch {
    pub key: Option<Seq<char>>,
    pub name: Option<Seq<char>>,
    pub namespace_name: Option<Seq<char>>,
    pub spec_key: Option<Seq<char>>,
}

/// The view of an optional text.
pub open spec fn text_view(text: Option<String>) -> Option<Seq<char>> {
    match text {
        Some(t) => Some(t@),
        None => None,
    }
}

impl View for CargoUpdateDb {
    type V = CargoPatch;

    open spec fn view(&self) -> CargoPatch {
        CargoPatch {
            key: text_view(self.key),
            name: text_view(self.name),
            namespace_name: text_view(self.namespace_name),
            spec_key: text_view(self.spec_key),
        }
    }
}

impl Default for CargoUpdateDb {
    fn default() -> (patch: Self)
        ensures
            patch@ == (CargoPatch { key: None, name: None, namespace_name: None, spec_key: None }),
    {
        CargoUpdateDb { key: None, name: None, namespace_name: None, spec_key: None }
    }
}

/// A copy of an optional text, or of `current` where there is none.
fn text_or(wanted: &Option<String>, current: &String) -> (text: String)
    ensures
        text@ == match text_view(*wanted) {
            Some(t) => t,
            None => current@,
        },
{
    match wanted {
        Some(t) => t.clone(),
        None => current.clone(),
    }
}

impl CargoUpdateDb {
    /// The row that results from applying this patch to `row`.
    pub fn apply_to(&self, row: &CargoDb) -> (patched: CargoDb)
        ensures
            patched@ == self@.apply(row@),
    {
        CargoDb {
            key: text_or(&self.key, &row.key),
            created_at: row.created_at,
            name: text_or(&self.name, &row.name),
            spec_key: text_or(&self.spec_key, &row.spec_key),
            namespace_name: text_or(&self.namespace_name, &row.namespace_name),
        }
    }
}

impl CargoPatch {
    /// The row that results from applying this patch to `row`.
    pub open spec fn apply(self, row: CargoRow) -> CargoRow {
        CargoRow {
            key: match self.key { Some(k) => k, None => row.key },
            created_at: row.created_at,
            name: match self.name { Some(n) => n, None => row.name },
            spec_key: match self.spec_key { Some(k) => k, None => row.spec_key },
            namespace_name: match self.namespace_name { Some(n) => n, None => row.namespace_name },
        }
    }
}

/// A stored spec: one immutable snapshot of a cargo's configuration.
#[derive(Debug)]
pub struct SpecDb {
    /// Primary key.
    pub key: String,
    pub created_at: Timestamp,
    /// The kind of entity that owns the spec.
    pub kind_name: String,
    /// The key of the entity that owns the spec.
    pub kind_key: String,
    pub version: String,
    /// The configuration, as JSON text.
    pub data: String,
}

/// The view of a [`SpecDb`].
pub ghost struct SpecRow {
    pub key: Seq<char>,
    pub created_at: Timestamp,
    pub kind_name: Seq<char>,
    pub kind_key: Seq<char>,
    pub version: Seq<char>,
    pub data: Seq<char>,
}

impl View for SpecDb {
    type V = SpecRow;

    open spec fn view(&self) -> SpecRow {
        SpecRow {
            key: self.key@,
            created_at: self.created_at,
            kind_name: self.kind_name@,
            kind_key: self.kind_key@,
            version: self.version@,
            data: self.data@,
        }
    }
}

impl Clone for SpecDb {
    fn clone(&self) -> (row: Self)
        ensures
            row@ == self@,
    {
        SpecDb {
            key: self.key.clone(),
            created_at: self.created_at,
            kind_name: self.kind_name.clone(),
            kind_key: self.kind_key.clone(),
            version: self.version.clone(),
            data: self.data.clone(),
        }
    }
}

/// What a caller hands in to create or to change a cargo: its name and its
/// configuration as JSON text.
#[derive(Debug)]
pub struct CargoSpecPartial {
    pub name: String,
    pub data: String,
}

/// The view of a [`CargoSpecPartial`].
pub ghost struct PartialView {
    pub name: Seq<char>,
    pub data: Seq<char>,
}

impl View for CargoSpecPartial {
    type V = PartialView;

    open spec fn view(&self) -> PartialView {
        PartialView { name: self.name@, data: self.data@ }
    }
}

impl Clone for CargoSpecPartial {
    fn clone(&self) -> (item: Self)
        ensures
            item@ == self@,
    {
        CargoSpecPartial { name: self.name.clone(), data: self.data.clone() }
    }
}

/// A spec in its domain shape: the stored row with its configuration resolved.
#[derive(Debug)]
pub struct CargoSpec {
    pub key: String,
    pub cargo_key: String,
    pub version: String,
    pub created_at: Timestamp,
    /// The name that the configuration gives the cargo.
    pub name: String,
    /// The configuration, as JSON text.
    pub data: String,
}

/// The view of a [`CargoSpec`].
pub ghost struct CargoSpecView {
    pub key: Seq<char>,
    pub cargo_key: Seq<char>,
    pub version: Seq<char>,
    pub created_at: Timestamp,
    pub name: Seq<char>,
    pub data: Seq<char>,
}

impl View for CargoSpec {
    type V = CargoSpecView;

    open spec fn view(&self) -> CargoSpecView {
        CargoSpecView {
            key: self.key@,
            cargo_key: self.cargo_key@,
            version: self.version@,
            created_at: self.created_at,
            name: self.name@,
            data: self.data@,
        }
    }
}

impl Clone for CargoSpec {
    fn clone(&self) -> (spec: Self)
        ensures
            spec@ == self@,
    {
        CargoSpec {
            key: self.key.clone(),
            cargo_key: self.cargo_key.clone(),
            version: self.version.clone(),
            created_at: self.created_at,
            name: self.name.clone(),
            data: self.data.clone(),
        }
    }
}

/// A cargo as callers see it: never a bare reference to a spec, always the
/// cargo's current spec itself.
#[derive(Debug)]
pub struct Cargo {
    pub namespace_name: String,
    pub created_at: Timestamp,
    pub spec: CargoSpec,
}

/// The view of a [`Cargo`].
pub ghost struct CargoView {
    pub namespace_name: Seq<char>,
    pub created_at: Timestamp,
    pub spec: CargoSpecView,
}

impl View for Cargo {
    type V = CargoView;

    open spec fn view(&self) -> CargoView {
        CargoView {
            namespace_name: self.namespace_name@,
            created_at: self.created_at,
            spec: self.spec@,
        }
    }
}

impl Clone for Cargo {
    fn clone(&self) -> (cargo: Self)
        ensures
            cargo@ == self@,
    {
        Cargo {
            namespace_name: self.namespace_name.clone(),
            created_at: self.created_at,
            spec: self.spec.clone(),
        }
    }
}

} // verus!
