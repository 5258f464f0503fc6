//! Composite keys: a cargo is identified by its namespace and its name,
//! joined by a reserved delimiter that a name may never contain.

use vstd::prelude::*;
use vstd::string::*;

verus! {

/// The character that separates the namespace from the name inside a key.
pub const DELIMITER: char = '.';

/// The key of the cargo called `name` in `namespace`.
pub open spec fn key_of(namespace: Seq<char>, name: Seq<char>) -> Seq<char> {
    namespace + seq![DELIMITER] + name
}

/// A name is valid when the delimiter does not occur in it.
pub open spec fn valid_name(name: Seq<char>) -> bool {
    !name.contains(DELIMITER)
}

/// Tells whether `name` may be used as the name of a cargo.
pub fn is_valid_name(name: &str) -> (ok: bool)
    ensures
        ok == valid_name(name@),
{
    let mut ok = true;
    for c in it: name.chars()
        invariant
            it.seq() == name@,
            ok == (forall|j: int| 0 <= j < it.index() ==> name@[j] != DELIMITER),
    {
        if c == DELIMITER {
            ok = false;
        }
    }
    ok
}

/// Builds the key of the cargo called `name` in `namespace`.
pub fn gen_key(namespace: &str, name: &str) -> (key: String)
    ensures
        key@ == key_of(namespace@, name@),
{
    let mut key = String::from_str(namespace);
    key.append(".");
    key.append(name);
    proof {
        reveal_strlit(".");
        assert("."@ =~= seq![DELIMITER]);
    }
    key
}

/// Within one namespace, two different names have two different keys.
pub proof fn lemma_names_have_own_keys(namespace: Seq<char>, a: Seq<char>, b: Seq<char>)
    requires
        a != b,
    ensures
        key_of(namespace, a) != key_of(namespace, b),
{
    let start = namespace.len() + 1;
    assert(key_of(namespace, a).skip(start as int) =~= a);
    assert(key_of(namespace, b).skip(start as int) =~= b);
}

/// A key determines the namespace and the name that it was built from, as
/// long as the names are valid: no two cargoes share a key.
pub proof fn lemma_key_determines_parts(
    namespace_a: Seq<char>,
    name_a: Seq<char>,
    namespace_b: Seq<char>,
    name_b: Seq<char>,
)
    requires
        valid_name(name_a),
        valid_name(name_b),
        key_of(namespace_a, name_a) == key_of(namespace_b, name_b),
    ensures
        namespace_a == namespace_b,
        name_a == name_b,
{
    let key = key_of(namespace_a, name_a);
    let a = namespace_a.len() as int;
    let b = namespace_b.len() as int;
    assert(key.len() == a + 1 + name_a.len());
    assert(key.len() == b + 1 + name_b.len());
    assert(key[a] == DELIMITER);
    assert(key_of(namespace_b, name_b)[b] == DELIMITER);
    if a < b {
        assert(key_of(namespace_a, name_a)[b] == name_a[b - a - 1]);
        assert(name_a.contains(DELIMITER));
    } else if b < a {
        assert(key_of(namespace_b, name_b)[a] == name_b[a - b - 1]);
        assert(name_b.contains(DELIMITER));
    } else {
        assert(key_of(namespace_a, name_a).take(a) =~= namespace_a);
        assert(key_of(namespace_b, name_b).take(b) =~= namespace_b);
        assert(key_of(namespace_a, name_a).skip(a + 1) =~= name_a);
        assert(key_of(namespace_b, name_b).skip(b + 1) =~= name_b);
    }
}

} // verus!
