//! Comparing texts: the order of two texts and the matching of a text
//! against a pattern, as the clauses of a filter need them.
//!
//! These definitions are what the clauses mean to the store in memory:
//! texts are ordered by the code points of their characters, and a pattern
//! knows two wildcards and no escape character. A store on disk decides the
//! same clauses by its own collation and its own pattern rules.

use vstd::prelude::*;

verus! {

/// Matches any run of characters inside a pattern, the empty one too.
pub const ANY_RUN: char = '%';

/// Matches any single character inside a pattern.
pub const ANY_ONE: char = '_';

/// `a` comes before `b` when the two are compared character by character,
/// each character by its code point; a proper prefix comes before the text
/// it begins.
pub open spec fn text_lt(a: Seq<char>, b: Seq<char>) -> bool
    decreases a.len(),
{
    if b.len() == 0 {
        false
    } else if a.len() == 0 {
        true
    } else if a[0] == b[0] {
        text_lt(a.drop_first(), b.drop_first())
    } else {
        a[0] < b[0]
    }
}

/// `text` matches `pattern`: [`ANY_RUN`] stands for any run of characters,
/// [`ANY_ONE`] for any one character, every other character for itself.
pub open spec fn like(text: Seq<char>, pattern: Seq<char>) -> bool
    decreases pattern.len() + text.len(),
{
    if pattern.len() == 0 {
        text.len() == 0
    } else if pattern[0] == ANY_RUN {
        like(text, pattern.drop_first()) || (text.len() > 0 && like(text.drop_first(), pattern))
    } else if text.len() > 0 && (pattern[0] == ANY_ONE || pattern[0] == text[0]) {
        like(text.drop_first(), pattern.drop_first())
    } else {
        false
    }
}

/// No text comes before itself, and of two different texts exactly one
/// comes before the other.
pub proof fn lemma_text_order_is_total(a: Seq<char>, b: Seq<char>)
    ensures
        a == b ==> !text_lt(a, b),
        a != b ==> text_lt(a, b) != text_lt(b, a),
    decreases a.len(),
{
    if a.len() > 0 && b.len() > 0 && a[0] == b[0] {
        lemma_text_order_is_total(a.drop_first(), b.drop_first());
        if a.drop_first() == b.drop_first() {
            assert(a =~= seq![a[0]] + a.drop_first());
            assert(b =~= seq![b[0]] + b.drop_first());
        }
    } else if a.len() == 0 && b.len() == 0 {
        assert(a =~= b);
    }
}

/// What comes before a text comes before every text behind it.
pub proof fn lemma_text_order_is_transitive(a: Seq<char>, b: Seq<char>, c: Seq<char>)
    requires
        text_lt(a, b),
        text_lt(b, c),
    ensures
        text_lt(a, c),
    decreases a.len(),
{
    if a.len() > 0 && a[0] == b[0] && b[0] == c[0] {
        lemma_text_order_is_transitive(a.drop_first(), b.drop_first(), c.drop_first());
    }
}

/// A lone [`ANY_RUN`] matches every text.
pub proof fn lemma_any_run_matches_all(text: Seq<char>)
    ensures
        like(text, seq![ANY_RUN]),
    decreases text.len(),
{
    let pattern = seq![ANY_RUN];
    assert(pattern[0] == ANY_RUN);
    if text.len() > 0 {
        lemma_any_run_matches_all(text.drop_first());
    } else {
        assert(pattern.drop_first().len() == 0);
        assert(like(text, pattern.drop_first()));
    }
}

/// A pattern without wildcards matches itself and no other text.
pub proof fn lemma_plain_pattern_matches_itself_only(text: Seq<char>, pattern: Seq<char>)
    requires
        !pattern.contains(ANY_RUN),
        !pattern.contains(ANY_ONE),
    ensures
        like(text, pattern) == (text == pattern),
    decreases pattern.len(),
{
    if pattern.len() == 0 {
        assert(text.len() == 0 ==> text =~= pattern);
    } else {
        assert(pattern[0] != ANY_RUN && pattern[0] != ANY_ONE);
        let rest = pattern.drop_first();
        assert forall|c: char| rest.contains(c) implies pattern.contains(c) by {
            let i = choose|i: int| 0 <= i < rest.len() && rest[i] == c;
            assert(pattern[i + 1] == c);
        }
        if text.len() > 0 && pattern[0] == text[0] {
            lemma_plain_pattern_matches_itself_only(text.drop_first(), rest);
            if text.drop_first() == rest {
                assert(text =~= seq![text[0]] + text.drop_first());
                assert(pattern =~= seq![pattern[0]] + rest);
            }
        }
    }
}

/// The characters of a text.
pub fn chars_of(text: &str) -> (chars: Vec<char>)
    ensures
        chars@ == text@,
{
    let mut chars: Vec<char> = Vec::new();
    for c in it: text.chars()
        invariant
            it.seq() == text@,
            chars@ == text@.take(it.index() as int),
    {
        chars.push(c);
        assert(chars@ == text@.take(it.index() + 1));
    }
    assert(text@.take(text@.len() as int) == text@);
    chars
}

/// Tells whether `a` comes before `b`.
pub fn is_text_lt(a: &str, b: &str) -> (lt: bool)
    ensures
        lt == text_lt(a@, b@),
{
    let x = chars_of(a);
    let y = chars_of(b);
    let mut i: usize = 0;
    assert(x@.skip(0) == x@ && y@.skip(0) == y@);
    while i < x.len() && i < y.len()
        invariant
            i <= x.len(),
            i <= y.len(),
            x@ == a@,
            y@ == b@,
            text_lt(x@, y@) == text_lt(x@.skip(i as int), y@.skip(i as int)),
        decreases x.len() - i,
    {
        assert(x@.skip(i as int).drop_first() == x@.skip(i + 1));
        assert(y@.skip(i as int).drop_first() == y@.skip(i + 1));
        assert(x@.skip(i as int)[0] == x@[i as int]);
        assert(y@.skip(i as int)[0] == y@[i as int]);
        if x[i] != y[i] {
            return x[i] < y[i];
        }
        i = i + 1;
    }
    i < y.len()
}

/// One step of matching, stated by positions in the text and the pattern.
proof fn lemma_like_step(text: Seq<char>, pattern: Seq<char>, i: int, j: int)
    requires
        0 <= i <= text.len(),
        0 <= j < pattern.len(),
    ensures
        like(text.skip(i), pattern.skip(j)) == if pattern[j] == ANY_RUN {
            like(text.skip(i), pattern.skip(j + 1)) || (i < text.len() && like(
                text.skip(i + 1),
                pattern.skip(j),
            ))
        } else {
            i < text.len() && (pattern[j] == ANY_ONE || pattern[j] == text[i]) && like(
                text.skip(i + 1),
                pattern.skip(j + 1),
            )
        },
{
    assert(pattern.skip(j)[0] == pattern[j]);
    assert(pattern.skip(j).drop_first() == pattern.skip(j + 1));
    if i < text.len() {
        assert(text.skip(i)[0] == text[i]);
        assert(text.skip(i).drop_first() == text.skip(i + 1));
    }
}

/// Tells whether `text` matches `pattern`.
///
/// Works through the pattern from its end, keeping for every position in
/// the text whether the rest of the text matches the rest of the pattern.
pub fn is_like(text: &str, pattern: &str) -> (matches: bool)
    ensures
        matches == like(text@, pattern@),
{
    let t = chars_of(text);
    let p = chars_of(pattern);
    let tl = t.len();
    let mut row: Vec<bool> = Vec::new();
    let mut n: usize = 0;
    while n < tl
        invariant
            n <= tl,
            tl == t.len(),
            row.len() == n,
            forall|k: int| 0 <= k < n ==> !row[k],
        decreases tl - n,
    {
        row.push(false);
        n = n + 1;
    }
    row.push(true);
    let mut j: usize = p.len();
    assert forall|k: int| 0 <= k <= tl implies row[k] == like(
        t@.skip(k),
        p@.skip(j as int),
    ) by {
        assert(p@.skip(j as int).len() == 0);
    }
    while j > 0
        invariant
            j <= p.len(),
            tl == t.len(),
            row.len() == tl + 1,
            forall|k: int| 0 <= k <= tl ==> row[k] == like(t@.skip(k), p@.skip(j as int)),
        decreases j,
    {
        j = j - 1;
        let pc = p[j];
        let mut diag = row[tl];
        proof {
            lemma_like_step(t@, p@, tl as int, j as int);
        }
        row.set(tl, pc == ANY_RUN && diag);
        let mut i: usize = tl;
        while i > 0
            invariant
                i <= tl,
                j < p.len(),
                tl == t.len(),
                pc == p[j as int],
                row.len() == tl + 1,
                diag == like(t@.skip(i as int), p@.skip(j + 1)),
                forall|k: int| i <= k <= tl ==> row[k] == like(t@.skip(k), p@.skip(j as int)),
                forall|k: int| 0 <= k < i ==> row[k] == like(t@.skip(k), p@.skip(j + 1)),
            decreases i,
        {
            i = i - 1;
            let below = row[i];
            proof {
                lemma_like_step(t@, p@, i as int, j as int);
            }
            let here = if pc == ANY_RUN {
                below || row[i + 1]
            } else {
                (pc == ANY_ONE || pc == t[i]) && diag
            };
            row.set(i, here);
            diag = below;
        }
    }
    assert(t@.skip(0) == t@ && p@.skip(0) == p@);
    row[0]
}

} // verus!
