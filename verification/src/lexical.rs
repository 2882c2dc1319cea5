//! Lexicographic order on texts, by character, and on paths, by component.

use vstd::prelude::*;

verus! {

/// The rank of a character. Plainly it is its code point. In a path the
/// separator ranks below every other character, which makes the order by
/// character the order by component: `a/b` comes before `a-b`, as the
/// component `a` comes before `a-b`.
pub open spec fn rank(c: char, in_path: bool) -> int {
    if in_path && c == '/' {
        -1
    } else {
        c as u32 as int
    }
}

/// Whether `a` comes strictly before `b`: at the first place where the two
/// differ `a` has the character of lower rank, or `a` ends there and `b`
/// goes on.
pub open spec fn lex_before(a: Seq<char>, b: Seq<char>, in_path: bool) -> bool
    decreases a.len(),
{
    if b.len() == 0 {
        false
    } else if a.len() == 0 {
        true
    } else if a[0] != b[0] {
        rank(a[0], in_path) < rank(b[0], in_path)
    } else {
        lex_before(a.drop_first(), b.drop_first(), in_path)
    }
}

/// Whether text `a` comes strictly before text `b`, character by
/// character.
pub open spec fn text_before(a: Seq<char>, b: Seq<char>) -> bool {
    lex_before(a, b, false)
}

/// Whether path `a` comes strictly before path `b`, component by
/// component.
pub open spec fn path_before(a: Seq<char>, b: Seq<char>) -> bool {
    lex_before(a, b, true)
}

/// The rank of a character as a number.
fn rank_of(c: char, in_path: bool) -> (r: i64)
    ensures
        r == rank(c, in_path),
{
    if in_path && c == '/' {
        -1
    } else {
        let code: u32 = c as u32;
        code as i64
    }
}

/// Whether `a` comes strictly before `b` in lexicographic order, with the
/// separator ranked first where `in_path` is set.
pub fn comes_before(a: &Vec<char>, b: &Vec<char>, in_path: bool) -> (first: bool)
    ensures
        first == lex_before(a@, b@, in_path),
{
    let mut i: usize = 0;
    proof {
        assert(a@.skip(0) =~= a@);
        assert(b@.skip(0) =~= b@);
    }
    while i < a.len() && i < b.len()
        invariant
            i <= a.len(),
            i <= b.len(),
            lex_before(a@, b@, in_path) == lex_before(
                a@.skip(i as int),
                b@.skip(i as int),
                in_path,
            ),
        decreases a.len() - i,
    {
        proof {
            assert(a@.skip(i as int)[0] == a@[i as int]);
            assert(b@.skip(i as int)[0] == b@[i as int]);
            assert(a@.skip(i as int).drop_first() =~= a@.skip(i + 1));
            assert(b@.skip(i as int).drop_first() =~= b@.skip(i + 1));
        }
        if a[i] != b[i] {
            return rank_of(a[i], in_path) < rank_of(b[i], in_path);
        }
        i += 1;
    }
    i < b.len()
}

/// Characters of equal rank are equal.
pub proof fn lemma_rank_tells_apart(x: char, y: char, in_path: bool)
    ensures
        rank(x, in_path) == rank(y, in_path) ==> x == y,
{
}

/// No text comes before itself.
pub proof fn lemma_lex_irreflexive(a: Seq<char>, in_path: bool)
    ensures
        !lex_before(a, a, in_path),
    decreases a.len(),
{
    if a.len() > 0 {
        lemma_lex_irreflexive(a.drop_first(), in_path);
    }
}

/// Of two different texts one comes before the other.
pub proof fn lemma_lex_total(a: Seq<char>, b: Seq<char>, in_path: bool)
    ensures
        a == b || lex_before(a, b, in_path) || lex_before(b, a, in_path),
    decreases a.len(),
{
    if a.len() > 0 && b.len() > 0 {
        if a[0] == b[0] {
            lemma_lex_total(a.drop_first(), b.drop_first(), in_path);
            if a.drop_first() == b.drop_first() {
                assert(a =~= seq![a[0]] + a.drop_first());
                assert(b =~= seq![b[0]] + b.drop_first());
            }
        } else {
            lemma_rank_tells_apart(a[0], b[0], in_path);
        }
    } else if a.len() == 0 && b.len() == 0 {
        assert(a =~= b);
    }
}

/// What comes before something that comes before a third comes before the
/// third.
pub proof fn lemma_lex_transitive(a: Seq<char>, b: Seq<char>, c: Seq<char>, in_path: bool)
    requires
        lex_before(a, b, in_path),
        lex_before(b, c, in_path),
    ensures
        lex_before(a, c, in_path),
    decreases a.len(),
{
    if a.len() > 0 {
        lemma_rank_tells_apart(a[0], b[0], in_path);
        lemma_rank_tells_apart(b[0], c[0], in_path);
        lemma_rank_tells_apart(a[0], c[0], in_path);
        if a[0] == b[0] && b[0] == c[0] {
            lemma_lex_transitive(a.drop_first(), b.drop_first(), c.drop_first(), in_path);
        }
    }
}

/// The order is a strict total order, so it is a strict weak one.
pub proof fn lemma_lex_strict_weak(a: Seq<char>, b: Seq<char>, c: Seq<char>, in_path: bool)
    ensures
        !lex_before(a, a, in_path),
        lex_before(a, b, in_path) && lex_before(b, c, in_path) ==> lex_before(a, c, in_path),
        !lex_before(a, b, in_path) && !lex_before(b, c, in_path) ==> !lex_before(a, c, in_path),
{
    lemma_lex_irreflexive(a, in_path);
    if lex_before(a, b, in_path) && lex_before(b, c, in_path) {
        lemma_lex_transitive(a, b, c, in_path);
    }
    if !lex_before(a, b, in_path) && !lex_before(b, c, in_path) && lex_before(a, c, in_path) {
        lemma_lex_total(a, b, in_path);
        lemma_lex_total(b, c, in_path);
        if a != b {
            lemma_lex_transitive(b, a, c, in_path);
        }
    }
}

} // verus!
