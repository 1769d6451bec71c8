//! The order of `str`: lexicographic by characters (for UTF-8 text the
//! same as by bytes), and sorted lists of distinct strings kept in it.

use vstd::prelude::*;
use vstd::string::*;

verus! {

/// `a < b` as `str` compares: by the first differing character, a proper
/// prefix first.
pub open spec fn lex_lt(a: Seq<char>, b: Seq<char>) -> bool
    decreases a.len(),
{
    if a.len() == 0 {
        b.len() > 0
    } else if b.len() == 0 {
        false
    } else if a[0] != b[0] {
        a[0] < b[0]
    } else {
        lex_lt(a.drop_first(), b.drop_first())
    }
}

pub proof fn lemma_lex_irreflexive(a: Seq<char>)
    ensures
        !lex_lt(a, a),
    decreases a.len(),
{
    if a.len() > 0 {
        lemma_lex_irreflexive(a.drop_first());
    }
}

pub proof fn lemma_lex_asymmetric(a: Seq<char>, b: Seq<char>)
    ensures
        lex_lt(a, b) ==> !lex_lt(b, a),
    decreases a.len(),
{
    if a.len() > 0 && b.len() > 0 && a[0] == b[0] {
        lemma_lex_asymmetric(a.drop_first(), b.drop_first());
    }
}

pub proof fn lemma_lex_transitive(a: Seq<char>, b: Seq<char>, c: Seq<char>)
    ensures
        lex_lt(a, b) && lex_lt(b, c) ==> lex_lt(a, c),
    decreases a.len(),
{
    if a.len() > 0 && b.len() > 0 && c.len() > 0 {
        lemma_lex_transitive(a.drop_first(), b.drop_first(), c.drop_first());
    }
}

pub proof fn lemma_lex_total(a: Seq<char>, b: Seq<char>)
    ensures
        a != b ==> lex_lt(a, b) || lex_lt(b, a),
    decreases a.len(),
{
    if a.len() > 0 && b.len() > 0 {
        lemma_lex_total(a.drop_first(), b.drop_first());
        if a[0] == b[0] && a.drop_first() == b.drop_first() {
            assert(a =~= seq![a[0]] + a.drop_first());
            assert(b =~= seq![b[0]] + b.drop_first());
        }
    } else if a.len() == 0 && b.len() == 0 {
        assert(a =~= b);
    }
}

/// A proper prefix comes before every longer text that starts with it.
pub proof fn lemma_lex_prefix_first(a: Seq<char>, b: Seq<char>)
    requires
        b.len() > 0,
    ensures
        lex_lt(a, a + b),
        !lex_lt(a + b, a),
    decreases a.len(),
{
    if a.len() > 0 {
        lemma_lex_prefix_first(a.drop_first(), b);
        assert((a + b).drop_first() =~= a.drop_first() + b);
        assert((a + b)[0] == a[0]);
    } else {
        assert(a + b =~= b);
    }
}

/// Two texts that agree up to a point are ordered by their first differing
/// character.
pub proof fn lemma_lex_first_difference(p: Seq<char>, x: char, y: char, r1: Seq<char>, r2: Seq<char>)
    requires
        x != y,
    ensures
        lex_lt(p + seq![x] + r1, p + seq![y] + r2) <==> x < y,
    decreases p.len(),
{
    let a = p + seq![x] + r1;
    let b = p + seq![y] + r2;
    if p.len() > 0 {
        lemma_lex_first_difference(p.drop_first(), x, y, r1, r2);
        assert(a.drop_first() =~= p.drop_first() + seq![x] + r1);
        assert(b.drop_first() =~= p.drop_first() + seq![y] + r2);
        assert(a[0] == p[0] && b[0] == p[0]);
    } else {
        assert(a[0] == x);
        assert(b[0] == y);
    }
}

/// `a < b` for two texts (see `lex_lt`).
pub fn str_lt(a: &str, b: &str) -> (r: bool)
    ensures
        r == lex_lt(a@, b@),
{
    let n = a.unicode_len();
    let m = b.unicode_len();
    let mut i: usize = 0;
    assert(a@.skip(0) =~= a@);
    assert(b@.skip(0) =~= b@);
    while i < n && i < m
        invariant
            n == a@.len(),
            m == b@.len(),
            i <= n,
            i <= m,
            lex_lt(a@, b@) == lex_lt(a@.skip(i as int), b@.skip(i as int)),
        decreases n - i,
    {
        let x = a.get_char(i);
        let y = b.get_char(i);
        assert(a@.skip(i as int)[0] == x);
        assert(b@.skip(i as int)[0] == y);
        if x != y {
            return x < y;
        }
        assert(a@.skip(i as int).drop_first() =~= a@.skip(i + 1));
        assert(b@.skip(i as int).drop_first() =~= b@.skip(i + 1));
        i = i + 1;
    }
    i < m
}

/// Strictly increasing in the `str` order, so also free of repeats.
pub open spec fn sorted_strict(v: Seq<Seq<char>>) -> bool {
    forall|i: int, j: int| 0 <= i < j < v.len() ==> lex_lt(#[trigger] v[i], #[trigger] v[j])
}

/// Where `s` belongs in the sorted list `v`: every entry before the position
/// is smaller; the flag tells whether the entry at the position is `s`
/// itself, and when it is not, every entry from the position on is larger.
pub fn sorted_position(v: &Vec<String>, s: &str) -> (r: (usize, bool))
    requires
        sorted_strict(v.deep_view()),
    ensures
        r.0 <= v@.len(),
        forall|i: int| 0 <= i < r.0 ==> lex_lt(#[trigger] v.deep_view()[i], s@),
        r.1 == (r.0 < v@.len() && v.deep_view()[r.0 as int] == s@),
        !r.1 ==> forall|i: int| r.0 <= i < v@.len() ==> lex_lt(s@, #[trigger] v.deep_view()[i]),
{
    let n = v.len();
    let mut p: usize = 0;
    while p < n && str_lt(v[p].as_str(), s)
        invariant
            n == v@.len(),
            p <= n,
            sorted_strict(v.deep_view()),
            forall|i: int| 0 <= i < p ==> lex_lt(#[trigger] v.deep_view()[i], s@),
        decreases n - p,
    {
        p = p + 1;
    }
    if p < n {
        let same = str_equal_string(&v[p], s);
        if !same {
            proof {
                lemma_lex_total(v.deep_view()[p as int], s@);
                assert forall|i: int| p <= i < v@.len() implies lex_lt(s@, #[trigger] v.deep_view()[i]) by {
                    if i > p {
                        assert(lex_lt(v.deep_view()[p as int], v.deep_view()[i]));
                        lemma_lex_transitive(s@, v.deep_view()[p as int], v.deep_view()[i]);
                    }
                }
            }
        }
        (p, same)
    } else {
        (p, false)
    }
}

fn str_equal_string(a: &String, b: &str) -> (r: bool)
    ensures
        r == (a@ == b@),
{
    crate::text::str_equal(a.as_str(), b)
}

/// Adds `s` to the sorted list `v` unless it is there already; tells
/// whether it was added.
pub fn insert_sorted(v: &mut Vec<String>, s: String) -> (added: bool)
    requires
        sorted_strict(old(v).deep_view()),
    ensures
        sorted_strict(final(v).deep_view()),
        final(v).deep_view().to_set() == old(v).deep_view().to_set().insert(s@),
        added == !old(v).deep_view().to_set().contains(s@),
        final(v)@.len() == old(v)@.len() + if added { 1int } else { 0int },
{
    let (p, present) = sorted_position(v, s.as_str());
    let ghost before = v.deep_view();
    if present {
        assert(before.to_set().insert(s@) =~= before.to_set());
        assert(before[p as int] == s@);
        false
    } else {
        assert forall|k: int| 0 <= k < before.len() implies before[k] != s@ by {
            if k < p {
                lemma_lex_irreflexive(s@);
            } else {
                lemma_lex_irreflexive(s@);
            }
        }
        v.insert(p, s);
        let ghost after = v.deep_view();
        assert(after =~= before.insert(p as int, s@));
        assert forall|i: int, j: int| 0 <= i < j < after.len() implies lex_lt(#[trigger] after[i], #[trigger] after[j]) by {
            if j < p {
            } else if j == p {
            } else if i < p {
                assert(after[j] == before[j - 1]);
                lemma_lex_transitive(after[i], s@, after[j]);
            } else if i == p {
                assert(after[j] == before[j - 1]);
            } else {
                assert(after[i] == before[i - 1]);
                assert(after[j] == before[j - 1]);
            }
        }
        assert forall|x: Seq<char>| after.to_set().contains(x) <==> before.to_set().insert(s@).contains(x) by {
            if after.to_set().contains(x) {
                let k = choose|k: int| 0 <= k < after.len() && after[k] == x;
                if k < p {
                    assert(before[k] == x);
                } else if k > p {
                    assert(before[k - 1] == x);
                }
            }
            if before.to_set().contains(x) {
                let k = choose|k: int| 0 <= k < before.len() && before[k] == x;
                if k < p {
                    assert(after[k] == x);
                } else {
                    assert(after[k + 1] == x);
                }
            }
            if x == s@ {
                assert(after[p as int] == x);
            }
        }
        assert(after.to_set() =~= before.to_set().insert(s@));
        true
    }
}

} // verus!
