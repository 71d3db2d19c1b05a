//! The list of running programs offered when a gesture is limited to one:
//! executable names sorted, each once.

use vstd::prelude::*;
use crate::text::{chars_of, string_views};

verus! {

/// `a` comes strictly before `b` in the order of `str`: character by
/// character by code point, a proper prefix first.
pub open spec fn seq_lt(a: Seq<char>, b: Seq<char>) -> bool
    decreases a.len(),
{
    if b.len() == 0 {
        false
    } else if a.len() == 0 {
        true
    } else if (a[0] as int) < (b[0] as int) {
        true
    } else if a[0] == b[0] {
        seq_lt(a.drop_first(), b.drop_first())
    } else {
        false
    }
}

/// Law: the order of names is the order of `str`: a proper prefix comes
/// first, and otherwise the first differing character decides, the smaller
/// code point first.
pub proof fn lemma_lt_is_the_str_order(a: Seq<char>, b: Seq<char>)
    ensures
        seq_lt(a, b) <==> (a.len() < b.len() && a == b.subrange(0, a.len() as int)) || exists|i: int|
            0 <= i < a.len() && i < b.len() && a.subrange(0, i) == b.subrange(0, i) && (a[i] as int)
                < (b[i] as int),
    decreases a.len(),
{
    if a.len() > 0 && b.len() > 0 {
        let a1 = a.drop_first();
        let b1 = b.drop_first();
        lemma_lt_is_the_str_order(a1, b1);
        if a[0] == b[0] {
            if a1.len() < b1.len() && a1 == b1.subrange(0, a1.len() as int) {
                assert forall|k: int| 0 <= k < a.len() implies a[k] == b.subrange(0, a.len() as int)[k] by {
                    if k > 0 {
                        assert(a[k] == a1[k - 1]);
                        assert(a1[k - 1] == b1.subrange(0, a1.len() as int)[k - 1]);
                    }
                }
                assert(a =~= b.subrange(0, a.len() as int));
            }
            if a.len() < b.len() && a == b.subrange(0, a.len() as int) {
                assert(a1 =~= b1.subrange(0, a1.len() as int));
            }
            if exists|i: int|
                0 <= i < a1.len() && i < b1.len() && a1.subrange(0, i) == b1.subrange(0, i) && (
                a1[i] as int) < (b1[i] as int) {
                let i = choose|i: int|
                    0 <= i < a1.len() && i < b1.len() && a1.subrange(0, i) == b1.subrange(0, i) && (
                    a1[i] as int) < (b1[i] as int);
                assert(a.subrange(0, i + 1) =~= b.subrange(0, i + 1)) by {
                    assert forall|k: int| 0 <= k < i + 1 implies a[k] == b[k] by {
                        if k > 0 {
                            assert(a1.subrange(0, i)[k - 1] == b1.subrange(0, i)[k - 1]);
                        }
                    }
                }
                assert(a[i + 1] == a1[i]);
            }
            if exists|i: int|
                0 <= i < a.len() && i < b.len() && a.subrange(0, i) == b.subrange(0, i) && (
                a[i] as int) < (b[i] as int) {
                let i = choose|i: int|
                    0 <= i < a.len() && i < b.len() && a.subrange(0, i) == b.subrange(0, i) && (
                    a[i] as int) < (b[i] as int);
                assert(i > 0);
                assert(a1.subrange(0, i - 1) =~= b1.subrange(0, i - 1)) by {
                    assert forall|k: int| 0 <= k < i - 1 implies a1[k] == b1[k] by {
                        assert(a.subrange(0, i)[k + 1] == b.subrange(0, i)[k + 1]);
                    }
                }
                assert(a1[i - 1] == a[i]);
            }
        } else {
            if (a[0] as int) < (b[0] as int) {
                assert(a.subrange(0, 0) =~= b.subrange(0, 0));
            }
            if a.len() < b.len() && a == b.subrange(0, a.len() as int) {
                assert(a[0] == b.subrange(0, a.len() as int)[0]);
            }
            if exists|i: int|
                0 <= i < a.len() && i < b.len() && a.subrange(0, i) == b.subrange(0, i) && (
                a[i] as int) < (b[i] as int) {
                let i = choose|i: int|
                    0 <= i < a.len() && i < b.len() && a.subrange(0, i) == b.subrange(0, i) && (
                    a[i] as int) < (b[i] as int);
                if i > 0 {
                    assert(a.subrange(0, i)[0] == b.subrange(0, i)[0]);
                }
            }
        }
    } else if a.len() == 0 && b.len() > 0 {
        assert(a =~= b.subrange(0, 0));
    }
}

/// Every element comes strictly before the ones after it.
pub open spec fn strictly_sorted(s: Seq<Seq<char>>) -> bool {
    forall|i: int, j: int| 0 <= i < j < s.len() ==> seq_lt(#[trigger] s[i], #[trigger] s[j])
}

/// The order is irreflexive.
pub proof fn lemma_lt_irreflexive(a: Seq<char>)
    ensures
        !seq_lt(a, a),
    decreases a.len(),
{
    if a.len() > 0 {
        lemma_lt_irreflexive(a.drop_first());
    }
}

/// The order is total on distinct strings.
pub proof fn lemma_lt_total(a: Seq<char>, b: Seq<char>)
    ensures
        a == b || seq_lt(a, b) || seq_lt(b, a),
    decreases a.len(),
{
    if a.len() > 0 && b.len() > 0 && a[0] == b[0] {
        lemma_lt_total(a.drop_first(), b.drop_first());
        if a.drop_first() == b.drop_first() {
            assert(a =~= seq![a[0]] + a.drop_first());
            assert(b =~= seq![b[0]] + b.drop_first());
        }
    } else if a.len() == 0 && b.len() == 0 {
        assert(a =~= b);
    }
}

/// The order is asymmetric.
pub proof fn lemma_lt_asymmetric(a: Seq<char>, b: Seq<char>)
    ensures
        !(seq_lt(a, b) && seq_lt(b, a)),
    decreases a.len(),
{
    if a.len() > 0 && b.len() > 0 && a[0] == b[0] {
        lemma_lt_asymmetric(a.drop_first(), b.drop_first());
    }
}

/// The order is transitive.
pub proof fn lemma_lt_transitive(a: Seq<char>, b: Seq<char>, c: Seq<char>)
    requires
        seq_lt(a, b),
        seq_lt(b, c),
    ensures
        seq_lt(a, c),
    decreases a.len(),
{
    if a.len() > 0 && b.len() > 0 && c.len() > 0 && a[0] == b[0] && b[0] == c[0] {
        lemma_lt_transitive(a.drop_first(), b.drop_first(), c.drop_first());
    }
}

proof fn lemma_push_contains(s: Seq<Seq<char>>, y: Seq<char>, x: Seq<char>)
    ensures
        s.push(y).contains(x) <==> s.contains(x) || x == y,
{
    if s.contains(x) {
        let k = choose|k: int| 0 <= k < s.len() && s[k] == x;
        assert(s.push(y)[k] == x);
    }
    if x == y {
        assert(s.push(y)[s.len() as int] == x);
    }
    if s.push(y).contains(x) && x != y {
        let k = choose|k: int| 0 <= k < s.push(y).len() && s.push(y)[k] == x;
        assert(s[k] == x);
    }
}

proof fn lemma_insert_contains(s: Seq<Seq<char>>, p: int, y: Seq<char>, x: Seq<char>)
    requires
        0 <= p <= s.len(),
    ensures
        s.insert(p, y).contains(x) <==> s.contains(x) || x == y,
{
    let t = s.insert(p, y);
    if s.contains(x) {
        let k = choose|k: int| 0 <= k < s.len() && s[k] == x;
        if k < p {
            assert(t[k] == x);
        } else {
            assert(t[k + 1] == x);
        }
    }
    if x == y {
        assert(t[p] == x);
    }
    if t.contains(x) && x != y {
        let k = choose|k: int| 0 <= k < t.len() && t[k] == x;
        if k < p {
            assert(s[k] == x);
        } else {
            assert(s[k - 1] == x);
        }
    }
}

fn lex_less(a: &Vec<char>, b: &Vec<char>) -> (res: bool)
    ensures
        res == seq_lt(a@, b@),
{
    let mut k: usize = 0;
    assert(a@.skip(0) =~= a@);
    assert(b@.skip(0) =~= b@);
    while k < a.len() && k < b.len()
        invariant
            k <= a.len(),
            k <= b.len(),
            seq_lt(a@, b@) == seq_lt(a@.skip(k as int), b@.skip(k as int)),
        decreases a.len() - k,
    {
        assert(a@.skip(k as int)[0] == a@[k as int]);
        assert(b@.skip(k as int)[0] == b@[k as int]);
        if a[k] < b[k] {
            return true;
        }
        if a[k] != b[k] {
            return false;
        }
        assert(a@.skip(k as int).drop_first() =~= a@.skip(k + 1));
        assert(b@.skip(k as int).drop_first() =~= b@.skip(k + 1));
        k = k + 1;
    }
    k < b.len()
}

/// Sorts names in the order of `str` and keeps each once, as
/// `sort` followed by `dedup` does.
pub fn sorted_unique(names: Vec<String>) -> (res: Vec<String>)
    ensures
        strictly_sorted(string_views(res@)),
        forall|x: Seq<char>| string_views(res@).contains(x) <==> string_views(names@).contains(x),
{
    let mut res: Vec<String> = Vec::new();
    let mut res_chars: Vec<Vec<char>> = Vec::new();
    let mut i: usize = 0;
    while i < names.len()
        invariant
            i <= names.len(),
            res_chars@.len() == res@.len(),
            forall|k: int| 0 <= k < res@.len() ==> (#[trigger] res_chars@[k])@ == res@[k]@,
            strictly_sorted(string_views(res@)),
            forall|x: Seq<char>|
                string_views(res@).contains(x) <==> string_views(names@.take(i as int)).contains(x),
        decreases names.len() - i,
    {
        let name = &names[i];
        let c = chars_of(name.as_str());
        let ghost views = string_views(res@);
        let mut p: usize = 0;
        while p < res.len() && lex_less(&res_chars[p], &c)
            invariant
                p <= res@.len(),
                res_chars@.len() == res@.len(),
                forall|k: int| 0 <= k < res@.len() ==> (#[trigger] res_chars@[k])@ == res@[k]@,
                views == string_views(res@),
                forall|k: int| 0 <= k < p ==> seq_lt(#[trigger] views[k], c@),
            decreases res@.len() - p,
        {
            p = p + 1;
        }
        let ghost new_name_views = string_views(names@.take(i + 1));
        assert(names@.take(i + 1) =~= names@.take(i as int).push(names@[i as int]));
        assert(new_name_views =~= string_views(names@.take(i as int)).push(c@));
        if p < res.len() && crate::text::chars_equal(&res_chars[p], &c) {
            assert(views[p as int] == c@);
            assert(views.contains(c@));
            assert forall|x: Seq<char>| string_views(res@).contains(x) <==> new_name_views.contains(x) by {
                lemma_push_contains(string_views(names@.take(i as int)), c@, x);
            }
        } else {
            proof {
                if p < res.len() {
                    lemma_lt_total(views[p as int], c@);
                }
            }
            res.insert(p, name.clone());
            res_chars.insert(p, c);
            let ghost nv = string_views(res@);
            assert(nv =~= views.insert(p as int, c@));
            assert forall|a: int, b: int| 0 <= a < b < nv.len() implies seq_lt(
                #[trigger] nv[a],
                #[trigger] nv[b],
            ) by {
                if b == p {
                    assert(seq_lt(views[a], c@));
                } else if a == p {
                    // c < views[p] <= views[b - 1]
                    if b - 1 > p {
                        lemma_lt_transitive(c@, views[p as int], views[b - 1]);
                    }
                } else if a < p && b > p {
                    assert(seq_lt(views[a], views[b - 1]));
                } else if a > p {
                    assert(seq_lt(views[a - 1], views[b - 1]));
                } else {
                    assert(seq_lt(views[a], views[b]));
                }
            }
            assert forall|x: Seq<char>| nv.contains(x) <==> new_name_views.contains(x) by {
                lemma_push_contains(string_views(names@.take(i as int)), c@, x);
                lemma_insert_contains(views, p as int, c@, x);
            }
            assert forall|k: int| 0 <= k < res@.len() implies (#[trigger] res_chars@[k])@ == res@[k]@ by {
                assert(nv[k] == res@[k]@);
            }
        }
        i = i + 1;
    }
    assert(names@.take(names.len() as int) =~= names@);
    res
}

/// Law: a strictly sorted list is determined by the strings it holds. So
/// `sorted_unique` gives the same list for any two inputs that name the
/// same strings, whatever their order and repetitions.
pub proof fn lemma_sorted_lists_with_same_strings_are_equal(a: Seq<Seq<char>>, b: Seq<Seq<char>>)
    requires
        strictly_sorted(a),
        strictly_sorted(b),
        forall|x: Seq<char>| a.contains(x) <==> b.contains(x),
    ensures
        a == b,
    decreases a.len(),
{
    if a.len() == 0 {
        if b.len() > 0 {
            assert(b.contains(b[0]));
        }
        assert(a =~= b);
    } else if b.len() == 0 {
        assert(a.contains(a[0]));
    } else {
        assert(a.contains(a[0]));
        assert(b.contains(b[0]));
        let k = choose|k: int| 0 <= k < b.len() && b[k] == a[0];
        let m = choose|m: int| 0 <= m < a.len() && a[m] == b[0];
        if k > 0 {
            assert(seq_lt(b[0], b[k]));
            if m > 0 {
                assert(seq_lt(a[0], a[m]));
                lemma_lt_asymmetric(a[0], b[0]);
            } else {
                lemma_lt_irreflexive(b[0]);
            }
        }
        assert(a[0] == b[0]);
        let a1 = a.drop_first();
        let b1 = b.drop_first();
        assert forall|x: Seq<char>| a1.contains(x) <==> b1.contains(x) by {
            if a1.contains(x) {
                let j = choose|j: int| 0 <= j < a1.len() && a1[j] == x;
                assert(a[j + 1] == x);
                assert(seq_lt(a[0], a[j + 1]));
                lemma_lt_irreflexive(x);
                assert(b.contains(x));
                let q = choose|q: int| 0 <= q < b.len() && b[q] == x;
                assert(q != 0);
                assert(b1[q - 1] == x);
            }
            if b1.contains(x) {
                let j = choose|j: int| 0 <= j < b1.len() && b1[j] == x;
                assert(b[j + 1] == x);
                assert(seq_lt(b[0], b[j + 1]));
                lemma_lt_irreflexive(x);
                assert(a.contains(x));
                let q = choose|q: int| 0 <= q < a.len() && a[q] == x;
                assert(q != 0);
                assert(a1[q - 1] == x);
            }
        }
        assert(strictly_sorted(a1)) by {
            assert forall|i: int, j: int| 0 <= i < j < a1.len() implies seq_lt(#[trigger] a1[i], #[trigger] a1[j]) by {
                assert(seq_lt(a[i + 1], a[j + 1]));
            }
        }
        assert(strictly_sorted(b1)) by {
            assert forall|i: int, j: int| 0 <= i < j < b1.len() implies seq_lt(#[trigger] b1[i], #[trigger] b1[j]) by {
                assert(seq_lt(b[i + 1], b[j + 1]));
            }
        }
        lemma_sorted_lists_with_same_strings_are_equal(a1, b1);
        assert(a =~= b) by {
            assert forall|i: int| 0 <= i < a.len() implies a[i] == b[i] by {
                if i > 0 {
                    assert(a[i] == a1[i - 1]);
                    assert(b[i] == b1[i - 1]);
                }
            }
        }
    }
}

} // verus!
