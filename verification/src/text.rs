//! Character-level string helpers shared by the gesture logic.

use vstd::prelude::*;

verus! {

/// Copies the characters of `s` into a vector.
pub fn chars_of(s: &str) -> (res: Vec<char>)
    ensures
        res@ == s@,
{
    let mut res: Vec<char> = Vec::new();
    for c in it: s.chars()
        invariant
            res@ == it.seq().take(it.index() as int),
            it.seq() == s@,
    {
        res.push(c);
    }
    res
}

/// Whether two character vectors hold the same characters.
pub fn chars_equal(a: &Vec<char>, b: &Vec<char>) -> (res: bool)
    ensures
        res == (a@ == b@),
{
    if a.len() != b.len() {
        return false;
    }
    let mut i: usize = 0;
    while i < a.len()
        invariant
            a.len() == b.len(),
            i <= a.len(),
            forall|k: int| 0 <= k < i ==> a@[k] == b@[k],
        decreases a.len() - i,
    {
        if a[i] != b[i] {
            return false;
        }
        i = i + 1;
    }
    assert(a@ =~= b@);
    true
}

/// Whether two strings hold the same characters.
pub fn str_equals(a: &str, b: &str) -> (res: bool)
    ensures
        res == (a@ == b@),
{
    let ca = chars_of(a);
    let cb = chars_of(b);
    chars_equal(&ca, &cb)
}

/// `needle` occurs in `hay` starting at position `i`.
pub open spec fn occurs_at(hay: Seq<char>, needle: Seq<char>, i: int) -> bool {
    0 <= i && i + needle.len() <= hay.len() && hay.subrange(i, i + needle.len()) == needle
}

/// `needle` occurs somewhere in `hay` (the empty needle occurs everywhere).
pub open spec fn seq_contains(hay: Seq<char>, needle: Seq<char>) -> bool {
    exists|i: int| occurs_at(hay, needle, i)
}

fn occurs_at_exec(hay: &Vec<char>, needle: &Vec<char>, i: usize) -> (res: bool)
    requires
        i + needle.len() <= hay.len(),
    ensures
        res == occurs_at(hay@, needle@, i as int),
{
    let mut k: usize = 0;
    while k < needle.len()
        invariant
            i + needle.len() <= hay.len(),
            k <= needle.len(),
            forall|j: int| 0 <= j < k ==> hay@[i + j] == needle@[j],
        decreases needle.len() - k,
    {
        if hay[i + k] != needle[k] {
            assert(hay@.subrange(i as int, i + needle.len())[k as int] != needle@[k as int]);
            return false;
        }
        k = k + 1;
    }
    assert(hay@.subrange(i as int, i + needle.len()) =~= needle@);
    true
}

/// Whether `needle` is a substring of `hay`, as `str::contains` decides it.
pub fn str_contains(hay: &str, needle: &str) -> (res: bool)
    ensures
        res == seq_contains(hay@, needle@),
{
    let h = chars_of(hay);
    let n = chars_of(needle);
    if n.len() > h.len() {
        assert forall|i: int| !occurs_at(hay@, needle@, i) by {}
        return false;
    }
    let last = h.len() - n.len();
    let mut i: usize = 0;
    while i < last
        invariant
            last == h.len() - n.len(),
            n.len() <= h.len(),
            h@ == hay@,
            n@ == needle@,
            i <= last,
            forall|j: int| 0 <= j < i ==> !occurs_at(hay@, needle@, j),
        decreases last - i,
    {
        if occurs_at_exec(&h, &n, i) {
            return true;
        }
        i = i + 1;
    }
    if occurs_at_exec(&h, &n, last) {
        return true;
    }
    assert forall|j: int| !occurs_at(hay@, needle@, j) by {}
    false
}

/// The pieces of `parts` joined by `sep`, as `[String]::join` builds them.
pub open spec fn seq_join(parts: Seq<Seq<char>>, sep: Seq<char>) -> Seq<char>
    decreases parts.len(),
{
    if parts.len() == 0 {
        Seq::empty()
    } else if parts.len() == 1 {
        parts[0]
    } else {
        seq_join(parts.drop_last(), sep) + sep + parts.last()
    }
}

/// The character views of a list of strings.
pub open spec fn string_views(parts: Seq<String>) -> Seq<Seq<char>> {
    parts.map_values(|p: String| p@)
}

/// Joins `parts` with `sep` between consecutive pieces.
pub fn join_strings(parts: &Vec<String>, sep: &str) -> (res: String)
    ensures
        res@ == seq_join(string_views(parts@), sep@),
{
    let mut res = String::new();
    let ghost views = string_views(parts@);
    let mut i: usize = 0;
    while i < parts.len()
        invariant
            i <= parts.len(),
            views == string_views(parts@),
            res@ == seq_join(views.take(i as int), sep@),
        decreases parts.len() - i,
    {
        if i > 0 {
            res.append(sep);
        }
        res.append(parts[i].as_str());
        assert(views.take(i + 1).drop_last() =~= views.take(i as int));
        assert(views.take(i + 1).last() == parts@[i as int]@);
        i = i + 1;
    }
    assert(views.take(parts.len() as int) =~= views);
    res
}

/// `s` holds no `m`.
pub open spec fn free_of(s: Seq<char>, m: char) -> bool {
    forall|k: int| 0 <= k < s.len() ==> s[k] != m
}

/// Joining is injective on non-empty pieces free of a marker character that
/// the separator holds, when the separator holds no marker after its first:
/// the text then tells where each piece ends.
pub proof fn lemma_join_injective(p: Seq<Seq<char>>, q: Seq<Seq<char>>, sep: Seq<char>, m: char, j: int)
    requires
        0 <= j < sep.len(),
        sep[j] == m,
        forall|k: int| j < k < sep.len() ==> sep[k] != m,
        forall|k: int| 0 <= k < p.len() ==> #[trigger] p[k].len() > 0 && free_of(p[k], m),
        forall|k: int| 0 <= k < q.len() ==> #[trigger] q[k].len() > 0 && free_of(q[k], m),
        seq_join(p, sep) == seq_join(q, sep),
    ensures
        p == q,
    decreases p.len() + q.len(),
{
    let t = seq_join(p, sep);
    if p.len() == 0 || q.len() == 0 {
        if p.len() > 0 {
            lemma_join_nonempty(p, sep);
        }
        if q.len() > 0 {
            lemma_join_nonempty(q, sep);
        }
        assert(p =~= q);
    } else if p.len() == 1 && q.len() == 1 {
        assert(p =~= q);
    } else if p.len() == 1 {
        let x = seq_join(q.drop_last(), sep);
        assert(t == x + sep + q.last());
        assert(t[x.len() + j] == m);
        assert(t == p[0]);
    } else if q.len() == 1 {
        let x = seq_join(p.drop_last(), sep);
        assert(t == x + sep + p.last());
        assert(t[x.len() + j] == m);
        assert(t == q[0]);
    } else {
        let xp = seq_join(p.drop_last(), sep);
        let xq = seq_join(q.drop_last(), sep);
        let lp = p.last();
        let lq = q.last();
        assert(t == xp + sep + lp);
        assert(t == xq + sep + lq);
        assert(free_of(lp, m) && free_of(lq, m));
        if lp.len() < lq.len() {
            let pos = xp.len() + j;
            assert(t[pos] == m);
            let d = lq.len() - lp.len();
            if d + j < sep.len() {
                assert(t[pos] == sep[j + d]);
            } else {
                assert(t[pos] == lq[d + j - sep.len()]);
            }
        } else if lq.len() < lp.len() {
            let pos = xq.len() + j;
            assert(t[pos] == m);
            let d = lp.len() - lq.len();
            if d + j < sep.len() {
                assert(t[pos] == sep[j + d]);
            } else {
                assert(t[pos] == lp[d + j - sep.len()]);
            }
        }
        assert(lp.len() == lq.len());
        assert(lp =~= t.subrange(t.len() - lp.len(), t.len() as int));
        assert(lq =~= t.subrange(t.len() - lq.len(), t.len() as int));
        assert(xp =~= t.subrange(0, xp.len() as int));
        assert(xq =~= t.subrange(0, xq.len() as int));
        lemma_join_injective(p.drop_last(), q.drop_last(), sep, m, j);
        assert(p =~= p.drop_last().push(lp));
        assert(q =~= q.drop_last().push(lq));
    }
}

proof fn lemma_join_nonempty(p: Seq<Seq<char>>, sep: Seq<char>)
    requires
        p.len() > 0,
        p.last().len() > 0,
    ensures
        seq_join(p, sep).len() > 0,
{
}

} // verus!
