//! Lexicographic order on strings and on (destination, text) pairs, and
//! insertion sorts that put lists in that order.
use crate::template::chars_of;
use crate::text::strings;
use crate::tree::{pair_views, TemplatePair};
use vstd::prelude::*;
use vstd::seq_lib::{to_multiset_build, to_multiset_contains, to_multiset_insert, to_multiset_len, to_multiset_remove};

verus! {

/// `a` comes before `b`, or equals it, in the order of character codes.
pub open spec fn str_le(a: Seq<char>, b: Seq<char>) -> bool
    decreases a.len(),
{
    if a.len() == 0 {
        true
    } else if b.len() == 0 {
        false
    } else if a[0] != b[0] {
        (a[0] as int) < (b[0] as int)
    } else {
        str_le(a.skip(1), b.skip(1))
    }
}

/// Pairs by their first part, then by their second.
pub open spec fn pair_le(a: TemplatePair, b: TemplatePair) -> bool {
    if a.0 != b.0 {
        str_le(a.0, b.0)
    } else {
        str_le(a.1, b.1)
    }
}

pub open spec fn sorted_strs(s: Seq<Seq<char>>) -> bool {
    forall|i: int, j: int| 0 <= i < j < s.len() ==> #[trigger] str_le(s[i], s[j])
}

pub open spec fn sorted_pairs(s: Seq<TemplatePair>) -> bool {
    forall|i: int, j: int| 0 <= i < j < s.len() ==> #[trigger] pair_le(s[i], s[j])
}

pub proof fn lemma_str_le_total(a: Seq<char>, b: Seq<char>)
    ensures
        str_le(a, b) || str_le(b, a),
    decreases a.len(),
{
    if a.len() > 0 && b.len() > 0 && a[0] == b[0] {
        lemma_str_le_total(a.skip(1), b.skip(1));
    }
}

pub proof fn lemma_str_le_antisymmetric(a: Seq<char>, b: Seq<char>)
    requires
        str_le(a, b),
        str_le(b, a),
    ensures
        a == b,
    decreases a.len(),
{
    if a.len() > 0 {
        assert(b.len() > 0);
        assert(a[0] == b[0]);
        lemma_str_le_antisymmetric(a.skip(1), b.skip(1));
        assert(a.len() == b.len());
        assert forall|k: int| 0 <= k < a.len() implies a[k] == b[k] by {
            if k > 0 {
                assert(a.skip(1)[k - 1] == b.skip(1)[k - 1]);
            }
        }
        assert(a =~= b);
    } else {
        assert(b.len() == 0);
        assert(a =~= b);
    }
}

pub proof fn lemma_str_le_transitive(a: Seq<char>, b: Seq<char>, c: Seq<char>)
    requires
        str_le(a, b),
        str_le(b, c),
    ensures
        str_le(a, c),
    decreases a.len(),
{
    if a.len() > 0 && b.len() > 0 && c.len() > 0 && a[0] == b[0] && b[0] == c[0] {
        lemma_str_le_transitive(a.skip(1), b.skip(1), c.skip(1));
    }
}

pub proof fn lemma_pair_le_total(a: TemplatePair, b: TemplatePair)
    ensures
        pair_le(a, b) || pair_le(b, a),
{
    lemma_str_le_total(a.0, b.0);
    lemma_str_le_total(a.1, b.1);
}

pub proof fn lemma_pair_le_transitive(a: TemplatePair, b: TemplatePair, c: TemplatePair)
    requires
        pair_le(a, b),
        pair_le(b, c),
    ensures
        pair_le(a, c),
{
    if a.0 != b.0 && b.0 != c.0 {
        lemma_str_le_transitive(a.0, b.0, c.0);
        if a.0 == c.0 {
            lemma_str_le_antisymmetric(a.0, b.0);
        }
    } else if a.0 == b.0 && b.0 == c.0 {
        lemma_str_le_transitive(a.1, b.1, c.1);
    }
}

pub proof fn lemma_pair_le_antisymmetric(a: TemplatePair, b: TemplatePair)
    requires
        pair_le(a, b),
        pair_le(b, a),
    ensures
        a == b,
{
    if a.0 != b.0 {
        lemma_str_le_antisymmetric(a.0, b.0);
    } else {
        lemma_str_le_antisymmetric(a.1, b.1);
    }
}

/// Two lists in ascending order that hold the same strings are equal: the
/// sorted order of a list is unique.
pub proof fn lemma_sorted_strs_unique(s: Seq<Seq<char>>, t: Seq<Seq<char>>)
    requires
        sorted_strs(s),
        sorted_strs(t),
        s.to_multiset() == t.to_multiset(),
    ensures
        s == t,
    decreases s.len(),
{
    to_multiset_len(s);
    to_multiset_len(t);
    if s.len() == 0 {
        assert(s =~= t);
    } else {
        to_multiset_contains(t, s[0]);
        to_multiset_contains(s, t[0]);
        assert(s.contains(s[0]));
        assert(t.contains(t[0]));
        to_multiset_contains(s, s[0]);
        to_multiset_contains(t, t[0]);
        assert(t.contains(s[0]));
        assert(s.contains(t[0]));
        let k = choose|k: int| 0 <= k < t.len() && t[k] == s[0];
        let m = choose|m: int| 0 <= m < s.len() && s[m] == t[0];
        if k > 0 {
            assert(str_le(t[0], t[k]));
        } else {
            lemma_str_le_total(t[0], s[0]);
        }
        if m > 0 {
            assert(str_le(s[0], s[m]));
        } else {
            lemma_str_le_total(t[0], s[0]);
        }
        lemma_str_le_antisymmetric(s[0], t[0]);
        to_multiset_remove(s, 0);
        to_multiset_remove(t, 0);
        assert(s.remove(0) =~= s.drop_first());
        assert(t.remove(0) =~= t.drop_first());
        assert(sorted_strs(s.drop_first())) by {
            assert forall|i: int, j: int| 0 <= i < j < s.drop_first().len() implies #[trigger] str_le(
                s.drop_first()[i],
                s.drop_first()[j],
            ) by {
                assert(str_le(s[i + 1], s[j + 1]));
            }
        }
        assert(sorted_strs(t.drop_first())) by {
            assert forall|i: int, j: int| 0 <= i < j < t.drop_first().len() implies #[trigger] str_le(
                t.drop_first()[i],
                t.drop_first()[j],
            ) by {
                assert(str_le(t[i + 1], t[j + 1]));
            }
        }
        lemma_sorted_strs_unique(s.drop_first(), t.drop_first());
        assert(s =~= t) by {
            assert forall|i: int| 0 <= i < s.len() implies s[i] == t[i] by {
                if i > 0 {
                    assert(s.drop_first()[i - 1] == t.drop_first()[i - 1]);
                }
            }
        }
    }
}

/// Two lists in ascending order that hold the same pairs are equal.
pub proof fn lemma_sorted_pairs_unique(s: Seq<TemplatePair>, t: Seq<TemplatePair>)
    requires
        sorted_pairs(s),
        sorted_pairs(t),
        s.to_multiset() == t.to_multiset(),
    ensures
        s == t,
    decreases s.len(),
{
    to_multiset_len(s);
    to_multiset_len(t);
    if s.len() == 0 {
        assert(s =~= t);
    } else {
        to_multiset_contains(t, s[0]);
        to_multiset_contains(s, t[0]);
        assert(s.contains(s[0]));
        assert(t.contains(t[0]));
        to_multiset_contains(s, s[0]);
        to_multiset_contains(t, t[0]);
        assert(t.contains(s[0]));
        assert(s.contains(t[0]));
        let k = choose|k: int| 0 <= k < t.len() && t[k] == s[0];
        let m = choose|m: int| 0 <= m < s.len() && s[m] == t[0];
        if k > 0 {
            assert(pair_le(t[0], t[k]));
        } else {
            lemma_pair_le_total(t[0], s[0]);
        }
        if m > 0 {
            assert(pair_le(s[0], s[m]));
        } else {
            lemma_pair_le_total(t[0], s[0]);
        }
        lemma_pair_le_antisymmetric(s[0], t[0]);
        to_multiset_remove(s, 0);
        to_multiset_remove(t, 0);
        assert(s.remove(0) =~= s.drop_first());
        assert(t.remove(0) =~= t.drop_first());
        assert(sorted_pairs(s.drop_first())) by {
            assert forall|i: int, j: int| 0 <= i < j < s.drop_first().len() implies #[trigger] pair_le(
                s.drop_first()[i],
                s.drop_first()[j],
            ) by {
                assert(pair_le(s[i + 1], s[j + 1]));
            }
        }
        assert(sorted_pairs(t.drop_first())) by {
            assert forall|i: int, j: int| 0 <= i < j < t.drop_first().len() implies #[trigger] pair_le(
                t.drop_first()[i],
                t.drop_first()[j],
            ) by {
                assert(pair_le(t[i + 1], t[j + 1]));
            }
        }
        lemma_sorted_pairs_unique(s.drop_first(), t.drop_first());
        assert(s =~= t) by {
            assert forall|i: int| 0 <= i < s.len() implies s[i] == t[i] by {
                if i > 0 {
                    assert(s.drop_first()[i - 1] == t.drop_first()[i - 1]);
                }
            }
        }
    }
}

/// Whether `a` comes before `b` or equals it.
pub fn str_le_exec(a: &str, b: &str) -> (r: bool)
    ensures
        r == str_le(a@, b@),
{
    let x = chars_of(a);
    let y = chars_of(b);
    let mut k: usize = 0;
    assert(a@.skip(0) =~= a@);
    assert(b@.skip(0) =~= b@);
    while k < x.len() && k < y.len() && x[k] == y[k]
        invariant
            x@ == a@,
            y@ == b@,
            k <= x.len(),
            k <= y.len(),
            str_le(a@, b@) == str_le(a@.skip(k as int), b@.skip(k as int)),
        decreases x.len() - k,
    {
        assert(a@.skip(k as int).skip(1) =~= a@.skip(k + 1));
        assert(b@.skip(k as int).skip(1) =~= b@.skip(k + 1));
        k += 1;
    }
    if k == x.len() {
        assert(a@.skip(k as int).len() == 0);
        true
    } else if k == y.len() {
        assert(b@.skip(k as int).len() == 0);
        false
    } else {
        assert(a@.skip(k as int)[0] == x@[k as int]);
        assert(b@.skip(k as int)[0] == y@[k as int]);
        let r = x[k] < y[k];
        assert(r == ((x@[k as int] as int) < (y@[k as int] as int)));
        r
    }
}

/// Whether pair `a` comes before pair `b` or equals it.
pub fn pair_le_exec(a: &(String, String), b: &(String, String)) -> (r: bool)
    ensures
        r == pair_le((a.0@, a.1@), (b.0@, b.1@)),
{
    if a.0 == b.0 {
        str_le_exec(a.1.as_str(), b.1.as_str())
    } else {
        str_le_exec(a.0.as_str(), b.0.as_str())
    }
}

/// `v` in ascending order.
pub fn sort_strings(v: &Vec<String>) -> (r: Vec<String>)
    ensures
        strings(r@).to_multiset() == strings(v@).to_multiset(),
        sorted_strs(strings(r@)),
{
    let mut out: Vec<String> = Vec::new();
    assert(strings(out@) =~= strings(v@).take(0));
    let mut i: usize = 0;
    while i < v.len()
        invariant
            i <= v.len(),
            strings(out@).to_multiset() == strings(v@).take(i as int).to_multiset(),
            sorted_strs(strings(out@)),
        decreases v.len() - i,
    {
        let x = v[i].clone();
        let mut j: usize = 0;
        while j < out.len() && str_le_exec(out[j].as_str(), x.as_str())
            invariant
                j <= out.len(),
                forall|k: int| 0 <= k < j ==> #[trigger] str_le(strings(out@)[k], x@),
            decreases out.len() - j,
        {
            j += 1;
        }
        let ghost o = strings(out@);
        proof {
            if j < out.len() {
                lemma_str_le_total(o[j as int], x@);
            }
        }
        out.insert(j, x);
        let ghost n = strings(out@);
        assert(n =~= o.insert(j as int, x@));
        proof {
            to_multiset_insert(o, j as int, x@);
            assert(strings(v@).take(i + 1) =~= strings(v@).take(i as int).push(x@));
            to_multiset_build(strings(v@).take(i as int), x@);
            assert forall|a: int, b: int| 0 <= a < b < n.len() implies #[trigger] str_le(n[a], n[b]) by {
                if b < j {
                } else if b == j {
                } else if a < j {
                    assert(str_le(o[a], o[b - 1]));
                } else if a == j {
                    if b - 1 > j {
                        assert(str_le(o[j as int], o[b - 1]));
                        lemma_str_le_transitive(x@, o[j as int], o[b - 1]);
                    }
                } else {
                    assert(str_le(o[a - 1], o[b - 1]));
                }
            }
        }
        i += 1;
    }
    assert(strings(v@).take(v.len() as int) =~= strings(v@));
    out
}

/// `v` in ascending order of destination, then of text.
pub fn sort_pairs(v: &Vec<(String, String)>) -> (r: Vec<(String, String)>)
    ensures
        pair_views(r@).to_multiset() == pair_views(v@).to_multiset(),
        sorted_pairs(pair_views(r@)),
{
    let mut out: Vec<(String, String)> = Vec::new();
    assert(pair_views(out@) =~= pair_views(v@).take(0));
    let mut i: usize = 0;
    while i < v.len()
        invariant
            i <= v.len(),
            pair_views(out@).to_multiset() == pair_views(v@).take(i as int).to_multiset(),
            sorted_pairs(pair_views(out@)),
        decreases v.len() - i,
    {
        let x = (v[i].0.clone(), v[i].1.clone());
        let ghost xv = (x.0@, x.1@);
        assert(pair_views(v@)[i as int] == xv);
        let mut j: usize = 0;
        while j < out.len() && pair_le_exec(&out[j], &x)
            invariant
                j <= out.len(),
                xv == (x.0@, x.1@),
                forall|k: int| 0 <= k < j ==> #[trigger] pair_le(pair_views(out@)[k], xv),
            decreases out.len() - j,
        {
            j += 1;
        }
        let ghost o = pair_views(out@);
        proof {
            if j < out.len() {
                lemma_pair_le_total(o[j as int], xv);
            }
        }
        out.insert(j, x);
        let ghost n = pair_views(out@);
        assert(n =~= o.insert(j as int, xv));
        proof {
            to_multiset_insert(o, j as int, xv);
            assert(pair_views(v@).take(i + 1) =~= pair_views(v@).take(i as int).push(xv));
            to_multiset_build(pair_views(v@).take(i as int), xv);
            assert forall|a: int, b: int| 0 <= a < b < n.len() implies #[trigger] pair_le(n[a], n[b]) by {
                if b < j {
                } else if b == j {
                } else if a < j {
                    assert(pair_le(o[a], o[b - 1]));
                } else if a == j {
                    if b - 1 > j {
                        assert(pair_le(o[j as int], o[b - 1]));
                        lemma_pair_le_transitive(xv, o[j as int], o[b - 1]);
                    }
                } else {
                    assert(pair_le(o[a - 1], o[b - 1]));
                }
            }
        }
        i += 1;
    }
    assert(pair_views(v@).take(v.len() as int) =~= pair_views(v@));
    out
}

} // verus!
