//! Helpers on strings and lists of strings.
use vstd::prelude::*;

verus! {

/// The values of a list of strings.
pub open spec fn strings(v: Seq<String>) -> Seq<Seq<char>> {
    v.map_values(|s: String| s@)
}

/// `xs` joined with `sep` between neighbours.
pub open spec fn join(xs: Seq<Seq<char>>, sep: Seq<char>) -> Seq<char>
    decreases xs.len(),
{
    if xs.len() == 0 {
        Seq::empty()
    } else if xs.len() == 1 {
        xs[0]
    } else {
        join(xs.drop_last(), sep) + sep + xs.last()
    }
}

/// Whether `v` holds `s`.
pub fn contains_string(v: &Vec<String>, s: &String) -> (r: bool)
    ensures
        r == strings(v@).contains(s@),
{
    let mut j: usize = 0;
    while j < v.len()
        invariant
            j <= v.len(),
            forall|k: int| 0 <= k < j ==> strings(v@)[k] != s@,
        decreases v.len() - j,
    {
        if v[j] == *s {
            assert(strings(v@)[j as int] == s@);
            return true;
        }
        j += 1;
    }
    false
}

/// `s` followed by `t`.
pub fn push_str(s: &mut String, t: &str)
    ensures
        final(s)@ == old(s)@ + t@,
{
    s.append(t);
}

/// `xs` joined with `sep`.
pub fn join_strings(xs: &Vec<String>, sep: &str) -> (r: String)
    ensures
        r@ == join(strings(xs@), sep@),
{
    let mut out = String::new();
    let mut i: usize = 0;
    while i < xs.len()
        invariant
            i <= xs.len(),
            out@ == join(strings(xs@).take(i as int), sep@),
        decreases xs.len() - i,
    {
        if i > 0 {
            push_str(&mut out, sep);
        }
        push_str(&mut out, xs[i].as_str());
        assert(strings(xs@).take(i + 1).drop_last() =~= strings(xs@).take(i as int));
        i += 1;
    }
    assert(strings(xs@).take(xs.len() as int) =~= strings(xs@));
    out
}

} // verus!
