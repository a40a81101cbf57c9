//! Paths as strings: anchoring under a root, and the containing directory.
use vstd::prelude::*;

verus! {

/// `p` is absolute: it starts with `/`.
pub open spec fn is_absolute(p: Seq<char>) -> bool {
    p.len() > 0 && p[0] == '/'
}

/// An absolute `p` as it is; a relative one joined under `root`.
pub open spec fn anchor(root: Seq<char>, p: Seq<char>) -> Seq<char> {
    if is_absolute(p) {
        p
    } else if root.len() == 0 || root.last() == '/' {
        root + p
    } else {
        root + seq!['/'] + p
    }
}

/// The position of the last `/` among the first `n` characters of `p`, or -1.
pub open spec fn last_slash_before(p: Seq<char>, n: int) -> int
    decreases n,
{
    if n <= 0 {
        -1
    } else if p[n - 1] == '/' {
        n - 1
    } else {
        last_slash_before(p, n - 1)
    }
}

/// The directory that contains `p`: what stands before its last `/` (the
/// root `/` itself where that is the first character), empty where `p` has
/// no `/`.
pub open spec fn parent(p: Seq<char>) -> Seq<char> {
    let k = last_slash_before(p, p.len() as int);
    if k < 0 {
        Seq::empty()
    } else if k == 0 {
        seq!['/']
    } else {
        p.subrange(0, k)
    }
}

proof fn lemma_last_slash_range(p: Seq<char>, n: int)
    requires
        0 <= n <= p.len(),
    ensures
        -1 <= last_slash_before(p, n) < n,
        last_slash_before(p, n) >= 0 ==> p[last_slash_before(p, n)] == '/',
    decreases n,
{
    if n > 0 {
        lemma_last_slash_range(p, n - 1);
    }
}

/// `p` anchored under `root`.
pub fn anchor_path(root: &str, p: &str) -> (r: String)
    ensures
        r@ == anchor(root@, p@),
{
    proof {
        reveal_strlit("/");
    }
    if p.unicode_len() > 0 && p.get_char(0) == '/' {
        return p.to_owned();
    }
    let mut r = root.to_owned();
    let n = root.unicode_len();
    if n > 0 && root.get_char(n - 1) != '/' {
        r.append("/");
    }
    r.append(p);
    r
}

/// The directory that contains `p`.
pub fn parent_dir(p: &str) -> (r: String)
    ensures
        r@ == parent(p@),
{
    proof {
        reveal_strlit("/");
    }
    let n = p.unicode_len();
    let mut k: usize = n;
    while k > 0
        invariant
            n == p@.len(),
            k <= n,
            last_slash_before(p@, n as int) == last_slash_before(p@, k as int),
        decreases k,
    {
        if p.get_char(k - 1) == '/' {
            proof {
                lemma_last_slash_range(p@, n as int);
            }
            if k == 1 {
                proof {
                    reveal_strlit("/");
                }
                assert("/"@ =~= seq!['/']);
                return "/".to_owned();
            }
            return p.substring_char(0, k - 1).to_owned();
        }
        k = k - 1;
    }
    String::new()
}

} // verus!
