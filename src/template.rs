//! Literal substitution of the three named slots into a source string.
use vstd::prelude::*;

verus! {

/// The values substituted for the three slot markers.
#[derive(Debug)]
pub struct TemplateArgs<'a> {
    pub project_name: &'a str,
    pub project_root_path: &'a str,
    pub skel_config_path: &'a str,
}

/// The three named slots.
#[derive(Debug, Clone, Copy, PartialEq, Eq, Structural)]
pub enum Slot {
    Name,
    Root,
    ConfigDir,
}

/// `{{name}}`
#[verifier::opaque]
pub open spec fn name_marker() -> Seq<char> {
    seq!['{', '{', 'n', 'a', 'm', 'e', '}', '}']
}

/// `{{root}}`
#[verifier::opaque]
pub open spec fn root_marker() -> Seq<char> {
    seq!['{', '{', 'r', 'o', 'o', 't', '}', '}']
}

/// `{{config-dir}}`
#[verifier::opaque]
pub open spec fn config_dir_marker() -> Seq<char> {
    seq!['{', '{', 'c', 'o', 'n', 'f', 'i', 'g', '-', 'd', 'i', 'r', '}', '}']
}

pub proof fn lemma_marker_lengths()
    ensures
        name_marker().len() == 8,
        root_marker().len() == 8,
        config_dir_marker().len() == 14,
{
    reveal(name_marker);
    reveal(root_marker);
    reveal(config_dir_marker);
}

pub open spec fn marker(k: Slot) -> Seq<char> {
    match k {
        Slot::Name => name_marker(),
        Slot::Root => root_marker(),
        Slot::ConfigDir => config_dir_marker(),
    }
}

pub open spec fn slot_value(k: Slot, name: Seq<char>, root: Seq<char>, conf: Seq<char>) -> Seq<char> {
    match k {
        Slot::Name => name,
        Slot::Root => root,
        Slot::ConfigDir => conf,
    }
}

/// `m` occurs in `s` starting at position `i`.
pub open spec fn occurs_at(s: Seq<char>, i: int, m: Seq<char>) -> bool {
    0 <= i && i + m.len() <= s.len() && s.subrange(i, i + m.len()) == m
}

/// Some slot marker occurs in `s` at position `i`.
pub open spec fn marker_at(s: Seq<char>, i: int) -> bool {
    occurs_at(s, i, name_marker()) || occurs_at(s, i, root_marker()) || occurs_at(
        s,
        i,
        config_dir_marker(),
    )
}

/// No slot marker occurs anywhere in `s`.
pub open spec fn marker_free(s: Seq<char>) -> bool {
    forall|i: int| 0 <= i < s.len() ==> !#[trigger] marker_at(s, i)
}

/// The substitution of the suffix of `s` that starts at `i`: scanning left to
/// right, each marker occurrence is replaced by its slot's value and skipped,
/// every other character is kept.
pub open spec fn subst_from(s: Seq<char>, i: int, name: Seq<char>, root: Seq<char>, conf: Seq<char>) -> Seq<char>
    decreases s.len() - i,
    via subst_from_decreases
{
    if i < 0 || i >= s.len() {
        Seq::empty()
    } else if occurs_at(s, i, name_marker()) {
        name + subst_from(s, i + name_marker().len(), name, root, conf)
    } else if occurs_at(s, i, root_marker()) {
        root + subst_from(s, i + root_marker().len(), name, root, conf)
    } else if occurs_at(s, i, config_dir_marker()) {
        conf + subst_from(s, i + config_dir_marker().len(), name, root, conf)
    } else {
        seq![s[i]] + subst_from(s, i + 1, name, root, conf)
    }
}

#[via_fn]
proof fn subst_from_decreases(s: Seq<char>, i: int, name: Seq<char>, root: Seq<char>, conf: Seq<char>) {
    lemma_marker_lengths();
}

/// `s` with every slot marker replaced by the slot's value.
pub open spec fn substitute(s: Seq<char>, name: Seq<char>, root: Seq<char>, conf: Seq<char>) -> Seq<char> {
    subst_from(s, 0, name, root, conf)
}

/// The substitution that `template` performs with `args`.
pub open spec fn template_spec(args: TemplateArgs, s: Seq<char>) -> Seq<char> {
    substitute(s, args.project_name@, args.project_root_path@, args.skel_config_path@)
}

/// A stretch of `s` in which no marker starts is copied unchanged.
pub proof fn lemma_subst_copies(s: Seq<char>, i: int, j: int, name: Seq<char>, root: Seq<char>, conf: Seq<char>)
    requires
        0 <= i <= j <= s.len(),
        forall|p: int| i <= p < j ==> !#[trigger] marker_at(s, p),
    ensures
        subst_from(s, i, name, root, conf) == s.subrange(i, j) + subst_from(s, j, name, root, conf),
    decreases j - i,
{
    if i < j {
        assert(!marker_at(s, i));
        lemma_subst_copies(s, i + 1, j, name, root, conf);
        assert(s.subrange(i, j) =~= seq![s[i]] + s.subrange(i + 1, j));
    } else {
        assert(s.subrange(i, j) =~= Seq::<char>::empty());
    }
}

/// A string without markers is left unchanged by the substitution, whatever
/// the slot values are.
pub proof fn lemma_substitute_marker_free(s: Seq<char>, name: Seq<char>, root: Seq<char>, conf: Seq<char>)
    requires
        marker_free(s),
    ensures
        substitute(s, name, root, conf) == s,
{
    lemma_subst_copies(s, 0, s.len() as int, name, root, conf);
    assert(s.subrange(0, s.len() as int) =~= s);
    assert(subst_from(s, s.len() as int, name, root, conf) =~= Seq::<char>::empty());
}

/// At an occurrence of the marker of `k`, the substitution emits the value of
/// `k` and resumes after the marker.
pub proof fn lemma_subst_at_marker(s: Seq<char>, i: int, k: Slot, name: Seq<char>, root: Seq<char>, conf: Seq<char>)
    requires
        occurs_at(s, i, marker(k)),
    ensures
        subst_from(s, i, name, root, conf) == slot_value(k, name, root, conf) + subst_from(
            s,
            i + marker(k).len(),
            name,
            root,
            conf,
        ),
{
    reveal(name_marker);
    reveal(root_marker);
    reveal(config_dir_marker);
    let w = s.subrange(i, i + marker(k).len());
    assert(w[2] == marker(k)[2]);
    match k {
        Slot::Name => {},
        Slot::Root => {
            assert(!occurs_at(s, i, name_marker())) by {
                assert(w[2] == 'r');
            }
        },
        Slot::ConfigDir => {
            assert(!occurs_at(s, i, name_marker())) by {
                if i + 8 <= s.len() {
                    assert(s.subrange(i, i + 8)[2] == w[2]);
                }
            }
            assert(!occurs_at(s, i, root_marker())) by {
                if i + 8 <= s.len() {
                    assert(s.subrange(i, i + 8)[2] == w[2]);
                }
            }
        },
    }
}

/// A string that holds each of the three markers exactly once, in any order,
/// becomes the string with each marker replaced by its slot's value.
#[verifier::rlimit(50)]
pub proof fn lemma_substitute_each_marker_once(
    s: Seq<char>,
    a: Seq<char>,
    b: Seq<char>,
    c: Seq<char>,
    d: Seq<char>,
    k1: Slot,
    k2: Slot,
    k3: Slot,
    name: Seq<char>,
    root: Seq<char>,
    conf: Seq<char>,
)
    requires
        k1 != k2,
        k2 != k3,
        k1 != k3,
        s == a + marker(k1) + b + marker(k2) + c + marker(k3) + d,
        forall|p: int|
            #[trigger] marker_at(s, p) ==> (p == a.len() || p == a.len() + marker(k1).len() + b.len()
                || p == a.len() + marker(k1).len() + b.len() + marker(k2).len() + c.len()),
    ensures
        substitute(s, name, root, conf) == a + slot_value(k1, name, root, conf) + b + slot_value(
            k2,
            name,
            root,
            conf,
        ) + c + slot_value(k3, name, root, conf) + d,
{
    lemma_marker_lengths();
    let m1 = marker(k1);
    let m2 = marker(k2);
    let m3 = marker(k3);
    let s1 = a + m1;
    let s2 = s1 + b;
    let s3 = s2 + m2;
    let s4 = s3 + c;
    let s5 = s4 + m3;
    assert(s =~= s5 + d);
    let at1 = a.len() as int;
    let end1 = s1.len() as int;
    let at2 = s2.len() as int;
    let end2 = s3.len() as int;
    let at3 = s4.len() as int;
    let end3 = s5.len() as int;
    // each piece of `s` where it stands
    assert(s.subrange(0, end3) =~= s5);
    assert(s.subrange(end3, s.len() as int) =~= d);
    assert(s5.subrange(0, at3) =~= s4);
    assert(s5.subrange(at3, end3) =~= m3);
    assert(s4.subrange(0, end2) =~= s3);
    assert(s4.subrange(end2, at3) =~= c);
    assert(s3.subrange(0, at2) =~= s2);
    assert(s3.subrange(at2, end2) =~= m2);
    assert(s2.subrange(0, end1) =~= s1);
    assert(s2.subrange(end1, at2) =~= b);
    assert(s1.subrange(0, at1) =~= a);
    assert(s1.subrange(at1, end1) =~= m1);
    assert(s.subrange(at3, end3) =~= m3);
    assert(s.subrange(end2, at3) =~= c);
    assert(s.subrange(at2, end2) =~= m2);
    assert(s.subrange(end1, at2) =~= b);
    assert(s.subrange(at1, end1) =~= m1);
    assert(s.subrange(0, at1) =~= a);
    let v1 = slot_value(k1, name, root, conf);
    let v2 = slot_value(k2, name, root, conf);
    let v3 = slot_value(k3, name, root, conf);
    lemma_subst_copies(s, end3, s.len() as int, name, root, conf);
    assert(subst_from(s, s.len() as int, name, root, conf) =~= Seq::<char>::empty());
    let r3 = v3 + d;
    lemma_subst_at_marker(s, at3, k3, name, root, conf);
    assert(subst_from(s, at3, name, root, conf) == r3);
    let r2 = c + r3;
    lemma_subst_copies(s, end2, at3, name, root, conf);
    assert(subst_from(s, end2, name, root, conf) == r2);
    let r1 = v2 + r2;
    lemma_subst_at_marker(s, at2, k2, name, root, conf);
    assert(subst_from(s, at2, name, root, conf) == r1);
    let r0 = b + r1;
    lemma_subst_copies(s, end1, at2, name, root, conf);
    assert(subst_from(s, end1, name, root, conf) == r0);
    lemma_subst_at_marker(s, at1, k1, name, root, conf);
    lemma_subst_copies(s, 0, at1, name, root, conf);
    assert(substitute(s, name, root, conf) == a + (v1 + r0));
    assert(a + (v1 + r0) =~= a + v1 + b + v2 + c + v3 + d);
}

/// The characters of `s`, in order.
pub fn chars_of(s: &str) -> (v: Vec<char>)
    ensures
        v@ == s@,
{
    let n = s.unicode_len();
    let mut v: Vec<char> = Vec::new();
    let mut i: usize = 0;
    while i < n
        invariant
            n == s@.len(),
            i <= n,
            v@ == s@.subrange(0, i as int),
        decreases n - i,
    {
        v.push(s.get_char(i));
        i += 1;
        assert(v@ =~= s@.subrange(0, i as int));
    }
    assert(v@ =~= s@);
    v
}

/// Whether `m` occurs in `v` at position `i`.
fn occurs_at_exec(v: &Vec<char>, i: usize, m: &str) -> (r: bool)
    ensures
        r == occurs_at(v@, i as int, m@),
{
    let mc = chars_of(m);
    let n = mc.len();
    if n > v.len() || i > v.len() - n {
        return false;
    }
    let mut k: usize = 0;
    while k < n
        invariant
            mc@ == m@,
            n == mc.len(),
            i + n <= v.len(),
            k <= n,
            forall|j: int| 0 <= j < k ==> v@[i + j] == mc@[j],
        decreases n - k,
    {
        if v[i + k] != mc[k] {
            assert(v@.subrange(i as int, i + n)[k as int] != m@[k as int]);
            return false;
        }
        k += 1;
    }
    assert(v@.subrange(i as int, i + n) =~= m@);
    true
}

/// Appends `lit` and then `v` to `out`.
fn push_piece(out: &mut String, lit: &str, v: &str)
    ensures
        final(out)@ == old(out)@ + lit@ + v@,
{
    out.append(lit);
    out.append(v);
}

/// Replaces every `{{name}}`, `{{root}}` and `{{config-dir}}` in `old_string`
/// by the project name, the project root and the configuration directory, in
/// one left-to-right pass.
pub fn template(template_view: &TemplateArgs, old_string: &str) -> (r: String)
    ensures
        r@ == template_spec(*template_view, old_string@),
{
    let s = chars_of(old_string);
    let n = s.len();
    let ghost name = template_view.project_name@;
    let ghost root = template_view.project_root_path@;
    let ghost conf = template_view.skel_config_path@;
    let mut out = String::new();
    let mut start: usize = 0;
    let mut i: usize = 0;
    while i < n
        invariant
            s@ == old_string@,
            n == s.len(),
            start <= i <= n,
            name == template_view.project_name@,
            root == template_view.project_root_path@,
            conf == template_view.skel_config_path@,
            out@ + s@.subrange(start as int, i as int) + subst_from(s@, i as int, name, root, conf)
                == substitute(s@, name, root, conf),
        decreases n - i,
    {
        proof {
            reveal(name_marker);
            reveal(root_marker);
            reveal(config_dir_marker);
            reveal_strlit("{{name}}");
            reveal_strlit("{{root}}");
            reveal_strlit("{{config-dir}}");
            assert("{{name}}"@ =~= name_marker());
            assert("{{root}}"@ =~= root_marker());
            assert("{{config-dir}}"@ =~= config_dir_marker());
        }
        let ghost prefix = out@ + s@.subrange(start as int, i as int);
        let ghost old_i = i;
        if occurs_at_exec(&s, i, "{{name}}") {
            assert(subst_from(s@, i as int, name, root, conf) == name + subst_from(s@, i + 8, name, root, conf));
            push_piece(&mut out, old_string.substring_char(start, i), template_view.project_name);
            i = i + 8;
            assert(out@ + subst_from(s@, i as int, name, root, conf) =~= prefix + subst_from(s@, old_i as int, name, root, conf));
        } else if occurs_at_exec(&s, i, "{{root}}") {
            assert(subst_from(s@, i as int, name, root, conf) == root + subst_from(s@, i + 8, name, root, conf));
            push_piece(&mut out, old_string.substring_char(start, i), template_view.project_root_path);
            i = i + 8;
            assert(out@ + subst_from(s@, i as int, name, root, conf) =~= prefix + subst_from(s@, old_i as int, name, root, conf));
        } else if occurs_at_exec(&s, i, "{{config-dir}}") {
            assert(subst_from(s@, i as int, name, root, conf) == conf + subst_from(s@, i + 14, name, root, conf));
            push_piece(&mut out, old_string.substring_char(start, i), template_view.skel_config_path);
            i = i + 14;
            assert(out@ + subst_from(s@, i as int, name, root, conf) =~= prefix + subst_from(s@, old_i as int, name, root, conf));
        } else {
            assert(subst_from(s@, i as int, name, root, conf) == seq![s@[i as int]] + subst_from(s@, i + 1, name, root, conf));
            assert(s@.subrange(start as int, i + 1) =~= s@.subrange(start as int, i as int)
                + seq![s@[i as int]]);
            assert(prefix + subst_from(s@, i as int, name, root, conf) =~= out@ + s@.subrange(start as int, i + 1) + subst_from(s@, i + 1, name, root, conf));
            i = i + 1;
            continue;
        }
        start = i;
        assert(s@.subrange(start as int, i as int) =~= Seq::<char>::empty());
        assert(out@ + s@.subrange(start as int, i as int) =~= out@);
    }
    let lit = old_string.substring_char(start, n);
    out.append(lit);
    assert(subst_from(s@, n as int, name, root, conf) =~= Seq::<char>::empty());
    out
}

} // verus!
