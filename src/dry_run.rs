//! The text of a dry run: what a plan would create, one line per entry, each
//! group in ascending order.
use crate::template::chars_of;
use crate::text::{push_str, strings};
use crate::order::{sort_pairs, sort_strings, sorted_pairs, sorted_strs};
use crate::tree::{ResolvedTree, TemplatePair};
use vstd::prelude::*;

verus! {

/// `l` without a carriage return at its end.
pub open spec fn strip_cr(l: Seq<char>) -> Seq<char> {
    if l.len() > 0 && l.last() == '\r' {
        l.drop_last()
    } else {
        l
    }
}

/// The lines of `s` from position `i` on, `cur` being the part of the
/// current line read so far: a line ends at `\n` (and then loses a `\r`
/// before it); a last line without `\n` counts where it is not empty.
pub open spec fn lines_acc(s: Seq<char>, i: int, cur: Seq<char>) -> Seq<Seq<char>>
    decreases s.len() - i,
{
    if i < 0 || i >= s.len() {
        if cur.len() > 0 {
            seq![cur]
        } else {
            Seq::empty()
        }
    } else if s[i] == '\n' {
        seq![strip_cr(cur)] + lines_acc(s, i + 1, Seq::empty())
    } else {
        lines_acc(s, i + 1, cur.push(s[i]))
    }
}

/// The lines of a text.
pub open spec fn text_lines(s: Seq<char>) -> Seq<Seq<char>> {
    lines_acc(s, 0, Seq::empty())
}

pub open spec fn indent(l: Seq<char>) -> Seq<char> {
    "    "@ + l
}

pub open spec fn indented(ls: Seq<Seq<char>>) -> Seq<Seq<char>> {
    ls.map_values(|l: Seq<char>| indent(l))
}

/// A template: a rule, its destination, its text indented, a rule.
pub open spec fn template_block(t: TemplatePair) -> Seq<Seq<char>> {
    seq!["  ------"@, "  template -> "@ + t.0] + indented(text_lines(t.1)) + seq!["  ------"@]
}

pub open spec fn template_blocks(ts: Seq<TemplatePair>) -> Seq<Seq<char>>
    decreases ts.len(),
{
    if ts.len() == 0 {
        Seq::empty()
    } else {
        template_blocks(ts.drop_last()) + template_block(ts.last())
    }
}

pub open spec fn bool_text(b: bool) -> Seq<char> {
    if b {
        "true"@
    } else {
        "false"@
    }
}

/// The lines of a dry run: a warning where the root exists already, the
/// root, each directory, each file, each template with its text, and the
/// build script with its timing.
pub open spec fn dry_run_view(
    root: Seq<char>,
    root_exists: bool,
    dirs: Seq<Seq<char>>,
    files: Seq<Seq<char>>,
    templates: Seq<TemplatePair>,
    build: Option<Seq<char>>,
    build_first: bool,
) -> Seq<Seq<char>> {
    let warning = if root_exists {
        seq!["\x1b[33mWarning "@ + root + " already exists\x1b[0m\n"@]
    } else {
        Seq::empty()
    };
    let build_lines = match build {
        Some(b) => seq!["  build first = "@ + bool_text(build_first), "  ------\n    "@ + b + "\n  ------"@],
        None => Seq::empty(),
    };
    warning + seq!["would make in to -> "@ + root] + dirs.map_values(|d: Seq<char>| "  dir  -> "@ + d)
        + files.map_values(|f: Seq<char>| "  file -> "@ + f) + template_blocks(templates) + build_lines
}

pub open spec fn opt_str_view(o: Option<&str>) -> Option<Seq<char>> {
    match o {
        Some(s) => Some(s@),
        None => None,
    }
}

/// `a` followed by `b`, as a new string.
fn concat(a: &str, b: &str) -> (r: String)
    ensures
        r@ == a@ + b@,
{
    let mut s = String::new();
    push_str(&mut s, a);
    push_str(&mut s, b);
    assert(s@ =~= a@ + b@);
    s
}

/// Appends the lines of `text`, indented.
fn push_text_lines(out: &mut Vec<String>, text: &str)
    ensures
        strings(final(out)@) == strings(old(out)@) + indented(text_lines(text@)),
{
    let s = chars_of(text);
    let n = s.len();
    let ghost base = strings(out@);
    let ghost mut done: Seq<Seq<char>> = Seq::empty();
    let mut start: usize = 0;
    let mut i: usize = 0;
    assert(s@.subrange(0, 0) =~= Seq::<char>::empty());
    assert(done + text_lines(text@) =~= text_lines(text@));
    assert(base + indented(done) =~= base);
    while i < n
        invariant
            s@ == text@,
            n == s.len(),
            start <= i <= n,
            strings(out@) == base + indented(done),
            done + lines_acc(s@, i as int, s@.subrange(start as int, i as int)) == text_lines(
                text@,
            ),
        decreases n - i,
    {
        let ghost cur = s@.subrange(start as int, i as int);
        if s[i] == '\n' {
            let end = if i > start && s[i - 1] == '\r' {
                i - 1
            } else {
                i
            };
            assert(s@.subrange(start as int, end as int) =~= strip_cr(cur));
            let line = concat("    ", text.substring_char(start, end));
            let ghost before = strings(out@);
            out.push(line);
            assert(strings(out@) =~= before.push(indent(strip_cr(cur))));
            proof {
                assert(indented(done.push(strip_cr(cur))) =~= indented(done).push(
                    indent(strip_cr(cur)),
                ));
                assert(seq![strip_cr(cur)] + lines_acc(s@, i + 1, Seq::empty()) == lines_acc(
                    s@,
                    i as int,
                    cur,
                ));
                assert(done + lines_acc(s@, i as int, cur) =~= done.push(strip_cr(cur))
                    + lines_acc(s@, i + 1, Seq::empty()));
                done = done.push(strip_cr(cur));
            }
            start = i + 1;
            i = i + 1;
            assert(s@.subrange(start as int, i as int) =~= Seq::<char>::empty());
        } else {
            assert(s@.subrange(start as int, i + 1) =~= cur.push(s@[i as int]));
            i = i + 1;
        }
    }
    let ghost cur = s@.subrange(start as int, n as int);
    if start < n {
        let line = concat("    ", text.substring_char(start, n));
        let ghost before = strings(out@);
        out.push(line);
        assert(strings(out@) =~= before.push(indent(cur)));
        assert(indented(done.push(cur)) =~= indented(done).push(indent(cur)));
        assert(done + lines_acc(s@, n as int, cur) =~= done.push(cur));
    } else {
        assert(cur =~= Seq::<char>::empty());
        assert(done + lines_acc(s@, n as int, cur) =~= done);
    }
}

/// The lines of a dry run of the given groups under `root`, in their order.
fn render_lines(
    tree: &ResolvedTree,
    root: &str,
    root_exists: bool,
    build: Option<&str>,
    build_first: bool,
) -> (r: Vec<String>)
    ensures
        strings(r@) == dry_run_view(
            root@,
            root_exists,
            tree.dirs_view(),
            tree.files_view(),
            tree.templates_view(),
            opt_str_view(build),
            build_first,
        ),
{
    let mut out: Vec<String> = Vec::new();
    if root_exists {
        let mut w = concat("\x1b[33mWarning ", root);
        push_str(&mut w, " already exists\x1b[0m\n");
        out.push(w);
    }
    out.push(concat("would make in to -> ", root));
    let ghost head = strings(out@);
    assert(head =~= (if root_exists {
        seq!["\x1b[33mWarning "@ + root@ + " already exists\x1b[0m\n"@]
    } else {
        Seq::<Seq<char>>::empty()
    }) + seq!["would make in to -> "@ + root@]);
    let ghost d = tree.dirs_view().map_values(|d: Seq<char>| "  dir  -> "@ + d);
    let mut i: usize = 0;
    while i < tree.dirs.len()
        invariant
            i <= tree.dirs.len(),
            d == tree.dirs_view().map_values(|d: Seq<char>| "  dir  -> "@ + d),
            strings(out@) == head + d.take(i as int),
        decreases tree.dirs.len() - i,
    {
        let ghost before = strings(out@);
        out.push(concat("  dir  -> ", tree.dirs[i].as_str()));
        assert(strings(out@) =~= before.push(d[i as int]));
        assert(d.take(i + 1) =~= d.take(i as int).push(d[i as int]));
        i += 1;
    }
    assert(d.take(tree.dirs.len() as int) =~= d);
    let ghost head2 = head + d;
    let ghost f = tree.files_view().map_values(|f: Seq<char>| "  file -> "@ + f);
    let mut i: usize = 0;
    while i < tree.files.len()
        invariant
            i <= tree.files.len(),
            f == tree.files_view().map_values(|f: Seq<char>| "  file -> "@ + f),
            strings(out@) == head2 + f.take(i as int),
        decreases tree.files.len() - i,
    {
        let ghost before = strings(out@);
        out.push(concat("  file -> ", tree.files[i].as_str()));
        assert(strings(out@) =~= before.push(f[i as int]));
        assert(f.take(i + 1) =~= f.take(i as int).push(f[i as int]));
        i += 1;
    }
    assert(f.take(tree.files.len() as int) =~= f);
    let ghost head3 = head2 + f;
    let ghost ts = tree.templates_view();
    let mut i: usize = 0;
    while i < tree.templates.len()
        invariant
            i <= tree.templates.len(),
            ts == tree.templates_view(),
            strings(out@) == head3 + template_blocks(ts.take(i as int)),
        decreases tree.templates.len() - i,
    {
        let ghost before = strings(out@);
        let (p, text) = &tree.templates[i];
        out.push(String::from_str("  ------"));
        out.push(concat("  template -> ", p.as_str()));
        let ghost b0 = strings(out@);
        assert(b0 =~= before + seq!["  ------"@, "  template -> "@ + p@]);
        push_text_lines(&mut out, text.as_str());
        let ghost b1 = strings(out@);
        out.push(String::from_str("  ------"));
        assert(strings(out@) =~= b1.push("  ------"@));
        assert(ts[i as int] == (p@, text@));
        assert(strings(out@) =~= before + template_block(ts[i as int]));
        assert(ts.take(i + 1).last() == ts[i as int]);
        assert(ts.take(i + 1).drop_last() =~= ts.take(i as int));
        i += 1;
    }
    assert(ts.take(tree.templates.len() as int) =~= ts);
    let ghost head4 = strings(out@);
    if let Some(b) = build {
        let first = if build_first {
            "true"
        } else {
            "false"
        };
        out.push(concat("  build first = ", first));
        let mut s = concat("  ------\n    ", b);
        push_str(&mut s, "\n  ------");
        out.push(s);
        assert(strings(out@) =~= head4 + seq![
            "  build first = "@ + bool_text(build_first),
            "  ------\n    "@ + b@ + "\n  ------"@,
        ]);
    } else {
        assert(strings(out@) =~= head4 + Seq::<Seq<char>>::empty());
    }
    out
}

/// The lines of a dry run of `tree` under `root`: each group, directories,
/// files and templates, in ascending order (templates by destination, then
/// text), so that the listing does not depend on the order of the
/// definition. A group in ascending order is unique
/// (`lemma_sorted_strs_unique`, `lemma_sorted_pairs_unique`), so the lines
/// are fixed. The caller prints them.
pub fn dry_run_lines(
    tree: &ResolvedTree,
    root: &str,
    root_exists: bool,
    build: Option<&str>,
    build_first: bool,
) -> (r: Vec<String>)
    ensures
        exists|ds: Seq<Seq<char>>, fs: Seq<Seq<char>>, ts: Seq<TemplatePair>|
            {
                &&& ds.to_multiset() == tree.dirs_view().to_multiset()
                &&& sorted_strs(ds)
                &&& fs.to_multiset() == tree.files_view().to_multiset()
                &&& sorted_strs(fs)
                &&& ts.to_multiset() == tree.templates_view().to_multiset()
                &&& sorted_pairs(ts)
                &&& strings(r@) == dry_run_view(
                    root@,
                    root_exists,
                    ds,
                    fs,
                    ts,
                    opt_str_view(build),
                    build_first,
                )
            },
{
    let sorted = ResolvedTree {
        dirs: sort_strings(&tree.dirs),
        files: sort_strings(&tree.files),
        templates: sort_pairs(&tree.templates),
    };
    let r = render_lines(&sorted, root, root_exists, build, build_first);
    assert(strings(r@) == dry_run_view(
        root@,
        root_exists,
        sorted.dirs_view(),
        sorted.files_view(),
        sorted.templates_view(),
        opt_str_view(build),
        build_first,
    ));
    r
}

} // verus!
