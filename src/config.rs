//! The registry of skeletons: names, definition paths and aliases, the check
//! that no two entries share a key or an alias, and the lookup of a name.
use crate::parse_args::SkelArgs;
use crate::skel_error::{SkelErrType, SkelError};
use crate::template::{substitute, template, TemplateArgs};
use crate::text::{contains_string, join, join_strings, push_str, strings};
use vstd::prelude::*;

verus! {

/// Where to find a skeleton's definition, and the other names it goes by.
#[derive(Debug)]
pub struct Skeleton {
    pub path: String,
    pub aliases: Vec<String>,
}

/// The registry: each skeleton under its key, in the order of the file.
#[derive(Debug)]
pub struct MainConfig {
    pub skeletons: Vec<(String, Skeleton)>,
}

/// A file written from a template: its destination, and either its text or
/// the path of a file that holds it.
#[derive(Debug, Clone)]
pub struct SkelTemplate {
    pub path: String,
    pub template: Option<String>,
    pub include_file: Option<String>,
}

/// A skeleton definition: what to create, and an optional build script.
#[derive(Debug)]
pub struct SkelConfig {
    pub dirs: Option<Vec<String>>,
    pub files: Option<Vec<String>>,
    pub templates: Option<Vec<SkelTemplate>>,
    pub build: Option<String>,
    pub build_first: Option<bool>,
}

/// What a run needs: the definition, and the values of the three slots.
#[derive(Debug)]
pub struct RunConfig {
    pub skel_conf: SkelConfig,
    pub root_path: String,
    pub name: String,
    pub config_dir: String,
}

/// A template entry as values: destination, text, include path.
pub type TemplateEntryView = (Seq<char>, Option<Seq<char>>, Option<Seq<char>>);

pub open spec fn opt_view(o: Option<String>) -> Option<Seq<char>> {
    match o {
        Some(s) => Some(s@),
        None => None,
    }
}

/// The entries of an optional list; an absent list has none.
pub open spec fn opt_strings(o: Option<Vec<String>>) -> Seq<Seq<char>> {
    match o {
        Some(v) => strings(v@),
        None => Seq::empty(),
    }
}

pub open spec fn entry_view(t: SkelTemplate) -> TemplateEntryView {
    (t.path@, opt_view(t.template), opt_view(t.include_file))
}

pub open spec fn entry_views(o: Option<Vec<SkelTemplate>>) -> Seq<TemplateEntryView> {
    match o {
        Some(v) => v@.map_values(|t: SkelTemplate| entry_view(t)),
        None => Seq::empty(),
    }
}

impl RunConfig {
    /// The values of the name, root and configuration-directory slots.
    pub open spec fn slots(&self) -> (Seq<char>, Seq<char>, Seq<char>) {
        (self.name@, self.root_path@, self.config_dir@)
    }
}

/// A registry entry as values: key, definition path, aliases.
pub type RegistryEntry = (Seq<char>, Seq<char>, Seq<Seq<char>>);

/// A reported duplicate as values: the two keys and the shared aliases.
pub type DuplicateView = (Seq<char>, Seq<char>, Seq<Seq<char>>);

pub open spec fn entry_of(e: (String, Skeleton)) -> RegistryEntry {
    (e.0@, e.1.path@, strings(e.1.aliases@))
}

impl MainConfig {
    pub open spec fn entries(&self) -> Seq<RegistryEntry> {
        self.skeletons@.map_values(|e: (String, Skeleton)| entry_of(e))
    }
}

/// The aliases of `a` that `b` holds too, in the order of `a`.
pub open spec fn common_aliases(a: Seq<Seq<char>>, b: Seq<Seq<char>>) -> Seq<Seq<char>>
    decreases a.len(),
{
    if a.len() == 0 {
        Seq::empty()
    } else if b.contains(a.last()) {
        common_aliases(a.drop_last(), b).push(a.last())
    } else {
        common_aliases(a.drop_last(), b)
    }
}

/// Two entries clash: they have the same key, an alias in common, or one
/// lists the other's key as an alias.
pub open spec fn conflict(x: RegistryEntry, y: RegistryEntry) -> bool {
    x.0 == y.0 || common_aliases(x.2, y.2).len() > 0 || y.2.contains(x.0) || x.2.contains(y.0)
}

/// The names that two entries share as aliases: their common aliases, then
/// the key of either one where the other lists it as an alias (unless it is
/// a common alias already).
pub open spec fn clashing_names(x: RegistryEntry, y: RegistryEntry) -> Seq<Seq<char>> {
    let by_x = if y.2.contains(x.0) && !x.2.contains(x.0) {
        seq![x.0]
    } else {
        Seq::empty()
    };
    let by_y = if x.2.contains(y.0) && !y.2.contains(y.0) {
        seq![y.0]
    } else {
        Seq::empty()
    };
    common_aliases(x.2, y.2) + by_x + by_y
}

/// The duplicates that entry `i` forms with the entries from `j` on.
pub open spec fn dups_row(e: Seq<RegistryEntry>, i: int, j: int) -> Seq<DuplicateView>
    decreases e.len() - j,
{
    if j < 0 || j >= e.len() {
        Seq::empty()
    } else if conflict(e[i], e[j]) {
        seq![(e[i].0, e[j].0, clashing_names(e[i], e[j]))] + dups_row(e, i, j + 1)
    } else {
        dups_row(e, i, j + 1)
    }
}

/// The duplicates among the pairs whose first entry is `i` or later.
pub open spec fn dups_from(e: Seq<RegistryEntry>, i: int) -> Seq<DuplicateView>
    decreases e.len() - i,
{
    if i < 0 || i >= e.len() {
        Seq::empty()
    } else {
        dups_row(e, i, i + 1) + dups_from(e, i + 1)
    }
}

/// Every clashing pair of entries, each pair once, in the order of the
/// registry.
pub open spec fn duplicates(e: Seq<RegistryEntry>) -> Seq<DuplicateView> {
    dups_from(e, 0)
}

/// `x` in red on a terminal.
pub open spec fn red(x: Seq<char>) -> Seq<char> {
    "\x1b[31m"@ + x + "\x1b[0m"@
}

pub open spec fn dup_line(d: DuplicateView) -> Seq<char> {
    "keys ["@ + red(d.0) + ", "@ + red(d.1) + "]\n    alias: ["@ + red(join(d.2, ", "@)) + "]"@
}

pub open spec fn dup_lines(ds: Seq<DuplicateView>) -> Seq<char>
    decreases ds.len(),
{
    if ds.len() == 0 {
        Seq::empty()
    } else if ds.len() == 1 {
        dup_line(ds[0])
    } else {
        dup_lines(ds.drop_last()) + "\n"@ + dup_line(ds.last())
    }
}

/// The report of the duplicates `ds`: a heading, then one entry per duplicate.
pub open spec fn dup_message(ds: Seq<DuplicateView>) -> Seq<char> {
    "duplicate keys or aliases found\n"@ + dup_lines(ds)
}

/// The path of the first entry from `i` on whose key is `t`.
pub open spec fn find_key(e: Seq<RegistryEntry>, t: Seq<char>, i: int) -> Option<Seq<char>>
    decreases e.len() - i,
{
    if i < 0 || i >= e.len() {
        None
    } else if e[i].0 == t {
        Some(e[i].1)
    } else {
        find_key(e, t, i + 1)
    }
}

/// The path of the first entry from `i` on that has `t` among its aliases.
pub open spec fn find_alias(e: Seq<RegistryEntry>, t: Seq<char>, i: int) -> Option<Seq<char>>
    decreases e.len() - i,
{
    if i < 0 || i >= e.len() {
        None
    } else if e[i].2.contains(t) {
        Some(e[i].1)
    } else {
        find_alias(e, t, i + 1)
    }
}

/// The definition path that `t` names: a key takes precedence over an alias.
pub open spec fn lookup(e: Seq<RegistryEntry>, t: Seq<char>) -> Option<Seq<char>> {
    match find_key(e, t, 0) {
        Some(p) => Some(p),
        None => find_alias(e, t, 0),
    }
}

pub open spec fn not_found_message(t: Seq<char>) -> Seq<char> {
    "did not find matching skeleton or alias for "@ + t
}

proof fn lemma_common_nonempty(a: Seq<Seq<char>>, b: Seq<Seq<char>>)
    ensures
        common_aliases(a, b).len() > 0 <==> exists|k: int| 0 <= k < a.len() && b.contains(#[trigger] a[k]),
    decreases a.len(),
{
    if a.len() > 0 {
        lemma_common_nonempty(a.drop_last(), b);
        if common_aliases(a.drop_last(), b).len() > 0 {
            let k = choose|k: int| 0 <= k < a.drop_last().len() && b.contains(#[trigger] a.drop_last()[k]);
            assert(b.contains(a[k]));
        }
        if exists|k: int| 0 <= k < a.len() && b.contains(#[trigger] a[k]) {
            let k = choose|k: int| 0 <= k < a.len() && b.contains(#[trigger] a[k]);
            if k < a.len() - 1 {
                assert(b.contains(a.drop_last()[k]));
            }
        }
    }
}

/// Clashing is symmetric: `x` clashes with `y` exactly when `y` clashes with `x`.
pub proof fn lemma_conflict_symmetric(x: RegistryEntry, y: RegistryEntry)
    ensures
        conflict(x, y) == conflict(y, x),
{
    lemma_common_nonempty(x.2, y.2);
    lemma_common_nonempty(y.2, x.2);
    if exists|k: int| 0 <= k < x.2.len() && y.2.contains(#[trigger] x.2[k]) {
        let k = choose|k: int| 0 <= k < x.2.len() && y.2.contains(#[trigger] x.2[k]);
        let m = choose|m: int| 0 <= m < y.2.len() && y.2[m] == x.2[k];
        assert(x.2.contains(y.2[m]));
    }
    if exists|m: int| 0 <= m < y.2.len() && x.2.contains(#[trigger] y.2[m]) {
        let m = choose|m: int| 0 <= m < y.2.len() && x.2.contains(#[trigger] y.2[m]);
        let k = choose|k: int| 0 <= k < x.2.len() && x.2[k] == y.2[m];
        assert(y.2.contains(x.2[k]));
    }
}

proof fn lemma_dups_row_nonempty(e: Seq<RegistryEntry>, i: int, j: int)
    requires
        0 <= i < e.len(),
        0 <= j,
    ensures
        dups_row(e, i, j).len() > 0 <==> exists|k: int| j <= k < e.len() && #[trigger] conflict(e[i], e[k]),
    decreases e.len() - j,
{
    if j < e.len() {
        lemma_dups_row_nonempty(e, i, j + 1);
        if exists|k: int| j <= k < e.len() && #[trigger] conflict(e[i], e[k]) {
            let k = choose|k: int| j <= k < e.len() && #[trigger] conflict(e[i], e[k]);
            if k > j {
                assert(j + 1 <= k);
            }
        }
    }
}

proof fn lemma_dups_from_nonempty(e: Seq<RegistryEntry>, i: int)
    requires
        0 <= i,
    ensures
        dups_from(e, i).len() > 0 <==> exists|a: int, b: int|
            i <= a < b < e.len() && #[trigger] conflict(e[a], e[b]),
    decreases e.len() - i,
{
    if i < e.len() {
        lemma_dups_from_nonempty(e, i + 1);
        lemma_dups_row_nonempty(e, i, i + 1);
        if dups_row(e, i, i + 1).len() > 0 {
            let k = choose|k: int| i + 1 <= k < e.len() && #[trigger] conflict(e[i], e[k]);
            assert(i <= i < k < e.len() && conflict(e[i], e[k]));
        }
        if exists|a: int, b: int| i <= a < b < e.len() && #[trigger] conflict(e[a], e[b]) {
            let (a, b) = choose|a: int, b: int| i <= a < b < e.len() && #[trigger] conflict(e[a], e[b]);
            if a == i {
                assert(i + 1 <= b < e.len() && conflict(e[i], e[b]));
            } else {
                assert(i + 1 <= a < b < e.len() && conflict(e[a], e[b]));
            }
        }
    }
}

/// The registry check finds duplicates exactly when two distinct entries
/// share a key or an alias, whichever of the two is declared first.
pub proof fn lemma_duplicates_iff_conflict(e: Seq<RegistryEntry>)
    ensures
        duplicates(e).len() > 0 <==> exists|a: int, b: int|
            0 <= a < e.len() && 0 <= b < e.len() && a != b && #[trigger] conflict(e[a], e[b]),
{
    lemma_dups_from_nonempty(e, 0);
    if exists|a: int, b: int| 0 <= a < e.len() && 0 <= b < e.len() && a != b && #[trigger] conflict(e[a], e[b]) {
        let (a, b) = choose|a: int, b: int|
            0 <= a < e.len() && 0 <= b < e.len() && a != b && #[trigger] conflict(e[a], e[b]);
        lemma_conflict_symmetric(e[a], e[b]);
        if a < b {
            assert(0 <= a < b < e.len() && conflict(e[a], e[b]));
        } else {
            assert(0 <= b < a < e.len() && conflict(e[b], e[a]));
        }
    }
}

/// Two entries with an alias in common make the check fail in either order;
/// two entries with different keys, no alias in common and neither key
/// among the other's aliases pass it in either order.
pub proof fn lemma_two_entries_either_order(x: RegistryEntry, y: RegistryEntry)
    ensures
        duplicates(seq![x, y]).len() > 0 <==> conflict(x, y),
        duplicates(seq![y, x]).len() > 0 <==> conflict(x, y),
        (exists|k: int| 0 <= k < x.2.len() && y.2.contains(#[trigger] x.2[k])) ==> duplicates(
            seq![x, y],
        ).len() > 0 && duplicates(seq![y, x]).len() > 0,
        (x.0 != y.0 && !y.2.contains(x.0) && !x.2.contains(y.0) && forall|k: int|
            0 <= k < x.2.len() ==> !y.2.contains(#[trigger] x.2[k]))
            ==> duplicates(seq![x, y]).len() == 0 && duplicates(seq![y, x]).len() == 0,
{
    lemma_conflict_symmetric(x, y);
    lemma_common_nonempty(x.2, y.2);
    let e1 = seq![x, y];
    let e2 = seq![y, x];
    assert(e1[0] == x && e1[1] == y && e1.len() == 2);
    assert(e2[0] == y && e2[1] == x && e2.len() == 2);
    assert(dups_row(e1, 1, 2).len() == 0);
    assert(dups_row(e2, 1, 2).len() == 0);
    assert(dups_from(e1, 2).len() == 0);
    assert(dups_from(e2, 2).len() == 0);
    assert(dups_row(e1, 0, 2).len() == 0);
    assert(dups_row(e2, 0, 2).len() == 0);
    assert(dups_from(e1, 1) =~= dups_row(e1, 1, 2) + dups_from(e1, 2));
    assert(dups_from(e2, 1) =~= dups_row(e2, 1, 2) + dups_from(e2, 2));
    assert(duplicates(e1) =~= dups_row(e1, 0, 1) + dups_from(e1, 1));
    assert(duplicates(e2) =~= dups_row(e2, 0, 1) + dups_from(e2, 1));
    assert(dups_row(e1, 0, 1).len() > 0 <==> conflict(x, y));
    assert(dups_row(e2, 0, 1).len() > 0 <==> conflict(y, x));
}

/// A key that another entry lists as an alias is caught by the registry
/// check, so lookups never fall back on the precedence of keys over aliases.
pub proof fn lemma_key_as_other_alias_detected(e: Seq<RegistryEntry>, i: int, j: int)
    requires
        0 <= i < e.len(),
        0 <= j < e.len(),
        i != j,
        e[j].2.contains(e[i].0),
    ensures
        duplicates(e).len() > 0,
{
    assert(conflict(e[i], e[j]));
    lemma_duplicates_iff_conflict(e);
}

/// No two entries of the registry clash: keys are unique, no alias is shared
/// and no key is another entry's alias. A registry that passes the check is
/// a map from names to definition paths.
pub open spec fn registry_wf(e: Seq<RegistryEntry>) -> bool {
    forall|a: int, b: int|
        0 <= a < e.len() && 0 <= b < e.len() && a != b ==> !#[trigger] conflict(e[a], e[b])
}

impl MainConfig {
    pub open spec fn wf(&self) -> bool {
        registry_wf(self.entries())
    }
}

// a duplicate found in a registry
struct Duplicate {
    key_1: String,
    key_2: String,
    alias: Vec<String>,
}

spec fn dup_view(d: Duplicate) -> DuplicateView {
    (d.key_1@, d.key_2@, strings(d.alias@))
}

spec fn dup_views(ds: Seq<Duplicate>) -> Seq<DuplicateView> {
    ds.map_values(|d: Duplicate| dup_view(d))
}

/// `x` in red, appended to `out`.
fn push_red(out: &mut String, x: &str)
    ensures
        final(out)@ == old(out)@ + red(x@),
{
    let ghost o = out@;
    push_str(out, "\x1b[31m");
    push_str(out, x);
    push_str(out, "\x1b[0m");
    assert(out@ =~= o + red(x@));
}

fn push_dup_line(out: &mut String, dup: &Duplicate)
    ensures
        final(out)@ == old(out)@ + dup_line(dup_view(*dup)),
{
    let ghost o = out@;
    push_str(out, "keys [");
    push_red(out, dup.key_1.as_str());
    push_str(out, ", ");
    push_red(out, dup.key_2.as_str());
    push_str(out, "]\n    alias: [");
    let aliases = join_strings(&dup.alias, ", ");
    push_red(out, aliases.as_str());
    push_str(out, "]");
    assert(out@ =~= o + dup_line(dup_view(*dup)));
}

fn make_duplicate_err_msg(duplicates: &[Duplicate]) -> (r: String)
    ensures
        r@ == dup_message(dup_views(duplicates@)),
{
    let mut dup_str = String::new();
    push_str(&mut dup_str, "duplicate keys or aliases found\n");
    let ghost head = dup_str@;
    let mut i: usize = 0;
    while i < duplicates.len()
        invariant
            i <= duplicates.len(),
            head == "duplicate keys or aliases found\n"@,
            dup_str@ == head + dup_lines(dup_views(duplicates@).take(i as int)),
        decreases duplicates.len() - i,
    {
        let ghost before = dup_str@;
        // a new line between two entries
        if i > 0 {
            push_str(&mut dup_str, "\n");
        }
        push_dup_line(&mut dup_str, &duplicates[i]);
        assert(dup_views(duplicates@).take(i + 1).drop_last() =~= dup_views(duplicates@).take(
            i as int,
        ));
        assert(dup_views(duplicates@).take(i + 1).last() == dup_view(duplicates@[i as int]));
        assert(dup_str@ =~= head + dup_lines(dup_views(duplicates@).take(i + 1)));
        i += 1;
    }
    assert(dup_views(duplicates@).take(duplicates.len() as int) =~= dup_views(duplicates@));
    dup_str
}

/// The aliases of `a` that `b` holds too.
fn common_alias_list(a: &Vec<String>, b: &Vec<String>) -> (r: Vec<String>)
    ensures
        strings(r@) == common_aliases(strings(a@), strings(b@)),
{
    let mut r: Vec<String> = Vec::new();
    let mut k: usize = 0;
    while k < a.len()
        invariant
            k <= a.len(),
            strings(r@) == common_aliases(strings(a@).take(k as int), strings(b@)),
        decreases a.len() - k,
    {
        let ghost ta = strings(a@).take(k + 1);
        assert(ta.drop_last() =~= strings(a@).take(k as int));
        assert(ta.last() == a@[k as int]@);
        if contains_string(b, &a[k]) {
            r.push(a[k].clone());
            assert(strings(r@) =~= common_aliases(strings(a@).take(k as int), strings(b@)).push(
                a@[k as int]@,
            ));
        }
        k += 1;
    }
    assert(strings(a@).take(a.len() as int) =~= strings(a@));
    r
}

fn find_duplicates(config: &MainConfig) -> (r: Vec<Duplicate>)
    ensures
        dup_views(r@) == duplicates(config.entries()),
{
    let ghost e = config.entries();
    let n = config.skeletons.len();
    let mut duplicates: Vec<Duplicate> = Vec::new();
    let mut i: usize = 0;
    // every pair (i, j) with i < j, in order
    while i < n
        invariant
            e == config.entries(),
            n == e.len(),
            i <= n,
            dup_views(duplicates@) + dups_from(e, i as int) == dups_from(e, 0),
        decreases n - i,
    {
        let mut j: usize = i + 1;
        while j < n
            invariant
                e == config.entries(),
                n == e.len(),
                i < n,
                i < j <= n,
                dup_views(duplicates@) + dups_row(e, i as int, j as int) + dups_from(e, i + 1)
                    == dups_from(e, 0),
            decreases n - j,
        {
            let (key_1, skeleton_1) = &config.skeletons[i];
            let (key_2, skeleton_2) = &config.skeletons[j];
            assert(e[i as int] == entry_of(config.skeletons@[i as int]));
            assert(e[j as int] == entry_of(config.skeletons@[j as int]));
            let mut alias = common_alias_list(&skeleton_1.aliases, &skeleton_2.aliases);
            let common_count = alias.len();
            let key_1_aliased = contains_string(&skeleton_2.aliases, key_1);
            let key_2_aliased = contains_string(&skeleton_1.aliases, key_2);
            let ghost common = strings(alias@);
            if key_1_aliased && !contains_string(&skeleton_1.aliases, key_1) {
                alias.push(key_1.clone());
            }
            let ghost with_1 = strings(alias@);
            if key_2_aliased && !contains_string(&skeleton_2.aliases, key_2) {
                alias.push(key_2.clone());
            }
            assert(strings(alias@) =~= clashing_names(e[i as int], e[j as int]));
            let ghost before = dup_views(duplicates@);
            if *key_1 == *key_2 || common_count > 0 || key_1_aliased || key_2_aliased {
                let dup = Duplicate { key_1: key_1.clone(), key_2: key_2.clone(), alias };
                duplicates.push(dup);
                assert(dup_views(duplicates@) =~= before + seq![dup_view(dup)]);
            } else {
                assert(dup_views(duplicates@) =~= before);
            }
            j += 1;
        }
        i += 1;
    }
    assert(dup_views(duplicates@) =~= dup_views(duplicates@) + dups_from(e, n as int));
    duplicates
}

/// Checks the registry for entries that share a key or an alias, or where
/// one lists the other's key as an alias; every such pair is reported in one
/// message. A registry that passes is well formed.
pub fn check_config(config: &MainConfig) -> (r: Result<(), SkelError>)
    ensures
        r is Ok <==> duplicates(config.entries()).len() == 0,
        r is Ok <==> config.wf(),
        r is Err ==> r->Err_0.err_type == SkelErrType::DuplicateAlias && r->Err_0.err_str@
            == dup_message(duplicates(config.entries())),
{
    let duplicates = find_duplicates(config);
    proof {
        lemma_duplicates_iff_conflict(config.entries());
    }
    if duplicates.len() > 0 {
        let dup_err_msg = make_duplicate_err_msg(duplicates.as_slice());
        Err(SkelError::new(SkelErrType::DuplicateAlias, dup_err_msg))
    } else {
        Ok(())
    }
}

/// The definition path that `target` names in the registry, as a key or else
/// as an alias.
pub fn skeleton_path_from_config(target: &str, main_config: &MainConfig) -> (r: Result<
    String,
    SkelError,
>)
    ensures
        match lookup(main_config.entries(), target@) {
            Some(p) => r is Ok && r->Ok_0@ == p,
            None => r is Err && r->Err_0.err_type == SkelErrType::NotFound && r->Err_0.err_str@
                == not_found_message(target@),
        },
{
    let ghost e = main_config.entries();
    let t = target.to_owned();
    let n = main_config.skeletons.len();
    let mut i: usize = 0;
    while i < n
        invariant
            e == main_config.entries(),
            n == e.len(),
            t@ == target@,
            i <= n,
            find_key(e, t@, 0) == find_key(e, t@, i as int),
        decreases n - i,
    {
        assert(e[i as int] == entry_of(main_config.skeletons@[i as int]));
        if main_config.skeletons[i].0 == t {
            return Ok(main_config.skeletons[i].1.path.clone());
        }
        i += 1;
    }
    // check all the aliases to see if one matches
    let mut i: usize = 0;
    while i < n
        invariant
            e == main_config.entries(),
            n == e.len(),
            t@ == target@,
            i <= n,
            find_key(e, t@, 0) is None,
            find_alias(e, t@, 0) == find_alias(e, t@, i as int),
        decreases n - i,
    {
        assert(e[i as int] == entry_of(main_config.skeletons@[i as int]));
        if contains_string(&main_config.skeletons[i].1.aliases, &t) {
            return Ok(main_config.skeletons[i].1.path.clone());
        }
        i += 1;
    }
    let mut msg = String::new();
    push_str(&mut msg, "did not find matching skeleton or alias for ");
    push_str(&mut msg, target);
    Err(SkelError::new(SkelErrType::NotFound, msg))
}

pub open spec fn no_skeleton_message() -> Seq<char> {
    "did not get skeleton to make some how"@
}

/// The skeleton file to make from: the one given on the command line, else
/// the registry's path for the skeleton named, with the configuration
/// directory substituted (name and root are not known yet and stand empty).
pub fn get_skeleton_config_path(args: &SkelArgs, main_config: &MainConfig, config_dir: &str) -> (r:
    Result<String, SkelError>)
    ensures
        match args.skeleton_file {
            Some(f) => r is Ok && r->Ok_0@ == f@,
            None => match args.skeleton {
                None => r is Err && r->Err_0.err_type == SkelErrType::BoxError && r->Err_0.err_str@
                    == no_skeleton_message(),
                Some(t) => match lookup(main_config.entries(), t@) {
                    Some(p) => r is Ok && r->Ok_0@ == substitute(
                        p,
                        Seq::empty(),
                        Seq::empty(),
                        config_dir@,
                    ),
                    None => r is Err && r->Err_0.err_type == SkelErrType::NotFound
                        && r->Err_0.err_str@ == not_found_message(t@),
                },
            },
        },
{
    if let Some(skeleton_file) = args.skeleton_file.as_ref() {
        return Ok(skeleton_file.clone());
    }
    match args.skeleton.as_ref() {
        Some(target) => {
            let path = match skeleton_path_from_config(target.as_str(), main_config) {
                Ok(p) => p,
                Err(e) => return Err(e),
            };
            proof {
                reveal_strlit("");
                assert(""@ =~= Seq::<char>::empty());
            }
            let slots = TemplateArgs {
                project_name: "",
                project_root_path: "",
                skel_config_path: config_dir,
            };
            Ok(template(&slots, path.as_str()))
        },
        None => {
            let mut msg = String::new();
            push_str(&mut msg, "did not get skeleton to make some how");
            Err(SkelError::new(SkelErrType::BoxError, msg))
        },
    }
}

} // verus!
