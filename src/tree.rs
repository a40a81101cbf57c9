//! Resolution of a skeleton definition into the set of directories, empty
//! files and written files that make the project, and the ordered plan of
//! file-system actions that creates them.
use crate::config::{
    opt_view, entry_view, entry_views, opt_strings, RunConfig, SkelTemplate, TemplateEntryView,
};
use crate::paths::{anchor, anchor_path, parent, parent_dir};
use crate::skel_error::{SkelErrType, SkelError};
use crate::template::{substitute, template, TemplateArgs};
use crate::text::{contains_string, push_str, strings};
use vstd::prelude::*;

verus! {

/// The values of the name, root and configuration-directory slots.
pub type Slots = (Seq<char>, Seq<char>, Seq<char>);

/// A destination and the text written there.
pub type TemplatePair = (Seq<char>, Seq<char>);

pub open spec fn slots_of(args: TemplateArgs) -> Slots {
    (args.project_name@, args.project_root_path@, args.skel_config_path@)
}

pub open spec fn subst(v: Slots, s: Seq<char>) -> Seq<char> {
    substitute(s, v.0, v.1, v.2)
}

/// A path template substituted and anchored under the root.
pub open spec fn resolve_path(v: Slots, p: Seq<char>) -> Seq<char> {
    anchor(v.1, subst(v, p))
}

/// Where the file that an entry names for its text is read from: its path
/// substituted and anchored under the configuration directory.
pub open spec fn source_path(v: Slots, p: Seq<char>) -> Seq<char> {
    anchor(v.2, subst(v, p))
}

pub open spec fn missing_source_message(p: Seq<char>) -> Seq<char> {
    "include file not found "@ + p
}

pub open spec fn no_content_message(dest: Seq<char>) -> Seq<char> {
    "no template string or include path for template "@ + dest
}

pub open spec fn entry_message(name: Seq<char>, path: Seq<char>) -> Seq<char> {
    "entry dose not have a template -- name "@ + name + " -- path "@ + path
}

/// How an entry that has neither text nor a file to read it from is
/// reported: by its resolved destination, or by the project's name and the
/// entry's path as written.
#[derive(Debug, Clone, Copy, PartialEq, Eq, Structural)]
pub enum MissingText {
    ByDestination,
    ByNameAndPath,
}

pub open spec fn no_text_message(style: MissingText, v: Slots, t: TemplateEntryView) -> Seq<char> {
    match style {
        MissingText::ByDestination => no_content_message(resolve_path(v, t.0)),
        MissingText::ByNameAndPath => entry_message(v.0, t.0),
    }
}

/// The text read for entry `k`, if any was.
pub open spec fn text_at(texts: Seq<Option<Seq<char>>>, k: int) -> Option<Seq<char>> {
    if 0 <= k < texts.len() {
        texts[k]
    } else {
        None
    }
}

/// The raw text of a template entry: what was read from its file where it
/// names one, else its own text; an error where neither is there.
pub open spec fn entry_source(
    style: MissingText,
    v: Slots,
    t: TemplateEntryView,
    text: Option<Seq<char>>,
) -> Result<
    Seq<char>,
    Seq<char>,
> {
    match t.2 {
        Some(p) => match text {
            Some(s) => Ok(s),
            None => Err(missing_source_message(source_path(v, p))),
        },
        None => match t.1 {
            Some(b) => Ok(b),
            None => Err(no_text_message(style, v, t)),
        },
    }
}

/// The raw (destination, text) pairs of the first `n` entries, or the error
/// of the first entry that has no text.
pub open spec fn entry_sources(
    style: MissingText,
    v: Slots,
    ts: Seq<TemplateEntryView>,
    texts: Seq<Option<Seq<char>>>,
    n: int,
) -> Result<Seq<TemplatePair>, Seq<char>>
    decreases n,
{
    if n <= 0 {
        Ok(Seq::empty())
    } else {
        match entry_sources(style, v, ts, texts, n - 1) {
            Err(m) => Err(m),
            Ok(ps) => match entry_source(style, v, ts[n - 1], text_at(texts, n - 1)) {
                Err(m) => Err(m),
                Ok(s) => Ok(ps.push((ts[n - 1].0, s))),
            },
        }
    }
}

/// `s` with `x` added, unless it holds `x` already.
pub open spec fn insert<T>(s: Seq<T>, x: T) -> Seq<T> {
    if s.contains(x) {
        s
    } else {
        s.push(x)
    }
}

/// `s` with each of `xs` added in turn.
pub open spec fn insert_all<T>(s: Seq<T>, xs: Seq<T>) -> Seq<T>
    decreases xs.len(),
{
    if xs.len() == 0 {
        s
    } else {
        insert(insert_all(s, xs.drop_last()), xs.last())
    }
}

pub open spec fn resolve_paths(v: Slots, ps: Seq<Seq<char>>) -> Seq<Seq<char>> {
    ps.map_values(|p: Seq<char>| resolve_path(v, p))
}

pub open spec fn parents(ps: Seq<Seq<char>>) -> Seq<Seq<char>> {
    ps.map_values(|p: Seq<char>| parent(p))
}

pub open spec fn resolve_pairs(v: Slots, ts: Seq<TemplatePair>) -> Seq<TemplatePair> {
    ts.map_values(|t: TemplatePair| (resolve_path(v, t.0), subst(v, t.1)))
}

pub open spec fn destinations(ts: Seq<TemplatePair>) -> Seq<Seq<char>> {
    ts.map_values(|t: TemplatePair| t.0)
}

/// The directories of the tree: the listed ones, then the directory of each
/// file, then that of each template destination, each once.
pub open spec fn tree_dirs(v: Slots, ds: Seq<Seq<char>>, fs: Seq<Seq<char>>, ts: Seq<TemplatePair>) -> Seq<Seq<char>> {
    insert_all(
        insert_all(insert_all(Seq::empty(), resolve_paths(v, ds)), parents(resolve_paths(v, fs))),
        parents(destinations(resolve_pairs(v, ts))),
    )
}

pub open spec fn tree_files(v: Slots, fs: Seq<Seq<char>>) -> Seq<Seq<char>> {
    insert_all(Seq::empty(), resolve_paths(v, fs))
}

pub open spec fn tree_templates(v: Slots, ts: Seq<TemplatePair>) -> Seq<TemplatePair> {
    insert_all(Seq::empty(), resolve_pairs(v, ts))
}

/// The directories, empty files and written files of a project, each once.
#[derive(Debug)]
pub struct ResolvedTree {
    pub dirs: Vec<String>,
    pub files: Vec<String>,
    pub templates: Vec<(String, String)>,
}

pub open spec fn pair_views(v: Seq<(String, String)>) -> Seq<TemplatePair> {
    v.map_values(|p: (String, String)| (p.0@, p.1@))
}

impl ResolvedTree {
    pub open spec fn dirs_view(&self) -> Seq<Seq<char>> {
        strings(self.dirs@)
    }

    pub open spec fn files_view(&self) -> Seq<Seq<char>> {
        strings(self.files@)
    }

    pub open spec fn templates_view(&self) -> Seq<TemplatePair> {
        pair_views(self.templates@)
    }

    /// Each directory, file and (destination, text) pair is there once.
    pub open spec fn wf(&self) -> bool {
        &&& self.dirs_view().no_duplicates()
        &&& self.files_view().no_duplicates()
        &&& self.templates_view().no_duplicates()
    }

    /// The tree is the resolution of the listed directories, files and raw
    /// (destination, text) pairs under the slot values `v`.
    pub open spec fn resolves(
        &self,
        v: Slots,
        ds: Seq<Seq<char>>,
        fs: Seq<Seq<char>>,
        ts: Seq<TemplatePair>,
    ) -> bool {
        &&& self.dirs_view() == tree_dirs(v, ds, fs, ts)
        &&& self.files_view() == tree_files(v, fs)
        &&& self.templates_view() == tree_templates(v, ts)
    }
}

proof fn lemma_push_contains<T>(s: Seq<T>, y: T, x: T)
    ensures
        s.push(y).contains(x) <==> (s.contains(x) || x == y),
{
    if s.push(y).contains(x) && x != y {
        let k = choose|k: int| 0 <= k < s.push(y).len() && s.push(y)[k] == x;
        assert(s[k] == x);
    }
    if s.contains(x) {
        let k = choose|k: int| 0 <= k < s.len() && s[k] == x;
        assert(s.push(y)[k] == x);
    }
    assert(s.push(y)[s.len() as int] == y);
}

proof fn lemma_drop_last_contains<T>(xs: Seq<T>, x: T)
    requires
        xs.len() > 0,
    ensures
        xs.contains(x) <==> (xs.drop_last().contains(x) || x == xs.last()),
{
    assert(xs =~= xs.drop_last().push(xs.last()));
    lemma_push_contains(xs.drop_last(), xs.last(), x);
}

/// Adding to a list without duplicates keeps it without duplicates, and the
/// result holds what the list held and what was added.
pub proof fn lemma_insert_all<T>(s: Seq<T>, xs: Seq<T>)
    requires
        s.no_duplicates(),
    ensures
        insert_all(s, xs).no_duplicates(),
        forall|x: T| #[trigger] insert_all(s, xs).contains(x) <==> (s.contains(x) || xs.contains(x)),
    decreases xs.len(),
{
    if xs.len() > 0 {
        let prev = insert_all(s, xs.drop_last());
        let y = xs.last();
        lemma_insert_all(s, xs.drop_last());
        assert forall|x: T| #[trigger] insert_all(s, xs).contains(x) <==> (s.contains(x) || xs.contains(x)) by {
            lemma_drop_last_contains(xs, x);
            lemma_push_contains(prev, y, x);
        }
        if !prev.contains(y) {
            assert forall|i: int, j: int|
                0 <= i < j < prev.push(y).len() implies prev.push(y)[i] != prev.push(y)[j] by {
                if j == prev.len() {
                    assert(prev[i] == prev.push(y)[i]);
                    assert(prev.contains(prev[i]));
                } else {
                    assert(prev[i] == prev.push(y)[i]);
                    assert(prev[j] == prev.push(y)[j]);
                }
            }
        }
    }
}

/// Each directory of a tree appears in it once, however often it is listed or
/// implied by a file or a template; and it holds exactly the listed
/// directories and the directories of the files and templates.
pub proof fn lemma_tree_dirs_once(v: Slots, ds: Seq<Seq<char>>, fs: Seq<Seq<char>>, ts: Seq<TemplatePair>)
    ensures
        tree_dirs(v, ds, fs, ts).no_duplicates(),
        forall|d: Seq<char>|
            #[trigger] tree_dirs(v, ds, fs, ts).contains(d) <==> (resolve_paths(v, ds).contains(d)
                || parents(resolve_paths(v, fs)).contains(d) || parents(
                destinations(resolve_pairs(v, ts)),
            ).contains(d)),
{
    let e = Seq::<Seq<char>>::empty();
    let d1 = insert_all(e, resolve_paths(v, ds));
    let d2 = insert_all(d1, parents(resolve_paths(v, fs)));
    lemma_insert_all(e, resolve_paths(v, ds));
    lemma_insert_all(d1, parents(resolve_paths(v, fs)));
    lemma_insert_all(d2, parents(destinations(resolve_pairs(v, ts))));
}

/// Adds `x` to `v` unless `v` holds it.
fn insert_string(v: &mut Vec<String>, x: String)
    ensures
        strings(final(v)@) == insert(strings(old(v)@), x@),
{
    if !contains_string(v, &x) {
        let ghost before = strings(v@);
        v.push(x);
        assert(strings(v@) =~= before.push(x@));
    }
}

/// Whether `v` holds the pair `x`.
fn contains_pair(v: &Vec<(String, String)>, x: &(String, String)) -> (r: bool)
    ensures
        r == pair_views(v@).contains((x.0@, x.1@)),
{
    let mut j: usize = 0;
    while j < v.len()
        invariant
            j <= v.len(),
            forall|k: int| 0 <= k < j ==> pair_views(v@)[k] != (x.0@, x.1@),
        decreases v.len() - j,
    {
        if v[j].0 == x.0 && v[j].1 == x.1 {
            assert(pair_views(v@)[j as int] == (x.0@, x.1@));
            return true;
        }
        j += 1;
    }
    false
}

fn insert_pair(v: &mut Vec<(String, String)>, x: (String, String))
    ensures
        pair_views(final(v)@) == insert(pair_views(old(v)@), (x.0@, x.1@)),
{
    if !contains_pair(v, &x) {
        let ghost before = pair_views(v@);
        let ghost xv = (x.0@, x.1@);
        v.push(x);
        assert(pair_views(v@) =~= before.push(xv));
    }
}

/// A path template substituted and anchored under the root.
pub fn resolved_path(args: &TemplateArgs, p: &str) -> (r: String)
    ensures
        r@ == resolve_path(slots_of(*args), p@),
{
    let s = template(args, p);
    anchor_path(args.project_root_path, s.as_str())
}

/// Adds each of `ps`, resolved, to `dirs`, or their directories where
/// `parents_only`.
fn add_paths(args: &TemplateArgs, ps: &Vec<String>, dirs: &mut Vec<String>, parents_only: bool)
    ensures
        parents_only ==> strings(final(dirs)@) == insert_all(
            strings(old(dirs)@),
            parents(resolve_paths(slots_of(*args), strings(ps@))),
        ),
        !parents_only ==> strings(final(dirs)@) == insert_all(
            strings(old(dirs)@),
            resolve_paths(slots_of(*args), strings(ps@)),
        ),
{
    let ghost v = slots_of(*args);
    let ghost d0 = strings(dirs@);
    let ghost all = if parents_only {
        parents(resolve_paths(v, strings(ps@)))
    } else {
        resolve_paths(v, strings(ps@))
    };
    let mut i: usize = 0;
    while i < ps.len()
        invariant
            i <= ps.len(),
            v == slots_of(*args),
            all.len() == ps.len(),
            all == (if parents_only {
                parents(resolve_paths(v, strings(ps@)))
            } else {
                resolve_paths(v, strings(ps@))
            }),
            strings(dirs@) == insert_all(d0, all.take(i as int)),
        decreases ps.len() - i,
    {
        let p = resolved_path(args, ps[i].as_str());
        let d = if parents_only {
            parent_dir(p.as_str())
        } else {
            p
        };
        assert(all.take(i + 1).drop_last() =~= all.take(i as int));
        insert_string(dirs, d);
        i += 1;
    }
    assert(all.take(ps.len() as int) =~= all);
}

/// Builds the tree from the listed directories, files and raw
/// (destination, text) pairs: every path substituted and anchored under the
/// root, every text substituted, and each entry kept once.
pub fn build_tree(
    args: &TemplateArgs,
    dirs: &Vec<String>,
    files: &Vec<String>,
    templates: &Vec<(String, String)>,
) -> (r: ResolvedTree)
    ensures
        r.resolves(slots_of(*args), strings(dirs@), strings(files@), pair_views(templates@)),
        r.wf(),
{
    let ghost v = slots_of(*args);
    let mut tree = ResolvedTree { dirs: Vec::new(), files: Vec::new(), templates: Vec::new() };
    assert(strings(tree.dirs@) =~= Seq::<Seq<char>>::empty());
    assert(strings(tree.files@) =~= Seq::<Seq<char>>::empty());
    assert(tree.templates_view() =~= Seq::<TemplatePair>::empty());
    proof {
        assert(Seq::<TemplatePair>::empty() == insert_all(Seq::<TemplatePair>::empty(), resolve_pairs(v, pair_views(templates@)).take(0)));
    }
    add_paths(args, dirs, &mut tree.dirs, false);
    add_paths(args, files, &mut tree.dirs, true);
    add_paths(args, files, &mut tree.files, false);
    let ghost ts = pair_views(templates@);
    let ghost rp = resolve_pairs(v, ts);
    let ghost d1 = strings(tree.dirs@);
    assert(d1 == insert_all(
        insert_all(Seq::<Seq<char>>::empty(), resolve_paths(v, strings(dirs@))),
        parents(resolve_paths(v, strings(files@))),
    ));
    assert(strings(tree.files@) == tree_files(v, strings(files@)));
    let mut i: usize = 0;
    while i < templates.len()
        invariant
            i <= templates.len(),
            d1 == insert_all(
                insert_all(Seq::<Seq<char>>::empty(), resolve_paths(v, strings(dirs@))),
                parents(resolve_paths(v, strings(files@))),
            ),
            strings(tree.files@) == tree_files(v, strings(files@)),
            v == slots_of(*args),
            ts == pair_views(templates@),
            rp == resolve_pairs(v, ts),
            strings(tree.dirs@) == insert_all(d1, parents(destinations(rp)).take(i as int)),
            tree.templates_view() == insert_all(Seq::empty(), rp.take(i as int)),
        decreases templates.len() - i,
    {
        let dest = resolved_path(args, templates[i].0.as_str());
        let text = template(args, templates[i].1.as_str());
        let dir = parent_dir(dest.as_str());
        assert(parents(destinations(rp)).take(i + 1).drop_last() =~= parents(destinations(rp)).take(i as int));
        assert(rp.take(i + 1).drop_last() =~= rp.take(i as int));
        insert_string(&mut tree.dirs, dir);
        insert_pair(&mut tree.templates, (dest, text));
        i += 1;
    }
    assert(parents(destinations(rp)).take(templates.len() as int) =~= parents(destinations(rp)));
    assert(rp.take(templates.len() as int) =~= rp);
    proof {
        let e = Seq::<Seq<char>>::empty();
        lemma_insert_all(e, resolve_paths(v, strings(dirs@)));
        lemma_insert_all(insert_all(e, resolve_paths(v, strings(dirs@))), parents(resolve_paths(v, strings(files@))));
        lemma_insert_all(d1, parents(destinations(rp)));
        lemma_insert_all(e, resolve_paths(v, strings(files@)));
        lemma_insert_all(Seq::<TemplatePair>::empty(), rp);
    }
    tree
}

/// Once an entry has no text, the entries after it change nothing.
proof fn lemma_entry_sources_error_kept(
    style: MissingText,
    v: Slots,
    ts: Seq<TemplateEntryView>,
    texts: Seq<Option<Seq<char>>>,
    k: int,
    n: int,
)
    requires
        1 <= k <= n,
        entry_sources(style, v, ts, texts, k) is Err,
    ensures
        entry_sources(style, v, ts, texts, n) == entry_sources(style, v, ts, texts, k),
    decreases n - k,
{
    if n > k {
        lemma_entry_sources_error_kept(style, v, ts, texts, k, n - 1);
    }
}

/// The raw text of a template entry: what was read for it (`text`) where it
/// names a file, else its own text; an entry with neither is reported as
/// `style` says.
pub fn template_source(
    t: &SkelTemplate,
    args: &TemplateArgs,
    text: Option<&String>,
    style: MissingText,
) -> (r: Result<String, SkelError>)
    ensures
        match entry_source(style, slots_of(*args), entry_view(*t), opt_ref_view(text)) {
            Ok(s) => r is Ok && r->Ok_0@ == s,
            Err(m) => r is Err && r->Err_0.err_type == SkelErrType::ResolveError && r->Err_0.err_str@
                == m,
        },
{
    if let Some(p) = &t.include_file {
        match text {
            Some(s) => Ok(s.clone()),
            None => {
                let s = template(args, p.as_str());
                let path = anchor_path(args.skel_config_path, s.as_str());
                let mut msg = String::new();
                push_str(&mut msg, "include file not found ");
                push_str(&mut msg, path.as_str());
                Err(SkelError::new(SkelErrType::ResolveError, msg))
            },
        }
    } else if let Some(b) = &t.template {
        Ok(b.clone())
    } else {
        let mut msg = String::new();
        match style {
            MissingText::ByDestination => {
                let dest = resolved_path(args, t.path.as_str());
                push_str(&mut msg, "no template string or include path for template ");
                push_str(&mut msg, dest.as_str());
            },
            MissingText::ByNameAndPath => {
                push_str(&mut msg, "entry dose not have a template -- name ");
                push_str(&mut msg, args.project_name);
                push_str(&mut msg, " -- path ");
                push_str(&mut msg, t.path.as_str());
            },
        }
        Err(SkelError::new(SkelErrType::ResolveError, msg))
    }
}

pub open spec fn opt_ref_view(o: Option<&String>) -> Option<Seq<char>> {
    match o {
        Some(s) => Some(s@),
        None => None,
    }
}

pub open spec fn text_views(texts: Seq<Option<String>>) -> Seq<Option<Seq<char>>> {
    texts.map_values(|o: Option<String>| crate::config::opt_view(o))
}

/// The raw (destination, text) pairs of the entries `ts`, with `texts[k]` the
/// text read for entry `k`; the error of the first entry without text,
/// reported as `style` says.
pub fn resolve_templates(
    ts: &Vec<SkelTemplate>,
    args: &TemplateArgs,
    texts: &Vec<Option<String>>,
    style: MissingText,
) -> (r: Result<Vec<(String, String)>, SkelError>)
    ensures
        match entry_sources(
            style,
            slots_of(*args),
            ts@.map_values(|t: SkelTemplate| entry_view(t)),
            text_views(texts@),
            ts@.len() as int,
        ) {
            Ok(ps) => r is Ok && pair_views(r->Ok_0@) == ps,
            Err(m) => r is Err && r->Err_0.err_type == SkelErrType::ResolveError && r->Err_0.err_str@
                == m,
        },
{
    let ghost v = slots_of(*args);
    let ghost tv = ts@.map_values(|t: SkelTemplate| entry_view(t));
    let ghost xv = text_views(texts@);
    let mut out: Vec<(String, String)> = Vec::new();
    assert(pair_views(out@) =~= Seq::<TemplatePair>::empty());
    let mut k: usize = 0;
    while k < ts.len()
        invariant
            k <= ts.len(),
            v == slots_of(*args),
            tv == ts@.map_values(|t: SkelTemplate| entry_view(t)),
            xv == text_views(texts@),
            entry_sources(style, v, tv, xv, k as int) == Ok::<Seq<TemplatePair>, Seq<char>>(
                pair_views(out@),
            ),
        decreases ts.len() - k,
    {
        let text = if k < texts.len() {
            texts[k].as_ref()
        } else {
            None
        };
        assert(opt_ref_view(text) == text_at(xv, k as int));
        assert(tv[k as int] == entry_view(ts@[k as int]));
        match template_source(&ts[k], args, text, style) {
            Ok(s) => {
                let ghost before = pair_views(out@);
                out.push((ts[k].path.clone(), s));
                assert(pair_views(out@) =~= before.push((tv[k as int].0, pair_views(out@).last().1)));
            },
            Err(e) => {
                proof {
                    lemma_entry_sources_error_kept(style, v, tv, xv, k + 1, ts.len() as int);
                }
                return Err(e);
            },
        }
        k += 1;
    }
    Ok(out)
}

/// Where the file that each entry names for its text is read from, for the
/// entries that name one.
pub open spec fn source_paths_of(v: Slots, ts: Seq<TemplateEntryView>) -> Seq<Option<Seq<char>>> {
    ts.map_values(
        |t: TemplateEntryView|
            match t.2 {
                Some(p) => Some(source_path(v, p)),
                None => None,
            },
    )
}

impl RunConfig {
    /// The slot values of the run, borrowed.
    pub fn template_args(&self) -> (r: TemplateArgs)
        ensures
            slots_of(r) == self.slots(),
    {
        TemplateArgs {
            project_name: self.name.as_str(),
            project_root_path: self.root_path.as_str(),
            skel_config_path: self.config_dir.as_str(),
        }
    }
}

/// For each template entry of the run, the file to read its text from, where
/// it names one.
pub fn source_paths(run_conf: &RunConfig) -> (r: Vec<Option<String>>)
    ensures
        text_views(r@) == source_paths_of(run_conf.slots(), entry_views(run_conf.skel_conf.templates)),
{
    let args = run_conf.template_args();
    let empty: Vec<SkelTemplate> = Vec::new();
    let ts = match &run_conf.skel_conf.templates {
        Some(ts) => ts,
        None => &empty,
    };
    let ghost goal = source_paths_of(run_conf.slots(), entry_views(run_conf.skel_conf.templates));
    assert(entry_views(run_conf.skel_conf.templates) =~= ts@.map_values(|t: SkelTemplate| entry_view(t)));
    let mut out: Vec<Option<String>> = Vec::new();
    let mut k: usize = 0;
    while k < ts.len()
        invariant
            k <= ts.len(),
            slots_of(args) == run_conf.slots(),
            goal == source_paths_of(run_conf.slots(), ts@.map_values(|t: SkelTemplate| entry_view(t))),
            text_views(out@) == goal.take(k as int),
        decreases ts.len() - k,
    {
        let ghost before = text_views(out@);
        assert(entry_view(ts@[k as int]).2 == opt_view(ts@[k as int].include_file));
        match &ts[k].include_file {
            Some(p) => {
                let s = template(&args, p.as_str());
                let q = anchor_path(args.skel_config_path, s.as_str());
                assert(Some(q@) == goal[k as int]);
                out.push(Some(q));
            },
            None => {
                assert(goal[k as int] is None);
                out.push(None);
            },
        }
        assert(text_views(out@) =~= before.push(goal[k as int]));
        assert(goal.take(k + 1) =~= goal.take(k as int).push(goal[k as int]));
        k += 1;
    }
    assert(goal.take(ts.len() as int) =~= goal);
    out
}

/// Resolves the run's definition into its tree, with `texts[k]` the text read
/// for template entry `k`; fails with the error of the first entry that has
/// no text, and then returns no tree.
pub fn resolve_tree(run_conf: &RunConfig, texts: &Vec<Option<String>>) -> (r: Result<ResolvedTree, SkelError>)
    ensures
        match entry_sources(
            MissingText::ByDestination,
            run_conf.slots(),
            entry_views(run_conf.skel_conf.templates),
            text_views(texts@),
            entry_views(run_conf.skel_conf.templates).len() as int,
        ) {
            Ok(ps) => r is Ok && r->Ok_0.wf() && r->Ok_0.resolves(
                run_conf.slots(),
                opt_strings(run_conf.skel_conf.dirs),
                opt_strings(run_conf.skel_conf.files),
                ps,
            ),
            Err(m) => r is Err && r->Err_0.err_type == SkelErrType::ResolveError && r->Err_0.err_str@
                == m,
        },
{
    let args = run_conf.template_args();
    let empty_templates: Vec<SkelTemplate> = Vec::new();
    let ts = match &run_conf.skel_conf.templates {
        Some(ts) => ts,
        None => &empty_templates,
    };
    assert(entry_views(run_conf.skel_conf.templates) =~= ts@.map_values(|t: SkelTemplate| entry_view(t)));
    let pairs = resolve_templates(ts, &args, texts, MissingText::ByDestination)?;
    let empty_dirs: Vec<String> = Vec::new();
    let empty_files: Vec<String> = Vec::new();
    let dirs = match &run_conf.skel_conf.dirs {
        Some(d) => d,
        None => &empty_dirs,
    };
    let files = match &run_conf.skel_conf.files {
        Some(f) => f,
        None => &empty_files,
    };
    assert(opt_strings(run_conf.skel_conf.dirs) =~= strings(dirs@));
    assert(opt_strings(run_conf.skel_conf.files) =~= strings(files@));
    Ok(build_tree(&args, dirs, files, &pairs))
}

} // verus!
