//! A project ready to make: its definition with every template's text in
//! place, the slot values, and the switches of the build.
use crate::config::{entry_view, entry_views, opt_view, SkelConfig, SkelTemplate, TemplateEntryView};
use crate::skel_error::{SkelErrType, SkelError};
use crate::template::{template, TemplateArgs};
use crate::text::strings;
use crate::tree::{
    entry_sources, resolve_path, resolve_templates, resolved_path, slots_of, subst, text_views,
    MissingText, Slots, TemplatePair,
};
use vstd::prelude::*;

verus! {

/// A project definition as read from its file.
pub type ProjectConfig = SkelConfig;

/// A template entry of a project definition.
pub type ProjectTemplate = SkelTemplate;

/// The entries with the text that resolution found for each.
pub open spec fn with_texts(ts: Seq<TemplateEntryView>, ps: Seq<TemplatePair>) -> Seq<TemplateEntryView> {
    Seq::new(ts.len(), |k: int| (ts[k].0, Some(ps[k].1), ts[k].2))
}

/// What a successful resolution of `n` entries holds.
pub proof fn lemma_entry_sources_ok(
    style: MissingText,
    v: Slots,
    ts: Seq<TemplateEntryView>,
    texts: Seq<Option<Seq<char>>>,
    n: int,
)
    requires
        0 <= n <= ts.len(),
        entry_sources(style, v, ts, texts, n) is Ok,
    ensures
        entry_sources(style, v, ts, texts, n)->Ok_0.len() == n,
        forall|k: int|
            0 <= k < n ==> (#[trigger] entry_sources(style, v, ts, texts, n)->Ok_0[k]).0 == ts[k].0,
    decreases n,
{
    if n > 0 {
        lemma_entry_sources_ok(style, v, ts, texts, n - 1);
        let ps = entry_sources(style, v, ts, texts, n)->Ok_0;
        let prev = entry_sources(style, v, ts, texts, n - 1)->Ok_0;
        assert forall|k: int| 0 <= k < n implies (#[trigger] ps[k]).0 == ts[k].0 by {
            if k < n - 1 {
                assert(ps[k] == prev[k]);
            }
        }
    }
}

fn clone_opt(o: &Option<String>) -> (r: Option<String>)
    ensures
        opt_view(r) == opt_view(*o),
{
    match o {
        Some(s) => Some(s.clone()),
        None => None,
    }
}

impl SkelConfig {
    /// Puts into each template entry the text that it will be written from:
    /// for an entry that names a file, `texts[k]`, what was read from it.
    /// Fails with the error of the first entry that has no text, and then
    /// changes nothing.
    pub fn resolve_project_templates(
        &mut self,
        root: &str,
        name: &str,
        config_dir_path: &str,
        texts: &Vec<Option<String>>,
    ) -> (r: Result<(), SkelError>)
        ensures
            final(self).dirs == old(self).dirs,
            final(self).files == old(self).files,
            final(self).build == old(self).build,
            final(self).build_first == old(self).build_first,
            match entry_sources(
                MissingText::ByNameAndPath,
                (name@, root@, config_dir_path@),
                entry_views(old(self).templates),
                text_views(texts@),
                entry_views(old(self).templates).len() as int,
            ) {
                Err(m) => r is Err && r->Err_0.err_type == SkelErrType::ResolveError
                    && r->Err_0.err_str@ == m && final(self).templates == old(self).templates,
                Ok(ps) => r is Ok && (final(self).templates is Some == old(self).templates is Some)
                    && entry_views(final(self).templates) == with_texts(
                    entry_views(old(self).templates),
                    ps,
                ),
            },
    {
        let args = TemplateArgs {
            project_name: name,
            project_root_path: root,
            skel_config_path: config_dir_path,
        };
        let ghost v = slots_of(args);
        let new_templates = match &self.templates {
            None => {
                assert(with_texts(entry_views(self.templates), Seq::empty()) =~= entry_views(
                    self.templates,
                ));
                return Ok(());
            },
            Some(ts) => {
                let ghost tv = ts@.map_values(|t: SkelTemplate| entry_view(t));
                let pairs = resolve_templates(ts, &args, texts, MissingText::ByNameAndPath)?;
                proof {
                    lemma_entry_sources_ok(MissingText::ByNameAndPath, v, tv, text_views(texts@), ts.len() as int);
                }
                let ghost ps = crate::tree::pair_views(pairs@);
                let mut out: Vec<SkelTemplate> = Vec::new();
                let mut k: usize = 0;
                while k < ts.len()
                    invariant
                        k <= ts.len(),
                        tv == ts@.map_values(|t: SkelTemplate| entry_view(t)),
                        ps == crate::tree::pair_views(pairs@),
                        ps.len() == ts.len(),
                        out@.map_values(|t: SkelTemplate| entry_view(t)) == with_texts(tv, ps).take(
                            k as int,
                        ),
                    decreases ts.len() - k,
                {
                    let t = SkelTemplate {
                        path: ts[k].path.clone(),
                        template: Some(pairs[k].1.clone()),
                        include_file: clone_opt(&ts[k].include_file),
                    };
                    let ghost before = out@.map_values(|t: SkelTemplate| entry_view(t));
                    out.push(t);
                    assert(out@.map_values(|t: SkelTemplate| entry_view(t)) =~= before.push(
                        with_texts(tv, ps)[k as int],
                    ));
                    assert(with_texts(tv, ps).take(k + 1) =~= with_texts(tv, ps).take(k as int).push(
                        with_texts(tv, ps)[k as int],
                    ));
                    k += 1;
                }
                assert(with_texts(tv, ps).take(ts.len() as int) =~= with_texts(tv, ps));
                out
            },
        };
        self.templates = Some(new_templates);
        Ok(())
    }

    /// The same resolution, with the slot values of a skeleton.
    pub fn resolve_skeleton_templates(
        &mut self,
        root_path: &str,
        skeleton_name: &str,
        skel_config_path: &str,
        texts: &Vec<Option<String>>,
    ) -> (r: Result<(), SkelError>)
        ensures
            final(self).dirs == old(self).dirs,
            final(self).files == old(self).files,
            final(self).build == old(self).build,
            final(self).build_first == old(self).build_first,
            match entry_sources(
                MissingText::ByNameAndPath,
                (skeleton_name@, root_path@, skel_config_path@),
                entry_views(old(self).templates),
                text_views(texts@),
                entry_views(old(self).templates).len() as int,
            ) {
                Err(m) => r is Err && r->Err_0.err_type == SkelErrType::ResolveError
                    && r->Err_0.err_str@ == m && final(self).templates == old(self).templates,
                Ok(ps) => r is Ok && (final(self).templates is Some == old(self).templates is Some)
                    && entry_views(final(self).templates) == with_texts(
                    entry_views(old(self).templates),
                    ps,
                ),
            },
    {
        self.resolve_project_templates(root_path, skeleton_name, skel_config_path, texts)
    }
}

/// The text an entry is written from; an entry without one writes nothing.
pub open spec fn text_or_empty(t: TemplateEntryView) -> Seq<char> {
    match t.1 {
        Some(b) => b,
        None => Seq::empty(),
    }
}

/// A fully resolved project, ready to make.
#[derive(Debug)]
pub struct Project {
    pub name: String,
    pub dirs: Option<Vec<String>>,
    pub files: Option<Vec<String>>,
    pub build: Option<String>,
    pub templates: Option<Vec<ProjectTemplate>>,
    pub project_root_path: String,
    // these are for the slots
    pub project_root_string: String,
    pub config_dir_string: String,
    // switches of the build
    pub dont_make_template: bool,
    pub dont_run_build: bool,
    pub build_first: bool,
    pub show_build_output: bool,
}

impl Project {
    /// The slot values: name, root string, configuration directory.
    pub open spec fn slots(&self) -> Slots {
        (self.name@, self.project_root_string@, self.config_dir_string@)
    }

    /// The slot values of the paths: name, root path, configuration directory.
    pub open spec fn path_slots(&self) -> Slots {
        (self.name@, self.project_root_path@, self.config_dir_string@)
    }

    pub fn run_template(&self, to_template: &str) -> (r: String)
        ensures
            r@ == subst(self.slots(), to_template@),
    {
        let args = TemplateArgs {
            project_name: self.name.as_str(),
            project_root_path: self.project_root_string.as_str(),
            skel_config_path: self.config_dir_string.as_str(),
        };
        template(&args, to_template)
    }

    pub fn root_string(&self) -> (r: String)
        ensures
            r@ == self.project_root_path@,
    {
        self.project_root_path.clone()
    }

    /// The directories, resolved one by one; none where the project lists none.
    pub fn dir_iter(&self) -> (r: Option<ProjectPathIterator>)
        ensures
            match self.dirs {
                Some(d) => r is Some && r->Some_0.slots() == self.path_slots() && r->Some_0.items()
                    == strings(d@) && r->Some_0.position() == 0,
                None => r is None,
            },
    {
        match self.dirs.as_ref() {
            Some(dirs) => Some(
                ProjectPathIterator::new(
                    self.project_root_path.as_str(),
                    self.name.as_str(),
                    self.config_dir_string.as_str(),
                    dirs,
                ),
            ),
            None => None,
        }
    }

    /// The files, resolved one by one; none where the project lists none.
    pub fn file_iter(&self) -> (r: Option<ProjectPathIterator>)
        ensures
            match self.files {
                Some(f) => r is Some && r->Some_0.slots() == self.path_slots() && r->Some_0.items()
                    == strings(f@) && r->Some_0.position() == 0,
                None => r is None,
            },
    {
        match self.files.as_ref() {
            Some(files) => Some(
                ProjectPathIterator::new(
                    self.project_root_path.as_str(),
                    self.name.as_str(),
                    self.config_dir_string.as_str(),
                    files,
                ),
            ),
            None => None,
        }
    }

    /// The templates, resolved one by one; none where the project has none.
    pub fn template_iter(&self) -> (r: Option<ProjectTemplateIterator>)
        ensures
            match self.templates {
                Some(t) => r is Some && r->Some_0.slots() == self.path_slots() && r->Some_0.items()
                    == t@.map_values(|t: SkelTemplate| entry_view(t)) && r->Some_0.position() == 0,
                None => r is None,
            },
    {
        match self.templates {
            Some(ref templates) => Some(
                ProjectTemplateIterator::new(
                    self.project_root_path.as_str(),
                    self.name.as_str(),
                    self.config_dir_string.as_str(),
                    templates,
                ),
            ),
            None => None,
        }
    }
}

/// Hands out the paths of a list one at a time, each substituted and
/// anchored under the root.
pub struct ProjectPathIterator<'a> {
    curr: usize,
    root: &'a str,
    name: &'a str,
    conf: &'a str,
    array: &'a Vec<String>,
}

impl<'a> ProjectPathIterator<'a> {
    pub closed spec fn slots(&self) -> Slots {
        (self.name@, self.root@, self.conf@)
    }

    pub closed spec fn items(&self) -> Seq<Seq<char>> {
        strings(self.array@)
    }

    /// How many paths were handed out.
    pub closed spec fn position(&self) -> nat {
        self.curr as nat
    }

    pub fn new(root: &'a str, name: &'a str, conf: &'a str, array: &'a Vec<String>) -> (r: Self)
        ensures
            r.slots() == (name@, root@, conf@),
            r.items() == strings(array@),
            r.position() == 0,
    {
        Self { root, conf, name, curr: 0, array }
    }

    /// The next path, or none once all were handed out.
    pub fn next(&mut self) -> (r: Option<String>)
        ensures
            final(self).slots() == old(self).slots(),
            final(self).items() == old(self).items(),
            if old(self).position() < old(self).items().len() {
                r is Some && r->Some_0@ == resolve_path(
                    old(self).slots(),
                    old(self).items()[old(self).position() as int],
                ) && final(self).position() == old(self).position() + 1
            } else {
                r is None && final(self).position() == old(self).position()
            },
    {
        if self.curr >= self.array.len() {
            return None;
        }
        let args = TemplateArgs {
            project_name: self.name,
            project_root_path: self.root,
            skel_config_path: self.conf,
        };
        let path = resolved_path(&args, self.array[self.curr].as_str());
        self.curr += 1;
        Some(path)
    }
}

/// Hands out the templates of a list one at a time: the destination
/// substituted and anchored under the root, the text substituted.
pub struct ProjectTemplateIterator<'a> {
    root: &'a str,
    name: &'a str,
    conf: &'a str,
    array: &'a [ProjectTemplate],
    curr: usize,
}

impl<'a> ProjectTemplateIterator<'a> {
    pub closed spec fn slots(&self) -> Slots {
        (self.name@, self.root@, self.conf@)
    }

    pub closed spec fn items(&self) -> Seq<TemplateEntryView> {
        self.array@.map_values(|t: SkelTemplate| entry_view(t))
    }

    /// How many templates were handed out.
    pub closed spec fn position(&self) -> nat {
        self.curr as nat
    }

    pub fn new(root: &'a str, name: &'a str, conf: &'a str, array: &'a [ProjectTemplate]) -> (r: Self)
        ensures
            r.slots() == (name@, root@, conf@),
            r.items() == array@.map_values(|t: SkelTemplate| entry_view(t)),
            r.position() == 0,
    {
        Self { root, name, conf, curr: 0, array }
    }

    /// The next (destination, text), or none once all were handed out.
    pub fn next(&mut self) -> (r: Option<(String, String)>)
        ensures
            final(self).slots() == old(self).slots(),
            final(self).items() == old(self).items(),
            if old(self).position() < old(self).items().len() {
                let t = old(self).items()[old(self).position() as int];
                r is Some && r->Some_0.0@ == resolve_path(old(self).slots(), t.0) && r->Some_0.1@
                    == subst(old(self).slots(), text_or_empty(t)) && final(self).position()
                    == old(self).position() + 1
            } else {
                r is None && final(self).position() == old(self).position()
            },
    {
        if self.curr >= self.array.len() {
            return None;
        }
        let args = TemplateArgs {
            project_name: self.name,
            project_root_path: self.root,
            skel_config_path: self.conf,
        };
        let next_to_template = &self.array[self.curr];
        assert(entry_view(*next_to_template) == self.items()[self.curr as int]);
        let template_string = match next_to_template.template.as_ref() {
            Some(template_str) => template(&args, template_str.as_str()),
            None => {
                proof {
                    reveal_strlit("");
                }
                template(&args, "")
            },
        };
        let path = resolved_path(&args, next_to_template.path.as_str());
        self.curr += 1;
        Some((path, template_string))
    }
}

} // verus!
