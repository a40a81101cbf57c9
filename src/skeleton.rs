//! A skeleton ready to make: its definition with every template's text in
//! place, the slot values, and the switches of the build.
use crate::config::{entry_view, SkelConfig, SkelTemplate, TemplateEntryView};
use crate::project::text_or_empty;
use crate::template::{template, TemplateArgs};
use crate::text::strings;
use crate::tree::{resolve_path, resolved_path, slots_of, subst, Slots};
use vstd::prelude::*;

verus! {

/// A skeleton definition as read from its file.
pub type SkeletonConfig = SkelConfig;

/// A template entry of a skeleton definition.
pub type SkeletonTemplate = SkelTemplate;

/// A fully resolved skeleton, ready to make.
#[derive(Debug)]
pub struct Skeleton {
    pub name: String,
    pub dirs: Option<Vec<String>>,
    pub files: Option<Vec<String>>,
    pub build: Option<String>,
    pub templates: Option<Vec<SkeletonTemplate>>,
    // these are for the slots
    pub project_root_string: String,
    pub skel_config_path: String,
    // switches of the build
    pub dont_make_template: bool,
    pub dont_run_build: bool,
    pub build_first: bool,
    pub show_build_output: bool,
}

impl Skeleton {
    /// The slot values: name, root, configuration directory.
    pub open spec fn slots(&self) -> Slots {
        (self.name@, self.project_root_string@, self.skel_config_path@)
    }

    fn template_args(&self) -> (r: TemplateArgs)
        ensures
            slots_of(r) == self.slots(),
    {
        TemplateArgs {
            project_name: self.name.as_str(),
            project_root_path: self.project_root_string.as_str(),
            skel_config_path: self.skel_config_path.as_str(),
        }
    }

    pub fn run_template(&self, to_template: &str) -> (r: String)
        ensures
            r@ == subst(self.slots(), to_template@),
    {
        template(&self.template_args(), to_template)
    }

    /// The directories, resolved one by one; none where the skeleton lists none.
    pub fn dir_iter(&self) -> (r: Option<SkeletonPathIterator>)
        ensures
            match self.dirs {
                Some(d) => r is Some && r->Some_0.slots() == self.slots() && r->Some_0.items()
                    == strings(d@) && r->Some_0.position() == 0,
                None => r is None,
            },
    {
        match self.dirs.as_ref() {
            Some(dirs) => Some(SkeletonPathIterator::new(self.template_args(), dirs)),
            None => None,
        }
    }

    /// The files, resolved one by one; none where the skeleton lists none.
    pub fn file_iter(&self) -> (r: Option<SkeletonPathIterator>)
        ensures
            match self.files {
                Some(f) => r is Some && r->Some_0.slots() == self.slots() && r->Some_0.items()
                    == strings(f@) && r->Some_0.position() == 0,
                None => r is None,
            },
    {
        match self.files.as_ref() {
            Some(files) => Some(SkeletonPathIterator::new(self.template_args(), files)),
            None => None,
        }
    }

    /// The templates, resolved one by one; none where the skeleton has none.
    pub fn template_iter(&self) -> (r: Option<SkeletonTemplateIterator>)
        ensures
            match self.templates {
                Some(t) => r is Some && r->Some_0.slots() == self.slots() && r->Some_0.items()
                    == t@.map_values(|t: SkelTemplate| entry_view(t)) && r->Some_0.position() == 0,
                None => r is None,
            },
    {
        match self.templates {
            Some(ref templates) => Some(
                SkeletonTemplateIterator::new(self.template_args(), templates.as_slice()),
            ),
            None => None,
        }
    }
}

/// Hands out the paths of a list one at a time, each substituted and
/// anchored under the root.
pub struct SkeletonPathIterator<'a> {
    curr: usize,
    array: &'a Vec<String>,
    template_args: TemplateArgs<'a>,
}

impl<'a> SkeletonPathIterator<'a> {
    pub closed spec fn slots(&self) -> Slots {
        slots_of(self.template_args)
    }

    pub closed spec fn items(&self) -> Seq<Seq<char>> {
        strings(self.array@)
    }

    /// How many paths were handed out.
    pub closed spec fn position(&self) -> nat {
        self.curr as nat
    }

    pub fn new(template_args: TemplateArgs<'a>, array: &'a Vec<String>) -> (r: Self)
        ensures
            r.slots() == slots_of(template_args),
            r.items() == strings(array@),
            r.position() == 0,
    {
        Self { curr: 0, array, template_args }
    }

    /// The next path, or none once all were handed out.
    pub fn next(&mut self) -> (r: Option<String>)
        ensures
            final(self).slots() == old(self).slots(),
            final(self).items() == old(self).items(),
            if old(self).position() < old(self).items().len() {
                r is Some && r->Some_0@ == resolve_path(
                    old(self).slots(),
                    old(self).items()[old(self).position() as int],
                ) && final(self).position() == old(self).position() + 1
            } else {
                r is None && final(self).position() == old(self).position()
            },
    {
        if self.curr >= self.array.len() {
            return None;
        }
        let path = resolved_path(&self.template_args, self.array[self.curr].as_str());
        self.curr += 1;
        Some(path)
    }
}

/// Hands out the templates of a list one at a time: the destination
/// substituted and anchored under the root, the text substituted.
pub struct SkeletonTemplateIterator<'a> {
    array: &'a [SkeletonTemplate],
    curr: usize,
    template_args: TemplateArgs<'a>,
}

impl<'a> SkeletonTemplateIterator<'a> {
    pub closed spec fn slots(&self) -> Slots {
        slots_of(self.template_args)
    }

    pub closed spec fn items(&self) -> Seq<TemplateEntryView> {
        self.array@.map_values(|t: SkelTemplate| entry_view(t))
    }

    /// How many templates were handed out.
    pub closed spec fn position(&self) -> nat {
        self.curr as nat
    }

    pub fn new(template_args: TemplateArgs<'a>, array: &'a [SkeletonTemplate]) -> (r: Self)
        ensures
            r.slots() == slots_of(template_args),
            r.items() == array@.map_values(|t: SkelTemplate| entry_view(t)),
            r.position() == 0,
    {
        Self { curr: 0, array, template_args }
    }

    /// The next (destination, text), or none once all were handed out.
    pub fn next(&mut self) -> (r: Option<(String, String)>)
        ensures
            final(self).slots() == old(self).slots(),
            final(self).items() == old(self).items(),
            if old(self).position() < old(self).items().len() {
                let t = old(self).items()[old(self).position() as int];
                r is Some && r->Some_0.0@ == resolve_path(old(self).slots(), t.0) && r->Some_0.1@
                    == subst(old(self).slots(), text_or_empty(t)) && final(self).position()
                    == old(self).position() + 1
            } else {
                r is None && final(self).position() == old(self).position()
            },
    {
        if self.curr >= self.array.len() {
            return None;
        }
        let next_to_template = &self.array[self.curr];
        assert(entry_view(*next_to_template) == self.items()[self.curr as int]);
        let template_string = match next_to_template.template.as_ref() {
            Some(template_str) => template(&self.template_args, template_str.as_str()),
            None => {
                proof {
                    reveal_strlit("");
                }
                template(&self.template_args, "")
            },
        };
        let path = resolved_path(&self.template_args, next_to_template.path.as_str());
        self.curr += 1;
        Some((path, template_string))
    }
}

} // verus!
