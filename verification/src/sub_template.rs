//! Directories that a template keeps aside, to be added on request when the
//! template is copied.

use vstd::prelude::*;
use vstd::string::*;

use crate::path_ext::{file_name, file_name_of, join, push_part};

verus! {

/// The directory inside a template that holds its sub-templates and the
/// repository's own settings.
pub const SUB_TEMPLATE_DIR: &'static str = ".scafalra";

#[derive(Debug)]
pub struct SubTemplate {
    pub name: String,
    pub path: String,
}

pub struct SubTemplateView {
    pub name: Seq<char>,
    pub path: Seq<char>,
}

impl View for SubTemplate {
    type V = SubTemplateView;

    open spec fn view(&self) -> SubTemplateView {
        SubTemplateView { name: self.name@, path: self.path@ }
    }
}

impl Clone for SubTemplate {
    fn clone(&self) -> (copy: SubTemplate)
        ensures
            copy@ == self@,
    {
        SubTemplate { name: self.name.clone(), path: self.path.clone() }
    }
}

/// The views of the elements of `list`, in order.
pub open spec fn sub_template_views(list: Seq<SubTemplate>) -> Seq<SubTemplateView> {
    Seq::new(list.len(), |i: int| list[i]@)
}

/// Copies a list of sub-templates.
pub fn clone_sub_templates(list: &Vec<SubTemplate>) -> (copy: Vec<SubTemplate>)
    ensures
        sub_template_views(copy@) == sub_template_views(list@),
{
    let mut copy: Vec<SubTemplate> = Vec::new();
    let mut i: usize = 0;
    while i < list.len()
        invariant
            i <= list.len(),
            copy@.len() == i,
            forall|j: int| 0 <= j < i ==> #[trigger] copy@[j]@ == list@[j]@,
        decreases list.len() - i,
    {
        copy.push(list[i].clone());
        i = i + 1;
    }
    copy
}

impl SubTemplate {
    /// The sub-template that the entry at `path` stands for: one named after
    /// the last part of `path`, where the entry is a directory and the path
    /// has such a part.
    pub fn new(path: &str, is_dir: bool) -> (sub_template: Option<SubTemplate>)
        ensures
            match sub_template {
                Some(found) => sub_template_at(path@, is_dir) == Some(found@),
                None => sub_template_at(path@, is_dir) is None,
            },
    {
        if !is_dir {
            return None;
        }
        match file_name_of(path) {
            Some(name) => Some(SubTemplate { name, path: String::from_str(path) }),
            None => None,
        }
    }
}

/// What a listing of a directory tells of one of its entries.
#[derive(Debug)]
pub struct DirEntry {
    pub name: String,
    pub is_dir: bool,
}

/// An entry of a directory, together with what the entry's own directory of
/// sub-templates holds.
#[derive(Debug)]
pub struct Child {
    pub name: String,
    pub is_dir: bool,
    pub kept_aside: Vec<DirEntry>,
}

/// What was found in a directory that is to become a template, or whose
/// directories are.
#[derive(Debug)]
pub struct Tree {
    /// What the directory's own directory of sub-templates holds.
    pub kept_aside: Vec<DirEntry>,
    /// What the directory holds. Only a fetch that makes a template of each
    /// directory looks at these.
    pub children: Vec<Child>,
}

/// The sub-template that the entry at `path` stands for, where it stands
/// for one.
pub open spec fn sub_template_at(path: Seq<char>, is_dir: bool) -> Option<SubTemplateView> {
    if is_dir && file_name(path) is Some {
        Some(SubTemplateView { name: file_name(path)->0, path })
    } else {
        None
    }
}

/// The sub-templates among `entries`, which are what the directory `dir`
/// holds, in the order of the entries.
pub open spec fn sub_templates_in(dir: Seq<char>, entries: Seq<DirEntry>) -> Seq<SubTemplateView>
    decreases entries.len(),
{
    if entries.len() == 0 {
        Seq::empty()
    } else {
        let before = sub_templates_in(dir, entries.drop_last());
        match sub_template_at(join(dir, entries.last().name@), entries.last().is_dir) {
            Some(found) => before.push(found),
            None => before,
        }
    }
}

/// The directory of the template at `template_path` that holds its
/// sub-templates.
pub open spec fn sub_template_dir(template_path: Seq<char>) -> Seq<char> {
    join(template_path, SUB_TEMPLATE_DIR@)
}

/// The sub-templates of the template at `template_path`, given the
/// `entries` of the directory that holds them.
pub fn read_sub_templates(template_path: &str, entries: &Vec<DirEntry>) -> (found: Vec<SubTemplate>)
    ensures
        sub_template_views(found@) == sub_templates_in(
            sub_template_dir(template_path@),
            entries@,
        ),
{
    let mut dir = String::from_str(template_path);
    push_part(&mut dir, SUB_TEMPLATE_DIR);
    let mut found: Vec<SubTemplate> = Vec::new();
    let mut i: usize = 0;
    while i < entries.len()
        invariant
            i <= entries.len(),
            dir@ == sub_template_dir(template_path@),
            sub_template_views(found@) == sub_templates_in(dir@, entries@.take(i as int)),
        decreases entries.len() - i,
    {
        proof {
            let done = entries@.take(i + 1);
            assert(done.drop_last() =~= entries@.take(i as int));
        }
        let mut path = dir.clone();
        push_part(&mut path, entries[i].name.as_str());
        match SubTemplate::new(path.as_str(), entries[i].is_dir) {
            Some(sub_template) => {
                found.push(sub_template);
            },
            None => {},
        }
        i = i + 1;
    }
    assert(entries@.take(i as int) =~= entries@);
    found
}

} // verus!
