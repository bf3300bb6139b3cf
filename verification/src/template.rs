//! A template: a cached copy of a repository, or of a directory in one, known
//! by a name.

use vstd::prelude::*;
use vstd::string::*;

use crate::sub_template::{clone_sub_templates, sub_template_views, SubTemplate, SubTemplateView};

verus! {

#[derive(Debug)]
pub struct Template {
    /// The name under which the template is stored.
    pub name: String,
    /// The page of the repository that it was taken from.
    pub url: String,
    /// The directory that holds the copy.
    pub path: String,
    /// When the copy was made.
    pub created_at: String,
    /// The directories that it keeps aside, where it has been looked for them.
    pub sub_templates: Option<Vec<SubTemplate>>,
    /// Whether it was stored as one of several directories of one repository.
    pub is_sub_template: Option<bool>,
}

pub struct TemplateView {
    pub name: Seq<char>,
    pub url: Seq<char>,
    pub path: Seq<char>,
    pub created_at: Seq<char>,
    pub sub_templates: Option<Seq<SubTemplateView>>,
    pub is_sub_template: Option<bool>,
}

impl View for Template {
    type V = TemplateView;

    open spec fn view(&self) -> TemplateView {
        TemplateView {
            name: self.name@,
            url: self.url@,
            path: self.path@,
            created_at: self.created_at@,
            sub_templates: match self.sub_templates {
                Some(list) => Some(sub_template_views(list@)),
                None => None,
            },
            is_sub_template: self.is_sub_template,
        }
    }
}

impl TemplateView {
    /// The same template under another name.
    pub open spec fn renamed(self, name: Seq<char>) -> TemplateView {
        TemplateView { name, ..self }
    }
}

impl Clone for Template {
    fn clone(&self) -> (copy: Template)
        ensures
            copy@ == self@,
    {
        Template {
            name: self.name.clone(),
            url: self.url.clone(),
            path: self.path.clone(),
            created_at: self.created_at.clone(),
            sub_templates: match &self.sub_templates {
                Some(list) => Some(clone_sub_templates(list)),
                None => None,
            },
            is_sub_template: self.is_sub_template,
        }
    }
}

impl Template {
    /// A template called `name`, taken from `url` and kept at `path` since
    /// `created_at`, with the sub-templates that were found in it.
    pub fn new(
        name: &str,
        url: &str,
        path: &str,
        created_at: &str,
        sub_templates: Option<Vec<SubTemplate>>,
    ) -> (template: Template)
        ensures
            template@ == (TemplateView {
                name: name@,
                url: url@,
                path: path@,
                created_at: created_at@,
                sub_templates: match sub_templates {
                    Some(list) => Some(sub_template_views(list@)),
                    None => None,
                },
                is_sub_template: None,
            }),
    {
        Template {
            name: String::from_str(name),
            url: String::from_str(url),
            path: String::from_str(path),
            created_at: String::from_str(created_at),
            sub_templates,
            is_sub_template: None,
        }
    }
}

/// The names of `sub_templates`, in order, with a comma between each two.
pub open spec fn sub_template_names(sub_templates: Seq<SubTemplateView>) -> Seq<char>
    decreases sub_templates.len(),
{
    if sub_templates.len() == 0 {
        Seq::empty()
    } else if sub_templates.len() == 1 {
        sub_templates[0].name
    } else {
        sub_template_names(sub_templates.drop_last()) + seq![','] + sub_templates.last().name
    }
}

/// Writes the names of `sub_templates` in one line, with a comma between each
/// two.
pub fn display_sub_templates(sub_templates: &Vec<SubTemplate>) -> (line: String)
    ensures
        line@ == sub_template_names(sub_template_views(sub_templates@)),
{
    let ghost views = sub_template_views(sub_templates@);
    let mut line = String::new();
    let mut i: usize = 0;
    while i < sub_templates.len()
        invariant
            i <= sub_templates.len(),
            views == sub_template_views(sub_templates@),
            line@ == sub_template_names(views.take(i as int)),
        decreases sub_templates.len() - i,
    {
        if i > 0 {
            line.append(",");
        }
        line.append(sub_templates[i].name.as_str());
        proof {
            reveal_strlit(",");
            let done = views.take(i + 1);
            assert(done.drop_last() =~= views.take(i as int));
        }
        i = i + 1;
    }
    assert(views.take(i as int) =~= views);
    line
}

} // verus!
