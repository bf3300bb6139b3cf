//! What the commands are given to work with.

use vstd::prelude::*;

verus! {

#[derive(Debug)]
pub struct ListArgs {
    /// Whether the templates are to be shown with all that is known of them.
    pub table: bool,
}

#[derive(Debug)]
pub struct RemoveArgs {
    /// The names of the templates to remove.
    pub names: Option<Vec<String>>,
}

#[derive(Debug)]
pub struct RenameArgs {
    /// The name of the template.
    pub name: Option<String>,
    /// The name that it is to have.
    pub new_name: Option<String>,
}

#[derive(Debug)]
pub struct AddArgs {
    /// The reference to the repository.
    pub repository: String,
    /// How deep to go: with 0 the directory itself becomes a template, with 1
    /// each directory in it becomes one.
    pub depth: u8,
    /// The name of the template. Where a directory of the repository is
    /// asked for, the template is named after that directory instead.
    pub name: Option<String>,
    /// The directory of the repository to take, in place of the one that the
    /// reference names.
    pub subdir: Option<String>,
    /// The branch to take, in place of what the reference asks for.
    pub branch: Option<String>,
    /// The tag to take, in place of what the reference asks for.
    pub tag: Option<String>,
    /// The commit to take, in place of what the reference asks for.
    pub commit: Option<String>,
}

#[derive(Debug)]
pub struct CreateArgs {
    /// The name of the template.
    pub name: Option<String>,
    /// Where to put the copy. The default is a directory named after the
    /// template, in the current directory.
    pub destination: Option<String>,
    /// The names of the sub-templates to add to the copy.
    pub sub_templates: Option<Vec<String>>,
    /// Patterns, with commas between them, of what else to bring along from
    /// beside a template that was stored as one of several.
    pub with: Option<String>,
}

#[derive(Debug)]
pub struct TokenArgs {
    /// The token to keep. Without one, the token that is kept is shown.
    pub token: Option<String>,
}

} // verus!
