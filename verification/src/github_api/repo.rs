//! The query for a repository's address and archive, and its answer.

use vstd::prelude::*;
use vstd::string::*;

use crate::cli::AddArgs;
use crate::github_api::gql::{json_of, json_string, GraphQLQuery};
use crate::repository::{Query, QueryView, Repository, RepositoryView};
use crate::text::opt_text;

verus! {

/// Asks for the address of a repository and for the archive of one of its
/// commits: the one that `$oid` or `$expression` names, unless
/// `$isDefaultBranch` says to leave that out, and the one at the head of the
/// default branch in any case.
pub const REPO_GQL: &'static str =
    "query ($name: String!, $owner: String!, $oid: GitObjectID, $expression: String, $isDefaultBranch: Boolean!) {
    repository(name: $name, owner: $owner) {
        url
        object(oid: $oid, expression: $expression) @skip(if: $isDefaultBranch) {
            ... on Commit {
                oid
                tarballUrl
            }
        }
        defaultBranchRef {
            target {
                ... on Commit {
                    oid
                    tarballUrl
                }
            }
        }
    }
}";

/// The values of the query's variables.
#[derive(Debug)]
pub struct RepoVariables {
    pub name: String,
    pub owner: String,
    /// The reference that names the commit, where a branch or a tag is asked
    /// for.
    pub expression: Option<String>,
    /// The commit, where one is asked for.
    pub oid: Option<String>,
    /// Whether nothing is asked for, so that the default branch is meant.
    pub is_default_branch: bool,
}

pub struct RepoVariablesView {
    pub name: Seq<char>,
    pub owner: Seq<char>,
    pub expression: Option<Seq<char>>,
    pub oid: Option<Seq<char>>,
    pub is_default_branch: bool,
}

impl View for RepoVariables {
    type V = RepoVariablesView;

    open spec fn view(&self) -> RepoVariablesView {
        RepoVariablesView {
            name: self.name@,
            owner: self.owner@,
            expression: opt_text(self.expression),
            oid: opt_text(self.oid),
            is_default_branch: self.is_default_branch,
        }
    }
}

/// Where a repository's page and the archive of the wanted commit are to be
/// had, and which commit it is.
#[derive(Debug)]
pub struct RemoteRepo {
    pub url: String,
    pub tarball_url: String,
    pub oid: Option<String>,
}

pub struct RemoteRepoView {
    pub url: Seq<char>,
    pub tarball_url: Seq<char>,
    pub oid: Option<Seq<char>>,
}

impl View for RemoteRepo {
    type V = RemoteRepoView;

    open spec fn view(&self) -> RemoteRepoView {
        RemoteRepoView { url: self.url@, tarball_url: self.tarball_url@, oid: opt_text(self.oid) }
    }
}

/// The data of an answer to the query.
#[derive(Debug)]
pub struct RepoResponseData {
    pub repository: RepositoryData,
}

#[derive(Debug)]
pub struct RepositoryData {
    pub url: String,
    pub default_branch_ref: DefaultBranchRef,
    pub object: Option<Target>,
}

#[derive(Debug)]
pub struct DefaultBranchRef {
    pub target: Target,
}

/// A commit: its archive and, where the answer tells it, its id.
#[derive(Debug)]
pub struct Target {
    pub oid: Option<String>,
    pub tarball_url: String,
}

impl Target {
    pub open spec fn resolves(self, url: Seq<char>) -> RemoteRepoView {
        RemoteRepoView { url, tarball_url: self.tarball_url@, oid: opt_text(self.oid) }
    }
}

impl RepoResponseData {
    /// What the answer comes to. Where a commit was selected and the answer
    /// holds it, that commit counts; otherwise the head of the default branch
    /// does.
    pub open spec fn resolved(self, selected: bool) -> RemoteRepoView {
        if selected && self.repository.object is Some {
            self.repository.object->0.resolves(self.repository.url@)
        } else {
            self.repository.default_branch_ref.target.resolves(self.repository.url@)
        }
    }
}

impl RemoteRepo {
    /// Reads an answer to a query that selected a commit or, where `selected`
    /// is false, did not.
    pub fn from_response(data: RepoResponseData, selected: bool) -> (remote: RemoteRepo)
        ensures
            remote@ == data.resolved(selected),
    {
        let RepositoryData { url, default_branch_ref, object } = data.repository;
        let target = match object {
            Some(found) => if selected {
                found
            } else {
                default_branch_ref.target
            },
            None => default_branch_ref.target,
        };
        RemoteRepo { url, tarball_url: target.tarball_url, oid: target.oid }
    }
}

/// Whether the arguments ask for a state of the repository, so that what the
/// reference asks for does not count.
pub open spec fn overrides(args: AddArgs) -> bool {
    args.branch is Some || args.tag is Some || args.commit is Some
}

/// The reference that names the wanted commit: the branch that the arguments
/// name, or else the tag that they name. Where the arguments ask for nothing,
/// the branch or the tag that the reference names.
pub open spec fn wanted_expression(repo: RepositoryView, args: AddArgs) -> Option<Seq<char>> {
    match (args.branch, args.tag) {
        (Some(branch), _) => Some("refs/heads/"@ + branch@),
        (None, Some(tag)) => Some("refs/tags/"@ + tag@),
        (None, None) => if overrides(args) {
            None
        } else {
            match repo.query {
                Some(QueryView::Branch(branch)) => Some("refs/heads/"@ + branch),
                Some(QueryView::Tag(tag)) => Some("refs/tags/"@ + tag),
                _ => None,
            }
        },
    }
}

/// The id of the wanted commit: the commit that the arguments name, beside
/// whatever else they name. Where the arguments ask for nothing, the commit
/// that the reference names.
pub open spec fn wanted_oid(repo: RepositoryView, args: AddArgs) -> Option<Seq<char>> {
    match args.commit {
        Some(commit) => Some(commit@),
        None => if overrides(args) {
            None
        } else {
            match repo.query {
                Some(QueryView::Commit(commit)) => Some(commit),
                _ => None,
            }
        },
    }
}

/// The variables that ask for `repo` in the state that is wanted. A branch
/// and a tag are named by a reference, a commit by its id; where neither is
/// named, the default branch is meant.
pub open spec fn variables_for(repo: RepositoryView, args: AddArgs) -> RepoVariablesView {
    RepoVariablesView {
        name: repo.name,
        owner: repo.owner,
        expression: wanted_expression(repo, args),
        oid: wanted_oid(repo, args),
        is_default_branch: wanted_expression(repo, args) is None && wanted_oid(repo, args) is None,
    }
}

/// The text that stands for an optional string in a JSON document.
pub open spec fn json_optional(value: Option<Seq<char>>) -> Seq<char> {
    match value {
        Some(text) => json_string(text),
        None => "null"@,
    }
}

/// The JSON object that holds the variables.
pub open spec fn variables_json(variables: RepoVariablesView) -> Seq<char> {
    "{\"name\":"@ + json_string(variables.name) + ",\"owner\":"@ + json_string(variables.owner)
        + ",\"expression\":"@ + json_optional(variables.expression) + ",\"oid\":"@ + json_optional(
        variables.oid,
    ) + ",\"isDefaultBranch\":"@ + (if variables.is_default_branch {
        "true"@
    } else {
        "false"@
    }) + "}"@
}

/// Puts together the JSON object of the variables from its members, each
/// written as JSON already.
pub fn frame_variables(
    name: &str,
    owner: &str,
    expression: &str,
    oid: &str,
    is_default_branch: bool,
) -> (json: String)
    ensures
        json@ == "{\"name\":"@ + name@ + ",\"owner\":"@ + owner@ + ",\"expression\":"@
            + expression@ + ",\"oid\":"@ + oid@ + ",\"isDefaultBranch\":"@ + (if is_default_branch {
            "true"@
        } else {
            "false"@
        }) + "}"@,
{
    let mut json = String::from_str("{\"name\":");
    json.append(name);
    json.append(",\"owner\":");
    json.append(owner);
    json.append(",\"expression\":");
    json.append(expression);
    json.append(",\"oid\":");
    json.append(oid);
    json.append(",\"isDefaultBranch\":");
    if is_default_branch {
        json.append("true");
    } else {
        json.append("false");
    }
    json.append("}");
    json
}

/// Writes an optional string as JSON.
fn optional_to_json(value: &Option<String>) -> (json: String)
    ensures
        json@ == json_optional(opt_text(*value)),
{
    match value {
        Some(text) => json_of(text.as_str()),
        None => String::from_str("null"),
    }
}

/// The query for a repository, with the values of its variables.
#[derive(Debug)]
pub struct RepoQuery {
    pub query: &'static str,
    pub variables: RepoVariables,
}

impl RepoQuery {
    /// The query that asks for `repo` in the state that is wanted: the one
    /// that `args` asks for, or else the one that the reference asked for.
    pub fn new(repo: &Repository, args: &AddArgs) -> (query: RepoQuery)
        ensures
            query.query@ == REPO_GQL@,
            query.variables@ == variables_for(repo@, *args),
    {
        let mut expression: Option<String> = None;
        let mut oid: Option<String> = None;
        if let Some(branch) = &args.branch {
            expression = Some(heads_reference(branch.as_str()));
        } else if let Some(tag) = &args.tag {
            expression = Some(tags_reference(tag.as_str()));
        }
        if let Some(commit) = &args.commit {
            oid = Some(commit.clone());
        }
        if args.branch.is_none() && args.tag.is_none() && args.commit.is_none() {
            match &repo.query {
                Some(Query::Branch(branch)) => {
                    expression = Some(heads_reference(branch.as_str()));
                },
                Some(Query::Tag(tag)) => {
                    expression = Some(tags_reference(tag.as_str()));
                },
                Some(Query::Commit(commit)) => {
                    oid = Some(commit.clone());
                },
                None => {},
            }
        }
        let is_default_branch = expression.is_none() && oid.is_none();
        RepoQuery {
            query: REPO_GQL,
            variables: RepoVariables {
                name: repo.name.clone(),
                owner: repo.owner.clone(),
                expression,
                oid,
                is_default_branch,
            },
        }
    }

    /// The query with its variables written as JSON.
    pub fn build(self) -> (query: GraphQLQuery)
        ensures
            query.query@ == self.query@,
            query.variables@ == variables_json(self.variables@),
    {
        let name = json_of(self.variables.name.as_str());
        let owner = json_of(self.variables.owner.as_str());
        let expression = optional_to_json(&self.variables.expression);
        let oid = optional_to_json(&self.variables.oid);
        let variables = frame_variables(
            name.as_str(),
            owner.as_str(),
            expression.as_str(),
            oid.as_str(),
            self.variables.is_default_branch,
        );
        GraphQLQuery { query: self.query, variables }
    }
}

/// The reference that names the branch `branch`.
fn heads_reference(branch: &str) -> (reference: String)
    ensures
        reference@ == "refs/heads/"@ + branch@,
{
    let mut reference = String::from_str("refs/heads/");
    reference.append(branch);
    reference
}

/// The reference that names the tag `tag`.
fn tags_reference(tag: &str) -> (reference: String)
    ensures
        reference@ == "refs/tags/"@ + tag@,
{
    let mut reference = String::from_str("refs/tags/");
    reference.append(tag);
    reference
}

} // verus!
