//! The service that tells where a repository's archive is to be had.

pub mod gql;
pub mod repo;

use vstd::prelude::*;
use vstd::string::*;

use crate::cli::AddArgs;
use crate::error::ScafalraError;
use crate::github_api::gql::{body_text, GraphQLQuery};
use crate::github_api::repo::{variables_for, variables_json, RepoQuery, REPO_GQL};
use crate::repository::Repository;
use crate::text::opt_text;

verus! {

/// Where the service is reached unless another place is named.
pub const DEFAULT_ENDPOINT: &'static str = "https://api.github.com/graphql";

pub struct GitHubApi {
    token: Option<String>,
    endpoint: String,
}

/// A request that is ready to be sent: a `POST` of `body` to `endpoint`, with
/// `authorization` as the header of that name.
#[derive(Debug)]
pub struct ApiRequest {
    pub endpoint: String,
    pub authorization: String,
    pub body: String,
}

impl GitHubApi {
    /// The token that requests are made with, where one was set.
    pub closed spec fn token(&self) -> Option<Seq<char>> {
        opt_text(self.token)
    }

    /// Where requests are sent.
    pub closed spec fn endpoint(&self) -> Seq<char> {
        self.endpoint@
    }

    /// The service at `endpoint`, or at its usual place. No token is set.
    pub fn new(endpoint: Option<&str>) -> (api: GitHubApi)
        ensures
            api.token() is None,
            api.endpoint() == match endpoint {
                Some(place) => place@,
                None => DEFAULT_ENDPOINT@,
            },
    {
        let endpoint = match endpoint {
            Some(place) => String::from_str(place),
            None => String::from_str(DEFAULT_ENDPOINT),
        };
        GitHubApi { token: None, endpoint }
    }

    pub fn set_token(&mut self, token: &str)
        ensures
            final(self).token() == Some(token@),
            final(self).endpoint() == old(self).endpoint(),
    {
        self.token = Some(String::from_str(token));
    }

    /// The request that puts `query` to the service: one `POST` of the
    /// query's document, with the token as its authorization. Without a
    /// token it fails with `NoToken`, and on no other ground.
    pub fn request(&self, query: &GraphQLQuery) -> (request: Result<ApiRequest, ScafalraError>)
        ensures
            match request {
                Ok(ready) => {
                    &&& self.token() matches Some(token)
                    &&& ready.endpoint@ == self.endpoint()
                    &&& ready.authorization@ == "bearer "@ + token
                    &&& ready.body@ == body_text(query.query@, query.variables@)
                },
                Err(error) => self.token() is None && error is NoToken,
            },
    {
        let token = match &self.token {
            Some(token) => token,
            None => {
                return Err(ScafalraError::NoToken);
            },
        };
        let body = query.body();
        let mut authorization = String::from_str("bearer ");
        authorization.append(token.as_str());
        Ok(ApiRequest { endpoint: self.endpoint.clone(), authorization, body })
    }

    /// The request that asks for `repo` in the state that is wanted. It fails
    /// as [`GitHubApi::request`] does.
    pub fn query_remote_repo(&self, repo: &Repository, args: &AddArgs) -> (request: Result<
        ApiRequest,
        ScafalraError,
    >)
        ensures
            match request {
                Ok(ready) => {
                    &&& self.token() matches Some(token)
                    &&& ready.endpoint@ == self.endpoint()
                    &&& ready.authorization@ == "bearer "@ + token
                    &&& ready.body@ == body_text(
                        REPO_GQL@,
                        variables_json(variables_for(repo@, *args)),
                    )
                },
                Err(error) => self.token() is None && error is NoToken,
            },
    {
        let query = RepoQuery::new(repo, args).build();
        self.request(&query)
    }
}

} // verus!
