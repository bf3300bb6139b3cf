use scafalra::cli::AddArgs;
use scafalra::error::ScafalraError;
use scafalra::github_api::gql::{GraphQLError, GraphQLQuery, GraphQLResponse};
use scafalra::github_api::repo::{
    DefaultBranchRef, RemoteRepo, RepoQuery, RepoResponseData, RepositoryData, Target, REPO_GQL,
};
use scafalra::github_api::GitHubApi;
use scafalra::repository::{Query, Repository};

fn build_repository() -> Repository {
    Repository {
        owner: "shixinhuang99".to_string(),
        name: "scafalra".to_string(),
        subdir: None,
        query: None,
    }
}

fn add_args() -> AddArgs {
    AddArgs {
        repository: "foo/bar".to_string(),
        depth: 0,
        name: None,
        subdir: None,
        branch: None,
        tag: None,
        commit: None,
    }
}

fn response_data(object: Option<Target>) -> RepoResponseData {
    RepoResponseData {
        repository: RepositoryData {
            url: "url".to_string(),
            default_branch_ref: DefaultBranchRef {
                target: Target { oid: Some("oid".to_string()), tarball_url: "tarballUrl".to_string() },
            },
            object,
        },
    }
}

#[test]
fn test_variable_new() {
    let v = RepoQuery::new(&build_repository(), &add_args()).variables;

    assert_eq!(&v.name, "scafalra");
    assert_eq!(&v.owner, "shixinhuang99");
    assert_eq!(v.oid, None);
    assert_eq!(v.expression, None);
    assert_eq!(v.is_default_branch, true);
}

#[test]
fn test_variable_query_branch() {
    let v = RepoQuery::new(
        &Repository { query: Some(Query::Branch("foo".to_string())), ..build_repository() },
        &add_args(),
    )
    .variables;

    assert_eq!(&v.name, "scafalra");
    assert_eq!(&v.owner, "shixinhuang99");
    assert_eq!(v.oid, None);
    assert_eq!(v.expression, Some("refs/heads/foo".to_string()));
    assert_eq!(v.is_default_branch, false);
}

#[test]
fn test_variable_query_tag() {
    let v = RepoQuery::new(
        &Repository { query: Some(Query::Tag("foo".to_string())), ..build_repository() },
        &add_args(),
    )
    .variables;

    assert_eq!(&v.name, "scafalra");
    assert_eq!(&v.owner, "shixinhuang99");
    assert_eq!(v.oid, None);
    assert_eq!(v.expression, Some("refs/tags/foo".to_string()));
    assert_eq!(v.is_default_branch, false);
}

#[test]
fn test_variable_query_commit() {
    let v = RepoQuery::new(
        &Repository { query: Some(Query::Commit("foo".to_string())), ..build_repository() },
        &add_args(),
    )
    .variables;

    assert_eq!(&v.name, "scafalra");
    assert_eq!(&v.owner, "shixinhuang99");
    assert_eq!(v.oid, Some("foo".to_string()));
    assert_eq!(v.expression, None);
    assert_eq!(v.is_default_branch, false);
}

#[test]
fn test_github_api_request() {
    let mut github_api = GitHubApi::new(Some("http://127.0.0.1:1234"));

    github_api.set_token("token");

    let request = github_api.query_remote_repo(&build_repository(), &add_args()).unwrap();
    assert_eq!(request.endpoint, "http://127.0.0.1:1234");
    assert_eq!(request.authorization, "bearer token");

    let response = GraphQLResponse { data: Some(response_data(None)), errors: None };
    let api_result = RemoteRepo::from_response(response.into_data().unwrap(), false);

    assert_eq!(api_result.oid.as_deref(), Some("oid"));
    assert_eq!(api_result.url, "url");
    assert_eq!(api_result.tarball_url, "tarballUrl");
}

#[test]
fn github_api_test_github_api_request_no_token() {
    let github_api = GitHubApi::new(None);
    let query = RepoQuery::new(&build_repository(), &add_args()).build();
    let api_result = github_api.request(&query);

    assert!(api_result.is_err());
}

#[test]
fn mod_test_repo_query() {
    let mut github_api = GitHubApi::new(None);

    github_api.set_token("token");

    assert!(github_api.query_remote_repo(&build_repository(), &add_args()).is_ok());

    let response = GraphQLResponse { data: Some(response_data(None)), errors: None };
    let ret = RemoteRepo::from_response(response.into_data().unwrap(), false);

    assert_eq!(ret.url, "url");
    assert_eq!(ret.tarball_url, "tarballUrl");
}

#[test]
fn mod_test_github_api_request_no_token() {
    let github_api = GitHubApi::new(None);

    let ret = github_api.query_remote_repo(&build_repository(), &add_args());

    assert!(ret.is_err());
    assert!(matches!(ret, Err(ScafalraError::NoToken)));
}

#[test]
fn test_github_api_request_error() {
    let mut github_api = GitHubApi::new(None);

    github_api.set_token("token");

    let repo = Repository { owner: "foo".to_string(), name: "bar".to_string(), ..build_repository() };
    assert!(github_api.query_remote_repo(&repo, &add_args()).is_ok());

    let response: GraphQLResponse<RepoResponseData> = GraphQLResponse {
        data: None,
        errors: Some(vec![
            GraphQLError {
                message: "Could not resolve to a Repository with the name 'foo/bar'.".to_string(),
            },
            GraphQLError { message: "second".to_string() },
        ]),
    };
    let ret = response.into_data();

    assert!(ret.is_err());
    match ret {
        Err(ScafalraError::ApiError(Some(message))) => {
            assert_eq!(message, "Could not resolve to a Repository with the name 'foo/bar'.")
        },
        _ => panic!(),
    }
}

#[test]
fn repo_test_repo_query() {
    let repo_query = RepoQuery::new(&build_repository(), &add_args());

    assert_eq!(repo_query.variables.name, "scafalra");
    assert_eq!(repo_query.variables.owner, "shixinhuang99");
    assert_eq!(repo_query.variables.oid, None);
    assert_eq!(repo_query.variables.expression, None);
    assert!(repo_query.variables.is_default_branch);
}

#[test]
fn test_repo_query_branch() {
    let repo_query =
        RepoQuery::new(&build_repository(), &AddArgs { branch: Some("foo".to_string()), ..add_args() });

    assert_eq!(repo_query.variables.oid, None);
    assert_eq!(repo_query.variables.expression, Some("refs/heads/foo".to_string()));
    assert!(!repo_query.variables.is_default_branch);
}

#[test]
fn test_repo_query_tag() {
    let repo_query =
        RepoQuery::new(&build_repository(), &AddArgs { tag: Some("foo".to_string()), ..add_args() });

    assert_eq!(repo_query.variables.oid, None);
    assert_eq!(repo_query.variables.expression, Some("refs/tags/foo".to_string()));
    assert!(!repo_query.variables.is_default_branch);
}

#[test]
fn test_repo_query_commit() {
    let repo_query =
        RepoQuery::new(&build_repository(), &AddArgs { commit: Some("foo".to_string()), ..add_args() });

    assert_eq!(repo_query.variables.oid, Some("foo".to_string()));
    assert_eq!(repo_query.variables.expression, None,);
    assert!(!repo_query.variables.is_default_branch);
}

#[test]
fn arguments_come_before_the_reference() {
    let repo = Repository { query: Some(Query::Commit("abc".to_string())), ..build_repository() };
    let args = AddArgs { tag: Some("v1".to_string()), ..add_args() };
    let variables = RepoQuery::new(&repo, &args).variables;
    assert_eq!(variables.expression.as_deref(), Some("refs/tags/v1"));
    assert_eq!(variables.oid, None);
    assert!(!variables.is_default_branch);

    let repo = Repository { query: Some(Query::Branch("main".to_string())), ..build_repository() };
    let args = AddArgs { commit: Some("def".to_string()), ..add_args() };
    let variables = RepoQuery::new(&repo, &args).variables;
    assert_eq!(variables.expression, None);
    assert_eq!(variables.oid.as_deref(), Some("def"));
    assert!(!variables.is_default_branch);
}

#[test]
fn a_commit_is_sent_beside_a_branch_or_a_tag() {
    let repo = Repository { query: Some(Query::Commit("abc".to_string())), ..build_repository() };
    let args = AddArgs {
        tag: Some("v1".to_string()),
        commit: Some("def".to_string()),
        ..add_args()
    };
    let variables = RepoQuery::new(&repo, &args).variables;
    assert_eq!(variables.expression.as_deref(), Some("refs/tags/v1"));
    assert_eq!(variables.oid.as_deref(), Some("def"));
    assert!(!variables.is_default_branch);

    let args = AddArgs {
        branch: Some("dev".to_string()),
        tag: Some("v1".to_string()),
        commit: Some("def".to_string()),
        ..add_args()
    };
    let variables = RepoQuery::new(&repo, &args).variables;
    assert_eq!(variables.expression.as_deref(), Some("refs/heads/dev"));
    assert_eq!(variables.oid.as_deref(), Some("def"));
    assert!(!variables.is_default_branch);

    let query = RepoQuery::new(&repo, &args).build();
    assert_eq!(
        query.variables,
        "{\"name\":\"scafalra\",\"owner\":\"shixinhuang99\",\"expression\":\"refs/heads/dev\",\"oid\":\"def\",\"isDefaultBranch\":false}"
    );
}

#[test]
fn variables_are_written_as_json() {
    let repo = Repository {
        owner: "o\"w".to_string(),
        name: "n\\m".to_string(),
        subdir: None,
        query: Some(Query::Branch("feat/ü\n".to_string())),
    };
    let query = RepoQuery::new(&repo, &add_args()).build();
    assert_eq!(query.query, REPO_GQL);
    assert_eq!(
        query.variables,
        "{\"name\":\"n\\\\m\",\"owner\":\"o\\\"w\",\"expression\":\"refs/heads/feat/ü\\n\",\"oid\":null,\"isDefaultBranch\":false}"
    );

    let query = RepoQuery::new(&build_repository(), &add_args()).build();
    assert_eq!(
        query.variables,
        "{\"name\":\"scafalra\",\"owner\":\"shixinhuang99\",\"expression\":null,\"oid\":null,\"isDefaultBranch\":true}"
    );

    let args = AddArgs { commit: Some("abc".to_string()), ..add_args() };
    let query = RepoQuery::new(&build_repository(), &args).build();
    assert_eq!(
        query.variables,
        "{\"name\":\"scafalra\",\"owner\":\"shixinhuang99\",\"expression\":null,\"oid\":\"abc\",\"isDefaultBranch\":false}"
    );
}

#[test]
fn body_holds_query_and_variables() {
    let query = GraphQLQuery { query: "query { a(b: \"c\") }", variables: "{\"x\":1}".to_string() };
    assert_eq!(
        query.body(),
        "{\"query\":\"query { a(b: \\\"c\\\") }\",\"variables\":{\"x\":1}}"
    );
}

#[test]
fn request_carries_token_and_endpoint() {
    let mut api = GitHubApi::new(None);
    api.set_token("secret");
    let query = GraphQLQuery { query: "q", variables: "{}".to_string() };
    let request = api.request(&query).unwrap();
    assert_eq!(request.endpoint, "https://api.github.com/graphql");
    assert_eq!(request.authorization, "bearer secret");
    assert_eq!(request.body, "{\"query\":\"q\",\"variables\":{}}");
}

#[test]
fn no_token_message() {
    let api = GitHubApi::new(None);
    let query = GraphQLQuery { query: "q", variables: "{}".to_string() };
    let error = api.request(&query).unwrap_err();
    assert!(matches!(error, ScafalraError::NoToken));
    assert_eq!(error.message(), "No GitHub personal access token configured");
}

#[test]
fn errors_count_before_data() {
    let response = GraphQLResponse {
        data: Some(response_data(None)),
        errors: Some(vec![GraphQLError { message: "bad".to_string() }]),
    };
    match response.into_data() {
        Err(ScafalraError::ApiError(Some(message))) => assert_eq!(message, "bad"),
        _ => panic!(),
    }
}

#[test]
fn empty_error_list_is_an_error_without_message() {
    let response = GraphQLResponse { data: Some(response_data(None)), errors: Some(vec![]) };
    let error = response.into_data().unwrap_err();
    assert!(matches!(error, ScafalraError::ApiError(None)));
    assert_eq!(error.message(), "Call to GitHub api error");
}

#[test]
fn missing_data_is_an_error() {
    let response: GraphQLResponse<RepoResponseData> = GraphQLResponse { data: None, errors: None };
    match response.into_data() {
        Err(ScafalraError::ApiError(Some(message))) => assert_eq!(message, "No response data"),
        _ => panic!(),
    }
}

#[test]
fn selected_commit_counts_when_selected() {
    let object = Target { oid: Some("picked".to_string()), tarball_url: "pickedUrl".to_string() };
    let remote = RemoteRepo::from_response(response_data(Some(object)), true);
    assert_eq!(remote.url, "url");
    assert_eq!(remote.tarball_url, "pickedUrl");
    assert_eq!(remote.oid.as_deref(), Some("picked"));

    let object = Target { oid: Some("picked".to_string()), tarball_url: "pickedUrl".to_string() };
    let remote = RemoteRepo::from_response(response_data(Some(object)), false);
    assert_eq!(remote.tarball_url, "tarballUrl");
    assert_eq!(remote.oid.as_deref(), Some("oid"));

    let remote = RemoteRepo::from_response(response_data(None), true);
    assert_eq!(remote.tarball_url, "tarballUrl");
    assert_eq!(remote.oid.as_deref(), Some("oid"));
}
