use scafalra::cli::{AddArgs, CreateArgs, ListArgs, RemoveArgs, RenameArgs, TokenArgs};
use scafalra::config::{Config, ConfigContent};
use scafalra::error::ScafalraError;
use scafalra::github_api::repo::RemoteRepo;
use scafalra::repository::Repository;
use scafalra::repository_config::{CopyRule, RepositoryConfig};
use scafalra::scafalra::{Choice, Listing, Scafalra, TokenOutcome};
use scafalra::store::{Renamed, Store};
use scafalra::repository_config::CopyJob;
use scafalra::sub_template::{Child, DirEntry, SubTemplate, Tree};
use scafalra::template::Template;

const CREATED_AT: &str = "2023-05-19 00:00:00";

fn scafalra_with(templates: Vec<Template>) -> Scafalra {
    Scafalra::new(
        "/data/scafalra",
        None,
        Some("token"),
        Config::new("/data/scafalra", ConfigContent { token: None }),
        Store::new("/data/scafalra", templates),
    )
}

fn scafalra() -> Scafalra {
    scafalra_with(Vec::new())
}

/// a template that name is `bar`
fn with_content() -> Scafalra {
    let sub_templates = vec![
        SubTemplate {
            name: "dir-1".to_string(),
            path: "/data/scafalra/cache/foo/bar/.scafalra/dir-1".to_string(),
        },
        SubTemplate {
            name: "dir-2".to_string(),
            path: "/data/scafalra/cache/foo/bar/.scafalra/dir-2".to_string(),
        },
    ];
    scafalra_with(vec![Template::new(
        "bar",
        "url",
        "/data/scafalra/cache/foo/bar",
        CREATED_AT,
        Some(sub_templates),
    )])
}

fn add_args() -> AddArgs {
    AddArgs {
        repository: "foo/bar".to_string(),
        depth: 0,
        name: None,
        subdir: None,
        branch: None,
        tag: None,
        commit: None,
    }
}

fn remote() -> RemoteRepo {
    RemoteRepo {
        url: "https://github.com/foo/bar".to_string(),
        tarball_url: "https://codeload.github.com/foo/bar/legacy.tar.gz/refs/heads/main"
            .to_string(),
        oid: Some("ea7c165bac336140bcf08f84758ab752769799be".to_string()),
    }
}

fn dir(name: &str) -> DirEntry {
    DirEntry { name: name.to_string(), is_dir: true }
}

fn file(name: &str) -> DirEntry {
    DirEntry { name: name.to_string(), is_dir: false }
}

fn names(scafalra: &Scafalra) -> Vec<String> {
    scafalra.store().all_templates_name().into_iter().cloned().collect()
}

fn no_rules() -> RepositoryConfig {
    RepositoryConfig { copy_on_add: Vec::new() }
}

/// What was found in the directory of the templates: `entries` are those of
/// the directory, or with a depth of 0 those of its directory of
/// sub-templates. Each directory `x` in it keeps `x-extra` aside.
fn tree_of(args: &AddArgs, entries: &[DirEntry]) -> Tree {
    let copy = |e: &DirEntry| DirEntry { name: e.name.clone(), is_dir: e.is_dir };
    if args.depth == 1 {
        Tree {
            kept_aside: Vec::new(),
            children: entries
                .iter()
                .map(|e| Child {
                    name: e.name.clone(),
                    is_dir: e.is_dir,
                    kept_aside: vec![dir(&format!("{}-extra", e.name)), file("notes.txt")],
                })
                .collect(),
        }
    } else {
        Tree { kept_aside: entries.iter().map(copy).collect(), children: Vec::new() }
    }
}

/// What the command `add` does with what it is given and what it finds.
fn add_with(
    scafalra: &mut Scafalra,
    args: &AddArgs,
    entries: &[DirEntry],
    config: &RepositoryConfig,
) -> Result<Vec<CopyJob>, ScafalraError> {
    let repo = Repository::parse(&args.repository)?;
    let remote = remote();
    let plan = scafalra.cache_template(&repo, &remote);
    assert_eq!(plan.destination, "/data/scafalra/cache/foo/bar");
    scafalra.add(args, &repo, &remote.url, &tree_of(args, entries), config, CREATED_AT)
}

fn add(scafalra: &mut Scafalra, args: &AddArgs, entries: &[DirEntry]) -> Result<String, ScafalraError> {
    let jobs = add_with(scafalra, args, entries, &no_rules())?;
    assert!(jobs.is_empty());
    let repo = Repository::parse(&args.repository)?;
    Ok(scafalra.template_dir(&repo, args))
}

#[test]
fn test_scafalra_new() {
    let scafalra = scafalra();

    assert_eq!(scafalra.path(), "/data/scafalra");
    assert_eq!(scafalra.cache_dir(), "/data/scafalra/cache");
    assert_eq!(scafalra.store().path(), "/data/scafalra/store.json");
    assert_eq!(scafalra.config().path(), "/data/scafalra/config.json");
    assert!(!scafalra.interactive_mode());
}

#[test]
fn token_of_the_arguments_comes_first() {
    let config = Config::new("d", ConfigContent { token: Some("kept".to_string()) });
    let scafalra = Scafalra::new("d", None, None, config, Store::new("d", Vec::new()));
    let repo = Repository::parse("foo/bar").unwrap();
    let request = scafalra.github_api().query_remote_repo(&repo, &add_args()).unwrap();
    assert_eq!(request.authorization, "bearer kept");
    assert_eq!(request.endpoint, "https://api.github.com/graphql");

    let config = Config::new("d", ConfigContent { token: Some("kept".to_string()) });
    let scafalra =
        Scafalra::new("d", Some("http://localhost"), Some("given"), config, Store::new("d", Vec::new()));
    let request = scafalra.github_api().query_remote_repo(&repo, &add_args()).unwrap();
    assert_eq!(request.authorization, "bearer given");
    assert_eq!(request.endpoint, "http://localhost");

    let config = Config::new("d", ConfigContent { token: None });
    let scafalra = Scafalra::new("d", None, None, config, Store::new("d", Vec::new()));
    assert!(matches!(
        scafalra.github_api().query_remote_repo(&repo, &add_args()),
        Err(ScafalraError::NoToken)
    ));
}

#[test]
fn token_is_set_or_shown() {
    let mut scafalra = scafalra();
    assert!(matches!(scafalra.token(TokenArgs { token: None }), TokenOutcome::Show(None)));
    assert!(matches!(
        scafalra.token(TokenArgs { token: Some("abc".to_string()) }),
        TokenOutcome::Save
    ));
    assert_eq!(scafalra.config().token(), Some("abc"));
    match scafalra.token(TokenArgs { token: None }) {
        TokenOutcome::Show(Some(token)) => assert_eq!(token, "abc"),
        other => panic!("{:?}", other),
    }
}

#[test]
fn archive_goes_through_fixed_places() {
    let scafalra = scafalra();
    let repo = Repository::parse("foo/bar/a/b?tag=v1").unwrap();
    let plan = scafalra.cache_template(&repo, &remote());
    assert_eq!(
        plan.download.url,
        "https://codeload.github.com/foo/bar/legacy.tar.gz/refs/heads/main"
    );
    assert_eq!(plan.download.file, "/data/scafalra/cache/t.tar.gz");
    assert_eq!(plan.extract_dir, "/data/scafalra/cache/t");
    assert_eq!(plan.destination, "/data/scafalra/cache/foo/bar");
}

#[test]
fn content_root_is_the_first_entry() {
    let entries = vec!["foo-bar-ea7c165".to_string(), "other".to_string()];
    assert_eq!(
        Scafalra::content_root("/data/scafalra/cache/t", &entries).unwrap(),
        "/data/scafalra/cache/t/foo-bar-ea7c165"
    );
    let error = Scafalra::content_root("/data/scafalra/cache/t", &Vec::new()).unwrap_err();
    assert!(matches!(error, ScafalraError::EmptyArchive));
    assert_eq!(error.message(), "Empty directory");
}

#[test]
fn test_scafalra_add_basic() {
    let mut scafalra = scafalra();

    let dir = add(&mut scafalra, &add_args(), &[]).unwrap();

    assert_eq!(dir, "/data/scafalra/cache/foo/bar");
    assert_eq!(names(&scafalra), vec!["bar"]);
    let template = scafalra.store().get("bar").unwrap();
    assert_eq!(template.name, "bar");
    assert_eq!(template.url, "https://github.com/foo/bar");
    assert_eq!(template.path, "/data/scafalra/cache/foo/bar");
    assert_eq!(template.created_at, CREATED_AT);
    assert_eq!(template.sub_templates.as_ref().unwrap().len(), 0);
    assert_eq!(template.is_sub_template, None);
    assert_eq!(scafalra.save().changes, vec!["+ bar"]);
}

#[test]
fn test_scafalra_add_specified_name() {
    let mut scafalra = scafalra();

    add(&mut scafalra, &AddArgs { name: Some("foo".to_string()), ..add_args() }, &[]).unwrap();

    assert_eq!(names(&scafalra), vec!["foo"]);
    assert_eq!(scafalra.store().get("foo").unwrap().path, "/data/scafalra/cache/foo/bar");
}

#[test]
fn test_scafalra_add_depth_1() {
    let mut scafalra = scafalra();

    let tree = [
        dir("node_modules"),
        dir(".git"),
        dir("c"),
        file("README.md"),
        dir("a"),
        dir(".scafalra"),
        dir("b"),
        file(".gitignore"),
    ];
    add(&mut scafalra, &AddArgs { depth: 1, ..add_args() }, &tree).unwrap();

    assert_eq!(names(&scafalra), vec!["a", "b", "c", "node_modules"]);
    for name in ["a", "b", "c", "node_modules"] {
        let template = scafalra.store().get(name).unwrap();
        assert_eq!(template.path, format!("/data/scafalra/cache/foo/bar/{}", name));
        assert_eq!(template.url, "https://github.com/foo/bar");
        assert_eq!(template.is_sub_template, Some(true));
        let kept = template.sub_templates.as_ref().unwrap();
        assert_eq!(kept.len(), 1);
        assert_eq!(kept[0].name, format!("{}-extra", name));
        assert_eq!(
            kept[0].path,
            format!("/data/scafalra/cache/foo/bar/{}/.scafalra/{}-extra", name, name)
        );
    }
    assert_eq!(scafalra.save().changes, vec!["+ node_modules", "+ c", "+ a", "+ b"]);
}

#[test]
fn test_scafalra_add_subdir() {
    let mut scafalra = scafalra();

    let dir =
        add(&mut scafalra, &AddArgs { subdir: Some("/a/a1".to_string()), ..add_args() }, &[])
            .unwrap();

    assert_eq!(dir, "/data/scafalra/cache/foo/bar/a/a1");
    assert_eq!(names(&scafalra), vec!["a1"]);
    assert_eq!(scafalra.store().get("a1").unwrap().path, "/data/scafalra/cache/foo/bar/a/a1");
}

#[test]
fn subdir_of_the_reference_names_the_template() {
    let mut scafalra = scafalra();

    let args = AddArgs {
        repository: "foo/bar/a/a1".to_string(),
        name: Some("ignored".to_string()),
        ..add_args()
    };
    let dir = add(&mut scafalra, &args, &[]).unwrap();

    assert_eq!(dir, "/data/scafalra/cache/foo/bar/a/a1");
    assert_eq!(names(&scafalra), vec!["a1"]);
    let template = scafalra.store().get("a1").unwrap();
    assert_eq!(template.path, "/data/scafalra/cache/foo/bar/a/a1");
    assert_eq!(template.url, "https://github.com/foo/bar");
}

#[test]
fn test_scafalra_add_subdir_and_depth_1() {
    let mut scafalra = scafalra();

    let tree = [dir("a1"), dir("a2"), dir("a3")];
    add(
        &mut scafalra,
        &AddArgs { subdir: Some("/a".to_string()), depth: 1, ..add_args() },
        &tree,
    )
    .unwrap();

    assert_eq!(names(&scafalra), vec!["a1", "a2", "a3"]);
    assert_eq!(scafalra.store().get("a1").unwrap().path, "/data/scafalra/cache/foo/bar/a/a1");
    assert_eq!(scafalra.store().get("a2").unwrap().path, "/data/scafalra/cache/foo/bar/a/a2");
    assert_eq!(scafalra.store().get("a3").unwrap().path, "/data/scafalra/cache/foo/bar/a/a3");
}

#[test]
fn add_finds_sub_templates() {
    let mut scafalra = scafalra();

    let tree = [dir("dir-1"), file("scafalra.json"), dir("dir-2")];
    add(&mut scafalra, &add_args(), &tree).unwrap();

    let template = scafalra.store().get("bar").unwrap();
    let found = template.sub_templates.as_ref().unwrap();
    assert_eq!(found.len(), 2);
    assert_eq!(found[0].name, "dir-1");
    assert_eq!(found[0].path, "/data/scafalra/cache/foo/bar/.scafalra/dir-1");
    assert_eq!(found[1].name, "dir-2");
    assert_eq!(found[1].path, "/data/scafalra/cache/foo/bar/.scafalra/dir-2");
}

#[test]
fn add_allows_depth_0_and_1_only() {
    let mut scafalra = scafalra();

    let error = add(&mut scafalra, &AddArgs { depth: 2, ..add_args() }, &[dir("a")]).unwrap_err();

    match error {
        ScafalraError::InvalidArguments(advice) => {
            assert_eq!(advice, "The argument `depth` allows only 0 or 1")
        },
        other => panic!("{:?}", other),
    }
    assert!(names(&scafalra).is_empty());
    assert!(scafalra.save().changes.is_empty());
}

#[test]
fn add_of_what_is_no_reference_fails() {
    let mut scafalra = scafalra();

    let error =
        add(&mut scafalra, &AddArgs { repository: "foo".to_string(), ..add_args() }, &[]).unwrap_err();

    assert!(matches!(error, ScafalraError::ParseError(_)));
    assert!(names(&scafalra).is_empty());
}

#[test]
fn copy_on_add_reaches_a_template_that_is_stored() {
    let config = RepositoryConfig {
        copy_on_add: vec![CopyRule { name: "b".to_string(), globs: vec!["shared/**".to_string()] }],
    };
    let depth_1 = AddArgs { depth: 1, ..add_args() };

    let mut scafalra = scafalra_with(vec![Template::new("b", "url", "/elsewhere/b", CREATED_AT, None)]);
    let jobs = add_with(&mut scafalra, &depth_1, &[dir("a"), dir("c")], &config).unwrap();
    assert_eq!(jobs.len(), 1);
    assert_eq!(jobs[0].from, "/data/scafalra/cache/foo/bar/.scafalra");
    assert_eq!(jobs[0].globs, vec!["shared/**"]);
    assert_eq!(jobs[0].to, "/elsewhere/b");
    assert_eq!(names(&scafalra), vec!["a", "b", "c"]);
    assert_eq!(scafalra.store().get("b").unwrap().path, "/elsewhere/b");

    let mut scafalra = scafalra_with(Vec::new());
    let jobs = add_with(&mut scafalra, &depth_1, &[dir("a"), dir("c")], &config).unwrap();
    assert!(jobs.is_empty());
    assert_eq!(names(&scafalra), vec!["a", "c"]);
}

#[test]
fn copy_on_add_goes_by_what_was_stored_before() {
    let config = RepositoryConfig {
        copy_on_add: vec![CopyRule { name: "b".to_string(), globs: vec!["shared/**".to_string()] }],
    };
    let depth_1 = AddArgs { depth: 1, ..add_args() };

    // the fetch itself brings a directory called b: it was not stored before
    let mut scafalra = scafalra_with(Vec::new());
    let jobs = add_with(&mut scafalra, &depth_1, &[dir("a"), dir("b")], &config).unwrap();
    assert!(jobs.is_empty());
    assert_eq!(names(&scafalra), vec!["a", "b"]);

    // a template called b was stored, and the fetch replaces it
    let mut scafalra = scafalra_with(vec![Template::new("b", "url", "/elsewhere/b", CREATED_AT, None)]);
    let jobs = add_with(&mut scafalra, &depth_1, &[dir("a"), dir("b")], &config).unwrap();
    assert_eq!(jobs.len(), 1);
    assert_eq!(jobs[0].to, "/elsewhere/b");
    assert_eq!(scafalra.store().get("b").unwrap().path, "/data/scafalra/cache/foo/bar/b");

    // with a depth of 0 nothing is copied
    let mut scafalra = scafalra_with(vec![Template::new("b", "url", "/elsewhere/b", CREATED_AT, None)]);
    let jobs = add_with(&mut scafalra, &add_args(), &[], &config).unwrap();
    assert!(jobs.is_empty());
}

#[test]
fn test_scafalra_create_ok() {
    let scafalra = with_content();

    let args = CreateArgs {
        name: Some("bar".to_string()),
        destination: Some("/tmp/work/bar".to_string()),
        sub_templates: Some(vec!["dir-1".to_string()]),
        with: None,
    };
    let name = match scafalra.create_name(&args).unwrap() {
        Choice::Given(name) => name,
        Choice::Ask => panic!(),
    };
    assert_eq!(name, "bar");
    let sub_templates = match scafalra.create_sub_templates(&args) {
        Some(Choice::Given(names)) => Some(names),
        _ => panic!(),
    };
    let plan = scafalra.create(&name, &args, "/home/user", &sub_templates).unwrap();

    assert_eq!(plan.source, "/data/scafalra/cache/foo/bar");
    assert_eq!(plan.destination, "/tmp/work/bar");
    assert_eq!(plan.reserved, "/tmp/work/bar/.scafalra");
    assert_eq!(plan.sub_templates.len(), 1);
    assert_eq!(plan.sub_templates[0].from, "/data/scafalra/cache/foo/bar/.scafalra/dir-1");
    assert_eq!(plan.sub_templates[0].to, "/tmp/work/bar/dir-1");
    assert!(plan.with.is_none());
}

#[test]
fn create_goes_to_the_current_directory_unless_told() {
    let scafalra = with_content();

    let args = CreateArgs { name: None, destination: None, sub_templates: None, with: None };
    let plan = scafalra.create("bar", &args, "/home/user", &None).unwrap();
    assert_eq!(plan.destination, "/home/user/bar");
    assert_eq!(plan.reserved, "/home/user/bar/.scafalra");
    assert!(plan.sub_templates.is_empty());

    let args = CreateArgs { destination: Some("./new/../project".to_string()), ..args };
    let plan = scafalra.create("bar", &args, "/home/user", &None).unwrap();
    assert_eq!(plan.destination, "/home/user/new/project");
}

#[test]
fn create_passes_over_sub_templates_that_are_not_there() {
    let scafalra = with_content();

    let args = CreateArgs { name: None, destination: None, sub_templates: None, with: None };
    let chosen = Some(vec!["dir-2".to_string(), "dir-3".to_string(), "dir-1".to_string()]);
    let plan = scafalra.create("bar", &args, "/w", &chosen).unwrap();
    assert_eq!(plan.sub_templates.len(), 2);
    assert_eq!(plan.sub_templates[0].from, "/data/scafalra/cache/foo/bar/.scafalra/dir-2");
    assert_eq!(plan.sub_templates[0].to, "/w/bar/dir-2");
    assert_eq!(plan.sub_templates[1].from, "/data/scafalra/cache/foo/bar/.scafalra/dir-1");
    assert_eq!(plan.sub_templates[1].to, "/w/bar/dir-1");
}

#[test]
fn create_brings_along_what_lies_beside_a_sub_template() {
    let mut scafalra = scafalra();
    add(&mut scafalra, &AddArgs { depth: 1, ..add_args() }, &[dir("a"), dir("b")]).unwrap();

    let args = CreateArgs {
        name: Some("b".to_string()),
        destination: None,
        sub_templates: None,
        with: Some("shared/**,,*.md".to_string()),
    };
    let plan = scafalra.create("b", &args, "/w", &None).unwrap();
    let job = plan.with.unwrap();
    assert_eq!(job.from, "/data/scafalra/cache/foo/bar");
    assert_eq!(job.globs, vec!["shared/**", "*.md"]);
    assert_eq!(job.to, "/w/b");

    let plan = scafalra.create("b", &CreateArgs { with: None, ..args }, "/w", &None).unwrap();
    assert!(plan.with.is_none());

    let whole = with_content();
    let args = CreateArgs {
        name: None,
        destination: None,
        sub_templates: None,
        with: Some("shared/**".to_string()),
    };
    assert!(whole.create("bar", &args, "/w", &None).unwrap().with.is_none());
}

#[test]
fn test_scafalra_create_bad_args() {
    let scafalra = scafalra();

    let ret = scafalra.create_name(&CreateArgs {
        name: None,
        destination: None,
        sub_templates: None,
        with: None,
    });

    assert!(ret.is_err());
    assert_eq!(
        ret.unwrap_err().message(),
        "Provide a name or opt for interactive mode with the `-i` argument"
    );
}

#[test]
fn test_scafalra_create_not_found() {
    let scafalra = scafalra();

    let args = CreateArgs {
        name: Some("bar".to_string()),
        destination: None,
        sub_templates: None,
        with: None,
    };
    let ret = scafalra.create("bar", &args, "/home/user", &None);

    assert!(ret.is_err());
    assert_eq!(ret.unwrap_err().message(), "No such template `bar`");
}

#[test]
fn create_suggests_a_similar_name() {
    let scafalra = with_content();

    let args = CreateArgs { name: None, destination: None, sub_templates: None, with: None };
    match scafalra.create("baz", &args, "/home/user", &None) {
        Err(ScafalraError::NoSuchTemplate(target, similar)) => {
            assert_eq!(target, "baz");
            assert_eq!(similar.as_deref(), Some("bar"));
        },
        other => panic!("{:?}", other),
    }
    assert_eq!(
        scafalra.create("baz", &args, "/home/user", &None).unwrap_err().message(),
        "No such template `baz`\nA similar template is `bar`"
    );
}

#[test]
fn test_scafalra_remove_bad_args() {
    let scafalra = scafalra();

    let ret = scafalra.remove_names(&RemoveArgs { names: None });

    assert!(ret.is_err());
    assert_eq!(
        ret.unwrap_err().message(),
        "Provide names or opt for interactive mode with the `-i` argument"
    );
}

#[test]
fn test_scafalra_rename_bad_args() {
    let scafalra = scafalra();

    let ret = scafalra.rename_names(&RenameArgs { name: None, new_name: None });

    assert!(ret.is_err());
    assert_eq!(
        ret.unwrap_err().message(),
        "Provide both the target and new names, or opt for interactive mode with the `-i` argument"
    );
    let ret = scafalra.rename_names(&RenameArgs { name: None, new_name: Some("b".to_string()) });
    assert_eq!(
        ret.unwrap_err().message(),
        "Provide both the target and new names, or opt for interactive mode with the `-i` argument"
    );
    let ret = scafalra.rename_names(&RenameArgs { name: Some("a".to_string()), new_name: None });
    assert_eq!(ret.unwrap_err().message(), "Please provide a new name");
}

#[test]
fn the_user_is_asked_in_interactive_mode() {
    let mut scafalra = with_content();
    scafalra.set_interactive_mode(true);
    assert!(scafalra.interactive_mode());

    let create = CreateArgs {
        name: Some("bar".to_string()),
        destination: None,
        sub_templates: Some(vec!["dir-1".to_string()]),
        with: None,
    };
    assert!(matches!(scafalra.create_name(&create), Ok(Choice::Ask)));
    assert!(matches!(scafalra.create_sub_templates(&create), Some(Choice::Ask)));
    let none = CreateArgs { name: None, destination: None, sub_templates: None, with: None };
    assert!(matches!(scafalra.create_name(&none), Ok(Choice::Ask)));
    assert!(matches!(scafalra.create_sub_templates(&none), Some(Choice::Ask)));
    assert!(matches!(
        scafalra.rename_names(&RenameArgs { name: None, new_name: None }),
        Ok(Choice::Ask)
    ));
    assert!(matches!(scafalra.remove_names(&RemoveArgs { names: None }), Ok(Choice::Ask)));

    scafalra.set_interactive_mode(false);
    assert!(scafalra.create_sub_templates(&none).is_none());
    match scafalra.rename_names(&RenameArgs {
        name: Some("a".to_string()),
        new_name: Some("b".to_string()),
    }) {
        Ok(Choice::Given((name, new_name))) => {
            assert_eq!(name, "a");
            assert_eq!(new_name, "b");
        },
        other => panic!("{:?}", other),
    }
    match scafalra.remove_names(&RemoveArgs { names: Some(vec!["x".to_string()]) }) {
        Ok(Choice::Given(names)) => assert_eq!(names, vec!["x"]),
        other => panic!("{:?}", other),
    }
}

#[test]
fn rename_and_remove_change_the_store() {
    let mut scafalra = with_content();

    assert!(matches!(scafalra.rename("bar", "baz"), Renamed::Done));
    assert_eq!(names(&scafalra), vec!["baz"]);
    assert!(matches!(scafalra.rename("bar", "qux"), Renamed::NotFound(_)));
    assert!(matches!(scafalra.rename("qux", "baz"), Renamed::AlreadyExists));

    let doomed = vec!["nothing".to_string(), "baz".to_string(), "baz".to_string()];
    assert_eq!(scafalra.remove_dirs(&doomed), vec!["/data/scafalra/cache/foo/bar"]);
    assert_eq!(names(&scafalra), vec!["baz"]);
    assert!(scafalra.save().changes.len() == 2);
    assert!(scafalra.remove_dirs(&Vec::new()).is_empty());

    let removed = scafalra.remove(&doomed);
    assert_eq!(removed.len(), 1);
    assert_eq!(removed[0].path, "/data/scafalra/cache/foo/bar");
    assert!(names(&scafalra).is_empty());
    assert_eq!(scafalra.save().changes, vec!["- bar", "+ baz", "- baz"]);
}

#[test]
fn list_shows_names_or_templates_in_order() {
    assert!(scafalra().list(&ListArgs { table: false }).is_none());
    assert!(scafalra().list(&ListArgs { table: true }).is_none());

    let mut scafalra = with_content();
    add(&mut scafalra, &AddArgs { depth: 1, ..add_args() }, &[dir("c"), dir("a")]).unwrap();
    match scafalra.list(&ListArgs { table: false }) {
        Some(Listing::Grid(names)) => assert_eq!(names, vec!["a", "bar", "c"]),
        other => panic!("{:?}", other),
    }
    match scafalra.list(&ListArgs { table: true }) {
        Some(Listing::Table(templates)) => {
            let paths: Vec<&str> = templates.iter().map(|t| t.path.as_str()).collect();
            assert_eq!(
                paths,
                vec![
                    "/data/scafalra/cache/foo/bar/a",
                    "/data/scafalra/cache/foo/bar",
                    "/data/scafalra/cache/foo/bar/c"
                ]
            );
        },
        other => panic!("{:?}", other),
    }
}
