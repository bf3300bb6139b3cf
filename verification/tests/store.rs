use scafalra::store::{Changes, Renamed, Store};
use scafalra::template::Template;

fn template(name: &str) -> Template {
    Template::new(name, "url", "path", "2023-05-19 00:00:00", Some(Vec::new()))
}

fn template_at(name: &str, path: &str) -> Template {
    Template::new(name, "url", path, "2023-05-19 00:00:00", Some(Vec::new()))
}

fn with_no_content() -> Store {
    Store::new("/tmp/scafalra", Vec::new())
}

fn with_default_content() -> Store {
    Store::new("/tmp/scafalra", vec![template_at("foo", "/tmp/scafalra/foo")])
}

fn names(store: &Store) -> Vec<String> {
    store.all_templates_name().into_iter().cloned().collect()
}

#[test]
fn test_store_new_file_not_exists() {
    let store = with_no_content();

    assert_eq!(store.len(), 0);
    assert_eq!(store.save().changes.len(), 0);
}

#[test]
fn test_store_new() {
    let store = with_default_content();

    assert_eq!(store.len(), 1);
    assert!(store.get("foo").is_some());
    assert_eq!(store.path(), "/tmp/scafalra/store.json");
}

#[test]
fn test_store_add() {
    let mut store = with_no_content();

    store.add(template("foo"));

    assert_eq!(store.len(), 1);
    assert!(store.get("foo").is_some());
    assert_eq!(store.save().changes, vec!["+ foo"]);
}

#[test]
fn test_store_add_same() {
    let mut store = with_default_content();

    store.add(template("foo"));

    assert_eq!(store.len(), 1);
    assert!(store.get("foo").is_some());
    assert_eq!(store.save().changes, vec!["- foo", "+ foo"]);
}

#[test]
fn test_store_remove() {
    let mut store = with_default_content();

    let removed = store.remove("foo");

    assert_eq!(removed.unwrap().path, "/tmp/scafalra/foo");
    assert_eq!(store.len(), 0);
    assert_eq!(store.save().changes, vec!["- foo"]);
}

#[test]
fn test_store_remove_not_found() {
    let mut store = with_default_content();

    let removed = store.remove("bar");

    assert!(removed.is_none());
    assert_eq!(store.len(), 1);
    assert_eq!(store.save().changes.len(), 0);
}

#[test]
fn test_store_rename() {
    let mut store = with_default_content();

    let outcome = store.rename("foo", "bar");

    assert!(matches!(outcome, Renamed::Done));
    assert_eq!(store.len(), 1);
    assert!(store.get("foo").is_none());
    assert!(store.get("bar").is_some());
    assert_eq!(store.save().changes, vec!["- foo", "+ bar"]);
}

#[test]
fn test_store_bad_rename_exists() {
    let mut store = with_default_content();

    let outcome = store.rename("foo", "foo");

    assert!(matches!(outcome, Renamed::AlreadyExists));
    assert_eq!(store.len(), 1);
    assert!(store.get("foo").is_some());
    assert_eq!(store.save().changes.len(), 0);
}

#[test]
fn test_store_bad_rename_not_found() {
    let mut store = with_default_content();

    let outcome = store.rename("bar", "foo");

    assert!(matches!(outcome, Renamed::AlreadyExists));
    assert_eq!(store.len(), 1);
    assert!(store.get("foo").is_some());

    let outcome = store.rename("fop", "baz");
    match outcome {
        Renamed::NotFound(suggestion) => {
            assert_eq!(suggestion.target, "fop");
            assert_eq!(suggestion.similar.as_deref(), Some("foo"));
            assert_eq!(suggestion.message(), "No such template `fop`\nA similar template is `foo`");
        },
        other => panic!("{:?}", other),
    }
    assert_eq!(names(&store), vec!["foo"]);
    assert_eq!(store.save().changes.len(), 0);
}

#[test]
fn test_store_similar_name() {
    let store = with_default_content();

    assert_eq!(store.similar_name_suggestion("fop").similar.as_deref(), Some("foo"));
}

#[test]
fn similar_name_needs_more_than_half() {
    let store = with_default_content();

    assert_eq!(store.get_similar_name("fop").as_deref(), Some("foo"));
    // two of four characters differ: the resemblance is one half, not more
    assert_eq!(Store::new("d", vec![template("abcd")]).get_similar_name("abxy"), None);
    assert_eq!(store.get_similar_name("xyz"), None);
    assert_eq!(store.get_similar_name(""), None);
    assert_eq!(with_no_content().get_similar_name("foo"), None);
    let suggestion = store.similar_name_suggestion("xyz");
    assert_eq!(suggestion.target, "xyz");
    assert_eq!(suggestion.similar, None);
    assert_eq!(suggestion.message(), "No such template `xyz`");
}

#[test]
fn similar_name_is_the_closest_and_of_equals_the_last() {
    let store = Store::new("d", vec![template("foo"), template("fooo"), template("fob")]);
    // "fop": "fob" and "foo" are one edit of three away, "fooo" two of four
    assert_eq!(store.get_similar_name("fop").as_deref(), Some("foo"));
    // "fooa" is one edit of four from "fooo", and one of four from "foo"
    assert_eq!(store.get_similar_name("fooa").as_deref(), Some("fooo"));
    assert_eq!(store.get_similar_name("foo").as_deref(), Some("foo"));
}

#[test]
fn empty_name_resembles_the_empty_name_fully() {
    let store = Store::new("d", vec![template(""), template("a")]);
    assert_eq!(store.get_similar_name("").as_deref(), Some(""));
}

#[test]
fn add_then_get_returns_what_was_added() {
    let mut store = with_default_content();
    store.add(Template::new("bar", "first-url", "first-path", "first-time", None));
    let found = store.get("bar").unwrap();
    assert_eq!(found.name, "bar");
    assert_eq!(found.url, "first-url");
    assert_eq!(found.path, "first-path");
    assert_eq!(found.created_at, "first-time");
    assert!(found.sub_templates.is_none());
    assert_eq!(found.is_sub_template, None);

    store.add(Template::new("bar", "second-url", "second-path", "second-time", Some(Vec::new())));
    let found = store.get("bar").unwrap();
    assert_eq!(found.url, "second-url");
    assert_eq!(found.path, "second-path");
    assert_eq!(found.created_at, "second-time");
    assert!(found.sub_templates.is_some());
    assert_eq!(store.len(), 2);
    assert_eq!(store.save().changes, vec!["+ bar", "- bar", "+ bar"]);
}

#[test]
fn names_come_in_ascending_order() {
    let mut store = with_no_content();
    for name in ["b", "a", "ab", "B", "", "é", "z", "a"] {
        store.add(template(name));
    }
    assert_eq!(names(&store), vec!["", "B", "a", "ab", "b", "z", "é"]);
    let saved: Vec<String> = store.save().templates.into_iter().map(|t| t.name).collect();
    assert_eq!(saved, vec!["", "B", "a", "ab", "b", "z", "é"]);
}

#[test]
fn save_then_load_gives_the_same_templates() {
    let mut store = with_no_content();
    store.add(template_at("foo", "/x/foo"));
    store.add(template_at("bar", "/x/bar"));
    store.add(template_at("baz", "/x/baz"));
    store.remove("bar");
    store.rename("baz", "qux");

    let snapshot = store.save();
    assert_eq!(snapshot.changes, vec!["+ foo", "+ bar", "+ baz", "- bar", "- baz", "+ qux"]);
    let loaded = Store::new("/tmp/scafalra", snapshot.templates);

    assert_eq!(names(&loaded), names(&store));
    assert_eq!(names(&loaded), vec!["foo", "qux"]);
    for name in names(&store) {
        let before = store.get(&name).unwrap();
        let after = loaded.get(&name).unwrap();
        assert_eq!(before.name, after.name);
        assert_eq!(before.url, after.url);
        assert_eq!(before.path, after.path);
        assert_eq!(before.created_at, after.created_at);
    }
    assert_eq!(loaded.save().changes.len(), 0);
    assert_eq!(loaded.path(), store.path());
}

#[test]
fn rename_keeps_all_but_the_name() {
    let mut store = with_no_content();
    store.add(Template::new("foo", "u", "/p/foo", "t", None));
    assert!(matches!(store.rename("foo", "bar"), Renamed::Done));
    let found = store.get("bar").unwrap();
    assert_eq!(found.name, "bar");
    assert_eq!(found.url, "u");
    assert_eq!(found.path, "/p/foo");
    assert_eq!(found.created_at, "t");
}

#[test]
fn loading_keeps_the_later_of_two_with_one_name() {
    let store = Store::new("d", vec![template_at("a", "first"), template_at("a", "second")]);
    assert_eq!(store.len(), 1);
    assert_eq!(store.get("a").unwrap().path, "second");
    assert_eq!(store.save().changes.len(), 0);
}

#[test]
fn add_all_and_remove_all() {
    let mut store = with_default_content();
    store.add_all(vec![template("a"), template("foo"), template("a")]);
    assert_eq!(names(&store), vec!["a", "foo"]);
    assert_eq!(store.save().changes, vec!["+ a", "- foo", "+ foo", "- a", "+ a"]);

    let removed = store.remove_all(&vec!["foo".to_string(), "x".to_string(), "foo".to_string()]);
    assert_eq!(removed.len(), 1);
    assert_eq!(removed[0].name, "foo");
    assert_eq!(names(&store), vec!["a"]);
    assert_eq!(
        store.save().changes,
        vec!["+ a", "- foo", "+ foo", "- a", "+ a", "- foo"]
    );
}

#[test]
fn changes_are_kept_in_order() {
    let mut changes = Changes::new();
    assert!(changes.lines().is_empty());
    changes.push_add("foo");
    changes.push_remove("bar");
    changes.push_add("");
    assert_eq!(changes.lines(), vec!["+ foo", "- bar", "+ "]);
}

#[test]
fn store_file_lies_in_the_directory() {
    assert_eq!(Store::FILE_NAME, "store.json");
    assert_eq!(Store::new("", Vec::new()).path(), "store.json");
    assert_eq!(Store::new("dir/", Vec::new()).path(), "dir/store.json");
    assert_eq!(Store::new("dir", Vec::new()).path(), "dir/store.json");
}
