use kaze::config::{Candidate, ConfigFileBuilder, MyConfig};
use kaze::config_value::{build, merge, ConfValue};
use kaze::documented_toml::Wrap;

fn to_conf(v: toml::Value) -> ConfValue {
    match v {
        toml::Value::Table(t) => ConfValue::Table(t.into_iter().map(|(k, v)| (k, to_conf(v))).collect()),
        other => ConfValue::Value(other),
    }
}

fn from_conf(v: ConfValue) -> toml::Value {
    match v {
        ConfValue::Table(es) => toml::Value::Table(es.into_iter().map(|(k, v)| (k, from_conf(v))).collect()),
        ConfValue::Value(x) => x,
    }
}

/// The merged configuration of documents with the given texts.
fn build_texts(texts: &[&str]) -> toml::Value {
    let docs = texts.iter().map(|t| to_conf(toml::from_str::<toml::Value>(t).unwrap())).collect();
    from_conf(build(docs))
}

fn table(items: &[(&str, &str)]) -> toml::Value {
    let mut t = toml::Table::new();
    for (k, v) in items {
        t.insert(k.to_string(), toml::Value::String(v.to_string()));
    }
    toml::Value::Table(t)
}

fn strs(v: &Vec<String>) -> Vec<&str> {
    v.iter().map(|s| s.as_str()).collect()
}

#[test]
fn builder_starts_empty() {
    let b = ConfigFileBuilder::new();
    assert!(b.names().is_empty() && b.paths().is_empty() && b.files().is_empty());
}

#[test]
fn names_move_to_the_end() {
    let b = ConfigFileBuilder::new()
        .add_name("kaze".to_string())
        .add_name("app".to_string())
        .add_name("kaze".to_string());
    assert_eq!(strs(b.names()), vec!["app", "kaze"]);
}

#[test]
fn paths_need_to_be_directories() {
    let b = ConfigFileBuilder::new()
        .add_path("/etc".to_string(), true)
        .add_path("/missing".to_string(), false)
        .add_path("/home".to_string(), true)
        .add_path("/etc".to_string(), false);
    assert_eq!(strs(b.paths()), vec!["/home", "/etc"]);
}

#[test]
fn test_empty_builder() {
    let b = ConfigFileBuilder::new();
    assert!(b.names().is_empty());
    assert!(b.paths().is_empty());
    assert!(b.files().is_empty());
    assert!(b.candidate_files().is_empty());
    assert_eq!(build_texts(&[]), toml::Value::Table(toml::Table::new()));
}

#[test]
fn test_add_file_nonexistent() {
    let file = "/nonexistent/file.toml".to_string();
    let is_file = std::path::Path::new(&file).is_file();
    let b = ConfigFileBuilder::new().add_file(file, is_file);
    assert!(b.files().is_empty());
    assert!(b.names().is_empty() && b.paths().is_empty());
    assert!(b.candidate_files().is_empty());
    assert_eq!(build_texts(&[]), toml::Value::Table(toml::Table::new()));
}

#[test]
fn test_add_file_empty_path() {
    let b = ConfigFileBuilder::new().add_file(String::new(), true);
    assert!(b.files().is_empty());
    assert!(b.names().is_empty() && b.paths().is_empty());
    assert!(b.candidate_files().is_empty());
}

#[test]
fn test_add_file_with_content() {
    let b = ConfigFileBuilder::new().add_file("/tmp/config.toml".to_string(), true);
    assert_eq!(b.candidate_files(), vec![Candidate::File("/tmp/config.toml".to_string())]);
    assert_eq!(build_texts(&["key = \"value\"\n"]), table(&[("key", "value")]));
}

#[test]
fn test_add_path_with_config_file() {
    let b = ConfigFileBuilder::new().add_path("/tmp".to_string(), true).add_name("test".to_string());
    assert_eq!(
        b.candidate_files(),
        vec![Candidate::InDir { dir: "/tmp".to_string(), file: "test.toml".to_string() }]
    );
    assert_eq!(build_texts(&["path_key = \"path_value\"\n"]), table(&[("path_key", "path_value")]));
}

#[test]
fn test_config_merge() {
    let b = ConfigFileBuilder::new()
        .add_file("/tmp/config1.toml".to_string(), true)
        .add_file("/tmp/config2.toml".to_string(), true);
    assert_eq!(
        b.candidate_files(),
        vec![
            Candidate::File("/tmp/config1.toml".to_string()),
            Candidate::File("/tmp/config2.toml".to_string()),
        ]
    );
    let result = build_texts(&["key1 = \"value1\"\nshared = \"first\"\n", "key2 = \"value2\"\nshared = \"second\"\n"]);
    assert_eq!(result, table(&[("key1", "value1"), ("key2", "value2"), ("shared", "second")]));
}

#[test]
fn candidates_go_directory_by_directory() {
    let b = ConfigFileBuilder::new()
        .add_path("/a".to_string(), true)
        .add_path("/b".to_string(), true)
        .add_name("x".to_string())
        .add_name("y".to_string())
        .add_file("/c/z.toml".to_string(), true);
    let dir = |d: &str, f: &str| Candidate::InDir { dir: d.to_string(), file: f.to_string() };
    assert_eq!(
        b.candidate_files(),
        vec![
            dir("/a", "x.toml"),
            dir("/a", "y.toml"),
            dir("/b", "x.toml"),
            dir("/b", "y.toml"),
            Candidate::File("/c/z.toml".to_string()),
        ]
    );
}

#[test]
fn nested_tables_merge_and_values_replace() {
    let result = build_texts(&[
        "top = 1\n[server]\nhost = \"a\"\nport = 80\nlist = [1, 2]\n",
        "[server]\nport = 8080\nlist = [3]\n",
        "top = { inner = true }\n",
    ]);
    let expected: toml::Value =
        toml::from_str("[top]\ninner = true\n[server]\nhost = \"a\"\nport = 8080\nlist = [3]\n").unwrap();
    assert_eq!(result, expected);
    let plain = to_conf(toml::Value::Integer(1));
    let t = to_conf(toml::from_str::<toml::Value>("a = 1").unwrap());
    assert_eq!(from_conf(merge(t, plain)), toml::Value::Integer(1));
}

#[test]
fn files_move_to_the_end() {
    let b = ConfigFileBuilder::new()
        .add_file("a.toml".to_string(), true)
        .add_file("b.toml".to_string(), true)
        .add_file("a.toml".to_string(), true);
    assert_eq!(strs(b.files()), vec!["b.toml", "a.toml"]);
}

#[test]
fn plain_config_values() {
    let c = MyConfig { name: "me".to_string() };
    assert_eq!(c.name, "me");
    let w = Wrap(3);
    assert_eq!(w.0, 3);
}
