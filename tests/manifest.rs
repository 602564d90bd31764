use crate_update::{
    dependencies_of, dependency_from_value, find_entry, join_strings, parse_cargo, ConfigValue,
    Crate, ManifestError,
};

fn s(text: &str) -> String {
    text.to_string()
}

fn names(list: &[Crate]) -> Vec<&str> {
    list.iter().map(|c| c.name.as_str()).collect()
}

#[test]
fn manifest_without_dependencies_is_refused() {
    let text = "[package]\nname = \"demo\"\nversion = \"0.1.0\"\n";
    assert!(matches!(parse_cargo(text), Err(ManifestError::NoDependencies)));
}

#[test]
fn dependencies_that_are_not_a_table_are_refused() {
    let text = "dependencies = \"serde\"\n";
    assert!(matches!(parse_cargo(text), Err(ManifestError::NoDependencies)));
}

#[test]
fn empty_manifest_is_refused() {
    assert!(matches!(parse_cargo(""), Err(ManifestError::NoDependencies)));
}

#[test]
fn text_that_is_not_toml_is_unparseable() {
    match parse_cargo("[dependencies\nserde = ") {
        Err(ManifestError::Unparseable(message)) => assert!(!message.is_empty()),
        other => panic!("unexpected {:?}", other),
    }
}

#[test]
fn bare_string_entry_is_the_version() {
    let list = parse_cargo("[dependencies]\nserde = \"1.0.188\"\n").unwrap();
    assert_eq!(list.len(), 1);
    assert_eq!(list[0].name, "serde");
    assert_eq!(list[0].version, "1.0.188");
    assert_eq!(list[0].features, "");
}

#[test]
fn table_entry_keeps_version_and_feature_order() {
    let text = "[dependencies]\ntokio = { version = \"1.0\", features = [\"rt\", \"macros\"] }\n";
    let list = parse_cargo(text).unwrap();
    assert_eq!(list.len(), 1);
    assert_eq!(list[0].name, "tokio");
    assert_eq!(list[0].version, "1.0");
    assert_eq!(list[0].features, "rt,macros");
}

#[test]
fn table_entry_without_features() {
    let list = parse_cargo("[dependencies.anyhow]\nversion = \"1\"\n").unwrap();
    assert_eq!(list[0].version, "1");
    assert_eq!(list[0].features, "");
}

#[test]
fn table_entry_without_version() {
    let text = "[dependencies]\nlocal = { path = \"../local\", features = [\"a\"] }\n";
    let list = parse_cargo(text).unwrap();
    assert_eq!(list[0].version, "");
    assert_eq!(list[0].features, "a");
}

#[test]
fn other_value_shapes_declare_nothing() {
    let text = "[dependencies]\nodd = 3\nflag = true\n";
    let list = parse_cargo(text).unwrap();
    assert_eq!(names(&list), vec!["flag", "odd"]);
    for c in &list {
        assert_eq!(c.version, "");
        assert_eq!(c.features, "");
    }
}

#[test]
fn features_that_are_not_strings_are_skipped() {
    let text = "[dependencies]\nx = { version = \"2\", features = [\"a\", 5, \"b\"] }\n";
    let list = parse_cargo(text).unwrap();
    assert_eq!(list[0].features, "a,b");
}

#[test]
fn features_that_are_not_an_array_are_ignored() {
    let text = "[dependencies]\nx = { version = \"2\", features = \"a\" }\n";
    let list = parse_cargo(text).unwrap();
    assert_eq!(list[0].version, "2");
    assert_eq!(list[0].features, "");
}

#[test]
fn every_entry_is_read_once() {
    let text = "[package]\nname = \"p\"\n\n[dependencies]\nserde = \"1\"\nanyhow = \"1.0\"\nclap = { version = \"4\" }\n\n[dev-dependencies]\nrand = \"0.8\"\n";
    let list = parse_cargo(text).unwrap();
    assert_eq!(list.len(), 3);
    let mut found = names(&list);
    found.sort();
    assert_eq!(found, vec!["anyhow", "clap", "serde"]);
}

#[test]
fn dependencies_of_a_built_document() {
    let deps = ConfigValue::Table(vec![
        (s("serde"), ConfigValue::Str(s("1.0.188"))),
        (
            s("tokio"),
            ConfigValue::Table(vec![
                (s("features"), ConfigValue::Array(vec![ConfigValue::Str(s("rt")), ConfigValue::Str(s("macros"))])),
                (s("version"), ConfigValue::Str(s("1.0"))),
            ]),
        ),
    ]);
    let doc = vec![(s("package"), ConfigValue::Other), (s("dependencies"), deps)];
    let list = dependencies_of(&doc).unwrap();
    assert_eq!(names(&list), vec!["serde", "tokio"]);
    assert_eq!(list[0].version, "1.0.188");
    assert_eq!(list[1].version, "1.0");
    assert_eq!(list[1].features, "rt,macros");
}

#[test]
fn dependencies_of_a_document_without_them() {
    let doc = vec![(s("package"), ConfigValue::Table(vec![]))];
    assert!(matches!(dependencies_of(&doc), Err(ManifestError::NoDependencies)));
    let doc = vec![(s("dependencies"), ConfigValue::Array(vec![]))];
    assert!(matches!(dependencies_of(&doc), Err(ManifestError::NoDependencies)));
}

#[test]
fn entry_of_another_shape() {
    let c = dependency_from_value(s("odd"), &ConfigValue::Other);
    assert_eq!(c.name, "odd");
    assert_eq!(c.version, "");
    assert_eq!(c.features, "");
    let c = dependency_from_value(s("arr"), &ConfigValue::Array(vec![ConfigValue::Str(s("1"))]));
    assert_eq!(c.version, "");
}

#[test]
fn first_entry_of_a_key_is_found() {
    let entries = vec![
        (s("a"), ConfigValue::Str(s("one"))),
        (s("b"), ConfigValue::Str(s("two"))),
        (s("b"), ConfigValue::Str(s("three"))),
    ];
    assert!(matches!(find_entry(&entries, &s("b")), Some(ConfigValue::Str(v)) if v == "two"));
    assert!(find_entry(&entries, &s("c")).is_none());
}

#[test]
fn strings_are_joined_by_commas() {
    assert_eq!(join_strings(&vec![]), "");
    assert_eq!(join_strings(&vec![ConfigValue::Str(s("only"))]), "only");
    let items = vec![ConfigValue::Other, ConfigValue::Str(s("x")), ConfigValue::Str(s("")), ConfigValue::Str(s("y"))];
    assert_eq!(join_strings(&items), "x,,y");
}

#[test]
fn new_by_name_is_empty_but_for_the_name() {
    let c = Crate::new_by_name(s("tokio"));
    assert_eq!(c.name, "tokio");
    assert_eq!(c.version, "");
    assert_eq!(c.features, "");
}
