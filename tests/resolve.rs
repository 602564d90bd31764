use crate_update::{parse_cargo, resolved_update, select_updates, Crate};

fn dep(name: &str, version: &str, features: &str) -> Crate {
    Crate { name: name.to_string(), version: version.to_string(), features: features.to_string() }
}

fn found(v: &str) -> Option<String> {
    Some(v.to_string())
}

#[test]
fn same_version_gives_no_update() {
    let list = parse_cargo("[dependencies]\nserde = \"1.0.188\"\n").unwrap();
    let results: Vec<(Crate, Option<String>)> = list.into_iter().map(|c| (c, found("1.0.188"))).collect();
    assert!(select_updates(&results).is_empty());
}

#[test]
fn newer_version_gives_an_update() {
    let list = parse_cargo("[dependencies]\nserde = \"1.0.188\"\n").unwrap();
    let results: Vec<(Crate, Option<String>)> = list.into_iter().map(|c| (c, found("1.0.190"))).collect();
    let updates = select_updates(&results);
    assert_eq!(updates.len(), 1);
    assert_eq!(updates[0].name, "serde");
    assert_eq!(updates[0].version, "1.0.190");
    assert_eq!(updates[0].features, "");
}

#[test]
fn update_keeps_features_in_order() {
    let text = "[dependencies]\ntokio = { version = \"1.0\", features = [\"rt\", \"macros\"] }\n";
    let list = parse_cargo(text).unwrap();
    let results: Vec<(Crate, Option<String>)> = list.into_iter().map(|c| (c, found("1.32.0"))).collect();
    let updates = select_updates(&results);
    assert_eq!(updates.len(), 1);
    assert_eq!(updates[0].name, "tokio");
    assert_eq!(updates[0].version, "1.32.0");
    assert_eq!(updates[0].features, "rt,macros");
}

#[test]
fn each_changed_dependency_appears_once() {
    let results = vec![
        (dep("a", "1", ""), found("2")),
        (dep("b", "1", "x"), found("1")),
        (dep("c", "", ""), found("0.3.0")),
    ];
    let updates = select_updates(&results);
    let names: Vec<&str> = updates.iter().map(|c| c.name.as_str()).collect();
    assert_eq!(names, vec!["a", "c"]);
    assert_eq!(updates[0].version, "2");
    assert_eq!(updates[1].version, "0.3.0");
}

#[test]
fn failed_lookup_leaves_others_alone() {
    let with_failure = vec![
        (dep("a", "1", ""), None),
        (dep("b", "1", "f,g"), found("3")),
        (dep("c", "2", ""), found("2")),
    ];
    let without = vec![(dep("b", "1", "f,g"), found("3")), (dep("c", "2", ""), found("2"))];
    let u1 = select_updates(&with_failure);
    let u2 = select_updates(&without);
    assert_eq!(u1.len(), 1);
    assert_eq!(u2.len(), 1);
    assert_eq!(u1[0].name, "b");
    assert_eq!(u1[0].version, "3");
    assert_eq!(u1[0].features, "f,g");
    assert_eq!(u2[0].name, u1[0].name);
}

#[test]
fn no_lookups_no_updates() {
    assert!(select_updates(&vec![]).is_empty());
}

#[test]
fn version_strings_are_compared_exactly() {
    let u = resolved_update(&dep("x", "1.0", ""), &found("1.0.0")).unwrap();
    assert_eq!(u.version, "1.0.0");
    assert!(resolved_update(&dep("x", "1.0", ""), &found("1.0")).is_none());
    assert!(resolved_update(&dep("x", "1.0", ""), &None).is_none());
}
