use knitwit::errors::KnitError;
use knitwit::keys::PackageKey;
use knitwit::naming::{output_paths, stem_of};
use knitwit::pipeline::{knit_documents, knitwit, qualified_name, target_wit_source, WitDocument};

fn doc(path: &str, text: &str) -> WitDocument {
    WitDocument { path: path.to_string(), text: text.to_string() }
}

fn key(ns: &str, name: &str, version: Option<&str>) -> PackageKey {
    PackageKey {
        namespace: ns.to_string(),
        name: name.to_string(),
        version: version.map(|v| v.to_string()),
    }
}

fn two_docs() -> Vec<WitDocument> {
    vec![
        doc("a.wit", "package a:foo;\n\nworld w-a {\n  import f: func();\n}\n"),
        doc("b.wit", "package b:bar;\n\nworld w-b {\n}\n"),
    ]
}

#[test]
fn merges_two_documents_into_three_outputs() {
    let units = knit_documents(
        two_docs(),
        vec!["w-a".to_string(), "w-b".to_string()],
        None,
        None,
        None,
    )
    .unwrap();
    assert_eq!(units.len(), 3);
    assert_eq!(units[0].path, "combined-wit/combined-wit.wit");
    assert_eq!(units[1].path, "combined-wit/deps/foo.wit");
    assert_eq!(units[2].path, "combined-wit/deps/bar.wit");
}

#[test]
fn unioned_world_carries_imports() {
    let units = knit_documents(two_docs(), vec!["w-a".to_string()], None, None, None).unwrap();
    assert!(units[0].text.contains("world combined"));
    assert!(units[0].text.contains("import f"));
    assert!(units[1].text.contains("package a:foo"));
    assert!(units[1].text.contains("world w-a"));
}

#[test]
fn rendered_text_is_not_the_input_text() {
    let units = knit_documents(two_docs(), vec!["w-b".to_string()], None, None, None).unwrap();
    for unit in &units {
        assert!(!unit.text.is_empty());
        for d in two_docs() {
            assert_ne!(unit.text, d.text);
        }
    }
}

#[test]
fn naming_runs_are_identical() {
    let worlds = vec!["w-a".to_string()];
    let first = knit_documents(two_docs(), worlds.clone(), None, None, None).unwrap();
    let second = knit_documents(two_docs(), worlds, None, None, None).unwrap();
    assert_eq!(first.len(), second.len());
    for (a, b) in first.iter().zip(second.iter()) {
        assert_eq!(a.path, b.path);
        assert_eq!(a.text, b.text);
    }
    let keys = vec![key("a", "foo", None), key("b", "bar", Some("1.0.0"))];
    assert_eq!(output_paths(&keys, "out", 0), output_paths(&keys, "out", 0));
}

#[test]
fn all_output_paths_differ() {
    let docs = vec![
        doc("a.wit", "package a:foo;\n\nworld w-a {\n}\n"),
        doc("b.wit", "package b:foo;\n\nworld w-b {\n}\n"),
        doc("c.wit", "package a:foo@1.0.0;\n\nworld w-c {\n}\n"),
        doc("d.wit", "package a:foo@2.0.0;\n\nworld w-d {\n}\n"),
    ];
    let units =
        knit_documents(docs, vec!["w-a".to_string(), "w-d".to_string()], None, None, None)
            .unwrap();
    assert_eq!(units.len(), 5);
    for i in 0..units.len() {
        for j in 0..units.len() {
            if i != j {
                assert_ne!(units[i].path, units[j].path);
            }
        }
    }
}

#[test]
fn namespace_disambiguates_colliding_names() {
    let keys = vec![key("a", "foo", None), key("b", "foo", None)];
    assert_eq!(stem_of(&keys, 0), "a:foo");
    assert_eq!(stem_of(&keys, 1), "b:foo");
}

#[test]
fn shared_namespace_falls_back_to_fully_qualified_stems() {
    let keys = vec![
        key("a", "foo", Some("1.0.0")),
        key("a", "foo", Some("2.0.0")),
        key("b", "foo", None),
    ];
    assert_eq!(stem_of(&keys, 0), "a:foo@1.0.0");
    assert_eq!(stem_of(&keys, 1), "a:foo@2.0.0");
    assert_eq!(stem_of(&keys, 2), "b:foo");
}

#[test]
fn globally_unique_name_stays_bare() {
    let keys = vec![key("a", "solo", Some("3.1.4")), key("b", "other", None)];
    assert_eq!(stem_of(&keys, 0), "solo");
    assert_eq!(stem_of(&keys, 1), "other");
}

#[test]
fn main_package_is_not_under_deps() {
    let units = knit_documents(two_docs(), vec!["w-a".to_string()], None, None, None).unwrap();
    assert!(!units[0].path.contains("deps/"));
    for unit in &units[1..] {
        assert!(unit.path.contains("/deps/"));
    }
}

#[test]
fn output_dir_option_is_respected() {
    let units = knit_documents(
        two_docs(),
        vec!["w-a".to_string()],
        None,
        None,
        Some("elsewhere".to_string()),
    )
    .unwrap();
    assert_eq!(units[0].path, "elsewhere/combined-wit.wit");
    assert_eq!(units[1].path, "elsewhere/deps/foo.wit");
}

#[test]
fn output_world_and_package_options_are_respected() {
    let units = knit_documents(
        two_docs(),
        vec!["w-a".to_string()],
        Some("woven".to_string()),
        Some("custom:target".to_string()),
        None,
    )
    .unwrap();
    assert_eq!(units[0].path, "combined-wit/target.wit");
    assert!(units[0].text.contains("package custom:target"));
    assert!(units[0].text.contains("world woven"));
}

#[test]
fn absent_world_name_is_world_not_found() {
    let err = knit_documents(two_docs(), vec!["nowhere".to_string()], None, None, None)
        .unwrap_err();
    match err {
        KnitError::WorldNotFound(w) => assert_eq!(w, "nowhere"),
        other => panic!("unexpected error: {}", other.message()),
    }
}

#[test]
fn empty_document_list_is_invalid_request() {
    let err = knit_documents(Vec::new(), vec!["w".to_string()], None, None, None).unwrap_err();
    assert!(matches!(err, KnitError::InvalidRequest(_)));
}

#[test]
fn empty_world_list_is_invalid_request() {
    let err = knit_documents(two_docs(), Vec::new(), None, None, None).unwrap_err();
    assert!(matches!(err, KnitError::InvalidRequest(_)));
}

#[test]
fn empty_path_list_is_invalid_request_before_any_load() {
    let err = knitwit(Vec::new(), vec!["w".to_string()], None, None, None).unwrap_err();
    assert!(matches!(err, KnitError::InvalidRequest(_)));
    let err = knitwit(vec!["x.wit".to_string()], Vec::new(), None, None, None).unwrap_err();
    assert!(matches!(err, KnitError::InvalidRequest(_)));
}

#[test]
fn unreadable_path_is_load_error_with_the_path() {
    let err = knitwit(
        vec!["no-such-dir/no-such-file.wit".to_string()],
        vec!["w".to_string()],
        None,
        None,
        None,
    )
    .unwrap_err();
    match err {
        KnitError::LoadError { path, .. } => assert_eq!(path, "no-such-dir/no-such-file.wit"),
        other => panic!("unexpected error: {}", other.message()),
    }
}

#[test]
fn duplicate_package_identity_is_merge_conflict() {
    let docs = vec![
        doc("a.wit", "package a:foo;\n\nworld w-a {\n}\n"),
        doc("b.wit", "package a:foo;\n\nworld w-b {\n}\n"),
    ];
    let err = knit_documents(docs, vec!["w-a".to_string()], None, None, None).unwrap_err();
    match err {
        KnitError::MergeConflict(m) => assert_eq!(m, "duplicate package a:foo"),
        other => panic!("unexpected error: {}", other.message()),
    }
}

#[test]
fn duplicate_versioned_identity_is_merge_conflict() {
    let docs = vec![
        doc("a.wit", "package a:foo@1.0.0;\n\nworld w-a {\n}\n"),
        doc("b.wit", "package a:foo@1.0.0;\n\nworld w-b {\n}\n"),
    ];
    let err = knit_documents(docs, vec!["w-a".to_string()], None, None, None).unwrap_err();
    match err {
        KnitError::MergeConflict(m) => assert_eq!(m, "duplicate package a:foo@1.0.0"),
        other => panic!("unexpected error: {}", other.message()),
    }
}

#[test]
fn incompatible_world_bindings_are_a_world_merge_conflict() {
    let docs = vec![
        doc("a.wit", "package a:foo;\n\nworld w-a {\n  import f: func();\n}\n"),
        doc("b.wit", "package b:bar;\n\nworld w-b {\n  import f: func(x: u32);\n}\n"),
    ];
    let err =
        knit_documents(docs, vec!["w-a".to_string(), "w-b".to_string()], None, None, None)
            .unwrap_err();
    match err {
        KnitError::WorldMergeConflict(m) => {
            assert!(m.starts_with("unable to merge with world 'w-b': "));
        }
        other => panic!("unexpected error: {}", other.message()),
    }
}

#[test]
fn unparsable_output_package_is_load_error_at_the_synthetic_document() {
    let err = knit_documents(
        two_docs(),
        vec!["w-a".to_string()],
        None,
        Some("no-namespace".to_string()),
        None,
    )
    .unwrap_err();
    match err {
        KnitError::LoadError { path, .. } => assert_eq!(path, "component.wit"),
        other => panic!("unexpected error: {}", other.message()),
    }
}

#[test]
fn target_source_is_one_package_with_one_empty_world() {
    assert_eq!(
        target_wit_source("local:combined-wit", "combined"),
        "package local:combined-wit;\n\n        world combined {\n        }"
    );
}

#[test]
fn qualified_name_renders_the_full_identity() {
    assert_eq!(qualified_name(&key("a", "foo", Some("1.2.3"))), "a:foo@1.2.3");
    assert_eq!(qualified_name(&key("b", "bar", None)), "b:bar");
}

#[test]
fn error_messages_carry_kind_and_detail() {
    assert_eq!(
        KnitError::WorldNotFound("w".to_string()).message(),
        "world not found: w"
    );
    assert_eq!(
        KnitError::LoadError { path: "p.wit".to_string(), message: "bad".to_string() }.message(),
        "load error at p.wit: bad"
    );
    assert_eq!(
        KnitError::InvalidRequest("no worlds were given".to_string()).message(),
        "invalid request: no worlds were given"
    );
}
