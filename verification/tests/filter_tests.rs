//! The file-type filter: match-all, negation precedence, clear-then-add,
//! and glob matching through the public builder.

use relint::types::TypesBuilder;

#[test]
fn empty_filter_matches_every_path() {
    let b = TypesBuilder::new();
    let t = b.build().unwrap();
    assert!(t.is_empty());
    assert!(t.matches_path("a.rs"));
    assert!(t.matches_path("dir/inner/b.md"));
    assert!(t.matches_path("no-extension"));
    assert!(t.matches_path(""));
}

#[test]
fn selected_type_matches_only_its_globs() {
    let mut b = TypesBuilder::new();
    b.add("foo", "*.foo").unwrap();
    b.select("foo");
    let t = b.build().unwrap();
    assert!(!t.is_empty());
    assert!(t.matches_path("x.foo"));
    assert!(t.matches_path("dir/x.foo"));
    assert!(!t.matches_path("x.bar"));
}

#[test]
fn negation_beats_selection_on_same_type() {
    let mut b = TypesBuilder::new();
    b.add("foo", "*.foo").unwrap();
    b.select("foo");
    b.negate("foo");
    let t = b.build().unwrap();
    assert!(!t.matches_path("x.foo"));
}

#[test]
fn negation_alone_excludes_matching_paths() {
    let mut b = TypesBuilder::new();
    b.add("foo", "*.foo").unwrap();
    b.negate("foo");
    let t = b.build().unwrap();
    assert!(!t.matches_path("x.foo"));
    assert!(t.matches_path("x.bar"));
}

#[test]
fn clear_then_add_behaves_as_later_add_alone() {
    let mut b = TypesBuilder::new();
    b.add("t", "*.a").unwrap();
    b.clear("t");
    b.add("t", "*.b").unwrap();
    b.select("t");
    let t = b.build().unwrap();
    assert!(t.matches_path("x.b"));
    assert!(!t.matches_path("x.a"));

    let mut fresh = TypesBuilder::new();
    fresh.add("t", "*.b").unwrap();
    fresh.select("t");
    let f = fresh.build().unwrap();
    assert_eq!(t.matches_path("x.a"), f.matches_path("x.a"));
    assert_eq!(t.matches_path("x.b"), f.matches_path("x.b"));
}

#[test]
fn clear_of_absent_name_is_no_error() {
    let mut b = TypesBuilder::new();
    b.clear("never-registered");
    let t = b.build().unwrap();
    assert!(t.matches_path("anything"));
}

#[test]
fn selecting_unknown_type_matches_nothing() {
    let mut b = TypesBuilder::new();
    b.add("foo", "*.foo").unwrap();
    b.select("no-such-type");
    let t = b.build().unwrap();
    assert!(!t.matches_path("x.foo"));
    assert!(!t.matches_path("anything"));
}

#[test]
fn invalid_glob_fails_at_add() {
    let mut b = TypesBuilder::new();
    let e = b.add("bad", "a[").unwrap_err();
    match e {
        relint::errors::SpecificFieldError::InvalidGlob { glob, .. } => {
            assert_eq!(glob, "a[");
        },
        other => panic!("expected an invalid-glob error, got {:?}", other),
    }
    let t = b.build().unwrap();
    assert!(t.matches_path("anything"));
}

#[test]
fn add_overwrites_earlier_definition() {
    let mut b = TypesBuilder::new();
    b.add("t", "*.a").unwrap();
    b.add("t", "*.b").unwrap();
    b.select("t");
    let t = b.build().unwrap();
    assert!(t.matches_path("x.b"));
    assert!(!t.matches_path("x.a"));
}

#[test]
fn glob_matches_file_name_not_directory() {
    let mut b = TypesBuilder::new();
    b.add("foo", "*.foo").unwrap();
    b.select("foo");
    let t = b.build().unwrap();
    assert!(t.matches_path("x.foo/inner.bar") == false);
    assert!(t.matches_path("inner.bar/x.foo"));
}

#[test]
fn default_registry_knows_rust_sources() {
    let factory = relint::lints::TomlLintFactory::new("").unwrap();
    let builder = factory.build_types().unwrap();
    let defs = builder.definitions();
    assert!(defs.len() > 0);
    assert!(defs.iter().any(|d| d.name == "rust"));
    let names: Vec<&str> = defs.iter().map(|d| d.name.as_str()).collect();
    let mut deduped = names.clone();
    deduped.sort();
    deduped.dedup();
    assert_eq!(names.len(), deduped.len());
}
