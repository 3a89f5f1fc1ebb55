use active_deps::{
    get_activedep, Declaration, DepSource, DependencyDetail, Environment, FeatureMap, GitRev,
    InheritedDetail,
};

fn detail() -> DependencyDetail {
    DependencyDetail {
        version: None,
        path: None,
        git: None,
        rev: None,
        tag: None,
        branch: None,
        features: vec![],
        optional: false,
        default_features: true,
    }
}

fn text(s: &str) -> Option<String> {
    Some(s.to_string())
}

fn git(rev: Option<&str>, tag: Option<&str>, branch: Option<&str>) -> Declaration {
    Declaration::Detailed(DependencyDetail {
        git: text("https://example.org/foo.git"),
        rev: rev.map(str::to_string),
        tag: tag.map(str::to_string),
        branch: branch.map(str::to_string),
        ..detail()
    })
}

fn revision_of(decl: &Declaration) -> GitRev {
    let active = get_activedep(&FeatureMap::new(), "foo", decl, &Environment::new()).unwrap();
    match active.source {
        DepSource::Git { url, revision } => {
            assert_eq!(url, "https://example.org/foo.git");
            revision
        }
        other => panic!("not a git source: {:?}", other),
    }
}

#[test]
fn simple_comes_from_the_registry_with_default_features() {
    for version in ["1.0", "^0.3.1", "", "*"] {
        let decl = Declaration::Simple(version.to_string());
        let active = get_activedep(&FeatureMap::new(), "foo", &decl, &Environment::new()).unwrap();
        assert_eq!(active.source, DepSource::CratesIo(version.to_string()));
        assert!(active.include_default_features);
        assert_eq!(active.features.len(), 0);
    }
}

#[test]
fn simple_takes_the_features_asked_of_it() {
    let mut asked = FeatureMap::new();
    asked.add("foo".to_string(), "a".to_string());
    asked.add("foo".to_string(), "b".to_string());
    asked.add("bar".to_string(), "c".to_string());
    let decl = Declaration::Simple("1.0".to_string());
    let active = get_activedep(&asked, "foo", &decl, &Environment::new()).unwrap();
    assert_eq!(active.features.len(), 2);
    assert!(active.features.contains("a"));
    assert!(active.features.contains("b"));
    assert!(!active.features.contains("c"));
}

#[test]
fn optional_detailed_without_signal_is_left_out() {
    let decl = Declaration::Detailed(DependencyDetail {
        version: text("1.0"),
        optional: true,
        ..detail()
    });
    assert!(get_activedep(&FeatureMap::new(), "foo", &decl, &Environment::new()).is_none());
    let mut other = Environment::new();
    other.set("CARGO_FEATURE_bar", "1");
    other.set("CARGO_FEATURE_FOO", "1");
    assert!(get_activedep(&FeatureMap::new(), "foo", &decl, &other).is_none());
}

#[test]
fn optional_detailed_with_signal_is_active() {
    let decl = Declaration::Detailed(DependencyDetail {
        version: text("1.0"),
        optional: true,
        ..detail()
    });
    let mut env = Environment::new();
    env.set("CARGO_FEATURE_foo", "1");
    let active = get_activedep(&FeatureMap::new(), "foo", &decl, &env).unwrap();
    assert_eq!(active.source, DepSource::CratesIo("1.0".to_string()));
    let mut env = Environment::new();
    env.set_non_unicode("CARGO_FEATURE_foo");
    assert!(get_activedep(&FeatureMap::new(), "foo", &decl, &env).is_some());
}

#[test]
fn optional_inherited_follows_the_signal() {
    let decl = Declaration::Inherited(InheritedDetail { features: vec![], optional: true });
    assert!(get_activedep(&FeatureMap::new(), "foo", &decl, &Environment::new()).is_none());
    let mut env = Environment::new();
    env.set("CARGO_FEATURE_foo", "");
    assert!(get_activedep(&FeatureMap::new(), "foo", &decl, &env).is_some());
}

#[test]
fn inherited_has_no_known_source_and_no_default_features() {
    let decl = Declaration::Inherited(InheritedDetail {
        features: vec!["x".to_string(), "y".to_string()],
        optional: false,
    });
    let mut asked = FeatureMap::new();
    asked.add("foo".to_string(), "y".to_string());
    asked.add("foo".to_string(), "z".to_string());
    let active = get_activedep(&asked, "foo", &decl, &Environment::new()).unwrap();
    assert_eq!(active.source, DepSource::Unknown);
    assert!(!active.include_default_features);
    assert_eq!(active.features.len(), 3);
    for name in ["x", "y", "z"] {
        assert!(active.features.contains(name));
    }
}

#[test]
fn tag_wins_over_branch() {
    assert_eq!(revision_of(&git(None, Some("v1"), Some("dev"))), GitRev::Tag("v1".to_string()));
}

#[test]
fn revision_wins_over_tag_and_branch() {
    assert_eq!(
        revision_of(&git(Some("abc123"), Some("v1"), Some("dev"))),
        GitRev::Revision("abc123".to_string())
    );
    assert_eq!(
        revision_of(&git(Some("abc123"), None, Some("dev"))),
        GitRev::Revision("abc123".to_string())
    );
}

#[test]
fn branch_alone_and_nothing_at_all() {
    assert_eq!(revision_of(&git(None, None, Some("dev"))), GitRev::Branch("dev".to_string()));
    assert_eq!(revision_of(&git(None, None, None)), GitRev::Master);
}

#[test]
fn version_wins_over_path_and_git() {
    let decl = Declaration::Detailed(DependencyDetail {
        version: text("2.1"),
        path: text("../foo"),
        git: text("https://example.org/foo.git"),
        ..detail()
    });
    let active = get_activedep(&FeatureMap::new(), "foo", &decl, &Environment::new()).unwrap();
    assert_eq!(active.source, DepSource::CratesIo("2.1".to_string()));
}

#[test]
fn path_wins_over_git() {
    let decl = Declaration::Detailed(DependencyDetail {
        path: text("../foo"),
        git: text("https://example.org/foo.git"),
        tag: text("v1"),
        ..detail()
    });
    let active = get_activedep(&FeatureMap::new(), "foo", &decl, &Environment::new()).unwrap();
    assert_eq!(active.source, DepSource::Path("../foo".to_string()));
}

#[test]
fn no_source_is_unknown() {
    let decl = Declaration::Detailed(DependencyDetail { tag: text("v1"), ..detail() });
    let active = get_activedep(&FeatureMap::new(), "foo", &decl, &Environment::new()).unwrap();
    assert_eq!(active.source, DepSource::Unknown);
}

#[test]
fn detailed_takes_its_choice_of_default_features() {
    for choice in [true, false] {
        let decl = Declaration::Detailed(DependencyDetail {
            version: text("1"),
            default_features: choice,
            ..detail()
        });
        let active = get_activedep(&FeatureMap::new(), "foo", &decl, &Environment::new()).unwrap();
        assert_eq!(active.include_default_features, choice);
    }
}

#[test]
fn detailed_unites_its_features_with_those_asked() {
    let decl = Declaration::Detailed(DependencyDetail {
        version: text("1"),
        features: vec!["a".to_string(), "b".to_string(), "a".to_string()],
        ..detail()
    });
    let mut asked = FeatureMap::new();
    asked.add("foo".to_string(), "b".to_string());
    asked.add("foo".to_string(), "c".to_string());
    let active = get_activedep(&asked, "foo", &decl, &Environment::new()).unwrap();
    assert_eq!(active.features.len(), 3);
    let mut names = active.features.names();
    names.sort();
    assert_eq!(names, vec!["a".to_string(), "b".to_string(), "c".to_string()]);
}
