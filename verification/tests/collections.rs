use active_deps::{ActiveDependency, DepSource, DependencyMap, Environment, FeatureMap, NameSet};

fn dep(version: &str) -> ActiveDependency {
    ActiveDependency {
        source: DepSource::CratesIo(version.to_string()),
        include_default_features: true,
        features: NameSet::new(),
    }
}

#[test]
fn name_set_holds_each_name_once() {
    let mut set = NameSet::new();
    assert_eq!(set.len(), 0);
    assert!(!set.contains("a"));
    set.insert("a".to_string());
    set.insert("b".to_string());
    set.insert("a".to_string());
    assert_eq!(set.len(), 2);
    assert!(set.contains("a") && set.contains("b") && !set.contains("c"));
    assert_eq!(set.names(), vec!["a".to_string(), "b".to_string()]);
}

#[test]
fn name_set_extend_and_clone() {
    let mut set = NameSet::new();
    set.insert("a".to_string());
    set.extend(&vec!["b".to_string(), "a".to_string(), "c".to_string()]);
    assert_eq!(set.len(), 3);
    let copy = set.clone();
    set.insert("d".to_string());
    assert_eq!(copy.len(), 3);
    assert!(copy.contains("c") && !copy.contains("d"));
    assert_eq!(set.len(), 4);
}

#[test]
fn dependency_map_overwrites_under_the_same_name() {
    let mut map = DependencyMap::new();
    assert_eq!(map.len(), 0);
    assert!(map.get("foo").is_none());
    map.insert("foo".to_string(), dep("1"));
    map.insert("bar".to_string(), dep("2"));
    map.insert("foo".to_string(), dep("3"));
    assert_eq!(map.len(), 2);
    assert!(map.contains_key("foo") && map.contains_key("bar") && !map.contains_key("Foo"));
    assert_eq!(map.get("foo").unwrap().source, DepSource::CratesIo("3".to_string()));
    assert_eq!(map.get("bar").unwrap().source, DepSource::CratesIo("2".to_string()));
    assert_eq!(map.names(), vec!["foo".to_string(), "bar".to_string()]);
}

#[test]
fn feature_map_collects_by_dependency() {
    let mut map = FeatureMap::new();
    assert_eq!(map.requested("foo").len(), 0);
    map.add("foo".to_string(), "a".to_string());
    map.add("bar".to_string(), "a".to_string());
    map.add("foo".to_string(), "b".to_string());
    map.add("foo".to_string(), "a".to_string());
    assert_eq!(map.requested("foo").len(), 2);
    assert_eq!(map.requested("bar").len(), 1);
    assert!(map.requested("foo").contains("b"));
    assert!(!map.requested("bar").contains("b"));
}

#[test]
fn environment_lookups() {
    let mut env = Environment::new();
    assert!(!env.is_set("A"));
    assert!(env.text("A").is_none());
    env.set("A", "1");
    env.set("B", "");
    env.set_non_unicode("C");
    assert!(env.is_set("A") && env.is_set("B") && env.is_set("C") && !env.is_set("a"));
    assert_eq!(env.text("A").map(String::as_str), Some("1"));
    assert_eq!(env.text("B").map(String::as_str), Some(""));
    assert!(env.text("C").is_none());
    assert!(env.holds("A", "1"));
    assert!(!env.holds("A", "2"));
    assert!(!env.holds("C", ""));
    env.set("A", "2");
    assert!(env.holds("A", "2"));
    env.set("C", "now text");
    assert_eq!(env.text("C").map(String::as_str), Some("now text"));
}
