use active_deps::{check_cfg, check_cfg_root, parse_predicate, CfgExpr, CfgList, Environment};

fn pair(name: &str, value: &str) -> CfgExpr {
    CfgExpr::NameValue { name: Some(name.to_string()), value: Some(value.to_string()) }
}

fn list(name: &str, args: Vec<CfgExpr>) -> CfgExpr {
    CfgExpr::List(CfgList { name: Some(name.to_string()), args })
}

fn linux() -> Environment {
    let mut env = Environment::new();
    env.set("CARGO_CFG_TARGET_OS", "linux");
    env
}

#[test]
fn all_of_nothing_holds() {
    assert_eq!(check_cfg(&list("all", vec![]), &Environment::new()), Some(true));
}

#[test]
fn any_of_nothing_fails() {
    assert_eq!(check_cfg(&list("any", vec![]), &Environment::new()), Some(false));
}

#[test]
fn double_negation_of_a_leaf() {
    let env = linux();
    for value in ["linux", "windows"] {
        let twice = list("not", vec![list("not", vec![pair("target_os", value)])]);
        assert_eq!(check_cfg(&twice, &env), check_cfg(&pair("target_os", value), &env));
    }
    assert_eq!(
        check_cfg(&list("not", vec![list("not", vec![pair("target_os", "linux")])]), &env),
        Some(true)
    );
}

#[test]
fn any_and_all_on_linux() {
    let env = linux();
    let any = list("any", vec![pair("target_os", "windows"), pair("target_os", "linux")]);
    let all = list("all", vec![pair("target_os", "linux"), pair("target_os", "windows")]);
    assert_eq!(check_cfg(&any, &env), Some(true));
    assert_eq!(check_cfg(&all, &env), Some(false));
}

#[test]
fn leaf_compares_exactly() {
    let env = linux();
    assert_eq!(check_cfg(&pair("target_os", "linux"), &env), Some(true));
    assert_eq!(check_cfg(&pair("target_os", "Linux"), &env), Some(false));
    assert_eq!(check_cfg(&pair("target_os", "linux "), &env), Some(false));
    assert_eq!(check_cfg(&pair("target_arch", "linux"), &env), Some(false));
}

#[test]
fn leaf_key_is_upper_case_with_prefix() {
    let mut env = Environment::new();
    env.set("CARGO_CFG_target_os", "linux");
    env.set("TARGET_OS", "linux");
    assert_eq!(check_cfg(&pair("target_os", "linux"), &env), Some(false));
    env.set("CARGO_CFG_TARGET_OS", "linux");
    assert_eq!(check_cfg(&pair("target_os", "linux"), &env), Some(true));
    assert_eq!(check_cfg(&pair("Target_Os", "linux"), &env), Some(true));
}

#[test]
fn leaf_with_value_that_is_not_unicode() {
    let mut env = Environment::new();
    env.set_non_unicode("CARGO_CFG_TARGET_OS");
    assert_eq!(check_cfg(&pair("target_os", "linux"), &env), Some(false));
}

#[test]
fn not_negates() {
    let env = linux();
    assert_eq!(check_cfg(&list("not", vec![pair("target_os", "linux")]), &env), Some(false));
    assert_eq!(check_cfg(&list("not", vec![pair("target_os", "windows")]), &env), Some(true));
}

#[test]
fn not_takes_exactly_one_item() {
    let env = linux();
    assert_eq!(check_cfg(&list("not", vec![]), &env), None);
    let two = list("not", vec![pair("target_os", "linux"), pair("target_os", "linux")]);
    assert_eq!(check_cfg(&two, &env), None);
}

#[test]
fn not_hands_on_what_cannot_be_evaluated() {
    assert_eq!(check_cfg(&list("not", vec![CfgExpr::Flag]), &linux()), None);
}

#[test]
fn unsupported_items() {
    let env = linux();
    assert_eq!(check_cfg(&CfgExpr::Flag, &env), None);
    assert_eq!(check_cfg(&CfgExpr::Literal, &env), None);
    assert_eq!(check_cfg(&list("xor", vec![pair("target_os", "linux")]), &env), None);
    assert_eq!(check_cfg(&list("Any", vec![pair("target_os", "linux")]), &env), None);
    let no_string = CfgExpr::NameValue { name: Some("target_os".to_string()), value: None };
    assert_eq!(check_cfg(&no_string, &env), None);
    let no_name = CfgExpr::NameValue { name: None, value: Some("linux".to_string()) };
    assert_eq!(check_cfg(&no_name, &env), None);
    let path = CfgExpr::List(CfgList { name: None, args: vec![pair("target_os", "linux")] });
    assert_eq!(check_cfg(&path, &env), None);
}

#[test]
fn any_stops_at_the_first_that_decides() {
    let env = linux();
    let yes = pair("target_os", "linux");
    let no = pair("target_os", "windows");
    assert_eq!(check_cfg(&list("any", vec![yes, CfgExpr::Flag]), &env), Some(true));
    let yes = pair("target_os", "linux");
    assert_eq!(check_cfg(&list("any", vec![CfgExpr::Flag, yes]), &env), None);
    assert_eq!(check_cfg(&list("any", vec![no, CfgExpr::Flag]), &env), None);
    let no = pair("target_os", "windows");
    let no2 = pair("target_os", "macos");
    assert_eq!(check_cfg(&list("any", vec![no, no2]), &env), Some(false));
}

#[test]
fn all_stops_at_the_first_that_decides() {
    let env = linux();
    let no = pair("target_os", "windows");
    assert_eq!(check_cfg(&list("all", vec![no, CfgExpr::Flag]), &env), Some(false));
    let no = pair("target_os", "windows");
    assert_eq!(check_cfg(&list("all", vec![CfgExpr::Flag, no]), &env), None);
    let yes = pair("target_os", "linux");
    assert_eq!(check_cfg(&list("all", vec![yes, CfgExpr::Flag]), &env), None);
    let yes = pair("target_os", "linux");
    let yes2 = pair("target_os", "linux");
    assert_eq!(check_cfg(&list("all", vec![yes, yes2]), &env), Some(true));
}

#[test]
fn nested_lists() {
    let mut env = linux();
    env.set("CARGO_CFG_TARGET_ARCH", "x86_64");
    let e = list(
        "all",
        vec![
            list("any", vec![pair("target_os", "macos"), pair("target_os", "linux")]),
            list("not", vec![pair("target_arch", "arm")]),
        ],
    );
    assert_eq!(check_cfg(&e, &env), Some(true));
}

#[test]
fn root_takes_exactly_one_item() {
    let env = linux();
    let one = CfgList { name: Some("cfg".to_string()), args: vec![pair("target_os", "linux")] };
    assert_eq!(check_cfg_root(&one, &env), Some(true));
    let none = CfgList { name: Some("cfg".to_string()), args: vec![] };
    assert_eq!(check_cfg_root(&none, &env), None);
    let two = CfgList {
        name: Some("cfg".to_string()),
        args: vec![pair("target_os", "linux"), pair("target_os", "linux")],
    };
    assert_eq!(check_cfg_root(&two, &env), None);
}

#[test]
fn parsed_any_and_all_on_linux() {
    let env = linux();
    let any = parse_predicate("cfg(any(target_os = \"windows\", target_os = \"linux\"))").unwrap();
    let all = parse_predicate("cfg(all(target_os = \"linux\", target_os = \"windows\"))").unwrap();
    assert_eq!(check_cfg_root(&any, &env), Some(true));
    assert_eq!(check_cfg_root(&all, &env), Some(false));
}

#[test]
fn parsed_predicate_has_the_shape_of_its_text() {
    let root = parse_predicate("cfg(all(unix, not(target_env = \"musl\"), feature = true, \"x\"))")
        .unwrap();
    assert_eq!(root.name.as_deref(), Some("cfg"));
    assert_eq!(root.args.len(), 1);
    let all = match &root.args[0] {
        CfgExpr::List(l) => l,
        other => panic!("not a list: {:?}", other),
    };
    assert_eq!(all.name.as_deref(), Some("all"));
    assert_eq!(all.args.len(), 4);
    assert!(matches!(&all.args[0], CfgExpr::Flag));
    match &all.args[1] {
        CfgExpr::List(not) => {
            assert_eq!(not.name.as_deref(), Some("not"));
            assert_eq!(not.args.len(), 1);
            match &not.args[0] {
                CfgExpr::NameValue { name, value } => {
                    assert_eq!(name.as_deref(), Some("target_env"));
                    assert_eq!(value.as_deref(), Some("musl"));
                }
                other => panic!("not a pair: {:?}", other),
            }
        }
        other => panic!("not a list: {:?}", other),
    }
    assert_eq!(all.args[2], CfgExpr::NameValue { name: Some("feature".to_string()), value: None });
    assert_eq!(all.args[3], CfgExpr::Literal);
}

#[test]
fn parse_refuses_what_is_no_list() {
    assert!(parse_predicate("cfg").is_none());
    assert!(parse_predicate("cfg(").is_none());
    assert!(parse_predicate("cfg(a = )").is_none());
    assert!(parse_predicate("cfg(a) b").is_none());
    assert!(parse_predicate("").is_none());
}

#[test]
fn parse_refuses_text_that_is_not_plain() {
    assert!(parse_predicate("cfg(a = \"b\\n\")").is_none());
    assert!(parse_predicate("cfg(a = c\"b\")").is_none());
    assert!(parse_predicate("cfg(a = 1)").is_none());
    assert!(parse_predicate("cfg(a::b = \"c\")").is_none());
    assert!(parse_predicate("cfg(a = 'c')").is_none());
}

#[test]
fn parse_accepts_plain_strings_of_any_content() {
    let root = parse_predicate("cfg(target_vendor = \"pc\", feature = \"crt-static 64/é\")")
        .unwrap();
    assert_eq!(root.args.len(), 2);
    match &root.args[1] {
        CfgExpr::NameValue { name, value } => {
            assert_eq!(name.as_deref(), Some("feature"));
            assert_eq!(value.as_deref(), Some("crt-static 64/é"));
        }
        other => panic!("not a pair: {:?}", other),
    }
}
