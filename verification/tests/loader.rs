use orchestration::loader::{
    FEATURE_WITH_TESTS, SMOKE_SUCCESS, builtin_procedure_names, builtin_procedure_yaml,
    builtin_procedure_yamls,
};

#[test]
fn builtin_procedure_yaml_returns_bundled_body() {
    let yaml = builtin_procedure_yaml("feature_with_tests").expect("known builtin");
    assert!(
        yaml.contains("name: feature_with_tests"),
        "bundled YAML should match its name; got: {}",
        &yaml[..yaml.len().min(80)]
    );
    assert!(builtin_procedure_yaml("does_not_exist").is_none());
}

#[test]
fn builtin_procedure_names_lists_every_builtin() {
    let names = builtin_procedure_names();
    assert!(names.contains(&"feature_with_tests"));
    assert!(names.contains(&"smoke_success"));
}

#[test]
fn every_listed_builtin_has_its_body_in_order() {
    let names = builtin_procedure_names();
    let bodies = builtin_procedure_yamls();
    assert_eq!(names, vec!["feature_with_tests", "smoke_success"]);
    assert_eq!(bodies, vec![FEATURE_WITH_TESTS, SMOKE_SUCCESS]);
    for (n, b) in names.iter().zip(bodies.iter()) {
        assert_eq!(builtin_procedure_yaml(n), Some(*b));
        assert!(b.contains(&format!("name: {n}")));
    }
}

#[test]
fn builtin_lookup_is_exact() {
    assert_eq!(builtin_procedure_yaml("smoke_success"), Some(SMOKE_SUCCESS));
    assert!(builtin_procedure_yaml("Smoke_Success").is_none());
    assert!(builtin_procedure_yaml("smoke_success ").is_none());
    assert!(builtin_procedure_yaml("").is_none());
}

#[test]
fn each_builtin_text_opens_with_its_name_line() {
    for n in builtin_procedure_names() {
        let yaml = builtin_procedure_yaml(n).expect("listed builtin");
        assert!(yaml.starts_with(&format!("name: {n}\n")));
    }
}
