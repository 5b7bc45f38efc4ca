//! The exclusion policy's pieces, taken one at a time.
use techdocs::policy::{
    is_build_executable, path_has_denied_component, path_has_hidden_component, ExclusionPolicy,
};

#[test]
fn deny_list_names_match() {
    assert!(is_build_executable("target"));
    assert!(is_build_executable("node_modules"));
    assert!(is_build_executable("build"));
    assert!(is_build_executable("dist"));
    assert!(is_build_executable("out"));
    assert!(is_build_executable("bin"));
    assert!(is_build_executable("Debug"));
    assert!(is_build_executable("Release"));
    assert!(is_build_executable(".git"));
    assert!(is_build_executable(".idea"));
    assert!(is_build_executable(".vscode"));
}

#[test]
fn deny_list_matches_as_substring() {
    assert!(is_build_executable("my_target_dir"));
    assert!(is_build_executable(".gitignore"));
    assert!(is_build_executable("robin"));
    assert!(is_build_executable("output.txt"));
}

#[test]
fn ordinary_names_are_not_denied() {
    assert!(!is_build_executable("main.rs"));
    assert!(!is_build_executable("README.md"));
    assert!(!is_build_executable("src"));
    assert!(!is_build_executable(""));
}

#[test]
fn denied_components_are_found_anywhere_in_a_path() {
    assert!(path_has_denied_component("target/debug/app"));
    assert!(path_has_denied_component("a/node_modules/b/c.js"));
    assert!(path_has_denied_component("a/b/.git"));
    assert!(!path_has_denied_component("src/lib.rs"));
    assert!(!path_has_denied_component("tar/get.rs"));
}

#[test]
fn hidden_components_are_found_anywhere_in_a_path() {
    assert!(path_has_hidden_component(".env"));
    assert!(path_has_hidden_component("a/.config/b"));
    assert!(path_has_hidden_component("a/b/.hidden"));
    assert!(!path_has_hidden_component("a.b/c"));
    assert!(!path_has_hidden_component("src/main.rs"));
}

#[test]
fn policy_decides_the_layers_in_order() {
    let pol = ExclusionPolicy::build("repo", &Vec::new()).unwrap();
    assert!(pol.decide("src/main.rs", false));
    assert!(!pol.decide("target/x.rs", false));
    assert!(!pol.decide(".env", false));
    assert!(pol.decide("docs", true));
    assert!(!pol.decide(".git", true));
}

#[test]
fn deny_list_is_absolute_over_overrides() {
    let pol = ExclusionPolicy::build("repo", &vec![".gitignore".to_string()]).unwrap();
    assert!(!pol.decide(".gitignore", false));
}

#[test]
fn override_whitelists_a_hidden_file() {
    let pol = ExclusionPolicy::build("repo", &vec![".env".to_string()]).unwrap();
    assert!(pol.decide(".env", false));
}

#[test]
fn bad_glob_is_reported_at_build_time() {
    let err = match ExclusionPolicy::build("repo", &vec!["a[".to_string()]) {
        Err(e) => e,
        Ok(_) => panic!("a malformed glob must be refused"),
    };
    assert_eq!(err.message(), "Ignore error: invalid override pattern: a[");
}
