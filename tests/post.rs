use x8::post::{apply_verification, dedup_found, is_key};
use x8::sweep::non_random_batches;
use x8::types::{Config, FoundParameter};

fn found(names: &[&str]) -> Vec<FoundParameter> {
    names.iter().map(|n| FoundParameter { name: n.to_string(), diffs: vec![format!("diff of {}", n)] }).collect()
}

fn names(f: &[FoundParameter]) -> Vec<String> {
    f.iter().map(|p| p.name.clone()).collect()
}

fn sweep_config(custom: Vec<(&str, Vec<&str>)>, disabled: bool) -> Config {
    Config {
        verify: false,
        reflected_only: false,
        disable_custom_parameters: disabled,
        learn_requests_count: 1,
        replay_proxy: String::new(),
        custom_parameters: custom
            .into_iter()
            .map(|(k, vs)| (k.to_string(), vs.into_iter().map(|v| v.to_string()).collect()))
            .collect(),
        verbose: 0,
    }
}

#[test]
fn dedup_drops_pair_of_found_key() {
    let out = dedup_found(found(&["admin", "debug=1", "admin=true"]));
    assert_eq!(names(&out), vec!["admin", "debug=1"]);
}

#[test]
fn dedup_keeps_pair_without_key() {
    let out = dedup_found(found(&["debug=1", "admin"]));
    assert_eq!(names(&out), vec!["debug=1", "admin"]);
    assert_eq!(out[0].diffs, vec!["diff of debug=1".to_string()]);
}

#[test]
fn dedup_uses_text_before_first_equals() {
    let out = dedup_found(found(&["a=b=c", "a", "a=b"]));
    assert_eq!(names(&out), vec!["a"]);
    let out = dedup_found(found(&["x=1=2", "x=1"]));
    assert_eq!(names(&out), vec!["x=1=2", "x=1"]);
}

#[test]
fn dedup_of_nothing() {
    assert!(dedup_found(Vec::new()).is_empty());
}

#[test]
fn key_detection() {
    assert!(is_key("admin", "admin=true"));
    assert!(is_key("", "=v"));
    assert!(!is_key("admin", "admin"));
    assert!(!is_key("adm", "admin=true"));
    assert!(!is_key("a=b", "a=b=c"));
    assert!(!is_key("admin", "administrator=1"));
}

#[test]
fn verification_failure_keeps_findings() {
    let (out, warn) = apply_verification(found(&["a", "b"]), None);
    assert_eq!(names(&out), vec!["a", "b"]);
    assert!(warn);
}

#[test]
fn verification_narrows_findings() {
    let (out, warn) = apply_verification(found(&["a", "b", "c"]), Some(found(&["c", "a", "z"])));
    assert_eq!(names(&out), vec!["a", "c"]);
    assert!(!warn);
    let (out, _) = apply_verification(found(&["a"]), Some(Vec::new()));
    assert!(out.is_empty());
}

#[test]
fn sweep_rounds_of_debug_and_admin() {
    let c = sweep_config(vec![("debug", vec!["1", "true"]), ("admin", vec!["yes"])], false);
    let rounds = non_random_batches(&c);
    assert_eq!(rounds, vec![vec!["debug=1".to_string(), "admin=yes".to_string()], vec!["debug=true".to_string()]]);
}

#[test]
fn sweep_probes_each_value_once() {
    let c = sweep_config(vec![("a", vec!["1"]), ("b", vec![]), ("c", vec!["x", "y", "z"])], false);
    let rounds = non_random_batches(&c);
    assert_eq!(rounds.len(), 3);
    assert_eq!(rounds[0], vec!["a=1".to_string(), "c=x".to_string()]);
    assert_eq!(rounds[1], vec!["c=y".to_string()]);
    assert_eq!(rounds[2], vec!["c=z".to_string()]);
    assert_eq!(rounds.iter().map(|r| r.len()).sum::<usize>(), 4);
}

#[test]
fn sweep_disabled_or_empty() {
    let c = sweep_config(vec![("debug", vec!["1"])], true);
    assert!(non_random_batches(&c).is_empty());
    let c = sweep_config(vec![("debug", vec![])], false);
    assert!(non_random_batches(&c).is_empty());
}
