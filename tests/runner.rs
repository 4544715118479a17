use x8::runner::{magnitude, merge_parameters, Runner};
use x8::types::{Config, InjectionPlace, ProbeOutcome, RequestDefaults, Response, RunnerError, Stable};

fn strings(v: &[&str]) -> Vec<String> {
    v.iter().map(|s| s.to_string()).collect()
}

fn defaults(place: InjectionPlace) -> RequestDefaults {
    RequestDefaults {
        url: "https://example.com/".to_string(),
        method: "GET".to_string(),
        injection_place: place,
        parameters: vec![("q".to_string(), "1".to_string())],
        amount_of_reflections: 0,
    }
}

fn probe() -> Response {
    Response {
        time: 42,
        code: 200,
        headers: vec![("server".to_string(), "nginx".to_string())],
        text: "<html>abcdefghij</html>".to_string(),
        reflected_parameters: strings(&["abcdefghij"]),
        additional_parameter: Some("token".to_string()),
    }
}

fn config() -> Config {
    Config {
        verify: false,
        reflected_only: false,
        disable_custom_parameters: false,
        learn_requests_count: 2,
        replay_proxy: String::new(),
        custom_parameters: Vec::new(),
        verbose: 0,
    }
}

fn outcome(code_differs: bool, diffs: &[&str]) -> ProbeOutcome {
    ProbeOutcome { code_differs, new_diffs: strings(diffs) }
}

fn runner_with(max: isize, n: usize, body_stable: bool) -> Runner {
    let mut rd = defaults(InjectionPlace::Headers);
    let mut params: Vec<String> = (0..n).map(|i| format!("p{}", i)).collect();
    let mut r = Runner::new(&mut rd, &mut params, max, probe(), Vec::new(), 0).unwrap();
    r.stable = Stable { body: body_stable, reflections: true };
    r
}

#[test]
fn small_candidate_list_shrinks_max() {
    let mut rd = defaults(InjectionPlace::Headers);
    let mut params = strings(&["a", "b", "c"]);
    let r = Runner::new(&mut rd, &mut params, 10, probe(), Vec::new(), 1).unwrap();
    assert_eq!(r.max, 3);
    assert_eq!(r.default_max, 3);
}

#[test]
fn small_candidate_list_shrinks_negative_max() {
    let mut rd = defaults(InjectionPlace::Headers);
    let mut params = strings(&["a", "b", "c"]);
    let r = Runner::new(&mut rd, &mut params, -64, probe(), Vec::new(), 1).unwrap();
    assert_eq!(r.max, 3);
    assert_eq!(r.default_max, 3);
}

#[test]
fn large_candidate_list_keeps_max() {
    let mut rd = defaults(InjectionPlace::Headers);
    let mut params = strings(&["a", "b", "c", "d"]);
    let r = Runner::new(&mut rd, &mut params, -2, probe(), Vec::new(), 1).unwrap();
    assert_eq!(r.max, 2);
    assert_eq!(r.default_max, -2);
}

#[test]
fn empty_candidate_list_fails() {
    let mut rd = defaults(InjectionPlace::Headers);
    let mut params: Vec<String> = Vec::new();
    let r = Runner::new(&mut rd, &mut params, 128, probe(), strings(&["x"]), 5);
    assert_eq!(r.err(), Some(RunnerError::NoParameters));
    assert_eq!(rd.amount_of_reflections, 0);
    assert!(params.is_empty());
}

#[test]
fn empty_candidate_list_fails_with_zero_setting() {
    let mut rd = defaults(InjectionPlace::Headers);
    let mut params: Vec<String> = Vec::new();
    let r = Runner::new(&mut rd, &mut params, 0, probe(), Vec::new(), 0);
    assert_eq!(r.err(), Some(RunnerError::NoParameters));
}

#[test]
fn rung_sizes() {
    let r = runner_with(-128, 300, true);
    assert_eq!(r.first_rung_size(), 192);
    assert_eq!(r.second_rung_size(), 256);
}

#[test]
fn suggested_names_join_candidates_once() {
    let mut rd = defaults(InjectionPlace::Path);
    let mut params = strings(&["a", "b"]);
    let r = Runner::new(&mut rd, &mut params, 128, probe(), strings(&["b", "c", "c", "d"]), 0).unwrap();
    assert_eq!(params, strings(&["a", "b", "c", "d"]));
    assert_eq!(r.params, strings(&["a", "b", "c", "d"]));
    assert_eq!(r.max, 4);
}

#[test]
fn suggested_names_ignored_for_headers() {
    let mut rd = defaults(InjectionPlace::Headers);
    let mut params = strings(&["a"]);
    let r = Runner::new(&mut rd, &mut params, 128, probe(), strings(&["b"]), 0).unwrap();
    assert_eq!(params, strings(&["a"]));
    assert_eq!(r.max, 1);
}

#[test]
fn suggested_names_can_fill_an_empty_list() {
    let mut rd = defaults(InjectionPlace::Body);
    let mut params: Vec<String> = Vec::new();
    let r = Runner::new(&mut rd, &mut params, 128, probe(), strings(&["x"]), 0).unwrap();
    assert_eq!(r.max, 1);
    assert_eq!(r.params, strings(&["x"]));
}

#[test]
fn reflections_are_recorded() {
    let mut rd = defaults(InjectionPlace::Headers);
    let mut params = strings(&["a"]);
    let r = Runner::new(&mut rd, &mut params, 1, probe(), Vec::new(), 3).unwrap();
    assert_eq!(rd.amount_of_reflections, 3);
    assert_eq!(r.request_defaults.amount_of_reflections, 3);
    assert_eq!(r.request_defaults.url, "https://example.com/");
    assert_eq!(r.request_defaults.parameters, vec![("q".to_string(), "1".to_string())]);
}

#[test]
fn baseline_equals_probe() {
    let mut rd = defaults(InjectionPlace::Headers);
    let mut params = strings(&["a"]);
    let r = Runner::new(&mut rd, &mut params, 1, probe(), Vec::new(), 0).unwrap();
    let b = &r.initial_response;
    assert_eq!(b.time, 42);
    assert_eq!(b.code, 200);
    assert_eq!(b.headers, vec![("server".to_string(), "nginx".to_string())]);
    assert_eq!(b.text, "<html>abcdefghij</html>");
    assert_eq!(b.reflected_parameters, strings(&["abcdefghij"]));
    assert_eq!(b.additional_parameter, Some("token".to_string()));
    assert!(r.diffs.is_empty());
    assert!(!r.stable.body && !r.stable.reflections);
}

#[test]
fn marker_template_carries_one_parameter() {
    let rd = defaults(InjectionPlace::Body);
    let m = rd.with_marker("abcdefghij".to_string(), "klmnopqrst".to_string());
    assert_eq!(m.parameters, vec![("abcdefghij".to_string(), "klmnopqrst".to_string())]);
    assert_eq!(m.url, rd.url);
    assert_eq!(m.injection_place, InjectionPlace::Body);
    assert_eq!(rd.parameters.len(), 1);
}

#[test]
fn magnitude_of_settings() {
    assert_eq!(magnitude(-128), 128);
    assert_eq!(magnitude(7), 7);
    assert_eq!(magnitude(0), 0);
    assert_eq!(magnitude(isize::MIN), (isize::MAX as usize) + 1);
}

#[test]
fn merge_skips_known_names() {
    let mut params = strings(&["id"]);
    merge_parameters(&mut params, &strings(&["id", "page", "id"]));
    assert_eq!(params, strings(&["id", "page"]));
}

#[test]
fn unstable_reflections_fail_in_reflected_only_mode() {
    let mut r = runner_with(-128, 200, true);
    let mut c = config();
    c.reflected_only = true;
    let res = r.stability_checker(&c, strings(&["d1"]), Stable { body: true, reflections: false });
    assert_eq!(res, Err(RunnerError::ReflectionsUnstable));
}

#[test]
fn unstable_reflections_pass_otherwise() {
    let mut r = runner_with(-128, 200, true);
    let res = r.stability_checker(&config(), strings(&["d1"]), Stable { body: true, reflections: false });
    assert_eq!(res, Ok(true));
    assert_eq!(r.diffs, strings(&["d1"]));
    assert!(!r.stable.reflections);
}

#[test]
fn fixed_max_skips_sizing() {
    let mut r = runner_with(128, 200, true);
    let res = r.stability_checker(&config(), Vec::new(), Stable { body: true, reflections: true });
    assert_eq!(res, Ok(false));
}

#[test]
fn ladder_both_rungs_safe() {
    let mut r = runner_with(-128, 300, true);
    r.try_to_increase_max(&outcome(false, &[]), Some(&outcome(false, &[])));
    assert_eq!(r.max, 256);
}

#[test]
fn ladder_only_first_rung_safe() {
    let mut r = runner_with(-128, 300, true);
    r.try_to_increase_max(&outcome(false, &[]), Some(&outcome(false, &["new"])));
    assert_eq!(r.max, 192);
    let mut r = runner_with(-128, 300, true);
    r.try_to_increase_max(&outcome(false, &[]), Some(&outcome(true, &[])));
    assert_eq!(r.max, 192);
    let mut r = runner_with(-128, 300, true);
    r.try_to_increase_max(&outcome(false, &[]), None);
    assert_eq!(r.max, 192);
}

#[test]
fn ladder_first_rung_unsafe() {
    let mut r = runner_with(-128, 300, true);
    r.try_to_increase_max(&outcome(true, &[]), Some(&outcome(false, &[])));
    assert_eq!(r.max, 128);
    let mut r = runner_with(-128, 300, true);
    r.try_to_increase_max(&outcome(false, &["x"]), Some(&outcome(false, &[])));
    assert_eq!(r.max, 128);
}

#[test]
fn ladder_ignores_diffs_of_unstable_body() {
    let mut r = runner_with(-128, 300, false);
    assert!(r.rung_is_safe(&outcome(false, &["x"])));
    r.try_to_increase_max(&outcome(false, &["x"]), Some(&outcome(false, &["y"])));
    assert_eq!(r.max, 256);
}

#[test]
fn sizing_records_new_max() {
    let mut r = runner_with(-128, 300, true);
    r.finish_sizing(&outcome(false, &[]), Some(&outcome(true, &[])));
    assert_eq!(r.max, 192);
    assert_eq!(r.default_max, 192);
    let mut r = runner_with(-128, 300, true);
    r.finish_sizing(&outcome(true, &[]), None);
    assert_eq!(r.max, 128);
    assert_eq!(r.default_max, -128);
}

#[test]
fn two_candidates_never_reach_sizing() {
    let mut c = config();
    c.learn_requests_count = 2;
    let mut rd = defaults(InjectionPlace::Headers);
    let mut params = strings(&["a", "b"]);
    let mut r = Runner::new(&mut rd, &mut params, -128, probe(), Vec::new(), 0).unwrap();
    assert_eq!(r.max, 2);
    assert_eq!(r.default_max, 2);
    let res = r.stability_checker(&c, Vec::new(), Stable { body: true, reflections: true });
    assert_eq!(res, Ok(false));
}

#[test]
fn error_messages() {
    assert_eq!(RunnerError::NoParameters.message(), "No parameters were provided.");
    assert_eq!(RunnerError::ReflectionsUnstable.message(), "Reflections are not stable");
}

#[test]
fn replay_switch() {
    let mut c = config();
    assert!(!c.replay_wanted());
    c.replay_proxy = "http://127.0.0.1:8080".to_string();
    assert!(c.replay_wanted());
}
