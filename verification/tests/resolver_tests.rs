use resizeimg::config::Upstreams;
use resizeimg::errors::PipelineError;
use resizeimg::pipeline::plan_request;
use resizeimg::resolver::{get_upstream, resolve_template};

fn rule(path: &str, upstream: &str) -> Upstreams {
    Upstreams {
        path: path.to_string(),
        upstream: upstream.to_string(),
    }
}

#[test]
fn capture_substitution_keeps_trailing_fragment() {
    let rules = vec![rule("^/img/(\\d+)$", "http://origin/{}/full")];
    let r = get_upstream("/img/42", &rules).unwrap();
    assert_eq!(r, Some("http://origin/42/full".to_string()));
}

#[test]
fn no_rule_matches_yields_none() {
    let rules = vec![rule("^/img/(\\d+)$", "http://origin/{}/full")];
    let r = get_upstream("/other/path", &rules).unwrap();
    assert_eq!(r, None);
}

#[test]
fn first_matching_rule_wins() {
    let rules = vec![
        rule("^/a/(\\d+)$", "http://first/{}"),
        rule("^/a/(.*)$", "http://second/{}"),
    ];
    let r = get_upstream("/a/7", &rules).unwrap();
    assert_eq!(r, Some("http://first/7".to_string()));
}

#[test]
fn malformed_pattern_is_an_internal_error() {
    let rules = vec![rule("(", "http://origin/{}")];
    let r = get_upstream("/anything", &rules);
    assert_eq!(r, Err(PipelineError::InternalError));
    assert_eq!(PipelineError::InternalError.status_code(), 500);
}

#[test]
fn extra_captures_are_truncated() {
    // Two placeholders (three fragments), three captures: all three
    // fragments take a capture; anything beyond that is dropped.
    let caps = vec!["x".to_string(), "y".to_string(), "z".to_string()];
    assert_eq!(resolve_template("a{}b{}c", &caps), "axbycz".to_string());
    let four = vec![
        "x".to_string(),
        "y".to_string(),
        "z".to_string(),
        "w".to_string(),
    ];
    assert_eq!(resolve_template("a{}b{}c", &four), "axbycz".to_string());
    let rules = vec![rule("^/(\\w)/(\\w)/(\\w)$", "http://o/{}/{}/")];
    let r = get_upstream("/1/2/3", &rules).unwrap();
    assert_eq!(r, Some("http://o/1/2/3".to_string()));
}

#[test]
fn extra_placeholders_are_truncated() {
    // One capture, two placeholders: trailing fragments are dropped.
    let caps = vec!["x".to_string()];
    assert_eq!(resolve_template("a{}b{}c", &caps), "axb".to_string());
}

#[test]
fn template_without_placeholders_takes_one_capture() {
    let none: Vec<String> = Vec::new();
    assert_eq!(resolve_template("http://fixed", &none), "http://fixed".to_string());
    let caps: Vec<String> = vec!["x".to_string()];
    assert_eq!(resolve_template("http://fixed", &caps), "http://fixedx".to_string());
}

#[test]
fn pattern_must_cover_the_whole_path() {
    // The pattern is matched against the entire request path, not
    // searched for inside it.
    let rules = vec![rule("img/(\\d+)", "http://origin/{}")];
    assert_eq!(get_upstream("/img/42", &rules).unwrap(), None);
    let full = vec![rule("/img/(\\d+)", "http://origin/{}")];
    assert_eq!(
        get_upstream("/img/42", &full).unwrap(),
        Some("http://origin/42".to_string())
    );
}

#[test]
fn multiple_captures_interleave_in_order() {
    let rules = vec![rule("^/(\\d+)/(\\d+)$", "http://o/{}/m/{}/e")];
    let r = get_upstream("/4/5", &rules).unwrap();
    assert_eq!(r, Some("http://o/4/m/5/e".to_string()));
}

#[test]
fn plan_request_resolves_and_extracts() {
    let rules = vec![rule("^/img/(\\d+)$", "http://origin/{}/full")];
    let plan = plan_request("/img/9", "im=Resize=(20,30)".to_string(), &rules).unwrap();
    assert_eq!(plan.upstream_url, "http://origin/9/full".to_string());
    assert_eq!(plan.geometry, Some((20, 30)));
}

#[test]
fn plan_request_not_found_maps_to_404() {
    let rules = vec![rule("^/img/(\\d+)$", "http://origin/{}/full")];
    let e = plan_request("/nope", "".to_string(), &rules).unwrap_err();
    assert_eq!(e, PipelineError::NotFound);
    assert_eq!(e.status_code(), 404);
    assert_eq!(e.message(), "Not found\n".to_string());
}
