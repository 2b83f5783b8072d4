use gpt_bridge::health::{health_check, Probe, HEALTH_PORT};

fn probe(method: &str, path: &str) -> Probe {
    Probe { method: method.to_string(), path: path.to_string() }
}

#[test]
fn a_probe_is_answered_with_200_and_a_body() {
    let report = health_check(&probe("GET", "/"));
    assert_eq!(report.status, 200);
    assert_eq!(report.body, "Service is healthy");
    assert!(!report.body.is_empty());
}

#[test]
fn the_answer_is_the_same_for_every_probe() {
    let expected = health_check(&probe("GET", "/"));
    for (method, path) in [
        ("GET", "/health"),
        ("GET", "/any/path?x=1"),
        ("HEAD", "/"),
        ("POST", "/"),
        ("", ""),
    ] {
        assert_eq!(health_check(&probe(method, path)), expected);
    }
}

#[test]
fn probes_are_answered_on_port_8080() {
    assert_eq!(HEALTH_PORT, 8080);
}
