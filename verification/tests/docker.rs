use hijuepapus_bot::docker::{describe, guard, is_wedged, Fault};

#[test]
fn guard_allows_only_the_two_managed_containers() {
    assert!(guard("mc").is_ok());
    assert!(guard("mc-backup").is_ok());
    assert!(guard("bot").is_err());
    assert!(guard("socket-proxy").is_err());
    assert!(guard("mc; rm -rf /").is_err());
}

#[test]
fn is_wedged_covers_stopping_removing_dead_paused() {
    for s in ["stopping", "removing", "dead", "paused"] {
        assert!(is_wedged(Some(s)), "{s} should be wedged");
    }
    for s in ["running", "exited", "created", "restarting"] {
        assert!(!is_wedged(Some(s)), "{s} should not be wedged");
    }
    assert!(!is_wedged(None));
}

#[test]
fn describe_keeps_podman_message() {
    let e = Fault::Server {
        status_code: 500,
        message: "container ... must be in Created or Stopped state to be started: container state improper".to_string(),
    };
    let out = describe("start", &e);
    assert!(
        out.contains(
            "container ... must be in Created or Stopped state to be started: container state improper"
        ),
        "podman's message was dropped: {out}"
    );
    assert!(out.contains("500"), "status code was dropped: {out}");
}

#[test]
fn describe_labels_the_operation() {
    let e = Fault::Server {
        status_code: 409,
        message: "conflict".to_string(),
    };
    assert!(describe("stop", &e).starts_with("stop failed"));
    assert!(describe("restart", &e).starts_with("restart failed"));
    assert!(describe("start", &e).starts_with("start failed"));
}
