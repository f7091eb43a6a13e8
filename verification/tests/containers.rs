use hijuepapus_bot::clock::Span;
use hijuepapus_bot::docker::{
    describe, guard, inspect_outcome, memory, next_attempt, refusal, restart_step, start_outcome,
    stop_outcome, ContainerStatus, Fault, Inspected, Restart, StartOutcome, RETRIES,
};

fn server(status_code: u16) -> Fault {
    Fault::Server { status_code, message: "why".into() }
}

#[test]
fn an_unmanaged_container_is_quoted() {
    let e = guard("bo\"t\n").unwrap_err();
    assert_eq!(e.name, "bo\"t\n");
    assert_eq!(e.message(), "container \"bo\\\"t\\n\" is not managed by this bot");
    assert_eq!(refusal("'x'"), "container 'x' is not managed by this bot");
    assert!(guard("MC").is_err() && guard("").is_err() && guard("mc ").is_err());
}

#[test]
fn descriptions_in_full() {
    assert_eq!(describe("start", &server(500)), "start failed (HTTP 500): why");
    assert_eq!(describe("stop", &Fault::Other("gone".into())), "stop failed: gone");
}

#[test]
fn replies_to_a_start() {
    assert_eq!(start_outcome(Ok(())), Ok(StartOutcome::Started));
    assert_eq!(start_outcome(Err(server(304))), Ok(StartOutcome::AlreadyRunning));
    assert_eq!(start_outcome(Err(server(404))), Err("start failed (HTTP 404): why".into()));
    assert_eq!(
        start_outcome(Err(Fault::Other("304".into()))),
        Err("start failed: 304".into())
    );
}

#[test]
fn replies_to_a_stop() {
    assert_eq!(stop_outcome("stop", Ok(())), Ok(()));
    assert_eq!(
        stop_outcome("restart", Err(server(304))),
        Err("restart failed (HTTP 304): why".into())
    );
}

#[test]
fn replies_to_an_inspection() {
    let nothing = ContainerStatus {
        running: false,
        health: None,
        started_at: None,
        exit_code: None,
        status: None,
    };
    assert_eq!(inspect_outcome(Ok(None)), Ok(Some(nothing.clone())));
    let told = Inspected {
        running: Some(true),
        health: Some("healthy".into()),
        started_at: Some("then".into()),
        exit_code: Some(137),
        status: Some("running".into()),
    };
    assert_eq!(
        inspect_outcome(Ok(Some(told.clone()))),
        Ok(Some(ContainerStatus {
            running: true,
            health: Some("healthy".into()),
            started_at: Some("then".into()),
            exit_code: Some(137),
            status: Some("running".into()),
        }))
    );
    let quiet = Inspected { running: None, ..told };
    assert!(!inspect_outcome(Ok(Some(quiet))).unwrap().unwrap().running);
    assert_eq!(inspect_outcome(Err(server(404))), Ok(None));
    assert_eq!(
        inspect_outcome(Err(server(500))),
        Err("inspect failed (HTTP 500): why".into())
    );
}

#[test]
fn memory_needs_both_numbers() {
    assert_eq!(memory(Some(1), Some(2)), Some((1, 2)));
    assert_eq!(memory(None, Some(2)), None);
    assert_eq!(memory(Some(1), None), None);
}

#[test]
fn a_restart_never_starts_an_unsettled_container() {
    let (soon, late) = (Span { nanos: 149_999_999_999 }, Span::from_secs(150));
    for settled in ["exited", "created"] {
        assert_eq!(restart_step(Some(settled), soon), Restart::Start);
        assert_eq!(restart_step(Some(settled), late), Restart::Start);
    }
    for open in [Some("stopping"), Some("running"), None] {
        assert_eq!(restart_step(open, soon), Restart::Wait);
    }
    assert_eq!(
        restart_step(Some("stopping"), late),
        Restart::GiveUp(
            "restart failed: container did not settle within 150s after stop (status: stopping)"
                .into()
        )
    );
    assert_eq!(
        restart_step(None, late),
        Restart::GiveUp(
            "restart failed: container did not settle within 150s after stop (status: unknown)"
                .into()
        )
    );
}

#[test]
fn connecting_is_retried_ten_times() {
    let mut tries = 1;
    let mut attempt = 0;
    while let Some(n) = next_attempt(attempt) {
        attempt = n;
        tries += 1;
    }
    assert_eq!((attempt, tries), (RETRIES, RETRIES + 1));
    assert_eq!(RETRIES, 10);
}
