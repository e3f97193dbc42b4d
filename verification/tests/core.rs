use peerdrive_ctl::status::StatusOutcome;
use peerdrive_ctl::stream::LogStreamState;
use peerdrive_ctl::text;
use peerdrive_ctl::unit;

#[test]
fn unit_name_appends_suffix() {
    assert_eq!(unit::unit_name(b"peerdrive"), b"peerdrive.service".to_vec());
}

#[test]
fn unit_name_keeps_qualified() {
    assert_eq!(
        unit::unit_name(b"peerdrive.service"),
        b"peerdrive.service".to_vec()
    );
}

#[test]
fn unit_name_idempotent_on_samples() {
    for name in [
        &b""[..],
        b"peerdrive",
        b"peerdrive.service",
        b".service",
        b"a.servic",
        b"x.service.service",
    ] {
        let once = unit::unit_name(name);
        let twice = unit::unit_name(&once);
        assert_eq!(twice, once);
    }
}

#[test]
fn status_token_wins_over_exit_code() {
    // The query printed "inactive" and exited non-zero: the token decides.
    match peerdrive_ctl::status::classify_status(b"inactive\n", b"") {
        StatusOutcome::State(v) => assert_eq!(v, b"inactive".to_vec()),
        _ => panic!("expected a state token"),
    }
}

#[test]
fn status_not_found_phrase() {
    let err = b"Unit missing-unit.service could not be found.";
    assert!(matches!(
        peerdrive_ctl::status::classify_status(b"", err),
        StatusOutcome::NotFound
    ));
}

#[test]
fn status_not_found_token() {
    assert!(matches!(
        peerdrive_ctl::status::classify_status(b"  \n", b"state is not-found"),
        StatusOutcome::NotFound
    ));
}

#[test]
fn status_error_surfaced() {
    match peerdrive_ctl::status::classify_status(b"", b"  something broke \n") {
        StatusOutcome::QueryFailed(e) => assert_eq!(e, b"something broke".to_vec()),
        _ => panic!("expected a query failure"),
    }
}

#[test]
fn status_unknown_when_silent() {
    assert!(matches!(
        peerdrive_ctl::status::classify_status(b" \n", b"\t"),
        StatusOutcome::Unknown
    ));
}

#[test]
fn stream_slot_replace_keeps_one_handle() {
    let mut slot = LogStreamState::new();
    assert_eq!(slot.take_current(), None);
    slot.store(7);
    assert!(slot.is_streaming());
    // Replacing: the old handle comes out for termination, then the new one
    // goes in; at every point at most one handle is held.
    let old = slot.take_current();
    assert_eq!(old, Some(7));
    assert!(!slot.is_streaming());
    slot.store(9);
    assert!(slot.is_streaming());
    assert_eq!(slot.take_current(), Some(9));
}

#[test]
fn stream_stop_is_idempotent() {
    let mut slot = LogStreamState::new();
    slot.store(3);
    assert_eq!(slot.take_current(), Some(3));
    assert_eq!(slot.take_current(), None);
    assert_eq!(slot.take_current(), None);
}

#[test]
fn stream_failed_spawn_leaves_slot_empty() {
    let mut slot = LogStreamState::new();
    // A start that fails to spawn takes the old handle but stores nothing.
    let old = slot.take_current();
    assert_eq!(old, None);
    assert!(!slot.is_streaming());
    // A subsequent stop is a safe no-op.
    assert_eq!(slot.take_current(), None);
}

#[test]
fn relay_preserves_line_order() {
    let unit = String::from("peerdrive.service");
    let lines = vec![String::from("A"), String::from("B"), String::from("C")];
    let events = peerdrive_ctl::stream::relay_lines(&unit, &lines);
    assert_eq!(events.len(), 3);
    for (event, text) in events.iter().zip(["A", "B", "C"]) {
        assert_eq!(event.service, "peerdrive.service");
        assert_eq!(event.line, text);
    }
}

#[test]
fn trim_bytes_examples() {
    assert_eq!(text::trim_bytes(b"  a b \t\r\n"), b"a b".to_vec());
    assert_eq!(text::trim_bytes(b""), Vec::<u8>::new());
    assert_eq!(text::trim_bytes(b" \n\t "), Vec::<u8>::new());
    assert_eq!(text::trim_bytes(b"x"), b"x".to_vec());
}

#[test]
fn split_and_join_round_trip() {
    for doc in [
        &b""[..],
        b"a",
        b"a\nb",
        b"a\nb\n",
        b"\n\n",
        b"line with spaces\r\nnext",
    ] {
        let lines = text::split_lines(doc);
        let joined = text::join_lines(&lines);
        assert_eq!(joined, doc.to_vec());
    }
}

#[test]
fn find_sub_positions() {
    assert_eq!(text::find_sub(b"abcabc", b"cab"), Some(2));
    assert_eq!(text::find_sub(b"abc", b"abcd"), None);
    assert_eq!(text::find_sub(b"abc", b""), Some(0));
    assert!(text::contains_sub(b"could not be found here", b"could not be found"));
    assert!(!text::contains_sub(b"nothing", b"not-found"));
}
