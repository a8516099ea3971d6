use starlight::capture::{next_capture_step, CaptureStep};
use starlight::config::{parse_frame_interval_env, parse_temp_interval_env};
use starlight::publisher::emit_thermal_signal;
use starlight::sensor::sensor_text;
use starlight::setup::{framebuffer_error, publisher_error, FailureKind, SetupError};
use starlight::socket::{
    bind_signal_socket, call_outcome, next_bind_step, AcceptAttempt, BindStep, DrainStep,
    PathState,
};
use starlight::text::{contains_nul, read_setting};
use starlight::thermal::{thermal_payload_at, timestamp_seconds};
use starlight::{
    current_effective_username, drain_pending_clients, ensure_socket_mode, lookup_user_ids,
    Single, ThermalSignalPublisher, THERMAL_STATE_CRITICAL,
    THERMAL_STATE_NORMAL,
};

fn single(value: f32) -> Single {
    Single { bits: value.to_bits() }
}

fn failure(kind: FailureKind, message: &str) -> SetupError {
    SetupError { kind, message: message.to_string() }
}

#[test]
fn payload_is_the_documented_line() {
    assert_eq!(
        thermal_payload_at(
            THERMAL_STATE_NORMAL,
            Some(single(63.2)),
            single(80.0),
            single(85.0),
            1710000000
        ),
        "{\"state\":\"normal\",\"temp_c\":63.2,\"warn_c\":80.0,\"crit_c\":85.0,\"ts\":1710000000,\"recommendation\":\"normal\"}"
    );
}

#[test]
fn timestamp_before_the_epoch_is_zero() {
    assert_eq!(timestamp_seconds(None), 0);
    assert_eq!(timestamp_seconds(Some(17)), 17);
}

#[test]
fn status_goes_to_everyone_as_one_line() {
    let mut publisher = ThermalSignalPublisher::new();
    publisher.add_client(5);
    publisher.add_client(3);
    let emission =
        emit_thermal_signal(&mut publisher, THERMAL_STATE_CRITICAL, None, single(80.0), single(85.0));
    assert_eq!(emission.targets, vec![5, 3]);
    assert_eq!(emission.line.iter().filter(|b| **b == b'\n').count(), 1);
    assert_eq!(emission.line.last(), Some(&b'\n'));
    assert!(emission.line.starts_with(b"{\"state\":\"critical\",\"temp_c\":null,"));
}

#[test]
fn failed_send_drops_just_that_subscriber() {
    let mut publisher = ThermalSignalPublisher::new();
    for client in [5, 3, 8] {
        publisher.add_client(client);
    }
    publisher.complete_send(5, false);
    assert_eq!(publisher.client_count(), 3);
    publisher.complete_send(3, true);
    assert_eq!(publisher.emit_via("é").targets, vec![5, 8]);
    assert_eq!(publisher.emit_via("é").line, "é\n".as_bytes());
    publisher.complete_send(3, true);
    assert_eq!(publisher.client_count(), 2);
}

#[test]
fn descriptor_is_closed_after_its_last_send() {
    let mut publisher = ThermalSignalPublisher::new();
    publisher.add_client(5);
    publisher.add_client(3);
    for _ in 0..3 {
        publisher.emit_via("hot");
    }
    assert!(!publisher.may_close(5));
    assert!(!publisher.complete_send(5, true));
    assert_eq!(publisher.client_count(), 1);
    assert!(!publisher.may_close(5));
    assert!(!publisher.complete_send(5, true));
    assert!(publisher.complete_send(5, false));
    assert!(publisher.may_close(5));
    for _ in 0..3 {
        assert!(!publisher.complete_send(3, false));
    }
    publisher.begin_send(3);
    assert!(publisher.complete_send(3, true));
    assert_eq!(publisher.client_count(), 0);
}

#[test]
fn refused_send_keeps_its_subscriber() {
    let mut publisher = ThermalSignalPublisher::default();
    assert_eq!(publisher.client_count(), 0);
    publisher.add_client(5);
    publisher.emit_via("hot");
    assert!(!publisher.complete_send(5, false));
    assert_eq!(publisher.emit_via("hot").targets, vec![5]);
    assert!(publisher.complete_send(5, true));
}

#[test]
fn sensor_text_ends_before_the_line_break() {
    assert_eq!(sensor_text(" 63200\n"), "63200");
    assert_eq!(sensor_text("\n"), "");
}

#[test]
fn draining_stops_when_nothing_is_pending() {
    let mut publisher = ThermalSignalPublisher::new();
    let mut drain = |attempt| drain_pending_clients(&mut publisher, attempt);
    assert_eq!(drain(AcceptAttempt::Accepted(4)), DrainStep::TryAgain);
    assert_eq!(drain(AcceptAttempt::Interrupted), DrainStep::TryAgain);
    assert_eq!(drain(AcceptAttempt::WouldBlock), DrainStep::Done);
    assert_eq!(drain(AcceptAttempt::Failed), DrainStep::ReportAndStop);
    assert_eq!(publisher.client_count(), 1);
}

#[test]
fn numbers_are_read_as_the_standard_library_reads_them() {
    for text in [
        "7",
        "+7",
        "007",
        "",
        "+",
        "-0",
        "--1",
        "+-1",
        " 5",
        "5 ",
        "1e3",
        "0x10",
        "18446744073709551615",
        "18446744073709551616",
        "99999999999999999999999",
        "٣",
    ] {
        let expected = text.parse::<u64>().unwrap_or(42);
        assert_eq!(parse_frame_interval_env(&Some(text.to_string()), 42), expected);
    }
    assert_eq!(parse_frame_interval_env(&Some("0".to_string()), 100), 0);
    assert_eq!(parse_temp_interval_env(&Some("+9".to_string()), 5), 9);
}

#[test]
fn white_space_of_every_kind_is_trimmed() {
    let listed = |u: u32| {
        (0x09..=0x0D).contains(&u)
            || (0x2000..=0x200A).contains(&u)
            || [0x20, 0x85, 0xA0, 0x1680, 0x2028, 0x2029, 0x202F, 0x205F, 0x3000].contains(&u)
    };
    for c in '\0'..=char::MAX {
        let text = format!("{c}x{c}");
        let expected = if listed(c as u32) { "x".to_string() } else { text.clone() };
        assert_eq!(read_setting(&Some(text)), Some(expected));
    }
}

#[test]
fn nul_is_found_anywhere() {
    assert!(contains_nul("\0"));
    assert!(contains_nul("é\0"));
    assert!(!contains_nul(""));
    assert!(!contains_nul("wlan0"));
}

#[test]
fn users_are_looked_up() {
    assert_eq!(lookup_user_ids("pi", Some((1000, 100))).unwrap(), (1000, 100));
    let err = lookup_user_ids("ghost", None).unwrap_err();
    assert_eq!(err.kind, FailureKind::NotFound);
    assert_eq!(err.message, "user `ghost` not found");
}

#[test]
fn effective_user_has_a_name() {
    assert_eq!(
        current_effective_username(0, Some("jürgen".as_bytes().to_vec())).unwrap(),
        "jürgen"
    );
    let err = current_effective_username(4294967295, None).unwrap_err();
    assert_eq!(err.kind, FailureKind::NotFound);
    assert_eq!(err.message, "effective uid `4294967295` does not map to a passwd entry");
    let err = current_effective_username(0, Some(vec![b'a', 0xFF])).unwrap_err();
    assert_eq!(err.kind, FailureKind::InvalidData);
    assert_eq!(err.message, "passwd username is not utf-8");
}

#[test]
fn socket_mode_needs_a_proper_path() {
    assert_eq!(ensure_socket_mode("/tmp/s", 0o660).unwrap(), 0o660);
    let err = ensure_socket_mode("/tmp/\0s", 0o660).unwrap_err();
    assert_eq!(err.kind, FailureKind::InvalidInput);
    assert_eq!(err.message, "socket path contains NUL");
}

#[test]
fn system_calls_report_what_the_system_says() {
    assert!(call_outcome(0, failure(FailureKind::Other, "whatever")).is_ok());
    let denied = failure(FailureKind::Os(1), "Operation not permitted (os error 1)");
    let err = call_outcome(-1, denied).unwrap_err();
    assert_eq!(err.kind, FailureKind::Os(1));
    assert_eq!(err.message, "Operation not permitted (os error 1)");
}

#[test]
fn binding_ends_at_the_first_failure() {
    assert_eq!(bind_signal_socket("/tmp/s", PathState::Absent).unwrap(), BindStep::Bind);
    let in_use = failure(FailureKind::Os(98), "in use");
    let err = next_bind_step(BindStep::Bind, Err(in_use)).unwrap_err();
    assert_eq!(err.kind, FailureKind::Os(98));
    let err = publisher_error("/tmp/s", "pi", err);
    assert_eq!(err.kind, FailureKind::Os(98));
    assert_eq!(
        err.message,
        "unable to initialize signal socket publisher on /tmp/s for owner pi: in use"
    );
}

#[test]
fn framebuffer_failure_tells_where_to_look() {
    let missing = failure(FailureKind::NotFound, "No such file or directory (os error 2)");
    let err = framebuffer_error("/dev/fb9", missing);
    assert_eq!(err.kind, FailureKind::NotFound);
    assert_eq!(
        err.message,
        "unable to open framebuffer /dev/fb9: No such file or directory (os error 2) \
         (the Sense HAT matrix is the /dev/fb* whose \
         /sys/class/graphics/<fb>/name reads \"RPi-Sense FB\"; \
         the index is not stable across boots or HDMI state)"
    );
}

#[test]
fn capture_opens_step_by_step() {
    let mut step = CaptureStep::OpenSocket;
    let mut seen = vec![step];
    for returned in [3, 2, 0, 0] {
        let os_error = failure(FailureKind::Other, "");
        step = next_capture_step("eth0", step, returned, os_error).unwrap();
        seen.push(step);
    }
    assert_eq!(
        seen,
        vec![
            CaptureStep::OpenSocket,
            CaptureStep::FindInterface { socket: 3 },
            CaptureStep::Bind { socket: 3, interface: 2 },
            CaptureStep::SetPromiscuous { socket: 3, interface: 2 },
            CaptureStep::Ready { socket: 3 },
        ]
    );
    let os_error = failure(FailureKind::Other, "");
    assert_eq!(next_capture_step("eth0", step, 0, os_error).unwrap(), step);
}

#[test]
fn capture_failures_name_their_step() {
    let fail = |name: &str, step, returned| {
        let os_error = failure(FailureKind::Os(1), "EPERM");
        let err = next_capture_step(name, step, returned, os_error).unwrap_err();
        (err.kind, err.message)
    };
    assert_eq!(
        fail("eth0", CaptureStep::OpenSocket, -1),
        (
            FailureKind::Os(1),
            "unable to open AF_PACKET capture socket: EPERM (needs CAP_NET_RAW)".to_string()
        )
    );
    assert_eq!(
        fail("eth\0", CaptureStep::OpenSocket, 3),
        (FailureKind::InvalidInput, "interface name contains an interior NUL".to_string())
    );
    assert_eq!(
        fail("eth9", CaptureStep::FindInterface { socket: 3 }, 0),
        (FailureKind::NotFound, "interface `eth9` not found".to_string())
    );
    assert_eq!(
        fail("eth0", CaptureStep::Bind { socket: 3, interface: 2 }, -1),
        (FailureKind::Os(1), "unable to bind capture socket to `eth0`: EPERM".to_string())
    );
    assert_eq!(
        fail("eth0", CaptureStep::SetPromiscuous { socket: 3, interface: 2 }, -1),
        (FailureKind::Os(1), "unable to enable promiscuous mode on `eth0`: EPERM".to_string())
    );
}
