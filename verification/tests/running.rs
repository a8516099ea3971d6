use starlight::config::{Config, Environment};
use starlight::console::{is_error, listening_text, owner_text, report_text, startup_texts};
use starlight::launch::{first_step, run, serve, RunError, ServeStep};
use starlight::runtime::{
    AcceptOutcome, Action, PacketOutcome, ReadFailure, Report, RuntimeState, Submission,
};
use starlight::setup::{FailureKind, SetupError};
use starlight::{
    lookup_user_ids, Single, THERMAL_STATE_CRITICAL, THERMAL_STATE_NORMAL, THERMAL_STATE_WARNING,
};

const MS: u128 = 1_000_000;

fn single(value: f32) -> Single {
    Single { bits: value.to_bits() }
}

fn environment(socket: bool) -> Environment {
    Environment {
        warn_temp_c: None,
        critical_temp_c: None,
        temp_check_interval: None,
        min_frame_interval: None,
        signal_socket: if socket { Some("/tmp/s".to_string()) } else { None },
        signal_socket_owner: None,
        effective_user: Ok("pi".to_string()),
    }
}

fn config(socket: bool) -> Config {
    let args = vec!["eth0".to_string(), "/dev/fb0".to_string()];
    Config::from_env_and_args(&args, environment(socket)).ok().unwrap()
}

fn state(socket: bool) -> RuntimeState {
    RuntimeState::new(&config(socket))
}

fn publish(state: u8, reading: Option<f32>) -> Action {
    Action::Publish { state, reading: reading.map(single) }
}

#[test]
fn start_arms_everything() {
    assert_eq!(
        state(true).start(),
        vec![
            Action::SubmitAccept,
            Action::ScheduleThermalTick,
            Action::SubmitCapture { reuse_buffer: false },
        ]
    );
    assert_eq!(
        state(false).start(),
        vec![Action::ScheduleThermalTick, Action::SubmitCapture { reuse_buffer: false }]
    );
}

#[test]
fn cool_readings_publish_and_repeat() {
    let mut s = state(true);
    assert_eq!(
        s.on_thermal_tick(Some(single(63.2))),
        vec![publish(THERMAL_STATE_NORMAL, Some(63.2)), Action::ScheduleThermalTick]
    );
    assert_eq!(s.thermal_state, THERMAL_STATE_NORMAL);
    let mut quiet = state(false);
    assert_eq!(quiet.on_thermal_tick(Some(single(63.2))), vec![Action::ScheduleThermalTick]);
}

#[test]
fn warning_pulses_and_is_reported_once() {
    let mut s = state(true);
    assert_eq!(
        s.on_thermal_tick(Some(single(82.0))),
        vec![
            Action::Report(Report::Warning(single(82.0))),
            Action::SchedulePulse,
            publish(THERMAL_STATE_WARNING, Some(82.0)),
            Action::ScheduleThermalTick,
        ]
    );
    assert_eq!(
        s.on_thermal_tick(Some(single(84.9))),
        vec![publish(THERMAL_STATE_WARNING, Some(84.9)), Action::ScheduleThermalTick]
    );
    assert_eq!(
        s.on_thermal_tick(Some(single(81.9))),
        vec![
            Action::Report(Report::Recovered(single(81.9))),
            publish(THERMAL_STATE_NORMAL, Some(81.9)),
            Action::ScheduleThermalTick,
        ]
    );
    assert_eq!(s.on_pulse(), vec![Action::ShowClear]);
    assert!(!s.pulse_armed);
}

#[test]
fn missing_reading_changes_no_state() {
    let mut s = state(true);
    s.on_thermal_tick(Some(single(83.0)));
    assert_eq!(
        s.on_thermal_tick(None),
        vec![
            Action::Report(Report::NoReading),
            publish(THERMAL_STATE_WARNING, None),
            Action::ScheduleThermalTick,
        ]
    );
    assert_eq!(s.thermal_state, THERMAL_STATE_WARNING);
}

#[test]
fn a_reading_that_is_no_number_counts_as_normal() {
    let mut s = state(false);
    s.on_thermal_tick(Some(single(83.0)));
    s.on_thermal_tick(Some(single(f32::NAN)));
    assert_eq!(s.thermal_state, THERMAL_STATE_NORMAL);
}

#[test]
fn critical_reading_stops_after_six_pulses() {
    let mut s = state(true);
    assert_eq!(
        s.on_thermal_tick(Some(single(85.0))),
        vec![
            Action::Report(Report::Critical(single(85.0))),
            publish(THERMAL_STATE_CRITICAL, Some(85.0)),
            Action::SchedulePulse,
        ]
    );
    let mut lit = 0;
    for i in 0..10 {
        let shown = if i % 2 == 0 {
            lit += 1;
            Action::ShowPulse(THERMAL_STATE_CRITICAL)
        } else {
            Action::ShowClear
        };
        assert_eq!(s.on_pulse(), vec![shown, Action::SchedulePulse]);
    }
    assert_eq!(lit, 5);
    assert_eq!(
        s.on_pulse(),
        vec![Action::ShowPulse(THERMAL_STATE_CRITICAL), Action::Stop]
    );
    assert!(s.on_packet(PacketOutcome::Received, 0).is_empty());
}

#[test]
fn a_pulse_that_is_lit_already_does_not_count() {
    let mut s = state(false);
    s.on_thermal_tick(Some(single(82.0)));
    assert_eq!(
        s.on_pulse(),
        vec![Action::ShowPulse(THERMAL_STATE_WARNING), Action::SchedulePulse]
    );
    s.on_thermal_tick(Some(single(85.0)));
    let (mut red, mut pulses) = (0, 0);
    loop {
        let actions = s.on_pulse();
        pulses += 1;
        if actions[0] == Action::ShowPulse(THERMAL_STATE_CRITICAL) {
            red += 1;
        }
        if actions[1] == Action::Stop {
            break;
        }
        assert_eq!(actions[1], Action::SchedulePulse);
    }
    assert_eq!((red, pulses), (6, 12));
}

#[test]
fn running_pulse_is_not_started_twice() {
    let mut s = state(false);
    s.on_thermal_tick(Some(single(82.0)));
    assert_eq!(
        s.on_thermal_tick(Some(single(90.0))),
        vec![Action::Report(Report::Critical(single(90.0)))]
    );
    assert!(s.arm_pulse().is_empty());
}

#[test]
fn warning_captures_without_rendering() {
    let mut s = state(false);
    s.on_thermal_tick(Some(single(82.0)));
    assert_eq!(
        s.on_packet(PacketOutcome::Received, 0),
        vec![Action::SubmitCapture { reuse_buffer: true }]
    );
    assert_eq!(s.last_frame_at, None);
}

#[test]
fn frames_are_rendered_at_most_once_per_interval() {
    let mut s = state(false);
    let render = vec![Action::RenderPacket, Action::SubmitCapture { reuse_buffer: true }];
    let skip = vec![Action::SubmitCapture { reuse_buffer: true }];
    assert_eq!(s.on_packet(PacketOutcome::Received, 5 * MS), render);
    assert_eq!(s.on_packet(PacketOutcome::Received, 104 * MS), skip);
    assert_eq!(s.on_packet(PacketOutcome::Received, 105 * MS - 1), skip);
    assert_eq!(s.on_packet(PacketOutcome::Received, 105 * MS), render);
    assert_eq!(s.on_packet(PacketOutcome::Received, 50 * MS), skip);
    assert_eq!(s.on_packet(PacketOutcome::Received, 205 * MS), render);
}

#[test]
fn zero_interval_renders_every_packet() {
    let mut s = state(false);
    s.min_frame_interval_ms = 0;
    for _ in 0..3 {
        assert!(s.claim_frame_slot(7));
    }
    assert_eq!(s.last_frame_at, None);
}

#[test]
fn only_real_read_failures_are_reported() {
    let mut s = state(false);
    let next = Action::SubmitCapture { reuse_buffer: false };
    for quiet in [ReadFailure::WouldBlock, ReadFailure::TimedOut, ReadFailure::Interrupted] {
        assert_eq!(s.on_packet(PacketOutcome::Failed(quiet), 0), vec![next]);
    }
    assert_eq!(
        s.on_packet(PacketOutcome::Failed(ReadFailure::Other), 0),
        vec![Action::Report(Report::ReadFailed), next]
    );
}

#[test]
fn accepts_go_on_and_failures_wait() {
    let s = state(true);
    assert_eq!(
        s.on_accept(AcceptOutcome::Connected(9)),
        vec![Action::AdmitClient(9), Action::SubmitAccept]
    );
    assert_eq!(
        s.on_accept(AcceptOutcome::Failed),
        vec![Action::Report(Report::AcceptFailed), Action::ScheduleAcceptRetry]
    );
    let none = state(false);
    assert_eq!(none.on_accept(AcceptOutcome::Connected(9)), vec![Action::CloseClient(9)]);
    assert!(none.arm_accept().is_empty());
}

#[test]
fn refused_operations() {
    let mut s = state(true);
    for fatal in [Submission::Capture, Submission::ThermalTick] {
        assert_eq!(
            s.on_refused(fatal),
            vec![Action::Report(Report::Refused(fatal)), Action::Stop]
        );
    }
    for harmless in [
        Submission::Accept,
        Submission::AcceptRetry,
        Submission::FrameWrite,
        Submission::StatusSend,
    ] {
        assert_eq!(s.on_refused(harmless), vec![Action::Report(Report::Refused(harmless))]);
    }
    s.on_thermal_tick(Some(single(82.0)));
    assert!(s.pulse_armed);
    assert_eq!(
        s.on_refused(Submission::Pulse),
        vec![Action::Report(Report::Refused(Submission::Pulse))]
    );
    assert_eq!(
        s.on_thermal_tick(Some(single(82.0))),
        vec![
            Action::SchedulePulse,
            publish(THERMAL_STATE_WARNING, Some(82.0)),
            Action::ScheduleThermalTick,
        ]
    );
    assert!(s.pulse_armed);
}

#[test]
fn run_needs_linux() {
    let args = vec!["eth0".to_string(), "/dev/fb0".to_string()];
    assert!(run(true, &args, environment(false)).is_ok());
    let err = run(false, &args, environment(false)).err().unwrap();
    assert!(matches!(err, RunError::Platform));
    assert_eq!(
        err.message(),
        "starlight's capture and framebuffer runtime requires Linux (Raspberry Pi + Sense HAT)"
    );
    let err = run(true, &args[..1], environment(false)).err().unwrap();
    assert_eq!(err.message(), "Usage: starlight <interface_name> <framebuffer_name>");
}

fn failure() -> SetupError {
    SetupError { kind: FailureKind::NotFound, message: "gone".to_string() }
}

#[test]
fn signal_socket_comes_first_and_goes_last() {
    let core = vec![
        ServeStep::OpenFramebuffer,
        ServeStep::ShowSplash,
        ServeStep::OpenCapture,
        ServeStep::Start,
        ServeStep::Run,
    ];
    for socket in [true, false] {
        let config = config(socket);
        let mut step = first_step(&config);
        let mut steps = vec![step];
        while let Some(next) = serve(&config, step, Ok(())).unwrap() {
            step = next;
            steps.push(step);
        }
        let mut expected = core.clone();
        if socket {
            expected.insert(0, ServeStep::BindSignalSocket);
            expected.insert(0, ServeStep::LookupOwner);
            expected.push(ServeStep::RemoveSignalSocket);
        }
        assert_eq!(steps, expected);
    }
}

#[test]
fn first_failure_ends_the_program() {
    let config = config(true);
    for step in [
        ServeStep::LookupOwner,
        ServeStep::OpenFramebuffer,
        ServeStep::ShowSplash,
        ServeStep::OpenCapture,
        ServeStep::Start,
        ServeStep::Run,
    ] {
        let err = serve(&config, step, Err(failure())).unwrap_err();
        assert_eq!(err.kind, FailureKind::NotFound);
        assert_eq!(err.message, "gone");
    }
    let err = serve(&config, ServeStep::BindSignalSocket, Err(failure())).unwrap_err();
    assert_eq!(err.kind, FailureKind::NotFound);
    assert_eq!(
        err.message,
        "unable to initialize signal socket publisher on /tmp/s for owner pi: gone"
    );
}

#[test]
fn impossible_owner_is_reported_as_it_is() {
    let config = Config { signal_socket_owner: "bad\0name".to_string(), ..config(true) };
    let step = first_step(&config);
    assert_eq!(step, ServeStep::LookupOwner);
    let looked = lookup_user_ids(&config.signal_socket_owner, None).map(|_| ());
    let err = serve(&config, step, looked).unwrap_err();
    assert_eq!(err.kind, FailureKind::InvalidInput);
    assert_eq!(err.message, "username contains NUL");
}

#[test]
fn socket_that_cannot_be_removed_is_left() {
    let end = serve(&config(true), ServeStep::RemoveSignalSocket, Err(failure()));
    assert_eq!(end.unwrap(), None);
}

#[test]
fn reports_say_what_happened() {
    let (warn, critical) = (single(82.0), single(85.0));
    let said = |report| report_text(report, warn, critical, "why");
    assert_eq!(said(Report::AcceptFailed), "Thermal signal socket accept error: why");
    assert_eq!(said(Report::ReadFailed), "Failed to read packet: why");
    assert_eq!(said(Report::FrameWriteFailed), "Framebuffer write failed: why");
    assert_eq!(
        said(Report::ClientListLocked),
        "Unable to lock thermal signal client list: why"
    );
    assert_eq!(
        said(Report::Critical(single(85.25))),
        "CRITICAL: CPU temperature 85.2°C >= 85.0°C, stopping capture"
    );
    assert_eq!(
        said(Report::Warning(single(82.5))),
        "WARNING: CPU temperature 82.5°C >= 82.0°C"
    );
    assert_eq!(
        said(Report::Recovered(single(70.0))),
        "CPU temperature recovered to 70.0°C"
    );
    assert_eq!(
        said(Report::NoReading),
        "Unable to read CPU temperature from /sys/class/thermal/*/temp"
    );
    for (submission, task) in [
        (Submission::Accept, "submit thermal socket accept"),
        (Submission::AcceptRetry, "reschedule thermal socket accept"),
        (Submission::Capture, "submit packet capture recv"),
        (Submission::FrameWrite, "submit framebuffer write"),
        (Submission::ThermalTick, "schedule thermal check"),
        (Submission::Pulse, "schedule thermal pulse"),
        (Submission::StatusSend, "submit thermal signal send"),
    ] {
        assert_eq!(said(Report::Refused(submission)), format!("Unable to {task}: why"));
    }
    assert!(is_error(Report::NoReading));
    assert!(!is_error(Report::Recovered(single(70.0))));
}

#[test]
fn start_is_announced() {
    let monitor = "CPU monitor enabled: warning at 82.0°C, shutdown at 85.0°C (interval: 5s)";
    assert_eq!(startup_texts(&config(false), None), vec![monitor]);
    assert_eq!(
        startup_texts(&config(true), Some(single(63.25))),
        vec![
            "Starting Starlight. Current CPU temperature: 63.2°C",
            monitor,
            "Thermal signal publisher listening on: /tmp/s (owner: pi, mode: 0660)",
        ]
    );
    assert_eq!(
        owner_text("/tmp/s", "pi", 1000, 100),
        "Initializing thermal signal socket: path=/tmp/s owner=pi uid=1000 gid=100 mode=0660"
    );
    assert_eq!(listening_text("eth0"), "Listening on interface: eth0");
}

#[test]
fn check_interval_is_written_as_a_duration() {
    for secs in [1u64, 5, 60, 3600, u64::MAX] {
        let config = Config { temp_check_interval_secs: secs, ..config(false) };
        let expected = format!("(interval: {:?})", std::time::Duration::from_secs(secs));
        assert!(startup_texts(&config, None)[0].ends_with(&expected));
    }
}
