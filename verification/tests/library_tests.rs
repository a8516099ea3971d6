use std::f32::consts::PI;

use ndarray::{Array1, Array2};
use starlight::config::{Config, ConfigError, Environment};
use starlight::network::{LayerShape, WeightPattern};
use starlight::setup::{FailureKind, SetupError};
use starlight::socket::{next_bind_step, BindStep, OwnerChange, PathOwner, PathState};
use starlight::{
    bind_signal_socket, bytes_to_f32_vector, ensure_socket_owner, lookup_user_ids,
    packet_to_frame_bytes, parse_temp_env, parse_temp_interval_env, thermal_payload, thermal_recommendation, thermal_state_name,
    unix_timestamp_seconds, PacketCompressor, Single, ThermalSignalPublisher,
    THERMAL_STATE_CRITICAL, THERMAL_STATE_NORMAL, THERMAL_STATE_WARNING,
};

fn single(value: f32) -> Single {
    Single { bits: value.to_bits() }
}

fn value(single: Single) -> f32 {
    f32::from_bits(single.bits)
}

fn parsed(text: &str) -> Option<Single> {
    text.parse::<f32>().ok().map(single)
}

/// The weights of a layer, by its pattern.
fn weights(layer: &LayerShape) -> Array2<f32> {
    let (rows, cols) = (layer.rows, layer.cols);
    let wave = |i: usize, j: usize| {
        (i as f32 / rows as f32 * 2.0 * PI).sin() * (j as f32 / cols as f32 * 2.0 * PI).cos()
    };
    Array2::from_shape_fn((rows, cols), |(i, j)| match layer.pattern {
        WeightPattern::Waveform => 0.11389 + wave(i, j),
        WeightPattern::PlainWaveform => wave(i, j),
        WeightPattern::Parabolic => {
            let x = i as f32 / rows as f32;
            let y = j as f32 / cols as f32;
            (x - 0.5).powi(2) + (y - 0.5).powi(2)
        }
    })
}

fn biases(size: usize) -> Array1<f32> {
    Array1::from_shape_fn(size, |i| (i as f32 / size as f32 * 2.11793 * PI).sin())
}

fn apply(layer: &LayerShape, input: &[Single]) -> Vec<Single> {
    let input: Array1<f32> = input.iter().map(|s| value(*s)).collect();
    (input.dot(&weights(layer)) + &biases(layer.cols)).iter().map(|v| single(*v)).collect()
}

fn compress(compressor: &PacketCompressor, input: &[f32]) -> Vec<f32> {
    let affine = |i: usize, v: Vec<Single>| apply(&compressor.layers[i], &v);
    let input: Vec<Single> = input.iter().map(|v| single(*v)).collect();
    compressor.compress(&affine, input).iter().map(|s| value(*s)).collect()
}

/// The network without the library: product, sum and rectification, layer by layer.
fn expected(compressor: &PacketCompressor, input: &[f32]) -> Vec<f32> {
    let last = compressor.layers.len() - 1;
    let mut hidden = Array1::from(input.to_vec());
    for (i, layer) in compressor.layers.iter().enumerate() {
        hidden = hidden.dot(&weights(layer)) + &biases(layer.cols);
        if i < last {
            hidden.mapv_inplace(|x| x.max(0.0));
        }
    }
    hidden.to_vec()
}

#[test]
fn compressor_returns_expected_output_size() {
    let compressor = PacketCompressor::new(6, 2);
    let output = compress(&compressor, &[0.1, 0.2, 0.3, 0.4, 0.5, 0.6]);
    assert_eq!(output.len(), 2);
    assert!(output.iter().all(|value| value.is_finite()));
}

#[test]
fn compressor_rectifies_between_the_layers() {
    let compressor = PacketCompressor::new(6, 2);
    let input = [0.1, -0.2, 0.3, 0.4, -0.5, 0.6];
    let output = compress(&compressor, &input);
    assert_eq!(output, expected(&compressor, &input));
    assert_ne!(output[0], output[1]);
}

#[test]
fn packets_with_the_same_leading_bytes_show_the_same_frame() {
    let compressor = PacketCompressor::new(1518, 32);
    let affine = |i: usize, v: Vec<Single>| apply(&compressor.layers[i], &v);
    let frame = |packet: &[u8]| packet_to_frame_bytes(&compressor, &affine, packet);
    let short = frame(&[1, 2, 3]);
    assert_eq!(frame(&[1, 2, 3, 0, 0]), short);
    assert_ne!(frame(&[1, 2, 4]), short);
    let mut long = vec![9u8; 1518];
    let whole = frame(&long);
    long.push(200);
    assert_eq!(frame(&long), whole);
}

#[test]
fn compressor_is_deterministic_for_same_input() {
    let compressor = PacketCompressor::new(5, 3);
    let input = [0.2, 0.4, 0.6, 0.8, 1.0];
    let first = compress(&compressor, &input);
    let second = compress(&compressor, &input);
    assert_eq!(first, second);
}

#[test]
fn bytes_to_f32_vector_pads_short_inputs() {
    let converted: Vec<f32> = bytes_to_f32_vector(&[0, 127, 255]).into_iter().map(value).collect();
    assert_eq!(converted.len(), 1518);
    assert_eq!(converted[0], 0.0);
    assert!((converted[1] - (127.0 / 255.0)).abs() < 1e-6);
    assert_eq!(converted[2], 1.0);
    assert!(converted[3..].iter().all(|value| *value == 0.0));
}

#[test]
fn bytes_to_f32_vector_truncates_long_inputs() {
    let bytes = vec![255u8; 1600];
    let converted: Vec<f32> = bytes_to_f32_vector(&bytes).into_iter().map(value).collect();
    assert_eq!(converted.len(), 1518);
    assert!(converted.iter().all(|value| *value == 1.0));
}

#[test]
fn parse_temp_env_uses_valid_override() {
    assert_eq!(value(parse_temp_env(parsed("77.5"), single(80.0))), 77.5);
}

#[test]
fn parse_temp_env_rejects_invalid_or_non_positive_values() {
    assert_eq!(value(parse_temp_env(parsed("abc"), single(80.0))), 80.0);
    assert_eq!(value(parse_temp_env(parsed("-1"), single(80.0))), 80.0);
    assert_eq!(value(parse_temp_env(parsed("inf"), single(80.0))), 80.0);
    assert_eq!(value(parse_temp_env(parsed("nan"), single(80.0))), 80.0);
    assert_eq!(value(parse_temp_env(parsed("0"), single(80.0))), 80.0);
    assert_eq!(value(parse_temp_env(parsed("-0"), single(80.0))), 80.0);
    assert_eq!(value(parse_temp_env(None, single(80.0))), 80.0);
}

#[test]
fn parse_temp_interval_env_uses_valid_override() {
    assert_eq!(parse_temp_interval_env(&Some("9".to_string()), 5), 9);
}

#[test]
fn parse_temp_interval_env_rejects_invalid_or_zero_values() {
    assert_eq!(parse_temp_interval_env(&Some("0".to_string()), 5), 5);
    assert_eq!(parse_temp_interval_env(&Some("bad".to_string()), 5), 5);
    assert_eq!(parse_temp_interval_env(&None, 5), 5);
}

#[test]
fn thermal_state_name_maps_all_states() {
    assert_eq!(thermal_state_name(THERMAL_STATE_NORMAL), "normal");
    assert_eq!(thermal_state_name(THERMAL_STATE_WARNING), "warning");
    assert_eq!(thermal_state_name(THERMAL_STATE_CRITICAL), "critical");
    assert_eq!(thermal_state_name(99), "normal");
}

#[test]
fn thermal_recommendation_maps_all_states() {
    assert_eq!(thermal_recommendation(THERMAL_STATE_NORMAL), "normal");
    assert_eq!(thermal_recommendation(THERMAL_STATE_WARNING), "throttle");
    assert_eq!(thermal_recommendation(THERMAL_STATE_CRITICAL), "pause");
    assert_eq!(thermal_recommendation(99), "normal");
}

#[test]
fn unix_timestamp_seconds_is_non_zero() {
    assert!(unix_timestamp_seconds() > 0);
}

#[test]
fn thermal_payload_formats_temperature_and_thresholds() {
    let payload = thermal_payload(
        THERMAL_STATE_WARNING,
        Some(single(81.25)),
        single(80.0),
        single(85.0),
    );
    assert!(payload.contains("\"state\":\"warning\""));
    assert!(payload.contains("\"temp_c\":81.2"));
    assert!(payload.contains("\"warn_c\":80.0"));
    assert!(payload.contains("\"crit_c\":85.0"));
    assert!(payload.contains("\"recommendation\":\"throttle\""));
    assert!(payload.contains("\"ts\":"));
}

#[test]
fn thermal_payload_formats_missing_temperature_as_null() {
    let payload = thermal_payload(THERMAL_STATE_NORMAL, None, single(80.0), single(85.0));
    assert!(payload.contains("\"temp_c\":null"));
    assert!(payload.contains("\"state\":\"normal\""));
}

#[test]
fn signal_publisher_emits_to_connected_clients() {
    let mut publisher = ThermalSignalPublisher::new();
    publisher.add_client(7);
    let emission = publisher.emit_via("hello");
    assert_eq!(emission.line, b"hello\n");
    assert_eq!(emission.targets, vec![7]);
}

#[test]
fn initialize_signal_publisher_rejects_regular_files() {
    let err = bind_signal_socket("/tmp/nonsocket", PathState::Other)
        .err()
        .expect("regular file path should be rejected");
    assert_eq!(err.kind, FailureKind::AlreadyExists);
    assert_eq!(err.message, "/tmp/nonsocket exists and is not a Unix socket");
}

#[test]
fn initialize_signal_publisher_replaces_stale_socket_path() {
    let mut step = bind_signal_socket("/tmp/stale", PathState::Socket).unwrap();
    let mut steps = vec![step];
    while step != BindStep::Ready {
        step = next_bind_step(step, Ok(())).unwrap();
        steps.push(step);
    }
    assert_eq!(
        steps,
        vec![
            BindStep::RemoveStale,
            BindStep::Bind,
            BindStep::SetNonblocking,
            BindStep::SetOwner,
            BindStep::SetMode(0o660),
            BindStep::Ready,
        ]
    );
}

#[test]
fn lookup_user_ids_rejects_nul_in_username() {
    let err = lookup_user_ids("bad\0name", Some((1, 1))).unwrap_err();
    assert_eq!(err.kind, FailureKind::InvalidInput);
    assert_eq!(err.message, "username contains NUL");
}

#[test]
fn ensure_socket_owner_rejects_regular_files() {
    let found = PathOwner { is_socket: false, uid: 1000, gid: 1000 };
    let err = ensure_socket_owner("/tmp/file-owner", "pi", found, Some((1000, 1000))).unwrap_err();
    assert_eq!(err.kind, FailureKind::InvalidInput);
    assert_eq!(err.message, "/tmp/file-owner is not a Unix socket");
}

#[test]
fn owner_changes_only_where_it_differs() {
    let found = PathOwner { is_socket: true, uid: 1000, gid: 1000 };
    assert_eq!(
        ensure_socket_owner("/s", "pi", found, Some((1000, 1000))).unwrap(),
        OwnerChange::Keep
    );
    assert_eq!(
        ensure_socket_owner("/s", "pi", found, Some((1000, 5))).unwrap(),
        OwnerChange::Change { uid: 1000, gid: 5 }
    );
    let missing = ensure_socket_owner("/s", "ghost", found, None).unwrap_err();
    assert_eq!(missing.kind, FailureKind::NotFound);
    assert_eq!(missing.message, "user `ghost` not found");
    let nul = ensure_socket_owner("/s\0", "pi", found, Some((1, 1))).unwrap_err();
    assert_eq!(nul.kind, FailureKind::InvalidInput);
    assert_eq!(nul.message, "socket path contains NUL");
    assert!(ensure_socket_owner("/s\0", "pi", found, Some((1000, 1000))).is_ok());
}

fn environment() -> Environment {
    Environment {
        warn_temp_c: None,
        critical_temp_c: None,
        temp_check_interval: None,
        min_frame_interval: None,
        signal_socket: None,
        signal_socket_owner: None,
        effective_user: Ok("pi".to_string()),
    }
}

fn arguments() -> Vec<String> {
    vec!["eth0".to_string(), "/dev/fb0".to_string()]
}

#[test]
fn config_defaults() {
    let config = Config::from_env_and_args(&arguments(), environment()).ok().unwrap();
    assert_eq!(config.interface_name, "eth0");
    assert_eq!(config.framebuffer_path, "/dev/fb0");
    assert_eq!(value(config.warn_temp_c), 82.0);
    assert_eq!(value(config.critical_temp_c), 85.0);
    assert_eq!(config.temp_check_interval_secs, 5);
    assert_eq!(config.min_frame_interval_ms, 100);
    assert_eq!(config.signal_socket_path, None);
    assert_eq!(config.signal_socket_owner, "pi");
}

#[test]
fn config_overrides() {
    let env = Environment {
        warn_temp_c: parsed("78"),
        critical_temp_c: parsed("84"),
        temp_check_interval: Some("2".to_string()),
        min_frame_interval: Some("0".to_string()),
        signal_socket: Some(" \t/tmp/starlight-thermal.sock\u{2003}\n".to_string()),
        signal_socket_owner: Some("  monitor ".to_string()),
        ..environment()
    };
    let config = Config::from_env_and_args(&arguments(), env).ok().unwrap();
    assert_eq!(value(config.warn_temp_c), 78.0);
    assert_eq!(value(config.critical_temp_c), 84.0);
    assert_eq!(config.temp_check_interval_secs, 2);
    assert_eq!(config.min_frame_interval_ms, 0);
    assert_eq!(config.signal_socket_path.as_deref(), Some("/tmp/starlight-thermal.sock"));
    assert_eq!(config.signal_socket_owner, "monitor");
}

#[test]
fn blank_settings_count_as_absent() {
    let env = Environment {
        signal_socket: Some(" \n ".to_string()),
        signal_socket_owner: Some("".to_string()),
        min_frame_interval: Some("fast".to_string()),
        ..environment()
    };
    let config = Config::from_env_and_args(&arguments(), env).ok().unwrap();
    assert_eq!(config.signal_socket_path, None);
    assert_eq!(config.signal_socket_owner, "pi");
    assert_eq!(config.min_frame_interval_ms, 100);
}

#[test]
fn missing_arguments_are_refused() {
    for n in 0..2 {
        let err = Config::from_env_and_args(&arguments()[..n], environment()).err().unwrap();
        assert!(matches!(err, ConfigError::Usage));
        assert_eq!(err.message(), "Usage: starlight <interface_name> <framebuffer_name>");
    }
}

#[test]
fn inverted_thresholds_are_refused() {
    for critical in ["79.96", "80"] {
        let env = Environment {
            warn_temp_c: parsed("80"),
            critical_temp_c: parsed(critical),
            ..environment()
        };
        let err = Config::from_env_and_args(&arguments(), env).err().unwrap();
        assert!(matches!(err, ConfigError::Thresholds { .. }));
        assert_eq!(
            err.message(),
            "Environment config invalid: STARLIGHT_CRIT_TEMP_C (80.0) must be higher than STARLIGHT_WARN_TEMP_C (80.0)"
        );
    }
}

#[test]
fn nameless_owner_is_refused_only_where_it_is_needed() {
    let failure = || SetupError { kind: FailureKind::NotFound, message: "nobody".to_string() };
    let env = Environment { effective_user: Err(failure()), ..environment() };
    let err = Config::from_env_and_args(&arguments(), env).err().unwrap();
    assert!(matches!(&err, ConfigError::Owner(e) if e.kind == FailureKind::NotFound));
    assert_eq!(err.message(), "nobody");

    let env = Environment {
        effective_user: Err(failure()),
        signal_socket_owner: Some("pi".to_string()),
        ..environment()
    };
    assert!(Config::from_env_and_args(&arguments(), env).is_ok());
}
