//! The startup configuration.

use signal_call_tunnel::config::{AudioMode, Config};
use std::path::PathBuf;

fn config_with_mode(mode: Option<&str>) -> Config {
    Config {
        call_id: 7,
        is_outgoing: false,
        local_device_id: 1,
        input_device_name: None,
        output_device_name: None,
        audio_mode: mode.map(str::to_string),
    }
}

#[test]
fn resolve_audio_mode_from_config_field() {
    // An explicit config field wins regardless of environment.
    for environment in [None, Some("pipe"), Some("device")] {
        assert_eq!(
            config_with_mode(Some("pipe")).resolve_audio_mode(environment),
            AudioMode::Pipe
        );
        assert_eq!(
            config_with_mode(Some("PIPE")).resolve_audio_mode(environment),
            AudioMode::Pipe
        );
        assert_eq!(
            config_with_mode(Some("device")).resolve_audio_mode(environment),
            AudioMode::Device
        );
        assert_eq!(
            config_with_mode(Some("anything-else")).resolve_audio_mode(environment),
            AudioMode::Device
        );
    }
}

#[test]
fn audio_mode_falls_back_to_the_environment() {
    let config = config_with_mode(None);
    assert_eq!(config.resolve_audio_mode(Some("Pipe")), AudioMode::Pipe);
    assert_eq!(config.resolve_audio_mode(Some("device")), AudioMode::Device);
    assert_eq!(config.resolve_audio_mode(Some("")), AudioMode::Device);
    assert_eq!(config.resolve_audio_mode(None), AudioMode::Device);
    // A dotless i is no ASCII letter.
    assert_eq!(config.resolve_audio_mode(Some("p\u{131}pe")), AudioMode::Device);
}

#[test]
fn pipe_socket_path_is_keyed_by_call_id() {
    let path = config_with_mode(Some("pipe")).pipe_socket_path(None, b"/tmp");
    let path = PathBuf::from(String::from_utf8(path).unwrap());
    assert_eq!(
        path.file_name().and_then(|n| n.to_str()),
        Some("signal-call-7.sock")
    );
}

#[test]
fn pipe_socket_path_joins_like_a_path() {
    let config = config_with_mode(None);
    for dir in ["/run/tunnel", "/run/tunnel/", "", "/", "relative", "a b"] {
        let path = String::from_utf8(config.pipe_socket_path(Some(dir.as_bytes()), b"/tmp")).unwrap();
        let joined = PathBuf::from(dir).join(config.pipe_socket_name());
        assert_eq!(path.as_str(), joined.to_str().unwrap());
    }
    assert_eq!(config.pipe_socket_path(None, b"/tmp"), b"/tmp/signal-call-7.sock".to_vec());
}

#[test]
fn socket_names_hold_the_whole_call_id() {
    let mut config = config_with_mode(None);
    config.call_id = u64::MAX;
    assert_eq!(config.pipe_socket_name(), "signal-call-18446744073709551615.sock");
    config.call_id = 0;
    assert_eq!(config.pipe_socket_name(), "signal-call-0.sock");
}

#[test]
fn device_names_default_by_platform() {
    let mut config = config_with_mode(None);
    assert_eq!(config.input_name(false), "signal_input_7");
    assert_eq!(config.output_name(false), "signal_output_7");
    assert_eq!(config.input_name(true), "signal_input");
    assert_eq!(config.output_name(true), "signal_output");
    config.input_device_name = Some("mic".to_string());
    config.output_device_name = Some("speaker".to_string());
    assert_eq!(config.input_name(false), "mic");
    assert_eq!(config.output_name(true), "speaker");
}
