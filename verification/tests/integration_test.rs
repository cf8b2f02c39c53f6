//! Tests of configuration, payload texts and error texts.

use chrono::{TimeZone, Utc};
use e3dc_mqtt_rs::config::{Config, DefaultConfig, E3dcConfig, LogLevel, MqttConfig};
use e3dc_mqtt_rs::errors::{E3dcError, MqttError};
use e3dc_mqtt_rs::float::Float64;
use e3dc_mqtt_rs::mqtt::context::{MqttPayload, Payload};
use e3dc_mqtt_rs::time::{TimeSpan, Timestamp};
use std::time::Duration;

fn number(value: f64) -> Float64 {
    Float64::from_bits(value.to_bits())
}

fn numbers(values: Vec<f64>) -> Vec<Float64> {
    values.into_iter().map(number).collect()
}

#[test]
fn test_default_values() {
    let default = DefaultConfig::default();
    assert_eq!(default.log_level, LogLevel::Info);
}

#[test]
fn test_mqtt_config_debug_redacts_password() {
    let config = MqttConfig {
        root: "e3dc".to_string(),
        host: Some("mqtt.example.com".to_string()),
        port: 1883,
        socket: None,
        username: "test-user".to_string(),
        password: "secret-password".to_string(),
    };

    let debug_output = format!("{:?}", config.debug_string());

    // Password should be redacted
    assert!(!debug_output.contains("secret-password"));
    assert!(debug_output.contains("***REDACTED***"));

    // Username should still be visible
    assert!(debug_output.contains("test-user"));
}

#[test]
fn test_e3dc_config_debug_redacts_credentials() {
    let config = E3dcConfig {
        host: "192.168.1.100".to_string(),
        username: "user@example.com".to_string(),
        password: "secret-password".to_string(),
        key: "secret-key".to_string(),
        interval: Duration::from_secs(5),
        statistic_update_interval: Duration::from_secs(60),
    };

    let debug_output = format!("{:?}", config.debug_string());

    // Sensitive fields should be redacted
    assert!(!debug_output.contains("secret-password"));
    assert!(!debug_output.contains("secret-key"));
    assert!(debug_output.contains("***REDACTED***"));

    // Host and username should still be visible
    assert!(debug_output.contains("192.168.1.100"));
    assert!(debug_output.contains("user@example.com"));
}

#[test]
fn test_mqtt_payload_f64() {
    let value = number(42.5_f64);
    assert_eq!(value.to_payload(), "42.5");

    let value = number(0.0_f64);
    assert_eq!(value.to_payload(), "0");

    let value = number(-123.456_f64);
    assert_eq!(value.to_payload(), "-123.456");
}

#[test]
fn test_mqtt_payload_u64() {
    let value = 12345_u64;
    assert_eq!(value.to_payload(), "12345");

    let value = 0_u64;
    assert_eq!(value.to_payload(), "0");
}

#[test]
fn test_mqtt_payload_bool() {
    let value = true;
    assert_eq!(value.to_payload(), "true");

    let value = false;
    assert_eq!(value.to_payload(), "false");
}

#[test]
fn test_mqtt_payload_string() {
    let value = "test".to_string();
    assert_eq!(value.to_payload(), "test");

    let value = "".to_string();
    assert_eq!(value.to_payload(), "");
}

#[test]
fn test_mqtt_payload_vec_f64() {
    let values = numbers(vec![1.0, 2.5, 3.14]);
    assert_eq!(values.to_payload(), "[1,2.5,3.14]");

    let empty: Vec<Float64> = vec![];
    assert_eq!(empty.to_payload(), "[]");

    let single = numbers(vec![42.0]);
    assert_eq!(single.to_payload(), "[42]");
}

#[test]
fn test_mqtt_payload_datetime() {
    let dt = Utc.with_ymd_and_hms(2024, 1, 15, 12, 30, 45).unwrap();
    let instant = Timestamp { secs: dt.timestamp(), nanos: dt.timestamp_subsec_nanos() };
    let payload = Payload::Instant(instant).render().unwrap();

    // Should be RFC3339 format
    assert!(payload.starts_with("2024-01-15T12:30:45"));
    assert!(payload.contains("Z") || payload.contains("+") || payload.contains("-"));
}

#[test]
fn test_e3dc_error_display() {
    let error = E3dcError::MissingTag(0x12345678);
    let error_string = format!("{}", error.to_string());
    assert!(error_string.contains("Missing tag"));
    assert!(error_string.contains("305419896") || error_string.contains("0x12345678"));
}

#[test]
fn test_e3dc_error_missing_data() {
    let error = E3dcError::MissingData(42);
    let error_string = format!("{}", error.to_string());
    assert!(error_string.contains("Missing data"));
    assert!(error_string.contains("42"));
}

#[test]
fn test_e3dc_error_type_conversion() {
    let error = E3dcError::Type("Invalid type".to_string());
    let error_string = format!("{}", error.to_string());
    assert!(error_string.contains("Invalid"));
    assert!(error_string.contains("type"));
}

#[test]
fn test_mqtt_error_publish_failed() {
    let error = MqttError::PublishFailed {
        topic: "test/topic".to_string(),
        reason: "Connection lost".to_string(),
    };
    let error_string = format!("{}", error.to_string());
    assert!(error_string.contains("test/topic"));
    assert!(error_string.contains("Connection lost"));
}

#[test]
fn test_config_mqtt_socket_priority() {
    // When both socket and host are provided, socket should take precedence
    let config = MqttConfig {
        root: "e3dc".to_string(),
        host: Some("mqtt.example.com".to_string()),
        port: 1883,
        socket: Some("/var/run/mqtt.sock".to_string()),
        username: "test".to_string(),
        password: "test".to_string(),
    };

    // Both should be valid
    assert!(config.socket.is_some());
    assert!(config.host.is_some());
}

#[test]
fn test_duration_formats() {
    let duration = Duration::from_secs(60);
    assert_eq!(duration.as_secs(), 60);

    let duration = Duration::from_millis(5000);
    assert_eq!(duration.as_secs(), 5);
}

#[test]
fn test_mqtt_payload_special_floats() {
    // Test infinity and NaN handling
    let inf = number(f64::INFINITY);
    let payload = inf.to_payload();
    assert!(payload == "inf" || payload.contains("inf"));

    let neg_inf = number(f64::NEG_INFINITY);
    let payload = neg_inf.to_payload();
    assert!(payload == "-inf" || payload.contains("inf"));

    let nan = number(f64::NAN);
    let payload = nan.to_payload();
    assert!(payload == "NaN" || payload.contains("NaN"));
}

#[test]
fn test_mqtt_payload_vec_with_special_values() {
    let values = numbers(vec![0.0, f64::INFINITY, -42.5, f64::NAN]);
    let payload = values.to_payload();
    assert_eq!(payload, "[0,inf,-42.5,NaN]");

    // Should contain all values in some form
    assert!(payload.starts_with("["));
    assert!(payload.ends_with("]"));
    assert!(payload.contains(","));
}

#[test]
fn test_config_empty_strings() {
    // Test that empty username/password are handled
    let config = MqttConfig {
        root: "".to_string(), // Empty root should be allowed
        host: Some("mqtt.example.com".to_string()),
        port: 1883,
        socket: None,
        username: "".to_string(),
        password: "".to_string(),
    };

    // Empty strings are valid (though not useful)
    assert_eq!(config.username, "");
    assert_eq!(config.password, "");
}

#[test]
fn test_config_port_ranges() {
    // Test various port numbers
    let config = MqttConfig {
        root: "e3dc".to_string(),
        host: Some("mqtt.example.com".to_string()),
        port: 1, // Minimum valid port
        socket: None,
        username: "test".to_string(),
        password: "test".to_string(),
    };
    assert_eq!(config.port, 1);

    let config = MqttConfig {
        root: "e3dc".to_string(),
        host: Some("mqtt.example.com".to_string()),
        port: 65535, // Maximum valid port
        socket: None,
        username: "test".to_string(),
        password: "test".to_string(),
    };
    assert_eq!(config.port, 65535);

    let config = MqttConfig {
        root: "e3dc".to_string(),
        host: Some("mqtt.example.com".to_string()),
        port: 8883, // Common TLS port
        socket: None,
        username: "test".to_string(),
        password: "test".to_string(),
    };
    assert_eq!(config.port, 8883);
}

fn config_with(host: Option<&str>, socket: Option<&str>) -> Config {
    Config {
        default: DefaultConfig::default(),
        e3dc: E3dcConfig {
            host: "192.168.1.100".to_string(),
            username: "user@example.com".to_string(),
            password: "pw".to_string(),
            key: "key".to_string(),
            interval: e3dc_mqtt_rs::config::default_interval(),
            statistic_update_interval: e3dc_mqtt_rs::config::default_statistic_interval(),
        },
        mqtt: MqttConfig {
            root: e3dc_mqtt_rs::config::default_mqtt_root(),
            host: host.map(|h| h.to_string()),
            port: e3dc_mqtt_rs::config::default_mqtt_port(),
            socket: socket.map(|s| s.to_string()),
            username: "u".to_string(),
            password: "p".to_string(),
        },
    }
}

#[test]
fn defaults_are_five_seconds_five_minutes_and_the_standard_port() {
    let config = config_with(Some("broker"), None);
    assert_eq!(config.e3dc.interval, Duration::from_secs(5));
    assert_eq!(config.e3dc.statistic_update_interval, Duration::from_secs(300));
    assert_eq!(config.mqtt.root, "e3dc");
    assert_eq!(config.mqtt.port, 1883);
}

#[test]
fn validation_asks_for_a_socket_or_a_named_host() {
    assert!(config_with(Some("broker"), None).validate().is_ok());
    assert!(config_with(None, Some("/run/mqtt.sock")).validate().is_ok());
    assert!(config_with(Some(""), Some("/run/mqtt.sock")).validate().is_ok());
    let unnamed = config_with(Some(""), None).validate().unwrap_err();
    assert_eq!(
        unnamed.to_string(),
        "Configuration validation failed: mqtt.host must not be empty"
    );
    assert!(config_with(None, None).validate().is_err());
}

#[test]
fn log_levels_have_a_filter_name_and_a_label() {
    assert_eq!(LogLevel::Trace.as_str(), "trace");
    assert_eq!(LogLevel::Debug.as_str(), "debug");
    assert_eq!(LogLevel::Info.as_str(), "info");
    assert_eq!(LogLevel::Warn.as_str(), "warn");
    assert_eq!(LogLevel::Error.as_str(), "error");
    assert_eq!(LogLevel::Warn.to_string(), "WARN");
    assert_eq!(LogLevel::default(), LogLevel::Info);
}

#[test]
fn descriptions_show_everything_but_the_secrets() {
    let config = config_with(Some("broker"), None);
    assert_eq!(
        config.mqtt.debug_string(),
        "MqttConfig { host: Some(\"broker\"), port: 1883, socket: None, username: \"u\", \
         password: \"***REDACTED***\", root: \"e3dc\" }"
    );
    assert_eq!(
        config.e3dc.debug_string(),
        "E3dcConfig { host: \"192.168.1.100\", username: \"user@example.com\", \
         password: \"***REDACTED***\", key: \"***REDACTED***\", interval: 5s, \
         statistic_update_interval: 300s }"
    );
    let odd = E3dcConfig { interval: Duration::new(1, 500_000_000), ..config.e3dc.clone() };
    assert!(odd.debug_string().contains("interval: 1.5s"));
}

#[test]
fn payloads_are_written_by_their_kind() {
    assert_eq!(Payload::Flag(true).render().unwrap(), "true");
    assert_eq!(Payload::Count(86_400).render().unwrap(), "86400");
    assert_eq!(Payload::Text("S10E".to_string()).render().unwrap(), "S10E");
    assert_eq!(Payload::Number(number(93.3)).render().unwrap(), "93.3");
    assert_eq!(Payload::Numbers(numbers(vec![3.5, 3.26])).render().unwrap(), "[3.5,3.26]");
    let instant = Timestamp { secs: 1_705_321_845, nanos: 0 };
    assert_eq!(Payload::Instant(instant).render().unwrap(), "2024-01-15T12:30:45+00:00");
    assert_eq!(Payload::Span(TimeSpan { secs: 3_600 }).render().unwrap(), "PT3600S");
    assert_eq!(Payload::Span(TimeSpan { secs: i64::MAX }).render(), None);
    assert_eq!(Payload::Instant(Timestamp { secs: i64::MAX, nanos: 0 }).render(), None);
    assert!(Payload::Number(number(0.0)).same(&Payload::Number(number(-0.0))));
    assert!(!Payload::Number(number(1.0)).same(&Payload::Count(1)));
}

#[test]
fn every_error_has_its_text() {
    let connect = E3dcError::ConnectionFailed { host: "10.0.0.2".to_string(), reason: "refused".to_string() };
    assert_eq!(connect.to_string(), "Failed to connect to E3DC at 10.0.0.2: refused");
    assert_eq!(E3dcError::QueryFailed("x".to_string()).to_string(), "Failed to query E3DC data: x");
    assert_eq!(E3dcError::ParseError("y".to_string()).to_string(), "Failed to parse E3DC response: y");
    assert_eq!(E3dcError::MissingTag(0).to_string(), "Missing tag: 0");
    assert_eq!(E3dcError::MissingTag(u32::MAX).to_string(), "Missing tag: 4294967295");
    assert_eq!(E3dcError::MissingData(1010).to_string(), "Missing data in tag: 1010");
    assert_eq!(E3dcError::Type("u64".to_string()).to_string(), "Invalid Datatype expected: u64");
    let foreign = E3dcError::from(anyhow::Error::msg("device went away"));
    assert!(matches!(foreign, E3dcError::Other(_)));
    assert_eq!(foreign.to_string(), "device went away");
    assert_eq!(MqttError::ClientError("no".to_string()).to_string(), "MQTT client error: no");
    assert_eq!(
        MqttError::PublishFailed { topic: "a/b".to_string(), reason: "full".to_string() }.to_string(),
        "Failed to publish message to topic 'a/b': full"
    );
    let broken = serde_json::from_str::<serde_json::Value>("{").unwrap_err();
    let text = MqttError::SerializationError { error: broken }.to_string();
    assert!(text.starts_with("Failed to serialize data: "));
    assert!(text.len() > "Failed to serialize data: ".len());
}
