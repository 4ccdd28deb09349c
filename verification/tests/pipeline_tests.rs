//! Tests of the assembler, the publish cache, the connection supervisor,
//! the configuration defaults, and the end-to-end decode path.

use gps_to_mqtt::assembler::SentenceAssembler;
use gps_to_mqtt::cache::{PublishCache, PublishDecision, PublishError};
use gps_to_mqtt::config::{load_configuration, ConfigSettings};
use gps_to_mqtt::decoder::{process_gps_data, PayloadValue};
use gps_to_mqtt::supervisor::{
    is_quit_line, step, ubx_rate_command, ConnectionEvent, ConnectionState, SupervisorAction,
};

#[test]
fn test_assembler_reassembles_split_sentence() {
    let mut assembler = SentenceAssembler::new();
    let first = assembler.feed("$GNGGA,123519,4807.038,N,01131.000");
    assert!(first.is_empty());
    let second = assembler.feed(",E,1,08,0.9,545.4,M,46.9,M,,*47");
    assert_eq!(second.len(), 1);
    assert_eq!(second[0].as_str(), "$GNGGA,123519,4807.038,N,01131.000,E,1,08,0.9,545.4,M,46.9,M,,*47");
}

#[test]
fn test_assembler_dollar_line_flushes_previous() {
    let mut assembler = SentenceAssembler::new();
    assert!(assembler.feed("$GNRMC,123519,A").is_empty());
    // The next sentence start flushes the unfinished accumulation as-is.
    let emitted = assembler.feed("$GNVTG,054.7,T,034.4,M,005.5,N,010.2,K*48");
    assert_eq!(emitted.len(), 2);
    assert_eq!(emitted[0].as_str(), "$GNRMC,123519,A");
    assert_eq!(emitted[1].as_str(), "$GNVTG,054.7,T,034.4,M,005.5,N,010.2,K*48");
}

#[test]
fn test_assembler_ignores_noise() {
    let mut assembler = SentenceAssembler::new();
    // Empty lines and lines outside an accumulation are dropped.
    assert!(assembler.feed("").is_empty());
    assert!(assembler.feed("garbage,no,sentence*00").is_empty());
    assert!(assembler.feed("$GNGGA,1").is_empty());
    assert!(assembler.feed("").is_empty());
    let emitted = assembler.feed(",2*33");
    assert_eq!(emitted.len(), 1);
    assert_eq!(emitted[0].as_str(), "$GNGGA,1,2*33");
}

#[test]
fn test_change_filter_idempotence() {
    let mut cache = PublishCache::new();

    // First publish of "5" goes out; the identical second one does not.
    assert_eq!(cache.check("t", "5", 0), Ok(PublishDecision::Publish));
    cache.record("t", "5");
    assert_eq!(cache.check("t", "5", 0), Ok(PublishDecision::Unchanged));

    // A differing value goes out again.
    assert_eq!(cache.check("t", "6", 0), Ok(PublishDecision::Publish));
    cache.record("t", "6");
    assert_eq!(cache.check("t", "6", 0), Ok(PublishDecision::Unchanged));
    assert_eq!(cache.check("t", "5", 0), Ok(PublishDecision::Publish));
}

#[test]
fn test_change_filter_is_per_topic() {
    let mut cache = PublishCache::new();
    cache.record("a", "5");
    assert_eq!(cache.check("b", "5", 0), Ok(PublishDecision::Publish));
    assert_eq!(cache.check("a", "5", 0), Ok(PublishDecision::Unchanged));
}

#[test]
fn test_change_filter_validation() {
    let cache = PublishCache::new();
    assert_eq!(cache.check("", "5", 0), Err(PublishError::EmptyInput));
    assert_eq!(cache.check("t", "", 0), Err(PublishError::EmptyInput));
    assert_eq!(cache.check("t", "5", 3), Err(PublishError::InvalidQoS));
    assert_eq!(cache.check("t", "5", -1), Err(PublishError::InvalidQoS));
    assert_eq!(cache.check("t", "5", 2), Ok(PublishDecision::Publish));
}

#[test]
fn test_reconnect_escalation() {
    let start = ConnectionState::Reconnecting { failures: 0 };
    let (s1, a1) = step(start, ConnectionEvent::OpenFailed, false);
    assert_eq!(s1, ConnectionState::Reconnecting { failures: 1 });
    assert_eq!(a1, SupervisorAction::BackoffShort);
    let (s2, a2) = step(s1, ConnectionEvent::OpenFailed, false);
    assert_eq!(s2, ConnectionState::Reconnecting { failures: 2 });
    assert_eq!(a2, SupervisorAction::BackoffShort);
    // The third consecutive failure escalates and resets the counter.
    let (s3, a3) = step(s2, ConnectionEvent::OpenFailed, false);
    assert_eq!(s3, ConnectionState::Reconnecting { failures: 0 });
    assert_eq!(a3, SupervisorAction::BackoffLong);
}

#[test]
fn test_supervisor_open_and_read_transitions() {
    // A successful open clears the failures and, when configured, asks for
    // the device-rate command.
    let (s, a) = step(
        ConnectionState::Reconnecting { failures: 2 },
        ConnectionEvent::OpenSucceeded,
        true,
    );
    assert_eq!(s, ConnectionState::Open);
    assert_eq!(a, SupervisorAction::SendRateCommand);
    let (s, a) = step(ConnectionState::Disconnected, ConnectionEvent::OpenSucceeded, false);
    assert_eq!(s, ConnectionState::Open);
    assert_eq!(a, SupervisorAction::Proceed);

    // Benign read outcomes stay open; a real failure reconnects.
    assert_eq!(
        step(ConnectionState::Open, ConnectionEvent::ReadIdle, false).1,
        SupervisorAction::PauseBriefly
    );
    assert_eq!(
        step(ConnectionState::Open, ConnectionEvent::ReadTimedOut, false).1,
        SupervisorAction::RetryNow
    );
    let (s, a) = step(ConnectionState::Open, ConnectionEvent::ReadFailed, false);
    assert_eq!(s, ConnectionState::Reconnecting { failures: 0 });
    assert_eq!(a, SupervisorAction::BackoffShort);

    // The shutdown signal stops the loop from any state.
    assert_eq!(
        step(ConnectionState::Open, ConnectionEvent::QuitRequested, false).1,
        SupervisorAction::Stop
    );
}

#[test]
fn test_quit_line() {
    assert!(is_quit_line("q"));
    assert!(!is_quit_line("quit"));
    assert!(!is_quit_line(""));
    assert!(!is_quit_line("Q"));
}

#[test]
fn test_ubx_rate_command_bytes() {
    let cmd = ubx_rate_command();
    assert_eq!(
        cmd,
        vec![0xb5, 0x62, 0x06, 0x08, 0x06, 0x00, 0x64, 0x00, 0x01, 0x00, 0x01, 0x00, 0x7a, 0x12]
    );
}

#[test]
fn test_configuration_defaults() {
    let empty = ConfigSettings {
        port_name: None,
        baud_rate: None,
        set_gps_to_10hz: None,
        mqtt_host: None,
        mqtt_port: None,
        mqtt_base_topic: None,
    };
    let config = load_configuration(empty, None);
    assert_eq!(config.port_name.as_str(), "default_port");
    assert_eq!(config.baud_rate, 9600);
    assert!(!config.set_gps_to_10hz);
    assert_eq!(config.mqtt_host.as_str(), "default_host");
    assert_eq!(config.mqtt_port, 1883);
    assert_eq!(config.mqtt_base_topic.as_str(), "default_topic");
    assert!(config.config_path.is_none());

    let given = ConfigSettings {
        port_name: Some("/dev/ttyACM0".to_string()),
        baud_rate: Some(115200),
        set_gps_to_10hz: Some(true),
        mqtt_host: Some("localhost".to_string()),
        mqtt_port: Some(1884),
        mqtt_base_topic: Some("/GOLF86/GPS/".to_string()),
    };
    let config = load_configuration(given, Some("settings.toml"));
    assert_eq!(config.port_name.as_str(), "/dev/ttyACM0");
    assert_eq!(config.baud_rate, 115200);
    assert!(config.set_gps_to_10hz);
    assert_eq!(config.mqtt_host.as_str(), "localhost");
    assert_eq!(config.mqtt_port, 1884);
    assert_eq!(config.mqtt_base_topic.as_str(), "/GOLF86/GPS/");
    assert_eq!(config.config_path.as_deref(), Some("settings.toml"));
}

#[test]
fn test_end_to_end_vtg() {
    // Raw line in, assembled sentence out, decoded into exactly three
    // publishes on the course and speed topics.
    let mut assembler = SentenceAssembler::new();
    let line = "$GNVTG,054.7,T,034.4,M,005.5,N,010.2,K*48";
    let sentences = assembler.feed(line);
    assert_eq!(sentences.len(), 1);
    let cmds = process_gps_data(sentences[0].as_str(), "/GOLF86/GPS/");
    assert_eq!(cmds.len(), 3);
    let expect = [("/GOLF86/GPS/CRS", "54.7"), ("/GOLF86/GPS/SPD_KTS", "5.5"), (
        "/GOLF86/GPS/SPD_KPH",
        "10.2",
    )];
    for (cmd, (topic, payload)) in cmds.iter().zip(expect.iter()) {
        assert_eq!(cmd.topic.as_str(), *topic);
        match &cmd.payload {
            PayloadValue::Text(s) => assert_eq!(s.as_str(), *payload),
            PayloadValue::Coord(_) => panic!("expected a text payload"),
        }
        assert_eq!(cmd.qos, 0);
    }
}
