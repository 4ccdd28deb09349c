//! Application configuration: resolving the values read from a settings
//! source against the documented defaults. Reading the settings file itself
//! is I/O and stays outside the library.

use vstd::prelude::*;
use vstd::string::StringExecFns;

verus! {

/// The application configuration the bridge runs with.
pub struct AppConfig {
    /// The name of the serial port.
    pub port_name: String,
    /// The baud rate for the serial port.
    pub baud_rate: i64,
    /// Whether the device is asked for the 10 Hz sample rate.
    pub set_gps_to_10hz: bool,
    /// The message-bus broker host address.
    pub mqtt_host: String,
    /// The message-bus broker port number.
    pub mqtt_port: i64,
    /// The base topic under which data is published.
    pub mqtt_base_topic: String,
    /// The path the settings were loaded from, when one was given.
    pub config_path: Option<String>,
}

/// The raw values a settings source yielded; absent ones get defaults.
pub struct ConfigSettings {
    pub port_name: Option<String>,
    pub baud_rate: Option<i64>,
    pub set_gps_to_10hz: Option<bool>,
    pub mqtt_host: Option<String>,
    pub mqtt_port: Option<i64>,
    pub mqtt_base_topic: Option<String>,
}

/// Resolves the settings a source yielded into the configuration: every
/// absent value falls back to its documented default.
pub fn load_configuration(settings: ConfigSettings, config_path: Option<&str>) -> (r: AppConfig)
    ensures
        r.port_name@ == match settings.port_name {
            Some(v) => v@,
            None => "default_port"@,
        },
        r.baud_rate == match settings.baud_rate {
            Some(v) => v,
            None => 9600,
        },
        r.set_gps_to_10hz == match settings.set_gps_to_10hz {
            Some(v) => v,
            None => false,
        },
        r.mqtt_host@ == match settings.mqtt_host {
            Some(v) => v@,
            None => "default_host"@,
        },
        r.mqtt_port == match settings.mqtt_port {
            Some(v) => v,
            None => 1883,
        },
        r.mqtt_base_topic@ == match settings.mqtt_base_topic {
            Some(v) => v@,
            None => "default_topic"@,
        },
        match (r.config_path, config_path) {
            (Some(p), Some(q)) => p@ == q@,
            (None, None) => true,
            _ => false,
        },
{
    AppConfig {
        port_name: match settings.port_name {
            Some(v) => v,
            None => String::from_str("default_port"),
        },
        baud_rate: match settings.baud_rate {
            Some(v) => v,
            None => 9600,
        },
        set_gps_to_10hz: match settings.set_gps_to_10hz {
            Some(v) => v,
            None => false,
        },
        mqtt_host: match settings.mqtt_host {
            Some(v) => v,
            None => String::from_str("default_host"),
        },
        mqtt_port: match settings.mqtt_port {
            Some(v) => v,
            None => 1883,
        },
        mqtt_base_topic: match settings.mqtt_base_topic {
            Some(v) => v,
            None => String::from_str("default_topic"),
        },
        config_path: match config_path {
            Some(p) => Some(String::from_str(p)),
            None => None,
        },
    }
}

} // verus!
