//! Configuration snapshot.
//!
//! A snapshot is an immutable value: a reload replaces it wholesale, and a
//! component reads the current one at the moment it needs it.

use vstd::prelude::*;

verus! {

/// Where the telemetry broker is, and how to log in to it.
#[derive(Clone, Debug)]
pub struct MQTTSettings {
    pub host: String,
    pub port: u16,
    pub topic_name: String,
    pub username: String,
    pub password: String,
}

/// Credentials of the notification channel.
#[derive(Clone, Debug)]
pub struct TelegramSettings {
    pub token: String,
}

/// Location of the certificate authority file used for the broker link.
#[derive(Clone, Debug)]
pub struct TLSSettings {
    pub ca_cert: String,
}

/// One complete configuration snapshot.
#[derive(Clone, Debug)]
pub struct Settings {
    pub db_path: String,
    pub mqtt: MQTTSettings,
    pub telegram: TelegramSettings,
    pub tls: TLSSettings,
}

} // verus!
