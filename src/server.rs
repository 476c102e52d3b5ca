//! The gateway server's own decisions: its settings, and whether a new
//! websocket client is admitted.
use vstd::prelude::*;
use crate::numtext::{number_in, parse_number};

verus! {

/// Port the gateway listens on unless configured.
pub const DEFAULT_PORT: u16 = 7682;

/// Websocket clients served at once unless configured.
pub const MAX_WS_CLIENTS: usize = 256;

/// Address the gateway listens on unless configured.
pub const DEFAULT_LISTEN_ADDRESS: &'static str = "127.0.0.1";

/// Seconds between the server's and a session's looks at shutdown flags.
pub const SHUTDOWN_POLL_INTERVAL: u64 = 3;

/// A new client is served only while fewer than `max_clients` sessions
/// are running or waiting in the pool.
pub fn admits(active: usize, queued: usize, max_clients: usize) -> (r: bool)
    ensures
        r == (active + queued < max_clients),
{
    if active >= max_clients {
        false
    } else {
        queued < max_clients - active
    }
}

/// The gateway server's settings.
#[derive(Debug)]
pub struct ServerSettings {
    pub address: String,
    pub port: u16,
    pub max_clients: usize,
    pub max_parallel: usize,
}

/// A setting whose text is not a number in range.
#[derive(Debug, Clone, Copy, PartialEq, Eq, Structural)]
pub enum SettingsError {
    BadPort,
    BadMaxClients,
    BadMaxParallel,
}

/// The value of an optional numeric setting: `default` where unset, the
/// number where its text writes one no larger than `max`, else `None`.
pub open spec fn setting_value(text: Option<String>, max: int, default: int) -> Option<int> {
    match text {
        None => Some(default),
        Some(t) => number_in(t@, max),
    }
}

fn read_setting(text: &Option<String>, max: u64, default: u64) -> (r: Option<u64>)
    requires
        default <= max,
    ensures
        match r {
            Some(n) => setting_value(*text, max as int, default as int) == Some(n as int) && n <= max,
            None => setting_value(*text, max as int, default as int) is None,
        },
{
    match text {
        None => Some(default),
        Some(t) => parse_number(t.as_str(), max),
    }
}

impl ServerSettings {
    /// Settings from the texts of the address, port, client bound and
    /// parallel-request bound, each where given; defaults stand for the
    /// rest. The bounds of the port and the counts are those of their types.
    pub fn from_texts(
        address: Option<String>,
        port: Option<String>,
        max_clients: Option<String>,
        max_parallel: Option<String>,
        default_parallel: usize,
    ) -> (r: Result<ServerSettings, SettingsError>)
        ensures
            match r {
                Ok(cfg) => {
                    &&& cfg.address@ == match address {
                        Some(a) => a@,
                        None => DEFAULT_LISTEN_ADDRESS@,
                    }
                    &&& setting_value(port, u16::MAX as int, DEFAULT_PORT as int) == Some(cfg.port as int)
                    &&& setting_value(max_clients, usize::MAX as int, MAX_WS_CLIENTS as int) == Some(cfg.max_clients as int)
                    &&& setting_value(max_parallel, usize::MAX as int, default_parallel as int) == Some(cfg.max_parallel as int)
                },
                Err(SettingsError::BadPort) => setting_value(port, u16::MAX as int, DEFAULT_PORT as int) is None,
                Err(SettingsError::BadMaxClients) => setting_value(port, u16::MAX as int, DEFAULT_PORT as int) is Some
                    && setting_value(max_clients, usize::MAX as int, MAX_WS_CLIENTS as int) is None,
                Err(SettingsError::BadMaxParallel) => setting_value(port, u16::MAX as int, DEFAULT_PORT as int) is Some
                    && setting_value(max_clients, usize::MAX as int, MAX_WS_CLIENTS as int) is Some
                    && setting_value(max_parallel, usize::MAX as int, default_parallel as int) is None,
            },
    {
        let port = match read_setting(&port, u16::MAX as u64, DEFAULT_PORT as u64) {
            Some(n) => n as u16,
            None => return Err(SettingsError::BadPort),
        };
        let max_clients = match read_setting(&max_clients, usize::MAX as u64, MAX_WS_CLIENTS as u64) {
            Some(n) => n as usize,
            None => return Err(SettingsError::BadMaxClients),
        };
        let max_parallel = match read_setting(&max_parallel, usize::MAX as u64, default_parallel as u64) {
            Some(n) => n as usize,
            None => return Err(SettingsError::BadMaxParallel),
        };
        let address = match address {
            Some(a) => a,
            None => DEFAULT_LISTEN_ADDRESS.to_owned(),
        };
        Ok(ServerSettings { address, port, max_clients, max_parallel })
    }
}

} // verus!
