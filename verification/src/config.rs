//! The settings the server starts with.

use vstd::prelude::*;
use crate::decimal::{parse_decimal, parse_u64};

verus! {

/// Default of the longest wait for a client intent, in milliseconds.
pub const DEFAULT_AWAIT_CLIENT_MSG_TIMEOUT_MS: u64 = 50;

/// Default of the time between two liveness probes, in milliseconds.
pub const DEFAULT_WEBSOCKETS_PINGPONG_INTERVAL_MS: u64 = 4_500;

/// The settings, fixed once at startup.
#[derive(Clone, Copy, Debug, PartialEq, Eq, Structural)]
pub struct Config {
    /// The longest the controller waits for a client intent; also the
    /// longest time between two broadcasts.
    pub await_client_msg_timeout_ms: u64,
    /// The time between two liveness probes of a connection.
    pub websockets_pingpong_interval_ms: u64,
}

/// The text of a setting, if the setting is given.
pub open spec fn text_of(raw: Option<String>) -> Option<Seq<char>> {
    match raw {
        Some(s) => Some(s@),
        None => None,
    }
}

/// The value of a setting: the number its text spells, or the default if the
/// setting is missing or its text spells no number.
pub open spec fn setting_or(raw: Option<Seq<char>>, default: u64) -> u64 {
    match raw {
        Some(text) => match parse_decimal(text) {
            Some(v) => v,
            None => default,
        },
        None => default,
    }
}

/// Works out one setting from its text.
pub fn setting(raw: &Option<String>, default: u64) -> (v: u64)
    ensures
        v == setting_or(text_of(*raw), default),
{
    match raw {
        Some(text) => match parse_u64(text.as_str()) {
            Some(v) => v,
            None => default,
        },
        None => default,
    }
}

impl Config {
    /// The settings when nothing is given.
    pub fn defaults() -> (c: Config)
        ensures
            c.await_client_msg_timeout_ms == DEFAULT_AWAIT_CLIENT_MSG_TIMEOUT_MS,
            c.websockets_pingpong_interval_ms == DEFAULT_WEBSOCKETS_PINGPONG_INTERVAL_MS,
    {
        Config {
            await_client_msg_timeout_ms: DEFAULT_AWAIT_CLIENT_MSG_TIMEOUT_MS,
            websockets_pingpong_interval_ms: DEFAULT_WEBSOCKETS_PINGPONG_INTERVAL_MS,
        }
    }
}

/// Works out the settings from the texts found in the environment. A setting
/// that is missing or spells no number takes its default; startup never
/// fails over a setting.
pub fn init_env_vars(await_client_msg_timeout_ms: &Option<String>, websockets_pingpong_interval_ms:
    &Option<String>) -> (c: Config)
    ensures
        c.await_client_msg_timeout_ms == setting_or(
            text_of(*await_client_msg_timeout_ms),
            DEFAULT_AWAIT_CLIENT_MSG_TIMEOUT_MS,
        ),
        c.websockets_pingpong_interval_ms == setting_or(
            text_of(*websockets_pingpong_interval_ms),
            DEFAULT_WEBSOCKETS_PINGPONG_INTERVAL_MS,
        ),
{
    Config {
        await_client_msg_timeout_ms: setting(
            await_client_msg_timeout_ms,
            DEFAULT_AWAIT_CLIENT_MSG_TIMEOUT_MS,
        ),
        websockets_pingpong_interval_ms: setting(
            websockets_pingpong_interval_ms,
            DEFAULT_WEBSOCKETS_PINGPONG_INTERVAL_MS,
        ),
    }
}

} // verus!
