//! Keep-alive daemon settings.
//!
//! The daemon itself (HTTP, timers, signals) runs outside the library; this
//! module holds its configuration and the scheduling decisions derived from
//! it.

use vstd::prelude::*;

verus! {

/// Default polling interval in seconds: one hour.
pub const DEFAULT_POLL_INTERVAL: u64 = 3600;

/// Intervals below this many seconds draw a warning: ten minutes.
pub const MIN_SANE_POLL_INTERVAL: u64 = 600;

/// Configuration of the keep-alive daemon, as read from a config file.
#[derive(Debug)]
pub struct SrunDaemon {
    pub username: String,
    pub password: String,
    pub dm: bool,
    pub poll_interval: Option<u64>,
}

impl SrunDaemon {
    /// Bundle already-parsed configuration fields.
    pub fn new(username: String, password: String, dm: bool, poll_interval: Option<u64>) -> (daemon:
        SrunDaemon)
        ensures
            daemon.username@ == username@,
            daemon.password@ == password@,
            daemon.dm == dm,
            daemon.poll_interval == poll_interval,
    {
        SrunDaemon { username, password, dm, poll_interval }
    }

    /// The polling interval to run with: the configured one, or the default.
    pub fn effective_poll_interval(&self) -> (secs: u64)
        ensures
            secs == match self.poll_interval {
                Some(configured) => configured,
                None => DEFAULT_POLL_INTERVAL,
            },
    {
        match self.poll_interval {
            Some(configured) => configured,
            None => DEFAULT_POLL_INTERVAL,
        }
    }

    /// Whether the effective interval is short enough to deserve a warning.
    pub fn poll_interval_too_short(&self) -> (short: bool)
        ensures
            short == (match self.poll_interval {
                Some(configured) => configured,
                None => DEFAULT_POLL_INTERVAL,
            } < MIN_SANE_POLL_INTERVAL),
    {
        self.effective_poll_interval() < MIN_SANE_POLL_INTERVAL
    }
}

} // verus!
