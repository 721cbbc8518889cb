use vstd::prelude::*;

verus! {

/// Whether a control-plane service runs, and where it listens.
#[derive(Debug)]
pub struct ServiceConfig {
    pub enabled: bool,
    pub address: String,
}

/// The gateway's configuration: where devices connect, the control-plane
/// service, the heartbeat interval and the registration deadline (both in
/// seconds), and the directory that holds the device logs.
#[derive(Debug)]
pub struct Settings {
    pub address: String,
    pub rest: ServiceConfig,
    pub heartbeat_sec: u64,
    pub output_dir: String,
    pub verify_timeout: u64,
}

/// `secs` seconds in milliseconds, or `u64::MAX` where that does not fit.
pub open spec fn millis(secs: u64) -> u64 {
    if secs * 1000 <= u64::MAX {
        (secs * 1000) as u64
    } else {
        u64::MAX
    }
}

fn to_millis(secs: u64) -> (r: u64)
    ensures
        r == millis(secs),
{
    match secs.checked_mul(1000) {
        Some(ms) => ms,
        None => u64::MAX,
    }
}

impl Settings {
    /// The heartbeat interval in milliseconds (zero: no limit).
    pub fn heartbeat_ms(&self) -> (r: u64)
        ensures
            r == millis(self.heartbeat_sec),
    {
        to_millis(self.heartbeat_sec)
    }

    /// The registration deadline in milliseconds.
    pub fn verify_ms(&self) -> (r: u64)
        ensures
            r == millis(self.verify_timeout),
    {
        to_millis(self.verify_timeout)
    }
}

} // verus!
