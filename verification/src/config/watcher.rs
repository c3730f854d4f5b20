//! Settings of the file-system watcher.

use vstd::prelude::*;

verus! {

/// How the file-system watcher is set up.
#[derive(Clone, Copy, Debug, PartialEq, Eq, Structural)]
pub struct WatcherConfig {
    /// The timeout of the watcher in seconds.
    pub timeout: u64,
}

impl Default for WatcherConfig {
    /// A timeout of 3 seconds.
    fn default() -> (c: WatcherConfig)
        ensures
            c == (WatcherConfig { timeout: 3 }),
    {
        WatcherConfig { timeout: 3 }
    }
}

impl WatcherConfig {
    /// The timeout in milliseconds, as the debouncers count; the largest
    /// number of milliseconds there is where the timeout is longer than
    /// that.
    pub fn timeout_ms(&self) -> (ms: u64)
        ensures
            ms == if self.timeout * 1000 > u64::MAX {
                u64::MAX as int
            } else {
                self.timeout * 1000
            },
    {
        match self.timeout.checked_mul(1000) {
            Some(ms) => ms,
            None => u64::MAX,
        }
    }

    /// How long a watch may stay silent before it is given up, in
    /// milliseconds: ten times the timeout, and the largest number of
    /// milliseconds there is where that is more.
    pub fn patience_ms(&self) -> (ms: u64)
        ensures
            ms == if self.timeout * 10_000 > u64::MAX {
                u64::MAX as int
            } else {
                self.timeout * 10_000
            },
    {
        match self.timeout.checked_mul(10_000) {
            Some(ms) => ms,
            None => u64::MAX,
        }
    }
}

} // verus!
