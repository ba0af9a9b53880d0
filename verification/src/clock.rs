//! The Unix time handed to the Lua VM for `os.time`/`os.date`.
//!
//! Reading the clock is left to the host: `SystemTime::now` panics on
//! `wasm32-unknown-unknown`, where the host hands the VM a tick counter instead. This module
//! turns a clock reading into the time the VM sees.

use vstd::prelude::*;

verus! {

/// The Unix time given to the VM: the whole seconds since the epoch (cast to `i64` as
/// `as` does), or 0 when the clock reads earlier than the epoch.
pub open spec fn unix_seconds(elapsed: Option<u64>) -> i64 {
    match elapsed {
        Some(secs) => secs as i64,
        None => 0,
    }
}

/// `os.time`/`os.date` source for the VM, which provides none by itself: given the whole
/// seconds the system clock reads past the Unix epoch (`None` when it reads before the
/// epoch), the time the VM sees.
pub fn host_unix_time(elapsed: Option<u64>) -> (t: i64)
    ensures
        t == unix_seconds(elapsed),
        elapsed matches Some(secs) ==> (secs <= i64::MAX ==> t == secs),
        elapsed is None ==> t == 0,
        elapsed matches Some(secs) ==> t == secs as i64,
{
    match elapsed {
        Some(secs) => secs as i64,
        None => 0,
    }
}

} // verus!
