use vstd::prelude::*;

pub mod dates;
pub mod importer;
pub mod menu_bar;
pub mod models;
pub mod pricing;
pub mod rate_limits;
pub mod session_log;
pub mod scheduler;
pub mod settings;
pub mod sources;
pub mod ssh_config;
pub mod subscriptions;
pub mod text;
pub mod timestamps;

verus! {

/// Encodes a flag the way the settings tables store it.
pub fn bool_to_i64(value: bool) -> (r: i64)
    ensures
        r == (if value { 1i64 } else { 0i64 }),
{
    if value {
        1
    } else {
        0
    }
}

/// Reads a flag the way the settings tables store it: any non-zero value is
/// set.
pub fn i64_to_bool(value: i64) -> (r: bool)
    ensures
        r == (value != 0),
{
    value != 0
}

/// A flag written and read back is the same flag.
pub proof fn law_flag_round_trip(value: bool)
    ensures
        (if value {
            1i64
        } else {
            0i64
        }) != 0 == value,
{
}

} // verus!
