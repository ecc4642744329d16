//! When a run looks at a domain, and where it finds its settings.

use vstd::prelude::*;

verus! {

/// How many days before its expiry a domain comes up for renewal.
pub const RENEWAL_WINDOW_DAYS: i64 = 30;

/// The number of seconds in a day.
pub const SECONDS_PER_DAY: i64 = 86_400;

/// The name of the settings file that is read where none is named.
pub open spec fn default_config_path() -> Seq<char> {
    "config.toml"@
}

/// The expiry below which a domain comes up for renewal at the time `now`,
/// both in seconds: [`RENEWAL_WINDOW_DAYS`] days from now. `None` where that
/// moment lies beyond what a timestamp holds.
pub fn expiry_cutoff(now: i64) -> (r: Option<i64>)
    ensures
        match r {
            Some(cutoff) => cutoff == now + RENEWAL_WINDOW_DAYS * SECONDS_PER_DAY,
            None => now + RENEWAL_WINDOW_DAYS * SECONDS_PER_DAY > i64::MAX,
        },
{
    now.checked_add(RENEWAL_WINDOW_DAYS * SECONDS_PER_DAY)
}

/// The path of the settings file for a program started with `arguments`, the
/// program's own name first: the first argument behind the name, or
/// `config.toml` where there is none.
pub fn config_path(arguments: &Vec<String>) -> (r: String)
    ensures
        r@ == if arguments@.len() <= 1 {
            default_config_path()
        } else {
            arguments@[1]@
        },
{
    if arguments.len() <= 1 {
        "config.toml".to_owned()
    } else {
        arguments[1].clone()
    }
}

} // verus!
