//! How many listener workers the server starts.
use vstd::prelude::*;

use crate::api::{positive_int, positive_int_spec};

verus! {

/// The default number of listener workers: the parallelism the machine
/// reports (1 when it reports none), kept between 1 and 8.
pub open spec fn default_listener_count_spec(available: Option<usize>) -> usize {
    let n = match available {
        Some(n) => n,
        None => 1,
    };
    if n < 1 {
        1
    } else if n > 8 {
        8
    } else {
        n
    }
}

/// The default number of listener workers, from the machine's available
/// parallelism.
pub fn default_listener_count(available: Option<usize>) -> (r: usize)
    ensures
        r == default_listener_count_spec(available),
        1 <= r <= 8,
{
    let n = match available {
        Some(n) => n,
        None => 1,
    };
    if n < 1 {
        1
    } else if n > 8 {
        8
    } else {
        n
    }
}

/// The number of listener workers: the configured value when it is a
/// positive integer, else the default for the machine.
pub fn listener_count(configured: Option<&str>, available: Option<usize>) -> (r: usize)
    ensures
        r == positive_int_spec(configured, default_listener_count_spec(available)),
        r >= 1,
{
    let fallback = default_listener_count(available);
    positive_int(configured, fallback)
}

} // verus!
