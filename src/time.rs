//! The time block's configuration; the clock is read and formatted outside.
use vstd::prelude::*;

verus! {

/// Configuration of the time block.
pub struct Time {
    /// Time between two updates, in milliseconds.
    pub period: u64,
    /// A `strftime`-style pattern for the local time.
    pub format: String,
}

/// Time between two updates of the clock unless configured otherwise, in milliseconds.
pub fn default_period() -> (r: u64)
    ensures
        r == 1000,
{
    1000
}

/// The pattern for the local time unless configured otherwise.
pub fn default_format() -> (r: String)
    ensures
        r@ == "%a %d %b <b>%H:%M:%S</b>"@,
{
    String::from_str("%a %d %b <b>%H:%M:%S</b>")
}

} // verus!
