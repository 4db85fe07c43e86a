//! The brightness block: the screen backlight in percent.
use vstd::prelude::*;
use crate::error::{is_parse_error_of, Error};
use crate::parse::{number_reading, parse_number};
use crate::text::{decimal, push_decimal};

verus! {

/// Configuration of the brightness block.
pub struct Brightness {
    /// Longest time between two readings, in milliseconds.
    pub period: u64,
    /// The signal that asks for a reading at once.
    pub update_signal: i32,
    /// The file that holds the current brightness.
    pub path_to_current_brightness: String,
    /// The brightness at its highest.
    pub max_brightness: u32,
}

/// Longest time between two brightness readings unless configured otherwise, in milliseconds.
pub fn default_period() -> (r: u64)
    ensures
        r == 2000,
{
    2000
}

pub const BRIGHTNESS_LABEL: &'static str = "\u{f042}  ";

/// The brightness in percent: the reading divided by a hundredth of the
/// highest brightness (both rounded down).
pub open spec fn brightness_percent(current: nat, max: nat) -> nat {
    current / (max / 100)
}

/// A configured highest brightness: it must be at least 100, so that a
/// hundredth of it is a whole step.
pub fn validated_max_brightness(max: u32) -> (r: Result<u32, Error>)
    ensures
        max >= 100 ==> r == Ok::<u32, Error>(max),
        max < 100 ==> (r matches Err(Error::Deserialize { name: n, .. }) && n == "Brightness"),
{
    if max >= 100 {
        Ok(max)
    } else {
        Err(Error::Deserialize {
            name: "Brightness",
            reason: String::from_str("max_brightness must be at least 100"),
        })
    }
}

/// The block's text for a brightness in percent.
pub open spec fn brightness_text(percent: nat) -> Seq<char> {
    BRIGHTNESS_LABEL@ + decimal(percent) + seq!['%']
}

impl Brightness {
    /// Takes one reading of the brightness file and returns the text to show,
    /// or an error for this tick.
    pub fn on_read(&self, contents: &str) -> (r: Result<String, Error>)
        requires
            self.max_brightness >= 100,
        ensures
            match number_reading(contents@) {
                Some(v) => r matches Ok(t) && t@ == brightness_text(
                    brightness_percent(v as nat, self.max_brightness as nat),
                ),
                None => r matches Err(e) && is_parse_error_of(e, "Brightness"),
            },
    {
        let current = parse_number("Brightness", contents)?;
        let step = self.max_brightness / 100;
        let percent = current / step as u64;
        let mut out = String::from_str(BRIGHTNESS_LABEL);
        push_decimal(&mut out, percent as u128);
        proof {
            reveal_strlit("%");
        }
        out.append("%");
        assert(out@ =~= brightness_text(percent as nat));
        Ok(out)
    }
}

} // verus!
