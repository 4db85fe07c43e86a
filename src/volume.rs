//! The volume block: mute state and level, from the mixer command's output.
use vstd::prelude::*;
use crate::error::{is_parse_error_of, Error};
use crate::parse::{is_digit, leftmost, number_at};
use crate::text::{decimal, push_decimal};

verus! {

/// Configuration of the volume block.
pub struct Volume {
    /// Longest time between two readings, in milliseconds.
    pub period: u64,
    /// The signal that asks for a reading at once.
    pub update_signal: i32,
}

/// Longest time between two volume readings unless configured otherwise, in milliseconds.
pub fn default_period() -> (r: u64)
    ensures
        r == 2000,
{
    2000
}

/// The mixer command that reports mute state and volume.
pub const AUDIO_DRIVER_COMMAND: &'static str = "pulsemixer";

/// What the block shows when the sound is muted.
pub const MUTED_TEXT: &'static str = "\u{f026}";

/// The label shown before the volume.
pub const VOLUME_LABEL: &'static str = "\u{f028}   ";

/// The mixer's answer: a mute flag (`1` for muted) and the volume in percent.
#[derive(Clone, Copy, Debug, PartialEq, Eq, Structural)]
pub struct VolumeStats {
    pub mute: u8,
    pub level: u8,
}

/// What the block shows: muted, or a volume.
#[derive(Clone, Copy, Debug, PartialEq, Eq, Structural)]
pub enum VolumeLevel {
    Mute,
    Value(u8),
}

/// One digit, a line feed, then a number, at `i`: the digit and the number.
pub open spec fn volume_at(s: Seq<u8>, i: int) -> Option<(nat, nat)> {
    if 0 <= i && i + 2 < s.len() && is_digit(s[i]) && s[i + 1] == 10 && is_digit(s[i + 2]) {
        Some(((s[i] - 48) as nat, number_at(s, i + 2).unwrap().0))
    } else {
        None
    }
}

/// What a read of `s` gives: the first digit-line feed-number in it, if the
/// number fits in a `u8`.
pub open spec fn volume_reading(s: Seq<u8>) -> Option<VolumeStats> {
    match leftmost(|i: int| volume_at(s, i) is Some, 0, s.len() as int) {
        Some(i) => {
            let (m, l) = volume_at(s, i).unwrap();
            if l <= 255 {
                Some(VolumeStats { mute: m as u8, level: l as u8 })
            } else {
                None
            }
        },
        None => None,
    }
}

/// Reads the mixer's two-line answer.
pub fn parse_volume(b: &[u8]) -> (r: Result<VolumeStats, Error>)
    ensures
        match volume_reading(b@) {
            Some(st) => r == Ok::<VolumeStats, Error>(st),
            None => r matches Err(e) && is_parse_error_of(e, "Volume"),
        },
{
    let ghost p = |i: int| volume_at(b@, i) is Some;
    let mut i: usize = 0;
    while i < b.len()
        invariant
            i <= b@.len(),
            p == (|i: int| volume_at(b@, i) is Some),
            forall|j: int| 0 <= j < i ==> !#[trigger] p(j),
        decreases b@.len() - i,
    {
        if b.len() - i > 2 && b[i] >= 48 && b[i] <= 57 && b[i + 1] == 10 && b[i + 2] >= 48
            && b[i + 2] <= 57 {
            proof {
                crate::parse::lemma_leftmost_found(p, 0, b@.len() as int, i as int);
            }
            let (_, level) = crate::parse::read_digits(b, i + 2);
            return match level {
                Some(l) if l <= 255 => Ok(VolumeStats { mute: b[i] - 48, level: l as u8 }),
                _ => Err(Error::parse("Volume", "volume out of range")),
            };
        }
        i = i + 1;
    }
    proof {
        crate::parse::lemma_leftmost_none(p, 0, b@.len() as int);
    }
    Err(Error::parse("Volume", "expected a mute flag and a volume"))
}

impl VolumeStats {
    /// Muted when the flag is `1`, else the volume.
    pub open spec fn spec_reading(&self) -> VolumeLevel {
        if self.mute == 1 {
            VolumeLevel::Mute
        } else {
            VolumeLevel::Value(self.level)
        }
    }

    /// The block's text: the muted sign alone, or the volume sign and the percentage.
    pub open spec fn spec_text(&self) -> Seq<char> {
        if self.mute == 1 {
            MUTED_TEXT@
        } else {
            VOLUME_LABEL@ + decimal(self.level as nat) + seq!['%']
        }
    }

    pub fn reading(&self) -> (r: VolumeLevel)
        ensures
            r == self.spec_reading(),
    {
        if self.mute == 1 {
            VolumeLevel::Mute
        } else {
            VolumeLevel::Value(self.level)
        }
    }

    pub fn text(&self) -> (r: String)
        ensures
            r@ == self.spec_text(),
    {
        if self.mute == 1 {
            String::from_str(MUTED_TEXT)
        } else {
            let mut out = String::from_str(VOLUME_LABEL);
            push_decimal(&mut out, self.level as u128);
            proof {
                reveal_strlit("%");
            }
            out.append("%");
            assert(out@ =~= self.spec_text());
            out
        }
    }
}

/// The mixer's answer, read as muted or a volume.
pub fn parse_volume_level(b: &[u8]) -> (r: Result<VolumeLevel, Error>)
    ensures
        match volume_reading(b@) {
            Some(st) => r == Ok::<VolumeLevel, Error>(st.spec_reading()),
            None => r matches Err(e) && is_parse_error_of(e, "Volume"),
        },
{
    let st = parse_volume(b)?;
    Ok(st.reading())
}

/// The text for one run of the mixer command, given whether it exited
/// successfully and what it printed.
pub fn volume_on_output(success: bool, stdout: &[u8]) -> (r: Result<String, Error>)
    ensures
        !success ==> (r matches Err(e) && is_parse_error_of(e, "Volume")),
        success ==> match volume_reading(stdout@) {
            Some(st) => r matches Ok(t) && t@ == st.spec_text(),
            None => r matches Err(e) && is_parse_error_of(e, "Volume"),
        },
{
    if !success {
        return Err(Error::parse("Volume", "the mixer command failed"));
    }
    let st = parse_volume(stdout)?;
    Ok(st.text())
}

} // verus!
