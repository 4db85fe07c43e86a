//! The memory block: the share of memory in use, from `/proc/meminfo`, smoothed.
use vstd::prelude::*;
use crate::ema::{push_result, Ema, ALPHA_SCALE};
use crate::error::{is_parse_error_of, Error};
use crate::parse::{find_word_field, first_word_field, word_field_at};
use crate::text::{push_tenths, tenths};

verus! {

/// Configuration of the memory block.
pub struct Memory {
    /// Smoothing factor, in thousandths.
    pub alpha: u64,
    /// Time between two readings, in milliseconds.
    pub period: u64,
    /// Where the memory figures are read.
    pub meminfo_path: String,
}

/// Where the memory figures are read unless configured otherwise.
pub fn default_meminfo_path() -> (r: String)
    ensures
        r@ == "/proc/meminfo"@,
{
    String::from_str("/proc/meminfo")
}

/// The label shown before the share in use.
pub const MEMORY_LABEL: &'static str = "\u{f538} ";

/// The block's text for `v` tenths of a percent in use.
pub open spec fn memory_text(v: nat) -> Seq<char> {
    MEMORY_LABEL@ + tenths(v) + seq!['%']
}

/// Total and free memory, in kB.
#[derive(Clone, Copy, Debug, PartialEq, Eq, Structural)]
pub struct MemStats {
    pub total: u64,
    pub free: u64,
}

/// The bytes of `MemTotal:`.
pub open spec fn total_word() -> Seq<u8> {
    seq![77u8, 101u8, 109u8, 84u8, 111u8, 116u8, 97u8, 108u8, 58u8]
}

/// The bytes of `MemFree:`.
pub open spec fn free_word() -> Seq<u8> {
    seq![77u8, 101u8, 109u8, 70u8, 114u8, 101u8, 101u8, 58u8]
}

/// The two figures of `s`: the first `MemTotal:` line's number, and the number
/// of the first `MemFree:` line that starts after it.
pub open spec fn mem_values(s: Seq<u8>) -> Option<(nat, nat)> {
    match first_word_field(s, 0, total_word()) {
        Some(i) => {
            let (t, e) = word_field_at(s, i, total_word()).unwrap();
            match first_word_field(s, e + 1, free_word()) {
                Some(j) => Some((t, word_field_at(s, j, free_word()).unwrap().0)),
                None => None,
            }
        },
        None => None,
    }
}

/// What a read of `s` gives: both figures, if they are there and fit in a `u64`.
pub open spec fn mem_reading(s: Seq<u8>) -> Option<MemStats> {
    match mem_values(s) {
        Some((t, f)) => if t <= u64::MAX && f <= u64::MAX {
            Some(MemStats { total: t as u64, free: f as u64 })
        } else {
            None
        },
        None => None,
    }
}

/// Reads total and free memory from `/proc/meminfo`.
pub fn parse_mem_stats(b: &[u8]) -> (r: Result<MemStats, Error>)
    ensures
        match mem_reading(b@) {
            Some(st) => r == Ok::<MemStats, Error>(st),
            None => r matches Err(e) && is_parse_error_of(e, "Memory"),
        },
{
    let total_w: [u8; 9] = [77, 101, 109, 84, 111, 116, 97, 108, 58];
    let free_w: [u8; 8] = [77, 101, 109, 70, 114, 101, 101, 58];
    assert(total_w@ == total_word());
    assert(free_w@ == free_word());
    let (_, e, total) = match find_word_field(b, 0, &total_w) {
        Some(x) => x,
        None => return Err(Error::parse("Memory", "no MemTotal line found")),
    };
    if e >= b.len() {
        proof {
            crate::parse::lemma_leftmost_none(
                |j: int| word_field_at(b@, j, free_word()) is Some,
                e + 1,
                b@.len() as int,
            );
        }
        return Err(Error::parse("Memory", "no MemFree line found"));
    }
    let (_, _, free) = match find_word_field(b, e + 1, &free_w) {
        Some(x) => x,
        None => return Err(Error::parse("Memory", "no MemFree line found")),
    };
    match (total, free) {
        (Some(t), Some(f)) => Ok(MemStats { total: t, free: f }),
        _ => Err(Error::parse("Memory", "figure too large")),
    }
}

impl MemStats {
    /// The share of memory in use, in tenths of a percent, rounded down.
    /// There is none when the total is zero; more free than the total reads
    /// as none in use.
    pub open spec fn spec_percent(&self) -> Option<nat> {
        if self.total == 0 {
            None
        } else if self.free > self.total {
            Some(0)
        } else {
            Some((1000 * (self.total - self.free) / self.total as int) as nat)
        }
    }

    /// The share of memory in use, in tenths of a percent.
    pub fn percent(&self) -> (r: Option<u64>)
        ensures
            match self.spec_percent() {
                Some(v) => r == Some(v as u64) && v <= 1000,
                None => r is None,
            },
    {
        if self.total == 0 {
            return None;
        }
        if self.free > self.total {
            return Some(0);
        }
        let used = (self.total - self.free) as u128;
        let t = self.total as u128;
        proof {
            let (x, y) = (used as int, t as int);
            assert(1000 * x / y <= 1000) by (nonlinear_arith)
                requires
                    0 <= x <= y,
                    y >= 1,
            ;
        }
        Some((1000 * used / t) as u64)
    }
}

/// The running state of the memory block.
pub struct MemState {
    ema: Ema,
}

impl MemState {
    pub closed spec fn spec_ema(&self) -> Ema {
        self.ema
    }

    pub open spec fn wf(&self) -> bool {
        self.spec_ema().wf()
    }

    /// The state before the first reading.
    pub fn new(alpha: u64) -> (r: MemState)
        requires
            1 <= alpha <= ALPHA_SCALE,
        ensures
            r.wf(),
            r.spec_ema().spec_current() is None,
            r.spec_ema().spec_alpha() == alpha,
    {
        MemState { ema: Ema::new(alpha) }
    }

    /// Takes one reading of `/proc/meminfo` and returns the text to show, or
    /// an error for this tick.
    pub fn on_read(&mut self, contents: &[u8]) -> (r: Result<String, Error>)
        requires
            old(self).wf(),
        ensures
            final(self).wf(),
            final(self).spec_ema().spec_alpha() == old(self).spec_ema().spec_alpha(),
            match mem_reading(contents@) {
                Some(st) => match st.spec_percent() {
                    Some(v) => {
                        let x = push_result(
                            old(self).spec_ema().spec_alpha() as int,
                            old(self).spec_ema().spec_current(),
                            v as int,
                        );
                        &&& final(self).spec_ema().spec_current() == Some(x as u64)
                        &&& r matches Ok(t) && t@ == memory_text(x as nat)
                    },
                    None => r matches Err(e) && is_parse_error_of(e, "Memory")
                        && *final(self) == *old(self),
                },
                None => r matches Err(e) && is_parse_error_of(e, "Memory")
                    && *final(self) == *old(self),
            },
    {
        let stats = parse_mem_stats(contents)?;
        let v = match stats.percent() {
            Some(v) => v,
            None => return Err(Error::parse("Memory", "total memory is zero")),
        };
        let x = self.ema.push(v);
        let mut out = String::from_str(MEMORY_LABEL);
        push_tenths(&mut out, x as u128);
        proof {
            reveal_strlit("%");
        }
        out.append("%");
        assert(out@ =~= memory_text(x as nat));
        Ok(out)
    }
}

} // verus!
