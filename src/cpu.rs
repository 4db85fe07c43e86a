//! The CPU block: load from the counters of `/proc/stat`, smoothed.
use vstd::prelude::*;
use vstd::math::abs;
use crate::ema::{push_result, Ema, ALPHA_SCALE};
use crate::error::{is_parse_error_of, Error};
use crate::parse::{all_fit, fields_at, holds_values, leftmost, word_at, word_matches};
use crate::text::{push_tenths, tenths};

verus! {

/// Configuration of the CPU block.
pub struct Cpu {
    /// Smoothing factor, in thousandths.
    pub alpha: u64,
    /// Time between two readings, in milliseconds.
    pub period: u64,
    /// Where the counters are read.
    pub cpu_stat_path: String,
}

/// Where the CPU counters are read unless configured otherwise.
pub fn default_cpu_stat_path() -> (r: String)
    ensures
        r@ == "/proc/stat"@,
{
    String::from_str("/proc/stat")
}

/// The label shown before the load.
pub const CPU_LABEL: &'static str = "\u{f2db}  ";

/// The block's text for a load of `v` tenths of a percent.
pub open spec fn cpu_text(v: nat) -> Seq<char> {
    CPU_LABEL@ + tenths(v) + seq!['%']
}

/// The first line of `/proc/stat`: cumulative time, in ticks, that all CPUs spent in each state.
#[derive(Clone, Copy, Debug, PartialEq, Eq, Structural)]
pub struct CpuStats {
    pub user: u64,
    pub nice: u64,
    pub system: u64,
    pub idle: u64,
    pub iowait: u64,
    pub irq: u64,
    pub softirq: u64,
    pub steal: u64,
}

/// The bytes of `cpu`.
pub open spec fn cpu_word() -> Seq<u8> {
    seq![99u8, 112u8, 117u8]
}

/// `cpu` and eight counters, each after white space, at `i`.
pub open spec fn cpu_at(s: Seq<u8>, i: int) -> Option<(Seq<nat>, int)> {
    if word_at(s, i, cpu_word()) {
        fields_at(s, i + 3, 8)
    } else {
        None
    }
}

/// The counters of the first `cpu` line in `s`, if there is one.
pub open spec fn cpu_values(s: Seq<u8>) -> Option<Seq<nat>> {
    match leftmost(|i: int| cpu_at(s, i) is Some, 0, s.len() as int) {
        Some(i) => Some(cpu_at(s, i).unwrap().0),
        None => None,
    }
}

/// The counters named by `vs`, in the order of the file.
pub open spec fn stats_from(vs: Seq<nat>) -> CpuStats {
    CpuStats {
        user: vs[0] as u64,
        nice: vs[1] as u64,
        system: vs[2] as u64,
        idle: vs[3] as u64,
        iowait: vs[4] as u64,
        irq: vs[5] as u64,
        softirq: vs[6] as u64,
        steal: vs[7] as u64,
    }
}

/// What a read of `s` gives: the first `cpu` line's counters, if there is
/// such a line and each counter fits in a `u64`.
pub open spec fn cpu_reading(s: Seq<u8>) -> Option<CpuStats> {
    match cpu_values(s) {
        Some(vs) => if all_fit(vs) { Some(stats_from(vs)) } else { None },
        None => None,
    }
}

impl CpuStats {
    /// Ticks spent idle or waiting for I/O.
    pub open spec fn spec_idle(&self) -> int {
        self.idle + self.iowait
    }

    /// All ticks.
    pub open spec fn spec_total(&self) -> int {
        self.user + self.nice + self.system + self.idle + self.iowait + self.irq + self.softirq
            + self.steal
    }

    /// Ticks spent neither idle nor waiting.
    pub open spec fn spec_busy(&self) -> int {
        self.spec_total() - self.spec_idle()
    }

    /// The load between `prev` and `self`, in tenths of a percent: the share
    /// of the new ticks that were not idle, rounded down. There is none when
    /// the totals are equal. Where the counters went back (they were reset),
    /// a negative share shows as zero; a share beyond a `u64` shows as its
    /// largest value.
    pub open spec fn spec_percent(&self, prev: CpuStats) -> Option<nat> {
        let dt = self.spec_total() - prev.spec_total();
        let db = self.spec_busy() - prev.spec_busy();
        if dt == 0 {
            None
        } else {
            let q: int = if (db >= 0) == (dt > 0) {
                ((1000 * abs(db)) / abs(dt)) as int
            } else {
                0
            };
            Some((if q > u64::MAX { u64::MAX as int } else { q }) as nat)
        }
    }

    /// All ticks counted so far.
    pub fn total(&self) -> (r: u128)
        ensures
            r == self.spec_total(),
    {
        self.user as u128 + self.nice as u128 + self.system as u128 + self.idle as u128
            + self.iowait as u128 + self.irq as u128 + self.softirq as u128 + self.steal as u128
    }

    /// The load between `prev` and `self`, in tenths of a percent.
    pub fn percent(&self, prev: CpuStats) -> (r: Option<u64>)
        ensures
            match self.spec_percent(prev) {
                Some(v) => r == Some(v as u64),
                None => r is None,
            },
            r is None <==> self.spec_total() == prev.spec_total(),
    {
        let total = self.total();
        let prev_total = prev.total();
        if total == prev_total {
            return None;
        }
        let busy = total - (self.idle as u128 + self.iowait as u128);
        let prev_busy = prev_total - (prev.idle as u128 + prev.iowait as u128);
        let dt_up = total > prev_total;
        let dt = if dt_up { total - prev_total } else { prev_total - total };
        let db_up = busy >= prev_busy;
        let db = if db_up { busy - prev_busy } else { prev_busy - busy };
        if db_up != dt_up {
            return Some(0);
        }
        proof {
            assert(db <= 6 * 0x1_0000_0000_0000_0000);
        }
        let q = 1000 * db / dt;
        if q > u64::MAX as u128 {
            Some(u64::MAX)
        } else {
            Some(q as u64)
        }
    }
}

/// Reads the first `cpu` line of `/proc/stat`.
pub fn parse_cpu_stats(b: &[u8]) -> (r: Result<CpuStats, Error>)
    ensures
        match cpu_reading(b@) {
            Some(st) => r == Ok::<CpuStats, Error>(st),
            None => r matches Err(e) && is_parse_error_of(e, "Cpu"),
        },
{
    let word: [u8; 3] = [99, 112, 117];
    let ghost p = |i: int| cpu_at(b@, i) is Some;
    let mut i: usize = 0;
    while i < b.len()
        invariant
            i <= b@.len(),
            word@ == cpu_word(),
            p == (|i: int| cpu_at(b@, i) is Some),
            forall|j: int| 0 <= j < i ==> !#[trigger] p(j),
        decreases b@.len() - i,
    {
        if word_matches(b, i, &word) {
            match crate::parse::read_fields(b, i + 3, 8) {
                None => {},
                Some((_, vals)) => {
                    proof {
                        crate::parse::lemma_fields_len(b@, i + 3, 8);
                        crate::parse::lemma_leftmost_found(p, 0, b@.len() as int, i as int);
                    }
                    return match vals {
                        Some(v) => {
                            let st = CpuStats {
                                user: v[0],
                                nice: v[1],
                                system: v[2],
                                idle: v[3],
                                iowait: v[4],
                                irq: v[5],
                                softirq: v[6],
                                steal: v[7],
                            };
                            proof {
                                let vs = cpu_at(b@, i as int).unwrap().0;
                                crate::parse::lemma_fields_len(b@, i + 3, 8);
                                assert(st == stats_from(vs));
                            }
                            Ok(st)
                        },
                        None => Err(Error::parse("Cpu", "counter too large")),
                    };
                },
            }
        }
        i = i + 1;
    }
    proof {
        crate::parse::lemma_leftmost_none(p, 0, b@.len() as int);
    }
    Err(Error::parse("Cpu", "no cpu line found"))
}

/// The running state of the CPU block.
pub struct CpuState {
    ema: Ema,
    prev: Option<CpuStats>,
}

impl CpuState {
    pub closed spec fn spec_ema(&self) -> Ema {
        self.ema
    }

    /// The counters of the last good reading.
    pub closed spec fn spec_prev(&self) -> Option<CpuStats> {
        self.prev
    }

    pub open spec fn wf(&self) -> bool {
        self.spec_ema().wf()
    }

    /// The state before the first reading.
    pub fn new(alpha: u64) -> (r: CpuState)
        requires
            1 <= alpha <= ALPHA_SCALE,
        ensures
            r.wf(),
            r.spec_prev() is None,
            r.spec_ema().spec_current() is None,
            r.spec_ema().spec_alpha() == alpha,
    {
        CpuState { ema: Ema::new(alpha), prev: None }
    }

    /// Takes one reading of `/proc/stat`. Returns the text to show, or an
    /// error for this tick, or nothing when there is no load to show yet (on
    /// the first reading, and when no tick passed since the last one).
    pub fn on_read(&mut self, contents: &[u8]) -> (r: Option<Result<String, Error>>)
        requires
            old(self).wf(),
        ensures
            final(self).wf(),
            final(self).spec_ema().spec_alpha() == old(self).spec_ema().spec_alpha(),
            match cpu_reading(contents@) {
                None => r matches Some(Err(e)) && is_parse_error_of(e, "Cpu")
                    && *final(self) == *old(self),
                Some(st) => final(self).spec_prev() == Some(st) && match old(self).spec_prev() {
                    None => r is None && final(self).spec_ema() == old(self).spec_ema(),
                    Some(p) => match st.spec_percent(p) {
                        None => r is None && final(self).spec_ema() == old(self).spec_ema(),
                        Some(v) => {
                            let x = push_result(
                                old(self).spec_ema().spec_alpha() as int,
                                old(self).spec_ema().spec_current(),
                                v as int,
                            );
                            &&& final(self).spec_ema().spec_current() == Some(x as u64)
                            &&& r matches Some(Ok(t)) && t@ == cpu_text(x as nat)
                        },
                    },
                },
            },
    {
        let stats = match parse_cpu_stats(contents) {
            Ok(st) => st,
            Err(e) => return Some(Err(e)),
        };
        let prev = self.prev;
        self.prev = Some(stats);
        match prev {
            None => None,
            Some(p) => match stats.percent(p) {
                None => None,
                Some(v) => {
                    let x = self.ema.push(v);
                    let mut out = String::from_str(CPU_LABEL);
                    push_tenths(&mut out, x as u128);
                    proof {
                        reveal_strlit("%");
                    }
                    out.append("%");
                    assert(out@ =~= cpu_text(x as nat));
                    Some(Ok(out))
                },
            },
        }
    }
}

} // verus!
