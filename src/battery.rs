//! The battery block: charge, charging state and an estimate of the time left.
//!
//! Charges are in the unit of the battery's files (µAh); times are in
//! milliseconds.
use vstd::prelude::*;
use crate::ema::{Ema, ALPHA_SCALE};
use crate::error::{is_parse_error_of, Error};
use crate::parse::{number_reading, parse_number, trim_bounds, trimmed_text};
use crate::text::{decimal, push_decimal, push_two_digits, push_two_hex, two_digits, two_hex};

verus! {

/// Configuration of the battery block.
pub struct Battery {
    /// Smoothing factor of the time estimate, in thousandths.
    pub alpha: u64,
    /// Time between two readings, in milliseconds.
    pub period: u64,
    pub path_to_charge_now: String,
    pub path_to_charge_full: String,
    pub path_to_status: String,
}

/// Smoothing factor of the battery's time estimate unless configured otherwise, in thousandths.
pub fn default_battery_alpha() -> (r: u64)
    ensures
        r == 50,
{
    50
}

pub const MS_PER_MINUTE: u64 = 60_000;

pub const MS_PER_HOUR: u64 = 3_600_000;

/// From 59.5 minutes past the hour on, a time is shown as the next full hour.
pub const ROUND_UP_FROM: u64 = 3_570_000;

/// Hours and minutes shown for `ms` milliseconds: minutes rounded to the
/// nearest (halves up), and from 59.5 minutes past the hour on, the next hour.
pub open spec fn hours_minutes(ms: nat) -> (nat, nat) {
    let h = ms / 3_600_000;
    let rem = ms % 3_600_000;
    if rem >= 3_570_000 {
        (h + 1, 0)
    } else {
        (h, (rem + 30_000) / 60_000)
    }
}

/// A time written as hours and two-digit minutes, such as `5h02m`.
pub open spec fn minutes_text(ms: nat) -> Seq<char> {
    let (h, m) = hours_minutes(ms);
    decimal(h) + seq!['h'] + two_digits(m) + seq!['m']
}

/// Writes a time as hours and minutes (`5h02m`).
pub fn minutes_to_string(total_ms: u64) -> (r: String)
    ensures
        r@ == minutes_text(total_ms as nat),
{
    let mut hrs = total_ms / MS_PER_HOUR;
    let rem = total_ms % MS_PER_HOUR;
    let mins: u64;
    if rem >= ROUND_UP_FROM {
        hrs = hrs + 1;
        mins = 0;
    } else {
        mins = (rem + 30_000) / MS_PER_MINUTE;
    }
    let mut out = String::new();
    push_decimal(&mut out, hrs as u128);
    proof {
        reveal_strlit("h");
        reveal_strlit("m");
    }
    out.append("h");
    push_two_digits(&mut out, mins);
    out.append("m");
    assert(out@ =~= minutes_text(total_ms as nat));
    out
}

/// Red-green colour code for a charge of `charge` out of `full`: from red at
/// empty through yellow at half to green at full.
pub open spec fn colour(charge: nat, full: nat) -> Seq<char> {
    if 2 * charge > full {
        let x = (510 * charge - 255 * full) / full as int;
        let red = 255 - if x > 255 { 255 } else { x };
        two_hex(red as nat) + seq!['f', 'f', '0', '0']
    } else {
        seq!['f', 'f'] + two_hex((510 * charge / full) as nat) + seq!['0', '0']
    }
}

/// `s` in a Pango span coloured for a charge of `charge` out of `full`.
pub open spec fn coloured(s: Seq<char>, charge: nat, full: nat) -> Seq<char> {
    "<span foreground='#"@ + colour(charge, full) + "'>"@ + s + "</span>"@
}

/// Wraps `string` in a colour that goes from red to green with the charge
/// (`charge` out of `full`); a charge above full is shown as full.
pub fn wrap_in_colour(string: &str, charge: u64, full: u64) -> (r: String)
    requires
        full > 0,
    ensures
        r@ == coloured(string@, charge as nat, full as nat),
{
    let c = charge as u128;
    let f = full as u128;
    let mut out = String::from_str("<span foreground='#");
    if 2 * c > f {
        let x = (510 * c - 255 * f) / f;
        let red = 255 - if x > 255 { 255 } else { x };
        push_two_hex(&mut out, red as u64);
        out.append("ff00");
        proof {
            reveal_strlit("ff00");
        }
    } else {
        proof {
            let (a, b) = (c as int, f as int);
            assert(510 * a / b <= 255) by (nonlinear_arith)
                requires
                    2 * a <= b,
                    b >= 1,
                    a >= 0,
            ;
        }
        out.append("ff");
        push_two_hex(&mut out, (510 * c / f) as u64);
        out.append("00");
        proof {
            reveal_strlit("ff");
            reveal_strlit("00");
        }
    }
    out.append("'>");
    out.append(string);
    out.append("</span>");
    assert(out@ =~= coloured(string@, charge as nat, full as nat));
    out
}

pub const SYMBOL_FULL: &'static str = "\u{f240}  ";

pub const SYMBOL_THREE_QUARTERS: &'static str = "\u{f241}  ";

pub const SYMBOL_HALF: &'static str = "\u{f242}  ";

pub const SYMBOL_QUARTER: &'static str = "\u{f243}  ";

pub const SYMBOL_EMPTY: &'static str = "\u{f244}  ";

/// Shown while the battery is not discharging.
pub const SYMBOL_PLUGGED: &'static str = "\u{f5e7} ";

/// The battery symbol for a charge of `charge` out of `full`.
pub open spec fn discharge_symbol(charge: nat, full: nat) -> Seq<char> {
    if 10 * charge > 9 * full {
        SYMBOL_FULL@
    } else if 10 * charge > 6 * full {
        SYMBOL_THREE_QUARTERS@
    } else if 10 * charge > 4 * full {
        SYMBOL_HALF@
    } else if 10 * charge > full {
        SYMBOL_QUARTER@
    } else {
        SYMBOL_EMPTY@
    }
}

/// The battery symbol for a charge of `charge` out of `full`: full above
/// 90 %, then three quarters above 60 %, half above 40 %, a quarter above
/// 10 %, else empty.
pub fn get_discharge_symbol(charge: u64, full: u64) -> (r: &'static str)
    ensures
        r@ == discharge_symbol(charge as nat, full as nat),
{
    let c = charge as u128;
    let f = full as u128;
    if 10 * c > 9 * f {
        SYMBOL_FULL
    } else if 10 * c > 6 * f {
        SYMBOL_THREE_QUARTERS
    } else if 10 * c > 4 * f {
        SYMBOL_HALF
    } else if 10 * c > f {
        SYMBOL_QUARTER
    } else {
        SYMBOL_EMPTY
    }
}

/// The estimate of the time left until full or empty.
#[derive(PartialEq, Eq, Structural, Debug, Clone, Copy)]
pub enum Remaining {
    /// Smoothed estimates, in milliseconds.
    Minutes(Ema),
    /// No estimate yet; the smoothing factor to start with.
    Calculating(u64),
}

/// The time, in milliseconds, to move `amount` at the pace at which `change`
/// moved in `elapsed_ms`; at most `u64::MAX`.
pub open spec fn time_to_move(amount: nat, change: nat, elapsed_ms: nat) -> u64 {
    let t = amount * elapsed_ms / change;
    if t > u64::MAX { u64::MAX } else { t as u64 }
}

/// What a time estimate shows: the smoothed time, or `...` while there is none.
pub open spec fn remaining_text(r: Remaining) -> Seq<char> {
    match r {
        Remaining::Minutes(e) => match e.spec_current() {
            Some(v) => minutes_text(v as nat),
            None => "..."@,
        },
        Remaining::Calculating(_) => "..."@,
    }
}

impl Remaining {
    pub open spec fn wf(&self) -> bool {
        match *self {
            Remaining::Minutes(e) => e.wf(),
            Remaining::Calculating(a) => 1 <= a <= ALPHA_SCALE,
        }
    }

    /// The estimate after one more measured time `value`.
    pub open spec fn spec_push(self, value: u64) -> Remaining {
        match self {
            Remaining::Minutes(e) => Remaining::Minutes(e.spec_push(value)),
            Remaining::Calculating(a) => Remaining::Minutes(Ema::spec_new(a).spec_push(value)),
        }
    }

    /// No estimate yet.
    pub fn new(alpha: u64) -> (r: Remaining)
        requires
            1 <= alpha <= ALPHA_SCALE,
        ensures
            r.wf(),
            r == Remaining::Calculating(alpha),
    {
        Remaining::Calculating(alpha)
    }

    /// Feeds one measured time; the first one starts the smoothing.
    pub fn push(&mut self, value: u64)
        requires
            old(self).wf(),
        ensures
            final(self).wf(),
            *final(self) == old(self).spec_push(value),
    {
        match self {
            Remaining::Minutes(ema) => {
                ema.push(value);
            },
            Remaining::Calculating(alpha) => {
                let mut ema = Ema::new(*alpha);
                ema.push(value);
                *self = Remaining::Minutes(ema);
            },
        }
    }

    /// The estimate as text.
    pub fn text(&self) -> (r: String)
        ensures
            r@ == remaining_text(*self),
    {
        match self {
            Remaining::Minutes(ema) => match ema.current() {
                Some(v) => minutes_to_string(v),
                None => String::from_str("..."),
            },
            Remaining::Calculating(_) => String::from_str("..."),
        }
    }
}

/// The battery's charging state, as its status file gives it.
#[derive(PartialEq, Eq, Structural, Debug, Clone, Copy)]
pub enum Status {
    Charging(Remaining),
    Discharging(Remaining),
    Full,
    NotCharging,
    Unknown,
}

/// The five states without their estimates.
#[derive(PartialEq, Eq, Structural, Debug, Clone, Copy)]
pub enum StatusKind {
    Charging,
    Discharging,
    Full,
    NotCharging,
    Unknown,
}

/// The state named by the status text `s` (white space around it allowed).
pub open spec fn status_kind_of(s: Seq<char>) -> Option<StatusKind> {
    let t = trimmed_text(s);
    if t == "Charging"@ {
        Some(StatusKind::Charging)
    } else if t == "Discharging"@ {
        Some(StatusKind::Discharging)
    } else if t == "Full"@ {
        Some(StatusKind::Full)
    } else if t == "Not charging"@ {
        Some(StatusKind::NotCharging)
    } else if t == "Unknown"@ {
        Some(StatusKind::Unknown)
    } else {
        None
    }
}

/// The reason given for a status text that names no state.
pub open spec fn unknown_status_reason(s: Seq<char>) -> Seq<char> {
    "Unknown battery status '"@ + trimmed_text(s) + "'"@
}

/// The state for `kind`, with no estimate yet.
pub open spec fn fresh_status(kind: StatusKind, alpha: u64) -> Status {
    match kind {
        StatusKind::Charging => Status::Charging(Remaining::Calculating(alpha)),
        StatusKind::Discharging => Status::Discharging(Remaining::Calculating(alpha)),
        StatusKind::Full => Status::Full,
        StatusKind::NotCharging => Status::NotCharging,
        StatusKind::Unknown => Status::Unknown,
    }
}

/// What a status shows: its estimate while charging or discharging, else its name.
pub open spec fn status_text(s: Status) -> Seq<char> {
    match s {
        Status::Charging(r) => remaining_text(r),
        Status::Discharging(r) => remaining_text(r),
        Status::Full => "Full"@,
        Status::NotCharging => "NotCharging"@,
        Status::Unknown => "Unknown"@,
    }
}

impl Status {
    pub open spec fn wf(&self) -> bool {
        match *self {
            Status::Charging(r) => r.wf(),
            Status::Discharging(r) => r.wf(),
            _ => true,
        }
    }

    pub open spec fn kind(&self) -> StatusKind {
        match *self {
            Status::Charging(_) => StatusKind::Charging,
            Status::Discharging(_) => StatusKind::Discharging,
            Status::Full => StatusKind::Full,
            Status::NotCharging => StatusKind::NotCharging,
            Status::Unknown => StatusKind::Unknown,
        }
    }

    /// The status after a charge reading: while charging, the time to fill the
    /// gap to `full`, and while discharging, the time to empty `charge`, at the
    /// pace at which the charge moved by `change` in `elapsed_ms`.
    pub open spec fn spec_push(self, full: u64, charge: u64, change: u64, elapsed_ms: u64) -> Status {
        match self {
            Status::Charging(r) => {
                let gap: nat = if full >= charge { (full - charge) as nat } else { 0 };
                Status::Charging(r.spec_push(time_to_move(gap, change as nat, elapsed_ms as nat)))
            },
            Status::Discharging(r) => Status::Discharging(
                r.spec_push(time_to_move(charge as nat, change as nat, elapsed_ms as nat)),
            ),
            _ => self,
        }
    }

    /// Reads a status text; an unknown state is a parse error that names the text.
    pub fn try_from(text: &str, alpha: u64) -> (r: Result<Status, Error>)
        requires
            1 <= alpha <= ALPHA_SCALE,
        ensures
            match status_kind_of(text@) {
                Some(k) => r == Ok::<Status, Error>(fresh_status(k, alpha)),
                None => r matches Err(Error::Parse { name, reason }) && name == "Battery"
                    && reason@ == unknown_status_reason(text@),
            },
            r matches Ok(s) ==> s.wf(),
    {
        let (a, e) = trim_bounds(text);
        let t = String::from_str(text.substring_char(a, e));
        if t == String::from_str("Charging") {
            Ok(Status::Charging(Remaining::new(alpha)))
        } else if t == String::from_str("Discharging") {
            Ok(Status::Discharging(Remaining::new(alpha)))
        } else if t == String::from_str("Full") {
            Ok(Status::Full)
        } else if t == String::from_str("Not charging") {
            Ok(Status::NotCharging)
        } else if t == String::from_str("Unknown") {
            Ok(Status::Unknown)
        } else {
            let mut reason = String::from_str("Unknown battery status '");
            reason.append(t.as_str());
            reason.append("'");
            Err(Error::Parse { name: "Battery", reason })
        }
    }

    /// Takes a charge reading into the estimate.
    pub fn push(&mut self, full: u64, charge: u64, change: u64, elapsed_ms: u64)
        requires
            old(self).wf(),
            change > 0,
        ensures
            final(self).wf(),
            *final(self) == old(self).spec_push(full, charge, change, elapsed_ms),
    {
        match self {
            Status::Charging(rem) => {
                let gap = if full >= charge { full - charge } else { 0 };
                rem.push(time_to_move_exec(gap, change, elapsed_ms));
            },
            Status::Discharging(rem) => {
                rem.push(time_to_move_exec(charge, change, elapsed_ms));
            },
            Status::Full => {},
            Status::NotCharging => {},
            Status::Unknown => {},
        }
    }

    /// The status as text.
    pub fn text(&self) -> (r: String)
        ensures
            r@ == status_text(*self),
    {
        match self {
            Status::Charging(rem) => rem.text(),
            Status::Discharging(rem) => rem.text(),
            Status::Full => String::from_str("Full"),
            Status::NotCharging => String::from_str("NotCharging"),
            Status::Unknown => String::from_str("Unknown"),
        }
    }
}

fn time_to_move_exec(amount: u64, change: u64, elapsed_ms: u64) -> (r: u64)
    requires
        change > 0,
    ensures
        r == time_to_move(amount as nat, change as nat, elapsed_ms as nat),
{
    proof {
        let (x, y) = (amount as int, elapsed_ms as int);
        assert(x * y <= u64::MAX * u64::MAX) by (nonlinear_arith)
            requires
                0 <= x <= u64::MAX,
                0 <= y <= u64::MAX,
        ;
    }
    let t = (amount as u128) * (elapsed_ms as u128) / (change as u128);
    if t > u64::MAX as u128 {
        u64::MAX
    } else {
        t as u64
    }
}

/// The symbol for a status and a charge of `charge` out of `full`.
pub open spec fn symbol(status: Status, charge: nat, full: nat) -> Seq<char> {
    let s = match status {
        Status::Discharging(_) => discharge_symbol(charge, full),
        _ => SYMBOL_PLUGGED@,
    };
    coloured(s, charge, full)
}

/// The coloured symbol for a status and a charge of `charge` out of `full`.
pub fn get_symbol(status: Status, charge: u64, full: u64) -> (r: String)
    requires
        full > 0,
    ensures
        r@ == symbol(status, charge as nat, full as nat),
{
    let s = match status {
        Status::Discharging(_) => get_discharge_symbol(charge, full),
        _ => SYMBOL_PLUGGED,
    };
    wrap_in_colour(s, charge, full)
}

/// Measures the time between charge readings.
#[derive(PartialEq, Eq, Structural, Debug, Clone, Copy)]
pub struct Interval {
    pub then_ms: u64,
}

impl Interval {
    /// Starts measuring at `now_ms`.
    pub fn new(now_ms: u64) -> (r: Interval)
        ensures
            r.then_ms == now_ms,
    {
        Interval { then_ms: now_ms }
    }

    /// The time since the last start, in milliseconds (zero if the clock
    /// reads earlier), and starts again at `now_ms`.
    pub fn elapsed(&mut self, now_ms: u64) -> (r: u64)
        ensures
            r == if now_ms >= old(self).then_ms { now_ms - old(self).then_ms } else { 0 },
            final(self).then_ms == now_ms,
    {
        let e = if now_ms >= self.then_ms { now_ms - self.then_ms } else { 0 };
        self.then_ms = now_ms;
        e
    }
}

/// The charge in percent of full, rounded to the nearest (halves up).
pub open spec fn charge_percent(charge: nat, full: nat) -> nat {
    (200 * charge + full) / (2 * full)
}

/// The battery block's text: symbol, charge in percent, and the status or estimate.
pub open spec fn battery_text(status: Status, charge: nat, full: nat) -> Seq<char> {
    symbol(status, charge, full) + seq![' '] + decimal(charge_percent(charge, full)) + "% ("@
        + status_text(status) + seq![')']
}

/// The running state of the battery block.
pub struct BatteryState {
    full: u64,
    charge: u64,
    alpha: u64,
    status: Status,
    prev_charge: Option<u64>,
    interval: Interval,
}

impl BatteryState {
    /// The charge when full.
    pub closed spec fn spec_full(&self) -> u64 {
        self.full
    }

    /// The last charge read.
    pub closed spec fn spec_charge(&self) -> u64 {
        self.charge
    }

    pub closed spec fn spec_alpha(&self) -> u64 {
        self.alpha
    }

    pub closed spec fn spec_status(&self) -> Status {
        self.status
    }

    /// The charge of the last reading since the status last changed.
    pub closed spec fn spec_prev_charge(&self) -> Option<u64> {
        self.prev_charge
    }

    pub closed spec fn spec_interval(&self) -> Interval {
        self.interval
    }

    pub open spec fn wf(&self) -> bool {
        &&& self.spec_full() > 0
        &&& 1 <= self.spec_alpha() <= ALPHA_SCALE
        &&& self.spec_status().wf()
    }

    /// The block's text for this state.
    pub open spec fn spec_text(&self) -> Seq<char> {
        battery_text(self.spec_status(), self.spec_charge() as nat, self.spec_full() as nat)
    }

    /// The state at start-up, from the texts of the full-charge, charge and
    /// status files, at time `now_ms`. Fails on a text that cannot be read or
    /// on a full charge of zero.
    pub fn new(full_text: &str, charge_text: &str, status_text: &str, alpha: u64, now_ms: u64) -> (r: Result<BatteryState, Error>)
        requires
            1 <= alpha <= ALPHA_SCALE,
        ensures
            match (number_reading(full_text@), number_reading(charge_text@), status_kind_of(status_text@)) {
                (Some(f), Some(c), Some(k)) => if f > 0 {
                    r matches Ok(st) && st.wf() && st.spec_full() == f && st.spec_charge() == c
                        && st.spec_alpha() == alpha && st.spec_status() == fresh_status(k, alpha)
                        && st.spec_prev_charge() is None && st.spec_interval().then_ms == now_ms
                } else {
                    r matches Err(e) && is_parse_error_of(e, "Battery")
                },
                _ => r matches Err(e) && is_parse_error_of(e, "Battery"),
            },
    {
        let full = parse_number("Battery", full_text)?;
        if full == 0 {
            return Err(Error::parse("Battery", "full charge is zero"));
        }
        let charge = parse_number("Battery", charge_text)?;
        let status = Status::try_from(status_text, alpha)?;
        Ok(BatteryState { full, charge, alpha, status, prev_charge: None, interval: Interval::new(now_ms) })
    }

    /// The block's text for this state.
    pub fn text(&self) -> (r: String)
        requires
            self.wf(),
        ensures
            r@ == self.spec_text(),
    {
        let mut out = get_symbol(self.status, self.charge, self.full);
        let c = self.charge as u128;
        let f = self.full as u128;
        let percent = (200 * c + f) / (2 * f);
        proof {
            let (x, y) = (c as int, f as int);
            assert((200 * x + y) / (2 * y) <= 200 * x + y) by (nonlinear_arith)
                requires
                    y >= 1,
                    x >= 0,
            ;
            assert(200 * x + y <= u64::MAX * 201);
        }
        out.append(" ");
        proof {
            reveal_strlit(" ");
            reveal_strlit(")");
        }
        push_decimal(&mut out, percent);
        out.append("% (");
        let st = self.status.text();
        out.append(st.as_str());
        out.append(")");
        assert(out@ =~= self.spec_text());
        out
    }

    /// Takes one reading of the charge file at time `now_ms` and returns the
    /// text to show, or the reading's error for this tick. The time since the
    /// last reading and the change of the charge give the estimate a new time.
    pub fn on_charge(&mut self, contents: Result<&str, Error>, now_ms: u64) -> (r: Result<String, Error>)
        requires
            old(self).wf(),
        ensures
            final(self).wf(),
            final(self).spec_full() == old(self).spec_full(),
            final(self).spec_alpha() == old(self).spec_alpha(),
            final(self).spec_interval().then_ms == now_ms,
            match contents {
                Err(e) => r == Err::<String, Error>(e) && final(self).spec_status() == old(self).spec_status()
                    && final(self).spec_charge() == old(self).spec_charge()
                    && final(self).spec_prev_charge() == old(self).spec_prev_charge(),
                Ok(b) => match number_reading(b@) {
                    None => r matches Err(e) && is_parse_error_of(e, "Battery")
                        && final(self).spec_status() == old(self).spec_status()
                        && final(self).spec_charge() == old(self).spec_charge()
                        && final(self).spec_prev_charge() == old(self).spec_prev_charge(),
                    Some(c) => {
                        let then = old(self).spec_interval().then_ms;
                        let elapsed = if now_ms >= then { (now_ms - then) as u64 } else { 0 };
                        &&& final(self).spec_charge() == c
                        &&& final(self).spec_prev_charge() == Some(c)
                        &&& final(self).spec_status() == match old(self).spec_prev_charge() {
                            Some(p) => if p > c {
                                old(self).spec_status().spec_push(old(self).spec_full(), c, (p - c) as u64, elapsed)
                            } else if p < c {
                                old(self).spec_status().spec_push(old(self).spec_full(), c, (c - p) as u64, elapsed)
                            } else {
                                old(self).spec_status()
                            },
                            None => old(self).spec_status(),
                        }
                        &&& r matches Ok(t) && t@ == final(self).spec_text()
                    },
                },
            },
    {
        let elapsed = self.interval.elapsed(now_ms);
        let b = match contents {
            Ok(b) => b,
            Err(e) => return Err(e),
        };
        let c = parse_number("Battery", b)?;
        self.charge = c;
        let prev = self.prev_charge;
        self.prev_charge = Some(c);
        match prev {
            Some(p) => {
                if p > c {
                    self.status.push(self.full, c, p - c, elapsed);
                } else if p < c {
                    self.status.push(self.full, c, c - p, elapsed);
                }
            },
            None => {},
        }
        Ok(self.text())
    }

    /// Takes one reading of the status file at time `now_ms` and returns the
    /// text to show, or the reading's error for this tick. A new state drops
    /// the estimate and starts measuring again; the same state keeps it.
    pub fn on_status(&mut self, contents: Result<&str, Error>, now_ms: u64) -> (r: Result<String, Error>)
        requires
            old(self).wf(),
        ensures
            final(self).wf(),
            final(self).spec_full() == old(self).spec_full(),
            final(self).spec_alpha() == old(self).spec_alpha(),
            final(self).spec_charge() == old(self).spec_charge(),
            match contents {
                Err(e) => r == Err::<String, Error>(e) && *final(self) == *old(self),
                Ok(b) => match status_kind_of(b@) {
                    None => r matches Err(Error::Parse { name, reason }) && name == "Battery"
                        && reason@ == unknown_status_reason(b@) && *final(self) == *old(self),
                    Some(k) => {
                        &&& if k == old(self).spec_status().kind() {
                            *final(self) == *old(self)
                        } else {
                            &&& final(self).spec_status() == fresh_status(k, old(self).spec_alpha())
                            &&& final(self).spec_prev_charge() is None
                            &&& final(self).spec_interval().then_ms == now_ms
                        }
                        &&& r matches Ok(t) && t@ == final(self).spec_text()
                    },
                },
            },
    {
        let b = match contents {
            Ok(b) => b,
            Err(e) => return Err(e),
        };
        let status = Status::try_from(b, self.alpha)?;
        if !same_kind(&status, &self.status) {
            self.status = status;
            self.interval = Interval::new(now_ms);
            self.prev_charge = None;
        }
        Ok(self.text())
    }
}

/// The two statuses name the same state.
fn same_kind(a: &Status, b: &Status) -> (r: bool)
    ensures
        r == (a.kind() == b.kind()),
{
    match (a, b) {
        (Status::Charging(_), Status::Charging(_)) => true,
        (Status::Discharging(_), Status::Discharging(_)) => true,
        (Status::Full, Status::Full) => true,
        (Status::NotCharging, Status::NotCharging) => true,
        (Status::Unknown, Status::Unknown) => true,
        _ => false,
    }
}

} // verus!
