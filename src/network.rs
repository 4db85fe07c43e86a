//! The network block: download and upload speed from two byte counters.
use vstd::prelude::*;
use crate::error::{is_parse_error_of, Error};
use crate::parse::{number_reading, parse_number};
use crate::text::{push_tenths, tenths};

verus! {

/// Configuration of the network block.
pub struct Network {
    /// Time between two readings, in milliseconds.
    pub period: u64,
    /// The file that counts the bytes received.
    pub path_to_rx: String,
    /// The file that counts the bytes sent.
    pub path_to_tx: String,
}

/// The speed, in tenths of a kB/s (1024 bytes), at which a counter moved
/// from `prev` to `curr` in `period_ms`; zero if the counter went back.
pub open spec fn speed(prev: u64, curr: u64, period_ms: u64) -> nat {
    if curr >= prev {
        ((curr - prev) * 10_000 / (period_ms * 1024)) as nat
    } else {
        0
    }
}

/// The two last readings of a byte counter.
#[derive(PartialEq, Eq, Structural, Debug, Clone, Copy)]
pub struct NetworkSpeed {
    pub curr: u64,
    pub prev: u64,
    pub period_ms: u64,
}

impl NetworkSpeed {
    /// A counter read every `period_ms`, with no reading yet.
    pub fn new(period_ms: u64) -> (r: NetworkSpeed)
        requires
            period_ms > 0,
        ensures
            r == (NetworkSpeed { curr: 0, prev: 0, period_ms }),
    {
        NetworkSpeed { curr: 0, prev: 0, period_ms }
    }

    /// Takes a new reading.
    pub fn push(&mut self, new: u64)
        ensures
            *final(self) == (NetworkSpeed { curr: new, prev: old(self).curr, period_ms: old(self).period_ms }),
    {
        self.prev = self.curr;
        self.curr = new;
    }

    /// The speed between the two last readings, in tenths of a kB/s.
    pub fn calc_speed(&self) -> (r: u128)
        requires
            self.period_ms > 0,
        ensures
            r as nat == speed(self.prev, self.curr, self.period_ms),
    {
        if self.curr < self.prev {
            return 0;
        }
        let d = (self.curr - self.prev) as u128;
        let p = self.period_ms as u128 * 1024;
        proof {
            let (x, y) = (d as int * 10_000, p as int);
            assert(x / y <= x) by (nonlinear_arith)
                requires
                    y >= 1,
                    x >= 0,
            ;
        }
        d * 10_000 / p
    }
}

pub const RX_PREFIX: &'static str = "<span foreground='#ccffcc'>\u{f0ab}  ";

pub const TX_PREFIX: &'static str = "</span> <span foreground='#ffcccc'>\u{f0aa}  ";

pub const SPAN_END: &'static str = "</span>";

/// The block's text for the two speeds, in tenths of a kB/s.
pub open spec fn network_text(rx: nat, tx: nat) -> Seq<char> {
    RX_PREFIX@ + tenths(rx) + TX_PREFIX@ + tenths(tx) + SPAN_END@
}

/// The running state of the network block.
pub struct NetworkState {
    pub rx: NetworkSpeed,
    pub tx: NetworkSpeed,
}

impl NetworkState {
    pub open spec fn wf(&self) -> bool {
        self.rx.period_ms > 0 && self.tx.period_ms > 0
    }

    /// The state after the first readings of both counters.
    pub fn new(period_ms: u64, rx_text: &str, tx_text: &str) -> (r: Result<NetworkState, Error>)
        requires
            period_ms > 0,
        ensures
            match (number_reading(rx_text@), number_reading(tx_text@)) {
                (Some(rx), Some(tx)) => r matches Ok(st) && st.wf()
                    && st.rx == (NetworkSpeed { curr: rx, prev: 0, period_ms })
                    && st.tx == (NetworkSpeed { curr: tx, prev: 0, period_ms }),
                _ => r matches Err(e) && is_parse_error_of(e, "Network"),
            },
    {
        let rx_v = parse_number("Network", rx_text)?;
        let tx_v = parse_number("Network", tx_text)?;
        let mut rx = NetworkSpeed::new(period_ms);
        let mut tx = NetworkSpeed::new(period_ms);
        rx.push(rx_v);
        tx.push(tx_v);
        Ok(NetworkState { rx, tx })
    }

    /// Takes one reading of both counters and returns the text to show, or
    /// an error for this tick (the counters then stay as they were).
    pub fn on_read(&mut self, rx_text: &str, tx_text: &str) -> (r: Result<String, Error>)
        requires
            old(self).wf(),
        ensures
            final(self).wf(),
            match (number_reading(rx_text@), number_reading(tx_text@)) {
                (Some(rx), Some(tx)) => {
                    &&& final(self).rx == (NetworkSpeed { curr: rx, prev: old(self).rx.curr, period_ms: old(self).rx.period_ms })
                    &&& final(self).tx == (NetworkSpeed { curr: tx, prev: old(self).tx.curr, period_ms: old(self).tx.period_ms })
                    &&& r matches Ok(t) && t@ == network_text(
                        speed(old(self).rx.curr, rx, old(self).rx.period_ms),
                        speed(old(self).tx.curr, tx, old(self).tx.period_ms),
                    )
                },
                _ => r matches Err(e) && is_parse_error_of(e, "Network") && *final(self) == *old(self),
            },
    {
        let rx_v = parse_number("Network", rx_text)?;
        let tx_v = parse_number("Network", tx_text)?;
        self.rx.push(rx_v);
        self.tx.push(tx_v);
        let mut out = String::from_str(RX_PREFIX);
        push_tenths(&mut out, self.rx.calc_speed());
        out.append(TX_PREFIX);
        push_tenths(&mut out, self.tx.calc_speed());
        out.append(SPAN_END);
        assert(out@ =~= network_text(self.rx.calc_speed_spec(), self.tx.calc_speed_spec()));
        Ok(out)
    }
}

impl NetworkSpeed {
    pub open spec fn calc_speed_spec(&self) -> nat {
        speed(self.prev, self.curr, self.period_ms)
    }
}

} // verus!
