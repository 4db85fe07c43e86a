//! Status-bar blocks: each samples one resource (battery, backlight, CPU,
//! memory, network, clock, volume) and turns its readings into display text;
//! the output map merges the blocks' latest texts into one ordered line of
//! JSON.
//!
//! The library holds the decisions and the arithmetic: reading the resources'
//! text formats, smoothing, the battery's state machine, the texts, and the
//! ordered output. Reading files, running commands, waiting on timers and
//! signals is left to the caller, which hands each reading to a block's state
//! and prints the lines.

pub mod args;
pub mod battery;
pub mod blocks;
pub mod brightness;
pub mod cpu;
pub mod ema;
pub mod error;
pub mod memory;
pub mod network;
pub mod output;
pub mod parse;
pub mod stream_ext;
pub mod text;
pub mod time;
pub mod volume;
