//! The kinds of block, their names and markup hints.
use vstd::prelude::*;
use vstd::string::StringSliceAdditionalSpecFns;
use crate::battery::Battery;
use crate::brightness::Brightness;
use crate::cpu::Cpu;
use crate::error::Error;
use crate::memory::Memory;
use crate::network::Network;
use crate::parse::word_matches;
use crate::time::Time;
use crate::volume::Volume;

verus! {

/// The name under which a kind of block is configured and reported.
pub trait GetName {
    fn get_name() -> &'static str;
}

/// The markup hint of a kind of block's text, if it holds markup.
pub trait GetMarkup {
    fn get_markup() -> Option<&'static str>;
}

/// One configured block: its kind and its parameters.
pub enum Block {
    Battery(Battery),
    Brightness(Brightness),
    Cpu(Cpu),
    Memory(Memory),
    Network(Network),
    Time(Time),
    Volume(Volume),
}

/// The kinds of block, without parameters.
#[derive(PartialEq, Eq, Structural, Debug, Clone, Copy)]
pub enum BlockKind {
    Battery,
    Brightness,
    Cpu,
    Memory,
    Network,
    Time,
    Volume,
}

/// Time between two readings unless a block's configuration says otherwise, in milliseconds.
pub fn default_period() -> (r: u64)
    ensures
        r == 700,
{
    700
}

/// Smoothing factor unless a block's configuration says otherwise, in thousandths.
pub fn default_alpha() -> (r: u64)
    ensures
        r == 100,
{
    100
}

/// A configured smoothing factor given in millionths, as the factor in
/// thousandths that the smoothers take: to the nearest (halves up), at least
/// one. It must lie in (0, 1], that is in `1..=1_000_000` millionths.
pub open spec fn alpha_from_millionths(m: nat) -> u64 {
    let t = (m + 500) / 1000;
    if t == 0 { 1 } else { t as u64 }
}

/// A configured smoothing factor, given in millionths: it must lie in (0, 1].
/// The result is in thousandths.
pub fn validated_alpha(name: &'static str, millionths: u64) -> (r: Result<u64, Error>)
    ensures
        1 <= millionths <= 1_000_000 ==> r == Ok::<u64, Error>(alpha_from_millionths(millionths as nat)),
        1 <= millionths <= 1_000_000 ==> 1 <= alpha_from_millionths(millionths as nat) <= 1000,
        !(1 <= millionths <= 1_000_000) ==> (r matches Err(Error::Deserialize { name: n, .. }) && n == name),
{
    if 1 <= millionths && millionths <= 1_000_000 {
        let t = (millionths + 500) / 1000;
        Ok(if t == 0 { 1 } else { t })
    } else {
        Err(Error::Deserialize { name, reason: String::from_str("alpha must lie in (0, 1]") })
    }
}

/// A configured period, in milliseconds: it must not be zero.
pub fn validated_period(name: &'static str, period: u64) -> (r: Result<u64, Error>)
    ensures
        period > 0 ==> r == Ok::<u64, Error>(period),
        period == 0 ==> (r matches Err(Error::Deserialize { name: n, .. }) && n == name),
{
    if period > 0 {
        Ok(period)
    } else {
        Err(Error::Deserialize { name, reason: String::from_str("period must not be zero") })
    }
}

/// The name under which a kind of block is configured and reported.
pub open spec fn kind_name(k: BlockKind) -> &'static str {
    match k {
        BlockKind::Battery => "Battery",
        BlockKind::Brightness => "Brightness",
        BlockKind::Cpu => "Cpu",
        BlockKind::Memory => "Memory",
        BlockKind::Network => "Network",
        BlockKind::Time => "Time",
        BlockKind::Volume => "Volume",
    }
}

/// Blocks whose text holds Pango markup.
pub open spec fn kind_markup(k: BlockKind) -> Option<&'static str> {
    match k {
        BlockKind::Battery | BlockKind::Network | BlockKind::Time => Some("pango"),
        _ => None,
    }
}

/// The kind whose name has the bytes `b`.
pub open spec fn kind_named(b: Seq<u8>) -> Option<BlockKind> {
    if b == "Battery".spec_bytes() {
        Some(BlockKind::Battery)
    } else if b == "Brightness".spec_bytes() {
        Some(BlockKind::Brightness)
    } else if b == "Cpu".spec_bytes() {
        Some(BlockKind::Cpu)
    } else if b == "Memory".spec_bytes() {
        Some(BlockKind::Memory)
    } else if b == "Network".spec_bytes() {
        Some(BlockKind::Network)
    } else if b == "Time".spec_bytes() {
        Some(BlockKind::Time)
    } else if b == "Volume".spec_bytes() {
        Some(BlockKind::Volume)
    } else {
        None
    }
}

fn same_bytes(a: &[u8], b: &[u8]) -> (r: bool)
    ensures
        r == (a@ == b@),
{
    if a.len() != b.len() {
        return false;
    }
    let r = word_matches(a, 0, b);
    proof {
        if a@ == b@ {
            assert(a@.subrange(0, b@.len() as int) =~= a@);
        }
        if r {
            assert(a@.subrange(0, b@.len() as int) =~= a@);
        }
    }
    r
}

impl BlockKind {
    /// The kind configured under `name`; any other name is an error.
    pub fn from_name(name: &str) -> (r: Result<BlockKind, Error>)
        ensures
            match kind_named(name.spec_bytes()) {
                Some(k) => r == Ok::<BlockKind, Error>(k),
                None => r matches Err(Error::InvalidBlockName(n)) && n@ == name@,
            },
    {
        let b = name.as_bytes();
        if same_bytes(b, "Battery".as_bytes()) {
            Ok(BlockKind::Battery)
        } else if same_bytes(b, "Brightness".as_bytes()) {
            Ok(BlockKind::Brightness)
        } else if same_bytes(b, "Cpu".as_bytes()) {
            Ok(BlockKind::Cpu)
        } else if same_bytes(b, "Memory".as_bytes()) {
            Ok(BlockKind::Memory)
        } else if same_bytes(b, "Network".as_bytes()) {
            Ok(BlockKind::Network)
        } else if same_bytes(b, "Time".as_bytes()) {
            Ok(BlockKind::Time)
        } else if same_bytes(b, "Volume".as_bytes()) {
            Ok(BlockKind::Volume)
        } else {
            Err(Error::InvalidBlockName(String::from_str(name)))
        }
    }

    /// The kind's name.
    pub fn get_name(&self) -> (r: &'static str)
        ensures
            r == kind_name(*self),
    {
        match self {
            BlockKind::Battery => "Battery",
            BlockKind::Brightness => "Brightness",
            BlockKind::Cpu => "Cpu",
            BlockKind::Memory => "Memory",
            BlockKind::Network => "Network",
            BlockKind::Time => "Time",
            BlockKind::Volume => "Volume",
        }
    }

    /// The markup hint of the kind's text, if it holds markup.
    pub fn get_markup(&self) -> (r: Option<&'static str>)
        ensures
            r == kind_markup(*self),
    {
        match self {
            BlockKind::Battery | BlockKind::Network | BlockKind::Time => Some("pango"),
            _ => None,
        }
    }
}

impl Block {
    pub open spec fn kind(&self) -> BlockKind {
        match self {
            Block::Battery(_) => BlockKind::Battery,
            Block::Brightness(_) => BlockKind::Brightness,
            Block::Cpu(_) => BlockKind::Cpu,
            Block::Memory(_) => BlockKind::Memory,
            Block::Network(_) => BlockKind::Network,
            Block::Time(_) => BlockKind::Time,
            Block::Volume(_) => BlockKind::Volume,
        }
    }

    /// The block's kind.
    pub fn block_kind(&self) -> (r: BlockKind)
        ensures
            r == self.kind(),
    {
        match self {
            Block::Battery(_) => BlockKind::Battery,
            Block::Brightness(_) => BlockKind::Brightness,
            Block::Cpu(_) => BlockKind::Cpu,
            Block::Memory(_) => BlockKind::Memory,
            Block::Network(_) => BlockKind::Network,
            Block::Time(_) => BlockKind::Time,
            Block::Volume(_) => BlockKind::Volume,
        }
    }

    /// The name under which the block is reported.
    pub fn get_name(&self) -> (r: &'static str)
        ensures
            r == kind_name(self.kind()),
    {
        self.block_kind().get_name()
    }

    /// The markup hint of the block's text, if it holds markup.
    pub fn get_markup(&self) -> (r: Option<&'static str>)
        ensures
            r == kind_markup(self.kind()),
    {
        self.block_kind().get_markup()
    }
}

impl GetName for Battery {
    fn get_name() -> &'static str {
        "Battery"
    }
}

impl GetMarkup for Battery {
    fn get_markup() -> Option<&'static str> {
        Some("pango")
    }
}

impl GetName for Brightness {
    fn get_name() -> &'static str {
        "Brightness"
    }
}

impl GetMarkup for Brightness {
    fn get_markup() -> Option<&'static str> {
        None
    }
}

impl GetName for Cpu {
    fn get_name() -> &'static str {
        "Cpu"
    }
}

impl GetMarkup for Cpu {
    fn get_markup() -> Option<&'static str> {
        None
    }
}

impl GetName for Memory {
    fn get_name() -> &'static str {
        "Memory"
    }
}

impl GetMarkup for Memory {
    fn get_markup() -> Option<&'static str> {
        None
    }
}

impl GetName for Network {
    fn get_name() -> &'static str {
        "Network"
    }
}

impl GetMarkup for Network {
    fn get_markup() -> Option<&'static str> {
        Some("pango")
    }
}

impl GetName for Time {
    fn get_name() -> &'static str {
        "Time"
    }
}

impl GetMarkup for Time {
    fn get_markup() -> Option<&'static str> {
        Some("pango")
    }
}

impl GetName for Volume {
    fn get_name() -> &'static str {
        "Volume"
    }
}

impl GetMarkup for Volume {
    fn get_markup() -> Option<&'static str> {
        None
    }
}

} // verus!
