//! The library's error type.
use vstd::prelude::*;

verus! {

/// What can go wrong while configuring or running a block.
#[derive(Debug, Clone, PartialEq, Eq)]
pub enum Error {
    /// A block's configuration could not be read.
    Deserialize { name: &'static str, reason: String },
    /// The configuration names a block kind that does not exist.
    InvalidBlockName(String),
    /// A resource could not be read, or a command could not be run.
    Io(String),
    /// A resource was read but its text is not what was expected.
    Parse { name: &'static str, reason: String },
    /// A block's output could not be written as JSON.
    Serialize,
    /// The configuration text is not well-formed.
    Toml(String),
    /// The program was called with the wrong arguments.
    Usage,
}

/// `e` is a parse error, tagged with the resource name `name`.
pub open spec fn is_parse_error_of(e: Error, name: &'static str) -> bool {
    match e {
        Error::Parse { name: n, .. } => n == name,
        _ => false,
    }
}

/// The text of an error, as shown in place of a block's value.
pub open spec fn error_message(e: Error) -> Seq<char> {
    match e {
        Error::Deserialize { name, reason } => "failed to deserialise block '"@ + name@ + "': "@ + reason@,
        Error::InvalidBlockName(name) => "no block implemented for '"@ + name@ + "'"@,
        Error::Io(reason) => reason@,
        Error::Parse { name, reason } => "error while parsing '"@ + name@ + "': "@ + reason@,
        Error::Serialize => "failed to write block output as JSON"@,
        Error::Toml(reason) => reason@,
        Error::Usage => USAGE@,
    }
}

impl Error {
    /// A parse error for resource `name`.
    pub fn parse(name: &'static str, reason: &str) -> (r: Error)
        ensures
            is_parse_error_of(r, name),
            r matches Error::Parse { reason: s, .. } && s@ == reason@,
    {
        Error::Parse { name, reason: String::from_str(reason) }
    }

    /// The error as a line of text, for display in place of a block's value.
    pub fn message(&self) -> (r: String)
        ensures
            r@ == error_message(*self),
    {
        let mut out = String::new();
        match self {
            Error::Deserialize { name, reason } => {
                out.append("failed to deserialise block '");
                out.append(name);
                out.append("': ");
                out.append(reason.as_str());
            },
            Error::InvalidBlockName(name) => {
                out.append("no block implemented for '");
                out.append(name.as_str());
                out.append("'");
            },
            Error::Io(reason) => {
                out.append(reason.as_str());
            },
            Error::Parse { name, reason } => {
                out.append("error while parsing '");
                out.append(name);
                out.append("': ");
                out.append(reason.as_str());
            },
            Error::Serialize => {
                out.append("failed to write block output as JSON");
            },
            Error::Toml(reason) => {
                out.append(reason.as_str());
            },
            Error::Usage => {
                out.append(USAGE);
            },
        }
        assert(out@ =~= error_message(*self));
        out
    }
}

/// How to call the program.
pub const USAGE: &'static str = "Rust Blocks 0.1.0
A simple i3blocks replacement written in Rust.

USAGE:
    rs-blocks <CONFIG>

ARGS:
    <CONFIG>         Config file to use
";

} // verus!
