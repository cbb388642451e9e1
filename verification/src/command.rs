//! The structured command vocabulary consumed by the command processor, and
//! the errors a command line can fail to parse with.

use vstd::prelude::*;
use vstd::string::*;

use crate::strnum::{spec_decimal, u32_string};

verus! {

/// The goal shape a habit is added with.
#[derive(Clone, Copy, Debug, PartialEq, Eq, Structural)]
pub enum GoalKind {
    Bit,
    Count(u32),
    /// A fractional target: the amount in smallest steps, and the number of
    /// decimal digits one step stands for.
    Float(u32, u8),
}

/// A parsed user command.
#[derive(Debug)]
pub enum Command {
    Add(String, Option<GoalKind>),
    Delete(String),
    Help(Option<String>),
    Quit,
    Write,
    WriteAndQuit,
    MonthNext,
    MonthPrev,
    Archive,
    Blank,
}

/// Why a command line failed to parse.
#[derive(Debug)]
pub enum CommandLineError {
    InvalidCommand(String),
    InvalidArg(u32),
    NotEnoughArgs(String, u32),
}

/// The error text for each parse failure.
pub open spec fn spec_error_text(e: CommandLineError) -> Seq<char> {
    match e {
        CommandLineError::InvalidCommand(s) => "Invalid command: `"@ + s@ + "`"@,
        CommandLineError::InvalidArg(p) => "Invalid argument at position "@ + spec_decimal(
            p as nat,
        ),
        CommandLineError::NotEnoughArgs(s, n) => s@ + " expects at least "@ + spec_decimal(
            n as nat,
        ) + " argument(s)"@,
    }
}

impl CommandLineError {
    /// Renders this error as the status-line text it is reported with.
    pub fn text(&self) -> (r: String)
        ensures
            r@ == spec_error_text(*self),
    {
        match self {
            CommandLineError::InvalidCommand(s) => {
                let mut t: String = "Invalid command: `".to_owned();
                t.append(s.as_str());
                t.append("`");
                assert(t@ =~= spec_error_text(*self));
                t
            },
            CommandLineError::InvalidArg(p) => {
                let mut t: String = "Invalid argument at position ".to_owned();
                t.append(u32_string(*p).as_str());
                assert(t@ =~= spec_error_text(*self));
                t
            },
            CommandLineError::NotEnoughArgs(s, n) => {
                let mut t: String = s.clone();
                t.append(" expects at least ");
                t.append(u32_string(*n).as_str());
                t.append(" argument(s)");
                assert(t@ =~= spec_error_text(*self));
                t
            },
        }
    }
}

/// What the caller must do after a command was processed: nothing more, save
/// the snapshot, save it and end the session, or write the archive buckets
/// and then save.
#[derive(Clone, Copy, Debug, PartialEq, Eq, Structural)]
pub enum SideEffect {
    Stay,
    Save,
    SaveAndQuit,
    ArchiveAndSave,
}

} // verus!
