use vstd::prelude::*;

verus! {

/// The subcommands of the command-line tool.
#[derive(Debug, Clone, Copy, PartialEq, Eq, Structural)]
pub enum SubCommandType {
    Encode,
    Decode,
    Remove,
    Print,
}

/// The arguments that the subcommands take.
#[derive(Debug, Clone, Copy, PartialEq, Eq, Structural)]
pub enum ArgumentType {
    FilePath,
    ChunkType,
    Message,
    OutputFile,
}

} // verus!
