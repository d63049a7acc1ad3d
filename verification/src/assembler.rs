//! The assembler: from symbolic assembly to 16-bit machine words.

use crate::error::ToolError;
use crate::pattern::{finds, Pattern};
use crate::text::{
    binary, binary_text, is_bits, lemma_address_word_shape, lemma_binary_digits,
};
use vstd::prelude::*;

pub mod code;
pub mod laws;
pub mod parser;
pub mod symbols;

pub use code::Code;
pub use parser::Parser;
pub use symbols::SymbolTable;

verus! {

/// The three kinds of assembly line.
#[derive(Debug, Clone, Copy, PartialEq, Eq, Structural)]
pub enum Command {
    /// An address instruction: `@` and a number or a symbol.
    ACommand,
    /// A compute instruction: `dest=comp` or `comp;jump`.
    CCommand,
    /// A label declaration: a symbol in round brackets.
    LCommand,
}

/// The shape of an address instruction. The group `symbol` holds its token.
pub const A_PATTERN: &'static str = r"@(?P<symbol>(\d+|(\w+\.?\w*\$?\w*)))";

/// The shape of a compute instruction. Of the groups `dest`, `comp1`, `comp2`
/// and `jump`, the first two belong to the assignment form and the last two
/// to the jump form.
pub const C_PATTERN: &'static str =
    r"((?P<dest>[AMD]{1,3})=(?P<comp1>(\d+|\w+)?[-!+&|]?(\d+|\w+)?))|((?P<comp2>(\d+|\w+)?[-!+&|]?(\d+|\w+)?);(?P<jump>(JGT|JEQ|JGE|JLT|JNE|JLE|JMP)))";

/// The shape of a label declaration. The group `symbol` holds its name.
pub const L_PATTERN: &'static str = r"\((?P<symbol>\w+\.?\w*\$?\w*)\)";

/// The kind of a line, from which of the three shapes were found in it. The
/// shapes are tried in the order address, compute, label.
pub open spec fn kind_from(address: bool, compute: bool, label: bool) -> Result<
    Command,
    ToolError,
> {
    if address {
        Ok(Command::ACommand)
    } else if compute {
        Ok(Command::CCommand)
    } else if label {
        Ok(Command::LCommand)
    } else {
        Err(ToolError::InvalidInstruction)
    }
}

/// The kind of the assembly line `line`.
pub open spec fn kind_of(line: Seq<char>) -> Result<Command, ToolError> {
    kind_from(
        finds(A_PATTERN@, line),
        finds(C_PATTERN@, line),
        finds(L_PATTERN@, line),
    )
}

/// Decides the kind of a line from the shapes that were found in it.
pub fn classify(address: bool, compute: bool, label: bool) -> (kind: Result<Command, ToolError>)
    ensures
        kind == kind_from(address, compute, label),
{
    if address {
        Ok(Command::ACommand)
    } else if compute {
        Ok(Command::CCommand)
    } else if label {
        Ok(Command::LCommand)
    } else {
        Err(ToolError::InvalidInstruction)
    }
}

/// The pattern that gives the shape of the lines of a kind.
pub open spec fn shape_of(kind: Command) -> Seq<char> {
    match kind {
        Command::ACommand => A_PATTERN@,
        Command::CCommand => C_PATTERN@,
        Command::LCommand => L_PATTERN@,
    }
}

/// The three shapes of assembly lines, compiled once for a whole program.
pub struct Grammar {
    address: Pattern,
    compute: Pattern,
    label: Pattern,
}

impl Grammar {
    /// Each pattern is compiled from the shape of its kind.
    #[verifier::type_invariant]
    spec fn holds_the_shapes(&self) -> bool {
        &&& self.address@ == A_PATTERN@
        &&& self.compute@ == C_PATTERN@
        &&& self.label@ == L_PATTERN@
    }

    /// Compiles the three shapes.
    pub fn new() -> (grammar: Self) {
        Self {
            address: Pattern::new(A_PATTERN),
            compute: Pattern::new(C_PATTERN),
            label: Pattern::new(L_PATTERN),
        }
    }

    /// The compiled shape of the lines of a kind.
    pub fn pattern(&self, kind: Command) -> (pattern: &Pattern)
        ensures
            pattern@ == shape_of(kind),
    {
        proof {
            use_type_invariant(self);
        }
        match kind {
            Command::ACommand => &self.address,
            Command::CCommand => &self.compute,
            Command::LCommand => &self.label,
        }
    }

    /// Classifies one assembly line. A line of none of the three shapes is
    /// an invalid instruction.
    pub fn command_type(&self, command: &str) -> (kind: Result<Command, ToolError>)
        ensures
            kind == kind_of(command@),
    {
        proof {
            use_type_invariant(self);
        }
        let address = self.address.search(command);
        let compute = self.compute.search(command);
        let label = self.label.search(command);
        classify(address, compute, label)
    }
}

/// Classifies one assembly line. A line of none of the three shapes is an
/// invalid instruction.
pub fn command_type(command: &str) -> (kind: Result<Command, ToolError>)
    ensures
        kind == kind_of(command@),
{
    Grammar::new().command_type(command)
}

/// Writes an address as a machine word: in binary, padded with zeros to 16
/// digits. An address of the machine, up to 65535, has exactly 16 digits.
pub fn to_binary(input: u32) -> (word: String)
    ensures
        word@ == binary_text(input as nat, 16),
        is_bits(word@),
        input <= 65535 ==> word@.len() == 16,
{
    proof {
        lemma_binary_digits(input as nat, 16);
        if input <= 65535 {
            lemma_address_word_shape(input as nat);
        }
    }
    binary(input, 16)
}

/// Picks the input file's path out of the command line: the argument after
/// the program's name.
pub fn parse_input(args: &[String]) -> (path: Result<&str, &str>)
    ensures
        args@.len() < 2 ==> path is Err && path->Err_0@ == "not enough arguments"@,
        args@.len() >= 2 ==> path is Ok && path->Ok_0@ == args@[1]@,
{
    if args.len() < 2 {
        return Err("not enough arguments");
    }
    Ok(args[1].as_str())
}

} // verus!
