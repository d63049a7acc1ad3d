//! The ways in which a source line can be refused.

use vstd::prelude::*;

verus! {

/// Why a tool gave up on its input.
#[derive(Debug, Clone, Copy, PartialEq, Eq, Structural)]
pub enum ToolError {
    /// A line has the shape of no known command, or an instruction names
    /// both a destination and a jump.
    InvalidInstruction,
    /// The token of an address instruction or of a label declaration is
    /// malformed.
    InvalidSymbol,
}

/// What a result says: its error, or the text of its string.
pub open spec fn outcome(result: Result<String, ToolError>) -> Result<Seq<char>, ToolError> {
    match result {
        Ok(text) => Ok(text@),
        Err(e) => Err(e),
    }
}

/// Whether a result holds what its model says: the same error, or a string
/// with the model's text.
pub open spec fn agrees(
    result: Result<String, ToolError>,
    model: Result<Seq<char>, ToolError>,
) -> bool {
    outcome(result) == model
}

} // verus!
