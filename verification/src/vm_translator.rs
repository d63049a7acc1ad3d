//! The translator: from stack-machine commands to symbolic assembly.

use crate::error::ToolError;
use crate::pattern::{finds, Pattern};
use vstd::prelude::*;

pub mod code_writer;
pub mod laws;
pub mod parser;

pub use code_writer::CodeWriter;
pub use parser::Parser;

verus! {

/// The kinds of stack-machine command.
#[allow(non_camel_case_types)]
#[derive(Debug, Clone, Copy, PartialEq, Eq, Structural)]
pub enum Command {
    /// An arithmetic or logic operation on the top of the stack.
    ARITHMETIC,
    /// A push onto the stack or a pop from it.
    PUSHPOP,
    /// A label declaration.
    LABEL,
    /// An unconditional jump.
    GOTO,
    /// A conditional jump.
    IF,
    /// A function declaration.
    FUNCTION,
    /// A return from a function.
    RETURN,
    /// A function call.
    CALL,
}

/// The shape of an arithmetic or logic command. The group `op` holds the
/// operator.
pub const RE_ARITHMETIC: &'static str = r"^(?P<op>(add|sub|neg|eq|gt|lt|and|or|not))";

/// The shape of a push or pop command, with the groups `command`, `segment`
/// and `index`.
pub const RE_PUSHPOP: &'static str =
    r"^(?P<command>(push|pop)).(?P<segment>(argument|local|static|constant|this|that|pointer|temp)).(?P<index>\d+)";

/// The shape of a label declaration. The group `name` holds the label.
pub const RE_LABEL: &'static str = r"^label.(?P<name>\w+)";

/// The shape of an unconditional jump. The group `name` holds the label.
pub const RE_GOTO: &'static str = r"^goto.(?P<name>\w+)";

/// The shape of a conditional jump. The group `name` holds the label.
pub const RE_IF: &'static str = r"^if-goto.(?P<name>\w+)";

/// The shape of a function declaration, with the groups `name` and `k`.
pub const RE_FUNCTION: &'static str = r"^function.(?P<name>\w+\.\w+).(?P<k>\d+)";

/// The shape of a function call, with the groups `name` and `n`.
pub const RE_CALL: &'static str = r"^call.(?P<name>\w+\.\w+).(?P<n>\d+)";

/// The shape of a return command.
pub const RE_RETURN: &'static str = r"^return$";

/// Which of the eight command shapes were found in a line.
pub struct Shapes {
    pub arithmetic: bool,
    pub pushpop: bool,
    pub label: bool,
    pub goto: bool,
    pub if_goto: bool,
    pub function: bool,
    pub returns: bool,
    pub call: bool,
}

/// The kind of a command, from the shapes that were found in its line. The
/// shapes are tried in the order arithmetic, push or pop, label, goto,
/// if-goto, function, return, call.
pub open spec fn kind_from(found: Shapes) -> Result<Command, ToolError> {
    if found.arithmetic {
        Ok(Command::ARITHMETIC)
    } else if found.pushpop {
        Ok(Command::PUSHPOP)
    } else if found.label {
        Ok(Command::LABEL)
    } else if found.goto {
        Ok(Command::GOTO)
    } else if found.if_goto {
        Ok(Command::IF)
    } else if found.function {
        Ok(Command::FUNCTION)
    } else if found.returns {
        Ok(Command::RETURN)
    } else if found.call {
        Ok(Command::CALL)
    } else {
        Err(ToolError::InvalidInstruction)
    }
}

/// The shapes that are found in `line`.
pub open spec fn shapes_of(line: Seq<char>) -> Shapes {
    Shapes {
        arithmetic: finds(RE_ARITHMETIC@, line),
        pushpop: finds(RE_PUSHPOP@, line),
        label: finds(RE_LABEL@, line),
        goto: finds(RE_GOTO@, line),
        if_goto: finds(RE_IF@, line),
        function: finds(RE_FUNCTION@, line),
        returns: finds(RE_RETURN@, line),
        call: finds(RE_CALL@, line),
    }
}

/// The kind of the stack-machine command on `line`.
pub open spec fn kind_of(line: Seq<char>) -> Result<Command, ToolError> {
    kind_from(shapes_of(line))
}

/// Decides the kind of a command from the shapes that were found in its line.
pub fn classify(found: Shapes) -> (kind: Result<Command, ToolError>)
    ensures
        kind == kind_from(found),
{
    if found.arithmetic {
        Ok(Command::ARITHMETIC)
    } else if found.pushpop {
        Ok(Command::PUSHPOP)
    } else if found.label {
        Ok(Command::LABEL)
    } else if found.goto {
        Ok(Command::GOTO)
    } else if found.if_goto {
        Ok(Command::IF)
    } else if found.function {
        Ok(Command::FUNCTION)
    } else if found.returns {
        Ok(Command::RETURN)
    } else if found.call {
        Ok(Command::CALL)
    } else {
        Err(ToolError::InvalidInstruction)
    }
}

/// The pattern that gives the shape of the commands of a kind.
pub open spec fn shape_of(kind: Command) -> Seq<char> {
    match kind {
        Command::ARITHMETIC => RE_ARITHMETIC@,
        Command::PUSHPOP => RE_PUSHPOP@,
        Command::LABEL => RE_LABEL@,
        Command::GOTO => RE_GOTO@,
        Command::IF => RE_IF@,
        Command::FUNCTION => RE_FUNCTION@,
        Command::RETURN => RE_RETURN@,
        Command::CALL => RE_CALL@,
    }
}

/// The eight shapes of commands, compiled once for a whole program.
pub struct Grammar {
    arithmetic: Pattern,
    pushpop: Pattern,
    label: Pattern,
    goto: Pattern,
    if_goto: Pattern,
    function: Pattern,
    returns: Pattern,
    call: Pattern,
}

impl Grammar {
    /// Each pattern is compiled from the shape of its kind.
    #[verifier::type_invariant]
    spec fn holds_the_shapes(&self) -> bool {
        &&& self.arithmetic@ == RE_ARITHMETIC@
        &&& self.pushpop@ == RE_PUSHPOP@
        &&& self.label@ == RE_LABEL@
        &&& self.goto@ == RE_GOTO@
        &&& self.if_goto@ == RE_IF@
        &&& self.function@ == RE_FUNCTION@
        &&& self.returns@ == RE_RETURN@
        &&& self.call@ == RE_CALL@
    }

    /// Compiles the eight shapes.
    pub fn new() -> (grammar: Self) {
        Self {
            arithmetic: Pattern::new(RE_ARITHMETIC),
            pushpop: Pattern::new(RE_PUSHPOP),
            label: Pattern::new(RE_LABEL),
            goto: Pattern::new(RE_GOTO),
            if_goto: Pattern::new(RE_IF),
            function: Pattern::new(RE_FUNCTION),
            returns: Pattern::new(RE_RETURN),
            call: Pattern::new(RE_CALL),
        }
    }

    /// The compiled shape of the commands of a kind.
    pub fn pattern(&self, kind: Command) -> (pattern: &Pattern)
        ensures
            pattern@ == shape_of(kind),
    {
        proof {
            use_type_invariant(self);
        }
        match kind {
            Command::ARITHMETIC => &self.arithmetic,
            Command::PUSHPOP => &self.pushpop,
            Command::LABEL => &self.label,
            Command::GOTO => &self.goto,
            Command::IF => &self.if_goto,
            Command::FUNCTION => &self.function,
            Command::RETURN => &self.returns,
            Command::CALL => &self.call,
        }
    }

    /// Classifies one line. A line of none of the eight shapes is an invalid
    /// instruction.
    pub fn command_type(&self, command: &str) -> (kind: Result<Command, ToolError>)
        ensures
            kind == kind_of(command@),
    {
        proof {
            use_type_invariant(self);
        }
        classify(
            Shapes {
                arithmetic: self.arithmetic.search(command),
                pushpop: self.pushpop.search(command),
                label: self.label.search(command),
                goto: self.goto.search(command),
                if_goto: self.if_goto.search(command),
                function: self.function.search(command),
                returns: self.returns.search(command),
                call: self.call.search(command),
            },
        )
    }
}

/// Picks the input file's path out of the command line: the argument after
/// the program's name.
pub fn parse_input(args: &[String]) -> (path: Result<&str, &str>)
    ensures
        args@.len() < 2 ==> path is Err && path->Err_0@ == "not enough arguments"@,
        args@.len() >= 2 ==> path is Ok && path->Ok_0@ == args@[1]@,
{
    if args.len() < 2 {
        return Err("not enough arguments");
    }
    Ok(args[1].as_str())
}

} // verus!
