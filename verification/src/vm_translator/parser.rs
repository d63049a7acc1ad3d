//! The command dispatcher: classifies each line of a stack-machine program
//! and hands it to the code generator.

use crate::error::ToolError;
use crate::pattern::captured;
use crate::text::{
    decimal_value, join_lines, listing, optional_text, parse_decimal, read_source, source_lines,
    texts,
};
use crate::vm_translator::code_writer::{
    can_emit, has_code, is_operator, knows_operator, CodeWriter, Written,
};
use crate::vm_translator::{kind_of, Command, Grammar, RE_ARITHMETIC, RE_PUSHPOP};
use vstd::prelude::*;

verus! {

/// What an arithmetic command does to the generator, from what the group
/// `op` of its line held: the operator is emitted. A line with an unknown
/// operator or without the group is an invalid instruction.
pub open spec fn arithmetic_command(before: Written, operator: Option<Seq<char>>) -> Result<
    Written,
    ToolError,
> {
    match operator {
        Some(op) => if is_operator(op) {
            Ok(before.arithmetic(op))
        } else {
            Err(ToolError::InvalidInstruction)
        },
        None => Err(ToolError::InvalidInstruction),
    }
}

/// What a push or pop command does to the generator, from what the groups
/// `command`, `segment` and `index` of its line held: the command is emitted
/// for the index that the digits write. A line without one of the groups,
/// with an index that is no number of the machine's word size, or with a
/// command for which there is no code (a pop to `constant`, a push of a
/// constant that no instruction can load), is an invalid instruction.
pub open spec fn push_pop_command(
    name: Seq<char>,
    before: Written,
    command: Option<Seq<char>>,
    segment: Option<Seq<char>>,
    index: Option<Seq<char>>,
) -> Result<Written, ToolError> {
    if command is Some && segment is Some && index is Some {
        match decimal_value(index->0, usize::MAX as nat) {
            Some(n) => if has_code(command->0, segment->0, n) {
                Ok(before.push_pop(name, command->0, segment->0, n))
            } else {
                Err(ToolError::InvalidInstruction)
            },
            None => Err(ToolError::InvalidInstruction),
        }
    } else {
        Err(ToolError::InvalidInstruction)
    }
}

/// What one line does to the generator. Arithmetic commands and pushes and
/// pops are emitted; the commands of program flow and of function calls are
/// recognized and emit nothing; a line of no known kind is refused.
pub open spec fn translate_line(name: Seq<char>, before: Written, line: Seq<char>) -> Result<
    Written,
    ToolError,
> {
    match kind_of(line) {
        Err(e) => Err(e),
        Ok(Command::ARITHMETIC) => arithmetic_command(
            before,
            captured(RE_ARITHMETIC@, line, "op"@),
        ),
        Ok(Command::PUSHPOP) => push_pop_command(
            name,
            before,
            captured(RE_PUSHPOP@, line, "command"@),
            captured(RE_PUSHPOP@, line, "segment"@),
            captured(RE_PUSHPOP@, line, "index"@),
        ),
        Ok(_) => Ok(before),
    }
}

/// The state of a translation: what the generator has done, and why the
/// translation stopped, if it did.
pub struct Translation {
    pub written: Written,
    pub failure: Option<ToolError>,
}

/// The translation of `lines` for the unit `name`, by a generator that has
/// done `start` before. It stops at the first line that is refused, with all
/// lines before it emitted.
pub open spec fn translation(name: Seq<char>, start: Written, lines: Seq<Seq<char>>) -> Translation
    decreases lines.len(),
{
    if lines.len() == 0 {
        Translation { written: start, failure: None }
    } else {
        let before = translation(name, start, lines.drop_last());
        if before.failure is Some {
            before
        } else {
            match translate_line(name, before.written, lines.last()) {
                Ok(written) => Translation { written, failure: None },
                Err(e) => Translation { written: before.written, failure: Some(e) },
            }
        }
    }
}

/// Once a translation has stopped, further lines change nothing.
pub proof fn lemma_translation_stopped(
    name: Seq<char>,
    start: Written,
    lines: Seq<Seq<char>>,
    k: int,
)
    requires
        0 <= k <= lines.len(),
        translation(name, start, lines.take(k)).failure is Some,
    ensures
        translation(name, start, lines) == translation(name, start, lines.take(k)),
    decreases lines.len() - k,
{
    if k < lines.len() {
        assert(lines.drop_last().take(k) =~= lines.take(k));
        lemma_translation_stopped(name, start, lines.drop_last(), k);
    } else {
        assert(lines.take(k) =~= lines);
    }
}

/// A stack-machine program, cut into its source lines, with the name of its
/// translation unit and the generator that emits its code.
pub struct Parser<'a> {
    name: &'a str,
    lines: Vec<String>,
    grammar: Grammar,
    code_writer: CodeWriter,
}

impl<'a> Parser<'a> {
    /// The name of the translation unit.
    pub closed spec fn name(&self) -> Seq<char> {
        self.name@
    }

    /// The source lines of the program.
    pub closed spec fn lines(&self) -> Seq<Seq<char>> {
        texts(self.lines@)
    }

    /// What the generator has done.
    pub closed spec fn written(&self) -> Written {
        self.code_writer@
    }

    /// Reads a program: keeps the lines of `input` that are neither empty nor
    /// full-line comments.
    pub fn new(name: &'a str, input: &str, code_writer: CodeWriter) -> (parser: Self)
        ensures
            parser.name() == name@,
            parser.lines() == source_lines(input@),
            parser.written() == code_writer@,
    {
        Self { name, lines: read_source(input), grammar: Grammar::new(), code_writer }
    }

    /// The code generator.
    pub fn code_writer(&self) -> (writer: &CodeWriter)
        ensures
            writer@ == self.written(),
    {
        &self.code_writer
    }

    /// Gives the code generator back, for the next program of the run.
    pub fn into_code_writer(self) -> (writer: CodeWriter)
        ensures
            writer@ == self.written(),
    {
        self.code_writer
    }

    /// The source lines as one text, each followed by a line feed.
    pub fn to_string(&self) -> (text: String)
        ensures
            text@ == listing(self.lines()),
    {
        join_lines(&self.lines)
    }

    /// Classifies one line. A line of none of the eight shapes is an invalid
    /// instruction.
    pub fn command_type(command: &str) -> (kind: Result<Command, ToolError>)
        ensures
            kind == kind_of(command@),
    {
        Grammar::new().command_type(command)
    }

    /// Emits an arithmetic command whose operator was searched for in its
    /// line.
    pub fn emit_arithmetic(code_writer: &mut CodeWriter, operator: Option<String>) -> (done: Result<
        (),
        ToolError,
    >)
        ensures
            match arithmetic_command(old(code_writer)@, optional_text(operator)) {
                Ok(written) => done is Ok && final(code_writer)@ == written,
                Err(e) => done == Err::<(), ToolError>(e) && final(code_writer)@ == old(
                    code_writer,
                )@,
            },
    {
        match operator {
            Some(op) => {
                if !knows_operator(op.as_str()) {
                    return Err(ToolError::InvalidInstruction);
                }
                code_writer.write_arithmetic(op.as_str());
                Ok(())
            },
            None => Err(ToolError::InvalidInstruction),
        }
    }

    /// Emits a push or a pop whose parts were searched for in its line.
    pub fn emit_push_pop(
        code_writer: &mut CodeWriter,
        name: &str,
        command: Option<String>,
        segment: Option<String>,
        index: Option<String>,
    ) -> (done: Result<(), ToolError>)
        ensures
            match push_pop_command(
                name@,
                old(code_writer)@,
                optional_text(command),
                optional_text(segment),
                optional_text(index),
            ) {
                Ok(written) => done is Ok && final(code_writer)@ == written,
                Err(e) => done == Err::<(), ToolError>(e) && final(code_writer)@ == old(
                    code_writer,
                )@,
            },
    {
        match (command, segment, index) {
            (Some(c), Some(s), Some(i)) => {
                match parse_decimal(i.as_str(), usize::MAX as u64) {
                    Some(n) => {
                        if !can_emit(c.as_str(), s.as_str(), n as usize) {
                            return Err(ToolError::InvalidInstruction);
                        }
                        code_writer.write_push_pop(name, c.as_str(), s.as_str(), n as usize);
                        Ok(())
                    },
                    None => Err(ToolError::InvalidInstruction),
                }
            },
            _ => Err(ToolError::InvalidInstruction),
        }
    }

    /// Hands a command of program flow or of function calls to the generator,
    /// which emits nothing for it.
    fn emit_nothing(&mut self, kind: Command, line: &str)
        ensures
            final(self).name() == old(self).name(),
            final(self).lines() == old(self).lines(),
            final(self).written() == old(self).written(),
    {
        match kind {
            Command::LABEL => {
                if let Some(label) = self.grammar.pattern(kind).extract(line, "name") {
                    self.code_writer.write_label(label.as_str());
                }
            },
            Command::GOTO => {
                if let Some(label) = self.grammar.pattern(kind).extract(line, "name") {
                    self.code_writer.write_goto(label.as_str());
                }
            },
            Command::IF => {
                if let Some(label) = self.grammar.pattern(kind).extract(line, "name") {
                    self.code_writer.write_if(label.as_str());
                }
            },
            Command::FUNCTION => {
                if let Some(function) = self.grammar.pattern(kind).extract(line, "name") {
                    if let Some(count) = self.grammar.pattern(kind).extract(line, "k") {
                        if let Some(k) = parse_decimal(count.as_str(), 255) {
                            self.code_writer.write_function(function.as_str(), k as u8);
                        }
                    }
                }
            },
            Command::CALL => {
                if let Some(function) = self.grammar.pattern(kind).extract(line, "name") {
                    if let Some(count) = self.grammar.pattern(kind).extract(line, "n") {
                        if let Some(n) = parse_decimal(count.as_str(), 255) {
                            self.code_writer.write_call(function.as_str(), n as u8);
                        }
                    }
                }
            },
            Command::RETURN => {
                self.code_writer.write_return();
            },
            _ => {},
        }
    }

    /// Translates the program: each line is classified and emitted, in
    /// order. The first line that is refused ends the run with its error; the
    /// lines before it stay emitted.
    pub fn to_assembler(&mut self) -> (done: Result<(), ToolError>)
        ensures
            final(self).name() == old(self).name(),
            final(self).lines() == old(self).lines(),
            ({
                let run = translation(old(self).name(), old(self).written(), old(self).lines());
                &&& final(self).written() == run.written
                &&& match run.failure {
                    Some(e) => done == Err::<(), ToolError>(e),
                    None => done is Ok,
                }
            }),
    {
        let ghost name = self.name();
        let ghost lines = self.lines();
        let ghost start = self.written();
        let mut i: usize = 0;
        assert(lines.take(0) =~= Seq::empty());
        while i < self.lines.len()
            invariant
                i <= self.lines.len(),
                self.name() == name,
                self.lines() == lines,
                name == old(self).name(),
                lines == old(self).lines(),
                start == old(self).written(),
                lines.len() == self.lines.len(),
                translation(name, start, lines.take(i as int)) == (Translation {
                    written: self.written(),
                    failure: None,
                }),
            decreases self.lines.len() - i,
        {
            proof {
                let next = lines.take(i + 1);
                assert(next.drop_last() =~= lines.take(i as int));
                assert(next.last() == self.lines@[i as int]@);
            }
            let command = self.lines[i].clone();
            let line = command.as_str();
            let parsed = match self.grammar.command_type(line) {
                Err(e) => Err(e),
                Ok(Command::ARITHMETIC) => {
                    let operator = self.grammar.pattern(Command::ARITHMETIC).extract(line, "op");
                    Parser::emit_arithmetic(&mut self.code_writer, operator)
                },
                Ok(Command::PUSHPOP) => {
                    let shape = self.grammar.pattern(Command::PUSHPOP);
                    let command_type = shape.extract(line, "command");
                    let segment = shape.extract(line, "segment");
                    let index = shape.extract(line, "index");
                    Parser::emit_push_pop(
                        &mut self.code_writer,
                        self.name,
                        command_type,
                        segment,
                        index,
                    )
                },
                Ok(kind) => {
                    self.emit_nothing(kind, line);
                    Ok(())
                },
            };
            match parsed {
                Err(e) => {
                    proof {
                        lemma_translation_stopped(name, start, lines, i + 1);
                    }
                    return Err(e);
                },
                Ok(_) => {},
            }
            i += 1;
        }
        assert(lines.take(i as int) =~= lines);
        Ok(())
    }
}

} // verus!
