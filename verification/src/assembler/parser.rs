//! The assembler's two passes over a program: the first enters the labels
//! into the symbol table, the second writes one machine word per instruction.

use crate::assembler::code::{compute_word, Code};
use crate::assembler::symbols::{
    search_symbol, symbol_of, SymbolTable, Symbols, FIRST_VARIABLE_ADDRESS,
};
use crate::assembler::{kind_of, Command, Grammar};
use crate::error::{agrees, outcome, ToolError};
use crate::text::{join_lines, listing, read_source, source_lines, texts};
use vstd::prelude::*;

verus! {

/// The longest program that the passes take: the position of each of its
/// instructions must fit in 32 bits.
pub const MAX_LINES: usize = 0xFFFF_FFFF;

/// The state of the first pass: the symbol table, the number of instructions
/// seen, and whether a line was refused.
pub struct Scan {
    pub symbols: Symbols,
    pub position: nat,
    pub failed: bool,
}

/// The label that a line declares, where it is a label declaration.
pub open spec fn label_of(line: Seq<char>) -> Result<Seq<char>, ToolError> {
    if kind_of(line) == Ok::<Command, ToolError>(Command::LCommand) {
        symbol_of(line, Command::LCommand)
    } else {
        Err(ToolError::InvalidSymbol)
    }
}

/// One step of the first pass, from the kind of a line and the label it
/// declares. A label declaration binds its name to the number of
/// instructions before it, and one without a name does nothing; any other
/// line that has a kind counts as one instruction; a line without a kind
/// stops the pass.
pub open spec fn scan_step(
    before: Scan,
    kind: Result<Command, ToolError>,
    label: Result<Seq<char>, ToolError>,
) -> Scan {
    match kind {
        Err(_) => Scan { symbols: before.symbols, position: before.position, failed: true },
        Ok(Command::LCommand) => match label {
            Ok(name) => Scan {
                symbols: before.symbols.declare(name, before.position as u32),
                position: before.position,
                failed: false,
            },
            Err(_) => before,
        },
        Ok(_) => Scan { symbols: before.symbols, position: before.position + 1, failed: false },
    }
}

/// The first pass over one line.
pub open spec fn scan_line(before: Scan, line: Seq<char>) -> Scan {
    scan_step(before, kind_of(line), label_of(line))
}

/// The first pass over `lines`, from the table `table`. It stops at the first
/// line that is refused.
pub open spec fn first_pass(table: Symbols, lines: Seq<Seq<char>>) -> Scan
    decreases lines.len(),
{
    if lines.len() == 0 {
        Scan { symbols: table, position: 0, failed: false }
    } else {
        let before = first_pass(table, lines.drop_last());
        if before.failed {
            before
        } else {
            scan_line(before, lines.last())
        }
    }
}

/// The state of the second pass: the symbol table, the words written so far,
/// and why the pass stopped, if it did.
pub struct Emission {
    pub symbols: Symbols,
    pub words: Seq<Seq<char>>,
    pub failure: Option<ToolError>,
}

impl Emission {
    /// This state, stopped by `error`.
    pub open spec fn stopped(self, error: ToolError) -> Emission {
        Emission { symbols: self.symbols, words: self.words, failure: Some(error) }
    }

    /// This state with one more word, under the table `symbols`.
    pub open spec fn with_word(self, symbols: Symbols, word: Seq<char>) -> Emission {
        Emission { symbols, words: self.words.push(word), failure: None }
    }
}

/// The token of a line, where it is an address instruction.
pub open spec fn token_of(line: Seq<char>) -> Result<Seq<char>, ToolError> {
    if kind_of(line) == Ok::<Command, ToolError>(Command::ACommand) {
        symbol_of(line, Command::ACommand)
    } else {
        Err(ToolError::InvalidSymbol)
    }
}

/// The encoding of a line, where it is a compute instruction.
pub open spec fn word_of(line: Seq<char>) -> Result<Seq<char>, ToolError> {
    if kind_of(line) == Ok::<Command, ToolError>(Command::CCommand) {
        compute_word(line)
    } else {
        Err(ToolError::InvalidInstruction)
    }
}

/// What one step of the second pass comes to: the symbol table it leaves,
/// and the word it writes, no word, or the reason for stopping.
pub struct Step {
    pub symbols: Symbols,
    pub word: Result<Option<Seq<char>>, ToolError>,
}

/// One step of the second pass, from the kind of a line, its token and its
/// encoding. A label declaration writes nothing. An address instruction
/// resolves its token and writes the address in binary. A compute instruction
/// writes its encoding. A line without a kind, a token that is refused and an
/// encoding that failed stop the pass and leave the table as it was.
pub open spec fn emit_step(
    symbols: Symbols,
    kind: Result<Command, ToolError>,
    token: Result<Seq<char>, ToolError>,
    word: Result<Seq<char>, ToolError>,
) -> Step {
    match kind {
        Err(e) => Step { symbols, word: Err(e) },
        Ok(Command::LCommand) => Step { symbols, word: Ok(None) },
        Ok(Command::ACommand) => match token {
            Err(e) => Step { symbols, word: Err(e) },
            Ok(t) => match symbols.word(t) {
                Err(e) => Step { symbols, word: Err(e) },
                Ok(w) => Step { symbols: symbols.resolve(t), word: Ok(Some(w)) },
            },
        },
        Ok(Command::CCommand) => match word {
            Err(e) => Step { symbols, word: Err(e) },
            Ok(w) => Step { symbols, word: Ok(Some(w)) },
        },
    }
}

/// The second pass over one line.
pub open spec fn emit_line(before: Emission, line: Seq<char>) -> Emission {
    let step = emit_step(before.symbols, kind_of(line), token_of(line), word_of(line));
    match step.word {
        Err(e) => before.stopped(e),
        Ok(None) => before,
        Ok(Some(w)) => before.with_word(step.symbols, w),
    }
}

/// The second pass over `lines`, from the table `table`. It stops at the
/// first line that is refused.
pub open spec fn second_pass(table: Symbols, lines: Seq<Seq<char>>) -> Emission
    decreases lines.len(),
{
    if lines.len() == 0 {
        Emission { symbols: table, words: Seq::empty(), failure: None }
    } else {
        let before = second_pass(table, lines.drop_last());
        if before.failure is Some {
            before
        } else {
            emit_line(before, lines.last())
        }
    }
}

/// What assembling a program comes to: the symbol table it leaves, and the
/// machine code or the reason for refusing the program.
pub struct Outcome {
    pub symbols: Symbols,
    pub result: Result<Seq<char>, ToolError>,
}

/// Assembles `lines` from the table `table`: the first pass, then, with the
/// cursor on the first variable address, the second. A line that the first
/// pass refuses is an invalid instruction.
pub open spec fn assemble(table: Symbols, lines: Seq<Seq<char>>) -> Outcome {
    let scan = first_pass(table, lines);
    if scan.failed {
        Outcome { symbols: scan.symbols, result: Err(ToolError::InvalidInstruction) }
    } else {
        let emission = second_pass(scan.symbols.with_cursor(FIRST_VARIABLE_ADDRESS), lines);
        Outcome {
            symbols: emission.symbols,
            result: match emission.failure {
                Some(e) => Err(e),
                None => Ok(listing(emission.words)),
            },
        }
    }
}

/// Once the first pass has stopped, further lines change nothing.
pub proof fn lemma_first_pass_stopped(table: Symbols, lines: Seq<Seq<char>>, k: int)
    requires
        0 <= k <= lines.len(),
        first_pass(table, lines.take(k)).failed,
    ensures
        first_pass(table, lines) == first_pass(table, lines.take(k)),
    decreases lines.len() - k,
{
    if k < lines.len() {
        assert(lines.drop_last().take(k) =~= lines.take(k));
        lemma_first_pass_stopped(table, lines.drop_last(), k);
    } else {
        assert(lines.take(k) =~= lines);
    }
}

/// Once the second pass has stopped, further lines change nothing.
pub proof fn lemma_second_pass_stopped(table: Symbols, lines: Seq<Seq<char>>, k: int)
    requires
        0 <= k <= lines.len(),
        second_pass(table, lines.take(k)).failure is Some,
    ensures
        second_pass(table, lines) == second_pass(table, lines.take(k)),
    decreases lines.len() - k,
{
    if k < lines.len() {
        assert(lines.drop_last().take(k) =~= lines.take(k));
        lemma_second_pass_stopped(table, lines.drop_last(), k);
    } else {
        assert(lines.take(k) =~= lines);
    }
}

/// An assembly program, cut into its source lines, with the encoder and the
/// symbol table that assemble it.
pub struct Parser {
    lines: Vec<String>,
    grammar: Grammar,
    code_parser: Code,
    symbol_table: SymbolTable,
}

impl Parser {
    /// The source lines of the program.
    pub closed spec fn lines(&self) -> Seq<Seq<char>> {
        texts(self.lines@)
    }

    /// The symbol table of the program.
    pub closed spec fn symbols(&self) -> Symbols {
        self.symbol_table@
    }

    /// Reads a program: keeps the lines of `input` that are neither empty nor
    /// full-line comments, and starts from the predefined symbols.
    pub fn new(input: &str) -> (parser: Self)
        ensures
            parser.lines() == source_lines(input@),
            parser.symbols() == Symbols::initial(),
    {
        Self {
            lines: read_source(input),
            grammar: Grammar::new(),
            code_parser: Code::new(),
            symbol_table: SymbolTable::new(),
        }
    }

    /// The symbol table.
    pub fn symbol_table(&self) -> (table: &SymbolTable)
        ensures
            table@ == self.symbols(),
    {
        &self.symbol_table
    }

    /// The number of source lines.
    pub fn line_count(&self) -> (n: usize)
        ensures
            n == self.lines().len(),
    {
        self.lines.len()
    }

    /// The source lines as one text, each followed by a line feed.
    pub fn to_string(&self) -> (text: String)
        ensures
            text@ == listing(self.lines()),
    {
        join_lines(&self.lines)
    }

    /// One step of the first pass, on a line of the given kind that declares
    /// the given label, at the given number of instructions: the number of
    /// instructions after the line, or nothing where the line stops the
    /// pass.
    pub fn first_pass_step(
        symbol_table: &mut SymbolTable,
        position: u32,
        kind: Result<Command, ToolError>,
        label: Result<String, ToolError>,
    ) -> (next: Option<u32>)
        requires
            kind is Ok && kind != Ok::<Command, ToolError>(Command::LCommand) ==> position
                < u32::MAX,
        ensures
            ({
                let after = scan_step(
                    Scan { symbols: old(symbol_table)@, position: position as nat, failed: false },
                    kind,
                    outcome(label),
                );
                &&& final(symbol_table)@ == after.symbols
                &&& match next {
                    Some(p) => !after.failed && p == after.position,
                    None => after.failed,
                }
            }),
    {
        match kind {
            Err(_) => None,
            Ok(Command::LCommand) => {
                match label {
                    Ok(name) => {
                        symbol_table.declare(name, position);
                    },
                    Err(_) => {},
                }
                Some(position)
            },
            Ok(_) => Some(position + 1),
        }
    }

    /// One step of the second pass, on a line of the given kind with the
    /// given token and encoding: the word to write, no word, or the reason
    /// for stopping.
    pub fn second_pass_step(
        symbol_table: &mut SymbolTable,
        kind: Result<Command, ToolError>,
        token: Result<String, ToolError>,
        word: Result<String, ToolError>,
    ) -> (written: Result<Option<String>, ToolError>)
        ensures
            ({
                let step = emit_step(old(symbol_table)@, kind, outcome(token), outcome(word));
                &&& final(symbol_table)@ == step.symbols
                &&& match written {
                    Err(e) => step.word == Err::<Option<Seq<char>>, ToolError>(e),
                    Ok(None) => step.word == Ok::<Option<Seq<char>>, ToolError>(None),
                    Ok(Some(w)) => step.word == Ok::<Option<Seq<char>>, ToolError>(Some(w@)),
                }
            }),
    {
        match kind {
            Err(e) => Err(e),
            Ok(Command::LCommand) => Ok(None),
            Ok(Command::ACommand) => match token {
                Err(e) => Err(e),
                Ok(symbol) => match symbol_table.get_address(symbol.as_str()) {
                    Err(e) => Err(e),
                    Ok(address) => Ok(Some(address)),
                },
            },
            Ok(Command::CCommand) => match word {
                Err(e) => Err(e),
                Ok(encoded) => Ok(Some(encoded)),
            },
        }
    }

    /// The first pass: enters each label into the symbol table, bound to the
    /// number of instructions before it, and then puts the cursor on the
    /// first variable address. A line of no known kind stops the pass with
    /// the labels before it entered and the cursor where it was.
    pub fn fill_symbol_table(&mut self) -> (done: Result<(), ToolError>)
        requires
            old(self).lines().len() <= MAX_LINES,
        ensures
            final(self).lines() == old(self).lines(),
            ({
                let scan = first_pass(old(self).symbols(), old(self).lines());
                if scan.failed {
                    &&& done == Err::<(), ToolError>(ToolError::InvalidInstruction)
                    &&& final(self).symbols() == scan.symbols
                } else {
                    &&& done is Ok
                    &&& final(self).symbols() == scan.symbols.with_cursor(FIRST_VARIABLE_ADDRESS)
                }
            }),
    {
        let ghost table = self.symbols();
        let ghost lines = self.lines();
        let mut position: u32 = 0;
        let mut i: usize = 0;
        assert(lines.take(0) =~= Seq::empty());
        while i < self.lines.len()
            invariant
                i <= self.lines.len(),
                self.lines.len() <= MAX_LINES,
                self.lines() == lines,
                lines == old(self).lines(),
                table == old(self).symbols(),
                lines.len() == self.lines.len(),
                position <= i,
                first_pass(table, lines.take(i as int)) == (Scan {
                    symbols: self.symbols(),
                    position: position as nat,
                    failed: false,
                }),
            decreases self.lines.len() - i,
        {
            proof {
                let next = lines.take(i + 1);
                assert(next.drop_last() =~= lines.take(i as int));
                assert(next.last() == self.lines@[i as int]@);
            }
            let kind = self.grammar.command_type(self.lines[i].as_str());
            let label = match kind {
                Ok(Command::LCommand) => search_symbol(
                    self.grammar.pattern(Command::LCommand),
                    self.lines[i].as_str(),
                ),
                _ => Err(ToolError::InvalidSymbol),
            };
            match Parser::first_pass_step(&mut self.symbol_table, position, kind, label) {
                Some(next) => {
                    position = next;
                },
                None => {
                    proof {
                        lemma_first_pass_stopped(table, lines, i + 1);
                    }
                    return Err(ToolError::InvalidInstruction);
                },
            }
            i += 1;
        }
        assert(lines.take(i as int) =~= lines);
        self.symbol_table.reset_ram_pointer();
        Ok(())
    }

    /// Assembles the program: the first pass, then one machine word per
    /// instruction, each followed by a line feed. The first line that is
    /// refused ends the run with its error and no machine code.
    pub fn to_bytes(&mut self) -> (bytes: Result<String, ToolError>)
        requires
            old(self).lines().len() <= MAX_LINES,
        ensures
            final(self).lines() == old(self).lines(),
            final(self).symbols() == assemble(old(self).symbols(), old(self).lines()).symbols,
            agrees(bytes, assemble(old(self).symbols(), old(self).lines()).result),
    {
        let ghost lines = self.lines();
        match self.fill_symbol_table() {
            Err(e) => {
                return Err(e);
            },
            Ok(_) => {},
        }
        let ghost table = self.symbols();
        let ghost mut words: Seq<Seq<char>> = Seq::empty();
        let mut bytes = String::new();
        let mut i: usize = 0;
        assert(lines.take(0) =~= Seq::empty());
        while i < self.lines.len()
            invariant
                i <= self.lines.len(),
                self.lines.len() <= MAX_LINES,
                self.lines() == lines,
                lines == old(self).lines(),
                !first_pass(old(self).symbols(), lines).failed,
                table == first_pass(old(self).symbols(), lines).symbols.with_cursor(
                    FIRST_VARIABLE_ADDRESS,
                ),
                lines.len() == self.lines.len(),
                second_pass(table, lines.take(i as int)) == (Emission {
                    symbols: self.symbols(),
                    words,
                    failure: None,
                }),
                bytes@ == listing(words),
            decreases self.lines.len() - i,
        {
            proof {
                let next = lines.take(i + 1);
                assert(next.drop_last() =~= lines.take(i as int));
                assert(next.last() == self.lines@[i as int]@);
            }
            let kind = self.grammar.command_type(self.lines[i].as_str());
            let token = match kind {
                Ok(Command::ACommand) => search_symbol(
                    self.grammar.pattern(Command::ACommand),
                    self.lines[i].as_str(),
                ),
                _ => Err(ToolError::InvalidSymbol),
            };
            let encoded = match kind {
                Ok(Command::CCommand) => self.code_parser.parse(self.lines[i].clone()),
                _ => Err(ToolError::InvalidInstruction),
            };
            match Parser::second_pass_step(&mut self.symbol_table, kind, token, encoded) {
                Err(e) => {
                    proof {
                        lemma_second_pass_stopped(table, lines, i + 1);
                    }
                    return Err(e);
                },
                Ok(None) => {},
                Ok(Some(word)) => {
                    proof {
                        assert(words.push(word@).drop_last() =~= words);
                        words = words.push(word@);
                    }
                    bytes.append(word.as_str());
                    bytes.append("\n");
                },
            }
            i += 1;
        }
        assert(lines.take(i as int) =~= lines);
        Ok(bytes)
    }
}

} // verus!
