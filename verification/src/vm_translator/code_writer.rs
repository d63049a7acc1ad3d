//! The code generator: one fixed run of assembly lines per stack-machine
//! command.

use crate::text::{decimal, decimal_text, equal};
use vstd::hash_map::StringHashMap;
use vstd::prelude::*;

verus! {

/// What a code generator has done so far: the assembly text it has written,
/// and how often it has emitted each operator.
pub struct Written {
    pub text: Seq<char>,
    pub counts: Map<Seq<char>, nat>,
}

impl Written {
    /// A generator that has done nothing yet.
    pub open spec fn nothing() -> Written {
        Written { text: Seq::empty(), counts: Map::empty() }
    }

    /// How often `operator` was emitted.
    pub open spec fn count(self, operator: Seq<char>) -> nat {
        if self.counts.contains_key(operator) {
            self.counts[operator]
        } else {
            0
        }
    }

    /// The state after `text` was written.
    pub open spec fn write(self, text: Seq<char>) -> Written {
        Written { text: self.text + text, counts: self.counts }
    }

    /// The state after a push or a pop was emitted.
    pub open spec fn push_pop(
        self,
        name: Seq<char>,
        command: Seq<char>,
        segment: Seq<char>,
        index: nat,
    ) -> Written {
        self.write(declaration_text(name, command, segment, index)).write(
            push_pop_text(name, command, segment, index),
        )
    }

    /// The state after `operator` was emitted: its text is written with the
    /// operator's count in the labels, and the count goes up by one. An
    /// unknown operator changes nothing.
    pub open spec fn arithmetic(self, operator: Seq<char>) -> Written {
        if is_operator(operator) {
            Written {
                text: self.text + arithmetic_text(operator, self.count(operator)),
                counts: self.counts.insert(operator, self.count(operator) + 1),
            }
        } else {
            self
        }
    }
}

/// `s` written `n` times in a row.
pub open spec fn repeated(s: Seq<char>, n: nat) -> Seq<char>
    decreases n,
{
    if n == 0 {
        Seq::empty()
    } else {
        repeated(s, (n - 1) as nat) + s
    }
}

/// The symbol that stands for entry `index` of the static segment of the
/// translation unit `name`.
pub open spec fn static_symbol(name: Seq<char>, index: nat) -> Seq<char> {
    name + "."@ + decimal_text(index)
}

/// Whether a segment lies in memory: every segment but `constant`, which
/// has values and no addresses.
pub open spec fn has_address(segment: Seq<char>) -> bool {
    segment == "local"@ || segment == "argument"@ || segment == "this"@ || segment == "that"@
        || segment == "pointer"@ || segment == "temp"@ || segment == "static"@
}

/// The greatest constant that an address instruction can load.
pub const MAX_CONSTANT: usize = 65535;

/// Whether there is code for a command on an entry of a segment: a push
/// reads an entry in memory or a constant that an instruction can load, a
/// pop stores to an entry in memory.
pub open spec fn has_code(command: Seq<char>, segment: Seq<char>, index: nat) -> bool {
    (command == "push"@ && ((segment == "constant"@ && index <= MAX_CONSTANT) || has_address(
        segment,
    ))) || (command == "pop"@ && has_address(segment))
}

/// The lines that put the base of a segment into the address register. The
/// segments `local`, `argument`, `this` and `that` are reached through their
/// base pointer, `pointer` and `temp` start at a fixed address, and an entry
/// of `static` has a symbol of its own. A segment that does not lie in
/// memory has no such lines.
pub open spec fn segment_address(name: Seq<char>, segment: Seq<char>, index: nat) -> Seq<char> {
    if segment == "local"@ {
        "@LCL\nA=M"@
    } else if segment == "argument"@ {
        "@ARG\nA=M"@
    } else if segment == "this"@ {
        "@THIS\nA=M"@
    } else if segment == "that"@ {
        "@THAT\nA=M"@
    } else if segment == "pointer"@ {
        "@3"@
    } else if segment == "temp"@ {
        "@5"@
    } else if segment == "static"@ {
        "@"@ + static_symbol(name, index)
    } else {
        Seq::empty()
    }
}

/// The lines that move the address register from the base of a segment to
/// its entry `index`: one increment per step. An entry of `static` is
/// addressed by its symbol and needs none.
pub open spec fn index_steps(segment: Seq<char>, index: nat) -> Seq<char> {
    if segment == "static"@ {
        Seq::empty()
    } else {
        repeated("A=A+1\n"@, index)
    }
}

/// The lines that load the value to push into the data register.
pub open spec fn pushed_value(name: Seq<char>, segment: Seq<char>, index: nat) -> Seq<char> {
    if segment == "constant"@ {
        "@"@ + decimal_text(index) + "\nD=A"@
    } else if segment == "static"@ {
        "@"@ + static_symbol(name, index) + "\nD=M"@
    } else {
        segment_address(name, segment, index) + "\n"@ + index_steps(segment, index) + "D=M"@
    }
}

/// The declaration that goes before a pop into the static segment, so that
/// the symbol of the entry exists; empty for any other command.
pub open spec fn declaration_text(
    name: Seq<char>,
    command: Seq<char>,
    segment: Seq<char>,
    index: nat,
) -> Seq<char> {
    if command == "pop"@ && segment == "static"@ {
        "("@ + static_symbol(name, index) + ")\n"@
    } else {
        Seq::empty()
    }
}

/// The assembly of a push or a pop. A push loads the value, stores it at the
/// top of the stack and increments the stack pointer. A pop decrements the
/// stack pointer, loads the value at the top of the stack and stores it at
/// the entry's address. A command for which there is no code gives no lines:
/// any other command word, an unknown segment, a pop to `constant`, a push
/// of a constant that no instruction can load.
pub open spec fn push_pop_text(
    name: Seq<char>,
    command: Seq<char>,
    segment: Seq<char>,
    index: nat,
) -> Seq<char> {
    if !has_code(command, segment, index) {
        Seq::empty()
    } else if command == "push"@ {
        pushed_value(name, segment, index) + "\n@SP\nA=M\nM=D\n@SP\nM=M+1\n"@
    } else if command == "pop"@ {
        "@SP\nM=M-1\nA=M\nD=M\n"@ + segment_address(name, segment, index) + "\n"@ + index_steps(
            segment,
            index,
        ) + "M=D\n"@
    } else {
        Seq::empty()
    }
}

/// Whether `operator` is one of the nine arithmetic and logic operators.
pub open spec fn is_operator(operator: Seq<char>) -> bool {
    operator == "add"@ || operator == "sub"@ || operator == "neg"@ || operator == "eq"@
        || operator == "gt"@ || operator == "lt"@ || operator == "and"@ || operator == "or"@
        || operator == "not"@
}

/// Whether an operator takes one operand only.
pub open spec fn is_unary(operator: Seq<char>) -> bool {
    operator == "neg"@ || operator == "not"@
}

/// The name of the label at which the comparison `tag` number `n` writes
/// the true sentinel.
pub open spec fn true_label(tag: Seq<char>, n: nat) -> Seq<char> {
    tag + "_TRUE_"@ + decimal_text(n)
}

/// The name of the label at which both branches of the comparison `tag`
/// number `n` meet.
pub open spec fn result_label(tag: Seq<char>, n: nat) -> Seq<char> {
    tag + "_RESULT_"@ + decimal_text(n)
}

/// The lines of a comparison: the difference of the operands, a jump on
/// `jump` to the branch that writes the true sentinel -1, the branch that
/// writes the false sentinel 0, and the label at which both meet.
pub open spec fn comparison_text(tag: Seq<char>, jump: Seq<char>, n: nat) -> Seq<char> {
    "D=M-D\n@"@ + true_label(tag, n) + "\nD;"@ + jump + "\nD=0\n@"@ + result_label(tag, n)
        + "\n0;JMP\n("@ + true_label(tag, n) + ")\nD=-1\n("@ + result_label(tag, n) + ")"@
}

/// The lines that apply an operator to the operands: the first popped in the
/// data register, the second in memory. The comparisons carry the number `n`
/// in their labels.
pub open spec fn operation_text(operator: Seq<char>, n: nat) -> Seq<char> {
    if operator == "add"@ {
        "D=D+M"@
    } else if operator == "sub"@ {
        "D=M-D"@
    } else if operator == "neg"@ {
        "D=-D"@
    } else if operator == "eq"@ {
        comparison_text("EQ"@, "JEQ"@, n)
    } else if operator == "gt"@ {
        comparison_text("GT"@, "JGT"@, n)
    } else if operator == "lt"@ {
        comparison_text("LT"@, "JLT"@, n)
    } else if operator == "and"@ {
        "D=D&M"@
    } else if operator == "or"@ {
        "D=D|M"@
    } else if operator == "not"@ {
        "D=!D"@
    } else {
        Seq::empty()
    }
}

/// The lines that pop the second operand, for the operators that have one.
pub open spec fn second_operand_text(operator: Seq<char>) -> Seq<char> {
    if is_unary(operator) {
        Seq::empty()
    } else {
        "@SP\nM=M-1\nA=M\n"@
    }
}

/// The assembly of an arithmetic or logic command: pop the operands, apply
/// the operator, push the result.
pub open spec fn arithmetic_text(operator: Seq<char>, n: nat) -> Seq<char> {
    "@SP\nM=M-1\nA=M\nD=M\n"@ + second_operand_text(operator) + operation_text(operator, n)
        + "\n@SP\nA=M\nM=D\n@SP\nM=M+1\n"@
}

/// All of `chunks` in a row.
pub open spec fn joined(chunks: Seq<String>) -> Seq<char>
    decreases chunks.len(),
{
    if chunks.len() == 0 {
        Seq::empty()
    } else {
        joined(chunks.drop_last()) + chunks.last()@
    }
}

/// The counts that a stored table holds.
pub open spec fn tallies(table: Map<Seq<char>, usize>) -> Map<Seq<char>, nat> {
    Map::new(|k: Seq<char>| table.contains_key(k), |k: Seq<char>| table[k] as nat)
}

fn static_name(name: &str, index: usize) -> (symbol: String)
    ensures
        symbol@ == static_symbol(name@, index as nat),
{
    let mut symbol = String::from_str(name);
    symbol.append(".");
    symbol.append(decimal(index as u64).as_str());
    symbol
}

fn segment_lines(name: &str, segment: &str, index: usize) -> (lines: String)
    ensures
        lines@ == segment_address(name@, segment@, index as nat),
{
    if equal(segment, "local") {
        String::from_str("@LCL\nA=M")
    } else if equal(segment, "argument") {
        String::from_str("@ARG\nA=M")
    } else if equal(segment, "this") {
        String::from_str("@THIS\nA=M")
    } else if equal(segment, "that") {
        String::from_str("@THAT\nA=M")
    } else if equal(segment, "pointer") {
        String::from_str("@3")
    } else if equal(segment, "temp") {
        String::from_str("@5")
    } else if equal(segment, "static") {
        let mut lines = String::from_str("@");
        lines.append(static_name(name, index).as_str());
        lines
    } else {
        String::new()
    }
}

fn step_lines(segment: &str, index: usize) -> (lines: String)
    ensures
        lines@ == index_steps(segment@, index as nat),
{
    let mut lines = String::new();
    if !equal(segment, "static") {
        let mut i: usize = 0;
        while i < index
            invariant
                i <= index,
                lines@ == repeated("A=A+1\n"@, i as nat),
            decreases index - i,
        {
            lines.append("A=A+1\n");
            i += 1;
        }
    }
    lines
}

fn value_lines(name: &str, segment: &str, index: usize) -> (lines: String)
    ensures
        lines@ == pushed_value(name@, segment@, index as nat),
{
    if equal(segment, "constant") {
        let mut lines = String::from_str("@");
        lines.append(decimal(index as u64).as_str());
        lines.append("\nD=A");
        lines
    } else if equal(segment, "static") {
        let mut lines = String::from_str("@");
        lines.append(static_name(name, index).as_str());
        lines.append("\nD=M");
        lines
    } else {
        let mut lines = segment_lines(name, segment, index);
        lines.append("\n");
        lines.append(step_lines(segment, index).as_str());
        lines.append("D=M");
        lines
    }
}

fn declaration_lines(name: &str, command: &str, segment: &str, index: usize) -> (lines: String)
    ensures
        lines@ == declaration_text(name@, command@, segment@, index as nat),
{
    if equal(command, "pop") && equal(segment, "static") {
        let mut lines = String::from_str("(");
        lines.append(static_name(name, index).as_str());
        lines.append(")\n");
        lines
    } else {
        String::new()
    }
}

/// Whether there is code for a command on an entry of a segment.
pub fn can_emit(command: &str, segment: &str, index: usize) -> (yes: bool)
    ensures
        yes == has_code(command@, segment@, index as nat),
{
    let in_memory = equal(segment, "local") || equal(segment, "argument") || equal(segment, "this")
        || equal(segment, "that") || equal(segment, "pointer") || equal(segment, "temp") || equal(
        segment,
        "static",
    );
    (equal(command, "push") && ((equal(segment, "constant") && index <= MAX_CONSTANT)
        || in_memory)) || (equal(command, "pop") && in_memory)
}

fn push_pop_lines(name: &str, command: &str, segment: &str, index: usize) -> (lines: String)
    ensures
        lines@ == push_pop_text(name@, command@, segment@, index as nat),
{
    if !can_emit(command, segment, index) {
        String::new()
    } else if equal(command, "push") {
        let mut lines = value_lines(name, segment, index);
        lines.append("\n@SP\nA=M\nM=D\n@SP\nM=M+1\n");
        lines
    } else if equal(command, "pop") {
        let mut lines = String::from_str("@SP\nM=M-1\nA=M\nD=M\n");
        lines.append(segment_lines(name, segment, index).as_str());
        lines.append("\n");
        lines.append(step_lines(segment, index).as_str());
        lines.append("M=D\n");
        lines
    } else {
        String::new()
    }
}

fn label_name(tag: &str, middle: &str, n: usize) -> (label: String)
    ensures
        label@ == tag@ + middle@ + decimal_text(n as nat),
{
    let mut label = String::from_str(tag);
    label.append(middle);
    label.append(decimal(n as u64).as_str());
    label
}

fn comparison_lines(tag: &str, jump: &str, n: usize) -> (lines: String)
    ensures
        lines@ == comparison_text(tag@, jump@, n as nat),
{
    let on_true = label_name(tag, "_TRUE_", n);
    let on_result = label_name(tag, "_RESULT_", n);
    let mut lines = String::from_str("D=M-D\n@");
    lines.append(on_true.as_str());
    lines.append("\nD;");
    lines.append(jump);
    lines.append("\nD=0\n@");
    lines.append(on_result.as_str());
    lines.append("\n0;JMP\n(");
    lines.append(on_true.as_str());
    lines.append(")\nD=-1\n(");
    lines.append(on_result.as_str());
    lines.append(")");
    lines
}

fn operation_lines(operator: &str, n: usize) -> (lines: String)
    ensures
        lines@ == operation_text(operator@, n as nat),
{
    if equal(operator, "add") {
        String::from_str("D=D+M")
    } else if equal(operator, "sub") {
        String::from_str("D=M-D")
    } else if equal(operator, "neg") {
        String::from_str("D=-D")
    } else if equal(operator, "eq") {
        comparison_lines("EQ", "JEQ", n)
    } else if equal(operator, "gt") {
        comparison_lines("GT", "JGT", n)
    } else if equal(operator, "lt") {
        comparison_lines("LT", "JLT", n)
    } else if equal(operator, "and") {
        String::from_str("D=D&M")
    } else if equal(operator, "or") {
        String::from_str("D=D|M")
    } else if equal(operator, "not") {
        String::from_str("D=!D")
    } else {
        String::new()
    }
}

/// Whether `operator` is one of the nine arithmetic and logic operators.
pub fn knows_operator(operator: &str) -> (yes: bool)
    ensures
        yes == is_operator(operator@),
{
    equal(operator, "add") || equal(operator, "sub") || equal(operator, "neg") || equal(
        operator,
        "eq",
    ) || equal(operator, "gt") || equal(operator, "lt") || equal(operator, "and") || equal(
        operator,
        "or",
    ) || equal(operator, "not")
}

fn arithmetic_lines(operator: &str, n: usize) -> (lines: String)
    ensures
        lines@ == arithmetic_text(operator@, n as nat),
{
    let mut lines = String::from_str("@SP\nM=M-1\nA=M\nD=M\n");
    if !equal(operator, "neg") && !equal(operator, "not") {
        lines.append("@SP\nM=M-1\nA=M\n");
    } else {
        assert(lines@ + Seq::<char>::empty() =~= lines@);
    }
    lines.append(operation_lines(operator, n).as_str());
    lines.append("\n@SP\nA=M\nM=D\n@SP\nM=M+1\n");
    lines
}

/// Writing the empty text changes nothing.
proof fn lemma_write_nothing(before: Written)
    ensures
        before.write(""@) == before,
{
    reveal_strlit("");
    assert(before.text + ""@ =~= before.text);
}

/// The code generator of one translation run.
pub struct CodeWriter {
    out_writer: Vec<String>,
    operator_count: StringHashMap<usize>,
}

impl View for CodeWriter {
    type V = Written;

    closed spec fn view(&self) -> Written {
        Written { text: joined(self.out_writer@), counts: tallies(self.operator_count@) }
    }
}

impl CodeWriter {
    /// No operator was emitted more often than texts were written.
    #[verifier::type_invariant]
    spec fn counts_are_bounded(&self) -> bool {
        forall|operator: Seq<char>| #[trigger]
            self.operator_count@.contains_key(operator) ==> self.operator_count@[operator]
                <= self.out_writer@.len()
    }

    /// A generator that has written nothing and emitted no operator.
    pub fn new() -> (writer: Self)
        ensures
            writer@ == Written::nothing(),
    {
        let writer = Self { out_writer: Vec::new(), operator_count: StringHashMap::new() };
        assert(writer@.counts =~= Map::empty());
        writer
    }

    /// Everything written so far, as one text.
    pub fn output(&self) -> (text: String)
        ensures
            text@ == self@.text,
    {
        let mut text = String::new();
        let mut i: usize = 0;
        assert(self.out_writer@.take(0) =~= Seq::empty());
        while i < self.out_writer.len()
            invariant
                i <= self.out_writer.len(),
                text@ == joined(self.out_writer@.take(i as int)),
            decreases self.out_writer.len() - i,
        {
            assert(self.out_writer@.take(i + 1).drop_last() =~= self.out_writer@.take(i as int));
            text.append(self.out_writer[i].as_str());
            i += 1;
        }
        assert(self.out_writer@.take(i as int) =~= self.out_writer@);
        text
    }

    /// How often `operator` was emitted.
    pub fn emitted(&self, operator: &str) -> (n: usize)
        ensures
            n == self@.count(operator@),
    {
        match self.operator_count.get(operator) {
            Some(n) => *n,
            None => 0,
        }
    }

    /// Writes `line` to the output.
    pub fn write(&mut self, line: &str)
        ensures
            final(self)@ == old(self)@.write(line@),
    {
        proof {
            use_type_invariant(&*self);
        }
        // The fields are taken out, changed and put back as a whole value,
        // on which the invariant is checked.
        let mut taken = CodeWriter::new();
        std::mem::swap(self, &mut taken);
        let CodeWriter { mut out_writer, operator_count } = taken;
        let chunk = String::from_str(line);
        assert(out_writer@.push(chunk).drop_last() =~= out_writer@);
        out_writer.push(chunk);
        *self = CodeWriter { out_writer, operator_count };
    }

    /// Emits a push or a pop of entry `index` of `segment`, for the
    /// translation unit `name`. A command for which there is no code emits
    /// nothing.
    pub fn write_push_pop(&mut self, name: &str, command_type: &str, segment: &str, index: usize)
        ensures
            final(self)@ == old(self)@.push_pop(name@, command_type@, segment@, index as nat),
    {
        let declaration = declaration_lines(name, command_type, segment, index);
        self.write(declaration.as_str());
        let translated_code = push_pop_lines(name, command_type, segment, index);
        self.write(translated_code.as_str());
    }

    /// Emits an arithmetic or logic command. A comparison gets labels that
    /// carry the number of times its operator was emitted before. An unknown
    /// operator emits nothing and is not counted.
    pub fn write_arithmetic(&mut self, operator: &str)
        ensures
            final(self)@ == old(self)@.arithmetic(operator@),
    {
        proof {
            use_type_invariant(&*self);
        }
        if !knows_operator(operator) {
            return ;
        }
        let current_count: usize = self.emitted(operator);
        let translated_code = arithmetic_lines(operator, current_count);
        // The fields are taken out, changed and put back as a whole value,
        // on which the invariant is checked.
        let mut taken = CodeWriter::new();
        std::mem::swap(self, &mut taken);
        let CodeWriter { mut out_writer, mut operator_count } = taken;
        assert(out_writer@.push(translated_code).drop_last() =~= out_writer@);
        out_writer.push(translated_code);
        // The operator was emitted no more often than texts were written
        // before this one, so its count is below the number of texts.
        let written: usize = out_writer.len();
        assert(current_count < written);
        operator_count.insert(String::from_str(operator), current_count + 1);
        *self = CodeWriter { out_writer, operator_count };
        assert(self@.counts =~= old(self)@.counts.insert(
            operator@,
            old(self)@.count(operator@) + 1,
        ));
    }

    /// Emits a label declaration: nothing, so far.
    pub fn write_label(&mut self, label_name: &str)
        ensures
            final(self)@ == old(self)@,
    {
        self.write("");
        proof {
            lemma_write_nothing(old(self)@);
        }
    }

    /// Emits an unconditional jump: nothing, so far.
    pub fn write_goto(&mut self, label_name: &str)
        ensures
            final(self)@ == old(self)@,
    {
        self.write("");
        proof {
            lemma_write_nothing(old(self)@);
        }
    }

    /// Emits a conditional jump: nothing, so far.
    pub fn write_if(&mut self, label_name: &str)
        ensures
            final(self)@ == old(self)@,
    {
        self.write("");
        proof {
            lemma_write_nothing(old(self)@);
        }
    }

    /// Emits a function declaration: nothing, so far.
    pub fn write_function(&mut self, function_name: &str, no_args: u8)
        ensures
            final(self)@ == old(self)@,
    {
        self.write("");
        proof {
            lemma_write_nothing(old(self)@);
        }
    }

    /// Emits a function call: nothing, so far.
    pub fn write_call(&mut self, function_name: &str, no_args: u8)
        ensures
            final(self)@ == old(self)@,
    {
        self.write("");
        proof {
            lemma_write_nothing(old(self)@);
        }
    }

    /// Emits a return: nothing, so far.
    pub fn write_return(&mut self)
        ensures
            final(self)@ == old(self)@,
    {
        self.write("");
        proof {
            lemma_write_nothing(old(self)@);
        }
    }
}

} // verus!
