//! The instruction encoder: from the mnemonics of a compute instruction to
//! its 16-bit word.

use crate::assembler::C_PATTERN;
use crate::error::{agrees, ToolError};
use crate::pattern::{captured, finds, Pattern};
use crate::text::{contains_char, is_bits, optional_text};
use vstd::hash_map::StringHashMap;
use vstd::prelude::*;

verus! {

/// The computations on the address register, each with its six bits.
pub open spec fn a_computations() -> Map<Seq<char>, Seq<char>> {
    Map::empty()
        .insert("0"@, "101010"@)
        .insert("1"@, "111111"@)
        .insert("-1"@, "111010"@)
        .insert("D"@, "001100"@)
        .insert("A"@, "110000"@)
        .insert("!D"@, "001101"@)
        .insert("!A"@, "110001"@)
        .insert("-D"@, "001111"@)
        .insert("-A"@, "110011"@)
        .insert("D+1"@, "011111"@)
        .insert("A+1"@, "110111"@)
        .insert("D-1"@, "001110"@)
        .insert("A-1"@, "110010"@)
        .insert("D+A"@, "000010"@)
        .insert("D-A"@, "010011"@)
        .insert("A-D"@, "000111"@)
        .insert("D&A"@, "000000"@)
        .insert("D|A"@, "010101"@)
}

/// The computations on the memory word that the address register points at,
/// each with its six bits.
pub open spec fn m_computations() -> Map<Seq<char>, Seq<char>> {
    Map::empty()
        .insert("M"@, "110000"@)
        .insert("!M"@, "110001"@)
        .insert("-M"@, "110011"@)
        .insert("M+1"@, "110111"@)
        .insert("M-1"@, "110010"@)
        .insert("D+M"@, "000010"@)
        .insert("D-M"@, "010011"@)
        .insert("M-D"@, "000111"@)
        .insert("D&M"@, "000000"@)
        .insert("D|M"@, "010101"@)
}

/// The destinations, each with its three bits.
pub open spec fn destinations() -> Map<Seq<char>, Seq<char>> {
    Map::empty()
        .insert(""@, "000"@)
        .insert("M"@, "001"@)
        .insert("D"@, "010"@)
        .insert("MD"@, "011"@)
        .insert("A"@, "100"@)
        .insert("AM"@, "101"@)
        .insert("AD"@, "110"@)
        .insert("AMD"@, "111"@)
}

/// The jump conditions, each with its three bits.
pub open spec fn jumps() -> Map<Seq<char>, Seq<char>> {
    Map::empty()
        .insert(""@, "000"@)
        .insert("JGT"@, "001"@)
        .insert("JEQ"@, "010"@)
        .insert("JGE"@, "011"@)
        .insert("JLT"@, "100"@)
        .insert("JNE"@, "101"@)
        .insert("JLE"@, "110"@)
        .insert("JMP"@, "111"@)
}

/// What a stored table says: the text of each entry.
pub open spec fn entries(table: Map<Seq<char>, &'static str>) -> Map<Seq<char>, Seq<char>> {
    Map::new(|k: Seq<char>| table.contains_key(k), |k: Seq<char>| table[k]@)
}

/// The field of a computation that no table holds, and of an instruction
/// without a computation: the bits of the computation `0`.
pub open spec fn no_computation() -> Seq<char> {
    "101010"@
}

/// The field of a destination that the table does not hold, and of an
/// instruction without a destination: nothing is stored.
pub open spec fn no_destination() -> Seq<char> {
    "000"@
}

/// The field of a jump condition that the table does not hold, and of an
/// instruction without a jump: the machine does not jump.
pub open spec fn no_jump() -> Seq<char> {
    "000"@
}

/// The bits that `table` gives for `mnemonic`; the bits `default` for a
/// mnemonic that the table does not hold.
pub open spec fn field_of(
    table: Map<Seq<char>, Seq<char>>,
    mnemonic: Seq<char>,
    default: Seq<char>,
) -> Seq<char> {
    if table.contains_key(mnemonic) {
        table[mnemonic]
    } else {
        default
    }
}

/// Whether a computation reads the memory word rather than the address
/// register: its mnemonic holds the letter `M`.
pub open spec fn reads_memory(comp: Seq<char>) -> bool {
    comp.contains('M')
}

/// The operand-select bit of a computation.
pub open spec fn operand_bit(comp: Seq<char>) -> Seq<char> {
    if reads_memory(comp) {
        "1"@
    } else {
        "0"@
    }
}

/// The six bits of a computation, from the table that its operand selects;
/// those of the computation `0` where that table does not hold it.
pub open spec fn computation_bits(comp: Seq<char>) -> Seq<char> {
    if reads_memory(comp) {
        field_of(m_computations(), comp, no_computation())
    } else {
        field_of(a_computations(), comp, no_computation())
    }
}

/// The three bits of a destination; `000` where the table does not hold it.
pub open spec fn destination_bits(dest: Seq<char>) -> Seq<char> {
    field_of(destinations(), dest, no_destination())
}

/// The three bits of a jump condition; `000` where the table does not hold
/// it.
pub open spec fn jump_bits(jump: Seq<char>) -> Seq<char> {
    field_of(jumps(), jump, no_jump())
}

/// The word of a compute instruction with the given parts: the prefix `111`,
/// the operand-select bit, the six bits of the computation, the three of the
/// destination and the three of the jump. A part that is absent counts as the
/// computation `0` on the address register, as destination `000`, or as jump
/// `000`, and so does a part that is unknown.
pub open spec fn encoding(
    dest: Option<Seq<char>>,
    comp: Option<Seq<char>>,
    jump: Option<Seq<char>>,
) -> Seq<char> {
    "111"@ + match comp {
        Some(c) => operand_bit(c) + computation_bits(c),
        None => "0"@ + no_computation(),
    } + match dest {
        Some(d) => destination_bits(d),
        None => no_destination(),
    } + match jump {
        Some(j) => jump_bits(j),
        None => no_jump(),
    }
}

/// The first of two optional texts that is present.
pub open spec fn first_of(a: Option<Seq<char>>, b: Option<Seq<char>>) -> Option<Seq<char>> {
    if a is Some {
        a
    } else {
        b
    }
}

/// The word of the compute instruction on `line`. The line is refused where
/// it holds both `;` and `=`, and where it has not the shape of a compute
/// instruction.
pub open spec fn compute_word(line: Seq<char>) -> Result<Seq<char>, ToolError> {
    if line.contains(';') && line.contains('=') {
        Err(ToolError::InvalidInstruction)
    } else if !finds(C_PATTERN@, line) {
        Err(ToolError::InvalidInstruction)
    } else {
        Ok(
            encoding(
                captured(C_PATTERN@, line, "dest"@),
                first_of(
                    captured(C_PATTERN@, line, "comp1"@),
                    captured(C_PATTERN@, line, "comp2"@),
                ),
                captured(C_PATTERN@, line, "jump"@),
            ),
        )
    }
}

/// The view of an optional string.
pub open spec fn text_of(s: Option<&str>) -> Option<Seq<char>> {
    match s {
        Some(t) => Some(t@),
        None => None,
    }
}

/// The four tables of an encoder as mathematical values.
pub struct Tables {
    pub a_computations: Map<Seq<char>, Seq<char>>,
    pub m_computations: Map<Seq<char>, Seq<char>>,
    pub destinations: Map<Seq<char>, Seq<char>>,
    pub jumps: Map<Seq<char>, Seq<char>>,
}

impl Tables {
    /// The tables of the machine's instruction set.
    pub open spec fn standard() -> Tables {
        Tables {
            a_computations: a_computations(),
            m_computations: m_computations(),
            destinations: destinations(),
            jumps: jumps(),
        }
    }
}

/// The instruction encoder: its lookup tables, and the compiled shape of
/// compute instructions.
pub struct Code {
    a_comp_map: StringHashMap<&'static str>,
    m_comp_map: StringHashMap<&'static str>,
    dest_map: StringHashMap<&'static str>,
    jump_map: StringHashMap<&'static str>,
    shape: Pattern,
}

fn enter(table: &mut StringHashMap<&'static str>, mnemonic: &'static str, bits: &'static str)
    ensures
        entries(final(table)@) == entries(old(table)@).insert(mnemonic@, bits@),
{
    table.insert(String::from_str(mnemonic), bits);
    assert(entries(table@) =~= entries(old(table)@).insert(mnemonic@, bits@));
}

fn look_up(table: &StringHashMap<&'static str>, mnemonic: &str, default: &'static str) -> (bits:
    &'static str)
    ensures
        bits@ == field_of(entries(table@), mnemonic@, default@),
{
    match table.get(mnemonic) {
        Some(bits) => *bits,
        None => default,
    }
}

fn borrowed(text: &Option<String>) -> (r: Option<&str>)
    ensures
        text_of(r) == optional_text(*text),
{
    match text {
        Some(t) => Some(t.as_str()),
        None => None,
    }
}

impl View for Code {
    type V = Tables;

    closed spec fn view(&self) -> Tables {
        Tables {
            a_computations: entries(self.a_comp_map@),
            m_computations: entries(self.m_comp_map@),
            destinations: entries(self.dest_map@),
            jumps: entries(self.jump_map@),
        }
    }
}

impl Code {
    /// Every encoder holds the tables of the machine's instruction set.
    #[verifier::type_invariant]
    spec fn holds_the_tables(&self) -> bool {
        &&& entries(self.a_comp_map@) == a_computations()
        &&& entries(self.m_comp_map@) == m_computations()
        &&& entries(self.dest_map@) == destinations()
        &&& entries(self.jump_map@) == jumps()
        &&& self.shape@ == C_PATTERN@
    }

    /// Builds the four tables, and compiles the shape of compute
    /// instructions.
    pub fn new() -> (code: Self)
        ensures
            code@ == Tables::standard(),
    {
        let mut a_comp_map: StringHashMap<&'static str> = StringHashMap::new();
        assert(entries(a_comp_map@) =~= Map::empty());
        enter(&mut a_comp_map, "0", "101010");
        enter(&mut a_comp_map, "1", "111111");
        enter(&mut a_comp_map, "-1", "111010");
        enter(&mut a_comp_map, "D", "001100");
        enter(&mut a_comp_map, "A", "110000");
        enter(&mut a_comp_map, "!D", "001101");
        enter(&mut a_comp_map, "!A", "110001");
        enter(&mut a_comp_map, "-D", "001111");
        enter(&mut a_comp_map, "-A", "110011");
        enter(&mut a_comp_map, "D+1", "011111");
        enter(&mut a_comp_map, "A+1", "110111");
        enter(&mut a_comp_map, "D-1", "001110");
        enter(&mut a_comp_map, "A-1", "110010");
        enter(&mut a_comp_map, "D+A", "000010");
        enter(&mut a_comp_map, "D-A", "010011");
        enter(&mut a_comp_map, "A-D", "000111");
        enter(&mut a_comp_map, "D&A", "000000");
        enter(&mut a_comp_map, "D|A", "010101");

        let mut m_comp_map: StringHashMap<&'static str> = StringHashMap::new();
        assert(entries(m_comp_map@) =~= Map::empty());
        enter(&mut m_comp_map, "M", "110000");
        enter(&mut m_comp_map, "!M", "110001");
        enter(&mut m_comp_map, "-M", "110011");
        enter(&mut m_comp_map, "M+1", "110111");
        enter(&mut m_comp_map, "M-1", "110010");
        enter(&mut m_comp_map, "D+M", "000010");
        enter(&mut m_comp_map, "D-M", "010011");
        enter(&mut m_comp_map, "M-D", "000111");
        enter(&mut m_comp_map, "D&M", "000000");
        enter(&mut m_comp_map, "D|M", "010101");

        let mut dest_map: StringHashMap<&'static str> = StringHashMap::new();
        assert(entries(dest_map@) =~= Map::empty());
        enter(&mut dest_map, "", "000");
        enter(&mut dest_map, "M", "001");
        enter(&mut dest_map, "D", "010");
        enter(&mut dest_map, "MD", "011");
        enter(&mut dest_map, "A", "100");
        enter(&mut dest_map, "AM", "101");
        enter(&mut dest_map, "AD", "110");
        enter(&mut dest_map, "AMD", "111");

        let mut jump_map: StringHashMap<&'static str> = StringHashMap::new();
        assert(entries(jump_map@) =~= Map::empty());
        enter(&mut jump_map, "", "000");
        enter(&mut jump_map, "JGT", "001");
        enter(&mut jump_map, "JEQ", "010");
        enter(&mut jump_map, "JGE", "011");
        enter(&mut jump_map, "JLT", "100");
        enter(&mut jump_map, "JNE", "101");
        enter(&mut jump_map, "JLE", "110");
        enter(&mut jump_map, "JMP", "111");

        Self { a_comp_map, m_comp_map, dest_map, jump_map, shape: Pattern::new(C_PATTERN) }
    }

    /// Looks up a computation: its six bits, then its operand-select bit. A
    /// mnemonic with the letter `M` is looked up among the computations on
    /// memory, any other among those on the address register; one that its
    /// table does not hold has the bits of the computation `0`.
    pub fn get_comp(&self, code: &str) -> (fields: (&'static str, &'static str))
        ensures
            fields.0@ == computation_bits(code@),
            fields.1@ == operand_bit(code@),
            fields.0@.len() == 6,
            fields.1@.len() == 1,
            is_bits(fields.0@),
            is_bits(fields.1@),
    {
        proof {
            use_type_invariant(self);
            lemma_computation_bits(code@);
        }
        if contains_char(code, 'M') {
            (look_up(&self.m_comp_map, code, "101010"), "1")
        } else {
            (look_up(&self.a_comp_map, code, "101010"), "0")
        }
    }

    /// Looks up the three bits of a destination; `000` for one that the
    /// table does not hold.
    pub fn get_dest(&self, code: &str) -> (bits: &'static str)
        ensures
            bits@ == destination_bits(code@),
            bits@.len() == 3,
            is_bits(bits@),
    {
        proof {
            use_type_invariant(self);
            lemma_three_bits(code@);
        }
        look_up(&self.dest_map, code, "000")
    }

    /// Looks up the three bits of a jump condition; `000` for one that the
    /// table does not hold.
    pub fn get_jump(&self, code: &str) -> (bits: &'static str)
        ensures
            bits@ == jump_bits(code@),
            bits@.len() == 3,
            is_bits(bits@),
    {
        proof {
            use_type_invariant(self);
            lemma_three_bits(code@);
        }
        look_up(&self.jump_map, code, "000")
    }

    /// Encodes a compute instruction from its three parts, each of which may
    /// be absent or unknown. The word always has sixteen binary digits.
    pub fn encode(&self, dest: Option<&str>, comp: Option<&str>, jump: Option<&str>) -> (word:
        String)
        ensures
            word@ == encoding(text_of(dest), text_of(comp), text_of(jump)),
            word@.len() == 16,
            is_bits(word@),
    {
        let mut word = String::from_str("111");
        match comp {
            Some(c) => {
                let fields = self.get_comp(c);
                word.append(fields.1);
                word.append(fields.0);
            },
            None => {
                word.append("0");
                word.append("101010");
            },
        }
        match dest {
            Some(d) => {
                word.append(self.get_dest(d));
            },
            None => {
                word.append("000");
            },
        }
        match jump {
            Some(j) => {
                word.append(self.get_jump(j));
            },
            None => {
                word.append("000");
            },
        }
        proof {
            let model = encoding(text_of(dest), text_of(comp), text_of(jump));
            assert(word@ =~= model);
            lemma_compute_word_shape(text_of(dest), text_of(comp), text_of(jump));
        }
        word
    }

    /// Encodes the compute instruction on one line. A line that is accepted
    /// gives a word of sixteen binary digits.
    pub fn parse(&self, instruction: String) -> (word: Result<String, ToolError>)
        ensures
            agrees(word, compute_word(instruction@)),
            word matches Ok(w) ==> w@.len() == 16 && is_bits(w@),
    {
        proof {
            use_type_invariant(self);
        }
        let line = instruction.as_str();
        if contains_char(line, ';') && contains_char(line, '=') {
            return Err(ToolError::InvalidInstruction);
        }
        if !self.shape.search(line) {
            return Err(ToolError::InvalidInstruction);
        }
        let dest = self.shape.extract(line, "dest");
        let comp1 = self.shape.extract(line, "comp1");
        let comp2 = self.shape.extract(line, "comp2");
        let jump = self.shape.extract(line, "jump");
        let comp = if comp1.is_some() {
            comp1
        } else {
            comp2
        };
        Ok(self.encode(borrowed(&dest), borrowed(&comp), borrowed(&jump)))
    }
}

/// The computations on the address register do not name the memory word, and
/// each has six binary digits.
pub proof fn lemma_a_computations(comp: Seq<char>)
    requires
        a_computations().contains_key(comp),
    ensures
        !reads_memory(comp),
        a_computations()[comp].len() == 6,
        is_bits(a_computations()[comp]),
{
    reveal_strlit("0");
    reveal_strlit("1");
    reveal_strlit("-1");
    reveal_strlit("D");
    reveal_strlit("A");
    reveal_strlit("!D");
    reveal_strlit("!A");
    reveal_strlit("-D");
    reveal_strlit("-A");
    reveal_strlit("D+1");
    reveal_strlit("A+1");
    reveal_strlit("D-1");
    reveal_strlit("A-1");
    reveal_strlit("D+A");
    reveal_strlit("D-A");
    reveal_strlit("A-D");
    reveal_strlit("D&A");
    reveal_strlit("D|A");
    reveal_strlit("101010");
    reveal_strlit("111111");
    reveal_strlit("111010");
    reveal_strlit("001100");
    reveal_strlit("110000");
    reveal_strlit("001101");
    reveal_strlit("110001");
    reveal_strlit("001111");
    reveal_strlit("110011");
    reveal_strlit("011111");
    reveal_strlit("110111");
    reveal_strlit("001110");
    reveal_strlit("110010");
    reveal_strlit("000010");
    reveal_strlit("010011");
    reveal_strlit("000111");
    reveal_strlit("000000");
    reveal_strlit("010101");
}

/// The computations on memory name the memory word, and each has six binary
/// digits.
pub proof fn lemma_m_computations(comp: Seq<char>)
    requires
        m_computations().contains_key(comp),
    ensures
        reads_memory(comp),
        m_computations()[comp].len() == 6,
        is_bits(m_computations()[comp]),
{
    reveal_strlit("M");
    reveal_strlit("!M");
    reveal_strlit("-M");
    reveal_strlit("M+1");
    reveal_strlit("M-1");
    reveal_strlit("D+M");
    reveal_strlit("D-M");
    reveal_strlit("M-D");
    reveal_strlit("D&M");
    reveal_strlit("D|M");
    reveal_strlit("110000");
    reveal_strlit("110001");
    reveal_strlit("110011");
    reveal_strlit("110111");
    reveal_strlit("110010");
    reveal_strlit("000010");
    reveal_strlit("010011");
    reveal_strlit("000111");
    reveal_strlit("000000");
    reveal_strlit("010101");
    if comp == "M"@ {
        assert(comp[0] == 'M');
    } else if comp == "!M"@ || comp == "-M"@ {
        assert(comp[1] == 'M');
    } else if comp == "M+1"@ || comp == "M-1"@ || comp == "M-D"@ {
        assert(comp[0] == 'M');
    } else {
        assert(comp[2] == 'M');
    }
}

/// Every computation, known or not, has six binary digits, and its operand
/// bit is one binary digit.
pub proof fn lemma_computation_bits(comp: Seq<char>)
    ensures
        computation_bits(comp).len() == 6,
        is_bits(computation_bits(comp)),
        operand_bit(comp).len() == 1,
        is_bits(operand_bit(comp)),
        no_computation().len() == 6,
        is_bits(no_computation()),
{
    reveal_strlit("0");
    reveal_strlit("1");
    reveal_strlit("101010");
    if a_computations().contains_key(comp) {
        lemma_a_computations(comp);
    }
    if m_computations().contains_key(comp) {
        lemma_m_computations(comp);
    }
}

/// Every destination and every jump condition, known or not, has three
/// binary digits.
pub proof fn lemma_three_bits(mnemonic: Seq<char>)
    ensures
        destination_bits(mnemonic).len() == 3,
        is_bits(destination_bits(mnemonic)),
        jump_bits(mnemonic).len() == 3,
        is_bits(jump_bits(mnemonic)),
        no_destination().len() == 3,
        is_bits(no_destination()),
        no_jump().len() == 3,
        is_bits(no_jump()),
{
    reveal_strlit("");
    reveal_strlit("M");
    reveal_strlit("D");
    reveal_strlit("MD");
    reveal_strlit("A");
    reveal_strlit("AM");
    reveal_strlit("AD");
    reveal_strlit("AMD");
    reveal_strlit("JGT");
    reveal_strlit("JEQ");
    reveal_strlit("JGE");
    reveal_strlit("JLT");
    reveal_strlit("JNE");
    reveal_strlit("JLE");
    reveal_strlit("JMP");
    reveal_strlit("000");
    reveal_strlit("001");
    reveal_strlit("010");
    reveal_strlit("011");
    reveal_strlit("100");
    reveal_strlit("101");
    reveal_strlit("110");
    reveal_strlit("111");
}

/// Every compute instruction, whatever its parts, encodes to a word of
/// exactly sixteen binary digits that starts with `111`.
pub proof fn lemma_compute_word_shape(
    dest: Option<Seq<char>>,
    comp: Option<Seq<char>>,
    jump: Option<Seq<char>>,
)
    ensures
        encoding(dest, comp, jump).len() == 16,
        is_bits(encoding(dest, comp, jump)),
        encoding(dest, comp, jump).subrange(0, 3) == seq!['1', '1', '1'],
{
    reveal_strlit("111");
    reveal_strlit("0");
    match comp {
        Some(c) => lemma_computation_bits(c),
        None => lemma_computation_bits(Seq::empty()),
    }
    match dest {
        Some(d) => lemma_three_bits(d),
        None => lemma_three_bits(Seq::empty()),
    }
    match jump {
        Some(j) => lemma_three_bits(j),
        None => lemma_three_bits(Seq::empty()),
    }
    let word = encoding(dest, comp, jump);
    assert(word.subrange(0, 3) =~= seq!['1', '1', '1']);
}

/// Every line that is accepted as a compute instruction encodes to a word of
/// exactly sixteen binary digits that starts with `111`.
pub proof fn lemma_parsed_word_shape(line: Seq<char>)
    requires
        compute_word(line) is Ok,
    ensures
        compute_word(line)->Ok_0.len() == 16,
        is_bits(compute_word(line)->Ok_0),
        compute_word(line)->Ok_0.subrange(0, 3) == seq!['1', '1', '1'],
{
    lemma_compute_word_shape(
        captured(C_PATTERN@, line, "dest"@),
        first_of(captured(C_PATTERN@, line, "comp1"@), captured(C_PATTERN@, line, "comp2"@)),
        captured(C_PATTERN@, line, "jump"@),
    );
}

} // verus!
