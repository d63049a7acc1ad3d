//! The symbol table: from symbolic names to addresses.

use crate::assembler::{to_binary, Command, A_PATTERN, L_PATTERN};
use crate::error::{agrees, ToolError};
use crate::pattern::{captured, finds, Pattern};
use crate::text::{
    binary_text, digits_value, is_bits, is_digits, is_number, optional_text, parse_decimal,
    unsigned_part,
};
use vstd::hash_map::StringHashMap;
use vstd::prelude::*;

verus! {

/// The first address that is free for variables: the one after the sixteen
/// numbered registers.
pub const FIRST_VARIABLE_ADDRESS: u32 = 16;

/// The last address of the machine: the greatest that a word of sixteen
/// binary digits writes.
pub const MAX_ADDRESS: u32 = 65535;

/// The names that every program can use, each with its address.
pub open spec fn predefined_symbols() -> Map<Seq<char>, u32> {
    Map::empty()
        .insert("SP"@, 0u32)
        .insert("LCL"@, 1u32)
        .insert("ARG"@, 2u32)
        .insert("THIS"@, 3u32)
        .insert("THAT"@, 4u32)
        .insert("R0"@, 0u32)
        .insert("R1"@, 1u32)
        .insert("R2"@, 2u32)
        .insert("R3"@, 3u32)
        .insert("R4"@, 4u32)
        .insert("R5"@, 5u32)
        .insert("R6"@, 6u32)
        .insert("R7"@, 7u32)
        .insert("R8"@, 8u32)
        .insert("R9"@, 9u32)
        .insert("R10"@, 10u32)
        .insert("R11"@, 11u32)
        .insert("R12"@, 12u32)
        .insert("R13"@, 13u32)
        .insert("R14"@, 14u32)
        .insert("R15"@, 15u32)
        .insert("SCREEN"@, 16384u32)
        .insert("KBD"@, 24576u32)
}

/// The number that a token writes out, if it is a decimal literal, however
/// large.
pub open spec fn literal_value(token: Seq<char>) -> Option<nat> {
    if is_digits(unsigned_part(token)) {
        Some(digits_value(unsigned_part(token)))
    } else {
        None
    }
}

/// A symbol table as a mathematical value: the addresses of the known names,
/// and the address that the next new name will get.
pub struct Symbols {
    pub map: Map<Seq<char>, u32>,
    pub cursor: u32,
}

impl Symbols {
    /// The table before any line was read.
    pub open spec fn initial() -> Symbols {
        Symbols { map: predefined_symbols(), cursor: 0 }
    }

    /// The table with `name` bound to `address`, whatever it was bound to.
    pub open spec fn declare(self, name: Seq<char>, address: u32) -> Symbols {
        Symbols { map: self.map.insert(name, address), cursor: self.cursor }
    }

    /// The table with another address for its next new name.
    pub open spec fn with_cursor(self, cursor: u32) -> Symbols {
        Symbols { map: self.map, cursor }
    }

    /// Whether resolving `token` allocates an address: the token is no number
    /// and no known name.
    pub open spec fn allocates(self, token: Seq<char>) -> bool {
        literal_value(token) is None && !self.map.contains_key(token)
    }

    /// The address that `token` resolves to: its value where it is a number,
    /// its binding where it is a known name, and else the next free address.
    pub open spec fn address(self, token: Seq<char>) -> nat {
        match literal_value(token) {
            Some(n) => n,
            None => if self.map.contains_key(token) {
                self.map[token] as nat
            } else {
                self.cursor as nat
            },
        }
    }

    /// The machine word that `token` resolves to: its address in sixteen
    /// binary digits. A token whose address lies beyond the last address of
    /// the machine is an invalid symbol.
    pub open spec fn word(self, token: Seq<char>) -> Result<Seq<char>, ToolError> {
        if self.address(token) <= MAX_ADDRESS {
            Ok(binary_text(self.address(token), 16))
        } else {
            Err(ToolError::InvalidSymbol)
        }
    }

    /// The table after `token` was resolved: a new name is bound to the next
    /// free address, which then moves on by one; a number or a known name
    /// changes nothing.
    pub open spec fn resolve(self, token: Seq<char>) -> Symbols {
        if self.allocates(token) {
            Symbols { map: self.map.insert(token, self.cursor), cursor: (self.cursor + 1) as u32 }
        } else {
            self
        }
    }

    /// The table after an attempt to resolve `token`: as `resolve` leaves it
    /// where the token has a word, and unchanged where it is refused.
    pub open spec fn after_resolving(self, token: Seq<char>) -> Symbols {
        if self.word(token) is Ok {
            self.resolve(token)
        } else {
            self
        }
    }
}

/// The symbol of a line from what a search for its shape gave: whether the
/// shape was found, and what its group `symbol` held. A shape that was not
/// found is an invalid symbol; a group that took no part is the empty symbol.
pub open spec fn symbol_from(found: bool, group: Option<Seq<char>>) -> Result<
    Seq<char>,
    ToolError,
> {
    if !found {
        Err(ToolError::InvalidSymbol)
    } else {
        match group {
            Some(s) => Ok(s),
            None => Ok(Seq::empty()),
        }
    }
}

/// The symbol that a line of the given kind names. Only address instructions
/// and label declarations name one.
pub open spec fn symbol_of(line: Seq<char>, kind: Command) -> Result<Seq<char>, ToolError> {
    match kind {
        Command::ACommand => symbol_from(
            finds(A_PATTERN@, line),
            captured(A_PATTERN@, line, "symbol"@),
        ),
        Command::LCommand => symbol_from(
            finds(L_PATTERN@, line),
            captured(L_PATTERN@, line, "symbol"@),
        ),
        Command::CCommand => Err(ToolError::InvalidSymbol),
    }
}

/// The names of a program with their addresses, and the allocation cursor.
pub struct SymbolTable {
    symbol_map: StringHashMap<u32>,
    ram_pointer: u32,
}

impl View for SymbolTable {
    type V = Symbols;

    closed spec fn view(&self) -> Symbols {
        Symbols { map: self.symbol_map@, cursor: self.ram_pointer }
    }
}

fn seed(table: &mut StringHashMap<u32>, name: &str, address: u32)
    ensures
        final(table)@ == old(table)@.insert(name@, address),
{
    table.insert(String::from_str(name), address);
}

/// Searches a line for the shape `shape` and extracts its symbol.
pub fn search_symbol(shape: &Pattern, line: &str) -> (symbol: Result<String, ToolError>)
    ensures
        agrees(symbol, symbol_from(finds(shape@, line@), captured(shape@, line@, "symbol"@))),
{
    let found = shape.search(line);
    let group = shape.extract(line, "symbol");
    SymbolTable::pick_symbol(found, group)
}

impl SymbolTable {
    /// A table with the predefined names, and the cursor at zero.
    pub fn new() -> (table: Self)
        ensures
            table@ == Symbols::initial(),
    {
        let mut symbol_map: StringHashMap<u32> = StringHashMap::new();
        seed(&mut symbol_map, "SP", 0);
        seed(&mut symbol_map, "LCL", 1);
        seed(&mut symbol_map, "ARG", 2);
        seed(&mut symbol_map, "THIS", 3);
        seed(&mut symbol_map, "THAT", 4);
        seed(&mut symbol_map, "R0", 0);
        seed(&mut symbol_map, "R1", 1);
        seed(&mut symbol_map, "R2", 2);
        seed(&mut symbol_map, "R3", 3);
        seed(&mut symbol_map, "R4", 4);
        seed(&mut symbol_map, "R5", 5);
        seed(&mut symbol_map, "R6", 6);
        seed(&mut symbol_map, "R7", 7);
        seed(&mut symbol_map, "R8", 8);
        seed(&mut symbol_map, "R9", 9);
        seed(&mut symbol_map, "R10", 10);
        seed(&mut symbol_map, "R11", 11);
        seed(&mut symbol_map, "R12", 12);
        seed(&mut symbol_map, "R13", 13);
        seed(&mut symbol_map, "R14", 14);
        seed(&mut symbol_map, "R15", 15);
        seed(&mut symbol_map, "SCREEN", 16384);
        seed(&mut symbol_map, "KBD", 24576);
        Self { symbol_map, ram_pointer: 0 }
    }

    /// The names with their addresses.
    pub fn symbol_map(&self) -> (map: &StringHashMap<u32>)
        ensures
            map@ == self@.map,
    {
        &self.symbol_map
    }

    /// The allocation cursor.
    pub fn ram_pointer(&self) -> (cursor: u32)
        ensures
            cursor == self@.cursor,
    {
        self.ram_pointer
    }

    /// Moves the cursor on by one and returns where it stood.
    pub fn incr_ram_pointer(&mut self) -> (before: u32)
        requires
            old(self)@.cursor < u32::MAX,
        ensures
            before == old(self)@.cursor,
            final(self)@ == old(self)@.with_cursor((old(self)@.cursor + 1) as u32),
    {
        let curr: u32 = self.ram_pointer;
        self.ram_pointer += 1;
        curr
    }

    /// Puts the cursor on the first address that is free for variables.
    pub fn reset_ram_pointer(&mut self)
        ensures
            final(self)@ == old(self)@.with_cursor(FIRST_VARIABLE_ADDRESS),
    {
        self.ram_pointer = FIRST_VARIABLE_ADDRESS;
    }

    /// Binds `key` to the address under the cursor, whatever it was bound to.
    pub fn add_entry(&mut self, key: String)
        ensures
            final(self)@ == old(self)@.declare(key@, old(self)@.cursor),
    {
        self.symbol_map.insert(key, self.ram_pointer);
    }

    /// Binds `name` to `address`, whatever it was bound to.
    pub fn declare(&mut self, name: String, address: u32)
        ensures
            final(self)@ == old(self)@.declare(name@, address),
    {
        self.symbol_map.insert(name, address);
    }

    /// Resolves the token of an address instruction to a machine word of
    /// sixteen binary digits. A number is written out as it is. A name that
    /// the table does not know is first bound to the address under the
    /// cursor, and the cursor moves on. A token whose address lies beyond the
    /// last address of the machine is an invalid symbol, and changes nothing.
    pub fn get_address(&mut self, symbol: &str) -> (word: Result<String, ToolError>)
        ensures
            final(self)@ == old(self)@.after_resolving(symbol@),
            agrees(word, old(self)@.word(symbol@)),
            word matches Ok(w) ==> w@.len() == 16 && is_bits(w@),
    {
        if is_number(symbol) {
            return match parse_decimal(symbol, 65535) {
                Some(number) => Ok(to_binary(number as u32)),
                None => Err(ToolError::InvalidSymbol),
            };
        }
        let known = match self.symbol_map.get(symbol) {
            Some(address) => Some(*address),
            None => None,
        };
        match known {
            Some(address) => {
                if address <= MAX_ADDRESS {
                    Ok(to_binary(address))
                } else {
                    Err(ToolError::InvalidSymbol)
                }
            },
            None => {
                if self.ram_pointer <= MAX_ADDRESS {
                    self.add_entry(String::from_str(symbol));
                    Ok(to_binary(self.incr_ram_pointer()))
                } else {
                    Err(ToolError::InvalidSymbol)
                }
            },
        }
    }

    /// Decides the symbol of a line from what a search for its shape gave.
    pub fn pick_symbol(found: bool, group: Option<String>) -> (symbol: Result<String, ToolError>)
        ensures
            agrees(symbol, symbol_from(found, optional_text(group))),
    {
        if !found {
            return Err(ToolError::InvalidSymbol);
        }
        match group {
            Some(s) => Ok(s),
            None => Ok(String::new()),
        }
    }

    /// Extracts the symbol from an address instruction or a label
    /// declaration. A compute instruction has none.
    pub fn parse_symbol(symbol: String, command_type: Command) -> (name: Result<String, ToolError>)
        ensures
            agrees(name, symbol_of(symbol@, command_type)),
    {
        match command_type {
            Command::ACommand => search_symbol(&Pattern::new(A_PATTERN), symbol.as_str()),
            Command::LCommand => search_symbol(&Pattern::new(L_PATTERN), symbol.as_str()),
            Command::CCommand => Err(ToolError::InvalidSymbol),
        }
    }
}

} // verus!
