use hack_tools::assembler::Parser;
use hack_tools::assembler::SymbolTable;
use hack_tools::error::ToolError;

#[test]
fn a_new_table_holds_the_predefined_symbols() {
    let table = SymbolTable::new();
    assert_eq!(23, table.symbol_map().len());
    assert_eq!(0, table.ram_pointer());
    assert_eq!(Some(&0), table.symbol_map().get("SP"));
    assert_eq!(Some(&4), table.symbol_map().get("THAT"));
    assert_eq!(Some(&15), table.symbol_map().get("R15"));
    assert_eq!(Some(&16384), table.symbol_map().get("SCREEN"));
    assert_eq!(Some(&24576), table.symbol_map().get("KBD"));
    assert_eq!(None, table.symbol_map().get("R16"));
}

#[test]
fn numbers_resolve_to_themselves_and_allocate_nothing() {
    let mut table = SymbolTable::new();
    table.reset_ram_pointer();
    assert_eq!("0000000000000000", table.get_address("0").unwrap());
    assert_eq!("0000000000000101", table.get_address("5").unwrap());
    assert_eq!("0000000000000101", table.get_address("+5").unwrap());
    assert_eq!("0000000000000111", table.get_address("007").unwrap());
    assert_eq!("0111111111111111", table.get_address("32767").unwrap());
    assert_eq!("1111111111111111", table.get_address("65535").unwrap());
    assert_eq!(16, table.ram_pointer());
    assert_eq!(23, table.symbol_map().len());
}

#[test]
fn a_number_beyond_the_last_address_is_refused() {
    let mut table = SymbolTable::new();
    table.reset_ram_pointer();
    assert_eq!(Err(ToolError::InvalidSymbol), table.get_address("65536"));
    assert_eq!(Err(ToolError::InvalidSymbol), table.get_address("+70000"));
    assert_eq!(Err(ToolError::InvalidSymbol), table.get_address("4294967295"));
    assert_eq!(Err(ToolError::InvalidSymbol), table.get_address("4294967296"));
    assert_eq!(
        Err(ToolError::InvalidSymbol),
        table.get_address("99999999999999999999999999999999")
    );
    assert_eq!(16, table.ram_pointer());
    assert_eq!(23, table.symbol_map().len());
    assert_eq!(None, table.symbol_map().get("4294967296"));
}

#[test]
fn a_name_bound_beyond_the_last_address_is_refused() {
    let mut table = SymbolTable::new();
    table.declare("NEAR".to_string(), 65535);
    table.declare("FAR".to_string(), 65536);
    table.reset_ram_pointer();
    assert_eq!("1111111111111111", table.get_address("NEAR").unwrap());
    assert_eq!(Err(ToolError::InvalidSymbol), table.get_address("FAR"));
    assert_eq!(Some(&65536), table.symbol_map().get("FAR"));
    assert_eq!(16, table.ram_pointer());
}

#[test]
fn a_new_name_beyond_the_last_address_is_refused() {
    let mut table = SymbolTable::new();
    for _ in 0..65535 {
        table.incr_ram_pointer();
    }
    assert_eq!("1111111111111111", table.get_address("last").unwrap());
    assert_eq!(65536, table.ram_pointer());
    assert_eq!(Err(ToolError::InvalidSymbol), table.get_address("late"));
    assert_eq!(Err(ToolError::InvalidSymbol), table.get_address("late"));
    assert_eq!(65536, table.ram_pointer());
    assert_eq!(None, table.symbol_map().get("late"));
    assert_eq!("1111111111111111", table.get_address("last").unwrap());
}

#[test]
fn predefined_symbols_resolve_to_their_addresses() {
    let mut table = SymbolTable::new();
    table.reset_ram_pointer();
    assert_eq!("0000000000000000", table.get_address("SP").unwrap());
    assert_eq!("0000000000000001", table.get_address("LCL").unwrap());
    assert_eq!("0000000000001101", table.get_address("R13").unwrap());
    assert_eq!("0100000000000000", table.get_address("SCREEN").unwrap());
    assert_eq!("0110000000000000", table.get_address("KBD").unwrap());
    assert_eq!(16, table.ram_pointer());
}

#[test]
fn new_names_get_addresses_from_sixteen_in_order() {
    let mut table = SymbolTable::new();
    table.reset_ram_pointer();
    assert_eq!("0000000000010000", table.get_address("first").unwrap());
    assert_eq!("0000000000000010", table.get_address("R2").unwrap());
    assert_eq!("0000000000010001", table.get_address("second").unwrap());
    assert_eq!("0000000000000111", table.get_address("7").unwrap());
    assert_eq!("0000000000010000", table.get_address("first").unwrap());
    assert_eq!("0000000000010010", table.get_address("third").unwrap());
    assert_eq!(19, table.ram_pointer());
    assert_eq!(Some(&16), table.symbol_map().get("first"));
    assert_eq!(Some(&17), table.symbol_map().get("second"));
    assert_eq!(Some(&18), table.symbol_map().get("third"));
}

#[test]
fn resolving_twice_gives_the_same_address() {
    let mut table = SymbolTable::new();
    table.reset_ram_pointer();
    let first = table.get_address("sum").unwrap();
    let pointer = table.ram_pointer();
    let second = table.get_address("sum").unwrap();
    assert_eq!(first, second);
    assert_eq!(pointer, table.ram_pointer());
    assert_eq!(24, table.symbol_map().len());
}

#[test]
fn the_cursor_moves_by_one() {
    let mut table = SymbolTable::new();
    assert_eq!(0, table.incr_ram_pointer());
    assert_eq!(1, table.incr_ram_pointer());
    assert_eq!(2, table.ram_pointer());
    table.reset_ram_pointer();
    assert_eq!(16, table.incr_ram_pointer());
    assert_eq!(17, table.ram_pointer());
}

#[test]
fn add_entry_binds_to_the_cursor_and_overwrites() {
    let mut table = SymbolTable::new();
    table.incr_ram_pointer();
    table.incr_ram_pointer();
    table.add_entry("LOOP".to_string());
    assert_eq!(Some(&2), table.symbol_map().get("LOOP"));
    assert_eq!(2, table.ram_pointer());
    table.incr_ram_pointer();
    table.add_entry("LOOP".to_string());
    assert_eq!(Some(&3), table.symbol_map().get("LOOP"));
    table.add_entry("SP".to_string());
    assert_eq!(Some(&3), table.symbol_map().get("SP"));
    assert_eq!(24, table.symbol_map().len());
}

#[test]
fn declare_binds_to_the_given_address() {
    let mut table = SymbolTable::new();
    table.declare("END".to_string(), 42);
    assert_eq!(Some(&42), table.symbol_map().get("END"));
    assert_eq!(0, table.ram_pointer());
    table.declare("END".to_string(), 7);
    assert_eq!(Some(&7), table.symbol_map().get("END"));
}

#[test]
fn a_label_is_bound_to_the_number_of_instructions_before_it() {
    let source = "(START)\n@START\nD=A\n(MIDDLE)\n(ALSO)\n@MIDDLE\n0;JMP\n(END)\n";
    let mut parser = Parser::new(source);
    parser.fill_symbol_table().unwrap();
    let map = parser.symbol_table().symbol_map();
    assert_eq!(Some(&0), map.get("START"));
    assert_eq!(Some(&2), map.get("MIDDLE"));
    assert_eq!(Some(&2), map.get("ALSO"));
    assert_eq!(Some(&4), map.get("END"));
    assert_eq!(16, parser.symbol_table().ram_pointer());
}

#[test]
fn labels_do_not_move_the_variables() {
    let source = "(A1)\n(A2)\n(A3)\n@x\n(B1)\n@y\n@B1\n@x\n@A3\n";
    let mut parser = Parser::new(source);
    let expected = "0000000000010000\n0000000000010001\n0000000000000001\n0000000000010000\n0000000000000000\n";
    assert_eq!(expected, parser.to_bytes().unwrap());
    let map = parser.symbol_table().symbol_map();
    assert_eq!(Some(&16), map.get("x"));
    assert_eq!(Some(&17), map.get("y"));
    assert_eq!(18, parser.symbol_table().ram_pointer());
}

#[test]
fn a_label_can_be_used_before_it_is_declared() {
    let source = "@END\n0;JMP\n(END)\n@END\n";
    let mut parser = Parser::new(source);
    let expected = "0000000000000010\n1110101010000111\n0000000000000010\n";
    assert_eq!(expected, parser.to_bytes().unwrap());
}

#[test]
fn the_last_declaration_of_a_label_counts() {
    let source = "(X)\n@1\n(X)\n@X\n";
    let mut parser = Parser::new(source);
    assert_eq!("0000000000000001\n0000000000000001\n", parser.to_bytes().unwrap());
}

#[test]
fn the_first_pass_stops_at_a_line_of_no_kind() {
    let source = "(ONE)\n@1\n???\n(TWO)\n";
    let mut parser = Parser::new(source);
    assert_eq!(Err(ToolError::InvalidInstruction), parser.fill_symbol_table());
    let map = parser.symbol_table().symbol_map();
    assert_eq!(Some(&0), map.get("ONE"));
    assert_eq!(None, map.get("TWO"));
    assert_eq!(0, parser.symbol_table().ram_pointer());
}

#[test]
fn the_first_pass_can_run_again() {
    let source = "@1\n(ONE)\n@2\n";
    let mut parser = Parser::new(source);
    parser.fill_symbol_table().unwrap();
    parser.fill_symbol_table().unwrap();
    assert_eq!(Some(&1), parser.symbol_table().symbol_map().get("ONE"));
    assert_eq!(16, parser.symbol_table().ram_pointer());
}
