use hack_tools::assembler::classify;
use hack_tools::assembler::command_type;
use hack_tools::assembler::parse_input;
use hack_tools::assembler::to_binary;
use hack_tools::assembler::Code;
use hack_tools::assembler::Command;
use hack_tools::assembler::Grammar;
use hack_tools::assembler::SymbolTable;
use hack_tools::error::ToolError;

#[test]
fn every_address_register_computation_has_its_bits() {
    let code = Code::new();
    let table = [
        ("0", "101010"),
        ("1", "111111"),
        ("-1", "111010"),
        ("D", "001100"),
        ("A", "110000"),
        ("!D", "001101"),
        ("!A", "110001"),
        ("-D", "001111"),
        ("-A", "110011"),
        ("D+1", "011111"),
        ("A+1", "110111"),
        ("D-1", "001110"),
        ("A-1", "110010"),
        ("D+A", "000010"),
        ("D-A", "010011"),
        ("A-D", "000111"),
        ("D&A", "000000"),
        ("D|A", "010101"),
    ];
    for (mnemonic, bits) in table.iter() {
        assert_eq!((*bits, "0"), code.get_comp(mnemonic));
    }
}

#[test]
fn every_memory_computation_has_its_bits() {
    let code = Code::new();
    let table = [
        ("M", "110000"),
        ("!M", "110001"),
        ("-M", "110011"),
        ("M+1", "110111"),
        ("M-1", "110010"),
        ("D+M", "000010"),
        ("D-M", "010011"),
        ("M-D", "000111"),
        ("D&M", "000000"),
        ("D|M", "010101"),
    ];
    for (mnemonic, bits) in table.iter() {
        assert_eq!((*bits, "1"), code.get_comp(mnemonic));
    }
}

#[test]
fn every_destination_and_jump_has_its_bits() {
    let code = Code::new();
    let destinations = [
        ("", "000"),
        ("M", "001"),
        ("D", "010"),
        ("MD", "011"),
        ("A", "100"),
        ("AM", "101"),
        ("AD", "110"),
        ("AMD", "111"),
    ];
    for (mnemonic, bits) in destinations.iter() {
        assert_eq!(*bits, code.get_dest(mnemonic));
    }
    let jumps = [
        ("", "000"),
        ("JGT", "001"),
        ("JEQ", "010"),
        ("JGE", "011"),
        ("JLT", "100"),
        ("JNE", "101"),
        ("JLE", "110"),
        ("JMP", "111"),
    ];
    for (mnemonic, bits) in jumps.iter() {
        assert_eq!(*bits, code.get_jump(mnemonic));
    }
}

#[test]
fn unknown_mnemonics_have_the_default_bits() {
    let code = Code::new();
    assert_eq!(("101010", "0"), code.get_comp("X"));
    assert_eq!(("101010", "0"), code.get_comp(""));
    assert_eq!(("101010", "1"), code.get_comp("M+D"));
    assert_eq!("000", code.get_dest("DA"));
    assert_eq!("000", code.get_dest("AA"));
    assert_eq!("000", code.get_jump("JUMP"));
}

#[test]
fn encode_joins_the_fields() {
    let code = Code::new();
    assert_eq!("1110110000010000", code.encode(Some("D"), Some("A"), None));
    assert_eq!("1111110111011000", code.encode(Some("MD"), Some("M+1"), None));
    assert_eq!("1110101010000111", code.encode(None, Some("0"), Some("JMP")));
    assert_eq!("1110101010000000", code.encode(None, None, None));
    assert_eq!("1110101010010000", code.encode(Some("D"), Some("X"), None));
    assert_eq!("1111101010000000", code.encode(None, Some("M+D"), None));
    assert_eq!("1110111111000000", code.encode(Some("DM"), Some("1"), None));
    assert_eq!("1110001100000000", code.encode(None, Some("D"), Some("JUMP")));
    assert_eq!("1111000010111101", code.encode(Some("AMD"), Some("D+M"), Some("JNE")));
}

#[test]
fn legal_instructions_encode_to_sixteen_bits_after_the_prefix() {
    let code = Code::new();
    let comps = [
        "0", "1", "-1", "D", "A", "!D", "!A", "-D", "-A", "D+1", "A+1", "D-1", "A-1", "D+A",
        "D-A", "A-D", "D&A", "D|A", "M", "!M", "-M", "M+1", "M-1", "D+M", "D-M", "M-D", "D&M",
        "D|M",
    ];
    let dests = ["M", "D", "MD", "A", "AM", "AD", "AMD"];
    let jumps = ["JGT", "JEQ", "JGE", "JLT", "JNE", "JLE", "JMP"];
    for comp in comps.iter() {
        for dest in dests.iter() {
            let word = code.parse(format!("{}={}", dest, comp)).unwrap();
            assert_eq!(16, word.len());
            assert!(word.starts_with("111"));
            assert!(word.chars().all(|c| c == '0' || c == '1'));
            assert_eq!(word, code.encode(Some(dest), Some(comp), None));
        }
        for jump in jumps.iter() {
            let word = code.parse(format!("{};{}", comp, jump)).unwrap();
            assert_eq!(16, word.len());
            assert!(word.starts_with("111"));
            assert!(word.chars().all(|c| c == '0' || c == '1'));
            assert_eq!(word, code.encode(None, Some(comp), Some(jump)));
        }
    }
}

#[test]
fn an_unknown_mnemonic_counts_as_the_default() {
    let code = Code::new();
    assert_eq!("1110101010010000", code.parse("D=X".to_string()).unwrap());
    assert_eq!("1110101010010000", code.parse("D=".to_string()).unwrap());
    assert_eq!("1110111111000000", code.parse("DM=1".to_string()).unwrap());
    assert_eq!("1110110000000000", code.parse("AA=A".to_string()).unwrap());
    assert_eq!("1111101010001000", code.parse("M=M+D".to_string()).unwrap());
}

#[test]
fn every_accepted_line_gives_sixteen_bits() {
    let code = Code::new();
    let lines = ["D=X", "D=", "DM=1", "AAA=7", "M=M+D", ";JMP", "x;JEQ", "D=D+A+1", "  MD=D|M comment"];
    for line in lines.iter() {
        let word = code.parse(line.to_string()).unwrap();
        assert_eq!(16, word.len());
        assert!(word.starts_with("111"));
        assert!(word.chars().all(|c| c == '0' || c == '1'));
    }
}

#[test]
fn destination_and_jump_together_are_refused() {
    let code = Code::new();
    assert_eq!(Err(ToolError::InvalidInstruction), code.parse("D=A;JGT".to_string()));
    assert_eq!(Err(ToolError::InvalidInstruction), code.parse("0;JMP // x = 1".to_string()));
}

#[test]
fn a_line_without_the_shape_of_a_compute_instruction_is_refused() {
    let code = Code::new();
    assert_eq!(Err(ToolError::InvalidInstruction), code.parse("Z=A".to_string()));
    assert_eq!(Err(ToolError::InvalidInstruction), code.parse("D;JUMP".to_string()));
    assert_eq!(Err(ToolError::InvalidInstruction), code.parse("@2".to_string()));
    assert_eq!(Err(ToolError::InvalidInstruction), code.parse("".to_string()));
}

#[test]
fn a_compute_instruction_is_found_inside_a_line() {
    let code = Code::new();
    assert_eq!("1111110000010000", code.parse("   D=M   ".to_string()).unwrap());
}

#[test]
fn lines_of_no_shape_have_no_kind() {
    assert_eq!(Err(ToolError::InvalidInstruction), command_type("???"));
    assert_eq!(Err(ToolError::InvalidInstruction), command_type(""));
    assert_eq!(Err(ToolError::InvalidInstruction), command_type("LOOP"));
}

#[test]
fn the_address_shape_is_tried_first() {
    assert_eq!(Ok(Command::ACommand), command_type("@i"));
    assert_eq!(Ok(Command::ACommand), command_type("D=A @2"));
    assert_eq!(Ok(Command::CCommand), command_type("(D=A)"));
    assert_eq!(Ok(Command::LCommand), command_type("(END)"));
}

#[test]
fn classify_follows_the_order_of_the_shapes() {
    assert_eq!(Ok(Command::ACommand), classify(true, true, true));
    assert_eq!(Ok(Command::ACommand), classify(true, false, false));
    assert_eq!(Ok(Command::CCommand), classify(false, true, true));
    assert_eq!(Ok(Command::LCommand), classify(false, false, true));
    assert_eq!(Err(ToolError::InvalidInstruction), classify(false, false, false));
}

#[test]
fn to_binary_pads_to_sixteen_digits() {
    assert_eq!("0000000000000000", to_binary(0));
    assert_eq!("0000000000000001", to_binary(1));
    assert_eq!("0000000000000010", to_binary(2));
    assert_eq!("0011111010000000", to_binary(16000));
    assert_eq!("0111111111111111", to_binary(32767));
    assert_eq!("1111111111111111", to_binary(65535));
}

#[test]
fn to_binary_grows_beyond_sixteen_digits() {
    assert_eq!("10000000000000000", to_binary(65536));
    assert_eq!("11111111111111111111111111111111", to_binary(u32::MAX));
}

#[test]
fn parse_input_takes_the_second_argument() {
    let args = vec!["assembler".to_string(), "Add.asm".to_string(), "more".to_string()];
    assert_eq!(Ok("Add.asm"), parse_input(&args));
}

#[test]
fn parse_input_needs_a_path() {
    let none: Vec<String> = Vec::new();
    assert_eq!(Err("not enough arguments"), parse_input(&none));
    let one = vec!["assembler".to_string()];
    assert_eq!(Err("not enough arguments"), parse_input(&one));
}

#[test]
fn a_compute_instruction_has_no_symbol() {
    assert_eq!(
        Err(ToolError::InvalidSymbol),
        SymbolTable::parse_symbol("D=A".to_string(), Command::CCommand)
    );
    assert_eq!(
        Err(ToolError::InvalidSymbol),
        SymbolTable::parse_symbol("@2".to_string(), Command::CCommand)
    );
}

#[test]
fn a_missing_shape_is_an_invalid_symbol() {
    assert_eq!(
        Err(ToolError::InvalidSymbol),
        SymbolTable::parse_symbol("LOOP".to_string(), Command::LCommand)
    );
    assert_eq!(
        Err(ToolError::InvalidSymbol),
        SymbolTable::parse_symbol("@".to_string(), Command::ACommand)
    );
    assert_eq!(
        Err(ToolError::InvalidSymbol),
        SymbolTable::parse_symbol("@-1".to_string(), Command::ACommand)
    );
}

#[test]
fn pick_symbol_decides_from_the_search() {
    assert_eq!(Err(ToolError::InvalidSymbol), SymbolTable::pick_symbol(false, None));
    assert_eq!(
        Err(ToolError::InvalidSymbol),
        SymbolTable::pick_symbol(false, Some("x".to_string()))
    );
    assert_eq!(Ok("x".to_string()), SymbolTable::pick_symbol(true, Some("x".to_string())));
    assert_eq!(Ok(String::new()), SymbolTable::pick_symbol(true, None));
}

#[test]
fn the_symbol_is_the_group_not_the_line() {
    assert_eq!(
        Ok("counter".to_string()),
        SymbolTable::parse_symbol("   @counter  // the counter".to_string(), Command::ACommand)
    );
    assert_eq!(
        Ok("12".to_string()),
        SymbolTable::parse_symbol("@12abc".to_string(), Command::ACommand)
    );
}

#[test]
fn a_grammar_classifies_like_the_free_function() {
    let grammar = Grammar::new();
    let lines = ["@2", "D=A", "D;JGT", "(LOOP)", "   @R0", "???", "", "(a=b)"];
    for line in lines.iter() {
        assert_eq!(command_type(line), grammar.command_type(line));
    }
    assert!(grammar.pattern(Command::ACommand).search("@x"));
    assert!(!grammar.pattern(Command::ACommand).search("(x)"));
    assert!(grammar.pattern(Command::LCommand).search("(x)"));
    assert!(grammar.pattern(Command::CCommand).search("0;JMP"));
}
