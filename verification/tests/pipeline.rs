use hack_tools::assembler;
use hack_tools::error::ToolError;
use hack_tools::vm_translator;

const STACK_BASE: usize = 256;

/// Runs machine words on a model of the computer until the program counter
/// leaves the program.
fn run(words: &[&str], ram: &mut Vec<i16>) {
    let mut a: i16 = 0;
    let mut d: i16 = 0;
    let mut pc: usize = 0;
    let mut steps = 0;
    while pc < words.len() {
        steps += 1;
        assert!(steps < 100_000);
        let word = u16::from_str_radix(words[pc], 2).unwrap();
        if word & 0x8000 == 0 {
            a = word as i16;
            pc += 1;
            continue;
        }
        let address = a as u16 as usize;
        let mut x = d;
        let mut y = if word & 0x1000 != 0 { ram[address] } else { a };
        if word & 0x0800 != 0 {
            x = 0;
        }
        if word & 0x0400 != 0 {
            x = !x;
        }
        if word & 0x0200 != 0 {
            y = 0;
        }
        if word & 0x0100 != 0 {
            y = !y;
        }
        let mut out = if word & 0x0080 != 0 { x.wrapping_add(y) } else { x & y };
        if word & 0x0040 != 0 {
            out = !out;
        }
        if word & 0x0008 != 0 {
            ram[address] = out;
        }
        if word & 0x0010 != 0 {
            d = out;
        }
        if word & 0x0020 != 0 {
            a = out;
        }
        let jump = (word & 0x0004 != 0 && out < 0)
            || (word & 0x0002 != 0 && out == 0)
            || (word & 0x0001 != 0 && out > 0);
        if jump {
            pc = address;
        } else {
            pc += 1;
        }
    }
}

fn compile(source: &str) -> String {
    let mut translator =
        vm_translator::Parser::new("Test", source, vm_translator::CodeWriter::new());
    translator.to_assembler().unwrap();
    let assembly = translator.code_writer().output();
    let mut parser = assembler::Parser::new(&assembly);
    parser.to_bytes().unwrap()
}

fn execute(source: &str) -> Vec<i16> {
    let code = compile(source);
    let words: Vec<&str> = code.lines().collect();
    let mut ram: Vec<i16> = vec![0; 32768];
    ram[0] = STACK_BASE as i16;
    ram[1] = 300;
    ram[2] = 400;
    ram[3] = 3000;
    ram[4] = 3010;
    run(&words, &mut ram);
    ram
}

#[test]
fn push_and_add_leave_the_sum_on_the_stack() {
    let ram = execute("push constant 7\npush constant 8\nadd\n");
    assert_eq!(STACK_BASE as i16 + 1, ram[0]);
    assert_eq!(15, ram[STACK_BASE]);
}

#[test]
fn every_word_of_the_compiled_program_has_sixteen_bits() {
    let code = compile("push constant 7\npush constant 8\nadd\n");
    assert_eq!(27, code.lines().count());
    for word in code.lines() {
        assert_eq!(16, word.len());
        assert!(word.chars().all(|c| c == '0' || c == '1'));
    }
}

#[test]
fn sub_is_bottom_minus_top() {
    let ram = execute("push constant 8\npush constant 3\nsub\n");
    assert_eq!(STACK_BASE as i16 + 1, ram[0]);
    assert_eq!(5, ram[STACK_BASE]);
}

#[test]
fn unary_operators_replace_the_top() {
    let ram = execute("push constant 8\nneg\npush constant 0\nnot\n");
    assert_eq!(STACK_BASE as i16 + 2, ram[0]);
    assert_eq!(-8, ram[STACK_BASE]);
    assert_eq!(-1, ram[STACK_BASE + 1]);
}

#[test]
fn and_and_or_work_on_bits() {
    let ram = execute("push constant 12\npush constant 10\nand\npush constant 12\npush constant 10\nor\n");
    assert_eq!(STACK_BASE as i16 + 2, ram[0]);
    assert_eq!(8, ram[STACK_BASE]);
    assert_eq!(14, ram[STACK_BASE + 1]);
}

#[test]
fn comparisons_leave_the_sentinels() {
    let source = "push constant 8\npush constant 7\neq\npush constant 7\npush constant 7\neq\npush constant 8\npush constant 7\ngt\npush constant 7\npush constant 8\ngt\npush constant 7\npush constant 8\nlt\npush constant 8\npush constant 7\nlt\n";
    let ram = execute(source);
    assert_eq!(STACK_BASE as i16 + 6, ram[0]);
    assert_eq!(
        vec![0, -1, -1, 0, -1, 0],
        ram[STACK_BASE..STACK_BASE + 6].to_vec()
    );
}

#[test]
fn pop_stores_at_the_entry_of_the_segment() {
    let source = "push constant 11\npop local 0\npush constant 12\npop argument 2\npush constant 13\npop this 1\npush constant 14\npop that 3\npush constant 15\npop temp 4\npush constant 3030\npop pointer 1\n";
    let ram = execute(source);
    assert_eq!(STACK_BASE as i16, ram[0]);
    assert_eq!(11, ram[300]);
    assert_eq!(12, ram[402]);
    assert_eq!(13, ram[3001]);
    assert_eq!(14, ram[3013]);
    assert_eq!(15, ram[9]);
    assert_eq!(3030, ram[4]);
}

#[test]
fn push_reads_the_entry_of_the_segment() {
    let source = "push constant 21\npop local 3\npush constant 22\npop temp 1\npush local 3\npush temp 1\npush pointer 0\nadd\n";
    let ram = execute(source);
    assert_eq!(STACK_BASE as i16 + 2, ram[0]);
    assert_eq!(21, ram[STACK_BASE]);
    assert_eq!(3022, ram[STACK_BASE + 1]);
}

#[test]
fn assembly_with_destination_and_jump_yields_no_code() {
    let mut parser = assembler::Parser::new("@2\nD=A\nD=D+A;JGT\n");
    assert_eq!(Err(ToolError::InvalidInstruction), parser.to_bytes());
}

#[test]
fn stack_code_with_destination_and_jump_is_refused() {
    let mut translator = vm_translator::Parser::new(
        "Test",
        "D=D+A;JGT\npush constant 1\n",
        vm_translator::CodeWriter::new(),
    );
    assert_eq!(Err(ToolError::InvalidInstruction), translator.to_assembler());
    assert_eq!("", translator.code_writer().output());
}
