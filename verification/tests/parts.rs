use synacor_vm::assembler::grammar::{
    char_word, find, is_identifier, parse_argument, parse_number, rfind, skip_spaces,
    split_words, trim_end, word_end,
};
use synacor_vm::assembler::line::{parse_label_definition, parse_line, Line};
use synacor_vm::assembler::symbols::SymbolTable;
use synacor_vm::assembler::types::{Argument, Token, TokenType};
use synacor_vm::synacor::addr::Addr;
use synacor_vm::synacor::bus::Bus;
use synacor_vm::synacor::console::Console;
use synacor_vm::synacor::cpu;
use synacor_vm::synacor::cpu::{Cpu, CpuState};
use synacor_vm::synacor::fault::Fault;
use synacor_vm::synacor::instruction::Instruction;
use synacor_vm::synacor::memory::{Memory, MEMORY_SIZE};
use synacor_vm::synacor::op_res::OpRes;
use synacor_vm::synacor::opcode::Opcode;
use synacor_vm::synacor::stack::Stack;
use synacor_vm::text::{chars_of, spells, string_of};

const ALL: [Opcode; 22] = [
    Opcode::Halt,
    Opcode::SetReg,
    Opcode::Push,
    Opcode::Pop,
    Opcode::Eq,
    Opcode::Gt,
    Opcode::Jmp,
    Opcode::Jt,
    Opcode::Jf,
    Opcode::Add,
    Opcode::Mult,
    Opcode::Mod,
    Opcode::And,
    Opcode::Or,
    Opcode::Not,
    Opcode::Rmem,
    Opcode::Wmem,
    Opcode::Call,
    Opcode::Ret,
    Opcode::Out,
    Opcode::In,
    Opcode::Noop,
];

fn chars(s: &str) -> Vec<char> {
    s.chars().collect()
}

#[test]
fn words_are_literals_registers_or_invalid() {
    assert_eq!(Addr::Immediate(0), Addr::map(0));
    assert_eq!(Addr::Immediate(0x7FFF), Addr::map(0x7FFF));
    assert_eq!(Addr::Register(0), Addr::map(0x8000));
    assert_eq!(Addr::Register(7), Addr::map(0x8007));
    assert_eq!(Addr::Invalid(0x8008), Addr::map(0x8008));
    assert_eq!(Addr::Invalid(0xFFFF), Addr::map(0xFFFF));
}

#[test]
fn opcodes_and_codes_correspond() {
    for (code, op) in ALL.iter().enumerate() {
        assert_eq!(code as u16, op.code());
        assert_eq!(Some(*op), Opcode::from_word(code as u16));
        assert_eq!(code as u16, u16::from(*op));
    }
    assert_eq!(None, Opcode::from_word(22));
    assert_eq!(None, Opcode::from_word(0xFFFF));
}

#[test]
fn opcodes_have_argument_counts() {
    let counts: Vec<usize> = ALL.iter().map(|op| op.argc()).collect();
    assert_eq!(vec![0, 2, 1, 1, 3, 3, 1, 2, 2, 3, 3, 3, 3, 3, 2, 2, 2, 1, 0, 1, 1, 0], counts);
}

#[test]
fn opcodes_have_mnemonics() {
    let mnemonics = [
        "halt", "set", "push", "pop", "eq", "gt", "jmp", "jt", "jf", "add", "mult", "mod", "and",
        "or", "not", "rmem", "wmem", "call", "ret", "out", "in", "noop",
    ];
    for (mnemonic, op) in mnemonics.iter().zip(ALL.iter()) {
        assert_eq!(Some(*op), Opcode::try_from(mnemonic));
    }
    assert_eq!(Some(Opcode::Halt), Opcode::try_from("hlt"));
    assert_eq!(Some(Opcode::Jt), Opcode::try_from("jnz"));
    assert_eq!(Some(Opcode::Jf), Opcode::try_from("jz"));
    assert_eq!(None, Opcode::try_from("Halt"));
    assert_eq!(None, Opcode::try_from("halts"));
    assert_eq!(None, Opcode::try_from(""));
    assert_eq!(None, Opcode::try_from("dw"));
}

#[test]
fn instructions_are_made_of_an_opcode_and_operands() {
    assert_eq!(Instruction::Add(1, 2, 3), Instruction::new(Opcode::Add, 1, 2, 3));
    assert_eq!(Instruction::Jt(1, 2), Instruction::new(Opcode::Jt, 1, 2, 3));
    assert_eq!(Instruction::Out(1), Instruction::new(Opcode::Out, 1, 2, 3));
    assert_eq!(Instruction::Ret, Instruction::new(Opcode::Ret, 1, 2, 3));
    for op in ALL {
        let i = Instruction::new(op, 7, 8, 9);
        assert_eq!(op, i.opcode());
        assert_eq!(vec![7u16, 8, 9][..op.argc()].to_vec(), i.operands());
    }
}

#[test]
fn memory_starts_with_zeros() {
    let mut memory = Memory::new();
    assert_eq!(0, memory.read(0));
    assert_eq!(0, memory.read(MEMORY_SIZE - 1));
    memory.write(17, 4711);
    memory.write(17, 4711);
    assert_eq!(4711, memory.read(17));
    assert_eq!(0, memory.read(16));
    assert_eq!(0, memory.read(18));
}

#[test]
fn the_stack_is_last_in_first_out() {
    let mut stack = Stack::new();
    assert_eq!(None, stack.pop());
    stack.push(1);
    stack.push(2);
    assert_eq!(Some(2), stack.pop());
    stack.push(3);
    assert_eq!(Some(3), stack.pop());
    assert_eq!(Some(1), stack.pop());
    assert_eq!(None, stack.pop());
    assert_eq!(None, stack.pop());
}

#[test]
fn the_bus_bundles_memory_and_stack() {
    let mut bus = Bus::new();
    assert_eq!(Err(Fault::EmptyStack), bus.pop_word());
    bus.write_word(3, 9);
    bus.push_word(8);
    assert_eq!(9, bus.read_word(3));
    assert_eq!(Ok(8), bus.pop_word());
    assert_eq!(Err(Fault::EmptyStack), bus.pop_word());
    assert_eq!(9, bus.read_word(3));
}

#[test]
fn the_console_reads_what_it_is_fed() {
    let mut console = Console::new();
    assert!(!console.has_input());
    assert_eq!(None, console.read_byte());
    console.feed(b"a\r");
    console.feed(b"\rb\r");
    assert!(console.has_input());
    assert_eq!(Some(97), console.read_byte());
    assert!(console.has_input());
    assert_eq!(Some(98), console.read_byte());
    assert!(!console.has_input());
    assert_eq!(None, console.read_byte());
    console.feed(&[0, 255]);
    assert_eq!(Some(0), console.read_byte());
    assert_eq!(Some(255), console.read_byte());
}

#[test]
fn the_console_collects_low_bytes() {
    let mut console = Console::new();
    console.write_byte(0x0141);
    console.write_byte(0x7F0D);
    console.write_byte(0xFFFF);
    assert_eq!(vec![0x41, 0x0D, 0xFF], console.take_output());
    assert_eq!(Vec::<u8>::new(), console.take_output());
    console.write_byte(1);
    assert_eq!(vec![1], console.take_output());
}

#[test]
fn a_new_cpu_has_not_started() {
    let mut cpu = Cpu::new();
    assert_eq!(&CpuState::NotStarted, cpu.state());
    assert!(!cpu.is_running());
    assert_eq!(0, cpu.pc());
    assert_eq!(None, cpu.fault());
    assert_eq!(Vec::<Instruction>::new(), cpu.trace());
    for reg in 0..8 {
        assert_eq!(0, cpu.register_get(reg));
    }
    cpu.start();
    assert_eq!(&CpuState::Running, cpu.state());
    assert!(cpu.is_running());
}

#[test]
fn operands_are_evaluated() {
    let mut cpu = Cpu::new();
    cpu.register_put(3, 1234);
    cpu.register_put(4, 0x9000);
    assert_eq!(Ok(5), cpu::map_val(5, &cpu));
    assert_eq!(Ok(1234), cpu::map_val(0x8003, &cpu));
    assert_eq!(Ok(0x9000), cpu::map_val(0x8004, &cpu));
    assert_eq!(Err(Fault::InvalidOperand(0x8008)), cpu::map_val(0x8008, &cpu));
    assert_eq!(Ok(3), cpu::map_reg(0x8003));
    assert_eq!(Ok(7), cpu::map_reg(0x8007));
    assert_eq!(Err(Fault::ExpectedRegister(0x7FFF)), cpu::map_reg(0x7FFF));
    assert_eq!(Err(Fault::ExpectedRegister(0x8008)), cpu::map_reg(0x8008));
    assert_eq!(Ok(0x7FFF), cpu::map_addr(0x7FFF, &cpu));
    assert_eq!(Ok(1234), cpu::map_addr(0x8003, &cpu));
    assert_eq!(Err(Fault::InvalidAddress(0x9000)), cpu::map_addr(0x8004, &cpu));
    assert_eq!(Err(Fault::InvalidAddress(0x8008)), cpu::map_addr(0x8008, &cpu));
}

#[test]
fn instructions_can_be_executed_one_by_one() {
    let mut cpu = Cpu::new();
    let mut bus = Bus::new();
    let mut console = Console::new();
    assert_eq!(Ok(()), cpu::set(&mut cpu, &bus, 0x8000, 20));
    assert_eq!(Ok(()), cpu::add(&mut cpu, 0x8001, 0x8000, 0x7FFF));
    assert_eq!(19, cpu.register_get(1));
    assert_eq!(Ok(()), cpu::mult(&mut cpu, 0x8001, 0x8001, 0x8001));
    assert_eq!(361, cpu.register_get(1));
    assert_eq!(Ok(()), cpu::rmdr(&mut cpu, 0x8002, 0x8001, 0x8000));
    assert_eq!(1, cpu.register_get(2));
    assert_eq!(Err(Fault::DivisionByZero), cpu::rmdr(&mut cpu, 0x8002, 0x8001, 0));
    assert_eq!(Ok(()), cpu::and(&mut cpu, 0x8003, 12, 10));
    assert_eq!(8, cpu.register_get(3));
    assert_eq!(Ok(()), cpu::or(&mut cpu, 0x8003, 12, 10));
    assert_eq!(14, cpu.register_get(3));
    assert_eq!(Ok(()), cpu::not(&mut cpu, 0x8003, 0x8003));
    assert_eq!(0x7FF1, cpu.register_get(3));
    assert_eq!(Ok(()), cpu::eq(&mut cpu, 0x8004, 0x8000, 20));
    assert_eq!(1, cpu.register_get(4));
    assert_eq!(Ok(()), cpu::gt(&mut cpu, 0x8004, 0x8000, 20));
    assert_eq!(0, cpu.register_get(4));
    assert_eq!(Ok(()), cpu::push(&mut cpu, &mut bus, 0x8000));
    assert_eq!(Ok(()), cpu::pop(&mut cpu, &mut bus, 0x8007));
    assert_eq!(20, cpu.register_get(7));
    assert_eq!(Err(Fault::EmptyStack), cpu::pop(&mut cpu, &mut bus, 0x8007));
    assert_eq!(Err(Fault::ExpectedRegister(7)), cpu::pop(&mut cpu, &mut bus, 7));
    assert_eq!(Ok(()), cpu::wmem(&mut cpu, &mut bus, 0x8000, 0x8001));
    assert_eq!(361, bus.read_word(20));
    assert_eq!(Ok(()), cpu::rmem(&mut cpu, &bus, 0x8005, 20));
    assert_eq!(361, cpu.register_get(5));
    assert_eq!(Ok(()), cpu::jmp(&mut cpu, 0x8000));
    assert_eq!(20, cpu.pc());
    assert_eq!(Ok(()), cpu::jt(&mut cpu, 0, 30));
    assert_eq!(20, cpu.pc());
    assert_eq!(Ok(()), cpu::jt(&mut cpu, 1, 30));
    assert_eq!(30, cpu.pc());
    assert_eq!(Ok(()), cpu::jf(&mut cpu, 1, 40));
    assert_eq!(30, cpu.pc());
    assert_eq!(Ok(()), cpu::jf(&mut cpu, 0, 40));
    assert_eq!(40, cpu.pc());
    cpu.register_put(4, 0x8000);
    assert_eq!(Err(Fault::InvalidAddress(0x8000)), cpu::jmp(&mut cpu, 0x8004));
    assert_eq!(Err(Fault::InvalidAddress(0x8008)), cpu::jmp(&mut cpu, 0x8008));
    assert_eq!(40, cpu.pc());
    assert_eq!(Ok(()), cpu::call(&mut cpu, &mut bus, 50));
    assert_eq!(50, cpu.pc());
    assert_eq!(Ok(40), bus.pop_word());
    bus.push_word(60);
    assert_eq!(Ok(()), cpu::ret(&mut cpu, &mut bus));
    assert_eq!(60, cpu.pc());
    assert_eq!(Ok(()), cpu::outc(&mut cpu, &mut console, 0x8001));
    assert_eq!(vec![105], console.take_output());
    console.feed(b"\rq");
    assert_eq!(Ok(()), cpu::inc(&mut cpu, &mut console, 0x8006));
    assert_eq!(113, cpu.register_get(6));
    assert_eq!(Err(Fault::Io), cpu::inc(&mut cpu, &mut console, 0x8006));
    assert_eq!(Ok(()), cpu::noop());
    assert_eq!(&CpuState::NotStarted, cpu.state());
    assert_eq!(Ok(()), cpu::ret(&mut cpu, &mut bus));
    assert_eq!(&CpuState::Halted, cpu.state());
    let mut other = Cpu::new();
    assert_eq!(Ok(()), cpu::halt(&mut other, &bus));
    assert_eq!(&CpuState::Halted, other.state());
}

#[test]
fn a_cpu_can_be_stepped_by_hand() {
    let mut cpu = Cpu::new();
    let mut bus = Bus::new();
    let mut console = Console::new();
    bus.write_word(0, 19);
    bus.write_word(1, 66);
    cpu.start();
    cpu.step(&mut bus, &mut console);
    assert_eq!(2, cpu.pc());
    assert!(cpu.is_running());
    cpu.step(&mut bus, &mut console);
    assert_eq!(&CpuState::Halted, cpu.state());
    assert_eq!(vec![66], console.take_output());
    assert_eq!(vec![Instruction::Halt, Instruction::Out(66)], cpu.trace());
}

#[test]
fn an_operation_succeeds_or_fails() {
    let ok: OpRes<u8> = OpRes::from_ok(());
    let failed: OpRes<u8> = OpRes::from_error(3);
    assert!(ok.is_success());
    assert!(!ok.is_failure());
    assert!(failed.is_failure());
    assert!(!failed.is_success());
    assert_eq!(3, failed.unwrap_failure());
    assert_eq!(Ok(()), ok.into_result());
    assert_eq!(Err(3), failed.into_result());
    assert_eq!(OpRes::Success, ok);
    assert_eq!(OpRes::Failure(3), failed);
}

#[test]
fn text_becomes_characters_and_back() {
    assert_eq!(chars("héllo"), chars_of("héllo"));
    assert_eq!("héllo", string_of(&chars("héllo")));
    assert_eq!(Vec::<char>::new(), chars_of(""));
    assert!(spells(&chars("dw"), "dw"));
    assert!(!spells(&chars("dw"), "dx"));
    assert!(!spells(&chars("dw"), "dww"));
    assert!(!spells(&chars("dww"), "dw"));
    assert!(spells(&chars(""), ""));
}

#[test]
fn scanning_finds_the_ends_of_runs() {
    let s = chars("  ab \t cd;e  ");
    assert_eq!(2, skip_spaces(&s, 0));
    assert_eq!(2, skip_spaces(&s, 2));
    assert_eq!(4, word_end(&s, 2));
    assert_eq!(7, skip_spaces(&s, 4));
    assert_eq!(11, word_end(&s, 7));
    assert_eq!(13, skip_spaces(&s, 11));
    assert_eq!(13, word_end(&s, 13));
    assert_eq!(9, find(&s, 0, ';'));
    assert_eq!(13, find(&s, 10, ';'));
    assert_eq!(13, find(&s, 0, '#'));
    assert_eq!(10, rfind(&s, 13, ';'));
    assert_eq!(0, rfind(&s, 9, ';'));
    assert_eq!(11, trim_end(&s, 13));
    assert_eq!(4, trim_end(&s, 7));
    assert_eq!(0, trim_end(&s, 2));
    assert_eq!(vec![(2, 4), (7, 11)], split_words(&s));
    assert_eq!(Vec::<(usize, usize)>::new(), split_words(&chars(" \t ")));
}

#[test]
fn identifiers_start_with_a_lower_case_letter() {
    assert!(is_identifier(&chars("a")));
    assert!(is_identifier(&chars("print_word2")));
    assert!(is_identifier(&chars("aB_9")));
    assert!(!is_identifier(&chars("")));
    assert!(!is_identifier(&chars("A")));
    assert!(!is_identifier(&chars("_a")));
    assert!(!is_identifier(&chars("9a")));
    assert!(!is_identifier(&chars("a-b")));
    assert!(!is_identifier(&chars("a:")));
    assert!(!is_identifier(&chars("ä")));
}

#[test]
fn numerals_are_decimal_and_bounded() {
    assert_eq!(Some(0), parse_number(&chars("0"), 0xFFFF));
    assert_eq!(Some(65535), parse_number(&chars("65535"), 0xFFFF));
    assert_eq!(None, parse_number(&chars("65536"), 0xFFFF));
    assert_eq!(Some(32767), parse_number(&chars("0032767"), 0x7FFF));
    assert_eq!(None, parse_number(&chars("32768"), 0x7FFF));
    assert_eq!(None, parse_number(&chars("99999999999999999999"), 0xFFFF));
    assert_eq!(None, parse_number(&chars(""), 0xFFFF));
    assert_eq!(None, parse_number(&chars("12a"), 0xFFFF));
    assert_eq!(None, parse_number(&chars("-1"), 0xFFFF));
    assert_eq!(None, parse_number(&chars("+1"), 0xFFFF));
}

#[test]
fn operands_are_parsed() {
    assert_eq!(Some(Argument::Number(0)), Argument::parse("#0"));
    assert_eq!(Some(Argument::Number(32767)), Argument::parse("#32767"));
    assert_eq!(None, Argument::parse("#32768"));
    assert_eq!(None, Argument::parse("#"));
    assert_eq!(None, Argument::parse("#x"));
    assert_eq!(Some(Argument::Register(0)), Argument::parse("r0"));
    assert_eq!(Some(Argument::Register(7)), Argument::parse("r7"));
    assert_eq!(Some(Argument::Label("r8".to_string())), Argument::parse("r8"));
    assert_eq!(Some(Argument::Label("r".to_string())), Argument::parse("r"));
    assert_eq!(Some(Argument::Label("r00".to_string())), Argument::parse("r00"));
    assert_eq!(Some(Argument::RPointer(5)), Argument::parse("[r5]"));
    assert_eq!(None, Argument::parse("[r8]"));
    assert_eq!(None, Argument::parse("[r]"));
    assert_eq!(Some(Argument::MPointer(0)), Argument::parse("[0]"));
    assert_eq!(Some(Argument::MPointer(32767)), Argument::parse("[32767]"));
    assert_eq!(None, Argument::parse("[32768]"));
    assert_eq!(None, Argument::parse("[]"));
    assert_eq!(None, Argument::parse("[1"));
    assert_eq!(Some(Argument::Label("start".to_string())), Argument::parse("start"));
    assert_eq!(None, Argument::parse("start:"));
    assert_eq!(None, Argument::parse("Start"));
    assert_eq!(None, Argument::parse("12"));
    assert_eq!(None, Argument::parse(""));
    assert_eq!(Some(Argument::Number(7)), parse_argument(&chars("#7")));
}

#[test]
fn operands_are_encoded() {
    assert_eq!(0x8000, Argument::Register(0).as_word());
    assert_eq!(0x8007, Argument::Register(7).as_word());
    assert_eq!(0x8003, Argument::RPointer(3).as_word());
    assert_eq!(1234, Argument::MPointer(1234).as_word());
    assert_eq!(0x7FFF, Argument::Number(0x7FFF).as_word());
    for a in [Argument::Register(5), Argument::RPointer(5)] {
        assert_eq!(Addr::Register(5), Addr::map(a.as_word()));
    }
    for a in [Argument::Number(77), Argument::MPointer(77)] {
        assert_eq!(Addr::Immediate(77), Addr::map(a.as_word()));
    }
}

#[test]
fn characters_become_words() {
    assert_eq!(65, char_word('A'));
    assert_eq!(0, char_word('\0'));
    assert_eq!(0xE9, char_word('é'));
    assert_eq!(0x20AC, char_word('€'));
    assert_eq!(0xF600, char_word('\u{1F600}'));
}

#[test]
fn a_label_definition_ends_in_a_colon() {
    assert_eq!(Some("start".to_string()), parse_label_definition(&chars("start:")));
    assert_eq!(None, parse_label_definition(&chars("start")));
    assert_eq!(None, parse_label_definition(&chars(":")));
    assert_eq!(None, parse_label_definition(&chars("Start:")));
    assert_eq!(None, parse_label_definition(&chars("a::")));
}

#[test]
fn lines_have_three_forms() {
    assert_eq!(Line::Blank, parse_line(&chars("")));
    assert_eq!(Line::Blank, parse_line(&chars(" \t ")));
    assert_eq!(Line::LabelOnly("loop".to_string()), parse_line(&chars("  loop:  ")));
    assert_eq!(
        Line::Instruction { label: None, opcode: Opcode::Halt, args: [None, None, None] },
        parse_line(&chars("halt"))
    );
    assert_eq!(
        Line::Instruction {
            label: Some("l1".to_string()),
            opcode: Opcode::Eq,
            args: [
                Some(Argument::Register(1)),
                Some(Argument::RPointer(2)),
                Some(Argument::MPointer(3))
            ],
        },
        parse_line(&chars("\tl1:   eq\tr1   [r2] [3]  "))
    );
    assert_eq!(
        Line::Declaration { name: "msg".to_string(), data: vec![72, 105, 33, 10, 0] },
        parse_line(&chars("msg dw \"Hi!\",10,0"))
    );
    assert_eq!(
        Line::Declaration { name: "q".to_string(), data: vec![97, 34, 32, 59, 98] },
        parse_line(&chars("  q   dw   \"a\" ;b\"   "))
    );
    assert_eq!(
        Line::Declaration { name: "n".to_string(), data: vec![120, 65535, 0, 7] },
        parse_line(&chars("n dw \"x\",65535,0,007"))
    );
}

#[test]
fn lines_that_have_none_of_the_forms_cannot_be_parsed() {
    for line in [
        "bogus",
        "halt r0",
        "set r0",
        "add r0 r1 r2 r3",
        "start:halt",
        "a: b: halt",
        "9: halt",
        "set r0, #1",
        "out 65",
        "msg dw \"\"",
        "msg dw \"a\\\"",
        "msg dw \"a\",",
        "msg dw \"a\", 1",
        "msg dw \"a\"1",
        "msg dw \"a\",65536",
        "msg dw \"a\",x",
        "msg dw\"a\"",
        "msg dw a",
        "msg db \"a\"",
        "Msg dw \"a\"",
        "dw \"a\"",
        "msg dw \"a",
    ] {
        assert_eq!(Line::Unparseable, parse_line(&chars(line)), "{}", line);
    }
}

#[test]
fn a_line_of_a_mnemonic_and_a_colon_defines_a_label() {
    assert_eq!(Line::LabelOnly("halt".to_string()), parse_line(&chars("halt:")));
}

#[test]
fn the_symbol_table_refuses_a_second_entry() {
    let mut table = SymbolTable::new();
    assert_eq!(None, table.lookup(&"a".to_string()));
    assert!(table.insert("a".to_string(), 1));
    assert!(table.insert("b".to_string(), 2));
    assert!(!table.insert("a".to_string(), 3));
    assert_eq!(Some(1), table.lookup(&"a".to_string()));
    assert_eq!(Some(2), table.lookup(&"b".to_string()));
    assert_eq!(None, table.lookup(&"c".to_string()));
}

#[test]
fn new_tokens_are_empty() {
    let data = Token::new_data("dd0".to_string());
    assert_eq!(TokenType::DataDeclaration, data.tok_type);
    assert_eq!(Some("dd0".to_string()), data.label);
    assert_eq!(0, data.offset);
    assert_eq!(None, data.opcode);
    assert_eq!([None, None, None], data.args);
    assert_eq!(Vec::<u16>::new(), data.data);
    assert_eq!(0, data.size());
    assert_eq!(Vec::<u16>::new(), data.as_words());
    let instr = Token::new_instr();
    assert_eq!(TokenType::Instruction, instr.tok_type);
    assert_eq!(None, instr.label);
    assert_eq!(0, instr.offset);
    assert_eq!(None, instr.opcode);
    assert_eq!([None, None, None], instr.args);
    assert_eq!(instr, instr.clone());
    assert_eq!(data, data.clone());
}
