use synacor_vm::assembler::assemble;
use synacor_vm::assembler::assembly_steps::{
    convert_to_bytes, remove_comments, resolve_labels, split_to_lines, tokenize, words_to_bytes,
};
use synacor_vm::assembler::disassembly_steps::convert_to_words;
use synacor_vm::assembler::types::{Argument, AssemblyError, Token, TokenType};
use synacor_vm::synacor::cpu::CpuState;
use synacor_vm::synacor::opcode::Opcode;
use synacor_vm::synacor::Vm;

const HELLO: &str = "; prints a word and halts
jmp start                   ; skip the data

text dw \"Hi\",10,0           ; the 10 is a line feed

print_word:
    push r2                 ; r2 is used, so keep its value
    rmem r2 [r1]            ; the next character of the text
    add  r1 r1 #1           ; r1 points to the one after it
    jf   r2 print_word_done ; the terminator: done
    out  r2                 ; print the character
    jmp  print_word         ; on to the next one
print_word_done:
    pop r2                  ; restore r2
    ret

start:
    set r1 text             ; r1 points to the text
    call print_word
    halt
";

fn lines(texts: &[&str]) -> Vec<String> {
    texts.iter().map(|t| t.to_string()).collect()
}

#[test]
fn hello_round_trip() {
    let bytes = assemble(HELLO.to_string()).unwrap();
    let words = convert_to_words(bytes);
    let mut vm = Vm::new();
    vm.load_memory(words);
    vm.run(u64::MAX);
    assert_eq!(&CpuState::Halted, vm.cpu().state());
    assert_eq!(b"Hi\n".to_vec(), vm.take_output());
}

#[test]
fn hello_image_words() {
    let bytes = assemble(HELLO.to_string()).unwrap();
    let words = convert_to_words(bytes);
    let expected: Vec<u16> = vec![
        6, 25, // jmp start
        72, 105, 10, 0, // text
        2, 32770, // push r2
        15, 32770, 32769, // rmem r2 [r1]
        9, 32769, 32769, 1, // add r1 r1 #1
        8, 32770, 22, // jf r2 print_word_done
        19, 32770, // out r2
        6, 6, // jmp print_word
        3, 32770, // pop r2
        18, // ret
        1, 32769, 2, // set r1 text
        17, 6, // call print_word
        0, // halt
    ];
    assert_eq!(expected, words);
}

#[test]
fn comments_are_removed_and_lines_keep_their_numbers() {
    let stripped = remove_comments("  halt ; stop\n; only a comment\n\n  noop  ".to_string());
    assert_eq!("halt\n\n\nnoop", stripped);
    assert_eq!(lines(&["halt", "", "", "noop"]), split_to_lines(&stripped));
}

#[test]
fn lines_end_at_line_feeds() {
    assert_eq!(lines(&["a", "b"]), split_to_lines(&"a\nb\n".to_string()));
    assert_eq!(lines(&["a", "b"]), split_to_lines(&"a\r\nb".to_string()));
    assert_eq!(lines(&["a", "", "b\r"]), split_to_lines(&"a\n\nb\r".to_string()));
    assert_eq!(Vec::<String>::new(), split_to_lines(&"".to_string()));
    assert_eq!(lines(&[""]), split_to_lines(&"\n".to_string()));
}

#[test]
fn tokens_get_offsets_in_source_order() {
    let tokens = tokenize(lines(&[
        "start: set r0 #5",
        "loop:",
        "  add r0 r0 #32767",
        "msg dw \"ab\",0",
        "jt r0 loop",
        "halt",
    ]))
    .unwrap();
    assert_eq!(5, tokens.len());
    let offsets: Vec<usize> = tokens.iter().map(|t| t.offset).collect();
    assert_eq!(vec![0, 3, 7, 10, 13], offsets);
    assert_eq!(
        Token {
            tok_type: TokenType::Instruction,
            label: Some("start".to_string()),
            offset: 0,
            opcode: Some(Opcode::SetReg),
            args: [Some(Argument::Register(0)), Some(Argument::Number(5)), None],
            data: vec![],
        },
        tokens[0]
    );
    assert_eq!(Some("loop".to_string()), tokens[1].label);
    assert_eq!(
        Token {
            tok_type: TokenType::DataDeclaration,
            label: Some("msg".to_string()),
            offset: 7,
            opcode: None,
            args: [None, None, None],
            data: vec![97, 98, 0],
        },
        tokens[2]
    );
    assert_eq!(
        [Some(Argument::Register(0)), Some(Argument::Label("loop".to_string())), None],
        tokens[3].args
    );
}

#[test]
fn operands_have_five_forms() {
    let tokens = tokenize(lines(&["wmem [12] [r3]", "eq r7 #0 there"])).unwrap();
    assert_eq!(
        [Some(Argument::MPointer(12)), Some(Argument::RPointer(3)), None],
        tokens[0].args
    );
    assert_eq!(
        [
            Some(Argument::Register(7)),
            Some(Argument::Number(0)),
            Some(Argument::Label("there".to_string()))
        ],
        tokens[1].args
    );
}

#[test]
fn a_register_name_beyond_r7_is_a_label() {
    let tokens = tokenize(lines(&["set r8 #1"])).unwrap();
    assert_eq!(
        [Some(Argument::Label("r8".to_string())), Some(Argument::Number(1)), None],
        tokens[0].args
    );
}

#[test]
fn mnemonics_have_aliases() {
    let tokens = tokenize(lines(&["hlt", "jnz r0 #1", "jz r0 #1"])).unwrap();
    let opcodes: Vec<Option<Opcode>> = tokens.iter().map(|t| t.opcode).collect();
    assert_eq!(vec![Some(Opcode::Halt), Some(Opcode::Jt), Some(Opcode::Jf)], opcodes);
}

#[test]
fn a_line_that_cannot_be_parsed_is_a_syntax_error() {
    assert_eq!(Err(AssemblyError::SyntaxError(2)), tokenize(lines(&["halt", "bogus r1", "halt"])));
    assert_eq!(Err(AssemblyError::SyntaxError(1)), tokenize(lines(&["add r0 r1"])));
    assert_eq!(Err(AssemblyError::SyntaxError(1)), tokenize(lines(&["set r0 [r8]"])));
    assert_eq!(Err(AssemblyError::SyntaxError(1)), tokenize(lines(&["set r0 #32768"])));
    assert_eq!(Err(AssemblyError::SyntaxError(1)), tokenize(lines(&["text dw \"\""])));
    assert_eq!(Err(AssemblyError::SyntaxError(1)), tokenize(lines(&["text dw \"a\",65536"])));
    assert_eq!(Err(AssemblyError::SyntaxError(3)), assemble("halt\n\n???\n".to_string()));
}

#[test]
fn a_data_declaration_rejects_a_pending_label() {
    assert_eq!(
        Err(AssemblyError::SyntaxError(2)),
        tokenize(lines(&["here:", "text dw \"a\",0"]))
    );
}

#[test]
fn a_token_beyond_the_address_space_is_an_error() {
    let mut source = vec!["noop"; 0x8000];
    assert!(tokenize(lines(&source)).is_ok());
    source.push("noop");
    assert_eq!(Err(AssemblyError::InvalidAddress(0x8001)), tokenize(lines(&source)));
}

#[test]
fn labels_resolve_to_offsets() {
    let tokens = tokenize(lines(&["jmp end", "x dw \"abc\"", "end: out [r1]", "rmem r0 [7]"])).unwrap();
    let resolved = resolve_labels(tokens).unwrap();
    assert_eq!([Some(Argument::Number(5)), None, None], resolved[0].args);
    assert_eq!([Some(Argument::Register(1)), None, None], resolved[2].args);
    assert_eq!([Some(Argument::Register(0)), Some(Argument::Number(7)), None], resolved[3].args);
    assert_eq!(Some("end".to_string()), resolved[2].label);
}

#[test]
fn a_label_defined_twice_is_an_error() {
    let tokens = tokenize(lines(&["a: halt", "b: halt", "a: halt"])).unwrap();
    assert_eq!(Err(AssemblyError::DuplicateLabel("a".to_string())), resolve_labels(tokens));
}

#[test]
fn a_label_defined_nowhere_is_an_error() {
    let tokens = tokenize(lines(&["jmp nowhere"])).unwrap();
    assert_eq!(Err(AssemblyError::UnresolvedLabel("nowhere".to_string())), resolve_labels(tokens));
    let tokens = tokenize(lines(&["jmp nowhere"])).unwrap();
    assert_eq!(Err(AssemblyError::UnresolvedLabel("nowhere".to_string())), convert_to_bytes(tokens));
}

#[test]
fn words_become_bytes_low_byte_first() {
    assert_eq!(vec![0x34, 0x12, 0x00, 0x80], words_to_bytes(&[0x1234, 0x8000]));
    assert_eq!(vec![0x1234, 0x8000], convert_to_words(vec![0x34, 0x12, 0x00, 0x80]));
    let words: Vec<u16> = vec![0, 1, 255, 256, 0x7FFF, 0x8000, 0xFFFF];
    assert_eq!(words, convert_to_words(words_to_bytes(&words)));
}

#[test]
fn tokens_are_emitted_as_words() {
    let tokens = tokenize(lines(&["add r2 r0 r1", "d dw \"A\",513"])).unwrap();
    assert_eq!(vec![9, 32770, 32768, 32769], tokens[0].as_words());
    assert_eq!(4, tokens[0].size());
    assert_eq!(vec![65, 513], tokens[1].as_words());
    assert_eq!(2, tokens[1].size());
    let bytes = convert_to_bytes(tokens).unwrap();
    assert_eq!(vec![9, 0, 2, 128, 0, 128, 1, 128, 65, 0, 1, 2], bytes);
}
