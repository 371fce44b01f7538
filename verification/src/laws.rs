//! What holds of the assembler and the machine together.

use vstd::prelude::*;
use crate::assembler::assembly_steps::{
    spec_convert_to_bytes, spec_first_unresolved, spec_image, spec_join, spec_lines,
    spec_next_offset, spec_resolve_from, spec_resolve_labels, spec_symbols, spec_symbols_from,
    spec_tokenize, spec_tokenize_from, spec_words_to_bytes, LexState,
};
use crate::assembler::disassembly_steps::{lemma_words_round_trip, spec_bytes_to_words};
use crate::assembler::grammar::{spec_argument, spec_is_identifier};
use crate::assembler::laws::{
    lemma_lines_keep_their_numbers, lemma_lines_of_join, spec_is_clean, spec_stripped,
};
use crate::assembler::line::{spec_label_definition, spec_parse_line, LineView};
use crate::assembler::spec_assemble;
use crate::assembler::types::{ArgumentView, AssemblyErrorView, TokenType, TokenView};
use crate::assembler::writing::{
    lemma_code_is_stripped, lemma_identifier_is_word, lemma_literal_is_read,
    lemma_register_is_read, lemma_spaced_line, lemma_written_instruction,
    lemma_written_labelled_instruction, spec_is_code_word, spec_literal, spec_register_name,
    spec_spaced,
};
use crate::synacor::bus::BusView;
use crate::synacor::console::{spec_low_byte, ConsoleView, CARRIAGE_RETURN};
use crate::synacor::cpu::CpuState;
use crate::synacor::fault::Fault;
use crate::synacor::instruction::Instruction;
use crate::synacor::laws::{lemma_decode_finds, spec_well_formed};
use crate::synacor::memory::MEMORY_SIZE;
use crate::synacor::opcode::Opcode;
use crate::synacor::rules::{
    lemma_rule_add, lemma_rule_halt, lemma_rule_in, lemma_rule_jt, lemma_rule_out, lemma_rule_set,
};
use crate::synacor::semantics::{spec_run, spec_step, spec_sum, Machine};
use crate::synacor::vm::{spec_initial, spec_load, spec_started};
use crate::synacor::MODULO;

verus! {

/// An instruction as a token at `offset`, without label.
pub open spec fn spec_instruction_token(
    offset: nat,
    opcode: Opcode,
    args: Seq<Option<ArgumentView>>,
) -> TokenView {
    TokenView {
        tok_type: TokenType::Instruction,
        label: None,
        offset,
        opcode: Some(opcode),
        args,
        data: Seq::empty(),
    }
}

/// The tokens of the program
///
/// ```text
/// set r0 #x
/// set r1 #y
/// add r2 r0 r1
/// out r2
/// halt
/// ```
pub open spec fn spec_sum_program(x: u16, y: u16) -> Seq<TokenView> {
    seq![
        spec_instruction_token(
            0,
            Opcode::SetReg,
            seq![Some(ArgumentView::Register(0)), Some(ArgumentView::Number(x)), None],
        ),
        spec_instruction_token(
            3,
            Opcode::SetReg,
            seq![Some(ArgumentView::Register(1)), Some(ArgumentView::Number(y)), None],
        ),
        spec_instruction_token(
            6,
            Opcode::Add,
            seq![
                Some(ArgumentView::Register(2)),
                Some(ArgumentView::Register(0)),
                Some(ArgumentView::Register(1)),
            ],
        ),
        spec_instruction_token(10, Opcode::Out, seq![Some(ArgumentView::Register(2)), None, None]),
        spec_instruction_token(12, Opcode::Halt, seq![None, None, None]),
    ]
}

/// The machine that has loaded the image `bytes` and was started.
pub open spec fn spec_boot(bytes: Seq<u8>) -> Machine {
    let fresh = spec_initial();
    spec_started(
        Machine {
            bus: BusView {
                memory: spec_load(fresh.bus.memory, spec_bytes_to_words(bytes)),
                ..fresh.bus
            },
            ..fresh
        },
    )
}

/// The words that the sum program is written out as.
pub open spec fn spec_sum_image(x: u16, y: u16) -> Seq<u16> {
    seq![1, 0x8000, x, 1, 0x8001, y, 9, 0x8002, 0x8000, 0x8001, 19, 0x8002, 0]
}

/// For all 15-bit numbers `x` and `y`, the sum program assembles to its image.
pub proof fn lemma_sum_program_assembles(x: u16, y: u16)
    requires
        x < MODULO,
        y < MODULO,
    ensures
        spec_resolve_labels(spec_sum_program(x, y)) == Ok::<Seq<TokenView>, AssemblyErrorView>(
            spec_sum_program(x, y),
        ),
        spec_convert_to_bytes(spec_sum_program(x, y)) == Ok::<Seq<u8>, AssemblyErrorView>(
            spec_words_to_bytes(spec_sum_image(x, y)),
        ),
        forall|k: int| 0 <= k < 5 ==> (#[trigger] spec_sum_program(x, y)[k]).wf(),
{
    let tokens = spec_sum_program(x, y);
    let table = Map::<Seq<char>, nat>::empty();
    assert(spec_symbols(tokens) == Ok::<Map<Seq<char>, nat>, AssemblyErrorView>(table)) by {
        reveal_with_fuel(spec_symbols_from, 6);
    }
    assert(spec_resolve_from(tokens, 5, table, tokens) == Ok::<Seq<TokenView>, AssemblyErrorView>(
        tokens,
    ));
    assert(tokens.take(5) =~= tokens);
    lemma_resolves_to_itself(tokens, 4, table);
    lemma_resolves_to_itself(tokens, 3, table);
    lemma_resolves_to_itself(tokens, 2, table);
    lemma_resolves_to_itself(tokens, 1, table);
    lemma_resolves_to_itself(tokens, 0, table);
    assert(tokens.take(0) =~= Seq::empty());
    assert(spec_first_unresolved(tokens, 0) is None) by {
        reveal_with_fuel(spec_first_unresolved, 6);
    }
    assert(spec_image(tokens) =~= spec_sum_image(x, y)) by {
        reveal_with_fuel(spec_image, 6);
        assert(tokens.drop_last() =~= tokens.take(4));
        assert(tokens.take(4).drop_last() =~= tokens.take(3));
        assert(tokens.take(3).drop_last() =~= tokens.take(2));
        assert(tokens.take(2).drop_last() =~= tokens.take(1));
        assert(tokens.take(1).drop_last() =~= tokens.take(0));
        assert(spec_image(tokens.take(0)) =~= Seq::empty());
        assert(spec_image(tokens.take(1)) =~= seq![1u16, 0x8000u16, x]);
        assert(spec_image(tokens.take(2)) =~= seq![1u16, 0x8000u16, x, 1u16, 0x8001u16, y]);
        assert(spec_image(tokens.take(3)) =~= seq![
            1u16,
            0x8000u16,
            x,
            1u16,
            0x8001u16,
            y,
            9u16,
            0x8002u16,
            0x8000u16,
            0x8001u16,
        ]);
        assert(spec_image(tokens.take(4)) =~= seq![
            1u16,
            0x8000u16,
            x,
            1u16,
            0x8001u16,
            y,
            9u16,
            0x8002u16,
            0x8000u16,
            0x8001u16,
            19u16,
            0x8002u16,
        ]);
    }
}

/// A token whose operands are registers and numbers resolves to itself: if the
/// tokens behind token `k` resolve to themselves, so do those from token `k` on.
proof fn lemma_resolves_to_itself(tokens: Seq<TokenView>, k: int, table: Map<Seq<char>, nat>)
    requires
        0 <= k < tokens.len(),
        tokens[k].args.len() == 3,
        forall|j: int|
            0 <= j < 3 ==> ((#[trigger] tokens[k].args[j]) matches Some(a) ==> a is Register
                || a is Number),
        spec_resolve_from(tokens, k + 1, table, tokens.take(k + 1)) == Ok::<
            Seq<TokenView>,
            AssemblyErrorView,
        >(tokens),
    ensures
        spec_resolve_from(tokens, k, table, tokens.take(k)) == Ok::<
            Seq<TokenView>,
            AssemblyErrorView,
        >(tokens),
{
    let t = tokens[k];
    assert(t.args[0] is None || t.args[0]->0 is Register || t.args[0]->0 is Number);
    assert(t.args[1] is None || t.args[1]->0 is Register || t.args[1]->0 is Number);
    assert(t.args[2] is None || t.args[2]->0 is Register || t.args[2]->0 is Number);
    assert(seq![t.args[0], t.args[1], t.args[2]] =~= t.args);
    assert(tokens.take(k).push(t) =~= tokens.take(k + 1));
}

/// Whether the memory of `m` holds the words `image` from address 0 on.
pub open spec fn spec_holds_image(m: Machine, image: Seq<u16>) -> bool {
    &&& image.len() <= m.bus.memory.len()
    &&& forall|a: int| 0 <= a < image.len() ==> m.bus.memory[a] == #[trigger] image[a]
}

/// What the sum program makes of a running machine that holds its image, with the
/// program counter at 0: after five instruction cycles the machine has halted at
/// address 12, registers 0, 1 and 2 hold `x`, `y` and their sum modulo `0x8000`,
/// and the low byte of the sum was added to the output.
pub proof fn lemma_sum_image_runs(m: Machine, x: u16, y: u16, budget: nat)
    requires
        x < MODULO,
        y < MODULO,
        budget >= 5,
        spec_well_formed(m),
        spec_holds_image(m, spec_sum_image(x, y)),
        m.cpu.state == CpuState::Running,
        m.cpu.pc == 0,
    ensures
        ({
            let after = spec_run(m, budget);
            &&& after.cpu.state == CpuState::Halted
            &&& after.cpu.registers[0] == x
            &&& after.cpu.registers[1] == y
            &&& after.cpu.registers[2] == (x + y) % 0x8000
            &&& after.cpu.pc == 12
            &&& after.console.output == m.console.output.push(spec_low_byte(spec_sum(x, y)))
        }),
{
    let image = spec_sum_image(x, y);
    let sum = spec_sum(x, y);
    let mem = m.bus.memory;
    assert(mem[0] == image[0] && mem[1] == image[1] && mem[2] == image[2]);
    assert(mem[3] == image[3] && mem[4] == image[4] && mem[5] == image[5]);
    assert(mem[6] == image[6] && mem[7] == image[7] && mem[8] == image[8] && mem[9] == image[9]);
    assert(mem[10] == image[10] && mem[11] == image[11] && mem[12] == image[12]);
    let m1 = spec_step(m);
    lemma_decode_finds(mem, 0, Instruction::SetReg(0x8000, x));
    lemma_rule_set(m, 0x8000, x, 0, x);
    let m2 = spec_step(m1);
    lemma_decode_finds(mem, 3, Instruction::SetReg(0x8001, y));
    lemma_rule_set(m1, 0x8001, y, 1, y);
    let m3 = spec_step(m2);
    lemma_decode_finds(mem, 6, Instruction::Add(0x8002, 0x8000, 0x8001));
    lemma_rule_add(m2, 0x8002, 0x8000, 0x8001, 2, x, y);
    let m4 = spec_step(m3);
    lemma_decode_finds(mem, 10, Instruction::Out(0x8002));
    lemma_rule_out(m3, 0x8002, sum);
    let m5 = spec_step(m4);
    lemma_decode_finds(mem, 12, Instruction::Halt);
    lemma_rule_halt(m4);
    assert(spec_run(m, budget) == m5) by {
        reveal_with_fuel(spec_run, 7);
    }
}

/// The sum program does what it says: for all 15-bit numbers `x` and `y`, the
/// machine that loads the assembled program and runs it for five instruction
/// cycles or more halts with the sum of `x` and `y` modulo `0x8000` in register 2,
/// and has written the low byte of the sum to its output.
pub proof fn lemma_sum_program_runs(x: u16, y: u16, budget: nat)
    requires
        x < MODULO,
        y < MODULO,
        budget >= 5,
    ensures
        spec_convert_to_bytes(spec_sum_program(x, y)) is Ok,
        ({
            let bytes = spec_convert_to_bytes(spec_sum_program(x, y))->Ok_0;
            let m = spec_run(spec_boot(bytes), budget);
            &&& m.cpu.state == CpuState::Halted
            &&& m.cpu.registers[0] == x
            &&& m.cpu.registers[1] == y
            &&& m.cpu.registers[2] == (x + y) % 0x8000
            &&& m.cpu.pc == 12
            &&& m.console.output == seq![spec_low_byte(spec_sum(x, y))]
        }),
{
    lemma_sum_program_assembles(x, y);
    let image = spec_sum_image(x, y);
    let bytes = spec_words_to_bytes(image);
    lemma_words_round_trip(image);
    let m = spec_boot(bytes);
    lemma_sum_image_runs(m, x, y, budget);
    assert(m.console.output.push(spec_low_byte(spec_sum(x, y))) =~= seq![
        spec_low_byte(spec_sum(x, y)),
    ]);
}

/// The tokens of the program
///
/// ```text
/// loop_start: in r0
///             out r0
///             jt r0 loop_start
/// ```
pub open spec fn spec_echo_program() -> Seq<TokenView> {
    seq![
        TokenView {
            label: Some("loop_start"@),
            ..spec_instruction_token(
                0,
                Opcode::In,
                seq![Some(ArgumentView::Register(0)), None, None],
            )
        },
        spec_instruction_token(2, Opcode::Out, seq![Some(ArgumentView::Register(0)), None, None]),
        spec_instruction_token(
            4,
            Opcode::Jt,
            seq![
                Some(ArgumentView::Register(0)),
                Some(ArgumentView::Label("loop_start"@)),
                None,
            ],
        ),
    ]
}

/// The words that the echo program is written out as.
pub open spec fn spec_echo_image() -> Seq<u16> {
    seq![20, 0x8000, 19, 0x8000, 7, 0x8000, 0]
}

/// No byte of `s` is a carriage return or zero.
pub open spec fn spec_is_plain_text(s: Seq<u8>) -> bool {
    forall|k: int| 0 <= k < s.len() ==> #[trigger] s[k] != CARRIAGE_RETURN && s[k] != 0
}

/// The machine `m` with `input` as the input of its console.
pub open spec fn spec_fed(m: Machine, input: Seq<u8>) -> Machine {
    Machine { console: ConsoleView { input, ..m.console }, ..m }
}

/// The echo program assembles to its image: its label resolves to offset 0.
pub proof fn lemma_echo_program_assembles()
    ensures
        spec_resolve_labels(spec_echo_program()) is Ok,
        spec_convert_to_bytes(spec_resolve_labels(spec_echo_program())->Ok_0) == Ok::<
            Seq<u8>,
            AssemblyErrorView,
        >(spec_words_to_bytes(spec_echo_image())),
{
    let tokens = spec_echo_program();
    let name = "loop_start"@;
    let table = Map::<Seq<char>, nat>::empty().insert(name, 0);
    assert(spec_symbols(tokens) == Ok::<Map<Seq<char>, nat>, AssemblyErrorView>(table)) by {
        reveal_with_fuel(spec_symbols_from, 4);
    }
    let jump = TokenView {
        args: seq![Some(ArgumentView::Register(0)), Some(ArgumentView::Number(0)), None],
        ..tokens[2]
    };
    let resolved = seq![tokens[0], tokens[1], jump];
    assert(spec_resolve_from(tokens, 0, table, Seq::empty()) == Ok::<
        Seq<TokenView>,
        AssemblyErrorView,
    >(resolved)) by {
        reveal_with_fuel(spec_resolve_from, 4);
        assert(seq![tokens[0].args[0], tokens[0].args[1], tokens[0].args[2]] =~= tokens[0].args);
        assert(seq![tokens[1].args[0], tokens[1].args[1], tokens[1].args[2]] =~= tokens[1].args);
        assert(Seq::<TokenView>::empty().push(tokens[0]).push(tokens[1]).push(jump) =~= resolved);
    }
    assert(spec_first_unresolved(resolved, 0) is None) by {
        reveal_with_fuel(spec_first_unresolved, 4);
    }
    assert(spec_image(resolved) =~= spec_echo_image()) by {
        reveal_with_fuel(spec_image, 4);
        assert(resolved.drop_last() =~= resolved.take(2));
        assert(resolved.take(2).drop_last() =~= resolved.take(1));
        assert(resolved.take(1).drop_last() =~= resolved.take(0));
        assert(spec_image(resolved.take(0)) =~= Seq::empty());
        assert(spec_image(resolved.take(1)) =~= seq![20u16, 0x8000u16]);
        assert(spec_image(resolved.take(2)) =~= seq![20u16, 0x8000u16, 19u16, 0x8000u16]);
    }
}

/// What the echo program makes of a running machine that holds its image, with the
/// program counter at 0: it writes its input to its output, byte for byte, until it
/// finds the input at its end and fails with `Io`. This holds for an input without
/// carriage returns and without zero bytes, and takes three instruction cycles for
/// each byte and one more.
pub proof fn lemma_echo_image_runs(m: Machine, budget: nat)
    requires
        spec_well_formed(m),
        spec_holds_image(m, spec_echo_image()),
        m.cpu.state == CpuState::Running,
        m.cpu.pc == 0,
        spec_is_plain_text(m.console.input),
        budget >= 3 * m.console.input.len() + 1,
    ensures
        ({
            let after = spec_run(m, budget);
            &&& after.cpu.state == CpuState::Error
            &&& after.cpu.fault == Some(Fault::Io)
            &&& after.console.output == m.console.output + m.console.input
            &&& after.console.input == Seq::<u8>::empty()
        }),
    decreases m.console.input.len(),
{
    let image = spec_echo_image();
    let mem = m.bus.memory;
    let input = m.console.input;
    assert(mem[0] == image[0] && mem[1] == image[1] && mem[2] == image[2] && mem[3] == image[3]);
    assert(mem[4] == image[4] && mem[5] == image[5]);
    let m1 = spec_step(m);
    lemma_decode_finds(mem, 0, Instruction::In(0x8000));
    lemma_rule_in(m, 0x8000, 0);
    if input.len() == 0 {
        assert(spec_run(m, budget) == m1) by {
            reveal_with_fuel(spec_run, 3);
        }
        assert(m.console.output + input =~= m.console.output);
    } else {
        let byte = input[0];
        assert((byte as u16 & 0xFF) as u8 == byte) by (bit_vector);
        let m2 = spec_step(m1);
        lemma_decode_finds(mem, 2, Instruction::Out(0x8000));
        lemma_rule_out(m1, 0x8000, byte as u16);
        let m3 = spec_step(m2);
        lemma_decode_finds(mem, 4, Instruction::Jt(0x8000, 0));
        lemma_rule_jt(m2, 0x8000, 0, byte as u16, 0);
        assert(spec_run(m, budget) == spec_run(m3, (budget - 3) as nat)) by {
            reveal_with_fuel(spec_run, 4);
        }
        assert(m3.console.input == input.drop_first());
        lemma_echo_image_runs(m3, (budget - 3) as nat);
        assert(m.console.output.push(byte) + input.drop_first() =~= m.console.output + input);
    }
}

/// The echo program reproduces its input: the machine that loads the assembled
/// program, is given an input without carriage returns and zero bytes, and runs
/// long enough, stops at the end of the input with the input as its output.
pub proof fn lemma_echo_program_runs(input: Seq<u8>, budget: nat)
    requires
        spec_is_plain_text(input),
        budget >= 3 * input.len() + 1,
    ensures
        spec_resolve_labels(spec_echo_program()) is Ok,
        spec_convert_to_bytes(spec_resolve_labels(spec_echo_program())->Ok_0) is Ok,
        ({
            let bytes = spec_convert_to_bytes(
                spec_resolve_labels(spec_echo_program())->Ok_0,
            )->Ok_0;
            let after = spec_run(spec_fed(spec_boot(bytes), input), budget);
            &&& after.cpu.state == CpuState::Error
            &&& after.cpu.fault == Some(Fault::Io)
            &&& after.console.output == input
        }),
{
    lemma_echo_program_assembles();
    let image = spec_echo_image();
    lemma_words_round_trip(image);
    let m = spec_fed(spec_boot(spec_words_to_bytes(image)), input);
    lemma_echo_image_runs(m, budget);
    assert(m.console.output + input =~= input);
}

/// The lines of the sum program as they are written: each the mnemonic and the
/// operands, set apart by blanks.
pub open spec fn spec_sum_lines(x: u16, y: u16) -> Seq<Seq<char>> {
    seq![
        spec_spaced(seq!["set"@, spec_register_name(0), spec_literal(x as nat)]),
        spec_spaced(seq!["set"@, spec_register_name(1), spec_literal(y as nat)]),
        spec_spaced(
            seq!["add"@, spec_register_name(2), spec_register_name(0), spec_register_name(1)],
        ),
        spec_spaced(seq!["out"@, spec_register_name(2)]),
        spec_spaced(seq!["halt"@]),
    ]
}

/// The source text of the sum program: its lines, with a line feed between each
/// two.
pub open spec fn spec_sum_source(x: u16, y: u16) -> Seq<char> {
    spec_join(spec_sum_lines(x, y))
}

/// The mnemonics of the sum program are code words and define no label.
proof fn lemma_sum_mnemonics()
    ensures
        spec_is_code_word("set"@),
        spec_is_code_word("add"@),
        spec_is_code_word("out"@),
        spec_is_code_word("halt"@),
        spec_label_definition("set"@) is None,
        spec_label_definition("add"@) is None,
        spec_label_definition("out"@) is None,
        spec_label_definition("halt"@) is None,
{
    reveal_strlit("set");
    reveal_strlit("add");
    reveal_strlit("out");
    reveal_strlit("halt");
}

/// A line that is an instruction becomes the next token and keeps its label, if no
/// label waits and the token fits into the address space.
pub proof fn lemma_instruction_is_placed(
    lines: Seq<Seq<char>>,
    k: int,
    state: LexState,
    label: Option<Seq<char>>,
    op: Opcode,
    args: Seq<Option<ArgumentView>>,
)
    requires
        0 <= k < lines.len(),
        spec_parse_line(lines[k]) == (LineView::Instruction { label, opcode: op, args }),
        state.pending is None,
        spec_next_offset(state.tokens) + 1 + op.spec_argc() <= MEMORY_SIZE,
    ensures
        spec_tokenize_from(lines, k, state) == spec_tokenize_from(
            lines,
            k + 1,
            LexState {
                tokens: state.tokens.push(
                    TokenView {
                        label,
                        ..spec_instruction_token(spec_next_offset(state.tokens), op, args)
                    },
                ),
                pending: None,
            },
        ),
{
}

/// The lines of the sum program are read as its tokens.
pub proof fn lemma_sum_lines_tokenize(x: u16, y: u16)
    requires
        x < MODULO,
        y < MODULO,
    ensures
        spec_tokenize(spec_sum_lines(x, y)) == Ok::<Seq<TokenView>, AssemblyErrorView>(
            spec_sum_program(x, y),
        ),
        forall|k: int|
            0 <= k < 5 ==> spec_is_clean(#[trigger] spec_sum_lines(x, y)[k]) && spec_stripped(
                spec_sum_lines(x, y),
            )[k] == spec_sum_lines(x, y)[k] && spec_sum_lines(x, y)[k].len() >= 1,
{
    let lines = spec_sum_lines(x, y);
    let program = spec_sum_program(x, y);
    let r0 = spec_register_name(0);
    let r1 = spec_register_name(1);
    let r2 = spec_register_name(2);
    lemma_sum_mnemonics();
    Opcode::lemma_mnemonics();
    lemma_register_is_read(0);
    lemma_register_is_read(1);
    lemma_register_is_read(2);
    lemma_literal_is_read(x as nat);
    lemma_literal_is_read(y as nat);
    let w0 = seq!["set"@, r0, spec_literal(x as nat)];
    let w1 = seq!["set"@, r1, spec_literal(y as nat)];
    let w2 = seq!["add"@, r2, r0, r1];
    let w3 = seq!["out"@, r2];
    let w4 = seq!["halt"@];
    lemma_written_instruction(w0, Opcode::SetReg, program[0].args);
    lemma_written_instruction(w1, Opcode::SetReg, program[1].args);
    lemma_written_instruction(w2, Opcode::Add, program[2].args);
    lemma_written_instruction(w3, Opcode::Out, program[3].args);
    lemma_written_instruction(w4, Opcode::Halt, program[4].args);
    lemma_spaced_line(w0);
    lemma_spaced_line(w1);
    lemma_spaced_line(w2);
    lemma_spaced_line(w3);
    lemma_spaced_line(w4);
    lemma_code_is_stripped(lines[0]);
    lemma_code_is_stripped(lines[1]);
    lemma_code_is_stripped(lines[2]);
    lemma_code_is_stripped(lines[3]);
    lemma_code_is_stripped(lines[4]);
    let s0 = LexState { tokens: Seq::empty(), pending: None };
    let s1 = LexState { tokens: s0.tokens.push(program[0]), pending: None };
    let s2 = LexState { tokens: s1.tokens.push(program[1]), pending: None };
    let s3 = LexState { tokens: s2.tokens.push(program[2]), pending: None };
    let s4 = LexState { tokens: s3.tokens.push(program[3]), pending: None };
    let s5 = LexState { tokens: s4.tokens.push(program[4]), pending: None };
    lemma_instruction_is_placed(lines, 0, s0, None, Opcode::SetReg, program[0].args);
    lemma_instruction_is_placed(lines, 1, s1, None, Opcode::SetReg, program[1].args);
    lemma_instruction_is_placed(lines, 2, s2, None, Opcode::Add, program[2].args);
    lemma_instruction_is_placed(lines, 3, s3, None, Opcode::Out, program[3].args);
    lemma_instruction_is_placed(lines, 4, s4, None, Opcode::Halt, program[4].args);
    assert(s5.tokens =~= program);
}

/// The source text of the sum program assembles to the image of the program.
pub proof fn lemma_sum_source_assembles(x: u16, y: u16)
    requires
        x < MODULO,
        y < MODULO,
    ensures
        spec_assemble(spec_sum_source(x, y)) == Ok::<Seq<u8>, AssemblyErrorView>(
            spec_words_to_bytes(spec_sum_image(x, y)),
        ),
{
    let lines = spec_sum_lines(x, y);
    let source = spec_sum_source(x, y);
    lemma_sum_lines_tokenize(x, y);
    assert(lines.len() == 5 && lines.last() == lines[4]);
    lemma_lines_of_join(lines);
    assert(spec_lines(source, 0) == lines);
    assert(spec_stripped(lines) =~= lines);
    lemma_lines_keep_their_numbers(source);
    lemma_sum_program_assembles(x, y);
}

/// The round trip through the assembler and the machine: for all 15-bit numbers
/// `x` and `y`, the machine that loads what the source text
///
/// ```text
/// set r0 #x
/// set r1 #y
/// add r2 r0 r1
/// out r2
/// halt
/// ```
///
/// assembles to, and runs it for five instruction cycles or more, halts with the
/// sum of `x` and `y` modulo `0x8000` in register 2, and has written the low byte
/// of the sum to its output.
pub proof fn lemma_sum_source_runs(x: u16, y: u16, budget: nat)
    requires
        x < MODULO,
        y < MODULO,
        budget >= 5,
    ensures
        spec_assemble(spec_sum_source(x, y)) is Ok,
        ({
            let bytes = spec_assemble(spec_sum_source(x, y))->Ok_0;
            let m = spec_run(spec_boot(bytes), budget);
            &&& m.cpu.state == CpuState::Halted
            &&& m.cpu.registers[2] == (x + y) % 0x8000
            &&& m.console.output == seq![spec_low_byte(spec_sum(x, y))]
        }),
{
    lemma_sum_source_assembles(x, y);
    lemma_sum_program_assembles(x, y);
    lemma_sum_program_runs(x, y, budget);
}

/// The lines of the echo program as they are written.
pub open spec fn spec_echo_lines() -> Seq<Seq<char>> {
    seq![
        spec_spaced(seq!["loop_start"@.push(':'), "in"@, spec_register_name(0)]),
        spec_spaced(seq!["out"@, spec_register_name(0)]),
        spec_spaced(seq!["jt"@, spec_register_name(0), "loop_start"@]),
    ]
}

/// The source text of the echo program.
pub open spec fn spec_echo_source() -> Seq<char> {
    spec_join(spec_echo_lines())
}

/// The words of the echo program: its mnemonics are code words and define no
/// label, and the name of its label is an identifier that denotes a label.
proof fn lemma_echo_words()
    ensures
        spec_is_code_word("in"@),
        spec_is_code_word("out"@),
        spec_is_code_word("jt"@),
        spec_label_definition("out"@) is None,
        spec_label_definition("jt"@) is None,
        spec_is_identifier("loop_start"@),
        spec_argument("loop_start"@) == Some(ArgumentView::Label("loop_start"@)),
{
    reveal_strlit("in");
    reveal_strlit("out");
    reveal_strlit("jt");
    reveal_strlit("loop_start");
    let name = "loop_start"@;
    assert(name[0] == 'l' && name[1] == 'o' && name[2] == 'o' && name[3] == 'p' && name[4] == '_');
    assert(name[5] == 's' && name[6] == 't' && name[7] == 'a' && name[8] == 'r' && name[9] == 't');
}

/// The lines of the echo program are read as its tokens.
pub proof fn lemma_echo_lines_tokenize()
    ensures
        spec_tokenize(spec_echo_lines()) == Ok::<Seq<TokenView>, AssemblyErrorView>(
            spec_echo_program(),
        ),
        forall|k: int|
            0 <= k < 3 ==> spec_is_clean(#[trigger] spec_echo_lines()[k]) && spec_stripped(
                spec_echo_lines(),
            )[k] == spec_echo_lines()[k] && spec_echo_lines()[k].len() >= 1,
{
    let lines = spec_echo_lines();
    let program = spec_echo_program();
    let name = "loop_start"@;
    let r0 = spec_register_name(0);
    lemma_echo_words();
    Opcode::lemma_mnemonics();
    lemma_register_is_read(0);
    lemma_identifier_is_word(name);
    let w0 = seq!["in"@, r0];
    let w1 = seq!["out"@, r0];
    let w2 = seq!["jt"@, r0, name];
    lemma_written_labelled_instruction(name, w0, Opcode::In, program[0].args);
    lemma_written_instruction(w1, Opcode::Out, program[1].args);
    lemma_written_instruction(w2, Opcode::Jt, program[2].args);
    assert(seq![name.push(':')] + w0 =~= seq![name.push(':'), "in"@, r0]);
    lemma_spaced_line(seq![name.push(':'), "in"@, r0]);
    lemma_spaced_line(w1);
    lemma_spaced_line(w2);
    lemma_code_is_stripped(lines[0]);
    lemma_code_is_stripped(lines[1]);
    lemma_code_is_stripped(lines[2]);
    let s0 = LexState { tokens: Seq::empty(), pending: None };
    let s1 = LexState { tokens: s0.tokens.push(program[0]), pending: None };
    let s2 = LexState { tokens: s1.tokens.push(program[1]), pending: None };
    let s3 = LexState { tokens: s2.tokens.push(program[2]), pending: None };
    lemma_instruction_is_placed(lines, 0, s0, Some(name), Opcode::In, program[0].args);
    lemma_instruction_is_placed(lines, 1, s1, None, Opcode::Out, program[1].args);
    lemma_instruction_is_placed(lines, 2, s2, None, Opcode::Jt, program[2].args);
    assert(s3.tokens =~= program);
}

/// The echo program reproduces its input, from the source text on: the machine
/// that loads what the source text
///
/// ```text
/// loop_start: in r0
/// out r0
/// jt r0 loop_start
/// ```
///
/// assembles to, is given an input without carriage returns and zero bytes, and
/// runs for three instruction cycles for each byte and one more, stops at the end
/// of the input with the input as its output.
pub proof fn lemma_echo_source_runs(input: Seq<u8>, budget: nat)
    requires
        spec_is_plain_text(input),
        budget >= 3 * input.len() + 1,
    ensures
        spec_assemble(spec_echo_source()) is Ok,
        ({
            let bytes = spec_assemble(spec_echo_source())->Ok_0;
            let after = spec_run(spec_fed(spec_boot(bytes), input), budget);
            &&& after.cpu.state == CpuState::Error
            &&& after.cpu.fault == Some(Fault::Io)
            &&& after.console.output == input
        }),
{
    let lines = spec_echo_lines();
    let source = spec_echo_source();
    lemma_echo_lines_tokenize();
    assert(lines.len() == 3 && lines.last() == lines[2]);
    lemma_lines_of_join(lines);
    assert(spec_lines(source, 0) == lines);
    assert(spec_stripped(lines) =~= lines);
    lemma_lines_keep_their_numbers(source);
    lemma_echo_program_assembles();
    lemma_echo_program_runs(input, budget);
}

} // verus!
