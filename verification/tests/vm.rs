use synacor_vm::assembler::assemble;
use synacor_vm::assembler::disassembly_steps::convert_to_words;
use synacor_vm::synacor::cpu::CpuState;
use synacor_vm::synacor::fault::Fault;
use synacor_vm::synacor::instruction::Instruction;
use synacor_vm::synacor::memory::MEMORY_SIZE;
use synacor_vm::synacor::Vm;
use synacor_vm::synacor::WORD;

const R0: WORD = 32768;
const R1: WORD = 32769;
const R2: WORD = 32770;

fn run(program: Vec<WORD>) -> Vm {
    let mut vm = Vm::new();
    vm.load_memory(program);
    vm.run(u64::MAX);
    vm
}

fn run_with_input(program: Vec<WORD>, input: &[u8]) -> Vm {
    let mut vm = Vm::new();
    vm.load_memory(program);
    vm.feed_input(input);
    vm.run(u64::MAX);
    vm
}

fn run_source(source: &str) -> Vm {
    run(convert_to_words(assemble(source.to_string()).unwrap()))
}

#[test]
fn test_basic_program() {
    let test_program: Vec<WORD> = vec![9, 32768, 32769, 4, 19, 32768];
    let mut vm = Vm::new();
    vm.load_memory(test_program);
    {
        vm.run(u64::MAX);
    }

    assert_eq!(&CpuState::Halted, vm.cpu().state());
    assert_eq!(0u16, vm.cpu().register_get(1));
    assert_eq!(4u16, vm.cpu().register_get(0));
    assert_eq!(6, vm.cpu().pc());
}

#[test]
fn basic_program_writes_its_output() {
    let mut vm = run(vec![9, 32768, 32769, 4, 19, 32768]);
    assert_eq!(vec![4u8], vm.take_output());
    assert_eq!(Vec::<u8>::new(), vm.take_output());
    assert_eq!(None, vm.cpu().fault());
}

#[test]
fn jump_to_an_invalid_address_is_an_error() {
    let vm = run(vec![6, 40000]);
    assert_eq!(&CpuState::Error, vm.cpu().state());
    assert_eq!(Some(Fault::InvalidAddress(40000)), vm.cpu().fault());
    assert_eq!(2, vm.cpu().pc());
}

#[test]
fn add_is_modular() {
    let vm = run(vec![1, R1, 0x7FFF, 1, R2, 1, 9, R0, R1, R2, 0]);
    assert_eq!(&CpuState::Halted, vm.cpu().state());
    assert_eq!(0, vm.cpu().register_get(0));
    assert_eq!(0x7FFF, vm.cpu().register_get(1));
    assert_eq!(1, vm.cpu().register_get(2));
}

#[test]
fn pop_from_an_empty_stack_is_an_error() {
    let vm = run(vec![3, R0]);
    assert_eq!(&CpuState::Error, vm.cpu().state());
    assert_eq!(Some(Fault::EmptyStack), vm.cpu().fault());
}

#[test]
fn ret_on_an_empty_stack_halts() {
    let vm = run(vec![18]);
    assert_eq!(&CpuState::Halted, vm.cpu().state());
    assert_eq!(None, vm.cpu().fault());
}

#[test]
fn the_sum_program_adds_modulo_0x8000() {
    for (x, y) in [(0u32, 0u32), (1, 2), (0x7FFF, 1), (0x7FFF, 0x7FFF), (12345, 23456), (300, 77)] {
        let source = format!("set r0 #{}\nset r1 #{}\nadd r2 r0 r1\nout r2\nhalt", x, y);
        let mut vm = run_source(&source);
        let sum = ((x + y) % 0x8000) as u16;
        assert_eq!(&CpuState::Halted, vm.cpu().state());
        assert_eq!(sum, vm.cpu().register_get(2));
        assert_eq!(vec![(sum & 0xFF) as u8], vm.take_output());
    }
}

#[test]
fn ret_returns_behind_the_call() {
    // 0: call 5 / 2: set r1 7 / 5: set r0 9 / 8: ret
    let vm = run(vec![17, 5, 1, R1, 7, 1, R0, 9, 18]);
    // From 2 on: set r1 7, then set r0 9 again, then ret on the empty stack.
    assert_eq!(&CpuState::Halted, vm.cpu().state());
    assert_eq!(9, vm.cpu().register_get(0));
    assert_eq!(7, vm.cpu().register_get(1));
    assert_eq!(
        vec![
            Instruction::Ret,
            Instruction::SetReg(R0, 9),
            Instruction::SetReg(R1, 7),
            Instruction::Ret,
            Instruction::SetReg(R0, 9),
        ],
        vm.cpu().trace()
    );
}

#[test]
fn call_pushes_the_address_of_the_next_instruction() {
    // 0: call 4 / 2: halt / 4: pop r0 / 6: halt
    let vm = run(vec![17, 4, 0, 0, 3, R0, 0]);
    assert_eq!(&CpuState::Halted, vm.cpu().state());
    assert_eq!(2, vm.cpu().register_get(0));
    assert_eq!(6, vm.cpu().pc());
}

#[test]
fn mult_is_modular_and_wide() {
    let vm = run(vec![10, R0, 0x7FFF, 0x7FFF, 10, R1, 255, 255, 10, R2, 181, 182, 0]);
    assert_eq!(1, vm.cpu().register_get(0));
    assert_eq!(65025 % 32768, vm.cpu().register_get(1));
    assert_eq!(32942 % 32768, vm.cpu().register_get(2));
}

#[test]
fn not_inverts_fifteen_bits() {
    let vm = run(vec![14, R0, 0, 14, R1, 0x7FFF, 14, R2, 0x1234, 0]);
    assert_eq!(0x7FFF, vm.cpu().register_get(0));
    assert_eq!(0, vm.cpu().register_get(1));
    assert_eq!(0x6DCB, vm.cpu().register_get(2));
}

#[test]
fn comparisons_give_one_or_zero() {
    let vm = run(vec![4, R0, 5, 5, 4, R1, 5, 6, 5, R2, 6, 5, 5, 32771, 5, 5, 0]);
    assert_eq!(1, vm.cpu().register_get(0));
    assert_eq!(0, vm.cpu().register_get(1));
    assert_eq!(1, vm.cpu().register_get(2));
    assert_eq!(0, vm.cpu().register_get(3));
}

#[test]
fn mod_and_or() {
    let vm = run(vec![11, R0, 17, 5, 12, R1, 0x0FF0, 0x3C3C, 13, R2, 0x0FF0, 0x3C3C, 0]);
    assert_eq!(2, vm.cpu().register_get(0));
    assert_eq!(0x0C30, vm.cpu().register_get(1));
    assert_eq!(0x3FFC, vm.cpu().register_get(2));
}

#[test]
fn mod_by_zero_is_an_error() {
    let vm = run(vec![11, R0, 17, 0]);
    assert_eq!(&CpuState::Error, vm.cpu().state());
    assert_eq!(Some(Fault::DivisionByZero), vm.cpu().fault());
    assert_eq!(0, vm.cpu().register_get(0));
}

#[test]
fn an_invalid_operand_is_an_error() {
    let vm = run(vec![2, 32776]);
    assert_eq!(&CpuState::Error, vm.cpu().state());
    assert_eq!(Some(Fault::InvalidOperand(32776)), vm.cpu().fault());
}

#[test]
fn a_literal_where_a_register_is_needed_is_an_error() {
    let vm = run(vec![1, 5, 5]);
    assert_eq!(&CpuState::Error, vm.cpu().state());
    assert_eq!(Some(Fault::ExpectedRegister(5)), vm.cpu().fault());
    let vm = run(vec![1, 32776, 5]);
    assert_eq!(Some(Fault::ExpectedRegister(32776)), vm.cpu().fault());
}

#[test]
fn an_unknown_opcode_is_an_error() {
    let vm = run(vec![21, 22]);
    assert_eq!(&CpuState::Error, vm.cpu().state());
    assert_eq!(Some(Fault::UnknownOpcode(22)), vm.cpu().fault());
    assert_eq!(1, vm.cpu().pc());
    assert_eq!(vec![Instruction::Noop], vm.cpu().trace());
}

#[test]
fn reading_at_the_end_of_the_input_is_an_error() {
    let vm = run(vec![20, R0]);
    assert_eq!(&CpuState::Error, vm.cpu().state());
    assert_eq!(Some(Fault::Io), vm.cpu().fault());
}

#[test]
fn in_passes_over_carriage_returns() {
    let vm = run_with_input(vec![20, R0, 20, R1, 20, R2, 0], b"\ra\r\r\nb");
    assert_eq!(&CpuState::Halted, vm.cpu().state());
    assert_eq!(97, vm.cpu().register_get(0));
    assert_eq!(10, vm.cpu().register_get(1));
    assert_eq!(98, vm.cpu().register_get(2));
}

#[test]
fn in_needs_a_register_and_leaves_the_input_alone_without_one() {
    let mut vm = Vm::new();
    vm.load_memory(vec![20, 5]);
    vm.feed_input(b"x");
    vm.run(u64::MAX);
    assert_eq!(Some(Fault::ExpectedRegister(5)), vm.cpu().fault());
}

#[test]
fn the_echo_program_reproduces_its_input() {
    let source = "loop_start: in r0\nout r0\njt r0 loop_start\n";
    let program = convert_to_words(assemble(source.to_string()).unwrap());
    assert_eq!(vec![20, R0, 19, R0, 7, R0, 0], program);
    let text = b"The quick brown fox\njumps over the lazy dog.\n";
    let mut vm = run_with_input(program, text);
    assert_eq!(&CpuState::Error, vm.cpu().state());
    assert_eq!(Some(Fault::Io), vm.cpu().fault());
    assert_eq!(text.to_vec(), vm.take_output());
}

#[test]
fn out_writes_the_low_byte() {
    let mut vm = run(vec![19, 0x1241, 0]);
    assert_eq!(vec![0x41u8], vm.take_output());
}

#[test]
fn memory_is_read_and_written() {
    // wmem 100 77 / rmem r0 100 / set r1 100 / wmem r1 78 / rmem r2 r1 / halt
    let vm = run(vec![16, 100, 77, 15, R0, 100, 1, R1, 100, 16, R1, 78, 15, R2, R1, 0]);
    assert_eq!(&CpuState::Halted, vm.cpu().state());
    assert_eq!(77, vm.cpu().register_get(0));
    assert_eq!(78, vm.cpu().register_get(2));
    assert_eq!(78, vm.read_word(100));
}

#[test]
fn a_memory_operand_that_is_no_address_is_an_error() {
    // rmem r0 0: r0 becomes 15, which is fine; then rmem r1 40000.
    let vm = run(vec![15, R0, 0, 15, R1, 40000]);
    assert_eq!(15, vm.cpu().register_get(0));
    assert_eq!(Some(Fault::InvalidAddress(40000)), vm.cpu().fault());
    // A register that holds a word that is no address: r0 := memory[1] = 0x8000.
    let vm = run(vec![15, R0, 1, 16, R0, 1]);
    assert_eq!(R0, vm.cpu().register_get(0));
    assert_eq!(Some(Fault::InvalidAddress(R0)), vm.cpu().fault());
}

#[test]
fn jumps_depend_on_the_condition() {
    // jt 0 9 / jt 1 8 / halt(6) ... 8: jf 1 0 / 11: jf 0 15 / 14: halt / 15: set r0 1 / halt
    let vm = run(vec![7, 0, 9, 7, 1, 8, 0, 0, 8, 1, 0, 8, 0, 16, 0, 0, 1, R0, 1, 0]);
    assert_eq!(&CpuState::Halted, vm.cpu().state());
    assert_eq!(1, vm.cpu().register_get(0));
    assert_eq!(19, vm.cpu().pc());
}

#[test]
fn a_jump_that_is_not_taken_does_not_look_at_its_target() {
    let vm = run(vec![7, 0, 40000, 8, 1, 40000, 0]);
    assert_eq!(&CpuState::Halted, vm.cpu().state());
    assert_eq!(6, vm.cpu().pc());
}

#[test]
fn push_and_pop_are_last_in_first_out() {
    let vm = run(vec![2, 11, 2, 22, 3, R0, 3, R1, 0]);
    assert_eq!(22, vm.cpu().register_get(0));
    assert_eq!(11, vm.cpu().register_get(1));
}

#[test]
fn running_off_the_end_of_memory_is_an_error() {
    let mut program = vec![6, 0x7FFF];
    program.resize(MEMORY_SIZE, 0);
    program[0x7FFF] = 21;
    let vm = run(program);
    assert_eq!(&CpuState::Error, vm.cpu().state());
    assert_eq!(Some(Fault::InvalidAddress(0x8000)), vm.cpu().fault());
    assert_eq!(0x8000, vm.cpu().pc());
}

#[test]
fn an_instruction_that_does_not_fit_into_memory_is_an_error() {
    let mut program = vec![6, 0x7FFF];
    program.resize(MEMORY_SIZE, 0);
    program[0x7FFF] = 2;
    let vm = run(program);
    assert_eq!(&CpuState::Error, vm.cpu().state());
    assert_eq!(Some(Fault::InvalidAddress(0x8000)), vm.cpu().fault());
    assert_eq!(0x7FFF, vm.cpu().pc());
    assert_eq!(vec![Instruction::Jmp(0x7FFF)], vm.cpu().trace());
}

#[test]
fn a_jump_at_the_end_of_memory_is_fine() {
    // 0: jmp 0x7FFE / 2: halt / 0x7FFE: jmp 2
    let mut program = vec![6, 0x7FFE, 0];
    program.resize(MEMORY_SIZE, 0);
    program[0x7FFE] = 6;
    program[0x7FFF] = 2;
    let vm = run(program);
    assert_eq!(&CpuState::Halted, vm.cpu().state());
    assert_eq!(2, vm.cpu().pc());
}

#[test]
fn a_return_to_an_invalid_address_is_an_error() {
    // rmem r0 1 (r0 := 0x8000) / push r0 / ret
    let vm = run(vec![15, R0, 1, 2, R0, 18]);
    assert_eq!(&CpuState::Error, vm.cpu().state());
    assert_eq!(Some(Fault::InvalidAddress(0x8000)), vm.cpu().fault());
}

#[test]
fn the_trace_keeps_the_last_five_instructions() {
    let vm = run(vec![21, 21, 2, 1, 2, 2, 2, 3, 3, R0, 0]);
    assert_eq!(
        vec![
            Instruction::Halt,
            Instruction::Pop(R0),
            Instruction::Push(3),
            Instruction::Push(2),
            Instruction::Push(1),
        ],
        vm.cpu().trace()
    );
}

#[test]
fn a_run_stops_when_its_budget_is_spent() {
    let mut vm = Vm::new();
    vm.load_memory(vec![9, R0, R0, 1, 6, 0]);
    assert_eq!(&CpuState::NotStarted, vm.cpu().state());
    assert_eq!(&CpuState::Running, vm.run(10));
    assert_eq!(5, vm.cpu().register_get(0));
    assert_eq!(0, vm.cpu().pc());
    assert_eq!(&CpuState::Running, vm.resume(1));
    assert_eq!(6, vm.cpu().register_get(0));
    assert_eq!(4, vm.cpu().pc());
    assert_eq!(&CpuState::Running, vm.resume(0));
    assert_eq!(4, vm.cpu().pc());
    vm.step();
    assert_eq!(6, vm.cpu().register_get(0));
    assert_eq!(0, vm.cpu().pc());
    assert!(vm.cpu().is_running());
}

#[test]
fn a_stopped_machine_stays_as_it_is() {
    let mut vm = run(vec![19, 65, 0]);
    assert_eq!(&CpuState::Halted, vm.resume(100));
    assert_eq!(2, vm.cpu().pc());
    assert_eq!(vec![65u8], vm.take_output());
}

#[test]
fn loading_leaves_the_rest_of_memory_zero() {
    let mut vm = Vm::new();
    vm.load_memory(vec![5, 6, 7]);
    assert_eq!(5, vm.read_word(0));
    assert_eq!(7, vm.read_word(2));
    assert_eq!(0, vm.read_word(3));
    assert_eq!(0, vm.read_word(MEMORY_SIZE - 1));
    vm.load_memory(vec![9]);
    assert_eq!(9, vm.read_word(0));
    assert_eq!(6, vm.read_word(1));
}

#[test]
fn a_machine_says_when_it_waits_for_input() {
    let mut vm = Vm::new();
    vm.load_memory(vec![21, 20, R0, 0]);
    assert!(!vm.awaits_input());
    vm.start();
    assert!(!vm.awaits_input());
    vm.step();
    assert!(vm.awaits_input());
    vm.feed_input(b"\r");
    assert!(vm.awaits_input());
    vm.feed_input(b"z");
    assert!(!vm.awaits_input());
    vm.step();
    assert_eq!(122, vm.cpu().register_get(0));
    assert!(!vm.awaits_input());
}

#[test]
fn the_debug_flag_is_kept() {
    let mut vm = Vm::new();
    assert!(!vm.debug());
    vm.set_debug(true);
    assert!(vm.debug());
}
