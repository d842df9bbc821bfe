use stack_vm::errors::VmError;
use stack_vm::vm::{
    CODE_TYPE_DATA_NEGATIVE, CODE_TYPE_DATA_POSITIVE, CODE_TYPE_INSTRUCTION, VM,
};

/// An instruction word: tag 1 in the top two bits, the opcode below.
fn instr(op: u32) -> u32 {
    (1 << 30) | op
}

fn run_program(words: Vec<u32>, stack_size: usize) -> (Result<(), VmError>, Vec<i32>) {
    let mut vm = VM::new(stack_size);
    vm.load_program(&words);
    let r = vm.run();
    (r, vm.stack_contents())
}

#[test]
fn test_get_type() {
    assert_eq!(0, VM::get_type(0x0));
    assert_eq!(CODE_TYPE_INSTRUCTION, VM::get_type(1073741825));
    assert_eq!(CODE_TYPE_DATA_POSITIVE, VM::get_type(22));
    let neg = -100;
    assert_eq!(CODE_TYPE_DATA_NEGATIVE, VM::get_type(neg as u32));
}

#[test]
fn test_get_data() {
    assert_eq!(0, VM::get_data(0));
    assert_eq!(1, VM::get_data(1));
    let num = -1;
    assert_eq!(-1, VM::get_data(num as u32));
}

#[test]
fn test_tag_is_top_two_bits() {
    for w in [0u32, 22, 1073741825, 0x8000_0000, 0xFFFF_FFFF, 0x3FFF_FFFF, 0x7FFF_FFFF] {
        let t = VM::get_type(w);
        assert!(t <= 3);
        assert_eq!(t as u32, (w >> 30) & 0b11);
    }
}

#[test]
fn test_decode_is_pure() {
    let mut vm = VM::new(8);
    vm.load_program(&vec![instr(1), instr(0)]);
    assert_eq!(Ok(()), vm.fetch());
    vm.decode();
    let t1 = vm.current_instruction_type();
    let d1 = vm.current_data();
    vm.decode();
    assert_eq!(t1, vm.current_instruction_type());
    assert_eq!(d1, vm.current_data());
    assert_eq!(CODE_TYPE_INSTRUCTION, t1);
    assert_eq!(1073741825, d1);
}

#[test]
fn test_add_program() {
    // push 10, push 20, ADD, HALT
    let (r, stack) = run_program(vec![10, 20, instr(1), instr(0)], 512);
    assert_eq!(Ok(()), r);
    assert_eq!(vec![30], stack);
}

#[test]
fn test_sub_operand_order() {
    // push 7, push 3, SUB, HALT: the first popped value is the minuend
    let (r, stack) = run_program(vec![7, 3, instr(2), instr(0)], 512);
    assert_eq!(Ok(()), r);
    assert_eq!(vec![-4], stack);
}

#[test]
fn test_mul_program() {
    let (r, stack) = run_program(vec![6, 7, instr(3), instr(0)], 512);
    assert_eq!(Ok(()), r);
    assert_eq!(vec![42], stack);
}

#[test]
fn test_mul_wraps_on_overflow() {
    let big = (1 << 30) - 1;
    let (r, stack) = run_program(vec![big, big, instr(3), instr(0)], 512);
    assert_eq!(Ok(()), r);
    assert_eq!(vec![-2147483647], stack);
}

#[test]
fn test_div_program() {
    // push -5, push 3, DIV, HALT: the first popped value (3) is divided by
    // the second (-5), truncating towards zero
    let (r, stack) = run_program(vec![(-5i32) as u32, 3, instr(4), instr(0)], 512);
    assert_eq!(Ok(()), r);
    assert_eq!(vec![0], stack);
}

#[test]
fn test_div_truncates_towards_zero() {
    // push 2, push -7, DIV, HALT: -7 / 2 is -3, not -4
    let (r, stack) = run_program(vec![2, (-7i32) as u32, instr(4), instr(0)], 512);
    assert_eq!(Ok(()), r);
    assert_eq!(vec![-3], stack);
}

#[test]
fn test_div_by_zero_leaves_stack() {
    // push 0, push 3, DIV: the divisor (second popped) is zero
    let (r, stack) = run_program(vec![0, 3, instr(4), instr(0)], 512);
    assert_eq!(Err(VmError::DivisionByZero), r);
    assert_eq!(vec![0, 3], stack);
}

#[test]
fn test_same_operands_same_result() {
    let program = vec![13, 29, instr(1), instr(0)];
    let (r1, stack1) = run_program(program.clone(), 512);
    let (r2, stack2) = run_program(program, 512);
    assert_eq!(r1, r2);
    assert_eq!(stack1, stack2);
    assert_eq!(vec![42], stack1);
}

#[test]
fn test_negative_literal_program() {
    // push -5, HALT
    let (r, stack) = run_program(vec![(-5i32) as u32, instr(0)], 512);
    assert_eq!(Ok(()), r);
    assert_eq!(vec![-5], stack);
}

#[test]
fn test_unterminated_program() {
    let (r, stack) = run_program(vec![10, 20], 512);
    assert_eq!(Err(VmError::UnterminatedProgram), r);
    assert_eq!(vec![10, 20], stack);
}

#[test]
fn test_empty_program_unterminated() {
    let (r, stack) = run_program(vec![], 512);
    assert_eq!(Err(VmError::UnterminatedProgram), r);
    assert_eq!(Vec::<i32>::new(), stack);
}

#[test]
fn test_undefined_instruction() {
    let (r, _) = run_program(vec![instr(99), instr(0)], 512);
    assert_eq!(Err(VmError::UndefinedInstruction), r);
}

#[test]
fn test_stack_overflow_in_run() {
    let (r, stack) = run_program(vec![1, 2, instr(0)], 1);
    assert_eq!(Err(VmError::StackOverflow), r);
    assert_eq!(vec![1], stack);
}

#[test]
fn test_arith_underflow_in_run() {
    // ADD needs two operands but only one was pushed
    let (r, stack) = run_program(vec![5, instr(1), instr(0)], 512);
    assert_eq!(Err(VmError::StackUnderflow), r);
    assert_eq!(vec![5], stack);
}

#[test]
fn test_is_running_after_halt() {
    let mut vm = VM::new(8);
    vm.load_program(&vec![instr(0)]);
    assert!(vm.is_running());
    assert_eq!(Ok(()), vm.run());
    assert!(!vm.is_running());
}
