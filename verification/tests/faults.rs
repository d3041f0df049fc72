use stack_vm::machine::Machine;
use stack_vm::opcode::{ADD, CALL, CMP, DBG, DEC, DIV, HLT, INC, JL, JMP, MUL, PUSH, RET, SUB};
use stack_vm::outcome::Outcome;

fn machine_with(stack: Vec<i32>, prog: Vec<i32>) -> Machine {
    let mut m = Machine::new(prog);
    m.stack = stack;
    m
}

#[test]
fn empty_program_is_out_of_range() {
    let mut m = Machine::new(vec![]);
    assert_eq!(m.step(), Outcome::OutOfRange);
    assert_eq!(m.ip, 1);
    let mut again = Machine::new(vec![]);
    assert_eq!(again.go(10), Outcome::OutOfRange);
    assert_eq!(again.ip, 1);
}

#[test]
fn running_off_the_end_is_out_of_range() {
    let mut m = Machine::new(vec![PUSH, 1, PUSH, 2]);
    assert_eq!(m.go(10), Outcome::OutOfRange);
    assert_eq!(m.stack, vec![1, 2]);
    assert_eq!(m.ip, 5);
}

#[test]
fn missing_operand_is_out_of_range() {
    for op in [PUSH, JL, CALL] {
        let mut m = machine_with(vec![1], vec![op]);
        assert_eq!(m.step(), Outcome::OutOfRange);
        assert_eq!(m.stack, vec![1]);
        assert_eq!(m.ip, 2);
    }
}

#[test]
fn jump_outside_the_program_is_out_of_range_at_the_next_fetch() {
    for target in [-1, 3, i32::MIN, i32::MAX] {
        let mut m = Machine::new(vec![PUSH, target, JMP]);
        assert_eq!(m.go(2), Outcome::Running);
        assert_eq!(m.ip, target);
        assert_eq!(m.step(), Outcome::OutOfRange);
    }
}

#[test]
fn unknown_opcode_is_invalid() {
    for code in [0, 8, 0x1f, 0x32, 0x81, -1, i32::MAX, i32::MIN] {
        let mut m = machine_with(vec![1, 2], vec![code, HLT]);
        assert_eq!(m.step(), Outcome::InvalidOpcode);
        assert_eq!(m.stack, vec![1, 2]);
        assert_eq!(m.ip, 1);
    }
}

#[test]
fn one_operand_operations_underflow_on_an_empty_stack() {
    for op in [INC, DEC, JMP, DBG, HLT] {
        let mut m = Machine::new(vec![op]);
        assert_eq!(m.step(), Outcome::Underflow);
        assert!(m.stack.is_empty());
        assert_eq!(m.ip, 1);
        assert!(m.output.is_empty());
    }
    for op in [JL, CALL] {
        let mut m = Machine::new(vec![op, 0]);
        assert_eq!(m.step(), Outcome::Underflow);
        assert!(m.stack.is_empty());
        assert_eq!(m.ip, 2);
    }
}

#[test]
fn two_operand_operations_underflow_on_an_empty_stack() {
    for op in [ADD, SUB, MUL, DIV, CMP, RET] {
        let mut m = Machine::new(vec![op]);
        assert_eq!(m.step(), Outcome::Underflow);
        assert!(m.stack.is_empty());
        assert_eq!(m.ip, 1);
    }
}

#[test]
fn two_operand_operations_take_a_lone_value_before_they_underflow() {
    for op in [ADD, SUB, MUL, DIV, CMP, RET] {
        let mut m = machine_with(vec![5], vec![op]);
        assert_eq!(m.step(), Outcome::Underflow);
        assert!(m.stack.is_empty());
        assert_eq!(m.ip, 1);
    }
}

#[test]
fn division_by_zero_is_reported() {
    let mut m = machine_with(vec![9], vec![PUSH, 0, PUSH, 7, DIV, HLT]);
    assert_eq!(m.go(10), Outcome::DivideByZero);
    assert_eq!(m.stack, vec![9]);
    assert_eq!(m.ip, 5);
    let mut zero = Machine::new(vec![PUSH, 0, PUSH, 0, DIV]);
    assert_eq!(zero.go(3), Outcome::DivideByZero);
}

#[test]
fn zero_divided_by_a_value_is_zero() {
    let mut m = Machine::new(vec![PUSH, 7, PUSH, 0, DIV, HLT]);
    assert_eq!(m.go(10), Outcome::Halted(0));
}

#[test]
fn results_that_do_not_fit_are_overflow() {
    let cases = [
        (vec![1, i32::MAX], ADD),
        (vec![-1, i32::MIN], ADD),
        (vec![1, i32::MIN], SUB),
        (vec![-1, i32::MAX], SUB),
        (vec![i32::MIN, 0], SUB),
        (vec![1, i32::MIN], CMP),
        (vec![2, 0x4000_0000], MUL),
        (vec![46341, 46341], MUL),
        (vec![-1, i32::MIN], MUL),
        (vec![-1, i32::MIN], DIV),
    ];
    for (stack, op) in cases {
        let mut full = vec![33];
        full.extend(stack);
        let mut m = machine_with(full, vec![op, HLT]);
        assert_eq!(m.go(10), Outcome::Overflow);
        assert_eq!(m.stack, vec![33]);
        assert_eq!(m.ip, 1);
    }
}

#[test]
fn results_at_the_edge_still_fit() {
    let cases = [
        (vec![1, i32::MAX - 1], ADD, i32::MAX),
        (vec![-1, i32::MIN + 1], ADD, i32::MIN),
        (vec![0, i32::MIN], SUB, i32::MIN),
        (vec![-1, i32::MAX - 1], SUB, i32::MAX),
        (vec![1, i32::MIN + 1], CMP, i32::MIN),
        (vec![2, -0x4000_0000], MUL, i32::MIN),
        (vec![1, i32::MIN], MUL, i32::MIN),
        (vec![1, i32::MIN], DIV, i32::MIN),
        (vec![-1, i32::MAX], DIV, -i32::MAX),
        (vec![i32::MIN, -1], DIV, 0),
    ];
    for (stack, op, expected) in cases {
        let mut m = machine_with(stack, vec![op, HLT]);
        assert_eq!(m.go(10), Outcome::Halted(expected));
        assert!(m.stack.is_empty());
    }
}

#[test]
fn inc_and_dec_at_the_limits_are_overflow_and_change_nothing() {
    let mut up = machine_with(vec![4, i32::MAX], vec![INC]);
    assert_eq!(up.step(), Outcome::Overflow);
    assert_eq!(up.stack, vec![4, i32::MAX]);
    assert_eq!(up.ip, 1);
    let mut down = machine_with(vec![4, i32::MIN], vec![DEC]);
    assert_eq!(down.step(), Outcome::Overflow);
    assert_eq!(down.stack, vec![4, i32::MIN]);
    assert_eq!(down.ip, 1);
}

#[test]
fn ret_past_the_largest_address_is_overflow() {
    let mut m = machine_with(vec![4, i32::MAX, 9], vec![RET]);
    assert_eq!(m.step(), Outcome::Overflow);
    assert_eq!(m.stack, vec![4]);
    assert_eq!(m.ip, 1);
    let mut near = machine_with(vec![4, i32::MAX - 1, 9], vec![RET]);
    assert_eq!(near.step(), Outcome::Running);
    assert_eq!(near.stack, vec![4, 9]);
    assert_eq!(near.ip, i32::MAX);
    assert_eq!(near.step(), Outcome::OutOfRange);
    assert_eq!(near.ip, i32::MAX);
}

#[test]
fn a_fault_ends_a_run_at_once() {
    let mut m = Machine::new(vec![PUSH, 1, ADD, PUSH, 2, HLT]);
    assert_eq!(m.go(1_000), Outcome::Underflow);
    assert_eq!(m.ip, 3);
    assert!(m.stack.is_empty());
}

#[test]
fn faults_and_values_are_told_apart() {
    let outcomes = [
        Outcome::Running,
        Outcome::Halted(0),
        Outcome::Underflow,
        Outcome::OutOfRange,
        Outcome::InvalidOpcode,
        Outcome::Overflow,
        Outcome::DivideByZero,
    ];
    for (i, a) in outcomes.iter().enumerate() {
        for (j, b) in outcomes.iter().enumerate() {
            assert_eq!(a == b, i == j);
        }
    }
    assert_ne!(Outcome::Halted(0), Outcome::Halted(1));
}
