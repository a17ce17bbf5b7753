use rust_vm::arith::{
    add_wrapping, div_truncating, mul_wrapping, rem_truncating, sub_wrapping, truncate_to_byte,
    truncate_to_position,
};
use rust_vm::machine::VM;
use rust_vm::model::{Emit, Fault};

fn machine_with_stack(values: &[i64]) -> VM {
    let mut vm = VM::new();
    vm.stack = values.to_vec();
    vm
}

#[test]
fn add_pushes_the_sum_of_the_pair() {
    let mut vm = machine_with_stack(&[9, 5, 3]);
    assert_eq!(vm.add(), Ok(()));
    assert_eq!(vm.stack, vec![9, 8]);
}

#[test]
fn sub_pushes_lower_minus_top() {
    let mut vm = machine_with_stack(&[5, 3]);
    assert_eq!(vm.sub(), Ok(()));
    assert_eq!(vm.stack, vec![2]);
    let mut vm = machine_with_stack(&[3, 5]);
    assert_eq!(vm.sub(), Ok(()));
    assert_eq!(vm.stack, vec![-2]);
}

#[test]
fn multiply_pushes_the_product_of_the_pair() {
    let mut vm = machine_with_stack(&[1, -6, 7]);
    assert_eq!(vm.multiply(), Ok(()));
    assert_eq!(vm.stack, vec![1, -42]);
}

#[test]
fn xor_pushes_the_bitwise_exclusive_or() {
    let mut vm = machine_with_stack(&[0b1100, 0b1010]);
    assert_eq!(vm.xor(), Ok(()));
    assert_eq!(vm.stack, vec![0b0110]);
    let mut vm = machine_with_stack(&[-1, 5]);
    assert_eq!(vm.xor(), Ok(()));
    assert_eq!(vm.stack, vec![-6]);
}

#[test]
fn sums_differences_and_products_wrap_at_64_bits() {
    let mut vm = machine_with_stack(&[i64::MAX, 1]);
    assert_eq!(vm.add(), Ok(()));
    assert_eq!(vm.stack, vec![i64::MIN]);
    let mut vm = machine_with_stack(&[i64::MIN, 1]);
    assert_eq!(vm.sub(), Ok(()));
    assert_eq!(vm.stack, vec![i64::MAX]);
    let mut vm = machine_with_stack(&[i64::MAX, 2]);
    assert_eq!(vm.multiply(), Ok(()));
    assert_eq!(vm.stack, vec![-2]);
    let mut vm = machine_with_stack(&[i64::MIN, -1]);
    assert_eq!(vm.multiply(), Ok(()));
    assert_eq!(vm.stack, vec![i64::MIN]);
}

#[test]
fn divide_rounds_toward_zero() {
    let cases = [(7, 2, 3), (-7, 2, -3), (7, -2, -3), (-7, -2, 3), (0, 5, 0), (6, 3, 2)];
    for (lower, top, expected) in cases {
        let mut vm = machine_with_stack(&[lower, top]);
        assert_eq!(vm.divide(), Ok(()));
        assert_eq!(vm.stack, vec![expected]);
    }
    let mut vm = machine_with_stack(&[i64::MIN, 1]);
    assert_eq!(vm.divide(), Ok(()));
    assert_eq!(vm.stack, vec![i64::MIN]);
    let mut vm = machine_with_stack(&[i64::MIN, 2]);
    assert_eq!(vm.divide(), Ok(()));
    assert_eq!(vm.stack, vec![i64::MIN / 2]);
}

#[test]
fn modulo_takes_the_sign_of_the_lower_value() {
    let cases = [(7, 2, 1), (-7, 2, -1), (7, -2, 1), (-7, -2, -1), (0, 5, 0), (6, 3, 0)];
    for (lower, top, expected) in cases {
        let mut vm = machine_with_stack(&[lower, top]);
        assert_eq!(vm.modulo(), Ok(()));
        assert_eq!(vm.stack, vec![expected]);
    }
}

#[test]
fn division_by_zero_is_an_arithmetic_fault() {
    let mut vm = machine_with_stack(&[4, 7, 0]);
    assert_eq!(vm.divide(), Err(Fault::ArithmeticFault));
    assert_eq!(vm.stack, vec![4, 7, 0]);
    assert_eq!(vm.modulo(), Err(Fault::ArithmeticFault));
    assert_eq!(vm.stack, vec![4, 7, 0]);
}

#[test]
fn least_value_by_minus_one_is_an_arithmetic_fault() {
    let mut vm = machine_with_stack(&[i64::MIN, -1]);
    assert_eq!(vm.divide(), Err(Fault::ArithmeticFault));
    assert_eq!(vm.modulo(), Err(Fault::ArithmeticFault));
    assert_eq!(vm.stack, vec![i64::MIN, -1]);
}

#[test]
fn binary_operations_need_two_values() {
    let mut vm = machine_with_stack(&[7]);
    assert_eq!(vm.add(), Err(Fault::StackUnderflow));
    assert_eq!(vm.sub(), Err(Fault::StackUnderflow));
    assert_eq!(vm.multiply(), Err(Fault::StackUnderflow));
    assert_eq!(vm.divide(), Err(Fault::StackUnderflow));
    assert_eq!(vm.modulo(), Err(Fault::StackUnderflow));
    assert_eq!(vm.xor(), Err(Fault::StackUnderflow));
    assert_eq!(vm.stack, vec![7]);
    let mut vm = machine_with_stack(&[]);
    assert_eq!(vm.add(), Err(Fault::StackUnderflow));
    assert!(vm.stack.is_empty());
}

#[test]
fn underflow_is_reported_before_a_zero_divisor() {
    let mut vm = machine_with_stack(&[0]);
    assert_eq!(vm.divide(), Err(Fault::StackUnderflow));
    assert_eq!(vm.modulo(), Err(Fault::StackUnderflow));
}

#[test]
fn clone_duplicates_the_top() {
    let mut vm = machine_with_stack(&[4]);
    vm.stack.push(9);
    assert_eq!(vm.clone(), Ok(()));
    assert_eq!(vm.stack, vec![4, 9, 9]);
}

#[test]
fn clone_needs_one_value() {
    let mut vm = machine_with_stack(&[]);
    assert_eq!(vm.clone(), Err(Fault::StackUnderflow));
    assert!(vm.stack.is_empty());
}

#[test]
fn pop_out_drops_the_top_and_leaves_the_accumulators() {
    let mut vm = machine_with_stack(&[4, 9]);
    vm.accumulator1 = 11;
    vm.accumulator2 = 12;
    assert_eq!(vm.pop_out(), Ok(()));
    assert_eq!(vm.stack, vec![4]);
    assert_eq!((vm.accumulator1, vm.accumulator2), (11, 12));
}

#[test]
fn pop_out_on_an_empty_stack_is_an_underflow() {
    let mut vm = machine_with_stack(&[]);
    assert_eq!(vm.pop_out(), Err(Fault::StackUnderflow));
}

#[test]
fn print_top_emits_the_low_eight_bits() {
    let mut vm = machine_with_stack(&[65, 321, -1, 256]);
    assert_eq!(vm.print_top(), Ok(()));
    assert_eq!(vm.print_top(), Ok(()));
    assert_eq!(vm.print_top(), Ok(()));
    assert_eq!(vm.print_top(), Ok(()));
    assert_eq!(vm.output, vec![Emit::Char(0), Emit::Char(255), Emit::Char(65), Emit::Char(65)]);
    assert!(vm.stack.is_empty());
    assert_eq!(vm.print_top(), Err(Fault::StackUnderflow));
    assert_eq!(vm.output.len(), 4);
}

#[test]
fn jump_top_takes_the_top_as_the_position() {
    let mut vm = machine_with_stack(&[3, 17]);
    assert_eq!(vm.jump_top(), Ok(()));
    assert_eq!(vm.instruction_pointer, 17);
    assert_eq!(vm.stack, vec![3]);
}

#[test]
fn jump_top_needs_one_value() {
    let mut vm = machine_with_stack(&[]);
    assert_eq!(vm.jump_top(), Err(Fault::StackUnderflow));
    assert_eq!(vm.instruction_pointer, 1);
}

#[test]
fn wrapping_helpers_give_exact_values() {
    assert_eq!(add_wrapping(2, 3), 5);
    assert_eq!(add_wrapping(i64::MAX, i64::MAX), -2);
    assert_eq!(sub_wrapping(2, 3), -1);
    assert_eq!(sub_wrapping(i64::MIN, i64::MAX), 1);
    assert_eq!(mul_wrapping(-4, 5), -20);
    assert_eq!(mul_wrapping(1 << 62, 4), 0);
}

#[test]
fn truncating_helpers_give_exact_values() {
    assert_eq!(div_truncating(-9, 4), Some(-2));
    assert_eq!(rem_truncating(-9, 4), Some(-1));
    assert_eq!(div_truncating(9, 0), None);
    assert_eq!(rem_truncating(9, 0), None);
    assert_eq!(div_truncating(i64::MIN, -1), None);
    assert_eq!(rem_truncating(i64::MIN, -1), None);
    assert_eq!(truncate_to_byte(0x1234), 0x34);
    assert_eq!(truncate_to_byte(-2), 254);
    assert_eq!(truncate_to_position(12), 12);
    assert_eq!(truncate_to_position(-1), usize::MAX);
}
