use rust_vm::machine::VM;
use rust_vm::model::Fault;

/// A machine whose program is the whitespace-separated tokens of `source` after a
/// placeholder at position 0.
fn machine(source: &str) -> VM {
    let mut vm = VM::new();
    vm.rom = source.split_whitespace().map(String::from).collect();
    vm.rom.insert(0, "_".to_string());
    vm
}

#[test]
fn new_machine_is_empty_and_starts_at_one() {
    let vm = VM::new();
    assert!(vm.rom.is_empty());
    assert_eq!(vm.instruction_pointer, 1);
    assert_eq!((vm.accumulator1, vm.accumulator2), (0, 0));
    assert!(vm.stack.is_empty());
    assert!(vm.output.is_empty());
    assert!(!vm.debug);
}

#[test]
fn current_word_is_the_whole_token() {
    let mut vm = machine("🏀 💰start");
    assert_eq!(vm.current_word(), Ok("🏀".to_string()));
    vm.instruction_pointer = 2;
    assert_eq!(vm.current_word(), Ok("💰start".to_string()));
    vm.instruction_pointer = 0;
    assert_eq!(vm.current_word(), Ok("_".to_string()));
    vm.instruction_pointer = 3;
    assert_eq!(vm.current_word(), Err(Fault::IndexOutOfRange));
}

#[test]
fn current_instruction_is_the_leading_symbol() {
    let mut vm = machine("🏀 💰start");
    assert_eq!(vm.current_instruction(), Ok('🏀'));
    vm.instruction_pointer = 2;
    assert_eq!(vm.current_instruction(), Ok('💰'));
    vm.instruction_pointer = 3;
    assert_eq!(vm.current_instruction(), Err(Fault::IndexOutOfRange));
    vm.instruction_pointer = usize::MAX;
    assert_eq!(vm.current_instruction(), Err(Fault::IndexOutOfRange));
}

#[test]
fn an_empty_token_has_no_leading_symbol() {
    let mut vm = machine("🥇");
    vm.rom.push(String::new());
    vm.instruction_pointer = 2;
    assert_eq!(vm.current_word(), Ok(String::new()));
    assert_eq!(vm.current_instruction(), Err(Fault::MalformedOperand));
    assert_eq!(vm.push(), Err(Fault::MalformedOperand));
}

#[test]
fn push_takes_the_selected_accumulator() {
    let mut vm = machine("🥇 🥈");
    vm.accumulator1 = 10;
    vm.accumulator2 = 20;
    assert_eq!(vm.push(), Ok(()));
    assert_eq!(vm.stack, vec![10]);
    assert_eq!(vm.instruction_pointer, 2);
    assert_eq!(vm.push(), Ok(()));
    assert_eq!(vm.stack, vec![10, 20]);
    assert_eq!(vm.instruction_pointer, 3);
    assert_eq!((vm.accumulator1, vm.accumulator2), (10, 20));
}

#[test]
fn push_rejects_another_selector() {
    let mut vm = machine("🥉");
    vm.accumulator1 = 10;
    assert_eq!(vm.push(), Err(Fault::MalformedOperand));
    assert!(vm.stack.is_empty());
    assert_eq!(vm.instruction_pointer, 1);
}

#[test]
fn push_without_a_selector_token_is_out_of_range() {
    let mut vm = machine("");
    assert_eq!(vm.push(), Err(Fault::IndexOutOfRange));
    assert_eq!(vm.instruction_pointer, 1);
}

#[test]
fn pop_fills_the_selected_accumulator() {
    let mut vm = machine("🥈 🥇");
    vm.stack = vec![1, 2, 3];
    assert_eq!(vm.pop(), Ok(()));
    assert_eq!((vm.accumulator1, vm.accumulator2), (0, 3));
    assert_eq!(vm.pop(), Ok(()));
    assert_eq!((vm.accumulator1, vm.accumulator2), (2, 3));
    assert_eq!(vm.stack, vec![1]);
    assert_eq!(vm.instruction_pointer, 3);
}

#[test]
fn pop_checks_the_selector_before_the_stack() {
    let mut vm = machine("🥉");
    assert_eq!(vm.pop(), Err(Fault::MalformedOperand));
    let mut vm = machine("🥇");
    assert_eq!(vm.pop(), Err(Fault::StackUnderflow));
    assert_eq!(vm.instruction_pointer, 1);
    assert_eq!(vm.accumulator1, 0);
}

#[test]
fn load_reads_decimal_digits_up_to_the_terminator() {
    let mut vm = machine("🥇 1 2 3 ✋ 🥈 4 0 ✋");
    assert_eq!(vm.load(), Ok(()));
    assert_eq!((vm.accumulator1, vm.accumulator2), (123, 0));
    assert_eq!(vm.instruction_pointer, 6);
    assert_eq!(vm.load(), Ok(()));
    assert_eq!((vm.accumulator1, vm.accumulator2), (123, 40));
    assert_eq!(vm.instruction_pointer, 10);
    assert!(vm.stack.is_empty());
}

#[test]
fn load_of_no_digits_is_zero() {
    let mut vm = machine("🥇 ✋");
    vm.accumulator1 = 99;
    assert_eq!(vm.load(), Ok(()));
    assert_eq!(vm.accumulator1, 0);
    assert_eq!(vm.instruction_pointer, 3);
}

#[test]
fn load_ignores_leading_zeros() {
    let mut vm = machine("🥈 0 0 7 ✋");
    assert_eq!(vm.load(), Ok(()));
    assert_eq!(vm.accumulator2, 7);
}

#[test]
fn load_wraps_at_64_bits() {
    // 2^63
    let mut vm = machine("🥇 9 2 2 3 3 7 2 0 3 6 8 5 4 7 7 5 8 0 8 ✋");
    assert_eq!(vm.load(), Ok(()));
    assert_eq!(vm.accumulator1, i64::MIN);
    // 2^64 + 1
    let mut vm = machine("🥇 1 8 4 4 6 7 4 4 0 7 3 7 0 9 5 5 1 6 1 7 ✋");
    assert_eq!(vm.load(), Ok(()));
    assert_eq!(vm.accumulator1, 1);
    // 10^20 = 5 * 2^64 + 7766279631452241920
    let mut vm = machine("🥇 1 0 0 0 0 0 0 0 0 0 0 0 0 0 0 0 0 0 0 0 0 ✋");
    assert_eq!(vm.load(), Ok(()));
    assert_eq!(vm.accumulator1, 7766279631452241920);
}

#[test]
fn load_takes_the_leading_symbol_of_a_digit_token() {
    let mut vm = machine("🥇 4x 2 ✋");
    assert_eq!(vm.load(), Ok(()));
    assert_eq!(vm.accumulator1, 42);
}

#[test]
fn load_rejects_another_selector() {
    let mut vm = machine("1 2 ✋");
    assert_eq!(vm.load(), Err(Fault::MalformedOperand));
    assert_eq!(vm.instruction_pointer, 1);
}

#[test]
fn load_rejects_a_token_that_is_no_digit() {
    for source in ["🥇 1 x 3 ✋", "🥇 1 - 3 ✋", "🥇 ٣ ✋", "🥇 1 🥇 ✋"] {
        let mut vm = machine(source);
        vm.accumulator1 = 5;
        assert_eq!(vm.load(), Err(Fault::MalformedOperand));
        assert_eq!(vm.accumulator1, 5);
        assert_eq!(vm.instruction_pointer, 1);
    }
}

#[test]
fn load_without_a_terminator_runs_out_of_range() {
    let mut vm = machine("🥇 1 2 3");
    vm.accumulator1 = 5;
    assert_eq!(vm.load(), Err(Fault::IndexOutOfRange));
    assert_eq!(vm.accumulator1, 5);
    assert_eq!(vm.instruction_pointer, 1);
    let mut vm = machine("🥇");
    assert_eq!(vm.load(), Err(Fault::IndexOutOfRange));
}

#[test]
fn jump_to_lands_after_the_label_definition() {
    let mut vm = machine("💰end ⭐ ⭐ ⭐ 🖋end 🍡");
    assert_eq!(vm.jump_to(), Ok(()));
    assert_eq!(vm.instruction_pointer, 6);
    assert_eq!(vm.current_instruction(), Ok('🍡'));
}

#[test]
fn jump_to_reaches_a_label_behind_it() {
    let mut vm = machine("🖋top 🍡 🏀 💰top");
    vm.instruction_pointer = 4;
    assert_eq!(vm.jump_to(), Ok(()));
    assert_eq!(vm.instruction_pointer, 2);
}

#[test]
fn jump_to_takes_the_first_definition_from_the_start() {
    let mut vm = machine("🖋x 🍡 💰x 🖋x 🔪");
    vm.instruction_pointer = 3;
    assert_eq!(vm.jump_to(), Ok(()));
    assert_eq!(vm.instruction_pointer, 2);
}

#[test]
fn jump_to_matches_the_whole_token() {
    let mut vm = machine("💰ab 🖋abc 🖋a 🖋ab 🍡");
    assert_eq!(vm.jump_to(), Ok(()));
    assert_eq!(vm.instruction_pointer, 5);
    let mut vm = machine("💰 🖋x 🖋 🍡");
    assert_eq!(vm.jump_to(), Ok(()));
    assert_eq!(vm.instruction_pointer, 4);
}

#[test]
fn jump_to_an_undefined_label_is_unresolved() {
    let mut vm = machine("💰nowhere 🖋here 💰nowhere");
    vm.stack = vec![1];
    assert_eq!(vm.jump_to(), Err(Fault::UnresolvedLabel));
    assert_eq!(vm.instruction_pointer, 1);
    assert_eq!(vm.stack, vec![1]);
}

#[test]
fn jump_to_rejects_a_token_that_is_no_reference() {
    let mut vm = machine("🖋here 🖋here");
    assert_eq!(vm.jump_to(), Err(Fault::MalformedOperand));
    assert_eq!(vm.instruction_pointer, 1);
    let mut vm = machine("here 🖋here");
    assert_eq!(vm.jump_to(), Err(Fault::MalformedOperand));
}

#[test]
fn jump_to_without_a_reference_token_is_out_of_range() {
    let mut vm = machine("🏀");
    vm.instruction_pointer = 2;
    assert_eq!(vm.jump_to(), Err(Fault::IndexOutOfRange));
    assert_eq!(vm.instruction_pointer, 2);
}

#[test]
fn find_first_endif_stops_at_the_marker() {
    let mut vm = machine("🍡 🔪 😐 ⭐ 😐");
    vm.stack = vec![1, 2];
    assert_eq!(vm.find_first_endif(), Ok(()));
    assert_eq!(vm.instruction_pointer, 3);
    assert_eq!(vm.stack, vec![1, 2]);
    assert_eq!(vm.find_first_endif(), Ok(()));
    assert_eq!(vm.instruction_pointer, 3);
    vm.instruction_pointer = 4;
    assert_eq!(vm.find_first_endif(), Ok(()));
    assert_eq!(vm.instruction_pointer, 5);
}

#[test]
fn find_first_endif_without_a_marker_runs_out_of_range() {
    let mut vm = machine("🍡 🔪 ⭐");
    assert_eq!(vm.find_first_endif(), Err(Fault::IndexOutOfRange));
    assert_eq!(vm.instruction_pointer, 1);
}

#[test]
fn find_first_endif_stops_at_an_empty_token() {
    let mut vm = machine("🍡");
    vm.rom.push(String::new());
    vm.rom.push("😐".to_string());
    assert_eq!(vm.find_first_endif(), Err(Fault::MalformedOperand));
    assert_eq!(vm.instruction_pointer, 1);
}
