//! The symbols of the instruction set.
//!
//! The first character of a token selects an operation. A few further symbols only ever
//! appear as operands: the two accumulator selectors, the literal terminator and the
//! leading symbol of a label reference.
use vstd::prelude::*;

verus! {

/// 🖋 — defines a label; a no-op when dispatched.
pub const LABEL: char = '\u{1F58B}';

/// 🍡 — pops two values and pushes their sum.
pub const ADD: char = '\u{1F361}';

/// 🤡 — duplicates the top of the stack.
pub const DUP: char = '\u{1F921}';

/// 📐 — pops two values and pushes their quotient.
pub const DIV: char = '\u{1F4D0}';

/// 😲 — runs the following block when the top of the stack is zero.
pub const IF_ZERO: char = '\u{1F632}';

/// 😄 — runs the following block when the top of the stack is not zero.
pub const IF_NOT_ZERO: char = '\u{1F604}';

/// 🏀 — jumps to the label named by the next token.
pub const JUMP: char = '\u{1F3C0}';

/// 🚛 — loads a decimal literal into an accumulator.
pub const LOAD: char = '\u{1F69B}';

/// 📬 — pops two values and pushes their remainder.
pub const MOD: char = '\u{1F4EC}';

/// ⭐ — pops two values and pushes their product.
pub const MUL: char = '\u{2B50}';

/// 🍿 — pops the top of the stack into an accumulator.
pub const POP_TO_ACC: char = '\u{1F37F}';

/// 📤 — pops the top of the stack and drops it.
pub const DISCARD: char = '\u{1F4E4}';

/// 🎤 — pops the top of the stack and prints it as a character.
pub const PRINT_CHAR: char = '\u{1F3A4}';

/// 📥 — pushes an accumulator onto the stack.
pub const PUSH_FROM_ACC: char = '\u{1F4E5}';

/// 🔪 — pops two values and pushes their difference.
pub const SUB: char = '\u{1F52A}';

/// 🌓 — pops two values and pushes their bitwise exclusive or.
pub const XOR: char = '\u{1F313}';

/// ⛰ — pops a value and jumps to that position.
pub const STACK_JUMP: char = '\u{26F0}';

/// ⌛ — halts the machine.
pub const EXIT: char = '\u{231B}';

/// 😐 — ends a conditional block; a no-op when dispatched.
pub const END_IF: char = '\u{1F610}';

/// 💰 — leading symbol of a label reference, the operand of a jump.
pub const LABEL_REF: char = '\u{1F4B0}';

/// 🥇 — selects the first accumulator.
pub const SELECT_A: char = '\u{1F947}';

/// 🥈 — selects the second accumulator.
pub const SELECT_B: char = '\u{1F948}';

/// ✋ — terminates a literal.
pub const TERMINATOR: char = '\u{270B}';

/// An operation of the machine.
#[derive(Clone, Copy, Debug, PartialEq, Eq, Structural)]
pub enum Opcode {
    Label,
    Add,
    Dup,
    Div,
    IfZero,
    IfNotZero,
    Jump,
    Load,
    Mod,
    Mul,
    PopToAcc,
    Discard,
    PrintChar,
    PushFromAcc,
    Sub,
    Xor,
    StackJump,
    Exit,
    EndIf,
}

/// One of the two accumulators.
#[derive(Clone, Copy, Debug, PartialEq, Eq, Structural)]
pub enum Acc {
    A,
    B,
}

/// The operation that a leading symbol selects, if any.
pub open spec fn opcode_of(c: char) -> Option<Opcode> {
    if c == LABEL {
        Some(Opcode::Label)
    } else if c == ADD {
        Some(Opcode::Add)
    } else if c == DUP {
        Some(Opcode::Dup)
    } else if c == DIV {
        Some(Opcode::Div)
    } else if c == IF_ZERO {
        Some(Opcode::IfZero)
    } else if c == IF_NOT_ZERO {
        Some(Opcode::IfNotZero)
    } else if c == JUMP {
        Some(Opcode::Jump)
    } else if c == LOAD {
        Some(Opcode::Load)
    } else if c == MOD {
        Some(Opcode::Mod)
    } else if c == MUL {
        Some(Opcode::Mul)
    } else if c == POP_TO_ACC {
        Some(Opcode::PopToAcc)
    } else if c == DISCARD {
        Some(Opcode::Discard)
    } else if c == PRINT_CHAR {
        Some(Opcode::PrintChar)
    } else if c == PUSH_FROM_ACC {
        Some(Opcode::PushFromAcc)
    } else if c == SUB {
        Some(Opcode::Sub)
    } else if c == XOR {
        Some(Opcode::Xor)
    } else if c == STACK_JUMP {
        Some(Opcode::StackJump)
    } else if c == EXIT {
        Some(Opcode::Exit)
    } else if c == END_IF {
        Some(Opcode::EndIf)
    } else {
        None
    }
}

/// The accumulator that a selector symbol names, if any.
pub open spec fn acc_of(c: char) -> Option<Acc> {
    if c == SELECT_A {
        Some(Acc::A)
    } else if c == SELECT_B {
        Some(Acc::B)
    } else {
        None
    }
}

/// The value of a decimal digit symbol, if `c` is one.
pub open spec fn digit_of(c: char) -> Option<int> {
    if '0' <= c && c <= '9' {
        Some(c as int - '0' as int)
    } else {
        None
    }
}

/// Decodes the leading symbol of a token.
pub fn decode(c: char) -> (op: Option<Opcode>)
    ensures
        op == opcode_of(c),
{
    if c == LABEL {
        Some(Opcode::Label)
    } else if c == ADD {
        Some(Opcode::Add)
    } else if c == DUP {
        Some(Opcode::Dup)
    } else if c == DIV {
        Some(Opcode::Div)
    } else if c == IF_ZERO {
        Some(Opcode::IfZero)
    } else if c == IF_NOT_ZERO {
        Some(Opcode::IfNotZero)
    } else if c == JUMP {
        Some(Opcode::Jump)
    } else if c == LOAD {
        Some(Opcode::Load)
    } else if c == MOD {
        Some(Opcode::Mod)
    } else if c == MUL {
        Some(Opcode::Mul)
    } else if c == POP_TO_ACC {
        Some(Opcode::PopToAcc)
    } else if c == DISCARD {
        Some(Opcode::Discard)
    } else if c == PRINT_CHAR {
        Some(Opcode::PrintChar)
    } else if c == PUSH_FROM_ACC {
        Some(Opcode::PushFromAcc)
    } else if c == SUB {
        Some(Opcode::Sub)
    } else if c == XOR {
        Some(Opcode::Xor)
    } else if c == STACK_JUMP {
        Some(Opcode::StackJump)
    } else if c == EXIT {
        Some(Opcode::Exit)
    } else if c == END_IF {
        Some(Opcode::EndIf)
    } else {
        None
    }
}

/// Decodes an accumulator selector.
pub fn decode_acc(c: char) -> (acc: Option<Acc>)
    ensures
        acc == acc_of(c),
{
    if c == SELECT_A {
        Some(Acc::A)
    } else if c == SELECT_B {
        Some(Acc::B)
    } else {
        None
    }
}

/// Decodes a decimal digit.
pub fn decode_digit(c: char) -> (d: Option<u8>)
    ensures
        match d {
            Some(v) => digit_of(c) == Some(v as int) && v <= 9,
            None => digit_of(c) is None,
        },
{
    if c >= '0' && c <= '9' {
        Some((c as u8) - 48)
    } else {
        None
    }
}

} // verus!
