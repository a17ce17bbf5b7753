//! The mathematical model of the machine.
//!
//! A program is a sequence of tokens, a token a sequence of characters. A [`State`] holds
//! everything an operation can change. Each operation is a function from a state (and, where
//! it reads operands, the program) to a result. Operations that touch one token are atomic:
//! they yield either the next state or a [`Fault`], and a fault means that nothing changed.
//! Operations that may run many tokens yield an [`Outcome`]: the state they reached together
//! with how they ended.
use vstd::prelude::*;
use crate::arith::{divisible, low_byte, position_of, quotient, remainder, wrap64};
use crate::symbols::{
    acc_of, digit_of, opcode_of, Acc, Opcode, END_IF, JUMP, LABEL, LABEL_REF, STACK_JUMP,
    TERMINATOR,
};

verus! {

/// A fatal condition. Execution cannot continue after one.
#[derive(Clone, Copy, Debug, PartialEq, Eq, Structural)]
pub enum Fault {
    /// An operation needs more values than the stack holds.
    StackUnderflow,
    /// A division or remainder whose divisor is zero or whose quotient does not fit.
    ArithmeticFault,
    /// A jump names a label that the program does not define.
    UnresolvedLabel,
    /// An operand token is empty or does not have the form its position calls for.
    MalformedOperand,
    /// The instruction pointer, or a scan, has left the program.
    IndexOutOfRange,
}

/// Whether the machine goes on after an operation.
#[derive(Clone, Copy, Debug, PartialEq, Eq, Structural)]
pub enum Status {
    /// The next token can be dispatched.
    Running,
    /// The program has asked to stop.
    Halted,
}

/// Something the machine hands to its host to write out.
#[derive(Clone, Copy, Debug, PartialEq, Eq, Structural)]
pub enum Emit {
    /// A character, as its code.
    Char(u8),
    /// A token whose leading symbol selects no operation was dispatched and passed over.
    UnknownOpcode(char),
}

/// A program: tokens, each a sequence of characters.
pub type Program = Seq<Seq<char>>;

/// What execution changes.
#[verifier::ext_equal]
pub struct State {
    /// The position of the next token.
    pub ip: nat,
    /// The first accumulator.
    pub acc_a: i64,
    /// The second accumulator.
    pub acc_b: i64,
    /// The operand stack; its last element is the top.
    pub stack: Seq<i64>,
    /// Everything emitted so far, oldest first.
    pub output: Seq<Emit>,
}

/// Where an operation that may run many tokens stopped, and why.
#[verifier::ext_equal]
pub struct Outcome {
    /// The state that was reached.
    pub state: State,
    /// Whether the machine goes on, has halted or has failed.
    pub result: Result<Status, Fault>,
}

impl State {
    /// This state with the instruction pointer at `ip`.
    pub open spec fn at(self, ip: nat) -> State {
        State { ip, ..self }
    }

    /// The top of the stack: the value pushed last.
    pub open spec fn top(self) -> i64 {
        self.stack.last()
    }

    /// The value below the top of the stack.
    pub open spec fn below_top(self) -> i64 {
        self.stack[self.stack.len() - 2]
    }

    /// This state with `v` pushed.
    pub open spec fn push(self, v: i64) -> State {
        State { stack: self.stack.push(v), ..self }
    }

    /// This state with the top of the stack removed.
    pub open spec fn pop(self) -> State {
        State { stack: self.stack.drop_last(), ..self }
    }

    /// This state with the two topmost values replaced by `v`.
    pub open spec fn replace_two(self, v: i64) -> State {
        self.pop().pop().push(v)
    }

    /// The value of an accumulator.
    pub open spec fn acc(self, which: Acc) -> i64 {
        match which {
            Acc::A => self.acc_a,
            Acc::B => self.acc_b,
        }
    }

    /// This state with `v` in an accumulator.
    pub open spec fn with_acc(self, which: Acc, v: i64) -> State {
        match which {
            Acc::A => State { acc_a: v, ..self },
            Acc::B => State { acc_b: v, ..self },
        }
    }

    /// This state with `e` appended to the output.
    pub open spec fn emit(self, e: Emit) -> State {
        State { output: self.output.push(e), ..self }
    }
}

impl Outcome {
    /// The machine is at `state` and goes on.
    pub open spec fn running(state: State) -> Outcome {
        Outcome { state, result: Ok(Status::Running) }
    }

    /// The machine is at `state` and has halted.
    pub open spec fn halted(state: State) -> Outcome {
        Outcome { state, result: Ok(Status::Halted) }
    }

    /// The machine is at `state` and has failed.
    pub open spec fn fault(state: State, fault: Fault) -> Outcome {
        Outcome { state, result: Err(fault) }
    }

    /// The outcome of an atomic operation attempted in `before`.
    pub open spec fn of(before: State, r: Result<State, Fault>) -> Outcome {
        match r {
            Ok(after) => Outcome::running(after),
            Err(f) => Outcome::fault(before, f),
        }
    }
}

/// The state of a machine that has not run: positioned at token 1, the first token after
/// the placeholder at position 0.
pub open spec fn initial_state() -> State {
    State { ip: 1, acc_a: 0, acc_b: 0, stack: Seq::empty(), output: Seq::empty() }
}

/// The token at `ip`.
pub open spec fn fetch_word(rom: Program, ip: nat) -> Result<Seq<char>, Fault> {
    if ip >= rom.len() {
        Err(Fault::IndexOutOfRange)
    } else {
        Ok(rom[ip as int])
    }
}

/// The leading symbol of a token that is not empty.
pub open spec fn leading_symbol(word: Seq<char>) -> char {
    word[0]
}

/// The leading symbol of the token at `ip`.
pub open spec fn fetch(rom: Program, ip: nat) -> Result<char, Fault> {
    if ip >= rom.len() {
        Err(Fault::IndexOutOfRange)
    } else if rom[ip as int].len() == 0 {
        Err(Fault::MalformedOperand)
    } else {
        Ok(leading_symbol(rom[ip as int]))
    }
}

/// The accumulator selected by the token at `ip`.
pub open spec fn selector(rom: Program, ip: nat) -> Result<Acc, Fault> {
    match fetch(rom, ip) {
        Err(f) => Err(f),
        Ok(c) => match acc_of(c) {
            Some(which) => Ok(which),
            None => Err(Fault::MalformedOperand),
        },
    }
}

/// ADD: the two topmost values give way to their sum.
pub open spec fn add_spec(s: State) -> Result<State, Fault> {
    if s.stack.len() < 2 {
        Err(Fault::StackUnderflow)
    } else {
        Ok(s.replace_two(wrap64(s.below_top() + s.top())))
    }
}

/// SUB: the two topmost values give way to the lower one minus the top.
pub open spec fn sub_spec(s: State) -> Result<State, Fault> {
    if s.stack.len() < 2 {
        Err(Fault::StackUnderflow)
    } else {
        Ok(s.replace_two(wrap64(s.below_top() - s.top())))
    }
}

/// MUL: the two topmost values give way to their product.
pub open spec fn multiply_spec(s: State) -> Result<State, Fault> {
    if s.stack.len() < 2 {
        Err(Fault::StackUnderflow)
    } else {
        Ok(s.replace_two(wrap64(s.below_top() * s.top())))
    }
}

/// DIV: the two topmost values give way to the lower one divided by the top.
pub open spec fn divide_spec(s: State) -> Result<State, Fault> {
    if s.stack.len() < 2 {
        Err(Fault::StackUnderflow)
    } else if !divisible(s.below_top(), s.top()) {
        Err(Fault::ArithmeticFault)
    } else {
        Ok(s.replace_two(quotient(s.below_top() as int, s.top() as int) as i64))
    }
}

/// MOD: the two topmost values give way to the remainder of the lower one by the top.
pub open spec fn modulo_spec(s: State) -> Result<State, Fault> {
    if s.stack.len() < 2 {
        Err(Fault::StackUnderflow)
    } else if !divisible(s.below_top(), s.top()) {
        Err(Fault::ArithmeticFault)
    } else {
        Ok(s.replace_two(remainder(s.below_top() as int, s.top() as int) as i64))
    }
}

/// XOR: the two topmost values give way to their bitwise exclusive or.
pub open spec fn xor_spec(s: State) -> Result<State, Fault> {
    if s.stack.len() < 2 {
        Err(Fault::StackUnderflow)
    } else {
        Ok(s.replace_two(s.below_top() ^ s.top()))
    }
}

/// DUP: the top of the stack is pushed once more.
pub open spec fn clone_spec(s: State) -> Result<State, Fault> {
    if s.stack.len() < 1 {
        Err(Fault::StackUnderflow)
    } else {
        Ok(s.push(s.top()))
    }
}

/// DISCARD: the top of the stack is removed.
pub open spec fn pop_out_spec(s: State) -> Result<State, Fault> {
    if s.stack.len() < 1 {
        Err(Fault::StackUnderflow)
    } else {
        Ok(s.pop())
    }
}

/// PRINT_CHAR: the top of the stack is removed and its low eight bits are emitted as a
/// character.
pub open spec fn print_top_spec(s: State) -> Result<State, Fault> {
    if s.stack.len() < 1 {
        Err(Fault::StackUnderflow)
    } else {
        Ok(s.pop().emit(Emit::Char(low_byte(s.top()))))
    }
}

/// STACK_JUMP: the top of the stack is removed and becomes the instruction pointer,
/// unchecked.
pub open spec fn jump_top_spec(s: State) -> Result<State, Fault> {
    if s.stack.len() < 1 {
        Err(Fault::StackUnderflow)
    } else {
        Ok(s.pop().at(position_of(s.top()) as nat))
    }
}

/// PUSH_FROM_ACC: the accumulator that the token at the instruction pointer selects is
/// pushed, and the selector is passed.
pub open spec fn push_spec(rom: Program, s: State) -> Result<State, Fault> {
    match selector(rom, s.ip) {
        Err(f) => Err(f),
        Ok(which) => Ok(s.push(s.acc(which)).at(s.ip + 1)),
    }
}

/// POP_TO_ACC: the top of the stack moves into the accumulator that the token at the
/// instruction pointer selects, and the selector is passed.
pub open spec fn pop_spec(rom: Program, s: State) -> Result<State, Fault> {
    match selector(rom, s.ip) {
        Err(f) => Err(f),
        Ok(which) => if s.stack.len() < 1 {
            Err(Fault::StackUnderflow)
        } else {
            Ok(s.pop().with_acc(which, s.top()).at(s.ip + 1))
        },
    }
}

/// Reads decimal digit tokens from `pos` up to a terminator, continuing the number `value`
/// read so far. Yields the position after the terminator and the number read, which is
/// not bounded.
pub open spec fn literal(rom: Program, pos: nat, value: int) -> Result<(nat, int), Fault>
    decreases rom.len() - pos,
{
    match fetch(rom, pos) {
        Err(f) => Err(f),
        Ok(c) => if c == TERMINATOR {
            Ok((pos + 1, value))
        } else {
            match digit_of(c) {
                None => Err(Fault::MalformedOperand),
                Some(d) => literal(rom, pos + 1, value * 10 + d),
            }
        },
    }
}

/// LOAD: the token at the instruction pointer selects an accumulator, the tokens after it
/// spell a number in decimal digits up to a terminator, and the accumulator receives that
/// number, wrapped to 64 bits. The instruction pointer moves past the terminator.
pub open spec fn load_spec(rom: Program, s: State) -> Result<State, Fault> {
    match selector(rom, s.ip) {
        Err(f) => Err(f),
        Ok(which) => match literal(rom, s.ip + 1, 0) {
            Err(f) => Err(f),
            Ok((next, value)) => Ok(s.with_acc(which, wrap64(value)).at(next)),
        },
    }
}

/// The label definition that a label reference names: the same token with the leading
/// symbol of a definition.
pub open spec fn label_of(reference: Seq<char>) -> Seq<char> {
    reference.update(0, LABEL)
}

/// Whether `i` is the first position of `rom` that holds exactly the token `label`.
pub open spec fn is_first_occurrence(rom: Program, label: Seq<char>, i: int) -> bool {
    &&& 0 <= i < rom.len()
    &&& rom[i] == label
    &&& forall|j: int| 0 <= j < i ==> rom[j] != label
}

/// The first position of `rom` that holds exactly the token `label`.
pub open spec fn label_position(rom: Program, label: Seq<char>) -> Option<nat> {
    if exists|i: int| is_first_occurrence(rom, label, i) {
        Some((choose|i: int| is_first_occurrence(rom, label, i)) as nat)
    } else {
        None
    }
}

/// JUMP: the token at the instruction pointer is a label reference, and the instruction
/// pointer moves just past the first definition of that label, searched from the start of
/// the program.
pub open spec fn jump_to_spec(rom: Program, s: State) -> Result<State, Fault> {
    match fetch(rom, s.ip) {
        Err(f) => Err(f),
        Ok(c) => if c != LABEL_REF {
            Err(Fault::MalformedOperand)
        } else {
            match label_position(rom, label_of(rom[s.ip as int])) {
                None => Err(Fault::UnresolvedLabel),
                Some(i) => Ok(s.at(i + 1)),
            }
        },
    }
}

/// The position of the first END_IF token at or after `pos`.
pub open spec fn endif_position(rom: Program, pos: nat) -> Result<nat, Fault>
    decreases rom.len() - pos,
{
    match fetch(rom, pos) {
        Err(f) => Err(f),
        Ok(c) => if c == END_IF {
            Ok(pos)
        } else {
            endif_position(rom, pos + 1)
        },
    }
}

/// The instruction pointer moves forward to the first END_IF token; nothing runs.
pub open spec fn find_first_endif_spec(rom: Program, s: State) -> Result<State, Fault> {
    match endif_position(rom, s.ip) {
        Err(f) => Err(f),
        Ok(e) => Ok(s.at(e)),
    }
}

/// A conditional block is passed over: the instruction pointer moves just past the first
/// END_IF token; nothing runs.
pub open spec fn skip_block_spec(rom: Program, s: State) -> Result<State, Fault> {
    match endif_position(rom, s.ip) {
        Err(f) => Err(f),
        Ok(e) => Ok(s.at(e + 1)),
    }
}

/// Whether a conditional enters its block: IF_ZERO (`on_zero`) when the top of the stack
/// is zero, IF_NOT_ZERO when it is not. The tested value stays on the stack.
pub open spec fn enters(s: State, on_zero: bool) -> bool {
    on_zero == (s.top() == 0)
}

/// A conditional taken on its own: the test, and the skip when the block is not entered.
/// When the block is entered nothing changes, and the block's tokens are next.
pub open spec fn guard_spec(rom: Program, s: State, on_zero: bool) -> Result<State, Fault> {
    if s.stack.len() < 1 {
        Err(Fault::StackUnderflow)
    } else if enters(s, on_zero) {
        Ok(s)
    } else {
        skip_block_spec(rom, s)
    }
}

/// Whether `c` ends a running block: an END_IF, or a jump of either kind, which is left
/// for the dispatch loop to run.
pub open spec fn ends_block(c: char) -> bool {
    c == END_IF || c == JUMP || c == STACK_JUMP
}

/// An operation taken on its own, applied to the state in which the instruction pointer has
/// already passed the operation's own token. A conditional only tests and skips. An
/// operation that fails leaves that state as it is.
pub open spec fn execute_spec(rom: Program, s: State, op: Opcode) -> Outcome {
    match op {
        Opcode::Label => Outcome::running(s),
        Opcode::EndIf => Outcome::running(s),
        Opcode::Exit => Outcome::halted(s),
        Opcode::Add => Outcome::of(s, add_spec(s)),
        Opcode::Sub => Outcome::of(s, sub_spec(s)),
        Opcode::Mul => Outcome::of(s, multiply_spec(s)),
        Opcode::Div => Outcome::of(s, divide_spec(s)),
        Opcode::Mod => Outcome::of(s, modulo_spec(s)),
        Opcode::Xor => Outcome::of(s, xor_spec(s)),
        Opcode::Dup => Outcome::of(s, clone_spec(s)),
        Opcode::Discard => Outcome::of(s, pop_out_spec(s)),
        Opcode::PrintChar => Outcome::of(s, print_top_spec(s)),
        Opcode::StackJump => Outcome::of(s, jump_top_spec(s)),
        Opcode::PushFromAcc => Outcome::of(s, push_spec(rom, s)),
        Opcode::PopToAcc => Outcome::of(s, pop_spec(rom, s)),
        Opcode::Load => Outcome::of(s, load_spec(rom, s)),
        Opcode::Jump => Outcome::of(s, jump_to_spec(rom, s)),
        Opcode::IfZero => Outcome::of(s, guard_spec(rom, s, true)),
        Opcode::IfNotZero => Outcome::of(s, guard_spec(rom, s, false)),
    }
}

/// One token run on its own. The token at the instruction pointer is fetched, the pointer
/// moves past it, and the operation it selects is applied; a conditional only tests and
/// skips, it does not run its block. A token that selects no operation is reported in the
/// output and passed over. A fetch that fails changes nothing; an operation that fails
/// leaves the pointer past its token and changes nothing else.
pub open spec fn shallow_step_spec(rom: Program, s: State) -> Outcome {
    match fetch(rom, s.ip) {
        Err(f) => Outcome::fault(s, f),
        Ok(c) => {
            let next = s.at(s.ip + 1);
            match opcode_of(c) {
                None => Outcome::running(next.emit(Emit::UnknownOpcode(c))),
                Some(op) => execute_spec(rom, next, op),
            }
        },
    }
}

/// How many tokens lie at or after the instruction pointer.
pub open spec fn remaining(rom: Program, s: State) -> nat {
    if s.ip <= rom.len() {
        (rom.len() - s.ip) as nat
    } else {
        0
    }
}

/// One dispatch: the token at the instruction pointer is fetched, the pointer moves past
/// it, and the operation it selects is applied. A conditional that is entered runs its
/// block before the dispatch returns; when the block halts or fails, what ran before stays
/// done.
pub open spec fn step_spec(rom: Program, s: State) -> Outcome
    decreases remaining(rom, s), 0nat,
{
    match fetch(rom, s.ip) {
        Err(f) => Outcome::fault(s, f),
        Ok(c) => {
            let next = s.at(s.ip + 1);
            match opcode_of(c) {
                Some(Opcode::IfZero) => conditional_spec(rom, next, true),
                Some(Opcode::IfNotZero) => conditional_spec(rom, next, false),
                _ => shallow_step_spec(rom, s),
            }
        },
    }
}

/// A conditional, applied to the state in which the instruction pointer has passed the
/// conditional's own token: the block that starts there is run or passed over.
pub open spec fn conditional_spec(rom: Program, s: State, on_zero: bool) -> Outcome
    decreases remaining(rom, s), 2nat,
{
    if s.stack.len() < 1 {
        Outcome::fault(s, Fault::StackUnderflow)
    } else if enters(s, on_zero) {
        block_spec(rom, s)
    } else {
        Outcome::of(s, skip_block_spec(rom, s))
    }
}

/// A block is run: tokens are dispatched one after another until the token at the
/// instruction pointer ends the block, which is left unexecuted, or until the machine
/// halts or fails.
///
/// The test that a dispatch moved the instruction pointer forward makes the definition
/// well founded; `lemmas::lemma_dispatch_in_block_advances` shows that it always holds here.
pub open spec fn block_spec(rom: Program, s: State) -> Outcome
    decreases remaining(rom, s), 1nat,
{
    match fetch(rom, s.ip) {
        Err(f) => Outcome::fault(s, f),
        Ok(c) => if ends_block(c) {
            Outcome::running(s)
        } else {
            let o = step_spec(rom, s);
            if o.result == Ok::<Status, Fault>(Status::Running) && s.ip < o.state.ip {
                block_spec(rom, o.state)
            } else {
                o
            }
        },
    }
}

/// IF_ZERO, applied past its own token.
pub open spec fn if_zero_spec(rom: Program, s: State) -> Outcome {
    conditional_spec(rom, s, true)
}

/// IF_NOT_ZERO, applied past its own token.
pub open spec fn if_not_zero_spec(rom: Program, s: State) -> Outcome {
    conditional_spec(rom, s, false)
}

/// Up to `count` tokens run on their own, one after another, stopping early when the
/// machine halts or fails.
pub open spec fn shallow_run_spec(rom: Program, s: State, count: nat) -> Outcome
    decreases count,
{
    if count == 0 {
        Outcome::running(s)
    } else {
        let o = shallow_step_spec(rom, s);
        if o.result == Ok::<Status, Fault>(Status::Running) {
            shallow_run_spec(rom, o.state, (count - 1) as nat)
        } else {
            o
        }
    }
}

/// The dispatch loop, bounded: up to `budget` dispatches, stopping early when the machine
/// halts or fails.
pub open spec fn run_spec(rom: Program, s: State, budget: nat) -> Outcome
    decreases budget,
{
    if budget == 0 {
        Outcome::running(s)
    } else {
        let o = step_spec(rom, s);
        if o.result == Ok::<Status, Fault>(Status::Running) {
            run_spec(rom, o.state, (budget - 1) as nat)
        } else {
            o
        }
    }
}

} // verus!
