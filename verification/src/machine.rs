//! The executable machine.
//!
//! Every operation is proved to do what its model in [`crate::model`] says. No operation
//! panics: what would be fatal is returned as a [`Fault`].
use vstd::prelude::*;
use vstd::string::*;
use crate::arith::{
    add_wrapping, div_truncating, lemma_wrap64_absorbs, mul_wrapping, rem_truncating,
    sub_wrapping, truncate_to_byte, truncate_to_position, wrap64,
};
use crate::lemmas::{
    lemma_block_unrolls, lemma_endif_position, lemma_label_absent, lemma_label_found,
    lemma_shallow_step_advances,
};
use crate::model::{
    add_spec, block_spec, clone_spec, conditional_spec, divide_spec, endif_position,
    execute_spec, fetch, fetch_word, find_first_endif_spec, guard_spec, if_not_zero_spec,
    if_zero_spec, initial_state, jump_to_spec, jump_top_spec, label_of, literal, load_spec,
    modulo_spec, multiply_spec, pop_out_spec, pop_spec, print_top_spec, push_spec, remaining,
    run_spec, selector, shallow_step_spec, skip_block_spec, step_spec, sub_spec, xor_spec, Emit,
    Fault, Program, State, Status,
};
use crate::symbols::{
    decode, decode_acc, decode_digit, Acc, Opcode, END_IF, JUMP, LABEL_REF, STACK_JUMP,
    TERMINATOR,
};

verus! {

/// A machine together with the program it runs.
///
/// The program is `rom`; position 0 is a placeholder, so execution starts at position 1.
/// `debug` is a switch for the host's diagnostics and never changes what the machine does.
pub struct VM {
    pub rom: Vec<String>,
    pub accumulator1: i64,
    pub accumulator2: i64,
    pub instruction_pointer: usize,
    pub stack: Vec<i64>,
    pub output: Vec<Emit>,
    pub debug: bool,
}

impl View for VM {
    type V = State;

    open spec fn view(&self) -> State {
        State {
            ip: self.instruction_pointer as nat,
            acc_a: self.accumulator1,
            acc_b: self.accumulator2,
            stack: self.stack@,
            output: self.output@,
        }
    }
}

impl VM {
    /// The program, as the model sees it.
    pub open spec fn program(&self) -> Program {
        Seq::new(self.rom@.len(), |i: int| self.rom@[i]@)
    }

    /// Whether this machine has the program and the debug switch of `before`.
    pub open spec fn same_setup(&self, before: &VM) -> bool {
        self.program() == before.program() && self.debug == before.debug
    }

    /// A machine with an empty program, in the initial state, with diagnostics off.
    pub fn new() -> (vm: VM)
        ensures
            vm.program() == Seq::<Seq<char>>::empty(),
            vm@ == initial_state(),
            !vm.debug,
    {
        VM {
            rom: Vec::new(),
            accumulator1: 0,
            accumulator2: 0,
            instruction_pointer: 1,
            stack: Vec::new(),
            output: Vec::new(),
            debug: false,
        }
    }

    /// Hands over what has been emitted since the last call and clears the output log.
    pub fn take_output(&mut self) -> (emitted: Vec<Emit>)
        ensures
            final(self).same_setup(old(self)),
            emitted@ == old(self)@.output,
            final(self)@ == (State { output: Seq::empty(), ..old(self)@ }),
    {
        let mut emitted: Vec<Emit> = Vec::new();
        std::mem::swap(&mut self.output, &mut emitted);
        emitted
    }

    /// The token at the instruction pointer.
    pub fn current_word(&self) -> (r: Result<String, Fault>)
        ensures
            match r {
                Ok(word) => fetch_word(self.program(), self@.ip) == Ok::<Seq<char>, Fault>(word@),
                Err(f) => fetch_word(self.program(), self@.ip) == Err::<Seq<char>, Fault>(f),
            },
    {
        if self.instruction_pointer < self.rom.len() {
            Ok(self.rom[self.instruction_pointer].clone())
        } else {
            Err(Fault::IndexOutOfRange)
        }
    }

    /// The leading symbol of the token at the instruction pointer.
    pub fn current_instruction(&self) -> (r: Result<char, Fault>)
        ensures
            r == fetch(self.program(), self@.ip),
    {
        self.symbol_at(self.instruction_pointer)
    }

    /// The two topmost values, the lower one first; the stack is left as it is.
    fn operands(&self) -> (r: Result<(i64, i64), Fault>)
        ensures
            match r {
                Ok((lower, top)) => self@.stack.len() >= 2 && lower == self@.below_top() && top
                    == self@.top(),
                Err(f) => self@.stack.len() < 2 && f == Fault::StackUnderflow,
            },
    {
        let n: usize = self.stack.len();
        if n < 2 {
            Err(Fault::StackUnderflow)
        } else {
            Ok((self.stack[n - 2], self.stack[n - 1]))
        }
    }

    /// Replaces the two topmost values by `v`.
    fn replace_two(&mut self, v: i64)
        requires
            old(self)@.stack.len() >= 2,
        ensures
            final(self).same_setup(old(self)),
            final(self)@ == old(self)@.replace_two(v),
    {
        self.stack.pop();
        self.stack.pop();
        self.stack.push(v);
    }

    /// The top of the stack; the stack is left as it is.
    fn peek(&self) -> (r: Result<i64, Fault>)
        ensures
            match r {
                Ok(top) => self@.stack.len() >= 1 && top == self@.top(),
                Err(f) => self@.stack.len() < 1 && f == Fault::StackUnderflow,
            },
    {
        let n: usize = self.stack.len();
        if n < 1 {
            Err(Fault::StackUnderflow)
        } else {
            Ok(self.stack[n - 1])
        }
    }

    /// ADD: pops two values and pushes their sum, wrapped to 64 bits.
    pub fn add(&mut self) -> (r: Result<(), Fault>)
        ensures
            final(self).same_setup(old(self)),
            match r {
                Ok(()) => add_spec(old(self)@) == Ok::<State, Fault>(final(self)@),
                Err(f) => {
                    &&& add_spec(old(self)@) == Err::<State, Fault>(f)
                    &&& final(self)@ == old(self)@
                },
            },
    {
        match self.operands() {
            Err(f) => Err(f),
            Ok((lower, top)) => {
                self.replace_two(add_wrapping(lower, top));
                Ok(())
            },
        }
    }

    /// SUB: pops two values and pushes the lower one minus the top, wrapped to 64 bits.
    pub fn sub(&mut self) -> (r: Result<(), Fault>)
        ensures
            final(self).same_setup(old(self)),
            match r {
                Ok(()) => sub_spec(old(self)@) == Ok::<State, Fault>(final(self)@),
                Err(f) => {
                    &&& sub_spec(old(self)@) == Err::<State, Fault>(f)
                    &&& final(self)@ == old(self)@
                },
            },
    {
        match self.operands() {
            Err(f) => Err(f),
            Ok((lower, top)) => {
                self.replace_two(sub_wrapping(lower, top));
                Ok(())
            },
        }
    }

    /// MUL: pops two values and pushes their product, wrapped to 64 bits.
    pub fn multiply(&mut self) -> (r: Result<(), Fault>)
        ensures
            final(self).same_setup(old(self)),
            match r {
                Ok(()) => multiply_spec(old(self)@) == Ok::<State, Fault>(final(self)@),
                Err(f) => {
                    &&& multiply_spec(old(self)@) == Err::<State, Fault>(f)
                    &&& final(self)@ == old(self)@
                },
            },
    {
        match self.operands() {
            Err(f) => Err(f),
            Ok((lower, top)) => {
                self.replace_two(mul_wrapping(lower, top));
                Ok(())
            },
        }
    }

    /// DIV: pops two values and pushes the lower one divided by the top, rounded toward
    /// zero. Fails, changing nothing, when the quotient is not defined.
    pub fn divide(&mut self) -> (r: Result<(), Fault>)
        ensures
            final(self).same_setup(old(self)),
            match r {
                Ok(()) => divide_spec(old(self)@) == Ok::<State, Fault>(final(self)@),
                Err(f) => {
                    &&& divide_spec(old(self)@) == Err::<State, Fault>(f)
                    &&& final(self)@ == old(self)@
                },
            },
    {
        match self.operands() {
            Err(f) => Err(f),
            Ok((lower, top)) => match div_truncating(lower, top) {
                None => Err(Fault::ArithmeticFault),
                Some(q) => {
                    self.replace_two(q);
                    Ok(())
                },
            },
        }
    }

    /// MOD: pops two values and pushes the remainder of the lower one by the top, with the
    /// sign of the lower one. Fails, changing nothing, when the remainder is not defined.
    pub fn modulo(&mut self) -> (r: Result<(), Fault>)
        ensures
            final(self).same_setup(old(self)),
            match r {
                Ok(()) => modulo_spec(old(self)@) == Ok::<State, Fault>(final(self)@),
                Err(f) => {
                    &&& modulo_spec(old(self)@) == Err::<State, Fault>(f)
                    &&& final(self)@ == old(self)@
                },
            },
    {
        match self.operands() {
            Err(f) => Err(f),
            Ok((lower, top)) => match rem_truncating(lower, top) {
                None => Err(Fault::ArithmeticFault),
                Some(m) => {
                    self.replace_two(m);
                    Ok(())
                },
            },
        }
    }

    /// XOR: pops two values and pushes their bitwise exclusive or.
    pub fn xor(&mut self) -> (r: Result<(), Fault>)
        ensures
            final(self).same_setup(old(self)),
            match r {
                Ok(()) => xor_spec(old(self)@) == Ok::<State, Fault>(final(self)@),
                Err(f) => {
                    &&& xor_spec(old(self)@) == Err::<State, Fault>(f)
                    &&& final(self)@ == old(self)@
                },
            },
    {
        match self.operands() {
            Err(f) => Err(f),
            Ok((lower, top)) => {
                self.replace_two(lower ^ top);
                Ok(())
            },
        }
    }

    /// DUP: pushes the top of the stack once more.
    pub fn clone(&mut self) -> (r: Result<(), Fault>)
        ensures
            final(self).same_setup(old(self)),
            match r {
                Ok(()) => clone_spec(old(self)@) == Ok::<State, Fault>(final(self)@),
                Err(f) => {
                    &&& clone_spec(old(self)@) == Err::<State, Fault>(f)
                    &&& final(self)@ == old(self)@
                },
            },
    {
        match self.peek() {
            Err(f) => Err(f),
            Ok(top) => {
                self.stack.push(top);
                Ok(())
            },
        }
    }

    /// DISCARD: pops the top of the stack and drops it.
    pub fn pop_out(&mut self) -> (r: Result<(), Fault>)
        ensures
            final(self).same_setup(old(self)),
            match r {
                Ok(()) => pop_out_spec(old(self)@) == Ok::<State, Fault>(final(self)@),
                Err(f) => {
                    &&& pop_out_spec(old(self)@) == Err::<State, Fault>(f)
                    &&& final(self)@ == old(self)@
                },
            },
    {
        match self.stack.pop() {
            None => Err(Fault::StackUnderflow),
            Some(_) => Ok(()),
        }
    }

    /// PRINT_CHAR: pops the top of the stack and emits its low eight bits as a character.
    pub fn print_top(&mut self) -> (r: Result<(), Fault>)
        ensures
            final(self).same_setup(old(self)),
            match r {
                Ok(()) => print_top_spec(old(self)@) == Ok::<State, Fault>(final(self)@),
                Err(f) => {
                    &&& print_top_spec(old(self)@) == Err::<State, Fault>(f)
                    &&& final(self)@ == old(self)@
                },
            },
    {
        match self.stack.pop() {
            None => Err(Fault::StackUnderflow),
            Some(item) => {
                self.output.push(Emit::Char(truncate_to_byte(item)));
                Ok(())
            },
        }
    }

    /// STACK_JUMP: pops the top of the stack and makes it the instruction pointer, without
    /// any check; a position outside the program shows at the next fetch.
    pub fn jump_top(&mut self) -> (r: Result<(), Fault>)
        ensures
            final(self).same_setup(old(self)),
            match r {
                Ok(()) => jump_top_spec(old(self)@) == Ok::<State, Fault>(final(self)@),
                Err(f) => {
                    &&& jump_top_spec(old(self)@) == Err::<State, Fault>(f)
                    &&& final(self)@ == old(self)@
                },
            },
    {
        match self.stack.pop() {
            None => Err(Fault::StackUnderflow),
            Some(next) => {
                self.instruction_pointer = truncate_to_position(next);
                Ok(())
            },
        }
    }

    /// The leading symbol of the token at `pos`.
    fn symbol_at(&self, pos: usize) -> (r: Result<char, Fault>)
        ensures
            r == fetch(self.program(), pos as nat),
    {
        if pos < self.rom.len() {
            let word: &str = self.rom[pos].as_str();
            if word.is_empty() {
                Err(Fault::MalformedOperand)
            } else {
                Ok(word.get_char(0))
            }
        } else {
            Err(Fault::IndexOutOfRange)
        }
    }

    /// The accumulator that the token at the instruction pointer selects.
    fn select(&self) -> (r: Result<Acc, Fault>)
        ensures
            r == selector(self.program(), self@.ip),
    {
        match self.current_instruction() {
            Err(f) => Err(f),
            Ok(c) => match decode_acc(c) {
                Some(which) => Ok(which),
                None => Err(Fault::MalformedOperand),
            },
        }
    }

    /// PUSH_FROM_ACC: pushes the accumulator that the token at the instruction pointer
    /// selects, and passes the selector.
    pub fn push(&mut self) -> (r: Result<(), Fault>)
        ensures
            final(self).same_setup(old(self)),
            match r {
                Ok(()) => push_spec(old(self).program(), old(self)@)
                    == Ok::<State, Fault>(final(self)@),
                Err(f) => {
                    &&& push_spec(old(self).program(), old(self)@) == Err::<State, Fault>(f)
                    &&& final(self)@ == old(self)@
                },
            },
    {
        match self.select() {
            Err(f) => Err(f),
            Ok(which) => {
                let value: i64 = match which {
                    Acc::A => self.accumulator1,
                    Acc::B => self.accumulator2,
                };
                assert(self.instruction_pointer < self.rom.len());
                self.stack.push(value);
                self.instruction_pointer += 1;
                Ok(())
            },
        }
    }

    /// POP_TO_ACC: pops the top of the stack into the accumulator that the token at the
    /// instruction pointer selects, and passes the selector.
    pub fn pop(&mut self) -> (r: Result<(), Fault>)
        ensures
            final(self).same_setup(old(self)),
            match r {
                Ok(()) => pop_spec(old(self).program(), old(self)@)
                    == Ok::<State, Fault>(final(self)@),
                Err(f) => {
                    &&& pop_spec(old(self).program(), old(self)@) == Err::<State, Fault>(f)
                    &&& final(self)@ == old(self)@
                },
            },
    {
        match self.select() {
            Err(f) => Err(f),
            Ok(which) => match self.stack.pop() {
                None => Err(Fault::StackUnderflow),
                Some(item) => {
                    assert(self.instruction_pointer < self.rom.len());
                    match which {
                        Acc::A => {
                            self.accumulator1 = item;
                        },
                        Acc::B => {
                            self.accumulator2 = item;
                        },
                    }
                    self.instruction_pointer += 1;
                    Ok(())
                },
            },
        }
    }

    /// LOAD: reads the selector at the instruction pointer and the decimal digits after it
    /// up to the terminator, stores the number, wrapped to 64 bits, in the selected
    /// accumulator, and passes the terminator.
    pub fn load(&mut self) -> (r: Result<(), Fault>)
        ensures
            final(self).same_setup(old(self)),
            match r {
                Ok(()) => load_spec(old(self).program(), old(self)@)
                    == Ok::<State, Fault>(final(self)@),
                Err(f) => {
                    &&& load_spec(old(self).program(), old(self)@) == Err::<State, Fault>(f)
                    &&& final(self)@ == old(self)@
                },
            },
    {
        let which: Acc = match self.select() {
            Err(f) => {
                return Err(f);
            },
            Ok(which) => which,
        };
        assert(self.instruction_pointer < self.rom.len());
        let mut pos: usize = self.instruction_pointer + 1;
        let mut num: i64 = 0;
        let ghost mut exact: int = 0;
        loop
            invariant
                self.same_setup(old(self)),
                self@ == old(self)@,
                selector(self.program(), self@.ip) == Ok::<Acc, Fault>(which),
                pos <= self.rom.len(),
                num == wrap64(exact),
                literal(self.program(), pos as nat, exact) == literal(
                    self.program(),
                    self@.ip + 1,
                    0,
                ),
            ensures
                pos < self.rom.len(),
                literal(self.program(), self@.ip + 1, 0) == Ok::<(nat, int), Fault>(
                    ((pos + 1) as nat, exact),
                ),
                num == wrap64(exact),
            decreases self.rom.len() - pos,
        {
            match self.symbol_at(pos) {
                Err(f) => {
                    return Err(f);
                },
                Ok(c) => {
                    if c == TERMINATOR {
                        break;
                    }
                    match decode_digit(c) {
                        None => {
                            return Err(Fault::MalformedOperand);
                        },
                        Some(d) => {
                            proof {
                                lemma_wrap64_absorbs(num * 10, 1, d as int);
                                lemma_wrap64_absorbs(exact, 10, d as int);
                                exact = exact * 10 + d;
                            }
                            num = add_wrapping(mul_wrapping(num, 10), d as i64);
                            pos += 1;
                        },
                    }
                },
            }
        }
        match which {
            Acc::A => {
                self.accumulator1 = num;
            },
            Acc::B => {
                self.accumulator2 = num;
            },
        }
        self.instruction_pointer = pos + 1;
        Ok(())
    }

    /// JUMP: takes the token at the instruction pointer as a label reference and moves
    /// the instruction pointer just past the first definition of that label.
    pub fn jump_to(&mut self) -> (r: Result<(), Fault>)
        ensures
            final(self).same_setup(old(self)),
            match r {
                Ok(()) => jump_to_spec(old(self).program(), old(self)@)
                    == Ok::<State, Fault>(final(self)@),
                Err(f) => {
                    &&& jump_to_spec(old(self).program(), old(self)@) == Err::<State, Fault>(f)
                    &&& final(self)@ == old(self)@
                },
            },
    {
        match self.current_instruction() {
            Err(f) => {
                return Err(f);
            },
            Ok(c) => {
                if c != LABEL_REF {
                    return Err(Fault::MalformedOperand);
                }
            },
        }
        let label: String = definition_of(&self.rom[self.instruction_pointer]);
        let mut i: usize = 0;
        while i < self.rom.len()
            invariant
                self.same_setup(old(self)),
                self@ == old(self)@,
                i <= self.rom.len(),
                label@ == label_of(self.program()[self@.ip as int]),
                fetch(self.program(), self@.ip) == Ok::<char, Fault>(LABEL_REF),
                forall|j: int| 0 <= j < i ==> self.program()[j] != label@,
            decreases self.rom.len() - i,
        {
            if self.rom[i] == label {
                proof {
                    lemma_label_found(self.program(), label@, i as int);
                }
                self.instruction_pointer = i + 1;
                return Ok(());
            }
            i += 1;
        }
        proof {
            lemma_label_absent(self.program(), label@);
        }
        Err(Fault::UnresolvedLabel)
    }

    /// Moves the instruction pointer forward to the first END_IF token, running nothing.
    pub fn find_first_endif(&mut self) -> (r: Result<(), Fault>)
        ensures
            final(self).same_setup(old(self)),
            match r {
                Ok(()) => find_first_endif_spec(old(self).program(), old(self)@)
                    == Ok::<State, Fault>(final(self)@),
                Err(f) => {
                    &&& find_first_endif_spec(old(self).program(), old(self)@)
                        == Err::<State, Fault>(f)
                    &&& final(self)@ == old(self)@
                },
            },
    {
        let mut pos: usize = self.instruction_pointer;
        loop
            invariant
                self.same_setup(old(self)),
                self@ == old(self)@,
                endif_position(self.program(), pos as nat) == endif_position(
                    self.program(),
                    self@.ip,
                ),
            decreases self.rom.len() - pos,
        {
            match self.symbol_at(pos) {
                Err(f) => {
                    return Err(f);
                },
                Ok(c) => {
                    if c == END_IF {
                        self.instruction_pointer = pos;
                        return Ok(());
                    }
                    pos += 1;
                },
            }
        }
    }

    /// Passes over a conditional block: moves the instruction pointer just past the first
    /// END_IF token, running nothing.
    fn skip_block(&mut self) -> (r: Result<(), Fault>)
        ensures
            final(self).same_setup(old(self)),
            match r {
                Ok(()) => skip_block_spec(old(self).program(), old(self)@)
                    == Ok::<State, Fault>(final(self)@),
                Err(f) => {
                    &&& skip_block_spec(old(self).program(), old(self)@) == Err::<State, Fault>(f)
                    &&& final(self)@ == old(self)@
                },
            },
    {
        proof {
            lemma_endif_position(self.program(), self@.ip);
        }
        match self.find_first_endif() {
            Err(f) => Err(f),
            Ok(()) => {
                assert(self.instruction_pointer < self.rom.len());
                self.instruction_pointer += 1;
                Ok(())
            },
        }
    }

    /// The test of a conditional, and the skip when its block is not entered.
    fn guard(&mut self, on_zero: bool) -> (r: Result<(), Fault>)
        ensures
            final(self).same_setup(old(self)),
            match r {
                Ok(()) => guard_spec(old(self).program(), old(self)@, on_zero)
                    == Ok::<State, Fault>(final(self)@),
                Err(f) => {
                    &&& guard_spec(old(self).program(), old(self)@, on_zero)
                        == Err::<State, Fault>(f)
                    &&& final(self)@ == old(self)@
                },
            },
    {
        match self.peek() {
            Err(f) => Err(f),
            Ok(top) => {
                if on_zero == (top == 0) {
                    Ok(())
                } else {
                    self.skip_block()
                }
            },
        }
    }

    /// Applies an operation other than an entered conditional, the instruction pointer
    /// having passed the operation's own token. A conditional only tests and skips.
    fn execute(&mut self, op: Opcode) -> (r: Result<Status, Fault>)
        ensures
            final(self).same_setup(old(self)),
            final(self)@ == execute_spec(old(self).program(), old(self)@, op).state,
            r == execute_spec(old(self).program(), old(self)@, op).result,
    {
        let done: Result<(), Fault> = match op {
            Opcode::Label => Ok(()),
            Opcode::EndIf => Ok(()),
            Opcode::Exit => {
                return Ok(Status::Halted);
            },
            Opcode::Add => self.add(),
            Opcode::Sub => self.sub(),
            Opcode::Mul => self.multiply(),
            Opcode::Div => self.divide(),
            Opcode::Mod => self.modulo(),
            Opcode::Xor => self.xor(),
            Opcode::Dup => self.clone(),
            Opcode::Discard => self.pop_out(),
            Opcode::PrintChar => self.print_top(),
            Opcode::StackJump => self.jump_top(),
            Opcode::PushFromAcc => self.push(),
            Opcode::PopToAcc => self.pop(),
            Opcode::Load => self.load(),
            Opcode::Jump => self.jump_to(),
            Opcode::IfZero => self.guard(true),
            Opcode::IfNotZero => self.guard(false),
        };
        match done {
            Ok(()) => Ok(Status::Running),
            Err(f) => Err(f),
        }
    }

    /// Reports a token whose leading symbol `c` selects no operation.
    fn report_unknown(&mut self, c: char)
        ensures
            final(self).same_setup(old(self)),
            final(self)@ == old(self)@.emit(Emit::UnknownOpcode(c)),
    {
        self.output.push(Emit::UnknownOpcode(c));
    }

    /// Runs the token at the instruction pointer on its own: a conditional only tests and
    /// skips, and the tokens of an entered block are left for the calls that follow.
    pub fn shallow_step(&mut self) -> (r: Result<Status, Fault>)
        ensures
            final(self).same_setup(old(self)),
            final(self)@ == shallow_step_spec(old(self).program(), old(self)@).state,
            r == shallow_step_spec(old(self).program(), old(self)@).result,
    {
        let c: char = match self.current_instruction() {
            Err(f) => {
                return Err(f);
            },
            Ok(c) => c,
        };
        assert(self.instruction_pointer < self.rom.len());
        self.instruction_pointer += 1;
        match decode(c) {
            None => {
                self.report_unknown(c);
                Ok(Status::Running)
            },
            Some(op) => self.execute(op),
        }
    }

    /// Runs the block that starts at the instruction pointer: token after token, until
    /// the token at the instruction pointer is an END_IF or a jump, which is left
    /// unexecuted, or until the machine halts or fails.
    fn run_block(&mut self) -> (r: Result<Status, Fault>)
        ensures
            final(self).same_setup(old(self)),
            final(self)@ == block_spec(old(self).program(), old(self)@).state,
            r == block_spec(old(self).program(), old(self)@).result,
    {
        loop
            invariant
                self.same_setup(old(self)),
                block_spec(self.program(), self@) == block_spec(old(self).program(), old(self)@),
            decreases remaining(self.program(), self@),
        {
            let c: char = match self.current_instruction() {
                Err(f) => {
                    return Err(f);
                },
                Ok(c) => c,
            };
            if c == END_IF || c == JUMP || c == STACK_JUMP {
                return Ok(Status::Running);
            }
            proof {
                lemma_block_unrolls(self.program(), self@);
                if shallow_step_spec(self.program(), self@).result == Ok::<Status, Fault>(
                    Status::Running,
                ) {
                    lemma_shallow_step_advances(self.program(), self@);
                }
            }
            match self.shallow_step() {
                Ok(Status::Running) => {},
                Ok(Status::Halted) => {
                    return Ok(Status::Halted);
                },
                Err(f) => {
                    return Err(f);
                },
            }
        }
    }

    /// A conditional, the instruction pointer having passed its token: tests the top of
    /// the stack, which stays there, and runs the block or passes over it.
    fn conditional(&mut self, on_zero: bool) -> (r: Result<Status, Fault>)
        ensures
            final(self).same_setup(old(self)),
            final(self)@ == conditional_spec(old(self).program(), old(self)@, on_zero).state,
            r == conditional_spec(old(self).program(), old(self)@, on_zero).result,
    {
        match self.peek() {
            Err(f) => Err(f),
            Ok(top) => {
                if on_zero == (top == 0) {
                    self.run_block()
                } else {
                    match self.skip_block() {
                        Ok(()) => Ok(Status::Running),
                        Err(f) => Err(f),
                    }
                }
            },
        }
    }

    /// IF_ZERO, the instruction pointer having passed its token: when the top of the stack
    /// is zero the block that starts at the instruction pointer is run, otherwise it is
    /// passed over. The tested value stays on the stack.
    pub fn if_zero(&mut self) -> (r: Result<Status, Fault>)
        ensures
            final(self).same_setup(old(self)),
            final(self)@ == if_zero_spec(old(self).program(), old(self)@).state,
            r == if_zero_spec(old(self).program(), old(self)@).result,
    {
        self.conditional(true)
    }

    /// IF_NOT_ZERO, the instruction pointer having passed its token: when the top of the
    /// stack is not zero the block that starts at the instruction pointer is run,
    /// otherwise it is passed over. The tested value stays on the stack.
    pub fn if_not_zero(&mut self) -> (r: Result<Status, Fault>)
        ensures
            final(self).same_setup(old(self)),
            final(self)@ == if_not_zero_spec(old(self).program(), old(self)@).state,
            r == if_not_zero_spec(old(self).program(), old(self)@).result,
    {
        self.conditional(false)
    }

    /// One dispatch: fetches the token at the instruction pointer, moves past it and
    /// applies the operation that its leading symbol selects. An unknown symbol is
    /// reported in the output and execution goes on.
    pub fn step(&mut self) -> (r: Result<Status, Fault>)
        ensures
            final(self).same_setup(old(self)),
            final(self)@ == step_spec(old(self).program(), old(self)@).state,
            r == step_spec(old(self).program(), old(self)@).result,
    {
        let cur_ins: char = match self.current_instruction() {
            Err(f) => {
                return Err(f);
            },
            Ok(c) => c,
        };
        assert(self.instruction_pointer < self.rom.len());
        self.instruction_pointer += 1;
        match decode(cur_ins) {
            None => {
                self.report_unknown(cur_ins);
                Ok(Status::Running)
            },
            Some(Opcode::IfZero) => self.if_zero(),
            Some(Opcode::IfNotZero) => self.if_not_zero(),
            Some(op) => self.execute(op),
        }
    }

    /// The dispatch loop, bounded: dispatches until the machine halts or fails, but at
    /// most `budget` times. `Ok(Status::Running)` means that the budget ran out.
    pub fn run(&mut self, budget: u64) -> (r: Result<Status, Fault>)
        ensures
            final(self).same_setup(old(self)),
            final(self)@ == run_spec(old(self).program(), old(self)@, budget as nat).state,
            r == run_spec(old(self).program(), old(self)@, budget as nat).result,
    {
        let mut left: u64 = budget;
        while left > 0
            invariant
                self.same_setup(old(self)),
                run_spec(self.program(), self@, left as nat) == run_spec(
                    old(self).program(),
                    old(self)@,
                    budget as nat,
                ),
            decreases left,
        {
            match self.step() {
                Ok(Status::Running) => {},
                Ok(Status::Halted) => {
                    return Ok(Status::Halted);
                },
                Err(f) => {
                    return Err(f);
                },
            }
            left -= 1;
        }
        Ok(Status::Running)
    }
}

/// The definition token of the label that `reference` names: `reference` with the leading
/// symbol of a definition in place of its own.
fn definition_of(reference: &String) -> (label: String)
    requires
        reference@.len() > 0,
    ensures
        label@ == label_of(reference@),
{
    let n: usize = reference.as_str().unicode_len();
    let rest: &str = reference.as_str().substring_char(1, n);
    let mut label: String = String::from_str("\u{1F58B}");
    proof {
        reveal_strlit("\u{1F58B}");
    }
    label.append(rest);
    assert(label@ =~= label_of(reference@));
    label
}

} // verus!
