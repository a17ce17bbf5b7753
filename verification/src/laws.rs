//! General properties of the model: what holds of every program and every state.
use vstd::prelude::*;
use crate::arith::{
    divisible, lemma_quotient_fits, lemma_quotient_remainder, low_byte, magnitude, quotient,
    remainder, wrap64,
};
use crate::lemmas::{
    lemma_block_unrolls, lemma_dispatch_in_block_advances, lemma_endif_found, lemma_label_found,
    lemma_shallow_step_advances,
};
use crate::model::{
    add_spec, block_spec, clone_spec, conditional_spec, divide_spec, ends_block, enters,
    execute_spec, fetch, if_not_zero_spec, if_zero_spec, is_first_occurrence, jump_to_spec,
    jump_top_spec, label_of, label_position, literal, load_spec, modulo_spec, multiply_spec,
    push_spec, remaining, run_spec, selector, shallow_run_spec, shallow_step_spec, step_spec,
    sub_spec, xor_spec, Emit, Fault, Outcome, Program, State, Status,
};
use crate::symbols::{
    digit_of, opcode_of, Acc, Opcode, END_IF, JUMP, LABEL_REF, LOAD, PUSH_FROM_ACC, STACK_JUMP,
    TERMINATOR,
};

verus! {

/// Arithmetic on a pair: with `a` pushed and then `b`, ADD leaves `a + b`, SUB leaves
/// `a - b` and MUL leaves `a * b` in their place, each wrapped to 64 bits and so exact
/// whenever the result fits; XOR leaves the bitwise exclusive or of `a` and `b`.
pub proof fn law_arithmetic_on_pair(s: State, a: i64, b: i64)
    ensures
        add_spec(s.push(a).push(b)) == Ok::<State, Fault>(s.push(wrap64(a + b))),
        sub_spec(s.push(a).push(b)) == Ok::<State, Fault>(s.push(wrap64(a - b))),
        multiply_spec(s.push(a).push(b)) == Ok::<State, Fault>(s.push(wrap64(a * b))),
        xor_spec(s.push(a).push(b)) == Ok::<State, Fault>(s.push(a ^ b)),
        i64::MIN <= a + b <= i64::MAX ==> wrap64(a + b) == a + b,
        i64::MIN <= a - b <= i64::MAX ==> wrap64(a - b) == a - b,
        i64::MIN <= a * b <= i64::MAX ==> wrap64(a * b) == a * b,
{
    let pushed = s.push(a).push(b);
    assert(pushed.pop().pop() =~= s);
    assert(pushed.top() == b);
    assert(pushed.below_top() == a);
}

/// Division on a pair: with `a` pushed and then `b`, DIV and MOD fail when `b` is zero or
/// when `a` is the least value and `b` is minus one. Otherwise they leave the quotient `q`
/// and the remainder `r` of `a` by `b`, for which `a == b * q + r`, `r` is smaller in
/// magnitude than `b`, and `r` is zero or has the sign of `a`.
pub proof fn law_division_on_pair(s: State, a: i64, b: i64)
    ensures
        !divisible(a, b) ==> divide_spec(s.push(a).push(b)) == Err::<State, Fault>(
            Fault::ArithmeticFault,
        ) && modulo_spec(s.push(a).push(b)) == Err::<State, Fault>(Fault::ArithmeticFault),
        divisible(a, b) ==> {
            let q = quotient(a as int, b as int);
            let r = remainder(a as int, b as int);
            &&& divide_spec(s.push(a).push(b)) == Ok::<State, Fault>(s.push(q as i64))
            &&& modulo_spec(s.push(a).push(b)) == Ok::<State, Fault>(s.push(r as i64))
            &&& q as i64 == q
            &&& r as i64 == r
            &&& a == b * q + r
            &&& magnitude(r) < magnitude(b as int)
            &&& (a >= 0 ==> r >= 0)
            &&& (a <= 0 ==> r <= 0)
        },
{
    let pushed = s.push(a).push(b);
    assert(pushed.pop().pop() =~= s);
    assert(pushed.top() == b);
    assert(pushed.below_top() == a);
    if b != 0 {
        lemma_quotient_remainder(a as int, b as int);
        lemma_quotient_fits(a, b);
    }
}

/// DUP after a push: with `v` pushed, DUP leaves `v` twice on top of what was there.
pub proof fn law_dup_after_push(s: State, v: i64)
    ensures
        clone_spec(s.push(v)) == Ok::<State, Fault>(s.push(v).push(v)),
{
}

/// The number that digits spell in decimal, continuing the number `value` read so far.
pub open spec fn decimal(value: int, digits: Seq<int>) -> int
    decreases digits.len(),
{
    if digits.len() == 0 {
        value
    } else {
        decimal(value * 10 + digits[0], digits.drop_first())
    }
}

/// The decimal digit that the token at `pos` stands for, if it stands for one.
pub open spec fn digit_at(rom: Program, pos: nat) -> Option<int> {
    match fetch(rom, pos) {
        Ok(c) => digit_of(c),
        Err(_) => None,
    }
}

/// A literal is read in decimal: when the tokens from `pos` on are the digits `digits` and
/// then a terminator, the literal is the number that the digits spell and it ends just
/// past the terminator.
pub proof fn law_literal_reads_decimal(rom: Program, pos: nat, value: int, digits: Seq<int>)
    requires
        forall|i: int|
            0 <= i < digits.len() ==> #[trigger] digit_at(rom, (pos + i) as nat) == Some(
                digits[i],
            ),
        fetch(rom, pos + digits.len()) == Ok::<char, Fault>(TERMINATOR),
    ensures
        literal(rom, pos, value) == Ok::<(nat, int), Fault>(
            (pos + digits.len() + 1, decimal(value, digits)),
        ),
    decreases digits.len(),
{
    if digits.len() > 0 {
        let rest = digits.drop_first();
        assert(digit_at(rom, (pos + 0) as nat) == Some(digits[0]));
        assert forall|i: int| 0 <= i < rest.len() implies #[trigger] digit_at(
            rom,
            (pos + 1 + i) as nat,
        ) == Some(rest[i]) by {
            assert(digit_at(rom, (pos + (i + 1)) as nat) == Some(digits[i + 1]));
        }
        law_literal_reads_decimal(rom, pos + 1, value * 10 + digits[0], rest);
    }
}

/// LOAD then PUSH_FROM_ACC: a load of the digits `digits` into an accumulator, followed by
/// a push of the same accumulator, takes two dispatches and leaves the number that the
/// digits spell, wrapped to 64 bits, in the accumulator and on top of the stack.
pub proof fn law_load_then_push(rom: Program, s: State, which: Acc, digits: Seq<int>)
    requires
        fetch(rom, s.ip) == Ok::<char, Fault>(LOAD),
        selector(rom, s.ip + 1) == Ok::<Acc, Fault>(which),
        forall|i: int|
            0 <= i < digits.len() ==> #[trigger] digit_at(rom, (s.ip + 2 + i) as nat) == Some(
                digits[i],
            ),
        fetch(rom, s.ip + 2 + digits.len()) == Ok::<char, Fault>(TERMINATOR),
        fetch(rom, s.ip + 3 + digits.len()) == Ok::<char, Fault>(PUSH_FROM_ACC),
        selector(rom, s.ip + 4 + digits.len()) == Ok::<Acc, Fault>(which),
    ensures
        run_spec(rom, s, 2) == Outcome::running(
            s.with_acc(which, wrap64(decimal(0, digits))).push(wrap64(decimal(0, digits))).at(
                s.ip + 5 + digits.len(),
            ),
        ),
{
    let value = wrap64(decimal(0, digits));
    let loaded = s.with_acc(which, value).at(s.ip + 3 + digits.len());
    law_literal_reads_decimal(rom, s.ip + 2, 0, digits);
    assert(load_spec(rom, s.at(s.ip + 1)) == Ok::<State, Fault>(loaded));
    assert(step_spec(rom, s) == Outcome::running(loaded));
    assert(push_spec(rom, loaded.at(loaded.ip + 1)) == Ok::<State, Fault>(
        loaded.push(value).at(loaded.ip + 2),
    ));
    assert(step_spec(rom, loaded) == Outcome::running(loaded.push(value).at(loaded.ip + 2)));
    reveal_with_fuel(run_spec, 3);
}

/// A conditional whose test fails passes over its block: when the first END_IF at or
/// after the instruction pointer is at `e`, the only change is that the instruction
/// pointer is just past `e`. Nothing in the block runs.
pub proof fn law_conditional_skips(rom: Program, s: State, on_zero: bool, e: nat)
    requires
        s.stack.len() >= 1,
        !enters(s, on_zero),
        s.ip <= e,
        fetch(rom, e) == Ok::<char, Fault>(END_IF),
        forall|k: nat|
            s.ip <= k < e ==> (#[trigger] fetch(rom, k)) is Ok
                && fetch(rom, k) != Ok::<char, Fault>(END_IF),
    ensures
        conditional_spec(rom, s, on_zero) == Outcome::running(s.at(e + 1)),
        if_zero_spec(rom, s) == conditional_spec(rom, s, true),
        if_not_zero_spec(rom, s) == conditional_spec(rom, s, false),
{
    lemma_endif_found(rom, s.ip, e);
}

/// A conditional whose test holds runs its block, and leaves the tested value in place when
/// the block starts.
pub proof fn law_conditional_enters(rom: Program, s: State, on_zero: bool)
    requires
        s.stack.len() >= 1,
        enters(s, on_zero),
    ensures
        conditional_spec(rom, s, on_zero) == block_spec(rom, s),
        if_zero_spec(rom, s) == conditional_spec(rom, s, true),
        if_not_zero_spec(rom, s) == conditional_spec(rom, s, false),
{
}

/// A jump lands just past the definition of its label: when the token at the instruction
/// pointer is a reference and `d` is the first position that holds the definition of the
/// same label, the only change is that the instruction pointer is `d + 1`, however far
/// away `d` is and on whichever side.
pub proof fn law_jump_lands_after_label(rom: Program, s: State, d: nat)
    requires
        fetch(rom, s.ip) == Ok::<char, Fault>(LABEL_REF),
        is_first_occurrence(rom, label_of(rom[s.ip as int]), d as int),
    ensures
        jump_to_spec(rom, s) == Ok::<State, Fault>(s.at(d + 1)),
{
    lemma_label_found(rom, label_of(rom[s.ip as int]), d as int);
}

/// Dispatching a JUMP token: the token after it is the reference, and the next token to
/// be fetched is the one just past the label's definition.
pub proof fn law_dispatch_jump(rom: Program, s: State, d: nat)
    requires
        fetch(rom, s.ip) == Ok::<char, Fault>(JUMP),
        fetch(rom, s.ip + 1) == Ok::<char, Fault>(LABEL_REF),
        is_first_occurrence(rom, label_of(rom[s.ip + 1 as int]), d as int),
    ensures
        step_spec(rom, s) == Outcome::running(s.at(d + 1)),
{
    law_jump_lands_after_label(rom, s.at(s.ip + 1), d);
}

/// A token whose leading symbol selects no operation is reported and passed over: the
/// stack and the accumulators stay as they are.
pub proof fn law_unknown_opcode(rom: Program, s: State)
    requires
        fetch(rom, s.ip) matches Ok(c) && opcode_of(c) is None,
    ensures
        step_spec(rom, s) == Outcome::running(
            s.at(s.ip + 1).emit(Emit::UnknownOpcode(fetch(rom, s.ip)->Ok_0)),
        ),
{
}

/// A dispatch with the instruction pointer outside the program fails and changes nothing.
pub proof fn law_fetch_out_of_range(rom: Program, s: State)
    requires
        s.ip >= rom.len(),
    ensures
        step_spec(rom, s) == Outcome::fault(s, Fault::IndexOutOfRange),
        shallow_step_spec(rom, s) == Outcome::fault(s, Fault::IndexOutOfRange),
{
}

/// STACK_JUMP does not check its target: a value that is a position outside the program
/// becomes the instruction pointer, and the next dispatch fails.
pub proof fn law_stack_jump_out_of_range(rom: Program, s: State)
    requires
        s.stack.len() >= 1,
        rom.len() <= s.top() <= usize::MAX,
    ensures
        jump_top_spec(s) == Ok::<State, Fault>(s.pop().at(s.top() as nat)),
        step_spec(rom, s.pop().at(s.top() as nat)).result == Err::<Status, Fault>(
            Fault::IndexOutOfRange,
        ),
{
}

/// The instruction pointer stays in the program: after a dispatch of anything but a
/// STACK_JUMP, if the machine goes on, the pointer is inside the program or at its end. A
/// pointer at the end shows as a fault at the next dispatch.
pub proof fn law_pointer_stays_in_program(rom: Program, s: State)
    requires
        fetch(rom, s.ip) matches Ok(c) && c != STACK_JUMP,
        step_spec(rom, s).result == Ok::<Status, Fault>(Status::Running),
    ensures
        step_spec(rom, s).state.ip <= rom.len(),
{
    if fetch(rom, s.ip) == Ok::<char, Fault>(JUMP) {
        let reference = s.at(s.ip + 1);
        let label = label_of(rom[reference.ip as int]);
        assert(label_position(rom, label) is Some);
        let d = choose|i: int| is_first_occurrence(rom, label, i);
        assert(is_first_occurrence(rom, label, d));
    } else {
        lemma_dispatch_in_block_advances(rom, s);
    }
}

/// The bounded dispatch loop composes: running `a` dispatches and then `b` more is running
/// `a + b`, unless the machine halted or failed on the way.
pub proof fn law_run_composes(rom: Program, s: State, a: nat, b: nat)
    ensures
        run_spec(rom, s, a + b) == (if run_spec(rom, s, a).result == Ok::<Status, Fault>(
            Status::Running,
        ) {
            run_spec(rom, run_spec(rom, s, a).state, b)
        } else {
            run_spec(rom, s, a)
        }),
    decreases a,
{
    if a == 0 {
        assert(run_spec(rom, s, 0) == Outcome::running(s));
    } else {
        let o = step_spec(rom, s);
        if o.result == Ok::<Status, Fault>(Status::Running) {
            law_run_composes(rom, o.state, (a - 1) as nat, b);
            assert(run_spec(rom, s, a + b) == run_spec(rom, o.state, (a + b - 1) as nat));
        }
    }
}

/// Running a block is dispatching its tokens one by one: the test for progress in the
/// definition of a block never fails.
pub proof fn law_block_runs_dispatches(rom: Program, s: State)
    requires
        fetch(rom, s.ip) matches Ok(c) && !ends_block(c),
    ensures
        block_spec(rom, s) == (if step_spec(rom, s).result == Ok::<Status, Fault>(
            Status::Running,
        ) {
            block_spec(rom, step_spec(rom, s).state)
        } else {
            step_spec(rom, s)
        }),
{
    if step_spec(rom, s).result == Ok::<Status, Fault>(Status::Running) {
        lemma_dispatch_in_block_advances(rom, s);
    }
}

/// Runs of single tokens compose: `a` tokens and then `b` more are `a + b` tokens, unless
/// the machine halted or failed on the way.
pub proof fn law_shallow_run_composes(rom: Program, s: State, a: nat, b: nat)
    ensures
        shallow_run_spec(rom, s, a + b) == (if shallow_run_spec(rom, s, a).result
            == Ok::<Status, Fault>(Status::Running) {
            shallow_run_spec(rom, shallow_run_spec(rom, s, a).state, b)
        } else {
            shallow_run_spec(rom, s, a)
        }),
    decreases a,
{
    if a == 0 {
        assert(shallow_run_spec(rom, s, 0) == Outcome::running(s));
    } else {
        let o = shallow_step_spec(rom, s);
        if o.result == Ok::<Status, Fault>(Status::Running) {
            law_shallow_run_composes(rom, o.state, (a - 1) as nat, b);
            assert(shallow_run_spec(rom, s, a + b) == shallow_run_spec(
                rom,
                o.state,
                (a + b - 1) as nat,
            ));
        }
    }
}

/// A block is a run of single tokens: there is a number of tokens, which the proof
/// returns, whose run one by one is the run of the block.
pub proof fn law_block_is_iteration(rom: Program, s: State) -> (count: nat)
    ensures
        block_spec(rom, s) == shallow_run_spec(rom, s, count),
    decreases remaining(rom, s),
{
    match fetch(rom, s.ip) {
        Err(_) => {
            assert(shallow_run_spec(rom, s, 1) == shallow_step_spec(rom, s));
            1
        },
        Ok(c) => {
            if ends_block(c) {
                0
            } else {
                lemma_block_unrolls(rom, s);
                let o = shallow_step_spec(rom, s);
                if o.result == Ok::<Status, Fault>(Status::Running) {
                    lemma_shallow_step_advances(rom, s);
                    let rest = law_block_is_iteration(rom, o.state);
                    assert(shallow_run_spec(rom, s, rest + 1) == shallow_run_spec(
                        rom,
                        o.state,
                        rest,
                    ));
                    rest + 1
                } else {
                    assert(shallow_run_spec(rom, s, 1) == o);
                    1
                }
            }
        },
    }
}

/// A dispatch is a run of single tokens: one token, and for an entered conditional the
/// tokens of its block as well. The proof returns their number.
pub proof fn law_dispatch_is_iteration(rom: Program, s: State) -> (count: nat)
    ensures
        count >= 1,
        step_spec(rom, s) == shallow_run_spec(rom, s, count),
{
    let o = shallow_step_spec(rom, s);
    let next = s.at(s.ip + 1);
    let entered = fetch(rom, s.ip) matches Ok(c) && next.stack.len() >= 1 && ((opcode_of(c)
        == Some(Opcode::IfZero) && enters(next, true)) || (opcode_of(c) == Some(
        Opcode::IfNotZero,
    ) && enters(next, false)));
    if entered {
        assert(o == Outcome::running(next));
        assert(step_spec(rom, s) == block_spec(rom, next));
        let rest = law_block_is_iteration(rom, next);
        assert(shallow_run_spec(rom, s, rest + 1) == shallow_run_spec(rom, next, rest));
        rest + 1
    } else {
        assert(step_spec(rom, s) == o);
        assert(shallow_run_spec(rom, s, 1) == (if o.result == Ok::<Status, Fault>(
            Status::Running,
        ) {
            shallow_run_spec(rom, o.state, 0)
        } else {
            o
        }));
        1
    }
}

/// The dispatch loop is a run of single tokens: whatever `budget` dispatches reach, some
/// number of tokens run one by one reaches as well, with the same output in the same
/// order. The proof returns that number.
pub proof fn law_run_is_iteration(rom: Program, s: State, budget: nat) -> (count: nat)
    ensures
        count >= budget,
        run_spec(rom, s, budget) == shallow_run_spec(rom, s, count),
    decreases budget,
{
    if budget == 0 {
        0
    } else {
        let first = law_dispatch_is_iteration(rom, s);
        let o = step_spec(rom, s);
        if o.result == Ok::<Status, Fault>(Status::Running) {
            let rest = law_run_is_iteration(rom, o.state, (budget - 1) as nat);
            law_shallow_run_composes(rom, s, first, rest);
            first + rest
        } else {
            law_shallow_run_composes(rom, s, first, (budget - 1) as nat);
            first + (budget - 1) as nat
        }
    }
}

/// A single token only ever appends to the output, and at most one item.
pub proof fn law_shallow_step_appends(rom: Program, s: State)
    ensures
        s.output.is_prefix_of(shallow_step_spec(rom, s).state.output),
        shallow_step_spec(rom, s).state.output.len() <= s.output.len() + 1,
{
    let after = shallow_step_spec(rom, s).state;
    let next = s.at(s.ip + 1);
    if fetch(rom, s.ip) is Ok {
        let c = fetch(rom, s.ip)->Ok_0;
        if opcode_of(c) is None {
            assert(after.output == s.output.push(Emit::UnknownOpcode(c)));
        } else {
            let op = opcode_of(c)->Some_0;
            assert(after == execute_spec(rom, next, op).state);
            if op == Opcode::PrintChar && next.stack.len() >= 1 {
                assert(after.output == s.output.push(Emit::Char(low_byte(next.top()))));
            } else {
                assert(after.output == s.output);
            }
        }
    } else {
        assert(after == s);
    }
}

/// What has been emitted stays emitted: after any number of single tokens the output
/// begins with the output from before.
pub proof fn law_shallow_run_extends_output(rom: Program, s: State, count: nat)
    ensures
        s.output.is_prefix_of(shallow_run_spec(rom, s, count).state.output),
    decreases count,
{
    if count > 0 {
        let o = shallow_step_spec(rom, s);
        law_shallow_step_appends(rom, s);
        if o.result == Ok::<Status, Fault>(Status::Running) {
            law_shallow_run_extends_output(rom, o.state, (count - 1) as nat);
        }
    }
}

/// What has been emitted stays emitted: after a dispatch, and after any number of
/// dispatches, the output begins with the output from before.
pub proof fn law_output_is_extended(rom: Program, s: State, budget: nat)
    ensures
        s.output.is_prefix_of(step_spec(rom, s).state.output),
        s.output.is_prefix_of(run_spec(rom, s, budget).state.output),
{
    let one = law_dispatch_is_iteration(rom, s);
    law_shallow_run_extends_output(rom, s, one);
    let many = law_run_is_iteration(rom, s, budget);
    law_shallow_run_extends_output(rom, s, many);
}

} // verus!
