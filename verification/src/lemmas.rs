//! Facts about the model that the proofs of the machine and of the laws rest on.
use vstd::prelude::*;
use crate::model::{
    block_spec, conditional_spec, endif_position, ends_block, fetch, is_first_occurrence,
    label_position, literal, remaining, shallow_step_spec, step_spec, Fault, Outcome, Program,
    State, Status,
};
use crate::symbols::{opcode_of, Opcode, END_IF, JUMP, STACK_JUMP};

verus! {

/// A literal ends after the position where it starts, and inside the program.
pub proof fn lemma_literal_advances(rom: Program, pos: nat, value: int)
    ensures
        literal(rom, pos, value) matches Ok((next, _)) ==> pos < next <= rom.len(),
    decreases rom.len() - pos,
{
    if let Ok(c) = fetch(rom, pos) {
        lemma_literal_advances(rom, pos + 1, value * 10 + (c as int - '0' as int));
    }
}

/// The END_IF found by a scan is the first one at or after the start: it lies in the
/// program, it is an END_IF, and every token passed on the way has a leading symbol that
/// is not END_IF.
pub proof fn lemma_endif_position(rom: Program, pos: nat)
    ensures
        endif_position(rom, pos) matches Ok(e) ==> {
            &&& pos <= e < rom.len()
            &&& fetch(rom, e) == Ok::<char, Fault>(END_IF)
            &&& forall|k: nat|
                pos <= k < e ==> (#[trigger] fetch(rom, k)) is Ok
                    && fetch(rom, k) != Ok::<char, Fault>(END_IF)
        },
    decreases rom.len() - pos,
{
    if let Ok(c) = fetch(rom, pos) {
        if c != END_IF {
            lemma_endif_position(rom, pos + 1);
        }
    }
}

/// A scan for END_IF finds the first one, when every token before it can be fetched.
pub proof fn lemma_endif_found(rom: Program, pos: nat, e: nat)
    requires
        pos <= e,
        fetch(rom, e) == Ok::<char, Fault>(END_IF),
        forall|k: nat|
            pos <= k < e ==> (#[trigger] fetch(rom, k)) is Ok
                && fetch(rom, k) != Ok::<char, Fault>(END_IF),
    ensures
        endif_position(rom, pos) == Ok::<nat, Fault>(e),
    decreases e - pos,
{
    if pos < e {
        assert(fetch(rom, pos) is Ok);
        lemma_endif_found(rom, pos + 1, e);
    }
}

/// The first occurrence of a label is unique, so it is the position that a jump finds.
pub proof fn lemma_label_found(rom: Program, label: Seq<char>, i: int)
    requires
        is_first_occurrence(rom, label, i),
    ensures
        label_position(rom, label) == Some(i as nat),
{
    let j = choose|j: int| is_first_occurrence(rom, label, j);
    assert(is_first_occurrence(rom, label, j));
    if j < i {
        assert(rom[j] != label);
    }
    if i < j {
        assert(rom[i] != label);
    }
}

/// A label that no token equals has no position.
pub proof fn lemma_label_absent(rom: Program, label: Seq<char>)
    requires
        forall|j: int| 0 <= j < rom.len() ==> rom[j] != label,
    ensures
        label_position(rom, label) is None,
{
}

/// A token run on its own that is not a jump, and after which the machine goes on, moves
/// the instruction pointer forward and leaves it inside the program or at its end.
pub proof fn lemma_shallow_step_advances(rom: Program, s: State)
    requires
        fetch(rom, s.ip) matches Ok(c) && c != JUMP && c != STACK_JUMP,
        shallow_step_spec(rom, s).result == Ok::<Status, Fault>(Status::Running),
    ensures
        s.ip < shallow_step_spec(rom, s).state.ip <= rom.len(),
{
    let next = s.at(s.ip + 1);
    lemma_literal_advances(rom, next.ip + 1, 0);
    lemma_endif_position(rom, next.ip);
}

/// A block that is left running stops at a token that ends it, at or after the position
/// where it started.
pub proof fn lemma_block_stops_at_end(rom: Program, s: State)
    ensures
        block_spec(rom, s).result == Ok::<Status, Fault>(Status::Running) ==> {
            &&& s.ip <= block_spec(rom, s).state.ip
            &&& fetch(rom, block_spec(rom, s).state.ip) matches Ok(c) && ends_block(c)
        },
    decreases remaining(rom, s), 1nat,
{
    if let Ok(c) = fetch(rom, s.ip) {
        if !ends_block(c) {
            let o = step_spec(rom, s);
            if o.result == Ok::<Status, Fault>(Status::Running) {
                lemma_dispatch_in_block_advances(rom, s);
                lemma_block_stops_at_end(rom, o.state);
            }
        }
    }
}

/// A dispatch of a token that is not a jump, and after which the machine goes on, moves
/// the instruction pointer forward and leaves it inside the program or at its end. This
/// is what bounds the run of a block by the length of the program.
pub proof fn lemma_dispatch_in_block_advances(rom: Program, s: State)
    requires
        fetch(rom, s.ip) matches Ok(c) && c != JUMP && c != STACK_JUMP,
        step_spec(rom, s).result == Ok::<Status, Fault>(Status::Running),
    ensures
        s.ip < step_spec(rom, s).state.ip <= rom.len(),
    decreases remaining(rom, s), 0nat,
{
    let c = fetch(rom, s.ip)->Ok_0;
    let next = s.at(s.ip + 1);
    match opcode_of(c) {
        Some(Opcode::IfZero) => {
            lemma_conditional_advances(rom, next, true);
        },
        Some(Opcode::IfNotZero) => {
            lemma_conditional_advances(rom, next, false);
        },
        _ => {
            lemma_shallow_step_advances(rom, s);
        },
    }
}

/// A conditional after which the machine goes on leaves the instruction pointer at or
/// after the start of its block, inside the program or at its end.
pub proof fn lemma_conditional_advances(rom: Program, s: State, on_zero: bool)
    requires
        conditional_spec(rom, s, on_zero).result == Ok::<Status, Fault>(Status::Running),
    ensures
        s.ip <= conditional_spec(rom, s, on_zero).state.ip <= rom.len(),
    decreases remaining(rom, s), 2nat,
{
    lemma_block_stops_at_end(rom, s);
    lemma_endif_position(rom, s.ip);
}

/// Running a block is running its tokens one by one: while the token at the instruction
/// pointer does not end the block, the block does what that token does on its own and
/// then what the block does from there. A conditional inside a block therefore needs no
/// run of its own: entering it only lets the tokens that follow run.
pub proof fn lemma_block_unrolls(rom: Program, s: State)
    requires
        fetch(rom, s.ip) matches Ok(c) && !ends_block(c),
    ensures
        block_spec(rom, s) == (if shallow_step_spec(rom, s).result == Ok::<Status, Fault>(
            Status::Running,
        ) {
            block_spec(rom, shallow_step_spec(rom, s).state)
        } else {
            shallow_step_spec(rom, s)
        }),
{
    let c = fetch(rom, s.ip)->Ok_0;
    let next = s.at(s.ip + 1);
    let o = step_spec(rom, s);
    let f = shallow_step_spec(rom, s);
    if o.result == Ok::<Status, Fault>(Status::Running) {
        lemma_dispatch_in_block_advances(rom, s);
    }
    let entered = (opcode_of(c) == Some(Opcode::IfZero) && next.stack.len() >= 1 && next.top()
        == 0) || (opcode_of(c) == Some(Opcode::IfNotZero) && next.stack.len() >= 1 && next.top()
        != 0);
    if entered {
        // The dispatch ran the block that starts at `next`; on its own the token only
        // moved there. A block that was left running is at its end, where running it
        // again changes nothing.
        assert(f == Outcome::running(next));
        lemma_block_stops_at_end(rom, next);
        if o.result == Ok::<Status, Fault>(Status::Running) {
            assert(block_spec(rom, o.state) == o);
        }
    } else {
        assert(o == f);
    }
}

} // verus!
