//! What holds of every execution, proved from the definition of a step.

use vstd::prelude::*;
use crate::opcode::{Opcode, CALL, DEC, HLT, INC, JL, JMP, PUSH, RET};
use crate::outcome::Outcome;
use crate::arith::{compute, fits, lemma_quotient_fits, quotient};
use crate::state::State;

verus! {

/// A two-operand operation takes the value on top of the stack as its left
/// operand and the value beneath it as its right operand, removes both, and
/// puts the result in their place. Nothing else on the stack changes, and the
/// pointer moves past the opcode.
pub proof fn lemma_top_is_left_operand(s: State, op: Opcode, l: i32, r: i32, rest: Seq<i32>)
    requires
        op.is_binary(),
        s.holds(s.ip, op.spec_code()),
        s.stack == rest.push(r).push(l),
    ensures
        s.step() == match compute(op, l, r) {
            Ok(v) => (s.advance().with_stack(rest.push(v)), Outcome::Running),
            Err(fault) => (s.advance().with_stack(rest), fault),
        },
{
    op.lemma_decode_code();
    assert(s.stack.take(s.stack.len() - 2) =~= rest);
}

/// Pushing `a`, then `b`, then a two-operand operation computes with `b` on
/// the left and `a` on the right: the value pushed last is taken first. The
/// result, or the fault in its place, is all that the three steps leave
/// behind.
pub proof fn lemma_last_pushed_is_left_operand(s: State, op: Opcode, a: i32, b: i32)
    requires
        op.is_binary(),
        s.holds(s.ip, PUSH),
        s.holds(s.ip + 1, a),
        s.holds(s.ip + 2, PUSH),
        s.holds(s.ip + 3, b),
        s.holds(s.ip + 4, op.spec_code()),
    ensures
        s.run(3) == match compute(op, b, a) {
            Ok(v) => (s.jump(s.ip + 5).pushed(v), Outcome::Running),
            Err(fault) => (s.jump(s.ip + 5), fault),
        },
{
    reveal_with_fuel(State::run, 4);
    let s1 = s.step().0;
    assert(s1 == s.jump(s.ip + 2).pushed(a));
    let s2 = s1.step().0;
    assert(s2 == s.jump(s.ip + 4).with_stack(s.stack.push(a).push(b)));
    lemma_top_is_left_operand(s2, op, b, a, s.stack);
}

/// The order matters where the operation does not commute: after pushing
/// `a` and then `b`, SUB leaves `b - a` and DIV leaves `b / a` rounded toward
/// zero, wherever those fit.
pub proof fn lemma_sub_and_div_order(s: State, op: Opcode, a: i32, b: i32)
    requires
        op is Sub || op is Div,
        s.holds(s.ip, PUSH),
        s.holds(s.ip + 1, a),
        s.holds(s.ip + 2, PUSH),
        s.holds(s.ip + 3, b),
        s.holds(s.ip + 4, op.spec_code()),
        op is Sub ==> fits(b - a),
        op is Div ==> a != 0 && !(b == i32::MIN && a == -1),
    ensures
        s.run(3).1 is Running,
        s.run(3).0.stack.len() == s.stack.len() + 1,
        op is Sub ==> s.run(3).0.stack.last() == b - a,
        op is Div ==> s.run(3).0.stack.last() == quotient(b as int, a as int),
{
    lemma_last_pushed_is_left_operand(s, op, a, b);
    if op is Div {
        lemma_quotient_fits(b, a);
    }
}

/// INC adds one to the top of the stack where it lies: the stack keeps its
/// depth and every value beneath the top, and the pointer moves past the
/// opcode.
pub proof fn lemma_inc_changes_top_only(s: State)
    requires
        s.holds(s.ip, INC),
        s.stack.len() > 0,
        s.stack.last() < i32::MAX,
    ensures
        s.step() == (
            s.advance().with_stack(
                s.stack.update(s.stack.len() - 1, (s.stack.last() + 1) as i32),
            ),
            Outcome::Running,
        ),
{
    assert(s.stack.take(s.stack.len() - 1).push((s.stack.last() + 1) as i32) =~= s.stack.update(
        s.stack.len() - 1,
        (s.stack.last() + 1) as i32,
    ));
}

/// DEC takes one from the top of the stack where it lies: the stack keeps
/// its depth and every value beneath the top, and the pointer moves past the
/// opcode.
pub proof fn lemma_dec_changes_top_only(s: State)
    requires
        s.holds(s.ip, DEC),
        s.stack.len() > 0,
        s.stack.last() > i32::MIN,
    ensures
        s.step() == (
            s.advance().with_stack(
                s.stack.update(s.stack.len() - 1, (s.stack.last() - 1) as i32),
            ),
            Outcome::Running,
        ),
{
    assert(s.stack.take(s.stack.len() - 1).push((s.stack.last() - 1) as i32) =~= s.stack.update(
        s.stack.len() - 1,
        (s.stack.last() - 1) as i32,
    ));
}

/// INC followed by DEC changes nothing but the pointer.
pub proof fn lemma_inc_then_dec(s: State)
    requires
        s.holds(s.ip, INC),
        s.holds(s.ip + 1, DEC),
        s.stack.len() > 0,
        s.stack.last() < i32::MAX,
    ensures
        s.run(2) == (s.jump(s.ip + 2), Outcome::Running),
{
    reveal_with_fuel(State::run, 3);
    lemma_inc_changes_top_only(s);
    let mid = s.step().0;
    lemma_dec_changes_top_only(mid);
    assert(mid.step().0.stack =~= s.stack);
}

/// DEC followed by INC changes nothing but the pointer.
pub proof fn lemma_dec_then_inc(s: State)
    requires
        s.holds(s.ip, DEC),
        s.holds(s.ip + 1, INC),
        s.stack.len() > 0,
        s.stack.last() > i32::MIN,
    ensures
        s.run(2) == (s.jump(s.ip + 2), Outcome::Running),
{
    reveal_with_fuel(State::run, 3);
    lemma_dec_changes_top_only(s);
    let mid = s.step().0;
    lemma_inc_changes_top_only(mid);
    assert(mid.step().0.stack =~= s.stack);
}

/// CALL slips the position of its own operand beneath the top of the stack
/// and continues at the target; the top stays on top.
pub proof fn lemma_call(s: State, target: i32)
    requires
        s.holds(s.ip, CALL),
        s.holds(s.ip + 1, target),
        s.stack.len() > 0,
    ensures
        s.step() == (
            s.jump(target as int).with_stack(
                s.stack.drop_last().push((s.ip + 1) as i32).push(s.stack.last()),
            ),
            Outcome::Running,
        ),
{
    assert(s.stack.take(s.stack.len() - 1) =~= s.stack.drop_last());
}

/// RET removes the value beneath the top and continues one position past
/// it; the top stays on top.
pub proof fn lemma_ret(s: State, rest: Seq<i32>, link: i32, kept: i32)
    requires
        s.holds(s.ip, RET),
        s.stack == rest.push(link).push(kept),
        link < i32::MAX,
    ensures
        s.step() == (s.jump(link + 1).with_stack(rest.push(kept)), Outcome::Running),
{
    assert(s.stack.take(s.stack.len() - 2) =~= rest);
}

/// A call and its return: if the subroutine runs for `body` steps and then
/// stands at a RET with everything beneath the top of the stack as CALL left
/// it, the RET continues one position past the operand of the CALL, and the
/// stack is the caller's with its top replaced by the top that the
/// subroutine left.
pub proof fn lemma_call_ret_round_trip(s: State, target: i32, body: nat)
    requires
        s.holds(s.ip, CALL),
        s.holds(s.ip + 1, target),
        s.stack.len() > 0,
        s.step().0.run(body).1 is Running,
        s.step().0.run(body).0.holds(s.step().0.run(body).0.ip, RET),
        s.step().0.run(body).0.stack.len() == s.stack.len() + 1,
        s.step().0.run(body).0.stack.drop_last() == s.step().0.stack.drop_last(),
    ensures
        s.run(body + 2) == (
            s.step().0.run(body).0.jump(s.ip + 2).with_stack(
                s.stack.drop_last().push(s.step().0.run(body).0.stack.last()),
            ),
            Outcome::Running,
        ),
{
    lemma_call(s, target);
    let called = s.step().0;
    let back = called.run(body).0;
    let rest = s.stack.drop_last();
    let link = (s.ip + 1) as i32;
    assert(called.stack.drop_last() =~= rest.push(link));
    assert(back.stack =~= rest.push(link).push(back.stack.last()));
    lemma_ret(back, rest, link, back.stack.last());
    lemma_run_split(s, 1, body + 1);
    reveal_with_fuel(State::run, 2);
    assert(s.run(1) == s.step());
    lemma_run_split(called, body, 1);
    assert(back.run(1) == back.step());
}

/// JL takes the top of the stack and continues at its target if and only if
/// that value is negative; otherwise it continues behind its own operand.
pub proof fn lemma_jl_branches_on_negative(s: State, target: i32)
    requires
        s.holds(s.ip, JL),
        s.holds(s.ip + 1, target),
        s.stack.len() > 0,
    ensures
        s.step() == (
            s.jump(
                if s.stack.last() < 0 {
                    target as int
                } else {
                    s.ip + 2
                },
            ).with_stack(s.stack.drop_last()),
            Outcome::Running,
        ),
{
    assert(s.stack.take(s.stack.len() - 1) =~= s.stack.drop_last());
}

/// A run of `a + b` steps is a run of `a` steps and, if that one is still
/// under way, a run of `b` steps from where it stopped.
pub proof fn lemma_run_split(s: State, a: nat, b: nat)
    ensures
        s.run(a + b) == if s.run(a).1 is Running {
            s.run(a).0.run(b)
        } else {
            s.run(a)
        },
    decreases a,
{
    if a > 0 {
        if s.step().1 is Running {
            lemma_run_split(s.step().0, (a - 1) as nat, b);
            assert((a + b - 1) as nat == (a - 1) as nat + b);
        }
    }
}

/// Once a run has stopped, a larger budget changes nothing.
pub proof fn lemma_run_stays_stopped(s: State, a: nat, b: nat)
    requires
        a <= b,
        !(s.run(a).1 is Running),
    ensures
        s.run(b) == s.run(a),
{
    lemma_run_split(s, a, (b - a) as nat);
}

/// What a run reports is what its last step reported, and every step before
/// that one reported `Running`. The result is the number of those steps.
pub proof fn lemma_run_reports_last_step(s: State, budget: nat) -> (before: nat)
    requires
        !(s.run(budget).1 is Running),
    ensures
        before < budget,
        s.run(before).1 is Running,
        s.run(before).0.step() == s.run(budget),
    decreases budget,
{
    if s.step().1 is Running {
        let k = lemma_run_reports_last_step(s.step().0, (budget - 1) as nat);
        lemma_run_split(s, 1, k);
        reveal_with_fuel(State::run, 2);
        k + 1
    } else {
        0
    }
}

/// A step never changes the program, and only adds to what DBG has shown.
pub proof fn lemma_step_keeps_program(s: State)
    ensures
        s.step().0.prog == s.prog,
        s.output.is_prefix_of(s.step().0.output),
{
}

/// A run never changes the program, and only adds to what DBG has shown.
pub proof fn lemma_run_keeps_program(s: State, budget: nat)
    ensures
        s.run(budget).0.prog == s.prog,
        s.output.is_prefix_of(s.run(budget).0.output),
    decreases budget,
{
    if budget > 0 {
        lemma_step_keeps_program(s);
        if s.step().1 is Running {
            lemma_run_keeps_program(s.step().0, (budget - 1) as nat);
        }
    }
}

/// Each outcome of a step, and the states in which it comes. A value is
/// reported only by HLT, and only one that it found on the stack; every
/// other way of ending has an outcome of its own.
pub proof fn lemma_step_outcome(s: State, v: i32)
    ensures
        s.step().1 is OutOfRange <==> !s.can_fetch() || (Opcode::spec_decode(s.prog[s.ip])
            matches Some(op) && op.spec_has_immediate() && !s.advance().can_fetch()),
        s.step().1 is InvalidOpcode <==> s.can_fetch() && Opcode::spec_decode(s.prog[s.ip])
            is None,
        s.step().1 is Underflow <==> (s.next_op() matches Some(op) && s.stack.len()
            < op.operands()),
        s.step().1 == Outcome::Halted(v) <==> s.next_op() == Some(Opcode::Hlt) && s.stack.len() > 0
            && s.stack.last() == v,
        s.step().1 is DivideByZero <==> s.next_op() == Some(Opcode::Div) && s.stack.len() >= 2
            && s.stack[s.stack.len() - 2] == 0,
        s.step().1 is Overflow <==> (s.next_op() matches Some(op) && s.stack.len() >= op.operands()
            && overflows(op, s.stack)),
{
}

/// Whether `op`, on a stack deep enough for it, has a result that does not
/// fit in 32 bits.
pub open spec fn overflows(op: Opcode, stack: Seq<i32>) -> bool {
    let top = stack[stack.len() - 1];
    let below = stack[stack.len() - 2];
    match op {
        Opcode::Inc => top == i32::MAX,
        Opcode::Dec => top == i32::MIN,
        Opcode::Ret => below == i32::MAX,
        Opcode::Div => below != 0 && !fits(quotient(top as int, below as int)),
        Opcode::Add => !fits(top + below),
        Opcode::Mul => !fits(top * below),
        Opcode::Sub | Opcode::Cmp => !fits(top - below),
        _ => false,
    }
}

/// HLT on an empty stack reports `Underflow`, never a value.
pub proof fn lemma_halt_needs_a_value(s: State)
    requires
        s.holds(s.ip, HLT),
        s.stack.len() == 0,
    ensures
        s.step() == (s.advance(), Outcome::Underflow),
{
}

/// PUSH of a value and then HLT reports exactly that value, and leaves the
/// stack as it was.
pub proof fn lemma_push_then_halt(s: State, v: i32, budget: nat)
    requires
        s.holds(s.ip, PUSH),
        s.holds(s.ip + 1, v),
        s.holds(s.ip + 2, HLT),
        budget >= 2,
    ensures
        s.run(budget) == (s.jump(s.ip + 3), Outcome::Halted(v)),
{
    reveal_with_fuel(State::run, 3);
    let pushed = s.step().0;
    assert(pushed.stack.take(pushed.stack.len() - 1) =~= s.stack);
    assert(s.run(2) == (s.jump(s.ip + 3), Outcome::Halted(v)));
    lemma_run_stays_stopped(s, 2, budget);
}

/// Whether the program holds, from position `at` on, one PUSH for each of
/// `values`, in their order.
pub open spec fn pushes_at(s: State, at: int, values: Seq<i32>) -> bool {
    forall|i: int| 0 <= i < values.len() ==> #[trigger] pushes_nth(s, at, values, i)
}

/// Whether the `i`-th pair of positions from `at` on holds a PUSH of the
/// `i`-th of `values`.
pub open spec fn pushes_nth(s: State, at: int, values: Seq<i32>, i: int) -> bool {
    s.holds(at + 2 * i, PUSH) && s.holds(at + 2 * i + 1, values[i])
}

/// A sequence of pushes puts its values on the stack in their order, the
/// last on top.
pub proof fn lemma_pushes(s: State, values: Seq<i32>)
    requires
        pushes_at(s, s.ip, values),
    ensures
        s.run(values.len()) == (
            s.jump(s.ip + 2 * values.len()).with_stack(s.stack + values),
            Outcome::Running,
        ),
    decreases values.len(),
{
    if values.len() == 0 {
        assert(s.stack + values =~= s.stack);
    } else {
        let n = (values.len() - 1) as nat;
        let front = values.drop_last();
        assert forall|i: int| 0 <= i < front.len() implies #[trigger] pushes_nth(
            s,
            s.ip,
            front,
            i,
        ) by {
            assert(pushes_nth(s, s.ip, values, i));
        }
        lemma_pushes(s, front);
        let t = s.run(n).0;
        assert(pushes_nth(s, s.ip, values, n as int));
        assert(t.step().0.stack =~= s.stack + values);
        lemma_run_split(s, n, 1);
        reveal_with_fuel(State::run, 2);
    }
}

/// Any sequence of pushes followed by HLT reports exactly the value pushed
/// last, and leaves the others on the stack.
pub proof fn lemma_pushes_then_halt(s: State, values: Seq<i32>, budget: nat)
    requires
        values.len() > 0,
        pushes_at(s, s.ip, values),
        s.holds(s.ip + 2 * values.len(), HLT),
        budget > values.len(),
    ensures
        s.run(budget) == (
            s.jump(s.ip + 2 * values.len() + 1).with_stack(s.stack + values.drop_last()),
            Outcome::Halted(values.last()),
        ),
{
    lemma_pushes(s, values);
    let t = s.run(values.len()).0;
    assert(t.stack.take(t.stack.len() - 1) =~= s.stack + values.drop_last());
    lemma_run_split(s, values.len(), 1);
    reveal_with_fuel(State::run, 2);
    lemma_run_stays_stopped(s, values.len() + 1, budget);
}

/// A state that comes back after some steps never halts and never faults:
/// whatever the budget, the run is still under way when it is used up.
pub proof fn lemma_recurring_state_never_stops(s: State, period: nat, budget: nat)
    requires
        period > 0,
        s.run(period) == (s, Outcome::Running),
    ensures
        s.run(budget).1 is Running,
    decreases budget,
{
    if budget >= period {
        lemma_run_split(s, period, (budget - period) as nat);
        lemma_recurring_state_never_stops(s, period, (budget - period) as nat);
    } else if !(s.run(budget).1 is Running) {
        lemma_run_stays_stopped(s, budget, period);
    }
}

/// The tightest cycle: a program that pushes the position of its own PUSH
/// and jumps there runs on under every budget.
pub proof fn lemma_tight_cycle_never_stops(s: State, budget: nat)
    requires
        s.holds(s.ip, PUSH),
        s.holds(s.ip + 1, s.ip as i32),
        s.holds(s.ip + 2, JMP),
    ensures
        s.run(budget).1 is Running,
{
    reveal_with_fuel(State::run, 3);
    let pushed = s.step().0;
    assert(pushed.stack.take(pushed.stack.len() - 1) =~= s.stack);
    assert(s.run(2) == (s, Outcome::Running));
    lemma_recurring_state_never_stops(s, 2, budget);
}

} // verus!
