//! The laws of the instruction set, stated over the same spec functions
//! that the engine's contracts use and proved once and for all: exact jump
//! targets, call/return pairing up to the sixteen stack slots, the
//! wraparound of a seventeenth pending call, the carry and borrow flags,
//! the collision flag, the register store/load round trip, and the masked
//! random byte.
use vstd::prelude::*;

use vstd::arithmetic::div_mod::lemma_add_mod_noop;
use vstd::arithmetic::div_mod::lemma_small_mod;

use crate::Chip8Error;
use crate::decode::Instr;
use crate::display::{spec_collision, spec_draw, toggled};
use crate::engine::{
    spec_op_add, spec_op_jump, spec_op_load, spec_op_store, spec_op_sub, spec_op_subn, spec_step,
};
use crate::machine::{spec_jsr, spec_rts};
use crate::state::{MachineState, wf, wrap16};

verus! {

/// Jumps land exactly on their targets: after a jump or a call the program
/// counter equals the named address, and after a register-indexed jump it
/// equals V0 plus the address modulo 2^16 — no off-by-two.
pub proof fn lemma_jump_targets(s: MachineState, t: u16, held: Seq<bool>, rel: Seq<bool>, rnd: u8)
    requires
        wf(s),
    ensures
        spec_step(s, Instr::Jump(t), held, rel, rnd) == Ok::<MachineState, Chip8Error>(
            spec_op_jump(s, t),
        ),
        spec_op_jump(s, t).pc == t,
        spec_step(s, Instr::Call(t), held, rel, rnd) == Ok::<MachineState, Chip8Error>(
            spec_jsr(s, t),
        ),
        spec_jsr(s, t).pc == t,
        spec_step(s, Instr::JumpV0(t), held, rel, rnd) matches Ok(p) && p.pc == wrap16(
            s.v[0] + t,
        ),
{
}

/// A call followed at once by a return restores the program counter to the
/// instruction after the call and the stack pointer to its old value, at
/// any stack depth.
pub proof fn lemma_call_then_ret(s: MachineState, t: u16)
    requires
        wf(s),
    ensures
        spec_rts(spec_jsr(s, t)).pc == s.pc,
        spec_rts(spec_jsr(s, t)).sp == s.sp,
{
}

/// The state after a run of calls, pushed left to right.
pub open spec fn do_calls(s: MachineState, ts: Seq<u16>) -> MachineState
    decreases ts.len(),
{
    if ts.len() == 0 {
        s
    } else {
        do_calls(spec_jsr(s, ts[0]), ts.subrange(1, ts.len() as int))
    }
}

/// The state after `k` returns.
pub open spec fn do_rets(s: MachineState, k: nat) -> MachineState
    decreases k,
{
    if k == 0 {
        s
    } else {
        spec_rts(do_rets(s, (k - 1) as nat))
    }
}

/// Whether slot `j` is among the `k` slots written by calls starting at
/// stack pointer `p`, counting modulo 16.
pub open spec fn in_window(p: int, k: int, j: int) -> bool {
    exists|m: int| 0 <= m < k && j == #[trigger] ((p + m) % 16)
}

/// What a run of up to sixteen calls does to the stack: the pointer
/// advances modulo 16, the slots outside the written window keep their
/// values, the first call's slot holds the return address, and nothing
/// but stack, pointer and program counter moves.
#[verifier::rlimit(60)]
pub proof fn lemma_calls_stack(s: MachineState, ts: Seq<u16>)
    requires
        wf(s),
        ts.len() <= 16,
    ensures
        wf(do_calls(s, ts)),
        do_calls(s, ts).sp == ((s.sp + ts.len()) % 16) as u8,
        forall|j: int|
            0 <= j < 16 && !in_window(s.sp as int, ts.len() as int, j) ==> do_calls(
                s,
                ts,
            ).stack[j] == s.stack[j],
        ts.len() >= 1 ==> do_calls(s, ts).stack[s.sp as int] == s.pc,
        do_calls(s, ts).mem == s.mem,
        do_calls(s, ts).v == s.v,
        do_calls(s, ts).i == s.i,
        do_calls(s, ts).delay == s.delay,
        do_calls(s, ts).sound == s.sound,
        do_calls(s, ts).disp == s.disp,
    decreases ts.len(),
{
    if ts.len() == 0 {
        lemma_small_mod(s.sp as nat, 16);
    } else {
        let s1 = spec_jsr(s, ts[0]);
        let rest = ts.subrange(1, ts.len() as int);
        assert(do_calls(s, ts) == do_calls(s1, rest));
        lemma_calls_stack(s1, rest);
        lemma_small_mod(s.sp as nat, 16);
        lemma_small_mod(rest.len() as nat, 16);
        assert(s1.sp == (s.sp + 1) % 16);
        lemma_add_mod_noop(s.sp + 1, rest.len() as int, 16);
        assert((s1.sp + rest.len()) % 16 == (s.sp + ts.len()) % 16);
        // The window seen from s covers the first slot and the window seen
        // from s1; a slot outside it keeps its pre-call value.
        assert forall|j: int|
            0 <= j < 16 && !in_window(s.sp as int, ts.len() as int, j) implies do_calls(
            s,
            ts,
        ).stack[j] == s.stack[j] by {
            assert(s.sp as int == (s.sp as int + 0) % 16);
            assert(j != s.sp as int);
            assert(!in_window(s1.sp as int, rest.len() as int, j)) by {
                if in_window(s1.sp as int, rest.len() as int, j) {
                    let m = choose|m: int|
                        0 <= m < rest.len() && j == #[trigger] ((s1.sp as int + m) % 16);
                    lemma_small_mod(m as nat, 16);
                    lemma_add_mod_noop(s.sp + 1, m, 16);
                    assert(j == (s.sp as int + (m + 1)) % 16);
                    assert(in_window(s.sp as int, ts.len() as int, j));
                }
            }
            assert(do_calls(s1, rest).stack[j] == s1.stack[j]);
        }
        // The first call's slot lies outside the window of the remaining
        // calls, so its return address survives them.
        assert(!in_window(s1.sp as int, rest.len() as int, s.sp as int)) by {
            if in_window(s1.sp as int, rest.len() as int, s.sp as int) {
                let m = choose|m: int|
                    0 <= m < rest.len() && s.sp as int == #[trigger] ((s1.sp as int + m) % 16);
                lemma_small_mod(m as nat, 16);
                lemma_add_mod_noop(s.sp + 1, m, 16);
                assert(s.sp as int == (s.sp as int + (m + 1)) % 16);
                assert(s.sp as int + (m + 1) < s.sp as int + 16);
                lemma_small_mod((m + 1) as nat, 16);
                lemma_add_mod_noop(s.sp as int, m + 1, 16);
            }
        }
        assert(do_calls(s1, rest).stack[s.sp as int] == s1.stack[s.sp as int]);
        assert(s1.stack[s.sp as int] == s.pc);
    }
}

/// Returns touch no field but the stack pointer and the program counter.
pub proof fn lemma_rets_keep_stack(s: MachineState, k: nat)
    ensures
        do_rets(s, k).stack == s.stack,
        do_rets(s, k).mem == s.mem,
        do_rets(s, k).v == s.v,
        do_rets(s, k).disp == s.disp,
    decreases k,
{
    if k > 0 {
        lemma_rets_keep_stack(s, (k - 1) as nat);
    }
}

/// Up to sixteen nested calls, each matched by a return, bring the program
/// counter back to the instruction after the outermost call and restore
/// the stack pointer: the sixteen slots are enough for sixteen pending
/// calls.
pub proof fn lemma_nested_call_ret(s: MachineState, ts: Seq<u16>)
    requires
        wf(s),
        1 <= ts.len() <= 16,
    ensures
        do_rets(do_calls(s, ts), ts.len()).pc == s.pc,
        do_rets(do_calls(s, ts), ts.len()).sp == s.sp,
    decreases ts.len(),
{
    let s1 = spec_jsr(s, ts[0]);
    let rest = ts.subrange(1, ts.len() as int);
    lemma_small_mod(s.sp as nat, 16);
    if ts.len() == 1 {
        assert(do_calls(s, ts) == do_calls(s1, rest));
        assert(rest.len() == 0);
        assert(do_calls(s1, rest) == s1);
        assert(do_rets(do_calls(s, ts), ts.len()) == spec_rts(do_rets(do_calls(s, ts), 0)));
        assert(do_rets(do_calls(s, ts), 0) == do_calls(s, ts));
        lemma_call_then_ret(s, ts[0]);
        assert(do_rets(do_calls(s, ts), ts.len()) == spec_rts(spec_jsr(s, ts[0])));
    } else {
        assert(do_calls(s, ts) == do_calls(s1, rest));
        lemma_nested_call_ret(s1, rest);
        let m = do_rets(do_calls(s1, rest), rest.len());
        lemma_calls_stack(s1, rest);
        lemma_rets_keep_stack(do_calls(s1, rest), rest.len());
        lemma_small_mod(s.sp as nat, 16);
        // The outermost frame's slot is outside the inner window, so the
        // final return reads the address the first call pushed.
        assert(!in_window(s1.sp as int, rest.len() as int, s.sp as int)) by {
            if in_window(s1.sp as int, rest.len() as int, s.sp as int) {
                let q = choose|q: int|
                    0 <= q < rest.len() && s.sp as int == #[trigger] ((s1.sp as int + q) % 16);
                lemma_small_mod(q as nat, 16);
                lemma_add_mod_noop(s.sp + 1, q, 16);
                assert(s.sp as int == (s.sp as int + (q + 1)) % 16);
                assert(s.sp as int + (q + 1) < s.sp as int + 16);
                lemma_small_mod((q + 1) as nat, 16);
                lemma_add_mod_noop(s.sp as int, q + 1, 16);
            }
        }
        assert(rest.len() == ts.len() - 1);
        assert(do_calls(s1, rest).stack[s.sp as int] == s1.stack[s.sp as int]);
        assert(s1.stack[s.sp as int] == s.pc);
        assert(m.stack == do_calls(s1, rest).stack);
        assert(m.stack[s.sp as int] == s.pc);
        assert(m.sp == s1.sp);
        lemma_small_mod((s.sp + 1) as nat % 16, 16);
        if s.sp == 15 {
            assert(s1.sp == 0);
        } else {
            lemma_small_mod((s.sp + 1) as nat, 16);
            assert(s1.sp == s.sp + 1);
        }
        assert(spec_rts(m).sp == s.sp);
        assert(spec_rts(m).pc == s.pc);
        assert(do_rets(do_calls(s, ts), ts.len()) == spec_rts(do_rets(
            do_calls(s, ts),
            (ts.len() - 1) as nat,
        )));
        assert(do_rets(do_calls(s, ts), (ts.len() - 1) as nat) == m);
        assert(do_rets(do_calls(s, ts), ts.len()) == spec_rts(m));
    }
}

/// Splitting a run of calls: the calls of the concatenation are the calls
/// of the first part followed by the calls of the second.
pub proof fn lemma_calls_append(s: MachineState, ts1: Seq<u16>, ts2: Seq<u16>)
    ensures
        do_calls(s, ts1 + ts2) == do_calls(do_calls(s, ts1), ts2),
    decreases ts1.len(),
{
    if ts1.len() == 0 {
        assert(ts1 + ts2 =~= ts2);
    } else {
        let s1 = spec_jsr(s, ts1[0]);
        assert((ts1 + ts2).subrange(1, (ts1 + ts2).len() as int) =~= ts1.subrange(
            1,
            ts1.len() as int,
        ) + ts2);
        lemma_calls_append(s1, ts1.subrange(1, ts1.len() as int), ts2);
    }
}

/// A seventeenth pending call wraps around and overwrites the oldest
/// frame: after seventeen calls the slot of the first holds the return
/// address pushed by the seventeenth, not the first one's.
pub proof fn lemma_seventeenth_call_overwrites(s: MachineState, ts: Seq<u16>)
    requires
        wf(s),
        ts.len() == 17,
    ensures
        do_calls(s, ts).stack[s.sp as int] == do_calls(s, ts.subrange(0, 16)).pc,
{
    let front = ts.subrange(0, 16);
    let back = ts.subrange(16, 17);
    assert(ts =~= front + back);
    lemma_calls_append(s, front, back);
    lemma_calls_stack(s, front);
    let s16 = do_calls(s, front);
    lemma_small_mod(s.sp as nat, 16);
    lemma_add_mod_noop(s.sp as int, 16, 16);
    assert(s16.sp == s.sp);
    assert(do_calls(s16, back) == do_calls(spec_jsr(s16, back[0]), back.subrange(1, 1)));
    assert(back.subrange(1, 1).len() == 0);
    assert(do_calls(s, ts).stack == s16.stack.update(s16.sp as int, s16.pc));
}

/// The carry and borrow flags: the add instruction sets VF exactly when
/// the unwrapped sum reaches 256, and both subtract forms set VF exactly
/// when the subtraction does not borrow — 1 on no borrow, 0 on borrow.
pub proof fn lemma_arith_flags(
    s: MachineState,
    x: u8,
    y: u8,
    held: Seq<bool>,
    rel: Seq<bool>,
    rnd: u8,
)
    requires
        wf(s),
        x < 16,
        y < 16,
    ensures
        spec_step(s, Instr::AddReg(x, y), held, rel, rnd) == Ok::<MachineState, Chip8Error>(
            spec_op_add(s, x, y),
        ),
        spec_op_add(s, x, y).v[15] == (
            if s.v[x as int] + s.v[y as int] >= 256 { 1u8 } else { 0u8 }
        ),
        spec_op_sub(s, x, y).v[15] == (if s.v[x as int] >= s.v[y as int] { 1u8 } else { 0u8 }),
        spec_op_subn(s, x, y).v[15] == (if s.v[y as int] >= s.v[x as int] { 1u8 } else { 0u8 }),
{
}

/// The collision flag is set exactly when the draw turns some lit cell
/// off: a collision is reported if and only if some cell is lit before
/// the draw and unlit after it.
pub proof fn lemma_collision_iff_pixel_unset(d: Seq<bool>, x0: int, y0: int, sprite: Seq<u8>)
    requires
        d.len() == 2048,
    ensures
        spec_collision(d, x0, y0, sprite) <==> (exists|idx: int|
            0 <= idx < 2048 && d[idx] && !spec_draw(d, x0, y0, sprite)[idx]),
{
    if spec_collision(d, x0, y0, sprite) {
        let idx = choose|idx: int| 0 <= idx < d.len() && toggled(x0, y0, sprite, idx) && d[idx];
        assert(d[idx] && !spec_draw(d, x0, y0, sprite)[idx]);
    }
    if exists|idx: int| 0 <= idx < 2048 && d[idx] && !spec_draw(d, x0, y0, sprite)[idx] {
        let idx = choose|idx: int| 0 <= idx < 2048 && d[idx] && !spec_draw(d, x0, y0, sprite)[idx];
        assert(toggled(x0, y0, sprite, idx));
        assert(spec_collision(d, x0, y0, sprite));
    }
}

/// Storing V0 up to but not including Vx and then loading the same range
/// back from the same region restores those registers, whatever the
/// registers held in between.
pub proof fn lemma_store_load_round_trip(s: MachineState, x: u8, scratch: Seq<u8>)
    requires
        wf(s),
        x < 16,
        x > 0 ==> s.i + x <= 4096,
        scratch.len() == 16,
    ensures
        spec_op_store(s, x) matches Ok(s1) && (spec_op_load(
            MachineState { v: scratch, ..s1 },
            x,
        ) matches Ok(s2) && forall|q: int| 0 <= q < x ==> s2.v[q] == s.v[q]),
{
    let s1 = spec_op_store(s, x)->Ok_0;
    let s2 = spec_op_load(MachineState { v: scratch, ..s1 }, x)->Ok_0;
    assert forall|q: int| 0 <= q < x implies s2.v[q] == s.v[q] by {
        assert(s1.mem[s.i + q] == s.v.subrange(0, x as int)[q]);
    }
}

/// With mask zero the random instruction always loads zero into Vx,
/// whatever byte the randomness source produced.
pub proof fn lemma_rand_zero_mask(
    s: MachineState,
    x: u8,
    held: Seq<bool>,
    rel: Seq<bool>,
    rnd: u8,
)
    requires
        wf(s),
        x < 16,
    ensures
        spec_step(s, Instr::Rand(x, 0), held, rel, rnd) matches Ok(p) && p.v[x as int] == 0,
{
    assert(rnd & 0 == 0) by (bit_vector);
}

} // verus!
