//! Laws of the instruction set, stated over the model and proved once and
//! for all: register semantics, arithmetic flags, sprite XOR behaviour,
//! clipping, timer saturation, BCD decomposition and the store/load round
//! trip.

use vstd::prelude::*;

use crate::model::{
    draw_bit, draw_collision, draw_covers, draw_hit, draw_video, exec_step, imm_nn, lowest_key,
    nib_i, nib_n, nib_x, nib_y, tick, State,
};

verus! {

/// Setting a register is exact: after any `6xkk`, Vx reads back as kk, with
/// no masking and no other register touched.
pub proof fn lemma_set_register_exact(s: State, w: u16, rb: u8)
    requires
        s.wf(),
        nib_i(w) == 0x6,
    ensures
        exec_step(s, w, rb) is Ok,
        exec_step(s, w, rb)->Ok_0.regs[nib_x(w)] == imm_nn(w),
        forall|j: int|
            0 <= j < 16 && j != nib_x(w) ==> exec_step(s, w, rb)->Ok_0.regs[j] == s.regs[j],
{
}

/// `7xkk` adds modulo 256 and touches no flag: Vx becomes (Vx + kk) mod 256
/// and every other register, VF included, is unchanged.
pub proof fn lemma_add_immediate_wraps(s: State, w: u16, rb: u8)
    requires
        s.wf(),
        nib_i(w) == 0x7,
    ensures
        exec_step(s, w, rb) is Ok,
        exec_step(s, w, rb)->Ok_0.regs[nib_x(w)] as int == (s.regs[nib_x(w)] + imm_nn(w)) % 256,
        forall|j: int|
            0 <= j < 16 && j != nib_x(w) ==> exec_step(s, w, rb)->Ok_0.regs[j] == s.regs[j],
{
    let vx = s.regs[nib_x(w)];
    let nn = imm_nn(w);
    assert(vx.wrapping_add(nn) as int == (vx + nn) % 256) by {
        if vx + nn > 255 {
            assert((vx + nn) % 256 == vx + nn - 256);
        } else {
            assert((vx + nn) % 256 == vx + nn);
        }
    }
}

/// The `8xy4` carry law: the sum wraps into Vx and VF becomes 1 exactly when
/// the true sum runs past 255.
pub proof fn lemma_add_carry_flag(s: State, w: u16, rb: u8)
    requires
        s.wf(),
        nib_i(w) == 0x8,
        nib_n(w) == 0x4,
    ensures
        exec_step(s, w, rb) is Ok,
        exec_step(s, w, rb)->Ok_0.regs[0xF] == (if s.regs[nib_x(w)] + s.regs[nib_y(w)] > 255 {
            1u8
        } else {
            0u8
        }),
        nib_x(w) != 0xF ==> exec_step(s, w, rb)->Ok_0.regs[nib_x(w)] as int == (s.regs[nib_x(w)]
            + s.regs[nib_y(w)]) % 256,
{
    let vx = s.regs[nib_x(w)];
    let vy = s.regs[nib_y(w)];
    assert(vx.wrapping_add(vy) as int == (vx + vy) % 256) by {
        if vx + vy > 255 {
            assert((vx + vy) % 256 == vx + vy - 256);
        } else {
            assert((vx + vy) % 256 == vx + vy);
        }
    }
}

/// The `8xy5` borrow law: the difference wraps into Vx and VF becomes 1
/// exactly when no borrow was needed (Vx >= Vy before the subtraction).
pub proof fn lemma_sub_borrow_flag(s: State, w: u16, rb: u8)
    requires
        s.wf(),
        nib_i(w) == 0x8,
        nib_n(w) == 0x5,
    ensures
        exec_step(s, w, rb) is Ok,
        exec_step(s, w, rb)->Ok_0.regs[0xF] == (if s.regs[nib_x(w)] >= s.regs[nib_y(w)] {
            1u8
        } else {
            0u8
        }),
        nib_x(w) != 0xF ==> exec_step(s, w, rb)->Ok_0.regs[nib_x(w)] as int == (if s.regs[nib_x(w)]
            >= s.regs[nib_y(w)] {
            s.regs[nib_x(w)] - s.regs[nib_y(w)]
        } else {
            s.regs[nib_x(w)] - s.regs[nib_y(w)] + 256
        }),
{
}

/// Drawing the same sprite at the same origin twice restores every cell: the
/// XOR is its own inverse. On the second draw VF reports exactly whether some
/// sprite bit lands on a cell the first draw left lit, which is a cell that
/// was dark before the first draw.
pub proof fn lemma_draw_twice_restores(s: State, s1: State, xo: int, yo: int, n: int)
    requires
        s.wf(),
        s1.wf(),
        0 <= xo < 64,
        0 <= yo < 32,
        0 <= n <= 16,
        s1.memory == s.memory,
        s1.index == s.index,
        s1.video == draw_video(s, xo, yo, n),
    ensures
        draw_video(s1, xo, yo, n) =~= s.video,
        draw_collision(s1, xo, yo, n) == (exists|idx: int|
            0 <= idx < 2048 && draw_covers(xo, yo, n, idx) && draw_bit(s, xo, yo, idx)
                && !s.video[idx]),
{
    assert forall|idx: int| 0 <= idx < 2048 implies draw_video(s1, xo, yo, n)[idx] == s.video[idx]
        by {
        assert(draw_bit(s1, xo, yo, idx) == draw_bit(s, xo, yo, idx));
    }
    assert forall|idx: int| 0 <= idx < 2048 implies draw_hit(s1, xo, yo, n, idx) == (draw_covers(
        xo,
        yo,
        n,
        idx,
    ) && draw_bit(s, xo, yo, idx) && !s.video[idx]) by {
        assert(draw_bit(s1, xo, yo, idx) == draw_bit(s, xo, yo, idx));
    }
    if draw_collision(s1, xo, yo, n) {
        let idx = choose|idx: int| 0 <= idx < 2048 && draw_hit(s1, xo, yo, n, idx);
        assert(draw_covers(xo, yo, n, idx) && draw_bit(s, xo, yo, idx) && !s.video[idx]);
    }
    if exists|idx: int|
        0 <= idx < 2048 && draw_covers(xo, yo, n, idx) && draw_bit(s, xo, yo, idx)
            && !s.video[idx] {
        let idx = choose|idx: int|
            0 <= idx < 2048 && draw_covers(xo, yo, n, idx) && draw_bit(s, xo, yo, idx)
                && !s.video[idx];
        assert(draw_hit(s1, xo, yo, n, idx));
    }
}

/// Sprites clip: a draw changes no cell outside the rectangle that starts at
/// the origin and runs at most 8 columns right and n rows down. Columns past
/// 63 and rows past 31 are dropped, never wrapped to the next row or to the
/// top.
pub proof fn lemma_draw_clips_outside(s: State, xo: int, yo: int, n: int, idx: int)
    requires
        s.wf(),
        0 <= xo < 64,
        0 <= yo < 32,
        0 <= n <= 16,
        0 <= idx < 2048,
        !(yo <= idx / 64 < yo + n && xo <= idx % 64 < xo + 8),
    ensures
        draw_video(s, xo, yo, n)[idx] == s.video[idx],
{
}

/// The delay (or sound) timer after `k` 60 Hz ticks: it counts down one per
/// tick and stops at zero, never wrapping below.
pub open spec fn tick_n(t: u8, k: nat) -> u8
    decreases k,
{
    if k == 0 {
        t
    } else {
        tick(tick_n(t, (k - 1) as nat))
    }
}

/// A timer started at `t` reads max(t - k, 0) after `k` ticks; in particular
/// it reads 0 after `t` or more ticks and never goes below zero.
pub proof fn lemma_timer_counts_down(t: u8, k: nat)
    ensures
        tick_n(t, k) as int == (if k <= t { t - k } else { 0int }),
    decreases k,
{
    if k > 0 {
        lemma_timer_counts_down(t, (k - 1) as nat);
    }
}

/// The `Fx33` decomposition: memory at I, I+1, I+2 holds the hundreds, tens
/// and ones digits of Vx, and no other byte changes.
pub proof fn lemma_bcd_digits(s: State, w: u16, rb: u8)
    requires
        s.wf(),
        nib_i(w) == 0xF,
        imm_nn(w) == 0x33,
        s.index + 2 <= 4095,
    ensures
        exec_step(s, w, rb) is Ok,
        exec_step(s, w, rb)->Ok_0.memory[s.index as int] == s.regs[nib_x(w)] / 100,
        exec_step(s, w, rb)->Ok_0.memory[s.index + 1] == (s.regs[nib_x(w)] / 10) % 10,
        exec_step(s, w, rb)->Ok_0.memory[s.index + 2] == s.regs[nib_x(w)] % 10,
        forall|j: int|
            0 <= j < 4096 && !(s.index <= j <= s.index + 2) ==> exec_step(s, w, rb)->Ok_0.memory[j]
                == s.memory[j],
{
}

/// The `Fx55`/`Fx65` round trip: storing V0..Vx at I and loading V0..Vx back
/// from the same address reproduces every register exactly, and I advances by
/// x + 1 in both directions.
pub proof fn lemma_store_load_round_trip(s: State, w_store: u16, w_load: u16, rb: u8)
    requires
        s.wf(),
        nib_i(w_store) == 0xF,
        imm_nn(w_store) == 0x55,
        nib_i(w_load) == 0xF,
        imm_nn(w_load) == 0x65,
        nib_x(w_load) == nib_x(w_store),
        s.index + nib_x(w_store) <= 4095,
    ensures
        exec_step(s, w_store, rb) is Ok,
        ({
            let x = nib_x(w_store);
            let s1 = exec_step(s, w_store, rb)->Ok_0;
            // the program points I back at the block, as with Annn
            let s1r = State { index: s.index, ..s1 };
            let s2 = exec_step(s1r, w_load, rb)->Ok_0;
            &&& s1.index == s.index + x + 1
            &&& s1.regs == s.regs
            &&& exec_step(s1r, w_load, rb) is Ok
            &&& s2.index == s.index + x + 1
            &&& s2.regs =~= s.regs
        }),
{
    let x = nib_x(w_store);
    let s1 = exec_step(s, w_store, rb)->Ok_0;
    let s1r = State { index: s.index, ..s1 };
    let s2 = exec_step(s1r, w_load, rb)->Ok_0;
    assert(s.index + (x + 1) <= 0xFFFF);
    assert forall|j: int| 0 <= j < 16 implies s2.regs[j] == s.regs[j] by {
        if j <= x {
            assert(s1.memory[s.index + j] == s.regs[j]);
        }
    }
}

/// `Fx0A` with a pressed key reads the lowest-index pressed key into Vx; with
/// none pressed it rewinds the program counter one word and changes nothing
/// else, so the instruction re-executes while timers keep running.
pub proof fn lemma_wait_key(s: State, w: u16, rb: u8)
    requires
        s.wf(),
        nib_i(w) == 0xF,
        imm_nn(w) == 0x0A,
    ensures
        exec_step(s, w, rb) is Ok,
        (exists|k: int| 0 <= k < 16 && s.keys[k]) ==> ({
            let s2 = exec_step(s, w, rb)->Ok_0;
            &&& s2.regs[nib_x(w)] as int == lowest_key(s.keys)
            &&& s.keys[lowest_key(s.keys)]
            &&& forall|k: int| 0 <= k < lowest_key(s.keys) ==> !s.keys[k]
            &&& s2.pc == s.pc
        }),
        !(exists|k: int| 0 <= k < 16 && s.keys[k]) ==> exec_step(s, w, rb)->Ok_0 == (State {
            pc: s.pc.wrapping_sub(2),
            ..s
        }),
{
    lemma_lowest_key_properties(s.keys, 0);
}

/// The lowest-pressed-key scan from `i` finds a pressed key exactly when one
/// is pressed at or above `i`, finds the lowest such, and reports 16 when
/// none is pressed.
proof fn lemma_lowest_key_properties(keys: Seq<bool>, i: int)
    requires
        keys.len() == 16,
        0 <= i <= 16,
    ensures
        i <= crate::model::lowest_key_from(keys, i) <= 16,
        crate::model::lowest_key_from(keys, i) < 16 ==> keys[crate::model::lowest_key_from(
            keys,
            i,
        )],
        forall|k: int| i <= k < crate::model::lowest_key_from(keys, i) ==> !keys[k],
        crate::model::lowest_key_from(keys, i) == 16 ==> forall|k: int| i <= k < 16 ==> !keys[k],
    decreases 16 - i,
{
    if i < 16 && !keys[i] {
        lemma_lowest_key_properties(keys, i + 1);
    }
}

} // verus!
