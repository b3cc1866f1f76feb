//! Laws that relate several steps of the machine: immediate adds
//! accumulate without a flag side effect, a CALL/RET pair is a round
//! trip, and drawing a sprite twice at one origin restores the
//! framebuffer.

use vstd::prelude::*;

use crate::draw::cell;
use crate::draw::covered_partial;
use crate::draw::drw_applied;
use crate::draw::drw_collision;
use crate::draw::row_byte;
use crate::draw::sprite_bit;
use crate::draw::sprite_nonempty;
use crate::draw::xor_bit;
use crate::exec::any_pressed;
use crate::exec::fault_of;
use crate::exec::op_nnn;
use crate::exec::op_x;
use crate::exec::step_ok;
use crate::exec::wrap_add;
use crate::machine::pc_add;
use crate::machine::Chip8;
use crate::opcode::Opcode;

verus! {

/// Two immediate adds into the same register accumulate modulo 256, and
/// neither sets nor clears the carry register: the 7xkk instruction has
/// no flag side effect, so VF moves only when it is itself the
/// destination register, which this law leaves out.
pub proof fn lemma_add_immediate_twice(s0: Chip8, s1: Chip8, s2: Chip8, b0: u8, k1: u8, k2: u8)
    requires
        s0.wf(),
        op_x(b0) != 15,
        step_ok(s0, s1, Opcode::ADD_VB, b0, k1),
        step_ok(s1, s2, Opcode::ADD_VB, b0, k2),
    ensures
        s2.v_register@[op_x(b0)] == (s0.v_register@[op_x(b0)] + k1 + k2) % 256,
        s2.v_register@[15] == s0.v_register@[15],
{
    let x = op_x(b0);
    let a = s0.v_register@[x] as int;
    assert(s1.v_register@ == s0.v_register@.update(x, wrap_add(s0.v_register@[x], k1)));
    assert(s1.v_register@[x] == (a + k1) % 256);
    assert(s2.v_register@ == s1.v_register@.update(x, wrap_add(s1.v_register@[x], k2)));
    assert(s2.v_register@[x] == ((a + k1) % 256 + k2) % 256);
    vstd::arithmetic::div_mod::lemma_small_mod(k2 as nat, 256);
    vstd::arithmetic::div_mod::lemma_add_mod_noop(a + k1, k2 as int, 256);
    assert(((a + k1) % 256 + (k2 as int) % 256) % 256 == (a + k1 + k2) % 256);
}

/// CALL pushes the address of the CALL instruction itself; RET pops it
/// and advances past it. One round trip leaves the stack depth, the
/// registers, memory and the framebuffer as they were, and lands the
/// program counter on the instruction after the CALL.
pub proof fn lemma_call_ret_round_trip(
    s0: Chip8,
    s1: Chip8,
    s2: Chip8,
    b0: u8,
    b1: u8,
    rb0: u8,
    rb1: u8,
)
    requires
        s0.wf(),
        s0.sp < 16,
        step_ok(s0, s1, Opcode::CALL, b0, b1),
        step_ok(s1, s2, Opcode::RET, rb0, rb1),
    ensures
        s1.sp == s0.sp + 1,
        s1.stack@[s1.sp as int] == s0.pc,
        s1.pc == op_nnn(b0, b1),
        fault_of(s1, Opcode::RET) is None,
        s2.sp == s0.sp,
        s2.pc == pc_add(s0.pc as int, 2),
        s2.v_register@ == s0.v_register@,
        s2.memory@ == s0.memory@,
        s2.gfx@ == s0.gfx@,
{
    assert(s1.stack@ == s0.stack@.update(s0.sp + 1, s0.pc));
    assert(s1.stack@[s0.sp + 1] == s0.pc);
}

/// The key-wait instruction is a pure poll: while no key is pressed,
/// repeated executions leave the whole machine — registers, program
/// counter, timers and all — exactly as it was, however often they
/// recur.
pub proof fn lemma_key_wait_idempotent(s0: Chip8, s1: Chip8, s2: Chip8, b0: u8, b1: u8)
    requires
        !any_pressed(s0.key@),
        step_ok(s0, s1, Opcode::LD_VK, b0, b1),
        step_ok(s1, s2, Opcode::LD_VK, b0, b1),
    ensures
        s1 == s0,
        s2 == s0,
{
}

/// XOR drawing is an involution: drawing the same `n`-row sprite twice
/// at the same origin restores the framebuffer. Against a blank
/// framebuffer the first draw collides with nothing, and the second
/// collides exactly when the sprite has any set bit.
pub proof fn lemma_draw_twice_restores(
    g0: Seq<u8>,
    g1: Seq<u8>,
    g2: Seq<u8>,
    mem: Seq<u8>,
    i: int,
    vx: int,
    vy: int,
    n: int,
)
    requires
        g0.len() == 2048,
        forall|k: int| 0 <= k < 2048 ==> g0[k] <= 1,
        0 <= vx,
        0 <= vy,
        0 <= n <= 15,
        drw_applied(g0, g1, mem, i, vx, vy, n),
        drw_applied(g1, g2, mem, i, vx, vy, n),
    ensures
        g2 =~= g0,
        (forall|k: int| 0 <= k < 2048 ==> g0[k] == 0) ==> !drw_collision(g0, mem, i, vx, vy, n),
        (forall|k: int| 0 <= k < 2048 ==> g0[k] == 0) ==> (drw_collision(g1, mem, i, vx, vy, n)
            <==> sprite_nonempty(mem, i, n)),
{
    assert forall|k: int| 0 <= k < 2048 implies g2[k] == g0[k] by {
        if covered_partial(vx, vy, n, 0, k) {
            let (r, c): (int, int) = choose|r: int, c: int|
                0 <= r && 0 <= c < 8 && (r < n || (r == n && c < 0)) && cell(vx, vy, r, c) == k;
            let b = sprite_bit(row_byte(mem, i, r), c);
            assert(b <= 1);
            assert(g1[k] == xor_bit(g0[k], b));
            assert(g2[k] == xor_bit(g1[k], b));
        } else {
            assert(g1[k] == g0[k]);
            assert(g2[k] == g1[k]);
        }
    }
    if forall|k: int| 0 <= k < 2048 ==> g0[k] == 0 {
        if drw_collision(g0, mem, i, vx, vy, n) {
            let (r, c): (int, int) = choose|r: int, c: int|
                0 <= r && 0 <= c < 8 && (r < n || (r == n && c < 0)) && g0[cell(vx, vy, r, c)] == 1
                    && sprite_bit(row_byte(mem, i, r), c) == 1;
            assert(0 <= cell(vx, vy, r, c) < 2048);
            assert(false);
        }
        if drw_collision(g1, mem, i, vx, vy, n) {
            let (r, c): (int, int) = choose|r: int, c: int|
                0 <= r && 0 <= c < 8 && (r < n || (r == n && c < 0)) && g1[cell(vx, vy, r, c)] == 1
                    && sprite_bit(row_byte(mem, i, r), c) == 1;
            assert(sprite_nonempty(mem, i, n));
        }
        if sprite_nonempty(mem, i, n) {
            let (r, c): (int, int) = choose|r: int, c: int|
                0 <= r < n && 0 <= c < 8 && sprite_bit(row_byte(mem, i, r), c) == 1;
            let k = cell(vx, vy, r, c);
            assert(0 <= k < 2048);
            assert(covered_partial(vx, vy, n, 0, k)) by {
                assert(0 <= r && 0 <= c < 8 && (r < n || (r == n && c < 0)) && cell(vx, vy, r, c)
                    == k);
            }
            assert(g1[k] == xor_bit(g0[k], sprite_bit(row_byte(mem, i, r), c)));
            assert(g1[k] == 1);
            assert(drw_collision(g1, mem, i, vx, vy, n)) by {
                assert(0 <= r && 0 <= c < 8 && (r < n || (r == n && c < 0)) && g1[cell(
                    vx,
                    vy,
                    r,
                    c,
                )] == 1 && sprite_bit(row_byte(mem, i, r), c) == 1);
            }
        }
    }
}

} // verus!
