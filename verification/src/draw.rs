//! The framebuffer and the drawing instruction: sprites are XORed onto
//! the 64x32 1-bit grid, coordinates wrap modulo the screen size, and the
//! flag register reports whether any previously lit pixel was turned off.

use vstd::prelude::*;

use crate::machine::pc_add;
use crate::machine::pc_step;
use crate::machine::same_index;
use crate::machine::same_keys;
use crate::machine::same_mem;
use crate::machine::same_stack;
use crate::machine::same_timers;
use crate::machine::Chip8;

verus! {

/// Row-major framebuffer index of the pixel at wrapped coordinates
/// `(x mod 64, y mod 32)`.
pub open spec fn pix(x: int, y: int) -> int {
    (y % 32) * 64 + (x % 64)
}

/// The framebuffer cell that sprite row `r`, column `c` lands on when the
/// sprite's origin is `(vx, vy)`.
pub open spec fn cell(vx: int, vy: int, r: int, c: int) -> int {
    pix(vx + c, vy + r)
}

/// The sprite byte for row `r` of a sprite at memory address `i`,
/// wrapping modulo the memory size.
pub open spec fn row_byte(mem: Seq<u8>, i: int, r: int) -> u8 {
    mem[(i + r) % 4096]
}

/// The place value of bit `c` of a sprite byte, counting from the most
/// significant bit.
pub open spec fn bit_weight(c: int) -> int {
    if c == 0 {
        128
    } else if c == 1 {
        64
    } else if c == 2 {
        32
    } else if c == 3 {
        16
    } else if c == 4 {
        8
    } else if c == 5 {
        4
    } else if c == 6 {
        2
    } else {
        1
    }
}

/// Bit `c` of a sprite byte (most significant first), as 0 or 1.
pub open spec fn sprite_bit(b: u8, c: int) -> u8 {
    (((b as int) / bit_weight(c)) % 2) as u8
}

/// Exclusive or of two one-bit pixel values.
pub open spec fn xor_bit(a: u8, b: u8) -> u8 {
    if a == b {
        0
    } else {
        1
    }
}

/// Whether some sprite position among the full rows before `rows`, or the
/// first `cols` columns of row `rows`, lands on framebuffer cell `k`.
pub open spec fn covered_partial(vx: int, vy: int, rows: int, cols: int, k: int) -> bool {
    exists|r: int, c: int|
        0 <= r && 0 <= c < 8 && (r < rows || (r == rows && c < cols)) && cell(vx, vy, r, c) == k
}

/// The framebuffer `g` is `g0` with the sprite positions among the full
/// rows before `rows`, plus the first `cols` columns of row `rows`, XORed
/// in, and every other cell untouched.
pub open spec fn drw_applied_partial(
    g0: Seq<u8>,
    g: Seq<u8>,
    mem: Seq<u8>,
    i: int,
    vx: int,
    vy: int,
    rows: int,
    cols: int,
) -> bool {
    &&& g.len() == g0.len()
    &&& forall|r: int, c: int|
        0 <= r && 0 <= c < 8 && (r < rows || (r == rows && c < cols)) ==> g[cell(vx, vy, r, c)]
            == xor_bit(g0[cell(vx, vy, r, c)], sprite_bit(row_byte(mem, i, r), c))
    &&& forall|k: int|
        0 <= k < g0.len() && !covered_partial(vx, vy, rows, cols, k) ==> g[k] == g0[k]
}

/// Some sprite position among the same prefix lands on a lit pixel of
/// `g0` with its sprite bit set: the XOR turns that pixel off.
pub open spec fn drw_collision_partial(
    g0: Seq<u8>,
    mem: Seq<u8>,
    i: int,
    vx: int,
    vy: int,
    rows: int,
    cols: int,
) -> bool {
    exists|r: int, c: int|
        0 <= r && 0 <= c < 8 && (r < rows || (r == rows && c < cols)) && g0[cell(vx, vy, r, c)]
            == 1 && sprite_bit(row_byte(mem, i, r), c) == 1
}

/// The framebuffer `g` is `g0` with the whole `n`-row sprite at memory
/// address `i` XORed in at origin `(vx, vy)`.
pub open spec fn drw_applied(
    g0: Seq<u8>,
    g: Seq<u8>,
    mem: Seq<u8>,
    i: int,
    vx: int,
    vy: int,
    n: int,
) -> bool {
    drw_applied_partial(g0, g, mem, i, vx, vy, n, 0)
}

/// Drawing the whole `n`-row sprite over `g0` turns some previously lit
/// pixel off.
pub open spec fn drw_collision(g0: Seq<u8>, mem: Seq<u8>, i: int, vx: int, vy: int, n: int) -> bool {
    drw_collision_partial(g0, mem, i, vx, vy, n, 0)
}

/// The `n`-row sprite at memory address `i` has at least one set bit.
pub open spec fn sprite_nonempty(mem: Seq<u8>, i: int, n: int) -> bool {
    exists|r: int, c: int|
        0 <= r < n && 0 <= c < 8 && sprite_bit(row_byte(mem, i, r), c) == 1
}

/// The full effect of the drawing instruction on the machine: the
/// framebuffer takes the sprite XOR, VF is overwritten with the collision
/// outcome, the program counter advances by one instruction, and nothing
/// else moves.
pub open spec fn drw_step(pre: Chip8, post: Chip8, x: int, y: int, n: int) -> bool {
    let vx = pre.v_register@[x] as int;
    let vy = pre.v_register@[y] as int;
    let i = pre.I as int;
    &&& same_mem(pre, post)
    &&& same_index(pre, post)
    &&& same_timers(pre, post)
    &&& same_stack(pre, post)
    &&& same_keys(pre, post)
    &&& drw_applied(pre.gfx@, post.gfx@, pre.memory@, i, vx, vy, n)
    &&& post.v_register@ == pre.v_register@.update(
        15,
        if drw_collision(pre.gfx@, pre.memory@, i, vx, vy, n) {
            1u8
        } else {
            0u8
        },
    )
    &&& post.pc == pc_add(pre.pc as int, 2)
}

/// Row-major framebuffer index for the pixel at `(x, y)`, wrapping
/// coordinates modulo the screen size.
pub fn xy_coord(x: u32, y: u32) -> (idx: u32)
    ensures
        idx == pix(x as int, y as int),
        idx < 2048,
{
    (y % 32) * 64 + (x % 64)
}

/// Bit `c` of a sprite byte, most significant bit first.
fn nth_sprite_bit(b: u8, c: usize) -> (r: u8)
    requires
        c < 8,
    ensures
        r == sprite_bit(b, c as int),
        r <= 1,
{
    if c == 0 {
        (b / 128) % 2
    } else if c == 1 {
        (b / 64) % 2
    } else if c == 2 {
        (b / 32) % 2
    } else if c == 3 {
        (b / 16) % 2
    } else if c == 4 {
        (b / 8) % 2
    } else if c == 5 {
        (b / 4) % 2
    } else if c == 6 {
        (b / 2) % 2
    } else {
        b % 2
    }
}

/// Two distinct sprite positions of one draw never land on the same
/// framebuffer cell: the eight columns stay within one wrap of the screen
/// width and the at-most-fifteen rows within one wrap of its height.
proof fn lemma_cell_injective(vx: int, vy: int, r1: int, c1: int, r2: int, c2: int)
    requires
        0 <= vx,
        0 <= vy,
        0 <= r1 < 16,
        0 <= c1 < 8,
        0 <= r2 < 16,
        0 <= c2 < 8,
        cell(vx, vy, r1, c1) == cell(vx, vy, r2, c2),
    ensures
        r1 == r2,
        c1 == c2,
{
    let px1 = (vx + c1) % 64;
    let py1 = (vy + r1) % 32;
    let px2 = (vx + c2) % 64;
    let py2 = (vy + r2) % 32;
    assert(0 <= px1 < 64 && 0 <= px2 < 64 && 0 <= py1 < 32 && 0 <= py2 < 32);
    assert(py1 * 64 + px1 == py2 * 64 + px2);
    assert(py1 == py2 && px1 == px2);
    vstd::arithmetic::div_mod::lemma_fundamental_div_mod(vx + c1, 64);
    vstd::arithmetic::div_mod::lemma_fundamental_div_mod(vx + c2, 64);
    let q1 = (vx + c1) / 64;
    let q2 = (vx + c2) / 64;
    assert(c1 - c2 == 64 * (q1 - q2));
    assert(q1 == q2);
    vstd::arithmetic::div_mod::lemma_fundamental_div_mod(vy + r1, 32);
    vstd::arithmetic::div_mod::lemma_fundamental_div_mod(vy + r2, 32);
    let s1 = (vy + r1) / 32;
    let s2 = (vy + r2) / 32;
    assert(r1 - r2 == 32 * (s1 - s2));
    assert(s1 == s2);
}

/// Stepping past the last column of a row covers exactly the same sprite
/// positions as standing at the start of the next row.
proof fn lemma_roll_row(vx: int, vy: int, r: int)
    ensures
        forall|k: int|
            covered_partial(vx, vy, r, 8, k) <==> covered_partial(vx, vy, r + 1, 0, k),
{
    assert forall|k: int| covered_partial(vx, vy, r, 8, k) implies covered_partial(
        vx,
        vy,
        r + 1,
        0,
        k,
    ) by {
        let (rr, cc): (int, int) = choose|rr: int, cc: int|
            0 <= rr && 0 <= cc < 8 && (rr < r || (rr == r && cc < 8)) && cell(vx, vy, rr, cc) == k;
        assert(0 <= rr && 0 <= cc < 8 && rr < r + 1 && cell(vx, vy, rr, cc) == k);
    }
    assert forall|k: int| covered_partial(vx, vy, r + 1, 0, k) implies covered_partial(
        vx,
        vy,
        r,
        8,
        k,
    ) by {
        let (rr, cc): (int, int) = choose|rr: int, cc: int|
            0 <= rr && 0 <= cc < 8 && (rr < r + 1 || (rr == r + 1 && cc < 0)) && cell(vx, vy, rr, cc)
                == k;
        assert(0 <= rr && 0 <= cc < 8 && (rr < r || (rr == r && cc < 8)) && cell(vx, vy, rr, cc)
            == k);
    }
}

impl Chip8 {
    /// The drawing instruction: XOR the `n`-row sprite at the index
    /// register onto the framebuffer at the coordinates in `Vx` and `Vy`,
    /// and overwrite VF with the collision outcome.
    #[verifier::rlimit(100)]
    pub(crate) fn op_drw(&mut self, x: usize, y: usize, n: usize)
        requires
            old(self).wf(),
            x < 16,
            y < 16,
            n <= 15,
        ensures
            final(self).wf(),
            drw_step(*old(self), *final(self), x as int, y as int, n as int),
    {
        let ghost g0 = old(self).gfx@;
        let ghost mem0 = old(self).memory@;
        let vx = self.v_register[x] as usize;
        let vy = self.v_register[y] as usize;
        let i0 = self.I as usize;
        let mut collision: bool = false;
        let mut r: usize = 0;
        while r < n
            invariant
                old(self).wf(),
                x < 16,
                y < 16,
                n <= 15,
                r <= n,
                vx == old(self).v_register@[x as int] as int,
                vy == old(self).v_register@[y as int] as int,
                i0 == old(self).I as int,
                self.memory@ == mem0,
                mem0 == old(self).memory@,
                self.v_register@ == old(self).v_register@,
                self.I == old(self).I,
                self.pc == old(self).pc,
                self.delay_timer == old(self).delay_timer,
                self.sound_timer == old(self).sound_timer,
                self.stack@ == old(self).stack@,
                self.sp == old(self).sp,
                self.key@ == old(self).key@,
                self.gfx@.len() == 2048,
                g0 == old(self).gfx@,
                forall|k: int| 0 <= k < 2048 ==> self.gfx@[k] <= 1,
                drw_applied_partial(g0, self.gfx@, mem0, i0 as int, vx as int, vy as int, r as int, 0),
                collision == drw_collision_partial(
                    g0,
                    mem0,
                    i0 as int,
                    vx as int,
                    vy as int,
                    r as int,
                    0,
                ),
            decreases n - r,
        {
            let sprite = self.memory[(i0 + r) % 4096];
            assert(sprite == row_byte(mem0, i0 as int, r as int));
            let mut c: usize = 0;
            while c < 8
                invariant
                    old(self).wf(),
                    x < 16,
                    y < 16,
                    n <= 15,
                    r < n,
                    c <= 8,
                    vx == old(self).v_register@[x as int] as int,
                    vy == old(self).v_register@[y as int] as int,
                    i0 == old(self).I as int,
                    self.memory@ == mem0,
                    mem0 == old(self).memory@,
                    self.v_register@ == old(self).v_register@,
                    self.I == old(self).I,
                    self.pc == old(self).pc,
                    self.delay_timer == old(self).delay_timer,
                    self.sound_timer == old(self).sound_timer,
                    self.stack@ == old(self).stack@,
                    self.sp == old(self).sp,
                    self.key@ == old(self).key@,
                    self.gfx@.len() == 2048,
                    g0 == old(self).gfx@,
                    sprite == row_byte(mem0, i0 as int, r as int),
                    forall|k: int| 0 <= k < 2048 ==> self.gfx@[k] <= 1,
                    drw_applied_partial(
                        g0,
                        self.gfx@,
                        mem0,
                        i0 as int,
                        vx as int,
                        vy as int,
                        r as int,
                        c as int,
                    ),
                    collision == drw_collision_partial(
                        g0,
                        mem0,
                        i0 as int,
                        vx as int,
                        vy as int,
                        r as int,
                        c as int,
                    ),
                decreases 8 - c,
            {
                let bit = nth_sprite_bit(sprite, c);
                let idx = xy_coord((vx + c) as u32, (vy + r) as u32) as usize;
                proof {
                    assert(idx == cell(vx as int, vy as int, r as int, c as int));
                    assert(!covered_partial(vx as int, vy as int, r as int, c as int, idx as int))
                        by {
                        if covered_partial(vx as int, vy as int, r as int, c as int, idx as int) {
                            let (rr, cc): (int, int) = choose|rr: int, cc: int|
                                0 <= rr && 0 <= cc < 8 && (rr < r || (rr == r && cc < c)) && cell(
                                    vx as int,
                                    vy as int,
                                    rr,
                                    cc,
                                ) == idx;
                            lemma_cell_injective(vx as int, vy as int, rr, cc, r as int, c as int);
                        }
                    }
                    assert(self.gfx@[idx as int] == g0[idx as int]);
                }
                let oldp = self.gfx[idx];
                if oldp == 1 && bit == 1 {
                    collision = true;
                }
                let newp: u8 = if oldp == bit {
                    0
                } else {
                    1
                };
                let ghost gfx_before = self.gfx@;
                self.gfx.set(idx, newp);
                proof {
                    let vxi = vx as int;
                    let vyi = vy as int;
                    let ri = r as int;
                    let ci = c as int;
                    let ii = i0 as int;
                    assert(newp == xor_bit(g0[cell(vxi, vyi, ri, ci)], sprite_bit(
                        row_byte(mem0, ii, ri),
                        ci,
                    )));
                    assert forall|rr: int, cc: int|
                        0 <= rr && 0 <= cc < 8 && (rr < ri || (rr == ri && cc < ci + 1))
                            implies self.gfx@[cell(vxi, vyi, rr, cc)] == xor_bit(
                        g0[cell(vxi, vyi, rr, cc)],
                        sprite_bit(row_byte(mem0, ii, rr), cc),
                    ) by {
                        if rr == ri && cc == ci {
                        } else {
                            if cell(vxi, vyi, rr, cc) == idx {
                                lemma_cell_injective(vxi, vyi, rr, cc, ri, ci);
                            }
                            assert(cell(vxi, vyi, rr, cc) != idx);
                            assert(self.gfx@[cell(vxi, vyi, rr, cc)] == gfx_before[cell(
                                vxi,
                                vyi,
                                rr,
                                cc,
                            )]);
                        }
                    }
                    assert forall|k: int|
                        0 <= k < 2048 && !covered_partial(vxi, vyi, ri, ci + 1, k)
                            implies self.gfx@[k] == g0[k] by {
                        assert(k != idx) by {
                            assert(cell(vxi, vyi, ri, ci) == idx);
                        }
                        assert(!covered_partial(vxi, vyi, ri, ci, k)) by {
                            if covered_partial(vxi, vyi, ri, ci, k) {
                                let (rr, cc): (int, int) = choose|rr: int, cc: int|
                                    0 <= rr && 0 <= cc < 8 && (rr < ri || (rr == ri && cc < ci))
                                        && cell(vxi, vyi, rr, cc) == k;
                                assert(0 <= rr && 0 <= cc < 8 && (rr < ri || (rr == ri && cc < ci
                                    + 1)) && cell(vxi, vyi, rr, cc) == k);
                            }
                        }
                    }
                    assert(drw_applied_partial(g0, self.gfx@, mem0, ii, vxi, vyi, ri, ci + 1));
                    // collision bookkeeping
                    if oldp == 1 && bit == 1 {
                        assert(g0[cell(vxi, vyi, ri, ci)] == 1 && sprite_bit(
                            row_byte(mem0, ii, ri),
                            ci,
                        ) == 1);
                        assert(drw_collision_partial(g0, mem0, ii, vxi, vyi, ri, ci + 1));
                    } else {
                        if drw_collision_partial(g0, mem0, ii, vxi, vyi, ri, ci + 1) {
                            let (rr, cc): (int, int) = choose|rr: int, cc: int|
                                0 <= rr && 0 <= cc < 8 && (rr < ri || (rr == ri && cc < ci + 1))
                                    && g0[cell(vxi, vyi, rr, cc)] == 1 && sprite_bit(
                                    row_byte(mem0, ii, rr),
                                    cc,
                                ) == 1;
                            if rr == ri && cc == ci {
                                assert(oldp == 1 && bit == 1);
                            } else {
                                assert(drw_collision_partial(g0, mem0, ii, vxi, vyi, ri, ci));
                            }
                        }
                        if drw_collision_partial(g0, mem0, ii, vxi, vyi, ri, ci) {
                            let (rr, cc): (int, int) = choose|rr: int, cc: int|
                                0 <= rr && 0 <= cc < 8 && (rr < ri || (rr == ri && cc < ci)) && g0[
                                    cell(vxi, vyi, rr, cc)] == 1 && sprite_bit(
                                    row_byte(mem0, ii, rr),
                                    cc,
                                ) == 1;
                            assert(drw_collision_partial(g0, mem0, ii, vxi, vyi, ri, ci + 1));
                        }
                    }
                }
                c = c + 1;
            }
            proof {
                lemma_roll_row(vx as int, vy as int, r as int);
                assert forall|k: int|
                    0 <= k < 2048 && !covered_partial(
                        vx as int,
                        vy as int,
                        r as int + 1,
                        0,
                        k,
                    ) implies self.gfx@[k] == g0[k] by {
                    assert(!covered_partial(vx as int, vy as int, r as int, 8, k));
                }
                assert(drw_applied_partial(
                    g0,
                    self.gfx@,
                    mem0,
                    i0 as int,
                    vx as int,
                    vy as int,
                    r as int + 1,
                    0,
                ));
                if drw_collision_partial(g0, mem0, i0 as int, vx as int, vy as int, r as int, 8) {
                    let (rr, cc): (int, int) = choose|rr: int, cc: int|
                        0 <= rr && 0 <= cc < 8 && (rr < r as int || (rr == r as int && cc < 8))
                            && g0[cell(vx as int, vy as int, rr, cc)] == 1 && sprite_bit(
                            row_byte(mem0, i0 as int, rr),
                            cc,
                        ) == 1;
                    assert(rr < r as int + 1);
                    assert(drw_collision_partial(
                        g0,
                        mem0,
                        i0 as int,
                        vx as int,
                        vy as int,
                        r as int + 1,
                        0,
                    ));
                }
                if drw_collision_partial(g0, mem0, i0 as int, vx as int, vy as int, r as int + 1, 0) {
                    let (rr, cc): (int, int) = choose|rr: int, cc: int|
                        0 <= rr && 0 <= cc < 8 && (rr < r as int + 1 || (rr == r as int + 1 && cc
                            < 0)) && g0[cell(vx as int, vy as int, rr, cc)] == 1 && sprite_bit(
                            row_byte(mem0, i0 as int, rr),
                            cc,
                        ) == 1;
                    assert(rr < r as int || (rr == r as int && cc < 8));
                    assert(drw_collision_partial(g0, mem0, i0 as int, vx as int, vy as int, r as int, 8));
                }
            }
            r = r + 1;
        }
        self.v_register.set(15, if collision {
            1
        } else {
            0
        });
        self.pc = pc_step(self.pc, 2);
    }
}

} // verus!
