//! The execute step: one decoded instruction applied to the machine
//! state. Every instruction's whole effect — register writes, the flag
//! register, the program counter, memory and stack movement — is stated
//! in `step_ok`, and the two stack faults in `fault_of`.

use vstd::prelude::*;

use crate::draw::drw_step;
use crate::machine::frame_pc;
use crate::machine::frame_regs_pc;
use crate::machine::pc_add;
use crate::machine::pc_step;
use crate::machine::same_gfx;
use crate::machine::same_index;
use crate::machine::same_keys;
use crate::machine::same_mem;
use crate::machine::same_regs;
use crate::machine::same_stack;
use crate::machine::same_timers;
use crate::machine::zero_bytes;
use crate::machine::Chip8;
use crate::machine::Fault;
use crate::opcode::Opcode;

verus! {

/// The register index in the low nibble of the first instruction byte.
pub open spec fn op_x(b0: u8) -> int {
    (b0 % 16) as int
}

/// The register index in the high nibble of the second instruction byte.
pub open spec fn op_y(b1: u8) -> int {
    (b1 / 16) as int
}

/// The 12-bit address held in the low three nibbles of the instruction.
pub open spec fn op_nnn(b0: u8, b1: u8) -> int {
    (b0 % 16) * 256 + b1
}

/// The 4-bit count in the low nibble of the second instruction byte.
pub open spec fn op_n(b1: u8) -> int {
    (b1 % 16) as int
}

/// Byte addition, wrapping modulo 256.
pub open spec fn wrap_add(a: u8, b: u8) -> u8 {
    ((a + b) % 256) as u8
}

/// Byte subtraction, wrapping modulo 256.
pub open spec fn wrap_sub(a: u8, b: u8) -> u8 {
    (if a >= b {
        a - b
    } else {
        a + 256 - b
    }) as u8
}

/// The carry flag of a byte addition: 1 exactly when the true sum
/// exceeds 255.
pub open spec fn carry_flag(a: u8, b: u8) -> u8 {
    if a + b > 255 {
        1u8
    } else {
        0u8
    }
}

/// The no-borrow flag of a byte subtraction `a - b`: 1 exactly when
/// `a >= b` before the operation.
pub open spec fn no_borrow_flag(a: u8, b: u8) -> u8 {
    if a >= b {
        1u8
    } else {
        0u8
    }
}

/// The largest pressed key index among keys `0..=j`, or -1 if none of
/// them is pressed.
pub open spec fn highest_pressed(keys: Seq<bool>, j: int) -> int
    decreases j + 1,
{
    if j < 0 {
        -1
    } else if keys[j] {
        j
    } else {
        highest_pressed(keys, j - 1)
    }
}

/// Whether any of the 16 keys is pressed.
pub open spec fn any_pressed(keys: Seq<bool>) -> bool {
    highest_pressed(keys, 15) >= 0
}

/// Memory after the block store: registers `V0..=Vx` written to the
/// consecutive addresses starting at `i`, each wrapping modulo the
/// memory size.
pub open spec fn store_regs(mem: Seq<u8>, regs: Seq<u8>, i: int, x: int) -> Seq<u8>
    decreases x,
{
    if x <= 0 {
        mem.update(i % 4096, regs[0])
    } else {
        store_regs(mem, regs, i, x - 1).update((i + x) % 4096, regs[x])
    }
}

/// Registers after the block load: `V0..=Vx` filled from the consecutive
/// addresses starting at `i`, each wrapping modulo the memory size.
pub open spec fn load_regs(regs: Seq<u8>, mem: Seq<u8>, i: int, x: int) -> Seq<u8>
    decreases x,
{
    if x <= 0 {
        regs.update(0, mem[i % 4096])
    } else {
        load_regs(regs, mem, i, x - 1).update(x, mem[(i + x) % 4096])
    }
}

/// Memory after the binary-coded-decimal store of `v` at `i`: hundreds,
/// tens, ones at three consecutive addresses, wrapping modulo the memory
/// size.
pub open spec fn bcd_mem(mem: Seq<u8>, i: int, v: u8) -> Seq<u8> {
    mem.update(i % 4096, (v / 100) as u8).update((i + 1) % 4096, ((v % 100) / 10) as u8).update(
        (i + 2) % 4096,
        (v % 10) as u8,
    )
}

/// The fault a step surfaces instead of executing, if any: CALL on a
/// full call stack, RET on an empty one. Every other instruction always
/// completes.
pub open spec fn fault_of(pre: Chip8, op: Opcode) -> Option<Fault> {
    match op {
        Opcode::CALL => if pre.sp >= 16 {
            Some(Fault::StackOverflow)
        } else {
            None
        },
        Opcode::RET => if pre.sp == 0 {
            Some(Fault::StackUnderflow)
        } else {
            None
        },
        _ => None,
    }
}

/// The whole effect of one fault-free step on the machine: for each
/// instruction kind, what the registers, flag, program counter, memory,
/// stack, timers and framebuffer become, and that everything else stays.
pub open spec fn step_ok(pre: Chip8, post: Chip8, op: Opcode, b0: u8, b1: u8) -> bool {
    let x = op_x(b0);
    let y = op_y(b1);
    let vx = pre.v_register@[x];
    let vy = pre.v_register@[y];
    let pc2 = pc_add(pre.pc as int, 2);
    match op {
        Opcode::CLS => {
            &&& same_mem(pre, post)
            &&& same_index(pre, post)
            &&& same_regs(pre, post)
            &&& same_timers(pre, post)
            &&& same_stack(pre, post)
            &&& same_keys(pre, post)
            &&& post.gfx@.len() == 2048
            &&& forall|k: int| 0 <= k < 2048 ==> post.gfx@[k] == 0
            &&& post.pc == pc2
        },
        Opcode::RET => {
            &&& same_mem(pre, post)
            &&& same_index(pre, post)
            &&& same_regs(pre, post)
            &&& same_gfx(pre, post)
            &&& same_timers(pre, post)
            &&& same_keys(pre, post)
            &&& post.stack@ == pre.stack@
            &&& post.sp == pre.sp - 1
            &&& post.pc == pc_add(pre.stack@[pre.sp as int] as int, 2)
        },
        Opcode::SYS => {
            &&& frame_pc(pre, post)
            &&& post.pc == pc2
        },
        Opcode::JP_A => {
            &&& frame_pc(pre, post)
            &&& post.pc == op_nnn(b0, b1)
        },
        Opcode::CALL => {
            &&& same_mem(pre, post)
            &&& same_index(pre, post)
            &&& same_regs(pre, post)
            &&& same_gfx(pre, post)
            &&& same_timers(pre, post)
            &&& same_keys(pre, post)
            &&& post.sp == pre.sp + 1
            &&& post.stack@ == pre.stack@.update(pre.sp + 1, pre.pc)
            &&& post.pc == op_nnn(b0, b1)
        },
        Opcode::SE_VB => {
            &&& frame_pc(pre, post)
            &&& post.pc == pc_add(pre.pc as int, if vx == b1 { 4int } else { 2int })
        },
        Opcode::SNE_VB => {
            &&& frame_pc(pre, post)
            &&& post.pc == pc_add(pre.pc as int, if vx != b1 { 4int } else { 2int })
        },
        Opcode::SE_VV => {
            &&& frame_pc(pre, post)
            &&& post.pc == pc_add(pre.pc as int, if vx == vy { 4int } else { 2int })
        },
        Opcode::LD_VB => {
            &&& frame_regs_pc(pre, post)
            &&& post.v_register@ == pre.v_register@.update(x, b1)
            &&& post.pc == pc2
        },
        Opcode::ADD_VB => {
            &&& frame_regs_pc(pre, post)
            &&& post.v_register@ == pre.v_register@.update(x, wrap_add(vx, b1))
            &&& post.pc == pc2
        },
        Opcode::LD_VV => {
            &&& frame_regs_pc(pre, post)
            &&& post.v_register@ == pre.v_register@.update(x, vy)
            &&& post.pc == pc2
        },
        Opcode::OR => {
            &&& frame_regs_pc(pre, post)
            &&& post.v_register@ == pre.v_register@.update(x, vx | vy)
            &&& post.pc == pc2
        },
        Opcode::AND => {
            &&& frame_regs_pc(pre, post)
            &&& post.v_register@ == pre.v_register@.update(x, vx & vy)
            &&& post.pc == pc2
        },
        Opcode::XOR => {
            &&& frame_regs_pc(pre, post)
            &&& post.v_register@ == pre.v_register@.update(x, vx ^ vy)
            &&& post.pc == pc2
        },
        Opcode::ADD_VV => {
            &&& frame_regs_pc(pre, post)
            &&& post.v_register@ == pre.v_register@.update(x, wrap_add(vx, vy)).update(
                15,
                carry_flag(vx, vy),
            )
            &&& post.pc == pc2
        },
        Opcode::SUB => {
            &&& frame_regs_pc(pre, post)
            &&& post.v_register@ == pre.v_register@.update(x, wrap_sub(vx, vy)).update(
                15,
                no_borrow_flag(vx, vy),
            )
            &&& post.pc == pc2
        },
        Opcode::SHR => {
            &&& frame_regs_pc(pre, post)
            &&& post.v_register@ == pre.v_register@.update(x, (vx / 2) as u8).update(
                15,
                (vx % 2) as u8,
            )
            &&& post.pc == pc2
        },
        Opcode::SUBN => {
            &&& frame_regs_pc(pre, post)
            &&& post.v_register@ == pre.v_register@.update(x, wrap_sub(vy, vx)).update(
                15,
                no_borrow_flag(vy, vx),
            )
            &&& post.pc == pc2
        },
        Opcode::SHL => {
            &&& frame_regs_pc(pre, post)
            &&& post.v_register@ == pre.v_register@.update(x, ((vx * 2) % 256) as u8).update(
                15,
                (vx / 128) as u8,
            )
            &&& post.pc == pc2
        },
        Opcode::SNE_VV => {
            &&& frame_pc(pre, post)
            &&& post.pc == pc_add(pre.pc as int, if vx != vy { 4int } else { 2int })
        },
        Opcode::LD_IA => {
            &&& same_mem(pre, post)
            &&& same_regs(pre, post)
            &&& same_gfx(pre, post)
            &&& same_timers(pre, post)
            &&& same_stack(pre, post)
            &&& same_keys(pre, post)
            &&& post.I == op_nnn(b0, b1)
            &&& post.pc == pc2
        },
        Opcode::JP_VA => {
            &&& frame_pc(pre, post)
            &&& post.pc == op_nnn(b0, b1) + pre.v_register@[0]
        },
        Opcode::RND => {
            &&& frame_regs_pc(pre, post)
            &&& exists|rb: u8| post.v_register@ == pre.v_register@.update(x, rb & b1)
            &&& b1 == 0 ==> post.v_register@ == pre.v_register@.update(x, 0u8)
            &&& post.pc == pc2
        },
        Opcode::DRW => drw_step(pre, post, x, y, op_n(b1)),
        Opcode::SKP => {
            &&& frame_pc(pre, post)
            &&& post.pc == pc_add(
                pre.pc as int,
                if pre.key@[(vx % 16) as int] { 4int } else { 2int },
            )
        },
        Opcode::SKNP => {
            &&& frame_pc(pre, post)
            &&& post.pc == pc_add(
                pre.pc as int,
                if !pre.key@[(vx % 16) as int] { 4int } else { 2int },
            )
        },
        Opcode::LD_VDT => {
            &&& frame_regs_pc(pre, post)
            &&& post.v_register@ == pre.v_register@.update(x, pre.delay_timer)
            &&& post.pc == pc2
        },
        Opcode::LD_VK => {
            if !any_pressed(pre.key@) {
                post == pre
            } else {
                &&& frame_regs_pc(pre, post)
                &&& post.v_register@ == pre.v_register@.update(
                    x,
                    highest_pressed(pre.key@, 15) as u8,
                )
                &&& post.pc == pc2
            }
        },
        Opcode::LD_DTV => {
            &&& same_mem(pre, post)
            &&& same_index(pre, post)
            &&& same_regs(pre, post)
            &&& same_gfx(pre, post)
            &&& same_stack(pre, post)
            &&& same_keys(pre, post)
            &&& post.sound_timer == pre.sound_timer
            &&& post.delay_timer == vx
            &&& post.pc == pc2
        },
        Opcode::LD_STV => {
            &&& same_mem(pre, post)
            &&& same_index(pre, post)
            &&& same_regs(pre, post)
            &&& same_gfx(pre, post)
            &&& same_stack(pre, post)
            &&& same_keys(pre, post)
            &&& post.delay_timer == pre.delay_timer
            &&& post.sound_timer == vx
            &&& post.pc == pc2
        },
        Opcode::ADD_IV => {
            &&& same_mem(pre, post)
            &&& same_regs(pre, post)
            &&& same_gfx(pre, post)
            &&& same_timers(pre, post)
            &&& same_stack(pre, post)
            &&& same_keys(pre, post)
            &&& post.I == (pre.I + vx) % 4096
            &&& post.pc == pc2
        },
        Opcode::LD_FV => {
            &&& same_mem(pre, post)
            &&& same_regs(pre, post)
            &&& same_gfx(pre, post)
            &&& same_timers(pre, post)
            &&& same_stack(pre, post)
            &&& same_keys(pre, post)
            &&& post.I == 0x50 + vx * 5
            &&& post.pc == pc2
        },
        Opcode::LD_BV => {
            &&& same_regs(pre, post)
            &&& same_index(pre, post)
            &&& same_gfx(pre, post)
            &&& same_timers(pre, post)
            &&& same_stack(pre, post)
            &&& same_keys(pre, post)
            &&& post.memory@ == bcd_mem(pre.memory@, pre.I as int, vx)
            &&& post.pc == pc2
        },
        Opcode::LD_IV => {
            &&& same_regs(pre, post)
            &&& same_index(pre, post)
            &&& same_gfx(pre, post)
            &&& same_timers(pre, post)
            &&& same_stack(pre, post)
            &&& same_keys(pre, post)
            &&& post.memory@ == store_regs(pre.memory@, pre.v_register@, pre.I as int, x)
            &&& post.pc == pc2
        },
        Opcode::LD_VI => {
            &&& frame_regs_pc(pre, post)
            &&& post.v_register@ == load_regs(pre.v_register@, pre.memory@, pre.I as int, x)
            &&& post.pc == pc2
        },
    }
}

/// Relies on rand::random: one byte from the thread-local generator.
/// Nothing is assumed of the value.
#[verifier::external_body]
fn random_byte() -> u8 {
    rand::random()
}

impl Chip8 {
    /// Scan the keypad snapshot: the highest pressed key index, or
    /// `None` when no key is pressed.
    fn scan_keys(&self) -> (r: Option<u8>)
        requires
            self.wf(),
        ensures
            match r {
                Some(j) => j == highest_pressed(self.key@, 15) && j < 16,
                None => !any_pressed(self.key@),
            },
    {
        let mut found: bool = false;
        let mut idx: u8 = 0;
        let mut j: usize = 0;
        while j < 16
            invariant
                self.wf(),
                j <= 16,
                idx < 16,
                highest_pressed(self.key@, j as int - 1) == if found {
                    idx as int
                } else {
                    -1
                },
            decreases 16 - j,
        {
            if self.key[j] {
                found = true;
                idx = j as u8;
            }
            j = j + 1;
        }
        if found {
            Some(idx)
        } else {
            None
        }
    }

    /// The block store: registers `V0..=Vx` into memory at the index
    /// register, addresses wrapping modulo the memory size.
    fn op_store_regs(&mut self, x: usize)
        requires
            old(self).wf(),
            x < 16,
        ensures
            final(self).wf(),
            final(self).memory@ == store_regs(
                old(self).memory@,
                old(self).v_register@,
                old(self).I as int,
                x as int,
            ),
            same_regs(*old(self), *final(self)),
            same_index(*old(self), *final(self)),
            same_gfx(*old(self), *final(self)),
            same_timers(*old(self), *final(self)),
            same_stack(*old(self), *final(self)),
            same_keys(*old(self), *final(self)),
            final(self).pc == old(self).pc,
    {
        let i0 = self.I as usize;
        let mut j: usize = 0;
        while j <= x
            invariant
                old(self).wf(),
                x < 16,
                j <= x + 1,
                i0 == old(self).I as int,
                self.memory@.len() == 4096,
                j == 0 ==> self.memory@ == old(self).memory@,
                j > 0 ==> self.memory@ == store_regs(
                    old(self).memory@,
                    old(self).v_register@,
                    i0 as int,
                    j - 1,
                ),
                self.v_register@ == old(self).v_register@,
                self.I == old(self).I,
                self.pc == old(self).pc,
                self.gfx@ == old(self).gfx@,
                self.delay_timer == old(self).delay_timer,
                self.sound_timer == old(self).sound_timer,
                self.stack@ == old(self).stack@,
                self.sp == old(self).sp,
                self.key@ == old(self).key@,
            decreases x + 1 - j,
        {
            self.memory.set((i0 + j) % 4096, self.v_register[j]);
            j = j + 1;
        }
    }

    /// The block load: registers `V0..=Vx` from memory at the index
    /// register, addresses wrapping modulo the memory size.
    fn op_load_regs(&mut self, x: usize)
        requires
            old(self).wf(),
            x < 16,
        ensures
            final(self).wf(),
            final(self).v_register@ == load_regs(
                old(self).v_register@,
                old(self).memory@,
                old(self).I as int,
                x as int,
            ),
            frame_regs_pc(*old(self), *final(self)),
            final(self).pc == old(self).pc,
    {
        let i0 = self.I as usize;
        let mut j: usize = 0;
        while j <= x
            invariant
                old(self).wf(),
                x < 16,
                j <= x + 1,
                i0 == old(self).I as int,
                self.v_register@.len() == 16,
                j == 0 ==> self.v_register@ == old(self).v_register@,
                j > 0 ==> self.v_register@ == load_regs(
                    old(self).v_register@,
                    old(self).memory@,
                    i0 as int,
                    j - 1,
                ),
                self.memory@ == old(self).memory@,
                self.I == old(self).I,
                self.pc == old(self).pc,
                self.gfx@ == old(self).gfx@,
                self.delay_timer == old(self).delay_timer,
                self.sound_timer == old(self).sound_timer,
                self.stack@ == old(self).stack@,
                self.sp == old(self).sp,
                self.key@ == old(self).key@,
            decreases x + 1 - j,
        {
            let b = self.memory[(i0 + j) % 4096];
            self.v_register.set(j, b);
            j = j + 1;
        }
    }

    /// Execute one decoded instruction. On a stack fault the machine is
    /// left exactly as it was and the fault is returned; otherwise the
    /// instruction's whole effect is as `step_ok` states it.
    #[verifier::rlimit(100)]
    #[verifier::spinoff_prover]
    pub fn execute_opcode(&mut self, opcode: (Opcode, [u8; 2])) -> (r: Result<(), Fault>)
        requires
            old(self).wf(),
        ensures
            final(self).wf(),
            match fault_of(*old(self), opcode.0) {
                Some(f) => r == Err::<(), Fault>(f) && *final(self) == *old(self),
                None => r == Ok::<(), Fault>(()) && step_ok(
                    *old(self),
                    *final(self),
                    opcode.0,
                    opcode.1[0],
                    opcode.1[1],
                ),
            },
    {
        let b0 = opcode.1[0];
        let b1 = opcode.1[1];
        let x = (b0 % 16) as usize;
        let y = (b1 / 16) as usize;
        let nnn: u16 = ((b0 % 16) as u16) * 256 + (b1 as u16);
        match opcode.0 {
            Opcode::CLS => {
                self.gfx = zero_bytes(2048);
                self.pc = pc_step(self.pc, 2);
                proof {
                    assert(step_ok(*old(self), *self, opcode.0, b0, b1));
                }
                Ok(())
            },
            Opcode::RET => {
                if self.sp == 0 {
                    return Err(Fault::StackUnderflow);
                }
                let ret = self.stack[self.sp];
                self.sp = self.sp - 1;
                self.pc = pc_step(ret, 2);
                proof {
                    assert(step_ok(*old(self), *self, opcode.0, b0, b1));
                }
                Ok(())
            },
            Opcode::SYS => {
                self.pc = pc_step(self.pc, 2);
                proof {
                    assert(step_ok(*old(self), *self, opcode.0, b0, b1));
                }
                Ok(())
            },
            Opcode::JP_A => {
                self.pc = nnn;
                proof {
                    assert(step_ok(*old(self), *self, opcode.0, b0, b1));
                }
                Ok(())
            },
            Opcode::CALL => {
                if self.sp >= 16 {
                    return Err(Fault::StackOverflow);
                }
                self.sp = self.sp + 1;
                self.stack.set(self.sp, self.pc);
                self.pc = nnn;
                proof {
                    assert(step_ok(*old(self), *self, opcode.0, b0, b1));
                }
                Ok(())
            },
            Opcode::SE_VB => {
                let step: u16 = if self.v_register[x] == b1 {
                    4
                } else {
                    2
                };
                self.pc = pc_step(self.pc, step);
                proof {
                    assert(step_ok(*old(self), *self, opcode.0, b0, b1));
                }
                Ok(())
            },
            Opcode::SNE_VB => {
                let step: u16 = if self.v_register[x] != b1 {
                    4
                } else {
                    2
                };
                self.pc = pc_step(self.pc, step);
                proof {
                    assert(step_ok(*old(self), *self, opcode.0, b0, b1));
                }
                Ok(())
            },
            Opcode::SE_VV => {
                let step: u16 = if self.v_register[x] == self.v_register[y] {
                    4
                } else {
                    2
                };
                self.pc = pc_step(self.pc, step);
                proof {
                    assert(step_ok(*old(self), *self, opcode.0, b0, b1));
                }
                Ok(())
            },
            Opcode::LD_VB => {
                self.v_register.set(x, b1);
                self.pc = pc_step(self.pc, 2);
                proof {
                    assert(step_ok(*old(self), *self, opcode.0, b0, b1));
                }
                Ok(())
            },
            Opcode::ADD_VB => {
                let a = self.v_register[x];
                let s: u16 = ((a as u16) + (b1 as u16)) % 256;
                self.v_register.set(x, s as u8);
                self.pc = pc_step(self.pc, 2);
                proof {
                    assert(step_ok(*old(self), *self, opcode.0, b0, b1));
                }
                Ok(())
            },
            Opcode::LD_VV => {
                let b = self.v_register[y];
                self.v_register.set(x, b);
                self.pc = pc_step(self.pc, 2);
                proof {
                    assert(step_ok(*old(self), *self, opcode.0, b0, b1));
                }
                Ok(())
            },
            Opcode::OR => {
                let r = self.v_register[x] | self.v_register[y];
                self.v_register.set(x, r);
                self.pc = pc_step(self.pc, 2);
                proof {
                    assert(step_ok(*old(self), *self, opcode.0, b0, b1));
                }
                Ok(())
            },
            Opcode::AND => {
                let r = self.v_register[x] & self.v_register[y];
                self.v_register.set(x, r);
                self.pc = pc_step(self.pc, 2);
                proof {
                    assert(step_ok(*old(self), *self, opcode.0, b0, b1));
                }
                Ok(())
            },
            Opcode::XOR => {
                let r = self.v_register[x] ^ self.v_register[y];
                self.v_register.set(x, r);
                self.pc = pc_step(self.pc, 2);
                proof {
                    assert(step_ok(*old(self), *self, opcode.0, b0, b1));
                }
                Ok(())
            },
            Opcode::ADD_VV => {
                let a = self.v_register[x];
                let b = self.v_register[y];
                let s: u16 = (a as u16) + (b as u16);
                self.v_register.set(x, (s % 256) as u8);
                self.v_register.set(15, if s > 255 {
                    1
                } else {
                    0
                });
                self.pc = pc_step(self.pc, 2);
                proof {
                    assert(step_ok(*old(self), *self, opcode.0, b0, b1));
                }
                Ok(())
            },
            Opcode::SUB => {
                let a = self.v_register[x];
                let b = self.v_register[y];
                let d: u8 = if a >= b {
                    a - b
                } else {
                    ((a as u16) + 256 - (b as u16)) as u8
                };
                self.v_register.set(x, d);
                self.v_register.set(15, if a >= b {
                    1
                } else {
                    0
                });
                self.pc = pc_step(self.pc, 2);
                proof {
                    assert(step_ok(*old(self), *self, opcode.0, b0, b1));
                }
                Ok(())
            },
            Opcode::SHR => {
                let a = self.v_register[x];
                self.v_register.set(x, a / 2);
                self.v_register.set(15, a % 2);
                self.pc = pc_step(self.pc, 2);
                proof {
                    assert(step_ok(*old(self), *self, opcode.0, b0, b1));
                }
                Ok(())
            },
            Opcode::SUBN => {
                let a = self.v_register[x];
                let b = self.v_register[y];
                let d: u8 = if b >= a {
                    b - a
                } else {
                    ((b as u16) + 256 - (a as u16)) as u8
                };
                self.v_register.set(x, d);
                self.v_register.set(15, if b >= a {
                    1
                } else {
                    0
                });
                self.pc = pc_step(self.pc, 2);
                proof {
                    assert(step_ok(*old(self), *self, opcode.0, b0, b1));
                }
                Ok(())
            },
            Opcode::SHL => {
                let a = self.v_register[x];
                self.v_register.set(x, ((a as u16 * 2) % 256) as u8);
                self.v_register.set(15, a / 128);
                self.pc = pc_step(self.pc, 2);
                proof {
                    assert(step_ok(*old(self), *self, opcode.0, b0, b1));
                }
                Ok(())
            },
            Opcode::SNE_VV => {
                let step: u16 = if self.v_register[x] != self.v_register[y] {
                    4
                } else {
                    2
                };
                self.pc = pc_step(self.pc, step);
                proof {
                    assert(step_ok(*old(self), *self, opcode.0, b0, b1));
                }
                Ok(())
            },
            Opcode::LD_IA => {
                self.I = nnn;
                self.pc = pc_step(self.pc, 2);
                proof {
                    assert(step_ok(*old(self), *self, opcode.0, b0, b1));
                }
                Ok(())
            },
            Opcode::JP_VA => {
                self.pc = nnn + (self.v_register[0] as u16);
                proof {
                    assert(step_ok(*old(self), *self, opcode.0, b0, b1));
                }
                Ok(())
            },
            Opcode::RND => {
                let rb = random_byte();
                let val: u8 = rb & b1;
                self.v_register.set(x, val);
                proof {
                    assert(self.v_register@ == old(self).v_register@.update(x as int, rb & b1));
                    if b1 == 0 {
                        assert(rb & b1 == 0) by (bit_vector)
                            requires
                                b1 == 0,
                        ;
                    }
                }
                self.pc = pc_step(self.pc, 2);
                proof {
                    assert(self.v_register@ == old(self).v_register@.update(op_x(b0), rb & b1));
                    assert(exists|r2: u8|
                        self.v_register@ == old(self).v_register@.update(op_x(b0), r2 & b1));
                    assert(step_ok(*old(self), *self, opcode.0, b0, b1));
                }
                Ok(())
            },
            Opcode::DRW => {
                let n = (b1 % 16) as usize;
                self.op_drw(x, y, n);
                proof {
                    assert(step_ok(*old(self), *self, opcode.0, b0, b1));
                }
                Ok(())
            },
            Opcode::SKP => {
                let k = (self.v_register[x] % 16) as usize;
                let step: u16 = if self.key[k] {
                    4
                } else {
                    2
                };
                self.pc = pc_step(self.pc, step);
                proof {
                    assert(step_ok(*old(self), *self, opcode.0, b0, b1));
                }
                Ok(())
            },
            Opcode::SKNP => {
                let k = (self.v_register[x] % 16) as usize;
                let step: u16 = if !self.key[k] {
                    4
                } else {
                    2
                };
                self.pc = pc_step(self.pc, step);
                proof {
                    assert(step_ok(*old(self), *self, opcode.0, b0, b1));
                }
                Ok(())
            },
            Opcode::LD_VDT => {
                let t = self.delay_timer;
                self.v_register.set(x, t);
                self.pc = pc_step(self.pc, 2);
                proof {
                    assert(step_ok(*old(self), *self, opcode.0, b0, b1));
                }
                Ok(())
            },
            Opcode::LD_VK => {
                match self.scan_keys() {
                    Some(j) => {
                        self.v_register.set(x, j);
                        self.pc = pc_step(self.pc, 2);
                    },
                    None => {},
                }
                proof {
                    assert(step_ok(*old(self), *self, opcode.0, b0, b1));
                }
                Ok(())
            },
            Opcode::LD_DTV => {
                self.delay_timer = self.v_register[x];
                self.pc = pc_step(self.pc, 2);
                proof {
                    assert(step_ok(*old(self), *self, opcode.0, b0, b1));
                }
                Ok(())
            },
            Opcode::LD_STV => {
                self.sound_timer = self.v_register[x];
                self.pc = pc_step(self.pc, 2);
                proof {
                    assert(step_ok(*old(self), *self, opcode.0, b0, b1));
                }
                Ok(())
            },
            Opcode::ADD_IV => {
                self.I = (((self.I as usize) + (self.v_register[x] as usize)) % 4096) as u16;
                self.pc = pc_step(self.pc, 2);
                proof {
                    assert(step_ok(*old(self), *self, opcode.0, b0, b1));
                }
                Ok(())
            },
            Opcode::LD_FV => {
                self.I = crate::machine::FONT_BASE + (self.v_register[x] as u16) * 5;
                self.pc = pc_step(self.pc, 2);
                proof {
                    assert(step_ok(*old(self), *self, opcode.0, b0, b1));
                }
                Ok(())
            },
            Opcode::LD_BV => {
                let v = self.v_register[x];
                let i = self.I as usize;
                self.memory.set(i % 4096, v / 100);
                self.memory.set((i + 1) % 4096, (v % 100) / 10);
                self.memory.set((i + 2) % 4096, v % 10);
                self.pc = pc_step(self.pc, 2);
                proof {
                    assert(step_ok(*old(self), *self, opcode.0, b0, b1));
                }
                Ok(())
            },
            Opcode::LD_IV => {
                self.op_store_regs(x);
                self.pc = pc_step(self.pc, 2);
                proof {
                    assert(step_ok(*old(self), *self, opcode.0, b0, b1));
                }
                Ok(())
            },
            Opcode::LD_VI => {
                self.op_load_regs(x);
                self.pc = pc_step(self.pc, 2);
                proof {
                    assert(step_ok(*old(self), *self, opcode.0, b0, b1));
                }
                Ok(())
            },
        }
    }
}

} // verus!
