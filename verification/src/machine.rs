//! The machine: all mutable CHIP-8 state, created once, mutated only by
//! the execute step, the timer tick and the keypad update. Addresses into
//! the 4096-byte memory wrap modulo 4096; the program counter is a 16-bit
//! counter and advances modulo 65536; the call stack holds up to 16
//! return addresses and faults on overflow and underflow.

use vstd::prelude::*;

verus! {

/// Memory size in bytes; every address computation wraps modulo this.
pub const MEM_SIZE: usize = 4096;

/// First address of program/work RAM, and the initial program counter.
pub const PROGRAM_START: u16 = 0x200;

/// Largest ROM the program area 0x200..=0xFFF can hold.
pub const MAX_ROM_LEN: usize = 3584;

/// First address of the built-in font glyphs.
pub const FONT_BASE: u16 = 0x050;

/// A recoverable fault that a step can surface instead of completing: the
/// driver may log, ignore or halt on it, and the machine state is left
/// exactly as it was.
#[derive(Clone, Copy, Debug, PartialEq, Eq)]
pub enum Fault {
    /// CALL with the call stack already at full depth.
    StackOverflow,
    /// RET with an empty call stack.
    StackUnderflow,
    /// A ROM image longer than the program area.
    RomTooLarge,
}

/// The whole machine state. Fields are public: the driver reads the
/// framebuffer and keypad snapshots directly, and writes nothing but
/// through `execute_opcode`, `decrease_timers`, `set_key` and the loader.
#[allow(non_snake_case)]
pub struct Chip8 {
    /// 4096 addressable bytes; 0x050..0x0A0 holds the font set,
    /// 0x200..=0xFFF is program/work RAM.
    pub memory: Vec<u8>,
    /// General registers V0..VF; VF doubles as the flag destination.
    pub v_register: Vec<u8>,
    /// Index register, kept below 4096.
    pub I: u16,
    /// Program counter.
    pub pc: u16,
    /// 64x32 1-bit framebuffer, row-major: index = y * 64 + x.
    pub gfx: Vec<u8>,
    /// Countdown timer, decremented once per external tick while > 0.
    pub delay_timer: u8,
    /// Countdown timer, decremented once per external tick while > 0.
    pub sound_timer: u8,
    /// Return addresses; `stack[1..=sp]` are the live entries, newest at
    /// `stack[sp]`, and slot 0 is a never-read anchor.
    pub stack: Vec<u16>,
    /// Call depth, 0 through 16.
    pub sp: usize,
    /// Keypad snapshot for the 16 hex keys, owned by the input source.
    pub key: Vec<bool>,
}

impl Chip8 {
    /// Shape invariant: every constructor establishes it and every
    /// operation preserves it.
    pub open spec fn wf(self) -> bool {
        &&& self.memory@.len() == 4096
        &&& self.v_register@.len() == 16
        &&& self.gfx@.len() == 2048
        &&& forall|i: int| 0 <= i < 2048 ==> self.gfx@[i] <= 1
        &&& self.stack@.len() == 17
        &&& self.sp <= 16
        &&& self.key@.len() == 16
        &&& self.I < 4096
    }
}

/// A 16-bit program counter value `k` steps ahead of `pc`, wrapping
/// modulo 65536.
pub open spec fn pc_add(pc: int, k: int) -> u16 {
    ((pc + k) % 0x10000) as u16
}

/// The step left memory untouched.
pub open spec fn same_mem(pre: Chip8, post: Chip8) -> bool {
    post.memory@ == pre.memory@
}

/// The step left every general register untouched.
pub open spec fn same_regs(pre: Chip8, post: Chip8) -> bool {
    post.v_register@ == pre.v_register@
}

/// The step left the index register untouched.
pub open spec fn same_index(pre: Chip8, post: Chip8) -> bool {
    post.I == pre.I
}

/// The step left the framebuffer untouched.
pub open spec fn same_gfx(pre: Chip8, post: Chip8) -> bool {
    post.gfx@ == pre.gfx@
}

/// The step left both timers untouched.
pub open spec fn same_timers(pre: Chip8, post: Chip8) -> bool {
    post.delay_timer == pre.delay_timer && post.sound_timer == pre.sound_timer
}

/// The step left the call stack and its depth untouched.
pub open spec fn same_stack(pre: Chip8, post: Chip8) -> bool {
    post.stack@ == pre.stack@ && post.sp == pre.sp
}

/// The step left the keypad snapshot untouched.
pub open spec fn same_keys(pre: Chip8, post: Chip8) -> bool {
    post.key@ == pre.key@
}

/// Only the general registers and the program counter may have moved.
pub open spec fn frame_regs_pc(pre: Chip8, post: Chip8) -> bool {
    &&& same_mem(pre, post)
    &&& same_index(pre, post)
    &&& same_gfx(pre, post)
    &&& same_timers(pre, post)
    &&& same_stack(pre, post)
    &&& same_keys(pre, post)
}

/// Only the program counter may have moved.
pub open spec fn frame_pc(pre: Chip8, post: Chip8) -> bool {
    frame_regs_pc(pre, post) && same_regs(pre, post)
}

/// The 16 five-byte font glyphs for the hex digits 0 through F, in order.
pub open spec fn font_seq() -> Seq<u8> {
    seq![
        0xf0u8, 0x90, 0x90, 0x90, 0xf0, // 0
        0x20, 0x60, 0x20, 0x20, 0x70, // 1
        0xf0, 0x10, 0xf0, 0x80, 0xf0, // 2
        0xf0, 0x10, 0xf0, 0x10, 0xf0, // 3
        0x90, 0x90, 0xf0, 0x10, 0x10, // 4
        0xf0, 0x80, 0xf0, 0x10, 0xf0, // 5
        0xf0, 0x80, 0xf0, 0x90, 0xf0, // 6
        0xf0, 0x10, 0x20, 0x40, 0x40, // 7
        0xf0, 0x90, 0xf0, 0x90, 0xf0, // 8
        0xf0, 0x90, 0xf0, 0x10, 0xf0, // 9
        0xf0, 0x90, 0xf0, 0x90, 0x90, // A
        0xe0, 0x90, 0xe0, 0x90, 0xe0, // B
        0xf0, 0x80, 0x80, 0x80, 0xf0, // C
        0xe0, 0x90, 0x90, 0x90, 0xe0, // D
        0xf0, 0x80, 0xf0, 0x80, 0xf0, // E
        0xf0, 0x80, 0xf0, 0x80, 0x80, // F
    ]
}

/// What address `a` of a fresh machine's memory holds: the font glyphs at
/// 0x050..0x0A0, zero everywhere else.
pub open spec fn initial_memory(a: int) -> u8 {
    if 0x50 <= a < 0xa0 {
        font_seq()[a - 0x50]
    } else {
        0
    }
}

fn font_table() -> (f: Vec<u8>)
    ensures
        f@ == font_seq(),
{
    let mut f: Vec<u8> = Vec::new();
    f.push(0xf0);
    f.push(0x90);
    f.push(0x90);
    f.push(0x90);
    f.push(0xf0);
    f.push(0x20);
    f.push(0x60);
    f.push(0x20);
    f.push(0x20);
    f.push(0x70);
    f.push(0xf0);
    f.push(0x10);
    f.push(0xf0);
    f.push(0x80);
    f.push(0xf0);
    f.push(0xf0);
    f.push(0x10);
    f.push(0xf0);
    f.push(0x10);
    f.push(0xf0);
    f.push(0x90);
    f.push(0x90);
    f.push(0xf0);
    f.push(0x10);
    f.push(0x10);
    f.push(0xf0);
    f.push(0x80);
    f.push(0xf0);
    f.push(0x10);
    f.push(0xf0);
    f.push(0xf0);
    f.push(0x80);
    f.push(0xf0);
    f.push(0x90);
    f.push(0xf0);
    f.push(0xf0);
    f.push(0x10);
    f.push(0x20);
    f.push(0x40);
    f.push(0x40);
    f.push(0xf0);
    f.push(0x90);
    f.push(0xf0);
    f.push(0x90);
    f.push(0xf0);
    f.push(0xf0);
    f.push(0x90);
    f.push(0xf0);
    f.push(0x10);
    f.push(0xf0);
    f.push(0xf0);
    f.push(0x90);
    f.push(0xf0);
    f.push(0x90);
    f.push(0x90);
    f.push(0xe0);
    f.push(0x90);
    f.push(0xe0);
    f.push(0x90);
    f.push(0xe0);
    f.push(0xf0);
    f.push(0x80);
    f.push(0x80);
    f.push(0x80);
    f.push(0xf0);
    f.push(0xe0);
    f.push(0x90);
    f.push(0x90);
    f.push(0x90);
    f.push(0xe0);
    f.push(0xf0);
    f.push(0x80);
    f.push(0xf0);
    f.push(0x80);
    f.push(0xf0);
    f.push(0xf0);
    f.push(0x80);
    f.push(0xf0);
    f.push(0x80);
    f.push(0x80);
    proof {
        assert(f@ =~= font_seq());
    }
    f
}

pub(crate) fn zero_bytes(n: usize) -> (v: Vec<u8>)
    ensures
        v@.len() == n,
        forall|i: int| 0 <= i < n ==> v@[i] == 0,
{
    let mut v: Vec<u8> = Vec::new();
    let mut i: usize = 0;
    while i < n
        invariant
            i <= n,
            v@.len() == i,
            forall|j: int| 0 <= j < i ==> v@[j] == 0,
        decreases n - i,
    {
        v.push(0);
        i = i + 1;
    }
    v
}

/// The program counter `k` bytes ahead, as the 16-bit counter wraps.
pub fn pc_step(pc: u16, k: u16) -> (r: u16)
    ensures
        r == pc_add(pc as int, k as int),
{
    (((pc as u32) + (k as u32)) % 0x10000) as u16
}

impl Chip8 {
    /// A fresh machine: font pre-loaded, everything else zeroed, program
    /// counter at the start of program RAM.
    pub fn init() -> (c: Chip8)
        ensures
            c.wf(),
            c.pc == 0x200,
            c.I == 0,
            c.sp == 0,
            c.delay_timer == 0,
            c.sound_timer == 0,
            forall|a: int| 0 <= a < 4096 ==> c.memory@[a] == initial_memory(a),
            forall|i: int| 0 <= i < 16 ==> c.v_register@[i] == 0,
            forall|i: int| 0 <= i < 2048 ==> c.gfx@[i] == 0,
            forall|i: int| 0 <= i < 17 ==> c.stack@[i] == 0,
            forall|i: int| 0 <= i < 16 ==> !c.key@[i],
    {
        let font = font_table();
        let mut memory = zero_bytes(4096);
        let mut i: usize = 0;
        while i < 80
            invariant
                i <= 80,
                memory@.len() == 4096,
                font@ == font_seq(),
                forall|j: int| 0 <= j < i ==> memory@[0x50 + j] == font_seq()[j],
                forall|a: int|
                    0 <= a < 4096 && !(0x50 <= a < 0x50 + i) ==> memory@[a] == 0,
            decreases 80 - i,
        {
            memory.set(0x50 + i, font[i]);
            i = i + 1;
        }
        let mut v_register = zero_bytes(16);
        let gfx = zero_bytes(2048);
        let mut stack: Vec<u16> = Vec::new();
        let mut s: usize = 0;
        while s < 17
            invariant
                s <= 17,
                stack@.len() == s,
                forall|j: int| 0 <= j < s ==> stack@[j] == 0,
            decreases 17 - s,
        {
            stack.push(0);
            s = s + 1;
        }
        let mut key: Vec<bool> = Vec::new();
        let mut k: usize = 0;
        while k < 16
            invariant
                k <= 16,
                key@.len() == k,
                forall|j: int| 0 <= j < k ==> !key@[j],
            decreases 16 - k,
        {
            key.push(false);
            k = k + 1;
        }
        Chip8 {
            memory,
            v_register,
            I: 0,
            pc: PROGRAM_START,
            gfx,
            delay_timer: 0,
            sound_timer: 0,
            stack,
            sp: 0,
            key,
        }
    }

    /// Copy a ROM image verbatim into memory starting at 0x200. An image
    /// longer than the program area is rejected whole, leaving the
    /// machine untouched.
    pub fn load_rom(&mut self, rom: &Vec<u8>) -> (r: Result<(), Fault>)
        requires
            old(self).wf(),
        ensures
            final(self).wf(),
            rom@.len() > 3584 ==> r == Err::<(), Fault>(Fault::RomTooLarge)
                && *final(self) == *old(self),
            rom@.len() <= 3584 ==> {
                &&& r == Ok::<(), Fault>(())
                &&& final(self).memory@.len() == 4096
                &&& forall|j: int|
                    0 <= j < rom@.len() ==> final(self).memory@[0x200 + j] == rom@[j]
                &&& forall|a: int|
                    0 <= a < 4096 && !(0x200 <= a < 0x200 + rom@.len())
                        ==> final(self).memory@[a] == old(self).memory@[a]
                &&& final(self).v_register@ == old(self).v_register@
                &&& final(self).I == old(self).I
                &&& final(self).pc == old(self).pc
                &&& final(self).gfx@ == old(self).gfx@
                &&& final(self).delay_timer == old(self).delay_timer
                &&& final(self).sound_timer == old(self).sound_timer
                &&& final(self).stack@ == old(self).stack@
                &&& final(self).sp == old(self).sp
                &&& final(self).key@ == old(self).key@
            },
    {
        if rom.len() > MAX_ROM_LEN {
            return Err(Fault::RomTooLarge);
        }
        let mut j: usize = 0;
        while j < rom.len()
            invariant
                old(self).wf(),
                rom@.len() <= 3584,
                j <= rom@.len(),
                self.memory@.len() == 4096,
                forall|t: int| 0 <= t < j ==> self.memory@[0x200 + t] == rom@[t],
                forall|a: int|
                    0 <= a < 4096 && !(0x200 <= a < 0x200 + j)
                        ==> self.memory@[a] == old(self).memory@[a],
                self.v_register@ == old(self).v_register@,
                self.I == old(self).I,
                self.pc == old(self).pc,
                self.gfx@ == old(self).gfx@,
                self.delay_timer == old(self).delay_timer,
                self.sound_timer == old(self).sound_timer,
                self.stack@ == old(self).stack@,
                self.sp == old(self).sp,
                self.key@ == old(self).key@,
            decreases rom@.len() - j,
        {
            self.memory.set(0x200 + j, rom[j]);
            j = j + 1;
        }
        Ok(())
    }

    /// The two instruction bytes at the program counter; addresses wrap
    /// modulo the memory size.
    pub fn fetch_opcode(&self) -> (op: [u8; 2])
        requires
            self.wf(),
        ensures
            op[0] == self.memory@[self.pc as int % 4096],
            op[1] == self.memory@[(self.pc + 1) % 4096],
    {
        let a0 = (self.pc as usize) % MEM_SIZE;
        let a1 = ((self.pc as usize) + 1) % MEM_SIZE;
        [self.memory[a0], self.memory[a1]]
    }

    /// One external 60 Hz tick: each non-zero timer counts down by one
    /// and floors at zero; nothing else moves.
    pub fn decrease_timers(&mut self)
        requires
            old(self).wf(),
        ensures
            final(self).wf(),
            final(self).delay_timer == if old(self).delay_timer > 0 {
                (old(self).delay_timer - 1) as u8
            } else {
                0u8
            },
            final(self).sound_timer == if old(self).sound_timer > 0 {
                (old(self).sound_timer - 1) as u8
            } else {
                0u8
            },
            final(self).memory@ == old(self).memory@,
            final(self).v_register@ == old(self).v_register@,
            final(self).I == old(self).I,
            final(self).pc == old(self).pc,
            final(self).gfx@ == old(self).gfx@,
            final(self).stack@ == old(self).stack@,
            final(self).sp == old(self).sp,
            final(self).key@ == old(self).key@,
    {
        if self.delay_timer != 0 {
            self.delay_timer = self.delay_timer - 1;
        }
        if self.sound_timer != 0 {
            self.sound_timer = self.sound_timer - 1;
        }
    }

    /// Publish one key's press state into the keypad snapshot.
    pub fn set_key(&mut self, key: usize, pressed: bool)
        requires
            old(self).wf(),
            key < 16,
        ensures
            final(self).wf(),
            final(self).key@ == old(self).key@.update(key as int, pressed),
            final(self).memory@ == old(self).memory@,
            final(self).v_register@ == old(self).v_register@,
            final(self).I == old(self).I,
            final(self).pc == old(self).pc,
            final(self).gfx@ == old(self).gfx@,
            final(self).delay_timer == old(self).delay_timer,
            final(self).sound_timer == old(self).sound_timer,
            final(self).stack@ == old(self).stack@,
            final(self).sp == old(self).sp,
    {
        self.key.set(key, pressed);
    }

    /// Step the program counter past one instruction without executing
    /// it: the documented driver policy for an instruction that decodes
    /// to nothing, so a malformed ROM cannot stall the machine forever.
    pub fn skip_instruction(&mut self)
        requires
            old(self).wf(),
        ensures
            final(self).wf(),
            final(self).pc == pc_add(old(self).pc as int, 2),
            final(self).memory@ == old(self).memory@,
            final(self).v_register@ == old(self).v_register@,
            final(self).I == old(self).I,
            final(self).gfx@ == old(self).gfx@,
            final(self).delay_timer == old(self).delay_timer,
            final(self).sound_timer == old(self).sound_timer,
            final(self).stack@ == old(self).stack@,
            final(self).sp == old(self).sp,
            final(self).key@ == old(self).key@,
    {
        self.pc = pc_step(self.pc, 2);
    }
}

} // verus!
