//! The CHIP-8 machine: CPU, memory, display, timers and keypad.
//!
//! The whole machine state is mirrored by the mathematical view
//! [`MachineView`], and every instruction's effect is defined as a pure
//! transition on that view.  The executable interpreter is proved to follow
//! those transitions exactly; see [`Chip8::tick`] for the top-level contract.

use vstd::prelude::*;

use crate::decode::Instruction;
use crate::decode::decode;
use crate::decode::lemma_decode_operands_in_range;
use crate::decode::operands_in_range;
use crate::decode::spec_decode;
use crate::screen::Screen;
use crate::screen::blank_screen;
use crate::screen::blit;
use crate::screen::blit_collides;
use crate::state::ProgramState;
use crate::state::TimerState;

verus! {

/// Relies on rand::random: one draw from the thread-local generator under
/// the Standard distribution, used for the CXNN instruction.  Nothing can
/// be promised of a random value, so the contract has no `ensures`; the
/// machine states what holds whatever byte comes back.
pub assume_specification<T>[ rand::random::<T> ]() -> (r: T)
    where
        rand::distributions::Standard: rand::distributions::Distribution<T>,
;

pub const RAM_SIZE: usize = 4096;

pub const NUM_REGS: usize = 16;

pub const STACK_SIZE: usize = 16;

pub const NUM_KEYS: usize = 16;

/// Programs are loaded and started at this address; below it the memory is
/// reserved (in particular for the font).
pub const START_ADDR: usize = 0x200;

/// First address of the 80-byte font region.
pub const FONT_BASE: usize = 0x50;

pub const FONT_BYTES: usize = 80;

/// The fixed font set: 16 glyphs of 5 bytes each, for the hexadecimal
/// digits 0 to F.
pub open spec fn font_seq() -> Seq<u8> {
    seq![
        0xF0u8, 0x90, 0x90, 0x90, 0xF0,
        0x20, 0x60, 0x20, 0x20, 0x70,
        0xF0, 0x10, 0xF0, 0x80, 0xF0,
        0xF0, 0x10, 0xF0, 0x10, 0xF0,
        0x90, 0x90, 0xF0, 0x10, 0x10,
        0xF0, 0x80, 0xF0, 0x10, 0xF0,
        0xF0, 0x80, 0xF0, 0x90, 0xF0,
        0xF0, 0x10, 0x20, 0x40, 0x40,
        0xF0, 0x90, 0xF0, 0x90, 0xF0,
        0xF0, 0x90, 0xF0, 0x10, 0xF0,
        0xF0, 0x90, 0xF0, 0x90, 0x90,
        0xE0, 0x90, 0xE0, 0x90, 0xE0,
        0xF0, 0x80, 0x80, 0x80, 0xF0,
        0xE0, 0x90, 0x90, 0x90, 0xE0,
        0xF0, 0x80, 0xF0, 0x80, 0xF0,
        0xF0, 0x80, 0xF0, 0x80, 0x80,
    ]
}

/// `mem` with the font written over its font region.
pub open spec fn with_font(mem: Seq<u8>) -> Seq<u8> {
    Seq::new(
        RAM_SIZE as nat,
        |a: int|
            if FONT_BASE <= a < FONT_BASE + FONT_BYTES {
                font_seq()[a - FONT_BASE]
            } else {
                mem[a]
            },
    )
}

/// `mem` with the ROM image written starting at the program start address.
pub open spec fn with_rom(mem: Seq<u8>, rom: Seq<u8>) -> Seq<u8> {
    Seq::new(
        RAM_SIZE as nat,
        |a: int|
            if START_ADDR <= a < START_ADDR + rom.len() {
                rom[a - START_ADDR]
            } else {
                mem[a]
            },
    )
}

/// One timer-tick decrement: down by one, with a floor at zero.
pub open spec fn dec_timer(t: u8) -> u8 {
    if t > 0 {
        (t - 1) as u8
    } else {
        0
    }
}

/// 8-bit wrapping difference `a - b`.
pub open spec fn sub_wrap(a: u8, b: u8) -> u8 {
    ((a - b) % 256) as u8
}

/// The mathematical state of the machine.
pub ghost struct MachineView {
    /// 4096 bytes of memory.
    pub mem: Seq<u8>,
    /// 64×32 framebuffer, row-major.
    pub px: Seq<bool>,
    /// Program counter.
    pub pc: u16,
    /// The 16 general registers V0..VF.
    pub regs: Seq<u8>,
    /// The index register I.
    pub i: u16,
    /// The 16 call-stack slots.
    pub stack: Seq<u16>,
    /// Call-stack depth: slots below it hold pending return addresses.
    pub sp: int,
    /// The 16 key states.
    pub keys: Seq<bool>,
    /// Delay timer.
    pub delay: u8,
    /// Sound timer.
    pub sound: u8,
    /// Set on an unrecoverable control-flow error (stack over- or
    /// underflow); latches the machine in its final state.
    pub finished: bool,
}

impl MachineView {
    /// Structural validity: every component has its fixed size and the
    /// stack depth stays within the stack.
    pub open spec fn wf(self) -> bool {
        &&& self.mem.len() == RAM_SIZE
        &&& self.px.len() == 2048
        &&& self.regs.len() == NUM_REGS
        &&& self.stack.len() == STACK_SIZE
        &&& 0 <= self.sp <= STACK_SIZE
        &&& self.keys.len() == NUM_KEYS
    }

    /// The machine executes no further instructions: either an error
    /// latched it, or the program counter ran past the last address a
    /// whole instruction fits at.
    pub open spec fn halted(self) -> bool {
        self.finished || self.pc > RAM_SIZE - 2
    }
}

/// The machine as freshly constructed: memory zeroed except for the font,
/// program counter at the start address, everything else zero or off.
pub open spec fn spec_new() -> MachineView {
    MachineView {
        mem: with_font(Seq::new(RAM_SIZE as nat, |a: int| 0u8)),
        px: blank_screen(),
        pc: START_ADDR as u16,
        regs: Seq::new(NUM_REGS as nat, |k: int| 0u8),
        i: 0,
        stack: Seq::new(STACK_SIZE as nat, |k: int| 0u16),
        sp: 0,
        keys: Seq::new(NUM_KEYS as nat, |k: int| false),
        delay: 0,
        sound: 0,
        finished: false,
    }
}

/// Conditional skip: advance the program counter one extra instruction.
pub open spec fn spec_skip(s: MachineView, cond: bool) -> MachineView {
    if cond {
        MachineView { pc: (s.pc + 2) as u16, ..s }
    } else {
        s
    }
}

/// 00EE: pop a return address into the program counter; an empty stack is
/// an unrecoverable error that latches the machine finished.
pub open spec fn spec_ret(s: MachineView) -> MachineView {
    if s.sp == 0 {
        MachineView { finished: true, ..s }
    } else {
        MachineView { sp: s.sp - 1, pc: s.stack[s.sp - 1], ..s }
    }
}

/// 2NNN: push the program counter (already past the call instruction) and
/// jump; a full stack is an unrecoverable error that latches the machine
/// finished.
pub open spec fn spec_call(s: MachineView, nnn: u16) -> MachineView {
    if s.sp == STACK_SIZE {
        MachineView { finished: true, ..s }
    } else {
        MachineView { stack: s.stack.update(s.sp, s.pc), sp: s.sp + 1, pc: nnn, ..s }
    }
}

/// 8XY4: VX := VX + VY wrapped; then VF := 1 exactly when the unsigned sum
/// exceeds 255.  The flag is written after the data register, so with
/// X = 0xF the flag wins.
pub open spec fn spec_add(s: MachineView, x: u8, y: u8) -> MachineView {
    let sum = s.regs[x as int] + s.regs[y as int];
    MachineView {
        regs: s.regs.update(x as int, ((sum % 256) as u8)).update(
            15,
            if sum > 255 {
                1u8
            } else {
                0u8
            },
        ),
        ..s
    }
}

/// 8XY5 / 8XY7: dest := a - b wrapped; then VF := 1 exactly when no borrow
/// occurs (a >= b).  The flag is written after the data register.
pub open spec fn spec_sub(s: MachineView, a: u8, b: u8, dest: u8) -> MachineView {
    let va = s.regs[a as int];
    let vb = s.regs[b as int];
    MachineView {
        regs: s.regs.update(dest as int, sub_wrap(va, vb)).update(
            15,
            if va >= vb {
                1u8
            } else {
                0u8
            },
        ),
        ..s
    }
}

/// 8XY6: VX := VX >> 1 (logical); then VF := the bit shifted out, the old
/// least significant bit.
pub open spec fn spec_shr(s: MachineView, x: u8) -> MachineView {
    let vx = s.regs[x as int];
    MachineView {
        regs: s.regs.update(x as int, ((vx / 2) as u8)).update(15, ((vx % 2) as u8)),
        ..s
    }
}

/// 8XYE: VX := VX << 1 wrapped; then VF := the bit shifted out, the old
/// most significant bit.
pub open spec fn spec_shl(s: MachineView, x: u8) -> MachineView {
    let vx = s.regs[x as int];
    MachineView {
        regs: s.regs.update(x as int, (((2 * vx) % 256) as u8)).update(15, ((vx / 128) as u8)),
        ..s
    }
}

/// Memory address `k` bytes past I, wrapped into the address space.
pub open spec fn mem_addr(i: u16, k: int) -> int {
    (i + k) % 4096
}

/// `mem` after storing `regs[0]..regs[n-1]` to consecutive (wrapped)
/// addresses starting at I, in ascending register order.
pub open spec fn store_span(mem: Seq<u8>, i: u16, regs: Seq<u8>, n: int) -> Seq<u8>
    decreases n,
{
    if n <= 0 {
        mem
    } else {
        store_span(mem, i, regs, n - 1).update(mem_addr(i, n - 1), regs[n - 1])
    }
}

/// `regs` after loading its first `n` entries from consecutive (wrapped)
/// addresses starting at I, in ascending register order.
pub open spec fn load_span(regs: Seq<u8>, mem: Seq<u8>, i: u16, n: int) -> Seq<u8>
    decreases n,
{
    if n <= 0 {
        regs
    } else {
        load_span(regs, mem, i, n - 1).update(n - 1, mem[mem_addr(i, n - 1)])
    }
}

/// The lowest pressed key at index `k` or above, or 16 if none is.
pub open spec fn first_pressed_from(keys: Seq<bool>, k: int) -> int
    decreases 16 - k,
{
    if k < 0 || k >= 16 {
        16
    } else if keys[k] {
        k
    } else {
        first_pressed_from(keys, k + 1)
    }
}

/// The lowest pressed key, or 16 if no key is pressed.
pub open spec fn first_pressed(keys: Seq<bool>) -> int {
    first_pressed_from(keys, 0)
}

/// FX0A: if some key is pressed, VX := the lowest pressed key; else rewind
/// the program counter one instruction so the wait re-executes next cycle.
pub open spec fn spec_wait_key(s: MachineView, x: u8) -> MachineView {
    let k = first_pressed(s.keys);
    if k < 16 {
        MachineView { regs: s.regs.update(x as int, (k as u8)), ..s }
    } else {
        MachineView { pc: ((s.pc - 2) as u16), ..s }
    }
}

/// FX33: write the hundreds, tens and ones digits of VX to memory at I,
/// I+1, I+2, each address wrapped into the address space.
pub open spec fn spec_bcd(s: MachineView, x: u8) -> MachineView {
    let vx = s.regs[x as int];
    MachineView {
        mem: s.mem.update(mem_addr(s.i, 0), ((vx / 100) as u8)).update(
            mem_addr(s.i, 1),
            (((vx / 10) % 10) as u8),
        ).update(mem_addr(s.i, 2), ((vx % 10) as u8)),
        ..s
    }
}

/// The `n` sprite rows in memory starting at I, addresses wrapped.
pub open spec fn sprite_rows(mem: Seq<u8>, i: u16, n: int) -> Seq<u8> {
    Seq::new(n as nat, |r: int| mem[mem_addr(i, r)])
}

/// DXYN: XOR-draw the N-row sprite at address I anchored at (VX, VY), then
/// VF := 1 exactly when a set sprite bit turned a lit pixel off.
pub open spec fn spec_draw(s: MachineView, x: u8, y: u8, n: u8) -> MachineView {
    let rows = sprite_rows(s.mem, s.i, n as int);
    let vx = s.regs[x as int];
    let vy = s.regs[y as int];
    MachineView {
        px: blit(s.px, vx, vy, rows),
        regs: s.regs.update(
            15,
            if blit_collides(s.px, vx, vy, rows) {
                1u8
            } else {
                0u8
            },
        ),
        ..s
    }
}

/// The effect of one decoded instruction on the machine, with the program
/// counter already past the instruction.  `rnd` is the byte the CXNN
/// instruction draws; every other instruction ignores it.
pub open spec fn spec_exec(s: MachineView, instr: Instruction, rnd: u8) -> MachineView {
    match instr {
        Instruction::ClearScreen => MachineView { px: blank_screen(), ..s },
        Instruction::Ret => spec_ret(s),
        Instruction::Jump(nnn) => MachineView { pc: nnn, ..s },
        Instruction::Call(nnn) => spec_call(s, nnn),
        Instruction::SkipEqVal(x, nn) => spec_skip(s, s.regs[x as int] == nn),
        Instruction::SkipNeqVal(x, nn) => spec_skip(s, s.regs[x as int] != nn),
        Instruction::SkipEqReg(x, y) => spec_skip(s, s.regs[x as int] == s.regs[y as int]),
        Instruction::SetVal(x, nn) => MachineView { regs: s.regs.update(x as int, nn), ..s },
        Instruction::AddVal(x, nn) => MachineView {
            regs: s.regs.update(x as int, (((s.regs[x as int] + nn) % 256) as u8)),
            ..s
        },
        Instruction::CopyReg(x, y) => MachineView {
            regs: s.regs.update(x as int, s.regs[y as int]),
            ..s
        },
        Instruction::OrReg(x, y) => MachineView {
            regs: s.regs.update(x as int, s.regs[x as int] | s.regs[y as int]),
            ..s
        },
        Instruction::AndReg(x, y) => MachineView {
            regs: s.regs.update(x as int, s.regs[x as int] & s.regs[y as int]),
            ..s
        },
        Instruction::XorReg(x, y) => MachineView {
            regs: s.regs.update(x as int, s.regs[x as int] ^ s.regs[y as int]),
            ..s
        },
        Instruction::AddReg(x, y) => spec_add(s, x, y),
        Instruction::SubReg(x, y) => spec_sub(s, x, y, x),
        Instruction::ShrReg(x, _y) => spec_shr(s, x),
        Instruction::SubRev(x, y) => spec_sub(s, y, x, x),
        Instruction::ShlReg(x, _y) => spec_shl(s, x),
        Instruction::SkipNeqReg(x, y) => spec_skip(s, s.regs[x as int] != s.regs[y as int]),
        Instruction::SetIndex(nnn) => MachineView { i: nnn, ..s },
        Instruction::JumpOffset(nnn) => MachineView { pc: ((nnn + s.regs[0]) as u16), ..s },
        Instruction::Rand(x, nn) => MachineView { regs: s.regs.update(x as int, rnd & nn), ..s },
        Instruction::Draw(x, y, n) => spec_draw(s, x, y, n),
        Instruction::SkipKey(x) => spec_skip(s, s.keys[(s.regs[x as int] % 16) as int]),
        Instruction::SkipNoKey(x) => spec_skip(s, !s.keys[(s.regs[x as int] % 16) as int]),
        Instruction::GetDelay(x) => MachineView { regs: s.regs.update(x as int, s.delay), ..s },
        Instruction::WaitKey(x) => spec_wait_key(s, x),
        Instruction::SetDelay(x) => MachineView { delay: s.regs[x as int], ..s },
        Instruction::SetSound(x) => MachineView { sound: s.regs[x as int], ..s },
        Instruction::AddIndex(x) => MachineView {
            i: (((s.i + s.regs[x as int]) % 0x10000) as u16),
            ..s
        },
        Instruction::FontChar(x) => MachineView {
            i: ((FONT_BASE + 5 * (s.regs[x as int] % 16)) as u16),
            ..s
        },
        Instruction::Bcd(x) => spec_bcd(s, x),
        Instruction::StoreRegs(x) => MachineView {
            mem: store_span(s.mem, s.i, s.regs, x + 1),
            ..s
        },
        Instruction::LoadRegs(x) => MachineView {
            regs: load_span(s.regs, s.mem, s.i, x + 1),
            ..s
        },
    }
}

/// The 16-bit opcode at the program counter, big-endian.
pub open spec fn spec_fetch(s: MachineView) -> u16 {
    ((s.mem[s.pc as int] * 256 + s.mem[s.pc as int + 1]) as u16)
}

/// One whole fetch-decode-execute cycle.  A halted machine stays put.  An
/// opcode outside the instruction table has no effect beyond the fetch
/// advancing the program counter.  `rnd` is the byte a CXNN instruction
/// draws; every other instruction ignores it.
pub open spec fn spec_step(s: MachineView, rnd: u8) -> MachineView {
    if s.halted() {
        s
    } else {
        let op = spec_fetch(s);
        let s1 = MachineView { pc: ((s.pc + 2) as u16), ..s };
        match spec_decode(op) {
            Result::Ok(instr) => spec_exec(s1, instr, rnd),
            Result::Err(_) => s1,
        }
    }
}

pub struct Chip8 {
    memory: Vec<u8>,
    screen: Screen,
    program_counter: u16,
    v_regs: Vec<u8>,
    i_reg: u16,
    stack: Vec<u16>,
    stack_pointer: usize,
    keys: Vec<bool>,
    delay_timer: u8,
    sound_timer: u8,
    finished: bool,
}

impl View for Chip8 {
    type V = MachineView;

    closed spec fn view(&self) -> MachineView {
        MachineView {
            mem: self.memory@,
            px: self.screen@,
            pc: self.program_counter,
            regs: self.v_regs@,
            i: self.i_reg,
            stack: self.stack@,
            sp: self.stack_pointer as int,
            keys: self.keys@,
            delay: self.delay_timer,
            sound: self.sound_timer,
            finished: self.finished,
        }
    }
}

/// The font set as a byte vector, glyph by glyph.
#[verifier::rlimit(100)]
#[verifier::spinoff_prover]
fn font_data() -> (v: Vec<u8>)
    ensures
        v@ == font_seq(),
{
    let mut v: Vec<u8> = Vec::new();
    v.push(0xF0);
    v.push(0x90);
    v.push(0x90);
    v.push(0x90);
    v.push(0xF0);
    v.push(0x20);
    v.push(0x60);
    v.push(0x20);
    v.push(0x20);
    v.push(0x70);
    v.push(0xF0);
    v.push(0x10);
    v.push(0xF0);
    v.push(0x80);
    v.push(0xF0);
    v.push(0xF0);
    v.push(0x10);
    v.push(0xF0);
    v.push(0x10);
    v.push(0xF0);
    v.push(0x90);
    v.push(0x90);
    v.push(0xF0);
    v.push(0x10);
    v.push(0x10);
    v.push(0xF0);
    v.push(0x80);
    v.push(0xF0);
    v.push(0x10);
    v.push(0xF0);
    v.push(0xF0);
    v.push(0x80);
    v.push(0xF0);
    v.push(0x90);
    v.push(0xF0);
    v.push(0xF0);
    v.push(0x10);
    v.push(0x20);
    v.push(0x40);
    v.push(0x40);
    v.push(0xF0);
    v.push(0x90);
    v.push(0xF0);
    v.push(0x90);
    v.push(0xF0);
    v.push(0xF0);
    v.push(0x90);
    v.push(0xF0);
    v.push(0x10);
    v.push(0xF0);
    v.push(0xF0);
    v.push(0x90);
    v.push(0xF0);
    v.push(0x90);
    v.push(0x90);
    v.push(0xE0);
    v.push(0x90);
    v.push(0xE0);
    v.push(0x90);
    v.push(0xE0);
    v.push(0xF0);
    v.push(0x80);
    v.push(0x80);
    v.push(0x80);
    v.push(0xF0);
    v.push(0xE0);
    v.push(0x90);
    v.push(0x90);
    v.push(0x90);
    v.push(0xE0);
    v.push(0xF0);
    v.push(0x80);
    v.push(0xF0);
    v.push(0x80);
    v.push(0xF0);
    v.push(0xF0);
    v.push(0x80);
    v.push(0xF0);
    v.push(0x80);
    v.push(0x80);
    v
}

impl Chip8 {
    /// A fresh machine: zeroed memory with the font preloaded, the program
    /// counter at the start address, and all other state zeroed.
    pub fn new() -> (m: Chip8)
        ensures
            m@.wf(),
            m@ == spec_new(),
    {
        let mut memory: Vec<u8> = Vec::new();
        let mut a: usize = 0;
        while a < RAM_SIZE
            invariant
                a <= RAM_SIZE,
                memory@.len() == a,
                forall|j: int| 0 <= j < a ==> memory@[j] == 0u8,
            decreases RAM_SIZE - a,
        {
            memory.push(0);
            a += 1;
        }
        let mut v_regs: Vec<u8> = Vec::new();
        let mut k: usize = 0;
        while k < NUM_REGS
            invariant
                k <= NUM_REGS,
                v_regs@.len() == k,
                forall|j: int| 0 <= j < k ==> v_regs@[j] == 0u8,
            decreases NUM_REGS - k,
        {
            v_regs.push(0);
            k += 1;
        }
        let mut stack: Vec<u16> = Vec::new();
        let mut f: usize = 0;
        while f < STACK_SIZE
            invariant
                f <= STACK_SIZE,
                stack@.len() == f,
                forall|j: int| 0 <= j < f ==> stack@[j] == 0u16,
            decreases STACK_SIZE - f,
        {
            stack.push(0);
            f += 1;
        }
        let mut keys: Vec<bool> = Vec::new();
        let mut i: usize = 0;
        while i < NUM_KEYS
            invariant
                i <= NUM_KEYS,
                keys@.len() == i,
                forall|j: int| 0 <= j < i ==> !keys@[j],
            decreases NUM_KEYS - i,
        {
            keys.push(false);
            i += 1;
        }
        let mut m = Chip8 {
            memory,
            screen: Screen::new(),
            program_counter: 0x200,
            v_regs,
            i_reg: 0,
            stack,
            stack_pointer: 0,
            keys,
            delay_timer: 0,
            sound_timer: 0,
            finished: false,
        };
        m.copy_fontset();
        proof {
            assert(m@.mem =~= spec_new().mem);
            assert(m@.regs =~= spec_new().regs);
            assert(m@.stack =~= spec_new().stack);
            assert(m@.keys =~= spec_new().keys);
        }
        m
    }

    /// Write the font set over the font region; the rest of the machine is
    /// untouched.
    pub fn copy_fontset(&mut self)
        requires
            old(self)@.wf(),
        ensures
            final(self)@.wf(),
            final(self)@ == (MachineView { mem: with_font(old(self)@.mem), ..old(self)@ }),
    {
        let font = font_data();
        let mut k: usize = 0;
        while k < FONT_BYTES
            invariant
                k <= FONT_BYTES,
                self@.mem.len() == RAM_SIZE,
                font@ == font_seq(),
                forall|a: int|
                    0 <= a < RAM_SIZE ==> self@.mem[a] == (if FONT_BASE <= a < FONT_BASE + k {
                        font_seq()[a - FONT_BASE]
                    } else {
                        old(self)@.mem[a]
                    }),
                self@ == (MachineView { mem: self@.mem, ..old(self)@ }),
            decreases FONT_BYTES - k,
        {
            self.memory.set(FONT_BASE + k, font[k]);
            k += 1;
        }
        proof {
            assert(self@.mem =~= with_font(old(self)@.mem));
        }
    }

    /// Copy a ROM image into memory starting at the start address, where
    /// execution begins.  The image must fit below the end of memory.
    pub fn load_rom(&mut self, data: &[u8])
        requires
            old(self)@.wf(),
            data@.len() <= RAM_SIZE - START_ADDR,
        ensures
            final(self)@.wf(),
            final(self)@ == (MachineView { mem: with_rom(old(self)@.mem, data@), ..old(self)@ }),
    {
        let n = data.len();
        let mut k: usize = 0;
        while k < n
            invariant
                k <= n,
                n == data@.len() <= RAM_SIZE - START_ADDR,
                self@.mem.len() == RAM_SIZE,
                forall|a: int|
                    0 <= a < RAM_SIZE ==> self@.mem[a] == (if START_ADDR <= a < START_ADDR + k {
                        data@[a - START_ADDR]
                    } else {
                        old(self)@.mem[a]
                    }),
                self@ == (MachineView { mem: self@.mem, ..old(self)@ }),
            decreases n - k,
        {
            self.memory.set(START_ADDR + k, data[k]);
            k += 1;
        }
        proof {
            assert(self@.mem =~= with_rom(old(self)@.mem, data@));
        }
    }

    /// The framebuffer, row-major, for the host to render.
    pub fn get_screen(&self) -> (px: &[bool])
        ensures
            px@ == self@.px,
    {
        self.screen.iter_screen()
    }

    /// Read a general register, for hosts and debuggers.
    pub fn get_reg(&self, x: u8) -> (v: u8)
        requires
            self@.wf(),
            x < 16,
        ensures
            v == self@.regs[x as int],
    {
        self.v_regs[x as usize]
    }

    /// Read a memory byte; the address is wrapped into the address space,
    /// as every computed address is.
    pub fn get_ram(&self, addr: u16) -> (v: u8)
        requires
            self@.wf(),
        ensures
            v == self@.mem[(addr as int) % 4096],
    {
        self.memory[(addr as usize) % 4096]
    }

    /// The program counter.
    pub fn get_pc(&self) -> (pc: u16)
        ensures
            pc == self@.pc,
    {
        self.program_counter
    }

    /// The index register I.
    pub fn get_i(&self) -> (i: u16)
        ensures
            i == self@.i,
    {
        self.i_reg
    }

    /// The number of pending calls on the stack.
    pub fn stack_depth(&self) -> (d: usize)
        ensures
            d == self@.sp,
    {
        self.stack_pointer
    }

    /// Record a key as pressed or released.  Keys are indexed 0x0..0xF.
    pub fn register_key(&mut self, key: u8, is_pressed: bool)
        requires
            old(self)@.wf(),
            key < 16,
        ensures
            final(self)@.wf(),
            final(self)@ == (MachineView {
                keys: old(self)@.keys.update(key as int, is_pressed),
                ..old(self)@
            }),
    {
        self.keys.set(key as usize, is_pressed);
    }

    /// One timer tick: decrement both timers with a floor at zero, and
    /// signal `PlaySound` exactly when the sound timer goes from 1 to 0.
    /// The host calls this at its own cadence (conventionally 60 Hz),
    /// independent of instruction execution.
    pub fn tick_timers(&mut self) -> (t: TimerState)
        requires
            old(self)@.wf(),
        ensures
            final(self)@.wf(),
            final(self)@ == (MachineView {
                delay: dec_timer(old(self)@.delay),
                sound: dec_timer(old(self)@.sound),
                ..old(self)@
            }),
            t == (if old(self)@.sound == 1 {
                TimerState::PlaySound
            } else {
                TimerState::Silent
            }),
    {
        if self.delay_timer > 0 {
            self.delay_timer = self.delay_timer - 1;
        }
        let play = self.sound_timer == 1;
        if self.sound_timer > 0 {
            self.sound_timer = self.sound_timer - 1;
        }
        if play {
            TimerState::PlaySound
        } else {
            TimerState::Silent
        }
    }
}

/// 8-bit wrapping subtraction.
fn sub8(a: u8, b: u8) -> (r: u8)
    ensures
        r == sub_wrap(a, b),
{
    if a >= b {
        proof {
            vstd::arithmetic::div_mod::lemma_small_mod((a - b) as nat, 256);
        }
        a - b
    } else {
        proof {
            vstd::arithmetic::div_mod::lemma_mod_add_multiples_vanish(a - b, 256);
            vstd::arithmetic::div_mod::lemma_small_mod((a - b + 256) as nat, 256);
        }
        ((a as u16 + 256 - b as u16) % 256) as u8
    }
}

impl Chip8 {
    // Instruction handlers.  Each one performs exactly the transition of the
    // matching spec function; register operands must be in range, as decoded
    // operands always are.

    /// 00E0: turn every pixel off.
    fn op_clear_screen(&mut self)
        requires
            old(self)@.wf(),
        ensures
            final(self)@.wf(),
            final(self)@ == (MachineView { px: blank_screen(), ..old(self)@ }),
    {
        self.screen.reset();
    }

    /// 1NNN: jump.
    fn op_jump(&mut self, nnn: u16)
        requires
            old(self)@.wf(),
        ensures
            final(self)@.wf(),
            final(self)@ == (MachineView { pc: nnn, ..old(self)@ }),
    {
        self.program_counter = nnn;
    }

    /// BNNN: jump to NNN plus V0, zero-extended.
    fn op_jump_offset(&mut self, nnn: u16)
        requires
            old(self)@.wf(),
            nnn < 0x1000,
        ensures
            final(self)@.wf(),
            final(self)@ == (MachineView {
                pc: ((nnn + old(self)@.regs[0]) as u16),
                ..old(self)@
            }),
    {
        self.program_counter = nnn + self.v_regs[0] as u16;
    }

    /// Push a return address; the stack must have room.
    fn stack_push(&mut self, val: u16)
        requires
            old(self)@.wf(),
            old(self)@.sp < STACK_SIZE,
        ensures
            final(self)@.wf(),
            final(self)@ == (MachineView {
                stack: old(self)@.stack.update(old(self)@.sp, val),
                sp: old(self)@.sp + 1,
                ..old(self)@
            }),
    {
        self.stack.set(self.stack_pointer, val);
        self.stack_pointer = self.stack_pointer + 1;
    }

    /// Pop the most recent return address; the stack must be nonempty.
    fn stack_pop(&mut self) -> (val: u16)
        requires
            old(self)@.wf(),
            old(self)@.sp > 0,
        ensures
            final(self)@.wf(),
            final(self)@ == (MachineView { sp: old(self)@.sp - 1, ..old(self)@ }),
            val == old(self)@.stack[old(self)@.sp - 1],
    {
        self.stack_pointer = self.stack_pointer - 1;
        self.stack[self.stack_pointer]
    }

    /// 2NNN: call; a sixteenth pending call overflows the stack and latches
    /// the machine finished.
    fn op_call(&mut self, nnn: u16)
        requires
            old(self)@.wf(),
        ensures
            final(self)@.wf(),
            final(self)@ == spec_call(old(self)@, nnn),
    {
        if self.stack_pointer == STACK_SIZE {
            self.finished = true;
        } else {
            self.stack_push(self.program_counter);
            self.program_counter = nnn;
        }
    }

    /// 00EE: return; an empty stack underflows and latches the machine
    /// finished.
    fn op_ret(&mut self)
        requires
            old(self)@.wf(),
        ensures
            final(self)@.wf(),
            final(self)@ == spec_ret(old(self)@),
    {
        if self.stack_pointer == 0 {
            self.finished = true;
        } else {
            let addr = self.stack_pop();
            self.program_counter = addr;
        }
    }

    /// Shared body of the four conditional skips: skip the next instruction
    /// exactly when (VX == val) has the truth value `eq`.
    pub fn op_skip_if(&mut self, x: u8, val: u8, eq: bool)
        requires
            old(self)@.wf(),
            x < 16,
            old(self)@.pc + 2 <= 0xFFFF,
        ensures
            final(self)@.wf(),
            final(self)@ == spec_skip(old(self)@, (old(self)@.regs[x as int] == val) == eq),
    {
        if (self.v_regs[x as usize] == val) == eq {
            self.program_counter = self.program_counter + 2;
        }
    }

    /// 3XNN: skip if VX == NN.
    fn op_skip_eq(&mut self, x: u8, nn: u8)
        requires
            old(self)@.wf(),
            x < 16,
            old(self)@.pc + 2 <= 0xFFFF,
        ensures
            final(self)@.wf(),
            final(self)@ == spec_skip(old(self)@, old(self)@.regs[x as int] == nn),
    {
        self.op_skip_if(x, nn, true);
    }

    /// 4XNN: skip if VX != NN.
    fn op_skip_neq(&mut self, x: u8, nn: u8)
        requires
            old(self)@.wf(),
            x < 16,
            old(self)@.pc + 2 <= 0xFFFF,
        ensures
            final(self)@.wf(),
            final(self)@ == spec_skip(old(self)@, old(self)@.regs[x as int] != nn),
    {
        self.op_skip_if(x, nn, false);
    }

    /// 5XY0: skip if VX == VY.
    fn op_skip_reg_eq(&mut self, x: u8, y: u8)
        requires
            old(self)@.wf(),
            x < 16,
            y < 16,
            old(self)@.pc + 2 <= 0xFFFF,
        ensures
            final(self)@.wf(),
            final(self)@ == spec_skip(
                old(self)@,
                old(self)@.regs[x as int] == old(self)@.regs[y as int],
            ),
    {
        let vy = self.v_regs[y as usize];
        self.op_skip_if(x, vy, true);
    }

    /// 9XY0: skip if VX != VY.
    fn op_skip_reg_neq(&mut self, x: u8, y: u8)
        requires
            old(self)@.wf(),
            x < 16,
            y < 16,
            old(self)@.pc + 2 <= 0xFFFF,
        ensures
            final(self)@.wf(),
            final(self)@ == spec_skip(
                old(self)@,
                old(self)@.regs[x as int] != old(self)@.regs[y as int],
            ),
    {
        let vy = self.v_regs[y as usize];
        self.op_skip_if(x, vy, false);
    }

    /// 6XNN: VX := NN.
    fn op_set_val(&mut self, x: u8, nn: u8)
        requires
            old(self)@.wf(),
            x < 16,
        ensures
            final(self)@.wf(),
            final(self)@ == (MachineView {
                regs: old(self)@.regs.update(x as int, nn),
                ..old(self)@
            }),
    {
        self.v_regs.set(x as usize, nn);
    }

    /// 7XNN: VX := VX + NN with 8-bit wraparound; no flag effect.
    fn op_incr_reg(&mut self, x: u8, nn: u8)
        requires
            old(self)@.wf(),
            x < 16,
        ensures
            final(self)@.wf(),
            final(self)@ == (MachineView {
                regs: old(self)@.regs.update(
                    x as int,
                    (((old(self)@.regs[x as int] + nn) % 256) as u8),
                ),
                ..old(self)@
            }),
    {
        let sum = self.v_regs[x as usize] as u16 + nn as u16;
        self.v_regs.set(x as usize, (sum % 256) as u8);
    }

    /// 8XY0: VX := VY.
    fn op_set_regs(&mut self, x: u8, y: u8)
        requires
            old(self)@.wf(),
            x < 16,
            y < 16,
        ensures
            final(self)@.wf(),
            final(self)@ == (MachineView {
                regs: old(self)@.regs.update(x as int, old(self)@.regs[y as int]),
                ..old(self)@
            }),
    {
        let vy = self.v_regs[y as usize];
        self.v_regs.set(x as usize, vy);
    }

    /// 8XY1: VX := VX | VY; no flag effect.
    fn op_or(&mut self, x: u8, y: u8)
        requires
            old(self)@.wf(),
            x < 16,
            y < 16,
        ensures
            final(self)@.wf(),
            final(self)@ == (MachineView {
                regs: old(self)@.regs.update(
                    x as int,
                    old(self)@.regs[x as int] | old(self)@.regs[y as int],
                ),
                ..old(self)@
            }),
    {
        let v = self.v_regs[x as usize] | self.v_regs[y as usize];
        self.v_regs.set(x as usize, v);
    }

    /// 8XY2: VX := VX & VY; no flag effect.
    fn op_and(&mut self, x: u8, y: u8)
        requires
            old(self)@.wf(),
            x < 16,
            y < 16,
        ensures
            final(self)@.wf(),
            final(self)@ == (MachineView {
                regs: old(self)@.regs.update(
                    x as int,
                    old(self)@.regs[x as int] & old(self)@.regs[y as int],
                ),
                ..old(self)@
            }),
    {
        let v = self.v_regs[x as usize] & self.v_regs[y as usize];
        self.v_regs.set(x as usize, v);
    }

    /// 8XY3: VX := VX ^ VY; no flag effect.
    fn op_xor(&mut self, x: u8, y: u8)
        requires
            old(self)@.wf(),
            x < 16,
            y < 16,
        ensures
            final(self)@.wf(),
            final(self)@ == (MachineView {
                regs: old(self)@.regs.update(
                    x as int,
                    old(self)@.regs[x as int] ^ old(self)@.regs[y as int],
                ),
                ..old(self)@
            }),
    {
        let v = self.v_regs[x as usize] ^ self.v_regs[y as usize];
        self.v_regs.set(x as usize, v);
    }

    /// 8XY4: add with carry flag.
    fn op_add(&mut self, x: u8, y: u8)
        requires
            old(self)@.wf(),
            x < 16,
            y < 16,
        ensures
            final(self)@.wf(),
            final(self)@ == spec_add(old(self)@, x, y),
    {
        let sum = self.v_regs[x as usize] as u16 + self.v_regs[y as usize] as u16;
        self.v_regs.set(x as usize, (sum % 256) as u8);
        let carry: u8 = if sum > 255 {
            1
        } else {
            0
        };
        self.v_regs.set(15, carry);
    }

    /// 8XY5 / 8XY7: dest := minuend - subtrahend wrapped, with the borrow
    /// flag; for 8XY5 the minuend is VX, for 8XY7 it is VY.
    fn op_sub(&mut self, a: u8, b: u8, dest: u8)
        requires
            old(self)@.wf(),
            a < 16,
            b < 16,
            dest < 16,
        ensures
            final(self)@.wf(),
            final(self)@ == spec_sub(old(self)@, a, b, dest),
    {
        let va = self.v_regs[a as usize];
        let vb = self.v_regs[b as usize];
        let diff = sub8(va, vb);
        self.v_regs.set(dest as usize, diff);
        let no_borrow: u8 = if va >= vb {
            1
        } else {
            0
        };
        self.v_regs.set(15, no_borrow);
    }

    /// 8XY6: logical shift right with the dropped bit in VF.
    fn op_shr(&mut self, x: u8)
        requires
            old(self)@.wf(),
            x < 16,
        ensures
            final(self)@.wf(),
            final(self)@ == spec_shr(old(self)@, x),
    {
        let vx = self.v_regs[x as usize];
        self.v_regs.set(x as usize, vx / 2);
        self.v_regs.set(15, vx % 2);
    }

    /// 8XYE: shift left with the dropped bit in VF.
    fn op_shl(&mut self, x: u8)
        requires
            old(self)@.wf(),
            x < 16,
        ensures
            final(self)@.wf(),
            final(self)@ == spec_shl(old(self)@, x),
    {
        let vx = self.v_regs[x as usize];
        self.v_regs.set(x as usize, ((vx as u16 * 2) % 256) as u8);
        self.v_regs.set(15, vx / 128);
    }

    /// ANNN: I := NNN.
    fn op_mov_i(&mut self, nnn: u16)
        requires
            old(self)@.wf(),
        ensures
            final(self)@.wf(),
            final(self)@ == (MachineView { i: nnn, ..old(self)@ }),
    {
        self.i_reg = nnn;
    }

    /// FX1E: I := I + VX with 16-bit wraparound; no flag effect.
    fn op_add_i(&mut self, x: u8)
        requires
            old(self)@.wf(),
            x < 16,
        ensures
            final(self)@.wf(),
            final(self)@ == (MachineView {
                i: (((old(self)@.i + old(self)@.regs[x as int]) % 0x10000) as u16),
                ..old(self)@
            }),
    {
        let sum = self.i_reg as u32 + self.v_regs[x as usize] as u32;
        self.i_reg = (sum % 0x10000) as u16;
    }

    /// FX29: I := the font address of the glyph in VX's low nibble; glyphs
    /// are 5 bytes apart starting at the font base.
    fn ld_font_addr_i(&mut self, x: u8)
        requires
            old(self)@.wf(),
            x < 16,
        ensures
            final(self)@.wf(),
            final(self)@ == (MachineView {
                i: ((FONT_BASE + 5 * (old(self)@.regs[x as int] % 16)) as u16),
                ..old(self)@
            }),
    {
        let glyph = self.v_regs[x as usize] % 16;
        self.i_reg = FONT_BASE as u16 + 5 * (glyph as u16);
    }

    /// FX07: VX := delay timer.
    fn op_get_delay(&mut self, x: u8)
        requires
            old(self)@.wf(),
            x < 16,
        ensures
            final(self)@.wf(),
            final(self)@ == (MachineView {
                regs: old(self)@.regs.update(x as int, old(self)@.delay),
                ..old(self)@
            }),
    {
        let d = self.delay_timer;
        self.v_regs.set(x as usize, d);
    }

    /// FX15: delay timer := VX.
    fn op_set_delay(&mut self, x: u8)
        requires
            old(self)@.wf(),
            x < 16,
        ensures
            final(self)@.wf(),
            final(self)@ == (MachineView { delay: old(self)@.regs[x as int], ..old(self)@ }),
    {
        self.delay_timer = self.v_regs[x as usize];
    }

    /// FX18: sound timer := VX.
    fn op_set_sound(&mut self, x: u8)
        requires
            old(self)@.wf(),
            x < 16,
        ensures
            final(self)@.wf(),
            final(self)@ == (MachineView { sound: old(self)@.regs[x as int], ..old(self)@ }),
    {
        self.sound_timer = self.v_regs[x as usize];
    }

    /// CXNN: VX := `r` & NN, where `r` is a byte drawn by the caller.
    fn op_rand(&mut self, x: u8, nn: u8, r: u8)
        requires
            old(self)@.wf(),
            x < 16,
        ensures
            final(self)@.wf(),
            final(self)@ == (MachineView {
                regs: old(self)@.regs.update(x as int, r & nn),
                ..old(self)@
            }),
    {
        self.v_regs.set(x as usize, r & nn);
    }

    /// EX9E: skip if the key in VX's low nibble is pressed.
    fn op_skip_key(&mut self, x: u8)
        requires
            old(self)@.wf(),
            x < 16,
            old(self)@.pc + 2 <= 0xFFFF,
        ensures
            final(self)@.wf(),
            final(self)@ == spec_skip(
                old(self)@,
                old(self)@.keys[(old(self)@.regs[x as int] % 16) as int],
            ),
    {
        let k = (self.v_regs[x as usize] % 16) as usize;
        if self.keys[k] {
            self.program_counter = self.program_counter + 2;
        }
    }

    /// EXA1: skip if the key in VX's low nibble is not pressed.
    fn op_skip_nokey(&mut self, x: u8)
        requires
            old(self)@.wf(),
            x < 16,
            old(self)@.pc + 2 <= 0xFFFF,
        ensures
            final(self)@.wf(),
            final(self)@ == spec_skip(
                old(self)@,
                !old(self)@.keys[(old(self)@.regs[x as int] % 16) as int],
            ),
    {
        let k = (self.v_regs[x as usize] % 16) as usize;
        if !self.keys[k] {
            self.program_counter = self.program_counter + 2;
        }
    }

    /// The lowest pressed key, or 16 if no key is pressed.
    fn lowest_pressed(&self) -> (r: usize)
        requires
            self@.wf(),
        ensures
            r == first_pressed(self@.keys),
    {
        let mut k: usize = 0;
        while k < NUM_KEYS
            invariant
                k <= NUM_KEYS,
                self@.wf(),
                forall|j: int| 0 <= j < k ==> !self@.keys[j],
            decreases NUM_KEYS - k,
        {
            if self.keys[k] {
                proof {
                    lemma_first_pressed_skip(self@.keys, k as int);
                }
                return k;
            }
            k += 1;
        }
        proof {
            lemma_first_pressed_skip(self@.keys, 16);
        }
        16
    }

    /// FX0A: wait for a key by re-executing until one is pressed.
    fn op_wait_key(&mut self, x: u8)
        requires
            old(self)@.wf(),
            x < 16,
            old(self)@.pc >= 2,
        ensures
            final(self)@.wf(),
            final(self)@ == spec_wait_key(old(self)@, x),
    {
        let k = self.lowest_pressed();
        if k < 16 {
            self.v_regs.set(x as usize, k as u8);
        } else {
            self.program_counter = self.program_counter - 2;
        }
    }

    /// FX33: binary-coded decimal of VX into memory at I, I+1, I+2.
    fn op_bcd(&mut self, x: u8)
        requires
            old(self)@.wf(),
            x < 16,
        ensures
            final(self)@.wf(),
            final(self)@ == spec_bcd(old(self)@, x),
    {
        let vx = self.v_regs[x as usize];
        let i0 = (self.i_reg as usize) % 4096;
        let i1 = ((self.i_reg as usize) + 1) % 4096;
        let i2 = ((self.i_reg as usize) + 2) % 4096;
        self.memory.set(i0, vx / 100);
        self.memory.set(i1, (vx / 10) % 10);
        self.memory.set(i2, vx % 10);
    }

    /// FX55: store V0..VX inclusive to memory starting at I.
    fn op_store_regs(&mut self, x: u8)
        requires
            old(self)@.wf(),
            x < 16,
        ensures
            final(self)@.wf(),
            final(self)@ == (MachineView {
                mem: store_span(old(self)@.mem, old(self)@.i, old(self)@.regs, x + 1),
                ..old(self)@
            }),
    {
        let mut k: usize = 0;
        while k <= x as usize
            invariant
                k <= x as usize + 1,
                x < 16,
                old(self)@.wf(),
                self@.mem.len() == RAM_SIZE,
                self@ == (MachineView {
                    mem: store_span(old(self)@.mem, old(self)@.i, old(self)@.regs, k as int),
                    ..old(self)@
                }),
            decreases x as usize + 1 - k,
        {
            let addr = ((self.i_reg as usize) + k) % 4096;
            let v = self.v_regs[k];
            self.memory.set(addr, v);
            k += 1;
        }
    }

    /// FX65: load V0..VX inclusive from memory starting at I.
    fn op_load_regs(&mut self, x: u8)
        requires
            old(self)@.wf(),
            x < 16,
        ensures
            final(self)@.wf(),
            final(self)@ == (MachineView {
                regs: load_span(old(self)@.regs, old(self)@.mem, old(self)@.i, x + 1),
                ..old(self)@
            }),
    {
        let mut k: usize = 0;
        while k <= x as usize
            invariant
                k <= x as usize + 1,
                x < 16,
                old(self)@.wf(),
                self@.regs.len() == NUM_REGS,
                self@ == (MachineView {
                    regs: load_span(old(self)@.regs, old(self)@.mem, old(self)@.i, k as int),
                    ..old(self)@
                }),
            decreases x as usize + 1 - k,
        {
            let addr = ((self.i_reg as usize) + k) % 4096;
            let v = self.memory[addr];
            self.v_regs.set(k, v);
            k += 1;
        }
    }

    /// DXYN: gather the sprite rows from memory at I (addresses wrapped),
    /// XOR-draw them at (VX, VY), and put the collision flag in VF.
    fn op_draw(&mut self, x: u8, y: u8, n: u8)
        requires
            old(self)@.wf(),
            x < 16,
            y < 16,
            n < 16,
        ensures
            final(self)@.wf(),
            final(self)@ == spec_draw(old(self)@, x, y, n),
    {
        let mut rows: Vec<u8> = Vec::new();
        let mut r: usize = 0;
        while r < n as usize
            invariant
                r <= n as usize,
                n < 16,
                old(self)@.wf(),
                self@ == old(self)@,
                rows@.len() == r,
                forall|k: int| 0 <= k < r ==> rows@[k] == old(self)@.mem[mem_addr(old(self)@.i, k)],
            decreases n as usize - r,
        {
            let addr = ((self.i_reg as usize) + r) % 4096;
            rows.push(self.memory[addr]);
            r += 1;
        }
        proof {
            assert(rows@ =~= sprite_rows(old(self)@.mem, old(self)@.i, n as int));
        }
        let vx = self.v_regs[x as usize];
        let vy = self.v_regs[y as usize];
        let collided = self.screen.blit_sprite(vx, vy, &rows);
        let flag: u8 = if collided {
            1
        } else {
            0
        };
        self.v_regs.set(15, flag);
    }

    /// Perform one decoded instruction; the program counter is already past
    /// it, as [`spec_exec`] expects.
    fn execute_instruction(&mut self, instr: Instruction)
        requires
            old(self)@.wf(),
            operands_in_range(instr),
            2 <= old(self)@.pc <= RAM_SIZE,
        ensures
            final(self)@.wf(),
            exists|rnd: u8| final(self)@ == spec_exec(old(self)@, instr, rnd),
    {
        match instr {
            Instruction::ClearScreen => {
                self.op_clear_screen();
                proof {
                    assert(self@ == spec_exec(old(self)@, instr, 0u8));
                }
            },
            Instruction::Ret => {
                self.op_ret();
                proof {
                    assert(self@ == spec_exec(old(self)@, instr, 0u8));
                }
            },
            Instruction::Jump(nnn) => {
                self.op_jump(nnn);
                proof {
                    assert(self@ == spec_exec(old(self)@, instr, 0u8));
                }
            },
            Instruction::Call(nnn) => {
                self.op_call(nnn);
                proof {
                    assert(self@ == spec_exec(old(self)@, instr, 0u8));
                }
            },
            Instruction::SkipEqVal(x, nn) => {
                self.op_skip_eq(x, nn);
                proof {
                    assert(self@ == spec_exec(old(self)@, instr, 0u8));
                }
            },
            Instruction::SkipNeqVal(x, nn) => {
                self.op_skip_neq(x, nn);
                proof {
                    assert(self@ == spec_exec(old(self)@, instr, 0u8));
                }
            },
            Instruction::SkipEqReg(x, y) => {
                self.op_skip_reg_eq(x, y);
                proof {
                    assert(self@ == spec_exec(old(self)@, instr, 0u8));
                }
            },
            Instruction::SetVal(x, nn) => {
                self.op_set_val(x, nn);
                proof {
                    assert(self@ == spec_exec(old(self)@, instr, 0u8));
                }
            },
            Instruction::AddVal(x, nn) => {
                self.op_incr_reg(x, nn);
                proof {
                    assert(self@ == spec_exec(old(self)@, instr, 0u8));
                }
            },
            Instruction::CopyReg(x, y) => {
                self.op_set_regs(x, y);
                proof {
                    assert(self@ == spec_exec(old(self)@, instr, 0u8));
                }
            },
            Instruction::OrReg(x, y) => {
                self.op_or(x, y);
                proof {
                    assert(self@ == spec_exec(old(self)@, instr, 0u8));
                }
            },
            Instruction::AndReg(x, y) => {
                self.op_and(x, y);
                proof {
                    assert(self@ == spec_exec(old(self)@, instr, 0u8));
                }
            },
            Instruction::XorReg(x, y) => {
                self.op_xor(x, y);
                proof {
                    assert(self@ == spec_exec(old(self)@, instr, 0u8));
                }
            },
            Instruction::AddReg(x, y) => {
                self.op_add(x, y);
                proof {
                    assert(self@ == spec_exec(old(self)@, instr, 0u8));
                }
            },
            Instruction::SubReg(x, y) => {
                self.op_sub(x, y, x);
                proof {
                    assert(self@ == spec_exec(old(self)@, instr, 0u8));
                }
            },
            Instruction::ShrReg(x, _y) => {
                self.op_shr(x);
                proof {
                    assert(self@ == spec_exec(old(self)@, instr, 0u8));
                }
            },
            Instruction::SubRev(x, y) => {
                self.op_sub(y, x, x);
                proof {
                    assert(self@ == spec_exec(old(self)@, instr, 0u8));
                }
            },
            Instruction::ShlReg(x, _y) => {
                self.op_shl(x);
                proof {
                    assert(self@ == spec_exec(old(self)@, instr, 0u8));
                }
            },
            Instruction::SkipNeqReg(x, y) => {
                self.op_skip_reg_neq(x, y);
                proof {
                    assert(self@ == spec_exec(old(self)@, instr, 0u8));
                }
            },
            Instruction::SetIndex(nnn) => {
                self.op_mov_i(nnn);
                proof {
                    assert(self@ == spec_exec(old(self)@, instr, 0u8));
                }
            },
            Instruction::JumpOffset(nnn) => {
                self.op_jump_offset(nnn);
                proof {
                    assert(self@ == spec_exec(old(self)@, instr, 0u8));
                }
            },
            Instruction::Rand(x, nn) => {
                let r: u8 = rand::random();
                self.op_rand(x, nn, r);
                proof {
                    assert(self@ == spec_exec(old(self)@, instr, r));
                }
            },
            Instruction::Draw(x, y, n) => {
                self.op_draw(x, y, n);
                proof {
                    assert(self@ == spec_exec(old(self)@, instr, 0u8));
                }
            },
            Instruction::SkipKey(x) => {
                self.op_skip_key(x);
                proof {
                    assert(self@ == spec_exec(old(self)@, instr, 0u8));
                }
            },
            Instruction::SkipNoKey(x) => {
                self.op_skip_nokey(x);
                proof {
                    assert(self@ == spec_exec(old(self)@, instr, 0u8));
                }
            },
            Instruction::GetDelay(x) => {
                self.op_get_delay(x);
                proof {
                    assert(self@ == spec_exec(old(self)@, instr, 0u8));
                }
            },
            Instruction::WaitKey(x) => {
                self.op_wait_key(x);
                proof {
                    assert(self@ == spec_exec(old(self)@, instr, 0u8));
                }
            },
            Instruction::SetDelay(x) => {
                self.op_set_delay(x);
                proof {
                    assert(self@ == spec_exec(old(self)@, instr, 0u8));
                }
            },
            Instruction::SetSound(x) => {
                self.op_set_sound(x);
                proof {
                    assert(self@ == spec_exec(old(self)@, instr, 0u8));
                }
            },
            Instruction::AddIndex(x) => {
                self.op_add_i(x);
                proof {
                    assert(self@ == spec_exec(old(self)@, instr, 0u8));
                }
            },
            Instruction::FontChar(x) => {
                self.ld_font_addr_i(x);
                proof {
                    assert(self@ == spec_exec(old(self)@, instr, 0u8));
                }
            },
            Instruction::Bcd(x) => {
                self.op_bcd(x);
                proof {
                    assert(self@ == spec_exec(old(self)@, instr, 0u8));
                }
            },
            Instruction::StoreRegs(x) => {
                self.op_store_regs(x);
                proof {
                    assert(self@ == spec_exec(old(self)@, instr, 0u8));
                }
            },
            Instruction::LoadRegs(x) => {
                self.op_load_regs(x);
                proof {
                    assert(self@ == spec_exec(old(self)@, instr, 0u8));
                }
            },
        }
    }

    /// One fetch-decode-execute cycle, the instruction clock of the
    /// machine: exactly the transition [`spec_step`], for some byte `rnd`
    /// standing for what CXNN drew.  Reports whether the machine can keep
    /// running; a halted machine is left untouched and keeps reporting
    /// `Finished`.
    pub fn tick(&mut self) -> (r: ProgramState)
        requires
            old(self)@.wf(),
        ensures
            final(self)@.wf(),
            exists|rnd: u8| final(self)@ == spec_step(old(self)@, rnd),
            r == (if final(self)@.halted() {
                ProgramState::Finished
            } else {
                ProgramState::Running
            }),
    {
        if self.finished || self.program_counter > RAM_SIZE as u16 - 2 {
            proof {
                assert(self@ == spec_step(old(self)@, 0u8));
            }
            return ProgramState::Finished;
        }
        let pc = self.program_counter as usize;
        let hi = self.memory[pc];
        let lo = self.memory[pc + 1];
        let op = (hi as u16) * 256 + (lo as u16);
        self.program_counter = self.program_counter + 2;
        let ghost s1 = self@;
        match decode(op) {
            Ok(instr) => {
                proof {
                    lemma_decode_operands_in_range(op);
                }
                self.execute_instruction(instr);
                proof {
                    let rnd = choose|rnd: u8| self@ == spec_exec(s1, instr, rnd);
                    assert(self@ == spec_step(old(self)@, rnd));
                }
            },
            Err(_) => {
                proof {
                    assert(self@ == spec_step(old(self)@, 0u8));
                }
            },
        }
        if self.finished || self.program_counter > RAM_SIZE as u16 - 2 {
            ProgramState::Finished
        } else {
            ProgramState::Running
        }
    }

    /// One instruction cycle, for hosts that do not watch the program
    /// state.  The timers are not touched: the host drives them through
    /// [`Chip8::tick_timers`] on its own clock.
    pub fn run_cycle(&mut self)
        requires
            old(self)@.wf(),
        ensures
            final(self)@.wf(),
            exists|rnd: u8| final(self)@ == spec_step(old(self)@, rnd),
    {
        let _ = self.tick();
    }
}

// Laws of the instruction set, stated over the spec transitions that the
// executable machine is proved to follow.

/// For all X, Y: 8XY4 sets VF to 1 exactly when the unsigned sum of the two
/// operand bytes exceeds 255, else to 0; and outside VF itself (which the
/// flag write overrides) VX ends as the sum modulo 256.
pub proof fn lemma_add_carry(s: MachineView, x: u8, y: u8)
    requires
        s.wf(),
        x < 16,
        y < 16,
    ensures
        spec_add(s, x, y).regs[15] == (if s.regs[x as int] + s.regs[y as int] > 255 {
            1u8
        } else {
            0u8
        }),
        x != 15 ==> spec_add(s, x, y).regs[x as int] == (s.regs[x as int] + s.regs[y as int]) % 256,
{
}

/// For all X, Y: 8XY5 sets VF to 1 exactly when VX >= VY held before the
/// operation, else to 0; and outside VF itself VX ends as (VX - VY)
/// modulo 256.
pub proof fn lemma_sub_borrow(s: MachineView, x: u8, y: u8)
    requires
        s.wf(),
        x < 16,
        y < 16,
    ensures
        spec_sub(s, x, y, x).regs[15] == (if s.regs[x as int] >= s.regs[y as int] {
            1u8
        } else {
            0u8
        }),
        x != 15 ==> spec_sub(s, x, y, x).regs[x as int] == (s.regs[x as int] - s.regs[y as int])
            % 256,
{
    vstd::arithmetic::div_mod::lemma_mod_bound(s.regs[x as int] - s.regs[y as int], 256);
}

/// 8XY6 and 8XYE leave in VF exactly the bit shifted out — the least
/// significant bit for the right shift, the most significant for the left —
/// and the shifts are logical, not arithmetic.
pub proof fn lemma_shift_flag(s: MachineView, x: u8)
    requires
        s.wf(),
        x < 16,
    ensures
        spec_shr(s, x).regs[15] == s.regs[x as int] & 1,
        x != 15 ==> spec_shr(s, x).regs[x as int] == s.regs[x as int] >> 1u8,
        spec_shl(s, x).regs[15] == (s.regs[x as int] >> 7u8) & 1,
        x != 15 ==> spec_shl(s, x).regs[x as int] == s.regs[x as int] << 1u8,
{
    let v = s.regs[x as int];
    assert(v % 2 == v & 1) by (bit_vector);
    assert(v / 2 == v >> 1u8) by (bit_vector);
    assert(v / 128 == (v >> 7u8) & 1) by (bit_vector);
    assert(((2 * v) % 256) as u8 == v << 1u8) by (bit_vector);
}

/// Drawing the same sprite at the same location twice in succession
/// restores the pre-draw framebuffer exactly.  The coordinate and height
/// operands are register indices, so the coordinate registers must not be
/// VF, which the first draw overwrites with its collision flag.
pub proof fn lemma_draw_twice_restores(s: MachineView, x: u8, y: u8, n: u8)
    requires
        s.wf(),
        x < 15,
        y < 15,
        n < 16,
    ensures
        spec_draw(spec_draw(s, x, y, n), x, y, n).px == s.px,
{
    let rows = sprite_rows(s.mem, s.i, n as int);
    let s1 = spec_draw(s, x, y, n);
    assert(sprite_rows(s1.mem, s1.i, n as int) =~= rows);
    crate::screen::lemma_blit_involution(s.px, s.regs[x as int], s.regs[y as int], rows);
}

/// Addresses I..I+15 (wrapped) are pairwise distinct: the wrap cannot fold
/// two of them together within one register span.
proof fn lemma_mem_addr_distinct(i: u16, k1: int, k2: int)
    requires
        0 <= k1 < k2,
        k2 - k1 < 4096,
    ensures
        mem_addr(i, k1) != mem_addr(i, k2),
{
    vstd::arithmetic::div_mod::lemma_fundamental_div_mod(i + k1, 4096);
    vstd::arithmetic::div_mod::lemma_fundamental_div_mod(i + k2, 4096);
    if mem_addr(i, k1) == mem_addr(i, k2) {
        let q1 = (i + k1) / 4096;
        let q2 = (i + k2) / 4096;
        assert(k2 - k1 == 4096 * q2 - 4096 * q1);
        assert(false);
    }
}

/// Storing a register span does not change the memory size.
proof fn lemma_store_span_len(mem: Seq<u8>, i: u16, regs: Seq<u8>, n: int)
    requires
        mem.len() == 4096,
    ensures
        store_span(mem, i, regs, n).len() == 4096,
    decreases n,
{
    if n > 0 {
        lemma_store_span_len(mem, i, regs, n - 1);
        vstd::arithmetic::div_mod::lemma_mod_bound(i + n - 1, 4096);
    }
}

/// After storing `n` registers, each written address holds its register.
proof fn lemma_store_span_at(mem: Seq<u8>, i: u16, regs: Seq<u8>, n: int, k: int)
    requires
        mem.len() == 4096,
        0 <= k < n <= 4096,
    ensures
        store_span(mem, i, regs, n)[mem_addr(i, k)] == regs[k],
    decreases n,
{
    vstd::arithmetic::div_mod::lemma_mod_bound(i + k, 4096);
    vstd::arithmetic::div_mod::lemma_mod_bound(i + n - 1, 4096);
    lemma_store_span_len(mem, i, regs, n - 1);
    if k < n - 1 {
        lemma_store_span_at(mem, i, regs, n - 1, k);
        lemma_mem_addr_distinct(i, k, n - 1);
    }
}

/// Loading registers from addresses that hold their own values leaves the
/// register file unchanged.
proof fn lemma_load_restores(regs0: Seq<u8>, mem1: Seq<u8>, i: u16, n: int)
    requires
        0 <= n <= regs0.len(),
        forall|k: int| 0 <= k < n ==> mem1[mem_addr(i, k)] == regs0[k],
    ensures
        load_span(regs0, mem1, i, n) == regs0,
    decreases n,
{
    if n > 0 {
        lemma_load_restores(regs0, mem1, i, n - 1);
        assert(load_span(regs0, mem1, i, n) =~= regs0);
    }
}

/// FX55 / FX65 round-trip: storing V0..VX to memory at I and then loading
/// V0..VX back from the same address reproduces the original register
/// values, for any X in [0, 15].  (The random bytes are irrelevant: neither
/// instruction draws one.)
pub proof fn lemma_store_load_roundtrip(s: MachineView, x: u8, rnd1: u8, rnd2: u8)
    requires
        s.wf(),
        x < 16,
    ensures
        spec_exec(
            spec_exec(s, Instruction::StoreRegs(x), rnd1),
            Instruction::LoadRegs(x),
            rnd2,
        ).regs == s.regs,
{
    let s1 = spec_exec(s, Instruction::StoreRegs(x), rnd1);
    assert forall|k: int| 0 <= k < x + 1 implies s1.mem[mem_addr(s.i, k)] == s.regs[k] by {
        lemma_store_span_at(s.mem, s.i, s.regs, x + 1, k);
    }
    lemma_load_restores(s.regs, s1.mem, s.i, x + 1);
}

/// Once halted — finished, or the program counter out of the instruction
/// space — a step is a no-op: the machine latches its final state.
pub proof fn lemma_halted_stays(s: MachineView, rnd: u8)
    requires
        s.halted(),
    ensures
        spec_step(s, rnd) == s,
{
}

/// Skipping a prefix of unpressed keys does not change the lowest pressed
/// key.
proof fn lemma_first_pressed_skip(keys: Seq<bool>, k: int)
    requires
        0 <= k <= 16,
        keys.len() == 16,
        forall|j: int| 0 <= j < k ==> !keys[j],
    ensures
        first_pressed(keys) == first_pressed_from(keys, k),
    decreases k,
{
    if k > 0 {
        lemma_first_pressed_skip(keys, k - 1);
    }
}

} // verus!
