//! The CHIP-8 virtual machine: memory, registers, call stack, timers and
//! framebuffer, together with the fetch-decode-execute step.
//!
//! The machine is modelled by the ghost [`MachineState`]; every mutating
//! operation states exactly how the new state relates to the old one. A
//! cycle either produces a successor state (spec'd by [`spec_cycle`]) or
//! halts with a [`Fault`] carrying the offending opcode and address, in
//! which case the machine is left unchanged.

use vstd::prelude::*;
use vstd::arithmetic::div_mod::{
    lemma_fundamental_div_mod, lemma_fundamental_div_mod_converse_div,
    lemma_fundamental_div_mod_converse_mod, lemma_mod_bound, lemma_small_mod,
};
use crate::bin::{
    first_nibble, second_nibble, third_nibble, fourth_nibble, lower_half, lower_three, to_byte,
    to_usize, spec_first_nibble, spec_second_nibble, spec_third_nibble, spec_fourth_nibble,
    spec_lower_half, spec_lower_three,
};

verus! {

pub const SCREEN_WIDTH: u16 = 64;

pub const SCREEN_HEIGHT: u16 = 32;

pub const SCREEN_SIZE: usize = 2048;

pub const MEMORY_SIZE: usize = 4096;

pub const STACK_SIZE: usize = 25;

pub const NUM_REGISTERS: usize = 16;

pub const FONTSET_OFFSET: usize = 0x50;

pub const FONTSET_LEN: usize = 80;

/// A fatal execution condition; the offending opcode and the address of the
/// instruction are carried for the diagnostic.
#[derive(Clone, Copy, Debug, PartialEq, Eq, Structural)]
pub enum Fault {
    UnknownOpcode { opcode: u16, address: usize },
    StackOverflow { opcode: u16, address: usize },
    StackUnderflow { opcode: u16, address: usize },
    OutOfBounds { opcode: u16, address: usize },
}

/// The mathematical model of the whole machine.
#[verifier::ext_equal]
pub ghost struct MachineState {
    pub pc: int,
    pub mem: Seq<u8>,
    pub stack: Seq<usize>,
    pub sp: int,
    pub regs: Seq<u8>,
    pub index: u16,
    pub delay: u8,
    pub sound: u8,
    pub key: u8,
    pub fb: Seq<u8>,
}

impl MachineState {
    /// Well-formedness: fixed sizes, a program counter that stays below the
    /// largest address any instruction can compute, a stack pointer inside
    /// the stack, return addresses that are themselves valid program
    /// counters, and binary pixels.
    pub open spec fn wf(self) -> bool {
        &&& self.mem.len() == MEMORY_SIZE
        &&& self.stack.len() == STACK_SIZE
        &&& self.regs.len() == NUM_REGISTERS
        &&& self.fb.len() == SCREEN_SIZE
        &&& 0 <= self.pc <= 0xFFF + 0xFF
        &&& 0 <= self.sp < STACK_SIZE
        &&& forall|k: int| 0 <= k < STACK_SIZE ==> #[trigger] self.stack[k] <= MEMORY_SIZE
        &&& forall|i: int| 0 <= i < SCREEN_SIZE ==> #[trigger] self.fb[i] <= 1
    }
}

/// One row of the built-in hex-digit sprite table: glyph `k / 5`, row `k % 5`.
pub open spec fn spec_font_byte(k: int) -> u8 {
    let g = k / 5;
    let r = k % 5;
    if g == 0x0 {
        if r == 0 { 0xF0 } else if r == 1 { 0x90 } else if r == 2 { 0x90 } else if r == 3 { 0x90 } else { 0xF0 }
    } else if g == 0x1 {
        if r == 0 { 0x20 } else if r == 1 { 0x60 } else if r == 2 { 0x20 } else if r == 3 { 0x20 } else { 0x70 }
    } else if g == 0x2 {
        if r == 0 { 0xF0 } else if r == 1 { 0x10 } else if r == 2 { 0xF0 } else if r == 3 { 0x80 } else { 0xF0 }
    } else if g == 0x3 {
        if r == 0 { 0xF0 } else if r == 1 { 0x10 } else if r == 2 { 0xF0 } else if r == 3 { 0x10 } else { 0xF0 }
    } else if g == 0x4 {
        if r == 0 { 0x90 } else if r == 1 { 0x90 } else if r == 2 { 0xF0 } else if r == 3 { 0x10 } else { 0x10 }
    } else if g == 0x5 {
        if r == 0 { 0xF0 } else if r == 1 { 0x80 } else if r == 2 { 0xF0 } else if r == 3 { 0x10 } else { 0xF0 }
    } else if g == 0x6 {
        if r == 0 { 0xF0 } else if r == 1 { 0x80 } else if r == 2 { 0xF0 } else if r == 3 { 0x90 } else { 0xF0 }
    } else if g == 0x7 {
        if r == 0 { 0xF0 } else if r == 1 { 0x10 } else if r == 2 { 0x20 } else if r == 3 { 0x40 } else { 0x40 }
    } else if g == 0x8 {
        if r == 0 { 0xF0 } else if r == 1 { 0x90 } else if r == 2 { 0xF0 } else if r == 3 { 0x90 } else { 0xF0 }
    } else if g == 0x9 {
        if r == 0 { 0xF0 } else if r == 1 { 0x90 } else if r == 2 { 0xF0 } else if r == 3 { 0x10 } else { 0xF0 }
    } else if g == 0xA {
        if r == 0 { 0xF0 } else if r == 1 { 0x90 } else if r == 2 { 0xF0 } else if r == 3 { 0x90 } else { 0x90 }
    } else if g == 0xB {
        if r == 0 { 0xE0 } else if r == 1 { 0x90 } else if r == 2 { 0xE0 } else if r == 3 { 0x90 } else { 0xE0 }
    } else if g == 0xC {
        if r == 0 { 0xF0 } else if r == 1 { 0x80 } else if r == 2 { 0x80 } else if r == 3 { 0x80 } else { 0xF0 }
    } else if g == 0xD {
        if r == 0 { 0xE0 } else if r == 1 { 0x90 } else if r == 2 { 0x90 } else if r == 3 { 0x90 } else { 0xE0 }
    } else if g == 0xE {
        if r == 0 { 0xF0 } else if r == 1 { 0x80 } else if r == 2 { 0xF0 } else if r == 3 { 0x80 } else { 0xF0 }
    } else {
        if r == 0 { 0xF0 } else if r == 1 { 0x80 } else if r == 2 { 0xF0 } else if r == 3 { 0x80 } else { 0x80 }
    }
}

/// Memory at start-up: zero everywhere but the sprite table region.
pub open spec fn spec_initial_mem() -> Seq<u8> {
    Seq::new(MEMORY_SIZE as nat, |j: int| {
        if FONTSET_OFFSET <= j < FONTSET_OFFSET + FONTSET_LEN {
            spec_font_byte(j - FONTSET_OFFSET)
        } else {
            0u8
        }
    })
}

/// An all-unset framebuffer.
pub open spec fn spec_zero_fb() -> Seq<u8> {
    Seq::new(SCREEN_SIZE as nat, |i: int| 0u8)
}

/// The machine after initialization: everything zeroed, the sprite table in
/// place, the program counter at the conventional program start.
pub open spec fn spec_initial_state() -> MachineState {
    MachineState {
        pc: 0x200,
        mem: spec_initial_mem(),
        stack: Seq::new(STACK_SIZE as nat, |k: int| 0usize),
        sp: 0,
        regs: Seq::new(NUM_REGISTERS as nat, |k: int| 0u8),
        index: 0,
        delay: 0,
        sound: 0,
        key: 0,
        fb: spec_zero_fb(),
    }
}

/// Memory with `data` written over the region starting at `off`.
pub open spec fn spec_write_block(mem: Seq<u8>, data: Seq<u8>, off: int) -> Seq<u8> {
    Seq::new(mem.len(), |j: int| if off <= j < off + data.len() { data[j - off] } else { mem[j] })
}

/// A timer value after one 60 Hz tick: decremented, saturating at zero.
pub open spec fn spec_tick(t: u8) -> u8 {
    if t == 0 { 0 } else { (t - 1) as u8 }
}

/// The virtual machine. All emulated state is owned here; the framebuffer is
/// handed out only as a read view.
pub struct System {
    program_counter: usize,
    memory: Vec<u8>,
    stack: Vec<usize>,
    stack_pointer: usize,
    v_registers: Vec<u8>,
    index_register: u16,
    delay_timer: u8,
    sound_timer: u8,
    keyboard_input: u8,
    framebuffer: Vec<u8>,
}

impl View for System {
    type V = MachineState;

    closed spec fn view(&self) -> MachineState {
        MachineState {
            pc: self.program_counter as int,
            mem: self.memory@,
            stack: self.stack@,
            sp: self.stack_pointer as int,
            regs: self.v_registers@,
            index: self.index_register,
            delay: self.delay_timer,
            sound: self.sound_timer,
            key: self.keyboard_input,
            fb: self.framebuffer@,
        }
    }
}

fn zeroed_bytes(n: usize) -> (v: Vec<u8>)
    ensures
        v@.len() == n,
        forall|t: int| 0 <= t < n ==> #[trigger] v@[t] == 0u8,
{
    let mut v: Vec<u8> = Vec::new();
    let mut j: usize = 0;
    while j < n
        invariant
            v@.len() == j,
            j <= n,
            forall|t: int| 0 <= t < j ==> #[trigger] v@[t] == 0u8,
        decreases n - j,
    {
        v.push(0);
        j += 1;
    }
    v
}

/// One row of the sprite table, as executable code; exactly
/// [`spec_font_byte`].
fn font_byte(k: usize) -> (r: u8)
    requires
        k < FONTSET_LEN,
    ensures
        r == spec_font_byte(k as int),
{
    let g = k / 5;
    let r = k % 5;
    match g {
        0x0 => match r { 0 => 0xF0, 1 => 0x90, 2 => 0x90, 3 => 0x90, _ => 0xF0 },
        0x1 => match r { 0 => 0x20, 1 => 0x60, 2 => 0x20, 3 => 0x20, _ => 0x70 },
        0x2 => match r { 0 => 0xF0, 1 => 0x10, 2 => 0xF0, 3 => 0x80, _ => 0xF0 },
        0x3 => match r { 0 => 0xF0, 1 => 0x10, 2 => 0xF0, 3 => 0x10, _ => 0xF0 },
        0x4 => match r { 0 => 0x90, 1 => 0x90, 2 => 0xF0, 3 => 0x10, _ => 0x10 },
        0x5 => match r { 0 => 0xF0, 1 => 0x80, 2 => 0xF0, 3 => 0x10, _ => 0xF0 },
        0x6 => match r { 0 => 0xF0, 1 => 0x80, 2 => 0xF0, 3 => 0x90, _ => 0xF0 },
        0x7 => match r { 0 => 0xF0, 1 => 0x10, 2 => 0x20, 3 => 0x40, _ => 0x40 },
        0x8 => match r { 0 => 0xF0, 1 => 0x90, 2 => 0xF0, 3 => 0x90, _ => 0xF0 },
        0x9 => match r { 0 => 0xF0, 1 => 0x90, 2 => 0xF0, 3 => 0x10, _ => 0xF0 },
        0xA => match r { 0 => 0xF0, 1 => 0x90, 2 => 0xF0, 3 => 0x90, _ => 0x90 },
        0xB => match r { 0 => 0xE0, 1 => 0x90, 2 => 0xE0, 3 => 0x90, _ => 0xE0 },
        0xC => match r { 0 => 0xF0, 1 => 0x80, 2 => 0x80, 3 => 0x80, _ => 0xF0 },
        0xD => match r { 0 => 0xE0, 1 => 0x90, 2 => 0x90, 3 => 0x90, _ => 0xE0 },
        0xE => match r { 0 => 0xF0, 1 => 0x80, 2 => 0xF0, 3 => 0x80, _ => 0xF0 },
        _ => match r { 0 => 0xF0, 1 => 0x80, 2 => 0xF0, 3 => 0x80, _ => 0x80 },
    }
}

impl Default for System {
    /// The machine at start-up: state zeroed, sprite table loaded, program
    /// counter at the conventional program start.
    fn default() -> (s: System)
        ensures
            s@.wf(),
            s@ == spec_initial_state(),
    {
        let mut memory = zeroed_bytes(MEMORY_SIZE);
        let mut k: usize = 0;
        while k < FONTSET_LEN
            invariant
                memory@.len() == MEMORY_SIZE,
                k <= FONTSET_LEN,
                forall|t: int|
                    0 <= t < MEMORY_SIZE ==> #[trigger] memory@[t] == (if FONTSET_OFFSET <= t
                        < FONTSET_OFFSET + k {
                        spec_font_byte(t - FONTSET_OFFSET)
                    } else {
                        0u8
                    }),
            decreases FONTSET_LEN - k,
        {
            let b = font_byte(k);
            memory.set(FONTSET_OFFSET + k, b);
            k += 1;
        }

        let mut stack: Vec<usize> = Vec::new();
        let mut j: usize = 0;
        while j < STACK_SIZE
            invariant
                stack@.len() == j,
                j <= STACK_SIZE,
                forall|t: int| 0 <= t < j ==> #[trigger] stack@[t] == 0usize,
            decreases STACK_SIZE - j,
        {
            stack.push(0);
            j += 1;
        }

        let v_registers = zeroed_bytes(NUM_REGISTERS);
        let framebuffer = zeroed_bytes(SCREEN_SIZE);

        let s = System {
            program_counter: 0x200,
            memory,
            stack,
            stack_pointer: 0,
            v_registers,
            index_register: 0,
            delay_timer: 0,
            sound_timer: 0,
            keyboard_input: 0,
            framebuffer,
        };
        proof {
            assert(s@.mem =~= spec_initial_mem());
            assert(s@.stack =~= Seq::new(STACK_SIZE as nat, |k: int| 0usize));
            assert(s@.regs =~= Seq::new(NUM_REGISTERS as nat, |k: int| 0u8));
            assert(s@.fb =~= spec_zero_fb());
            assert(s@ =~= spec_initial_state());
        }
        s
    }
}

impl System {
    /// Copies a loaded data image into memory at `offset`. The image must
    /// fit; the caller checks this before calling.
    pub fn copy_buffer_to_memory(&mut self, buffer: Vec<u8>, offset: usize)
        requires
            old(self)@.wf(),
            buffer@.len() + offset <= MEMORY_SIZE,
        ensures
            final(self)@.wf(),
            final(self)@ == (MachineState {
                mem: spec_write_block(old(self)@.mem, buffer@, offset as int),
                ..old(self)@
            }),
    {
        let mut counter: usize = offset;
        let n = buffer.len();
        let mut i: usize = 0;
        while i < n
            invariant
                old(self)@.wf(),
                n == buffer@.len(),
                i <= n,
                counter == offset + i,
                offset + n <= MEMORY_SIZE,
                self@ == (MachineState { mem: self@.mem, ..old(self)@ }),
                self@.mem.len() == MEMORY_SIZE,
                forall|t: int|
                    0 <= t < MEMORY_SIZE ==> #[trigger] self@.mem[t] == (if offset <= t < offset
                        + i {
                        buffer@[t - offset]
                    } else {
                        old(self)@.mem[t]
                    }),
            decreases n - i,
        {
            let data = buffer[i];
            self.memory.set(counter, data);
            counter += 1;
            i += 1;
        }
        proof {
            assert(self@.mem =~= spec_write_block(old(self)@.mem, buffer@, offset as int));
            assert(self@ =~= (MachineState {
                mem: spec_write_block(old(self)@.mem, buffer@, offset as int),
                ..old(self)@
            }));
        }
    }

    /// Latches the key observed at the frame boundary; `0xff` means no key.
    pub fn set_key(&mut self, key: u8)
        requires
            old(self)@.wf(),
        ensures
            final(self)@.wf(),
            final(self)@ == (MachineState { key: key, ..old(self)@ }),
    {
        self.keyboard_input = key;
        proof {
            assert(self@ =~= (MachineState { key: key, ..old(self)@ }));
        }
    }

    /// One 60 Hz decay step of both timers, each saturating at zero. Returns
    /// whether the tone should stop, which is exactly when the sound timer
    /// had already run out.
    pub fn tick_timers(&mut self) -> (stop_sound: bool)
        requires
            old(self)@.wf(),
        ensures
            final(self)@.wf(),
            final(self)@ == (MachineState {
                delay: spec_tick(old(self)@.delay),
                sound: spec_tick(old(self)@.sound),
                ..old(self)@
            }),
            stop_sound == (old(self)@.sound == 0),
    {
        if self.delay_timer != 0 {
            self.delay_timer = self.delay_timer - 1;
        }
        let stop_sound = self.sound_timer == 0;
        if self.sound_timer != 0 {
            self.sound_timer = self.sound_timer - 1;
        }
        proof {
            assert(self@ =~= (MachineState {
                delay: spec_tick(old(self)@.delay),
                sound: spec_tick(old(self)@.sound),
                ..old(self)@
            }));
        }
        stop_sound
    }

    pub fn program_counter(&self) -> (r: usize)
        ensures
            r as int == self@.pc,
    {
        self.program_counter
    }

    pub fn index_register(&self) -> (r: u16)
        ensures
            r == self@.index,
    {
        self.index_register
    }

    pub fn register(&self, i: usize) -> (r: u8)
        requires
            self@.wf(),
            i < NUM_REGISTERS,
        ensures
            r == self@.regs[i as int],
    {
        self.v_registers[i]
    }

    pub fn memory_at(&self, address: usize) -> (r: u8)
        requires
            self@.wf(),
            address < MEMORY_SIZE,
        ensures
            r == self@.mem[address as int],
    {
        self.memory[address]
    }

    pub fn delay_timer(&self) -> (r: u8)
        ensures
            r == self@.delay,
    {
        self.delay_timer
    }

    pub fn sound_timer(&self) -> (r: u8)
        ensures
            r == self@.sound,
    {
        self.sound_timer
    }

    /// A read view of the framebuffer, for rendering.
    pub fn framebuffer(&self) -> (r: &Vec<u8>)
        ensures
            r@ == self@.fb,
    {
        &self.framebuffer
    }
}

/// The instruction word fetched big-endian at the program counter.
/// Meaningful only when `s.pc + 1` is a valid address.
pub open spec fn spec_fetch(s: MachineState) -> u16 {
    ((s.mem[s.pc] as u16) << 8) | (s.mem[s.pc + 1] as u16)
}

/// The outcome of one cycle: a successor state together with whether the
/// tone starts, or a fatal fault that leaves the machine unchanged.
pub ghost enum Step {
    Next { s: MachineState, start_sound: bool },
    Halt { fault: Fault },
}

pub open spec fn step_next(s: MachineState) -> Step {
    Step::Next { s, start_sound: false }
}

/// The program counter advanced past the current instruction.
pub open spec fn spec_adv(s: MachineState) -> MachineState {
    MachineState { pc: s.pc + 2, ..s }
}

/// A conditional skip: past the next instruction when `cond` holds.
pub open spec fn spec_skip(s: MachineState, cond: bool) -> MachineState {
    MachineState { pc: s.pc + (if cond { 4int } else { 2int }), ..s }
}

pub open spec fn spec_set_reg(s: MachineState, x: int, v: u8) -> MachineState {
    MachineState { regs: s.regs.update(x, v), ..s }
}

/// The arithmetic/logic family: both operands are read before either the
/// flag register or the destination is written, and the flag is written
/// first, so a destination of 15 ends up holding the result.
pub open spec fn spec_alu(s: MachineState, op: u16) -> Step {
    let x = spec_second_nibble(op) as int;
    let y = spec_third_nibble(op) as int;
    let n = spec_fourth_nibble(op);
    let vx = s.regs[x];
    let vy = s.regs[y];
    if n == 0x0 {
        step_next(spec_adv(spec_set_reg(s, x, vy)))
    } else if n == 0x1 {
        step_next(spec_adv(spec_set_reg(s, x, vx | vy)))
    } else if n == 0x2 {
        step_next(spec_adv(spec_set_reg(s, x, vx & vy)))
    } else if n == 0x3 {
        step_next(spec_adv(spec_set_reg(s, x, vx ^ vy)))
    } else if n == 0x4 {
        let flag: u8 = if vx + vy > 255 { 1 } else { 0 };
        let regs1 = s.regs.update(15, flag);
        step_next(spec_adv(MachineState { regs: regs1.update(x, ((vx + vy) % 256) as u8), ..s }))
    } else if n == 0x5 {
        let flag: u8 = if vx >= vy { 1 } else { 0 };
        let regs1 = s.regs.update(15, flag);
        step_next(
            spec_adv(MachineState { regs: regs1.update(x, ((vx - vy + 256) % 256) as u8), ..s }),
        )
    } else if n == 0x6 {
        let regs1 = s.regs.update(15, vx & 1);
        step_next(spec_adv(MachineState { regs: regs1.update(x, regs1[x] >> 1), ..s }))
    } else if n == 0x7 {
        let flag: u8 = if vy >= vx { 1 } else { 0 };
        let regs1 = s.regs.update(15, flag);
        step_next(
            spec_adv(MachineState { regs: regs1.update(x, ((vy - vx + 256) % 256) as u8), ..s }),
        )
    } else if n == 0xE {
        let regs1 = s.regs.update(15, (vx & 0x80) >> 7);
        step_next(spec_adv(MachineState { regs: regs1.update(x, regs1[x] << 1), ..s }))
    } else {
        Step::Halt { fault: Fault::UnknownOpcode { opcode: op, address: s.pc as usize } }
    }
}

/// The sprite row offset a framebuffer cell is hit in, given the top row of
/// the sprite (already reduced modulo the screen height).
pub open spec fn cell_dy(ty0: int, idx: int) -> int {
    (idx / 64 - ty0 + 32) % 32
}

/// The sprite column offset a framebuffer cell is hit in, given the left
/// column of the sprite (already reduced modulo the screen width).
pub open spec fn cell_dx(tx0: int, idx: int) -> int {
    (idx % 64 - tx0 + 64) % 64
}

/// Bit `dx` of a sprite row, counted from the most significant bit.
pub open spec fn spec_sprite_bit(row: u8, dx: int) -> u8 {
    (row >> ((7 - dx) as u8)) & 1
}

/// The framebuffer after an `h`-row sprite at memory `base` is XOR-blitted
/// with its top-left corner at column `tx0`, row `ty0`; both coordinates
/// wrap per pixel. Since the sprite is 8 wide and at most 15 tall, no cell
/// is hit twice, so the result is pointwise.
pub open spec fn spec_draw_fb(
    fb: Seq<u8>,
    mem: Seq<u8>,
    base: int,
    tx0: int,
    ty0: int,
    h: int,
) -> Seq<u8> {
    Seq::new(
        fb.len(),
        |idx: int|
            {
                if cell_dy(ty0, idx) < h && cell_dx(tx0, idx) < 8 {
                    fb[idx] ^ spec_sprite_bit(mem[base + cell_dy(ty0, idx)], cell_dx(tx0, idx))
                } else {
                    fb[idx]
                }
            },
    )
}

/// Whether the blit turns this particular cell from set to unset.
pub open spec fn spec_collides_at(
    fb: Seq<u8>,
    mem: Seq<u8>,
    base: int,
    tx0: int,
    ty0: int,
    idx: int,
) -> bool {
    let dy = cell_dy(ty0, idx);
    let dx = cell_dx(tx0, idx);
    &&& dx < 8
    &&& fb[idx] != 0
    &&& fb[idx] ^ spec_sprite_bit(mem[base + dy], dx) == 0
}

/// Whether the blit turns any pixel from set to unset.
pub open spec fn spec_draw_collision(
    fb: Seq<u8>,
    mem: Seq<u8>,
    base: int,
    tx0: int,
    ty0: int,
    h: int,
) -> bool {
    exists|idx: int|
        0 <= idx < fb.len() && cell_dy(ty0, idx) < h && #[trigger] spec_collides_at(
            fb,
            mem,
            base,
            tx0,
            ty0,
            idx,
        )
}

/// The cells already blitted after the first `dy` full rows and `dx` cells
/// of the next row.
pub open spec fn drawn_upto(ty0: int, tx0: int, dy: int, dx: int, idx: int) -> bool {
    ||| (cell_dy(ty0, idx) < dy && cell_dx(tx0, idx) < 8)
    ||| (cell_dy(ty0, idx) == dy && cell_dx(tx0, idx) < dx)
}

/// The sprite-draw instruction: faults when the sprite rows reach past the
/// end of memory, otherwise blits and reports the collision in the flag
/// register.
pub open spec fn spec_draw_step(s: MachineState, op: u16) -> Step {
    let x = spec_second_nibble(op) as int;
    let y = spec_third_nibble(op) as int;
    let h = spec_fourth_nibble(op) as int;
    if h > 0 && s.index + h > MEMORY_SIZE {
        Step::Halt { fault: Fault::OutOfBounds { opcode: op, address: s.pc as usize } }
    } else {
        let base = s.index as int;
        let tx0 = s.regs[x] as int % 64;
        let ty0 = s.regs[y] as int % 32;
        let fb1 = spec_draw_fb(s.fb, s.mem, base, tx0, ty0, h);
        let flag: u8 = if spec_draw_collision(s.fb, s.mem, base, tx0, ty0, h) {
            1
        } else {
            0
        };
        step_next(spec_adv(MachineState { fb: fb1, regs: s.regs.update(15, flag), ..s }))
    }
}

/// Memory with registers 0 through `x` (inclusive) written at `base`.
pub open spec fn spec_store_regs(mem: Seq<u8>, regs: Seq<u8>, base: int, x: int) -> Seq<u8> {
    Seq::new(mem.len(), |j: int| if base <= j <= base + x { regs[j - base] } else { mem[j] })
}

/// Registers 0 through `x` (inclusive) replaced from memory at `base`.
pub open spec fn spec_load_regs(regs: Seq<u8>, mem: Seq<u8>, base: int, x: int) -> Seq<u8> {
    Seq::new(regs.len(), |j: int| if j <= x { mem[base + j] } else { regs[j] })
}

/// The timer/memory family dispatched on the low byte.
pub open spec fn spec_misc(s: MachineState, op: u16) -> Step {
    let x = spec_second_nibble(op) as int;
    let kk = spec_lower_half(op);
    let vx = s.regs[x];
    if kk == 0x07 {
        step_next(spec_adv(spec_set_reg(s, x, s.delay)))
    } else if kk == 0x0A {
        // Key wait: without a key the program counter stays put and the
        // instruction re-executes next cycle.
        if s.key != 0xff {
            step_next(spec_adv(spec_set_reg(s, x, s.key)))
        } else {
            Step::Next { s, start_sound: false }
        }
    } else if kk == 0x15 {
        step_next(spec_adv(MachineState { delay: vx, ..s }))
    } else if kk == 0x18 {
        Step::Next { s: spec_adv(MachineState { sound: vx, ..s }), start_sound: vx > 0 }
    } else if kk == 0x1E {
        step_next(spec_adv(MachineState { index: ((s.index + vx) % 0x10000) as u16, ..s }))
    } else if kk == 0x29 {
        step_next(
            spec_adv(MachineState { index: ((vx as int) * 5 + FONTSET_OFFSET) as u16, ..s }),
        )
    } else if kk == 0x33 {
        if s.index + 2 >= MEMORY_SIZE {
            Step::Halt { fault: Fault::OutOfBounds { opcode: op, address: s.pc as usize } }
        } else {
            let b = s.index as int;
            let v = vx as int;
            let m = s.mem.update(b, (v / 100) as u8).update(b + 1, ((v / 10) % 10) as u8).update(
                b + 2,
                (v % 10) as u8,
            );
            step_next(spec_adv(MachineState { mem: m, ..s }))
        }
    } else if kk == 0x55 {
        if s.index + x >= MEMORY_SIZE {
            Step::Halt { fault: Fault::OutOfBounds { opcode: op, address: s.pc as usize } }
        } else {
            step_next(
                spec_adv(
                    MachineState { mem: spec_store_regs(s.mem, s.regs, s.index as int, x), ..s },
                ),
            )
        }
    } else if kk == 0x65 {
        if s.index + x >= MEMORY_SIZE {
            Step::Halt { fault: Fault::OutOfBounds { opcode: op, address: s.pc as usize } }
        } else {
            step_next(
                spec_adv(
                    MachineState { regs: spec_load_regs(s.regs, s.mem, s.index as int, x), ..s },
                ),
            )
        }
    } else {
        Step::Halt { fault: Fault::UnknownOpcode { opcode: op, address: s.pc as usize } }
    }
}

/// One fetch-decode-execute cycle as a pure transition. `rand` is the byte
/// the random-register instruction masks; every other instruction ignores
/// it.
pub open spec fn spec_cycle(s: MachineState, rand: u8) -> Step {
    if s.pc + 1 >= MEMORY_SIZE {
        Step::Halt { fault: Fault::OutOfBounds { opcode: 0, address: s.pc as usize } }
    } else {
        let op = spec_fetch(s);
        let fam = spec_first_nibble(op);
        let x = spec_second_nibble(op) as int;
        let y = spec_third_nibble(op) as int;
        let n = spec_fourth_nibble(op);
        let kk = spec_lower_half(op) as u8;
        let nnn = spec_lower_three(op) as int;
        if fam == 0x0 {
            if op == 0x00E0 {
                step_next(spec_adv(MachineState { fb: spec_zero_fb(), ..s }))
            } else if op == 0x00EE {
                if s.sp == 0 {
                    Step::Halt { fault: Fault::StackUnderflow { opcode: op, address: s.pc as usize } }
                } else {
                    step_next(MachineState { pc: s.stack[s.sp] as int, sp: s.sp - 1, ..s })
                }
            } else {
                // Machine-code call: ignored.
                step_next(spec_adv(s))
            }
        } else if fam == 0x1 {
            step_next(MachineState { pc: nnn, ..s })
        } else if fam == 0x2 {
            if s.sp + 1 >= STACK_SIZE {
                Step::Halt { fault: Fault::StackOverflow { opcode: op, address: s.pc as usize } }
            } else {
                step_next(
                    MachineState {
                        stack: s.stack.update(s.sp + 1, (s.pc + 2) as usize),
                        sp: s.sp + 1,
                        pc: nnn,
                        ..s
                    },
                )
            }
        } else if fam == 0x3 {
            step_next(spec_skip(s, s.regs[x] == kk))
        } else if fam == 0x4 {
            step_next(spec_skip(s, s.regs[x] != kk))
        } else if fam == 0x5 {
            if n == 0x0 {
                step_next(spec_skip(s, s.regs[x] == s.regs[y]))
            } else {
                Step::Halt { fault: Fault::UnknownOpcode { opcode: op, address: s.pc as usize } }
            }
        } else if fam == 0x6 {
            step_next(spec_adv(spec_set_reg(s, x, kk)))
        } else if fam == 0x7 {
            step_next(spec_adv(spec_set_reg(s, x, ((s.regs[x] + kk) % 256) as u8)))
        } else if fam == 0x8 {
            spec_alu(s, op)
        } else if fam == 0x9 {
            if n == 0x0 {
                step_next(spec_skip(s, s.regs[x] != s.regs[y]))
            } else {
                Step::Halt { fault: Fault::UnknownOpcode { opcode: op, address: s.pc as usize } }
            }
        } else if fam == 0xA {
            step_next(spec_adv(MachineState { index: nnn as u16, ..s }))
        } else if fam == 0xB {
            step_next(MachineState { pc: nnn + s.regs[0], ..s })
        } else if fam == 0xC {
            step_next(spec_adv(spec_set_reg(s, x, rand & kk)))
        } else if fam == 0xD {
            spec_draw_step(s, op)
        } else if fam == 0xE {
            if kk == 0x9E {
                step_next(spec_skip(s, s.key == s.regs[x]))
            } else if kk == 0xA1 {
                step_next(spec_skip(s, s.key != s.regs[x]))
            } else {
                Step::Halt { fault: Fault::UnknownOpcode { opcode: op, address: s.pc as usize } }
            }
        } else {
            spec_misc(s, op)
        }
    }
}

/// How a cycle's outcome, the machine afterwards and the returned value
/// relate: on a successor state the machine holds it and the tone decision
/// comes back as `Ok`; on a fault the machine is unchanged and the fault
/// comes back as `Err`.
pub open spec fn cycle_matches(
    pre: MachineState,
    rand: u8,
    post: MachineState,
    r: Result<bool, Fault>,
) -> bool {
    match spec_cycle(pre, rand) {
        Step::Next { s, start_sound } => post == s && r == Ok::<bool, Fault>(start_sound),
        Step::Halt { fault } => post == pre && r == Err::<bool, Fault>(fault),
    }
}

proof fn lemma_wrap(a: int, r: int, m: int)
    requires
        0 <= a < m,
        0 <= r < m,
    ensures
        0 <= (a + r) % m < m,
        ((a + r) % m - a + m) % m == r,
{
    if a + r < m {
        lemma_small_mod((a + r) as nat, m as nat);
        lemma_fundamental_div_mod_converse_mod(r + m, m, 1, r);
    } else {
        lemma_fundamental_div_mod_converse_mod(a + r, m, 1, a + r - m);
        lemma_small_mod(r as nat, m as nat);
    }
}

proof fn lemma_wrap_inv(a: int, c: int, m: int)
    requires
        0 <= a < m,
        0 <= c < m,
    ensures
        0 <= (c - a + m) % m < m,
        (a + ((c - a + m) % m)) % m == c,
{
    if c - a + m < m {
        lemma_small_mod((c - a + m) as nat, m as nat);
        lemma_fundamental_div_mod_converse_mod(c + m, m, 1, c);
    } else {
        lemma_fundamental_div_mod_converse_mod(c - a + m, m, 1, c - a);
        lemma_small_mod(c as nat, m as nat);
    }
}

/// The cell written for sprite offset `(dy, dx)` has exactly those offsets
/// when they are recomputed from the cell index.
proof fn lemma_cell_coords(ty0: int, tx0: int, dy: int, dx: int)
    requires
        0 <= ty0 < 32,
        0 <= tx0 < 64,
        0 <= dy < 32,
        0 <= dx < 64,
    ensures
        ({
            let cy = (ty0 + dy) % 32;
            let cx = (tx0 + dx) % 64;
            let idx = cy * 64 + cx;
            &&& 0 <= cy < 32
            &&& 0 <= cx < 64
            &&& 0 <= idx < 2048
            &&& idx / 64 == cy
            &&& idx % 64 == cx
            &&& cell_dy(ty0, idx) == dy
            &&& cell_dx(tx0, idx) == dx
        }),
{
    lemma_wrap(ty0, dy, 32);
    lemma_wrap(tx0, dx, 64);
    let cy = (ty0 + dy) % 32;
    let cx = (tx0 + dx) % 64;
    let idx = cy * 64 + cx;
    lemma_fundamental_div_mod_converse_div(idx, 64, cy, cx);
    lemma_fundamental_div_mod_converse_mod(idx, 64, cy, cx);
}

/// A cell whose recomputed offsets are `(dy, dx)` is the one written for
/// sprite offset `(dy, dx)`: the blit touches each cell at most once.
proof fn lemma_cell_unique(ty0: int, tx0: int, dy: int, dx: int, idx: int)
    requires
        0 <= ty0 < 32,
        0 <= tx0 < 64,
        0 <= dy < 32,
        0 <= dx < 64,
        0 <= idx < 2048,
        cell_dy(ty0, idx) == dy,
        cell_dx(tx0, idx) == dx,
    ensures
        idx == ((ty0 + dy) % 32) * 64 + ((tx0 + dx) % 64),
{
    lemma_fundamental_div_mod(idx, 64);
    lemma_mod_bound(idx, 64);
    let cy = idx / 64;
    let cx = idx % 64;
    assert(0 <= cy < 32);
    lemma_wrap_inv(ty0, cy, 32);
    lemma_wrap_inv(tx0, cx, 64);
}

/// Relies on rand::random: one uniformly drawn byte. Nothing is promised of
/// the value; the caller states what holds of every outcome.
#[verifier::external_body]
fn random_byte() -> u8 {
    rand::random::<u8>()
}

impl System {
    fn clear_framebuffer(&mut self)
        requires
            old(self)@.wf(),
        ensures
            final(self)@ == (MachineState { fb: spec_zero_fb(), ..old(self)@ }),
    {
        let mut i: usize = 0;
        while i < SCREEN_SIZE
            invariant
                i <= SCREEN_SIZE,
                self@ == (MachineState { fb: self@.fb, ..old(self)@ }),
                self@.fb.len() == SCREEN_SIZE,
                forall|t: int| 0 <= t < i ==> #[trigger] self@.fb[t] == 0u8,
            decreases SCREEN_SIZE - i,
        {
            self.framebuffer.set(i, 0);
            i += 1;
        }
        proof {
            assert(self@.fb =~= spec_zero_fb());
            assert(self@ =~= (MachineState { fb: spec_zero_fb(), ..old(self)@ }));
        }
    }

    fn exec_alu(&mut self, opcode: u16) -> (r: Result<bool, Fault>)
        requires
            old(self)@.wf(),
            old(self)@.pc + 1 < MEMORY_SIZE,
        ensures
            final(self)@.wf(),
            (match spec_alu(old(self)@, opcode) {
                Step::Next { s, start_sound } => r == Ok::<bool, Fault>(start_sound)
                    && final(self)@ == s,
                Step::Halt { fault } => r == Err::<bool, Fault>(fault)
                    && final(self)@ == old(self)@,
            }),
    {
        let x = to_usize(second_nibble(opcode));
        let y = to_usize(third_nibble(opcode));
        let vx = self.v_registers[x];
        let vy = self.v_registers[y];
        let pc = self.program_counter;
        match fourth_nibble(opcode) {
            0x0 => {
                self.v_registers.set(x, vy);
            },
            0x1 => {
                self.v_registers.set(x, vx | vy);
            },
            0x2 => {
                self.v_registers.set(x, vx & vy);
            },
            0x3 => {
                self.v_registers.set(x, vx ^ vy);
            },
            0x4 => {
                let sum: u16 = vx as u16 + vy as u16;
                self.v_registers.set(15, if sum > 255 { 1 } else { 0 });
                self.v_registers.set(x, (sum % 256) as u8);
            },
            0x5 => {
                self.v_registers.set(15, if vx >= vy { 1 } else { 0 });
                let diff: u16 = (vx as u16 + 256) - vy as u16;
                self.v_registers.set(x, (diff % 256) as u8);
            },
            0x6 => {
                self.v_registers.set(15, vx & 1);
                let cur = self.v_registers[x];
                self.v_registers.set(x, cur >> 1);
            },
            0x7 => {
                self.v_registers.set(15, if vy >= vx { 1 } else { 0 });
                let diff: u16 = (vy as u16 + 256) - vx as u16;
                self.v_registers.set(x, (diff % 256) as u8);
            },
            0xE => {
                self.v_registers.set(15, (vx & 0x80) >> 7);
                let cur = self.v_registers[x];
                self.v_registers.set(x, cur << 1);
            },
            _ => {
                return Err(Fault::UnknownOpcode { opcode, address: pc });
            },
        }
        self.program_counter = pc + 2;
        Ok(false)
    }

    fn exec_misc(&mut self, opcode: u16) -> (r: Result<bool, Fault>)
        requires
            old(self)@.wf(),
            old(self)@.pc + 1 < MEMORY_SIZE,
        ensures
            final(self)@.wf(),
            (match spec_misc(old(self)@, opcode) {
                Step::Next { s, start_sound } => r == Ok::<bool, Fault>(start_sound)
                    && final(self)@ == s,
                Step::Halt { fault } => r == Err::<bool, Fault>(fault)
                    && final(self)@ == old(self)@,
            }),
    {
        let x = to_usize(second_nibble(opcode));
        let pc = self.program_counter;
        let kk = lower_half(opcode);
        if kk == 0x07 {
            self.v_registers.set(x, self.delay_timer);
            self.program_counter = pc + 2;
            Ok(false)
        } else if kk == 0x0A {
            if self.keyboard_input != 0xff {
                let key = self.keyboard_input;
                self.v_registers.set(x, key);
                self.program_counter = pc + 2;
            }
            Ok(false)
        } else if kk == 0x15 {
            self.delay_timer = self.v_registers[x];
            self.program_counter = pc + 2;
            Ok(false)
        } else if kk == 0x18 {
            let vx = self.v_registers[x];
            self.sound_timer = vx;
            self.program_counter = pc + 2;
            Ok(vx > 0)
        } else if kk == 0x1E {
            let sum: u32 = self.index_register as u32 + self.v_registers[x] as u32;
            self.index_register = (sum % 0x10000) as u16;
            self.program_counter = pc + 2;
            Ok(false)
        } else if kk == 0x29 {
            let vx = self.v_registers[x];
            self.index_register = vx as u16 * 5 + FONTSET_OFFSET as u16;
            self.program_counter = pc + 2;
            Ok(false)
        } else if kk == 0x33 {
            if self.index_register as usize + 2 >= MEMORY_SIZE {
                return Err(Fault::OutOfBounds { opcode, address: pc });
            }
            let b = self.index_register as usize;
            let v = self.v_registers[x];
            self.memory.set(b, v / 100);
            self.memory.set(b + 1, (v / 10) % 10);
            self.memory.set(b + 2, v % 10);
            self.program_counter = pc + 2;
            Ok(false)
        } else if kk == 0x55 {
            if self.index_register as usize + x >= MEMORY_SIZE {
                return Err(Fault::OutOfBounds { opcode, address: pc });
            }
            let base = self.index_register as usize;
            let mut i: usize = 0;
            while i <= x
                invariant
                    old(self)@.wf(),
                    x < NUM_REGISTERS,
                    base == old(self)@.index as int,
                    base + x < MEMORY_SIZE,
                    i <= x + 1,
                    self@ == (MachineState { mem: self@.mem, ..old(self)@ }),
                    self@.mem.len() == MEMORY_SIZE,
                    forall|t: int|
                        0 <= t < MEMORY_SIZE ==> #[trigger] self@.mem[t] == (if base <= t < base
                            + i {
                            old(self)@.regs[t - base]
                        } else {
                            old(self)@.mem[t]
                        }),
                decreases x + 1 - i,
            {
                let value = self.v_registers[i];
                self.memory.set(base + i, value);
                i += 1;
            }
            proof {
                assert(self@.mem =~= spec_store_regs(
                    old(self)@.mem,
                    old(self)@.regs,
                    old(self)@.index as int,
                    x as int,
                ));
            }
            self.program_counter = pc + 2;
            Ok(false)
        } else if kk == 0x65 {
            if self.index_register as usize + x >= MEMORY_SIZE {
                return Err(Fault::OutOfBounds { opcode, address: pc });
            }
            let base = self.index_register as usize;
            let mut i: usize = 0;
            while i <= x
                invariant
                    old(self)@.wf(),
                    x < NUM_REGISTERS,
                    base == old(self)@.index as int,
                    base + x < MEMORY_SIZE,
                    i <= x + 1,
                    self@ == (MachineState { regs: self@.regs, ..old(self)@ }),
                    self@.regs.len() == NUM_REGISTERS,
                    forall|t: int|
                        0 <= t < NUM_REGISTERS ==> #[trigger] self@.regs[t] == (if 0 <= t < i {
                            old(self)@.mem[base + t]
                        } else {
                            old(self)@.regs[t]
                        }),
                decreases x + 1 - i,
            {
                let value = self.memory[base + i];
                self.v_registers.set(i, value);
                i += 1;
            }
            proof {
                assert(self@.regs =~= spec_load_regs(
                    old(self)@.regs,
                    old(self)@.mem,
                    old(self)@.index as int,
                    x as int,
                ));
            }
            self.program_counter = pc + 2;
            Ok(false)
        } else {
            Err(Fault::UnknownOpcode { opcode, address: pc })
        }
    }
}

impl System {
    fn exec_draw(&mut self, opcode: u16) -> (r: Result<bool, Fault>)
        requires
            old(self)@.wf(),
            old(self)@.pc + 1 < MEMORY_SIZE,
        ensures
            final(self)@.wf(),
            (match spec_draw_step(old(self)@, opcode) {
                Step::Next { s, start_sound } => r == Ok::<bool, Fault>(start_sound)
                    && final(self)@ == s,
                Step::Halt { fault } => r == Err::<bool, Fault>(fault)
                    && final(self)@ == old(self)@,
            }),
    {
        let x = to_usize(second_nibble(opcode));
        let y = to_usize(third_nibble(opcode));
        let h = to_usize(fourth_nibble(opcode));
        let pc = self.program_counter;
        if h > 0 && self.index_register as usize + h > MEMORY_SIZE {
            return Err(Fault::OutOfBounds { opcode, address: pc });
        }
        let base = self.index_register as usize;
        let tx0 = (self.v_registers[x] % 64) as usize;
        let ty0 = (self.v_registers[y] % 32) as usize;
        let ghost gb = base as int;
        let ghost gx = tx0 as int;
        let ghost gy = ty0 as int;
        let ghost fb0 = self@.fb;
        let ghost mem0 = self@.mem;
        let mut hidden = false;
        let mut dy: usize = 0;
        while dy < h
            invariant
                old(self)@.wf(),
                x < NUM_REGISTERS,
                y < NUM_REGISTERS,
                h < 16,
                dy <= h,
                h > 0 ==> gb + h <= MEMORY_SIZE,
                gb == old(self)@.index as int,
                0 <= gx < 64,
                0 <= gy < 32,
                gx == old(self)@.regs[x as int] as int % 64,
                gy == old(self)@.regs[y as int] as int % 32,
                tx0 as int == gx,
                ty0 as int == gy,
                base as int == gb,
                fb0 == old(self)@.fb,
                mem0 == old(self)@.mem,
                self@ == (MachineState { fb: self@.fb, ..old(self)@ }),
                self@.fb.len() == SCREEN_SIZE,
                forall|idx: int|
                    0 <= idx < SCREEN_SIZE ==> #[trigger] self@.fb[idx] == (if drawn_upto(
                        gy,
                        gx,
                        dy as int,
                        0,
                        idx,
                    ) {
                        fb0[idx] ^ spec_sprite_bit(mem0[gb + cell_dy(gy, idx)], cell_dx(gx, idx))
                    } else {
                        fb0[idx]
                    }),
                hidden == (exists|idx: int|
                    0 <= idx < SCREEN_SIZE && drawn_upto(gy, gx, dy as int, 0, idx)
                        && #[trigger] spec_collides_at(fb0, mem0, gb, gx, gy, idx)),
            decreases h - dy,
        {
            let row = self.memory[base + dy];
            proof {
                assert(row == mem0[gb + dy as int]);
            }
            let mut dx: usize = 0;
            while dx < 8
                invariant
                    old(self)@.wf(),
                    x < NUM_REGISTERS,
                    y < NUM_REGISTERS,
                    h < 16,
                    dy < h,
                    dx <= 8,
                    gb + h <= MEMORY_SIZE,
                    gb == old(self)@.index as int,
                    0 <= gx < 64,
                    0 <= gy < 32,
                    gx == old(self)@.regs[x as int] as int % 64,
                    gy == old(self)@.regs[y as int] as int % 32,
                    tx0 as int == gx,
                    ty0 as int == gy,
                    base as int == gb,
                    fb0 == old(self)@.fb,
                    mem0 == old(self)@.mem,
                    row == mem0[gb + dy as int],
                    self@ == (MachineState { fb: self@.fb, ..old(self)@ }),
                    self@.fb.len() == SCREEN_SIZE,
                    forall|idx: int|
                        0 <= idx < SCREEN_SIZE ==> #[trigger] self@.fb[idx] == (if drawn_upto(
                            gy,
                            gx,
                            dy as int,
                            dx as int,
                            idx,
                        ) {
                            fb0[idx] ^ spec_sprite_bit(
                                mem0[gb + cell_dy(gy, idx)],
                                cell_dx(gx, idx),
                            )
                        } else {
                            fb0[idx]
                        }),
                    hidden == (exists|idx: int|
                        0 <= idx < SCREEN_SIZE && drawn_upto(gy, gx, dy as int, dx as int, idx)
                            && #[trigger] spec_collides_at(fb0, mem0, gb, gx, gy, idx)),
                decreases 8 - dx,
            {
                let ghost gdy = dy as int;
                let ghost gdx = dx as int;
                proof {
                    lemma_cell_coords(gy, gx, gdy, gdx);
                }
                let cy = (ty0 + dy) % 32;
                let cx = (tx0 + dx) % 64;
                let idx = cy * 64 + cx;
                let ghost gidx = idx as int;
                let bit = (row >> ((7 - dx) as u8)) & 1;
                let ghost fbpre = self@.fb;
                let old_px = self.framebuffer[idx];
                let new_px = old_px ^ bit;
                let collide_here = new_px == 0 && old_px != 0;
                let ghost hid0 = hidden;
                if collide_here {
                    hidden = true;
                }
                self.framebuffer.set(idx, new_px);
                proof {
                    assert(cell_dy(gy, gidx) == gdy && cell_dx(gx, gidx) == gdx);
                    assert(!drawn_upto(gy, gx, gdy, gdx, gidx));
                    assert(old_px == fbpre[gidx]);
                    assert(fbpre[gidx] == fb0[gidx]);
                    assert(bit == spec_sprite_bit(mem0[gb + cell_dy(gy, gidx)], cell_dx(gx, gidx)));
                    assert(self@.fb == fbpre.update(gidx, new_px));
                    assert forall|i2: int|
                        0 <= i2 < SCREEN_SIZE implies #[trigger] self@.fb[i2] == (if drawn_upto(
                        gy,
                        gx,
                        gdy,
                        gdx + 1,
                        i2,
                    ) {
                        fb0[i2] ^ spec_sprite_bit(mem0[gb + cell_dy(gy, i2)], cell_dx(gx, i2))
                    } else {
                        fb0[i2]
                    }) by {
                        if i2 == gidx {
                            assert(drawn_upto(gy, gx, gdy, gdx + 1, i2));
                            assert(self@.fb[i2] == new_px);
                        } else {
                            assert(self@.fb[i2] == fbpre[i2]);
                            if cell_dy(gy, i2) == gdy && cell_dx(gx, i2) == gdx {
                                lemma_cell_unique(gy, gx, gdy, gdx, i2);
                                assert(false);
                            }
                            assert(drawn_upto(gy, gx, gdy, gdx + 1, i2) == drawn_upto(
                                gy,
                                gx,
                                gdy,
                                gdx,
                                i2,
                            ));
                        }
                    };
                    assert(spec_collides_at(fb0, mem0, gb, gx, gy, gidx) == collide_here);
                    if hidden {
                        if hid0 {
                            let w = choose|i2: int|
                                0 <= i2 < SCREEN_SIZE && drawn_upto(gy, gx, gdy, gdx, i2)
                                    && #[trigger] spec_collides_at(fb0, mem0, gb, gx, gy, i2);
                            assert(0 <= w < SCREEN_SIZE && drawn_upto(gy, gx, gdy, gdx + 1, w)
                                && spec_collides_at(fb0, mem0, gb, gx, gy, w));
                        } else {
                            assert(0 <= gidx < SCREEN_SIZE && drawn_upto(gy, gx, gdy, gdx + 1, gidx)
                                && spec_collides_at(fb0, mem0, gb, gx, gy, gidx));
                        }
                        assert(exists|i2: int|
                            0 <= i2 < SCREEN_SIZE && drawn_upto(gy, gx, gdy, gdx + 1, i2)
                                && #[trigger] spec_collides_at(fb0, mem0, gb, gx, gy, i2));
                    } else {
                        assert forall|i2: int|
                            0 <= i2 < SCREEN_SIZE && drawn_upto(gy, gx, gdy, gdx + 1, i2)
                                implies !spec_collides_at(fb0, mem0, gb, gx, gy, i2) by {
                            if drawn_upto(gy, gx, gdy, gdx, i2) {
                                assert(!spec_collides_at(fb0, mem0, gb, gx, gy, i2));
                            } else {
                                if cell_dy(gy, i2) == gdy && cell_dx(gx, i2) == gdx {
                                    lemma_cell_unique(gy, gx, gdy, gdx, i2);
                                    assert(i2 == gidx);
                                    assert(!spec_collides_at(fb0, mem0, gb, gx, gy, i2));
                                } else {
                                    assert(false);
                                }
                            }
                        };
                        assert(!(exists|i2: int|
                            0 <= i2 < SCREEN_SIZE && drawn_upto(gy, gx, gdy, gdx + 1, i2)
                                && #[trigger] spec_collides_at(fb0, mem0, gb, gx, gy, i2)));
                    }
                }
                dx += 1;
            }
            proof {
                let gdy = dy as int;
                assert forall|i2: int|
                    0 <= i2 < SCREEN_SIZE implies #[trigger] self@.fb[i2] == (if drawn_upto(
                    gy,
                    gx,
                    gdy + 1,
                    0,
                    i2,
                ) {
                    fb0[i2] ^ spec_sprite_bit(mem0[gb + cell_dy(gy, i2)], cell_dx(gx, i2))
                } else {
                    fb0[i2]
                }) by {
                    assert(drawn_upto(gy, gx, gdy + 1, 0, i2) == drawn_upto(gy, gx, gdy, 8, i2));
                };
                if hidden {
                    let w = choose|i2: int|
                        0 <= i2 < SCREEN_SIZE && drawn_upto(gy, gx, gdy, 8, i2)
                            && #[trigger] spec_collides_at(fb0, mem0, gb, gx, gy, i2);
                    assert(0 <= w < SCREEN_SIZE && drawn_upto(gy, gx, gdy + 1, 0, w)
                        && spec_collides_at(fb0, mem0, gb, gx, gy, w));
                    assert(exists|i2: int|
                        0 <= i2 < SCREEN_SIZE && drawn_upto(gy, gx, gdy + 1, 0, i2)
                            && #[trigger] spec_collides_at(fb0, mem0, gb, gx, gy, i2));
                } else {
                    assert forall|i2: int|
                        0 <= i2 < SCREEN_SIZE && drawn_upto(gy, gx, gdy + 1, 0, i2)
                            implies !spec_collides_at(fb0, mem0, gb, gx, gy, i2) by {
                        assert(drawn_upto(gy, gx, gdy, 8, i2));
                    };
                    assert(!(exists|i2: int|
                        0 <= i2 < SCREEN_SIZE && drawn_upto(gy, gx, gdy + 1, 0, i2)
                            && #[trigger] spec_collides_at(fb0, mem0, gb, gx, gy, i2)));
                }
            }
            dy += 1;
        }
        proof {
            let gh = h as int;
            assert forall|i2: int|
                0 <= i2 < SCREEN_SIZE implies #[trigger] self@.fb[i2] == spec_draw_fb(
                fb0,
                mem0,
                gb,
                gx,
                gy,
                gh,
            )[i2] by {
                assert(drawn_upto(gy, gx, gh, 0, i2) == (cell_dy(gy, i2) < gh && cell_dx(gx, i2)
                    < 8));
            };
            assert(self@.fb =~= spec_draw_fb(fb0, mem0, gb, gx, gy, gh));
            if hidden {
                let w = choose|i2: int|
                    0 <= i2 < SCREEN_SIZE && drawn_upto(gy, gx, gh, 0, i2)
                        && #[trigger] spec_collides_at(fb0, mem0, gb, gx, gy, i2);
                assert(0 <= w < fb0.len() && cell_dy(gy, w) < gh && spec_collides_at(
                    fb0,
                    mem0,
                    gb,
                    gx,
                    gy,
                    w,
                ));
                assert(spec_draw_collision(fb0, mem0, gb, gx, gy, gh));
            } else {
                assert(!spec_draw_collision(fb0, mem0, gb, gx, gy, gh)) by {
                    if spec_draw_collision(fb0, mem0, gb, gx, gy, gh) {
                        let w = choose|i2: int|
                            0 <= i2 < fb0.len() && cell_dy(gy, i2) < gh
                                && #[trigger] spec_collides_at(fb0, mem0, gb, gx, gy, i2);
                        assert(drawn_upto(gy, gx, gh, 0, w));
                        assert(false);
                    }
                };
            }
        }
        self.v_registers.set(15, if hidden { 1 } else { 0 });
        self.program_counter = pc + 2;
        proof {
            let gh = h as int;
            assert forall|i2: int| 0 <= i2 < SCREEN_SIZE implies #[trigger] self@.fb[i2] <= 1 by {
                if cell_dy(gy, i2) < gh && cell_dx(gx, i2) < 8 {
                    let a = fb0[i2];
                    let rw = mem0[gb + cell_dy(gy, i2)];
                    let sh = (7 - cell_dx(gx, i2)) as u8;
                    let b2 = spec_sprite_bit(rw, cell_dx(gx, i2));
                    assert(b2 == (rw >> sh) & 1);
                    assert(((rw >> sh) & 1) <= 1) by (bit_vector);
                    assert(a <= 1);
                    assert(a <= 1 && b2 <= 1 ==> (a ^ b2) <= 1) by (bit_vector);
                }
            };
        }
        Ok(false)
    }

    /// Executes one cycle with `random` standing in for the drawn byte:
    /// deterministic, and exactly [`spec_cycle`] of the old state.
    pub fn cycle_with_random(&mut self, random: u8) -> (r: Result<bool, Fault>)
        requires
            old(self)@.wf(),
        ensures
            final(self)@.wf(),
            cycle_matches(old(self)@, random, final(self)@, r),
    {
        let pc = self.program_counter;
        if pc + 1 >= MEMORY_SIZE {
            return Err(Fault::OutOfBounds { opcode: 0, address: pc });
        }
        let upper = (self.memory[pc] as u16) << 8;
        let lower = self.memory[pc + 1] as u16;
        let opcode: u16 = upper | lower;
        proof {
            assert(opcode == spec_fetch(self@));
        }
        let x = to_usize(second_nibble(opcode));
        let y = to_usize(third_nibble(opcode));
        match first_nibble(opcode) {
            0x0 => {
                if opcode == 0x00E0 {
                    self.clear_framebuffer();
                    self.program_counter = pc + 2;
                    Ok(false)
                } else if opcode == 0x00EE {
                    if self.stack_pointer == 0 {
                        return Err(Fault::StackUnderflow { opcode, address: pc });
                    }
                    let ret = self.stack[self.stack_pointer];
                    self.program_counter = ret;
                    self.stack_pointer = self.stack_pointer - 1;
                    Ok(false)
                } else {
                    // Machine-code call: ignored.
                    self.program_counter = pc + 2;
                    Ok(false)
                }
            },
            0x1 => {
                self.program_counter = to_usize(lower_three(opcode));
                Ok(false)
            },
            0x2 => {
                let new_sp = self.stack_pointer + 1;
                if new_sp >= STACK_SIZE {
                    return Err(Fault::StackOverflow { opcode, address: pc });
                }
                self.stack_pointer = new_sp;
                self.stack.set(new_sp, pc + 2);
                self.program_counter = to_usize(lower_three(opcode));
                Ok(false)
            },
            0x3 => {
                let equals = self.v_registers[x] == to_byte(lower_half(opcode));
                self.program_counter = if equals { pc + 4 } else { pc + 2 };
                Ok(false)
            },
            0x4 => {
                let equals = self.v_registers[x] == to_byte(lower_half(opcode));
                self.program_counter = if !equals { pc + 4 } else { pc + 2 };
                Ok(false)
            },
            0x5 => {
                if fourth_nibble(opcode) == 0x0 {
                    let equals = self.v_registers[x] == self.v_registers[y];
                    self.program_counter = if equals { pc + 4 } else { pc + 2 };
                    Ok(false)
                } else {
                    Err(Fault::UnknownOpcode { opcode, address: pc })
                }
            },
            0x6 => {
                self.v_registers.set(x, to_byte(lower_half(opcode)));
                self.program_counter = pc + 2;
                Ok(false)
            },
            0x7 => {
                let sum: u16 = self.v_registers[x] as u16 + lower_half(opcode);
                self.v_registers.set(x, (sum % 256) as u8);
                self.program_counter = pc + 2;
                Ok(false)
            },
            0x8 => self.exec_alu(opcode),
            0x9 => {
                if fourth_nibble(opcode) == 0x0 {
                    let equals = self.v_registers[x] == self.v_registers[y];
                    self.program_counter = if !equals { pc + 4 } else { pc + 2 };
                    Ok(false)
                } else {
                    Err(Fault::UnknownOpcode { opcode, address: pc })
                }
            },
            0xA => {
                self.index_register = lower_three(opcode);
                self.program_counter = pc + 2;
                Ok(false)
            },
            0xB => {
                self.program_counter = to_usize(lower_three(opcode))
                    + self.v_registers[0] as usize;
                Ok(false)
            },
            0xC => {
                self.v_registers.set(x, random & to_byte(lower_half(opcode)));
                self.program_counter = pc + 2;
                Ok(false)
            },
            0xD => self.exec_draw(opcode),
            0xE => {
                let kk = lower_half(opcode);
                if kk == 0x9E {
                    let pressed = self.keyboard_input == self.v_registers[x];
                    self.program_counter = if pressed { pc + 4 } else { pc + 2 };
                    Ok(false)
                } else if kk == 0xA1 {
                    let pressed = self.keyboard_input == self.v_registers[x];
                    self.program_counter = if !pressed { pc + 4 } else { pc + 2 };
                    Ok(false)
                } else {
                    Err(Fault::UnknownOpcode { opcode, address: pc })
                }
            },
            _ => self.exec_misc(opcode),
        }
    }

    /// One fetch-decode-execute cycle; the random-register instruction masks
    /// a freshly drawn byte. Whatever byte came back, the outcome is
    /// [`spec_cycle`] of the old state for that byte.
    pub fn cycle(&mut self) -> (r: Result<bool, Fault>)
        requires
            old(self)@.wf(),
        ensures
            final(self)@.wf(),
            exists|b: u8| #[trigger] cycle_matches(old(self)@, b, final(self)@, r),
    {
        let b = random_byte();
        let r = self.cycle_with_random(b);
        proof {
            assert(cycle_matches(old(self)@, b, self@, r));
        }
        r
    }
}

/// Law: a register block store (registers 0 through the opcode's register
/// index, written to memory at the index register) followed immediately by
/// the matching block load leaves every register and the index register
/// exactly as they were, with the program counter advanced past both
/// instructions — provided the stored block does not overlap the two
/// instruction words themselves.
#[verifier::rlimit(30)]
pub proof fn lemma_store_load_round_trip(s: MachineState, rand1: u8, rand2: u8)
    requires
        s.wf(),
        s.pc + 3 < MEMORY_SIZE,
        spec_first_nibble(spec_fetch(s)) == 0xF,
        spec_lower_half(spec_fetch(s)) == 0x55,
        ({
            let op2 = ((s.mem[s.pc + 2] as u16) << 8) | (s.mem[s.pc + 3] as u16);
            &&& spec_first_nibble(op2) == 0xF
            &&& spec_lower_half(op2) == 0x65
            &&& spec_second_nibble(op2) == spec_second_nibble(spec_fetch(s))
        }),
        s.index + spec_second_nibble(spec_fetch(s)) < MEMORY_SIZE,
        s.index > s.pc + 3 || s.index + spec_second_nibble(spec_fetch(s)) < s.pc,
    ensures
        ({
            &&& spec_cycle(s, rand1) matches Step::Next { s: s1, start_sound: sound1 }
            &&& spec_cycle(s1, rand2) matches Step::Next { s: s2, start_sound: sound2 }
            &&& s2.regs == s.regs
            &&& s2.index == s.index
            &&& s2.pc == s.pc + 4
        }),
{
    let op = spec_fetch(s);
    let x = spec_second_nibble(op) as int;
    assert(((op >> 8) & 0xf) < 16) by (bit_vector);
    let b = s.index as int;
    let s1 = spec_adv(MachineState { mem: spec_store_regs(s.mem, s.regs, b, x), ..s });
    assert(spec_cycle(s, rand1) == step_next(s1));
    let op2 = ((s.mem[s.pc + 2] as u16) << 8) | (s.mem[s.pc + 3] as u16);
    assert(s1.mem[s.pc + 2] == s.mem[s.pc + 2]);
    assert(s1.mem[s.pc + 3] == s.mem[s.pc + 3]);
    assert(spec_fetch(s1) == op2);
    let s2 = spec_adv(MachineState { regs: spec_load_regs(s1.regs, s1.mem, b, x), ..s1 });
    assert(spec_cycle(s1, rand2) == step_next(s2));
    assert forall|j: int| 0 <= j < NUM_REGISTERS implies #[trigger] s2.regs[j] == s.regs[j] by {
        if j <= x {
            assert(s1.mem[b + j] == s.regs[j]);
        }
    };
    assert(s2.regs =~= s.regs);
}

} // verus!
