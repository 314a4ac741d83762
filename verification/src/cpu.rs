use vstd::prelude::*;

verus! {

/// The call stack: `bytes[0..pop_index]` are the saved return addresses,
/// oldest first; `pop_index` is the number of entries in use.
pub struct Stack {
    pub bytes: [u16; 12],
    pub pop_index: u8,
}

impl Stack {
    /// The return addresses currently on the stack, oldest first.
    pub open spec fn contents(&self) -> Seq<u16> {
        self.bytes@.take(self.pop_index as int)
    }

    /// Every slot at or above the top of the stack holds zero.
    pub open spec fn slots_clear(&self) -> bool {
        forall|k: int| self.pop_index <= k < 12 ==> #[trigger] self.bytes@[k] == 0
    }

    /// `new` is `old` with `element` pushed on top.
    pub open spec fn pushes(old: Stack, element: u16, new: Stack) -> bool {
        &&& new.bytes@ == old.bytes@.update(old.pop_index as int, element)
        &&& new.pop_index == old.pop_index + 1
    }

    /// `new` is `old` with its top entry `top` popped and that slot zeroed.
    pub open spec fn pops(old: Stack, new: Stack, top: u16) -> bool {
        &&& top == old.bytes@[old.pop_index - 1]
        &&& new.bytes@ == old.bytes@.update(old.pop_index - 1, 0)
        &&& new.pop_index == old.pop_index - 1
    }

    /// Removes and returns the most recently pushed address; its slot is
    /// reset to zero.  The stack must not be empty.
    pub fn pop(&mut self) -> (value: u16)
        requires
            1 <= old(self).pop_index <= 12,
        ensures
            Stack::pops(*old(self), *final(self), value),
    {
        let top = self.pop_index as usize - 1;
        let value = self.bytes[top];
        self.bytes[top] = 0;
        self.pop_index = self.pop_index - 1;
        value
    }

    /// Pushes `element` on top of the stack.  The stack must not be full.
    pub fn push(&mut self, element: u16)
        requires
            old(self).pop_index < 12,
        ensures
            Stack::pushes(*old(self), element, *final(self)),
    {
        self.bytes[self.pop_index as usize] = element;
        self.pop_index = self.pop_index + 1;
    }
}


/// Number of addressable bytes.
pub const MEMORY_SIZE: usize = 4096;

/// Address at which programs are loaded and start executing.
pub const PROGRAM_START: u16 = 0x200;

/// Length of a timer tick in nanoseconds (ten milliseconds).
pub const TICK_NANOS: u128 = 10_000_000;

/// The largest span of time, in nanoseconds, that the timers can account for:
/// `u64::MAX` seconds plus 999,999,999 nanoseconds.
pub const MAX_ELAPSED_NANOS: u128 = 18_446_744_073_709_551_615_999_999_999;

/// The machine's 4 KiB of byte-addressed memory.
pub struct Memory {
    pub bytes: [u8; 4096],
}

/// The sixteen general purpose registers `V0`..`VF` and the address register `I`.
pub struct Registers {
    pub v: [u8; 16],
    pub i: u16,
}

/// The frame buffer: cell `x + 64 * y` holds the pixel at column `x`, row `y`;
/// a pixel is lit when its cell holds 1.
pub struct Display {
    pub v_memory: [u8; 2048],
}

/// The delay and sound timers, which count down once per elapsed tick, and
/// the time accumulated since the last tick.
pub struct Timers {
    pub delay_timer: u8,
    pub sound_timer: u8,
    /// Nanoseconds accumulated towards the next tick.
    pub time_since_update: u128,
}

/// The whole machine state.
pub struct CPU {
    pub memory: Memory,
    pub registers: Registers,
    pub stack: Stack,
    pub timers: Timers,
    pub display: Display,
    pub pc: u16,
}

/// The built-in hexadecimal font: five rows of one byte for each digit 0..F.
pub open spec fn font_glyphs() -> Seq<u8> {
    seq![
        0xF0u8, 0x90, 0x90, 0x90, 0xF0, // 0
        0x20, 0x60, 0x20, 0x20, 0x70, // 1
        0xF0, 0x10, 0xF0, 0x80, 0xF0, // 2
        0xF0, 0x10, 0xF0, 0x10, 0xF0, // 3
        0x90, 0x90, 0xF0, 0x10, 0x10, // 4
        0xF0, 0x80, 0xF0, 0x10, 0xF0, // 5
        0xF0, 0x80, 0xF0, 0x90, 0xF0, // 6
        0xF0, 0x10, 0x20, 0x40, 0x40, // 7
        0xF0, 0x90, 0xF0, 0x90, 0xF0, // 8
        0xF0, 0x90, 0xF0, 0x10, 0xF0, // 9
        0xF0, 0x90, 0xF0, 0x90, 0x90, // A
        0xE0, 0x90, 0xE0, 0x90, 0xE0, // B
        0xF0, 0x80, 0x80, 0x80, 0xF0, // C
        0xE0, 0x90, 0x90, 0x90, 0xE0, // D
        0xF0, 0x80, 0xF0, 0x80, 0xF0, // E
        0xF0, 0x80, 0xF0, 0x80, 0x80, // F
    ]
}

/// `m` holds the font in its first 80 bytes.
pub open spec fn font_loaded(m: Seq<u8>) -> bool {
    m.len() == 4096 && m.take(80) == font_glyphs()
}

impl Timers {
    /// `new` is `old` after `elapsed_nanos` more nanoseconds: when the
    /// accumulated time exceeds one tick, each timer above zero counts down
    /// by one and one tick is taken off the accumulated time; otherwise the
    /// time is only accumulated.
    pub open spec fn advances(old: Timers, elapsed_nanos: u128, new: Timers) -> bool {
        let total = elapsed_nanos + old.time_since_update;
        if total > TICK_NANOS {
            &&& new.delay_timer == (if old.delay_timer > 0 { old.delay_timer - 1 } else { 0 })
            &&& new.sound_timer == (if old.sound_timer > 0 { old.sound_timer - 1 } else { 0 })
            &&& new.time_since_update == total - TICK_NANOS
        } else {
            &&& new.delay_timer == old.delay_timer
            &&& new.sound_timer == old.sound_timer
            &&& new.time_since_update == total
        }
    }

    /// Accounts for `elapsed_nanos` more nanoseconds.  When the accumulated
    /// time exceeds one tick, each timer that is above zero counts down by one
    /// and one tick is taken off the accumulated time (at most one tick per
    /// call); otherwise the time is only accumulated.
    pub fn update(&mut self, elapsed_nanos: u128)
        requires
            elapsed_nanos + old(self).time_since_update <= MAX_ELAPSED_NANOS,
        ensures
            Timers::advances(*old(self), elapsed_nanos, *final(self)),
    {
        let total = elapsed_nanos + self.time_since_update;
        if total > TICK_NANOS {
            if self.delay_timer > 0 {
                self.delay_timer = self.delay_timer - 1;
            }
            if self.sound_timer > 0 {
                self.sound_timer = self.sound_timer - 1;
            }
            self.time_since_update = total - TICK_NANOS;
        } else {
            self.time_since_update = total;
        }
    }
}

/// A freshly started machine: everything is zero except the font, which
/// occupies the first 80 bytes of memory.
pub open spec fn is_initial(cpu: CPU) -> bool {
    &&& cpu.memory.bytes@ == font_glyphs() + Seq::new(4016, |k: int| 0u8)
    &&& forall|k: int| 0 <= k < 16 ==> #[trigger] cpu.registers.v@[k] == 0
    &&& cpu.registers.i == 0
    &&& forall|k: int| 0 <= k < 12 ==> #[trigger] cpu.stack.bytes@[k] == 0
    &&& cpu.stack.pop_index == 0
    &&& cpu.timers.delay_timer == 0
    &&& cpu.timers.sound_timer == 0
    &&& cpu.timers.time_since_update == 0
    &&& forall|k: int| 0 <= k < 2048 ==> #[trigger] cpu.display.v_memory@[k] == 0
    &&& cpu.pc == 0
}

/// Creates a machine with cleared state and the font loaded.
pub fn init() -> (cpu: CPU)
    ensures
        is_initial(cpu),
{
    let mut cpu = CPU {
        memory: Memory { bytes: [0; 4096] },
        registers: Registers { v: [0; 16], i: 0 },
        stack: Stack { bytes: [0; 12], pop_index: 0 },
        timers: Timers { delay_timer: 0, sound_timer: 0, time_since_update: 0 },
        display: Display { v_memory: [0; 2048] },
        pc: 0,
    };
    cpu.add_font_to_memory();
    assert(cpu.memory.bytes@ =~= font_glyphs() + Seq::new(4016, |k: int| 0u8));
    cpu
}

impl CPU {
    /// Writes the font into the first 80 bytes of memory.
    fn add_font_to_memory(&mut self)
        ensures
            final(self).memory.bytes@ == font_glyphs() + old(self).memory.bytes@.skip(80),
            final(self).registers == old(self).registers,
            final(self).stack == old(self).stack,
            final(self).timers == old(self).timers,
            final(self).display == old(self).display,
            final(self).pc == old(self).pc,
    {
        let font: [u8; 80] = [
            0xF0, 0x90, 0x90, 0x90, 0xF0, // 0
            0x20, 0x60, 0x20, 0x20, 0x70, // 1
            0xF0, 0x10, 0xF0, 0x80, 0xF0, // 2
            0xF0, 0x10, 0xF0, 0x10, 0xF0, // 3
            0x90, 0x90, 0xF0, 0x10, 0x10, // 4
            0xF0, 0x80, 0xF0, 0x10, 0xF0, // 5
            0xF0, 0x80, 0xF0, 0x90, 0xF0, // 6
            0xF0, 0x10, 0x20, 0x40, 0x40, // 7
            0xF0, 0x90, 0xF0, 0x90, 0xF0, // 8
            0xF0, 0x90, 0xF0, 0x10, 0xF0, // 9
            0xF0, 0x90, 0xF0, 0x90, 0x90, // A
            0xE0, 0x90, 0xE0, 0x90, 0xE0, // B
            0xF0, 0x80, 0x80, 0x80, 0xF0, // C
            0xE0, 0x90, 0x90, 0x90, 0xE0, // D
            0xF0, 0x80, 0xF0, 0x80, 0xF0, // E
            0xF0, 0x80, 0xF0, 0x80, 0x80, // F
        ];
        assert(font@ =~= font_glyphs());
        for i in 0..80
            invariant
                font@ == font_glyphs(),
                self.memory.bytes@ == font_glyphs().take(i as int) + old(self).memory.bytes@.skip(i as int),
                self.registers == old(self).registers,
                self.stack == old(self).stack,
                self.timers == old(self).timers,
                self.display == old(self).display,
                self.pc == old(self).pc,
        {
            self.memory.bytes[i] = font[i];
            assert(self.memory.bytes@ =~= font_glyphs().take(i + 1) + old(self).memory.bytes@.skip(i + 1));
        }
        assert(font_glyphs().take(80) =~= font_glyphs());
    }

    /// Copies a program image into memory starting at address 0x200 and
    /// points the program counter at it.  Memory below and above the image,
    /// and all other state, are left as they were.
    pub fn load_rom(&mut self, rom: &[u8])
        requires
            rom.len() <= 4096 - 0x200,
        ensures
            final(self).memory.bytes@ == old(self).memory.bytes@.take(0x200) + rom@
                + old(self).memory.bytes@.skip(0x200 + rom.len()),
            final(self).pc == PROGRAM_START,
            final(self).registers == old(self).registers,
            final(self).stack == old(self).stack,
            final(self).timers == old(self).timers,
            final(self).display == old(self).display,
    {
        let mut current_memory_index: usize = 0x200;
        for k in 0..rom.len()
            invariant
                rom.len() <= 4096 - 0x200,
                current_memory_index == 0x200 + k,
                self.memory.bytes@ == old(self).memory.bytes@.take(0x200) + rom@.take(k as int)
                    + old(self).memory.bytes@.skip(0x200 + k),
                self.pc == old(self).pc,
                self.registers == old(self).registers,
                self.stack == old(self).stack,
                self.timers == old(self).timers,
                self.display == old(self).display,
        {
            self.memory.bytes[current_memory_index] = rom[k];
            current_memory_index = current_memory_index + 1;
            assert(self.memory.bytes@ =~= old(self).memory.bytes@.take(0x200) + rom@.take(k + 1)
                + old(self).memory.bytes@.skip(0x200 + k + 1));
        }
        assert(rom@.take(rom.len() as int) =~= rom@);
        self.pc = 0x200;
    }

    /// The big-endian opcode stored at the program counter.
    pub fn fetch_opcode(&self) -> (opcode: u16)
        requires
            self.pc + 1 < 4096,
        ensures
            opcode == self.memory.bytes@[self.pc as int] * 256 + self.memory.bytes@[self.pc + 1],
    {
        let hi = self.memory.bytes[self.pc as usize];
        let lo = self.memory.bytes[self.pc as usize + 1];
        let opcode = ((hi as u16) << 8) | (lo as u16);
        assert(((hi as u16) << 8) | (lo as u16) == hi * 256 + lo) by (bit_vector);
        opcode
    }
}

} // verus!
