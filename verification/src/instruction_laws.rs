//! What each instruction does, stated directly over the machine before and
//! after it, for every state and every choice of the opcode's fields.
use vstd::prelude::*;
use crate::cpu::{CPU, Timers, TICK_NANOS};
use crate::semantics::{executes, op_family, op_n, op_nn, op_nnn, op_x, op_y, opcode_runs};

verus! {

/// The fields of an opcode assembled from its four nibbles.
proof fn lemma_fields(op: u16, f: int, x: int, y: int, n: int)
    requires
        0 <= f < 16,
        0 <= x < 16,
        0 <= y < 16,
        0 <= n < 16,
        op == f * 4096 + x * 256 + y * 16 + n,
    ensures
        op_family(op) == f,
        op_x(op) == x,
        op_y(op) == y,
        op_n(op) == n,
        op_nn(op) == y * 16 + n,
        op_nnn(op) == x * 256 + y * 16 + n,
{
    lemma_fields_of_word(op, f as u16, x as u16, y as u16, n as u16);
}

proof fn lemma_fields_of_word(op: u16, f: u16, x: u16, y: u16, n: u16)
    by (bit_vector)
    requires
        f < 16,
        x < 16,
        y < 16,
        n < 16,
        op == f * 4096 + x * 256 + y * 16 + n,
    ensures
        op / 4096 == f,
        (op / 256) % 16 == x,
        (op / 16) % 16 == y,
        op % 16 == n,
        op % 256 == y * 16 + n,
        op % 4096 == x * 256 + y * 16 + n,
{
}

/// `8XY6`: `VF` receives the bit shifted out at the bottom of `VX`: twice
/// the new `VX` plus `VF` gives back the old `VX`.  Registers other than `VX`
/// and `VF` keep their values.
pub proof fn shift_right_keeps_low_bit(c0: CPU, c1: CPU, op: u16, x: int, y: int, keys: [bool; 16], random: u8)
    requires
        0 <= x < 15,
        0 <= y < 16,
        op == 0x8006 + x * 256 + y * 16,
        executes(c0, c1, op, keys, random),
    ensures
        c1.registers.v@[15] == c0.registers.v@[x] % 2,
        2 * c1.registers.v@[x] + c1.registers.v@[15] == c0.registers.v@[x],
        forall|k: int| 0 <= k < 15 && k != x ==> #[trigger] c1.registers.v@[k] == c0.registers.v@[k],
        c1.pc == c0.pc + 2,
{
    lemma_fields(op, 8, x, y, 6);
}

/// `8XYE`: `VF` receives the bit shifted out at the top of `VX`: the new
/// `VX` plus 256 times `VF` is twice the old `VX`.
pub proof fn shift_left_keeps_high_bit(c0: CPU, c1: CPU, op: u16, x: int, y: int, keys: [bool; 16], random: u8)
    requires
        0 <= x < 15,
        0 <= y < 16,
        op == 0x800E + x * 256 + y * 16,
        executes(c0, c1, op, keys, random),
    ensures
        c1.registers.v@[15] == c0.registers.v@[x] / 128,
        c1.registers.v@[x] + 256 * c1.registers.v@[15] == 2 * c0.registers.v@[x],
        forall|k: int| 0 <= k < 15 && k != x ==> #[trigger] c1.registers.v@[k] == c0.registers.v@[k],
        c1.pc == c0.pc + 2,
{
    lemma_fields(op, 8, x, y, 14);
}

/// The conditional skips `3XNN`, `4XNN`, `5XY0` and `9XY0` move on by four
/// bytes exactly when their comparison holds (`VX == NN`, `VX != NN`,
/// `VX == VY`, `VX != VY`) and by two bytes otherwise.
pub proof fn skips_exactly_when_compared_equal(
    c0: CPU,
    c1: CPU,
    op: u16,
    f: int,
    x: int,
    y: int,
    n: int,
    keys: [bool; 16],
    random: u8,
)
    requires
        f == 3 || f == 4 || f == 5 || f == 9,
        0 <= x < 16,
        0 <= y < 16,
        0 <= n < 16,
        op == f * 4096 + x * 256 + y * 16 + n,
        executes(c0, c1, op, keys, random),
    ensures
        f == 3 ==> c1.pc == c0.pc + (if c0.registers.v@[x] == y * 16 + n { 4int } else { 2 }),
        f == 4 ==> c1.pc == c0.pc + (if c0.registers.v@[x] != y * 16 + n { 4int } else { 2 }),
        f == 5 ==> c1.pc == c0.pc + (if c0.registers.v@[x] == c0.registers.v@[y] { 4int } else { 2 }),
        f == 9 ==> c1.pc == c0.pc + (if c0.registers.v@[x] != c0.registers.v@[y] { 4int } else { 2 }),
{
    lemma_fields(op, f, x, y, n);
}

/// `EX9E` skips when the key named by `VX` is pressed, `EXA1` when it is not.
pub proof fn key_skips(c0: CPU, c1: CPU, op: u16, x: int, keys: [bool; 16], random: u8)
    requires
        0 <= x < 16,
        op == 0xE09E + x * 256 || op == 0xE0A1 + x * 256,
        executes(c0, c1, op, keys, random),
    ensures
        op == 0xE09E + x * 256 ==> c1.pc == c0.pc + (if keys@[c0.registers.v@[x] as int] { 4int } else { 2 }),
        op == 0xE0A1 + x * 256 ==> c1.pc == c0.pc + (if keys@[c0.registers.v@[x] as int] { 2int } else { 4 }),
{
    if op == 0xE09E + x * 256 {
        lemma_fields(op, 0xE, x, 9, 0xE);
    } else {
        lemma_fields(op, 0xE, x, 0xA, 1);
    }
}

/// When more than a tick has accumulated, a timer above zero goes down by
/// exactly one and a timer at zero stays there; otherwise neither changes.
pub proof fn timers_count_down_by_one(old: Timers, elapsed_nanos: u128, new: Timers)
    requires
        Timers::advances(old, elapsed_nanos, new),
    ensures
        elapsed_nanos + old.time_since_update > TICK_NANOS ==> {
            &&& (old.delay_timer > 0 ==> new.delay_timer + 1 == old.delay_timer)
            &&& (old.delay_timer == 0 ==> new.delay_timer == 0)
            &&& (old.sound_timer > 0 ==> new.sound_timer + 1 == old.sound_timer)
            &&& (old.sound_timer == 0 ==> new.sound_timer == 0)
        },
        elapsed_nanos + old.time_since_update <= TICK_NANOS ==> {
            &&& new.delay_timer == old.delay_timer
            &&& new.sound_timer == old.sound_timer
        },
{
}

/// `FX07`, `FX15` and `FX18` move a value between `VX` and one timer and
/// leave the other timer alone.
pub proof fn timer_transfers(c0: CPU, c1: CPU, op: u16, x: int, keys: [bool; 16], random: u8)
    requires
        0 <= x < 16,
        op == 0xF007 + x * 256 || op == 0xF015 + x * 256 || op == 0xF018 + x * 256,
        executes(c0, c1, op, keys, random),
    ensures
        op == 0xF007 + x * 256 ==> c1.registers.v@[x] == c0.timers.delay_timer
            && c1.timers.delay_timer == c0.timers.delay_timer
            && c1.timers.sound_timer == c0.timers.sound_timer,
        op == 0xF015 + x * 256 ==> c1.timers.delay_timer == c0.registers.v@[x]
            && c1.timers.sound_timer == c0.timers.sound_timer,
        op == 0xF018 + x * 256 ==> c1.timers.sound_timer == c0.registers.v@[x]
            && c1.timers.delay_timer == c0.timers.delay_timer,
        c1.pc == c0.pc + 2,
{
    if op == 0xF007 + x * 256 {
        lemma_fields(op, 0xF, x, 0, 7);
    } else if op == 0xF015 + x * 256 {
        lemma_fields(op, 0xF, x, 1, 5);
    } else {
        lemma_fields(op, 0xF, x, 1, 8);
    }
}

/// Every opcode leaves the time accumulated towards the next tick alone; only
/// `FX15` sets the delay timer and only `FX18` the sound timer.
pub proof fn only_timer_instructions_set_timers(c0: CPU, c1: CPU, op: u16, keys: [bool; 16], random: u8)
    requires
        executes(c0, c1, op, keys, random),
    ensures
        c1.timers.time_since_update == c0.timers.time_since_update,
        c1.timers.delay_timer != c0.timers.delay_timer ==> op as int / 4096 == 0xF && op as int % 256 == 0x15,
        c1.timers.sound_timer != c0.timers.sound_timer ==> op as int / 4096 == 0xF && op as int % 256 == 0x18,
{
}

/// The key instructions `EX9E` and `EXA1` are accepted whenever `VX` names
/// one of the sixteen keys and the program counter has room to move on by
/// four bytes.
pub proof fn key_skips_are_accepted(c: CPU, x: int, keys: [bool; 16])
    requires
        0 <= x < 16,
        c.registers.v@[x] < 16,
        c.pc + 4 <= 0xFFFF,
    ensures
        opcode_runs(c, (0xE09E + x * 256) as u16, keys),
        opcode_runs(c, (0xE0A1 + x * 256) as u16, keys),
{
    lemma_fields((0xE09E + x * 256) as u16, 0xE, x, 9, 0xE);
    lemma_fields((0xE0A1 + x * 256) as u16, 0xE, x, 0xA, 1);
}

/// `1NNN` jumps to `NNN`; `BNNN` jumps to `NNN + V0`; `2NNN` jumps to `NNN`
/// and saves the address after the call on top of the stack; `00EE` (any
/// `00NN` with a non-zero last nibble) jumps to the address on top of the
/// stack and drops it.
pub proof fn jumps_calls_and_returns(c0: CPU, c1: CPU, op: u16, f: int, nnn: int, keys: [bool; 16], random: u8)
    requires
        f == 0 || f == 1 || f == 2 || f == 0xB,
        0 <= nnn < 4096,
        op == f * 4096 + nnn,
        f == 0 ==> nnn < 0x100 && nnn % 16 != 0 && 1 <= c0.stack.pop_index <= 12,
        f == 2 ==> c0.stack.pop_index < 12 && c0.pc + 2 <= 0xFFFF,
        executes(c0, c1, op, keys, random),
    ensures
        f == 1 ==> c1.pc == nnn && c1.stack.bytes@ == c0.stack.bytes@ && c1.stack.pop_index == c0.stack.pop_index,
        f == 0xB ==> c1.pc == nnn + c0.registers.v@[0] && c1.stack.bytes@ == c0.stack.bytes@
            && c1.stack.pop_index == c0.stack.pop_index,
        f == 2 ==> {
            &&& c1.pc == nnn
            &&& c1.stack.pop_index == c0.stack.pop_index + 1
            &&& c1.stack.bytes@[c0.stack.pop_index as int] == c0.pc + 2
            &&& forall|k: int| 0 <= k < 12 && k != c0.stack.pop_index ==> #[trigger] c1.stack.bytes@[k] == c0.stack.bytes@[k]
        },
        f == 0 ==> {
            &&& c1.pc == c0.stack.bytes@[c0.stack.pop_index - 1]
            &&& c1.stack.pop_index + 1 == c0.stack.pop_index
            &&& c1.stack.bytes@[c1.stack.pop_index as int] == 0
            &&& forall|k: int| 0 <= k < 12 && k != c1.stack.pop_index ==> #[trigger] c1.stack.bytes@[k] == c0.stack.bytes@[k]
        },
{
    lemma_fields(op, f, nnn / 256, (nnn / 16) % 16, nnn % 16);
    if f == 1 || f == 0xB {
        assert(c1.stack.bytes@ =~= c0.stack.bytes@);
    }
}

/// `00E0` (any `00N0`) turns every pixel off and moves on by two bytes.
pub proof fn clear_screen_darkens_every_pixel(c0: CPU, c1: CPU, op: u16, keys: [bool; 16], random: u8)
    requires
        op < 0x100,
        op % 16 == 0,
        executes(c0, c1, op, keys, random),
    ensures
        forall|k: int| 0 <= k < 2048 ==> #[trigger] c1.display.v_memory@[k] == 0,
        c1.pc == c0.pc + 2,
{
    lemma_fields(op, 0, 0, op as int / 16, 0);
}

/// `6XNN` sets `VX` to `NN`; `7XNN` adds `NN` to `VX` modulo 256 without
/// touching `VF`; `CXNN` sets `VX` to the random byte masked by `NN`, so it
/// has no bit that `NN` lacks.  No other register changes.
pub proof fn immediate_operands(c0: CPU, c1: CPU, op: u16, f: int, x: int, nn: int, keys: [bool; 16], random: u8)
    requires
        f == 6 || f == 7 || f == 0xC,
        0 <= x < 16,
        0 <= nn < 256,
        op == f * 4096 + x * 256 + nn,
        executes(c0, c1, op, keys, random),
    ensures
        f == 6 ==> c1.registers.v@[x] == nn,
        f == 7 ==> c1.registers.v@[x] == (c0.registers.v@[x] + nn) % 256,
        f == 0xC ==> c1.registers.v@[x] == random & (nn as u8) && c1.registers.v@[x] <= nn,
        forall|k: int| 0 <= k < 16 && k != x ==> #[trigger] c1.registers.v@[k] == c0.registers.v@[k],
        c1.pc == c0.pc + 2,
{
    lemma_fields(op, f, x, nn / 16, nn % 16);
    lemma_and_le(random, nn as u8);
}

proof fn lemma_and_le(a: u8, b: u8)
    by (bit_vector)
    ensures
        a & b <= b,
{
}

/// `8XY0`..`8XY3` copy, or, and and xor `VY` into `VX`; `8XY7` sets `VX` to
/// `VY - VX` modulo 256 with `VF` 0 exactly on a borrow.  Registers other than
/// `VX` (and `VF` for `8XY7`) keep their values.
pub proof fn register_operations(c0: CPU, c1: CPU, op: u16, x: int, y: int, n: int, keys: [bool; 16], random: u8)
    requires
        0 <= x < 15,
        0 <= y < 15,
        0 <= n <= 3 || n == 7,
        op == 0x8000 + x * 256 + y * 16 + n,
        executes(c0, c1, op, keys, random),
    ensures
        ({
            let vx = c0.registers.v@[x];
            let vy = c0.registers.v@[y];
            let r = c1.registers.v@[x];
            &&& n == 0 ==> r == vy
            &&& n == 1 ==> r == vx | vy
            &&& n == 2 ==> r == vx & vy
            &&& n == 3 ==> r == vx ^ vy
            &&& n == 7 ==> r - 256 * (1 - c1.registers.v@[15]) == vy - vx && c1.registers.v@[15] == (if vy >= vx { 1int } else { 0 })
            &&& n <= 3 ==> c1.registers.v@[15] == c0.registers.v@[15]
        }),
        forall|k: int| 0 <= k < 15 && k != x ==> #[trigger] c1.registers.v@[k] == c0.registers.v@[k],
        c1.pc == c0.pc + 2,
{
    lemma_fields(op, 8, x, y, n);
}

/// `ANNN` sets `I` to `NNN`, `FX1E` adds `VX` to `I`, and `FX29` sets `I` to
/// five times `VX`, the address of that digit's glyph.
pub proof fn index_register(c0: CPU, c1: CPU, op: u16, f: int, x: int, nn: int, keys: [bool; 16], random: u8)
    requires
        (f == 0xA && 0 <= nn < 256) || (f == 0xF && (nn == 0x1E || nn == 0x29)),
        0 <= x < 16,
        op == f * 4096 + x * 256 + nn,
        executes(c0, c1, op, keys, random),
    ensures
        f == 0xA ==> c1.registers.i == x * 256 + nn,
        f == 0xF && nn == 0x1E ==> c1.registers.i == c0.registers.i + c0.registers.v@[x],
        f == 0xF && nn == 0x29 ==> c1.registers.i == 5 * c0.registers.v@[x],
        c1.registers.v@ == c0.registers.v@,
        c1.pc == c0.pc + 2,
{
    lemma_fields(op, f, x, nn / 16, nn % 16);
}

/// `FX55` writes `V0`..`VX` to `I`..`I+X` and leaves the rest of memory
/// alone; `FX65` reads them back into `V0`..`VX` and leaves the other
/// registers alone.  Neither moves `I`.
pub proof fn register_block_transfers(c0: CPU, c1: CPU, op: u16, x: int, keys: [bool; 16], random: u8)
    requires
        0 <= x < 16,
        op == 0xF055 + x * 256 || op == 0xF065 + x * 256,
        c0.registers.i + x < 4096,
        executes(c0, c1, op, keys, random),
    ensures
        ({
            let i = c0.registers.i as int;
            &&& op == 0xF055 + x * 256 ==> {
                &&& forall|k: int| 0 <= k <= x ==> #[trigger] c1.memory.bytes@[i + k] == c0.registers.v@[k]
                &&& forall|a: int| 0 <= a < 4096 && !(i <= a <= i + x) ==> #[trigger] c1.memory.bytes@[a] == c0.memory.bytes@[a]
                &&& c1.registers.v@ == c0.registers.v@
            }
            &&& op == 0xF065 + x * 256 ==> {
                &&& forall|k: int| 0 <= k <= x ==> #[trigger] c1.registers.v@[k] == c0.memory.bytes@[i + k]
                &&& forall|k: int| x < k < 16 ==> #[trigger] c1.registers.v@[k] == c0.registers.v@[k]
                &&& c1.memory.bytes@ == c0.memory.bytes@
            }
            &&& c1.registers.i == c0.registers.i
            &&& c1.pc == c0.pc + 2
        }),
{
    if op == 0xF055 + x * 256 {
        lemma_fields(op, 0xF, x, 5, 5);
        assert forall|k: int| 0 <= k <= x implies #[trigger] c1.memory.bytes@[c0.registers.i + k] == c0.registers.v@[k] by {
            assert(c0.registers.i <= c0.registers.i + k <= c0.registers.i + x);
        }
    } else {
        lemma_fields(op, 0xF, x, 6, 5);
    }
}

/// `FX0A` waits for a key: with no key pressed nothing changes and the same
/// instruction runs again; otherwise `VX` names a pressed key with no pressed
/// key above it, and execution moves on.
pub proof fn wait_for_key(c0: CPU, c1: CPU, op: u16, x: int, keys: [bool; 16], random: u8)
    requires
        0 <= x < 16,
        op == 0xF00A + x * 256,
        executes(c0, c1, op, keys, random),
    ensures
        (forall|j: int| 0 <= j < 16 ==> !#[trigger] keys@[j]) ==> c1.pc == c0.pc && c1.registers.v@ == c0.registers.v@,
        (exists|j: int| 0 <= j < 16 && #[trigger] keys@[j]) ==> {
            &&& c1.pc == c0.pc + 2
            &&& c1.registers.v@[x] < 16
            &&& keys@[c1.registers.v@[x] as int]
            &&& forall|j: int| c1.registers.v@[x] < j < 16 ==> !#[trigger] keys@[j]
            &&& forall|k: int| 0 <= k < 16 && k != x ==> #[trigger] c1.registers.v@[k] == c0.registers.v@[k]
        },
{
    lemma_fields(op, 0xF, x, 0, 0xA);
    lemma_last_pressed(keys@, 16);
}

proof fn lemma_last_pressed(keys: Seq<bool>, upto: int)
    requires
        0 <= upto <= keys.len(),
    ensures
        -1 <= crate::semantics::last_pressed(keys, upto) < upto,
        crate::semantics::last_pressed(keys, upto) >= 0 ==> keys[crate::semantics::last_pressed(keys, upto)],
        forall|j: int| crate::semantics::last_pressed(keys, upto) < j < upto ==> !#[trigger] keys[j],
        (exists|j: int| 0 <= j < upto && #[trigger] keys[j]) ==> crate::semantics::last_pressed(keys, upto) >= 0,
    decreases upto,
{
    if upto > 0 {
        lemma_last_pressed(keys, upto - 1);
    }
}

/// Only these opcodes change these parts of the machine: `I` by `ANNN`,
/// `FX1E`, `FX29`; memory by `FX33`, `FX55`; the screen by `00N0` and
/// `DXYN`; the stack by `2NNN` and `00NN`; the registers by `6XNN`, `7XNN`,
/// `8XYN`, `CXNN`, `DXYN`, `FX07`, `FX0A`, `FX65`.
pub proof fn only_some_instructions_change_each_part(c0: CPU, c1: CPU, op: u16, keys: [bool; 16], random: u8)
    requires
        executes(c0, c1, op, keys, random),
    ensures
        ({
            let f = op as int / 4096;
            let nn = op as int % 256;
            &&& c1.registers.i != c0.registers.i ==> f == 0xA || (f == 0xF && (nn == 0x1E || nn == 0x29))
            &&& c1.memory.bytes@ != c0.memory.bytes@ ==> f == 0xF && (nn == 0x33 || nn == 0x55)
            &&& c1.display.v_memory@ != c0.display.v_memory@ ==> f == 0xD || (f == 0 && op as int % 16 == 0)
            &&& (c1.stack.bytes@ != c0.stack.bytes@ || c1.stack.pop_index != c0.stack.pop_index) ==> f == 0 || f == 2
            &&& c1.registers.v@ != c0.registers.v@ ==> f == 6 || f == 7 || f == 8 || f == 0xC || f == 0xD
                || (f == 0xF && (nn == 0x07 || nn == 0x0A || nn == 0x65))
        }),
{
}

/// The frame-buffer cell under column `c` of row `r` of a sprite drawn at
/// (`vx`, `vy`): column `vx + c` of row `vy + r`, counting cells row by row
/// and wrapping around the 2048 cells.
pub open spec fn sprite_cell(vx: u8, vy: u8, r: int, c: int) -> int {
    (vx + c + (vy + r) * 64) % 2048
}

/// `DXYN`: the pixel under column `c` of row `r` of the sprite (for `r` from
/// 0 to `N`) flips exactly when bit `c` (from the left) of memory byte
/// `I + r` is set; every pixel that changes is under the sprite and has been
/// XORed with 1; `VF` is 1 exactly when some set bit fell on a lit pixel, and
/// 0 otherwise.
pub proof fn sprite_drawing(c0: CPU, c1: CPU, op: u16, x: int, y: int, n: int, keys: [bool; 16], random: u8)
    requires
        0 <= x < 16,
        0 <= y < 16,
        0 <= n < 16,
        op == 0xD000 + x * 256 + y * 16 + n,
        executes(c0, c1, op, keys, random),
    ensures
        ({
            let vx = c0.registers.v@[x];
            let vy = c0.registers.v@[y];
            let i = c0.registers.i as int;
            let d0 = c0.display.v_memory@;
            let d1 = c1.display.v_memory@;
            let m = c0.memory.bytes@;
            &&& forall|r: int, c: int| 0 <= r <= n && 0 <= c < 8 ==> {
                let k = sprite_cell(vx, vy, r, c);
                d1[#[trigger] sprite_cell(vx, vy, r, c)] == if (m[i + r] >> ((7 - c) as u8)) & 1u8 == 1u8 {
                    d0[k] ^ 1u8
                } else {
                    d0[k]
                }
            }
            &&& forall|k: int| 0 <= k < 2048 && #[trigger] d1[k] != d0[k] ==> d1[k] == d0[k] ^ 1u8 && exists|r: int, c: int|
                0 <= r <= n && 0 <= c < 8 && k == #[trigger] sprite_cell(vx, vy, r, c)
            &&& c1.registers.v@[15] == 0 || c1.registers.v@[15] == 1
            &&& (c1.registers.v@[15] == 1) == exists|r: int, c: int|
                0 <= r <= n && 0 <= c < 8 && (m[i + r] >> ((7 - c) as u8)) & 1u8 == 1u8
                    && d0[#[trigger] sprite_cell(vx, vy, r, c)] == 1
            &&& c1.pc == c0.pc + 2
        }),
{
    lemma_fields(op, 0xD, x, y, n);
    let vx = c0.registers.v@[x];
    let vy = c0.registers.v@[y];
    let i = c0.registers.i;
    let d0 = c0.display.v_memory@;
    let d1 = c1.display.v_memory@;
    let m = c0.memory.bytes@;
    assert forall|r: int, c: int| 0 <= r <= n && 0 <= c < 8 implies {
        let k = sprite_cell(vx, vy, r, c);
        d1[#[trigger] sprite_cell(vx, vy, r, c)] == if (m[i + r] >> ((7 - c) as u8)) & 1u8 == 1u8 {
            d0[k] ^ 1u8
        } else {
            d0[k]
        }
    } by {
        crate::interpreter::lemma_sprite_cell(vx, vy, r, c);
    }
    assert forall|k: int| 0 <= k < 2048 && #[trigger] d1[k] != d0[k] implies d1[k] == d0[k] ^ 1u8 && exists|r: int, c: int|
        0 <= r <= n && 0 <= c < 8 && k == #[trigger] sprite_cell(vx, vy, r, c) by {
        let dd = crate::semantics::sprite_offset(vx, vy, k);
        let r = dd / 64;
        let c = dd % 64;
        crate::interpreter::lemma_sprite_cell(vx, vy, r, c);
        assert(k == sprite_cell(vx, vy, r, c));
    }
    let collided = exists|r: int, c: int|
        0 <= r <= n && 0 <= c < 8 && (m[i + r] >> ((7 - c) as u8)) & 1u8 == 1u8
            && d0[#[trigger] sprite_cell(vx, vy, r, c)] == 1;
    if collided {
        let (r, c) = choose|r: int, c: int|
            0 <= r <= n && 0 <= c < 8 && (m[i + r] >> ((7 - c) as u8)) & 1u8 == 1u8
                && d0[#[trigger] sprite_cell(vx, vy, r, c)] == 1;
        crate::interpreter::lemma_sprite_cell(vx, vy, r, c);
        let k = sprite_cell(vx, vy, r, c);
        assert(crate::semantics::sprite_covers(m, i, vx, vy, n, k));
    }
    if crate::semantics::sprite_collides(d0, m, i, vx, vy, n) {
        let k = choose|k: int| 0 <= k < 2048 && #[trigger] crate::semantics::sprite_covers(m, i, vx, vy, n, k) && d0[k] == 1;
        let dd = crate::semantics::sprite_offset(vx, vy, k);
        let r = dd / 64;
        let c = dd % 64;
        crate::interpreter::lemma_sprite_cell(vx, vy, r, c);
        assert(d0[sprite_cell(vx, vy, r, c)] == 1);
    }
}

/// Which opcodes the machine accepts.  Every documented instruction is
/// accepted once the program counter has room to move on, memory accesses
/// stay below 4096, `VX` names an existing key and the stack has an entry
/// (or room) as needed; machine-code calls, unknown arithmetic, key and
/// `FXNN` opcodes, returns with an empty stack or to an address at or below
/// 0x200, and jumps or calls to address 0 are refused.
pub proof fn which_opcodes_run(c: CPU, op: u16, keys: [bool; 16])
    ensures
        ({
            let f = op as int / 4096;
            let x = (op as int / 256) % 16;
            let nn = op as int % 256;
            let n = op as int % 16;
            let nnn = op as int % 4096;
            let pc = c.pc as int;
            let i = c.registers.i as int;
            let vx = c.registers.v@[x];
            let depth = c.stack.pop_index as int;
            &&& f == 1 ==> opcode_runs(c, op, keys)
            &&& (f == 3 || f == 4 || f == 5 || f == 6 || f == 7 || f == 9 || f == 0xA || f == 0xC) && pc + 4 <= 0xFFFF
                ==> opcode_runs(c, op, keys)
            &&& f == 8 && (n <= 7 || n == 14) && pc + 2 <= 0xFFFF ==> opcode_runs(c, op, keys)
            &&& f == 8 && !(n <= 7 || n == 14) ==> !opcode_runs(c, op, keys)
            &&& f == 0xD && i + n < 4096 && pc + 2 <= 0xFFFF ==> opcode_runs(c, op, keys)
            &&& f == 0xD && i + n >= 4096 ==> !opcode_runs(c, op, keys)
            &&& f == 0xE && (nn == 0x9E || nn == 0xA1) && vx < 16 && pc + 4 <= 0xFFFF ==> opcode_runs(c, op, keys)
            &&& f == 0xE && !(nn == 0x9E || nn == 0xA1) ==> !opcode_runs(c, op, keys)
            &&& f == 0xE && vx >= 16 ==> !opcode_runs(c, op, keys)
            &&& f == 0xF && (nn == 0x07 || nn == 0x0A || nn == 0x15 || nn == 0x18 || nn == 0x29) && pc + 2 <= 0xFFFF
                ==> opcode_runs(c, op, keys)
            &&& f == 0xF && nn == 0x1E && i + vx <= 0xFFFF && pc + 2 <= 0xFFFF ==> opcode_runs(c, op, keys)
            &&& f == 0xF && nn == 0x33 && i + 2 < 4096 && pc + 2 <= 0xFFFF ==> opcode_runs(c, op, keys)
            &&& f == 0xF && (nn == 0x55 || nn == 0x65) && i + x < 4096 && pc + 2 <= 0xFFFF ==> opcode_runs(c, op, keys)
            &&& f == 0xF && !(nn == 0x07 || nn == 0x0A || nn == 0x15 || nn == 0x18 || nn == 0x1E || nn == 0x29
                || nn == 0x33 || nn == 0x55 || nn == 0x65) ==> !opcode_runs(c, op, keys)
            &&& f == 0 && op >= 0x100 ==> !opcode_runs(c, op, keys)
            &&& op < 0x100 && n == 0 && pc + 2 <= 0xFFFF ==> opcode_runs(c, op, keys)
            &&& op < 0x100 && n != 0 && 1 <= depth <= 12 && c.stack.bytes@[depth - 1] > 0x200 ==> opcode_runs(c, op, keys)
            &&& op < 0x100 && n != 0 && depth == 0 ==> !opcode_runs(c, op, keys)
            &&& op < 0x100 && n != 0 && 1 <= depth <= 12 && c.stack.bytes@[depth - 1] <= 0x200 ==> !opcode_runs(c, op, keys)
            &&& f == 2 && nnn != 0 && depth < 12 && pc + 2 <= 0xFFFF ==> opcode_runs(c, op, keys)
            &&& f == 2 && (nnn == 0 || depth >= 12) ==> !opcode_runs(c, op, keys)
            &&& f == 0xB && nnn + c.registers.v@[0] != 0 ==> opcode_runs(c, op, keys)
            &&& f == 0xB && nnn + c.registers.v@[0] == 0 ==> !opcode_runs(c, op, keys)
        }),
{
}

} // verus!
