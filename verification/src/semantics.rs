//! What one opcode does to the machine, stated component by component.
use vstd::prelude::*;
use crate::cpu::CPU;

verus! {

/// The top nibble of an opcode, which selects the instruction family.
pub open spec fn op_family(op: u16) -> int {
    op as int / 4096
}

/// The second nibble of an opcode (register `X`).
pub open spec fn op_x(op: u16) -> int {
    (op as int / 256) % 16
}

/// The third nibble of an opcode (register `Y`).
pub open spec fn op_y(op: u16) -> int {
    (op as int / 16) % 16
}

/// The lowest nibble of an opcode (`N`).
pub open spec fn op_n(op: u16) -> int {
    op as int % 16
}

/// The low byte of an opcode (`NN`).
pub open spec fn op_nn(op: u16) -> int {
    op as int % 256
}

/// The low twelve bits of an opcode (address `NNN`).
pub open spec fn op_nnn(op: u16) -> int {
    op as int % 4096
}

/// The highest index below `upto` of a pressed key, or -1 when none of the
/// first `upto` keys is pressed.
pub open spec fn last_pressed(keys: Seq<bool>, upto: int) -> int
    decreases upto,
{
    if upto <= 0 {
        -1
    } else if keys[upto - 1] {
        upto - 1
    } else {
        last_pressed(keys, upto - 1)
    }
}

/// Bit `col` of a sprite row, counting from the most significant bit.
pub open spec fn sprite_bit(row: u8, col: int) -> bool {
    (row >> ((7 - col) as u8)) & 1u8 == 1u8
}

/// Offset of frame-buffer cell `k` from the cell `vx + 64 * vy`, wrapping
/// around the 2048 cells of the frame buffer.
pub open spec fn sprite_offset(vx: u8, vy: u8, k: int) -> int {
    (k - (vx + 64 * vy)) % 2048
}

/// Cell `k` lies under a set bit of the sprite of `n + 1` rows read from
/// memory at `i` and drawn at (`vx`, `vy`): row `r` (for `r` from 0 to `n`) of
/// the sprite covers the eight cells that follow `vx + 64 * (vy + r)`.
pub open spec fn sprite_covers(mem: Seq<u8>, i: u16, vx: u8, vy: u8, n: int, k: int) -> bool {
    let d = sprite_offset(vx, vy, k);
    &&& d % 64 < 8
    &&& d / 64 <= n
    &&& sprite_bit(mem[i + d / 64], d % 64)
}

/// The frame buffer after drawing the sprite: every covered cell is XORed with 1.
pub open spec fn drawn(display: Seq<u8>, mem: Seq<u8>, i: u16, vx: u8, vy: u8, n: int) -> Seq<u8> {
    Seq::new(
        2048,
        |k: int|
            if sprite_covers(mem, i, vx, vy, n, k) {
                display[k] ^ 1u8
            } else {
                display[k]
            },
    )
}

/// Drawing the sprite turns off a lit pixel (a covered cell that holds 1).
pub open spec fn sprite_collides(display: Seq<u8>, mem: Seq<u8>, i: u16, vx: u8, vy: u8, n: int) -> bool {
    exists|k: int| 0 <= k < 2048 && #[trigger] sprite_covers(mem, i, vx, vy, n, k) && display[k] == 1
}

/// The instruction skips the next one (families 3, 4, 5, 9 and E).
pub open spec fn skips(c: CPU, op: u16, keys: [bool; 16]) -> bool {
    let v = c.registers.v@;
    let x = op_x(op);
    let y = op_y(op);
    let f = op_family(op);
    if f == 3 {
        v[x] == op_nn(op)
    } else if f == 4 {
        v[x] != op_nn(op)
    } else if f == 5 {
        v[x] == v[y]
    } else if f == 9 {
        v[x] != v[y]
    } else if f == 0xE {
        if op_nn(op) == 0x9E {
            keys@[v[x] as int]
        } else {
            !keys@[v[x] as int]
        }
    } else {
        false
    }
}

/// The program counter after the instruction.
pub open spec fn next_pc(c: CPU, op: u16, keys: [bool; 16]) -> int {
    let f = op_family(op);
    let pc = c.pc as int;
    if f == 0 && op_n(op) != 0 {
        c.stack.bytes@[c.stack.pop_index - 1] as int
    } else if f == 1 || f == 2 {
        op_nnn(op)
    } else if f == 0xB {
        op_nnn(op) + c.registers.v@[0]
    } else if f == 0xF && op_nn(op) == 0x0A {
        if last_pressed(keys@, 16) >= 0 {
            pc + 2
        } else {
            pc
        }
    } else if skips(c, op, keys) {
        pc + 4
    } else {
        pc + 2
    }
}

/// The registers after an `8XYN` instruction.
pub open spec fn alu(v: Seq<u8>, x: int, y: int, n: int) -> Seq<u8> {
    if n == 0 {
        v.update(x, v[y])
    } else if n == 1 {
        v.update(x, v[x] | v[y])
    } else if n == 2 {
        v.update(x, v[x] & v[y])
    } else if n == 3 {
        v.update(x, v[x] ^ v[y])
    } else if n == 4 {
        let v1 = v.update(15, if v[x] + v[y] > 255 { 1u8 } else { 0u8 });
        v1.update(x, ((v1[x] + v1[y]) % 256) as u8)
    } else if n == 5 {
        let v1 = v.update(15, if v[x] < v[y] { 0u8 } else { 1u8 });
        v1.update(x, ((v1[x] - v1[y]) % 256) as u8)
    } else if n == 6 {
        let v1 = v.update(15, v[x] % 2);
        v1.update(x, v1[x] / 2)
    } else if n == 7 {
        let v1 = v.update(15, if v[x] > v[y] { 0u8 } else { 1u8 });
        v1.update(x, ((v1[y] - v1[x]) % 256) as u8)
    } else if n == 14 {
        let v1 = v.update(15, v[x] / 128);
        v1.update(x, ((v1[x] * 2) % 256) as u8)
    } else {
        v
    }
}

/// The registers `V0`..`VF` after the instruction, given the random byte
/// that a `CXNN` instruction draws.
pub open spec fn next_registers(c: CPU, op: u16, keys: [bool; 16], random: u8) -> Seq<u8> {
    let v = c.registers.v@;
    let x = op_x(op);
    let f = op_family(op);
    let nn = op_nn(op);
    if f == 6 {
        v.update(x, nn as u8)
    } else if f == 7 {
        v.update(x, ((v[x] + nn) % 256) as u8)
    } else if f == 8 {
        alu(v, x, op_y(op), op_n(op))
    } else if f == 0xC {
        v.update(x, random & (nn as u8))
    } else if f == 0xD {
        let collided = sprite_collides(
            c.display.v_memory@,
            c.memory.bytes@,
            c.registers.i,
            v[x],
            v[op_y(op)],
            op_n(op),
        );
        v.update(15, if collided { 1u8 } else { 0u8 })
    } else if f == 0xF && nn == 0x07 {
        v.update(x, c.timers.delay_timer)
    } else if f == 0xF && nn == 0x0A {
        if last_pressed(keys@, 16) >= 0 {
            v.update(x, last_pressed(keys@, 16) as u8)
        } else {
            v
        }
    } else if f == 0xF && nn == 0x65 {
        Seq::new(
            16,
            |k: int|
                if k <= x {
                    c.memory.bytes@[c.registers.i + k]
                } else {
                    v[k]
                },
        )
    } else {
        v
    }
}

/// The address register `I` after the instruction.
pub open spec fn next_index(c: CPU, op: u16) -> int {
    let f = op_family(op);
    let vx = c.registers.v@[op_x(op)];
    if f == 0xA {
        op_nnn(op)
    } else if f == 0xF && op_nn(op) == 0x1E {
        c.registers.i + vx
    } else if f == 0xF && op_nn(op) == 0x29 {
        vx * 5
    } else {
        c.registers.i as int
    }
}

/// Memory after the instruction.
pub open spec fn next_memory(c: CPU, op: u16) -> Seq<u8> {
    let m = c.memory.bytes@;
    let i = c.registers.i as int;
    let x = op_x(op);
    let v = c.registers.v@;
    if op_family(op) == 0xF && op_nn(op) == 0x33 {
        m.update(i, v[x] / 100).update(i + 1, (v[x] / 10) % 10).update(i + 2, v[x] % 10)
    } else if op_family(op) == 0xF && op_nn(op) == 0x55 {
        Seq::new(4096, |k: int| if i <= k <= i + x { v[k - i] } else { m[k] })
    } else {
        m
    }
}

/// The frame buffer after the instruction.
pub open spec fn next_display(c: CPU, op: u16) -> Seq<u8> {
    let f = op_family(op);
    if f == 0 && op_n(op) == 0 {
        Seq::new(2048, |k: int| 0u8)
    } else if f == 0xD {
        drawn(
            c.display.v_memory@,
            c.memory.bytes@,
            c.registers.i,
            c.registers.v@[op_x(op)],
            c.registers.v@[op_y(op)],
            op_n(op),
        )
    } else {
        c.display.v_memory@
    }
}

/// The stack slots after the instruction.
pub open spec fn next_stack(c: CPU, op: u16) -> Seq<u16> {
    let f = op_family(op);
    let b = c.stack.bytes@;
    if f == 0 && op_n(op) != 0 {
        b.update(c.stack.pop_index - 1, 0)
    } else if f == 2 {
        b.update(c.stack.pop_index as int, (c.pc + 2) as u16)
    } else {
        b
    }
}

/// The number of entries on the stack after the instruction.
pub open spec fn next_depth(c: CPU, op: u16) -> int {
    let f = op_family(op);
    if f == 0 && op_n(op) != 0 {
        c.stack.pop_index - 1
    } else if f == 2 {
        c.stack.pop_index + 1
    } else {
        c.stack.pop_index as int
    }
}

/// The delay timer after the instruction.
pub open spec fn next_delay(c: CPU, op: u16) -> u8 {
    if op_family(op) == 0xF && op_nn(op) == 0x15 {
        c.registers.v@[op_x(op)]
    } else {
        c.timers.delay_timer
    }
}

/// The sound timer after the instruction.
pub open spec fn next_sound(c: CPU, op: u16) -> u8 {
    if op_family(op) == 0xF && op_nn(op) == 0x18 {
        c.registers.v@[op_x(op)]
    } else {
        c.timers.sound_timer
    }
}

/// `new` is the machine after executing `op` on `old` with the keypad in
/// state `keys`, where `random` is the byte drawn by a `CXNN` instruction.
pub open spec fn executes(old: CPU, new: CPU, op: u16, keys: [bool; 16], random: u8) -> bool {
    &&& new.pc == next_pc(old, op, keys)
    &&& new.registers.v@ == next_registers(old, op, keys, random)
    &&& new.registers.i == next_index(old, op)
    &&& new.memory.bytes@ == next_memory(old, op)
    &&& new.display.v_memory@ == next_display(old, op)
    &&& new.stack.bytes@ == next_stack(old, op)
    &&& new.stack.pop_index == next_depth(old, op)
    &&& new.timers.delay_timer == next_delay(old, op)
    &&& new.timers.sound_timer == next_sound(old, op)
    &&& new.timers.time_since_update == old.timers.time_since_update
}

/// `op` is an opcode that the machine accepts in state `c` with keypad
/// `keys`: it is a known instruction, a return finds a saved address above
/// 0x200, a call finds room on the stack and a non-zero target, a computed
/// jump does not land on 0, every memory access stays inside the 4096 bytes,
/// the key named by `VX` exists, and neither the program counter nor `I`
/// passes 0xFFFF.
pub open spec fn opcode_runs(c: CPU, op: u16, keys: [bool; 16]) -> bool {
    let f = op_family(op);
    let n = op_n(op);
    let nn = op_nn(op);
    let x = op_x(op);
    let v = c.registers.v@;
    let i = c.registers.i as int;
    let pc_fits = next_pc(c, op, keys) <= 0xFFFF;
    if f == 0 {
        &&& op < 0x100
        &&& if n == 0 {
            pc_fits
        } else {
            &&& 1 <= c.stack.pop_index <= 12
            &&& c.stack.bytes@[c.stack.pop_index - 1] > 0x200
        }
    } else if f == 1 {
        true
    } else if f == 2 {
        &&& c.pc + 2 <= 0xFFFF
        &&& c.stack.pop_index < 12
        &&& op_nnn(op) != 0
    } else if f == 8 {
        &&& (n <= 7 || n == 14)
        &&& pc_fits
    } else if f == 0xB {
        op_nnn(op) + v[0] != 0
    } else if f == 0xD {
        &&& i + n < 4096
        &&& pc_fits
    } else if f == 0xE {
        &&& (nn == 0x9E || nn == 0xA1)
        &&& v[x] < 16
        &&& pc_fits
    } else if f == 0xF {
        &&& pc_fits
        &&& if nn == 0x07 || nn == 0x0A || nn == 0x15 || nn == 0x18 || nn == 0x29 {
            true
        } else if nn == 0x1E {
            i + v[x] <= 0xFFFF
        } else if nn == 0x33 {
            i + 2 < 4096
        } else if nn == 0x55 || nn == 0x65 {
            i + x < 4096
        } else {
            false
        }
    } else {
        pc_fits
    }
}

} // verus!
