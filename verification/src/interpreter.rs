//! Executes one opcode on the machine.
use vstd::prelude::*;
use rand::Rng;
use crate::cpu::CPU;
use crate::semantics::{
    alu, drawn, executes, last_pressed, op_family, op_nn, opcode_runs,
    sprite_bit, sprite_collides, sprite_covers, sprite_offset,
};

verus! {

/// Cell `k` is covered by the sprite and lies in a row before `row`, or in
/// row `row` and a column before `col`.
spec fn covered_before(mem: Seq<u8>, i: u16, vx: u8, vy: u8, n: int, k: int, row: int, col: int) -> bool {
    let d = sprite_offset(vx, vy, k);
    &&& sprite_covers(mem, i, vx, vy, n, k)
    &&& (d / 64 < row || (d / 64 == row && d % 64 < col))
}

/// The cell that column `col` of row `row` of a sprite drawn at (`vx`, `vy`)
/// lands on is the one cell whose offset from (`vx`, `vy`) is `col + 64 * row`.
pub(crate) proof fn lemma_sprite_cell(vx: u8, vy: u8, row: int, col: int)
    requires
        0 <= row < 16,
        0 <= col < 8,
    ensures
        ({
            let idx = (vx + col + (vy + row) * 64) % 2048;
            &&& 0 <= idx < 2048
            &&& sprite_offset(vx, vy, idx) == col + 64 * row
            &&& forall|k: int| 0 <= k < 2048 && sprite_offset(vx, vy, k) == col + 64 * row ==> k == idx
        }),
{
    let base = vx + 64 * vy;
    let t = col + 64 * row;
    let idx = (base + t) % 2048;
    assert(vx + col + (vy + row) * 64 == base + t);
    lemma_offset_of(base, t);
    assert forall|k: int| 0 <= k < 2048 && sprite_offset(vx, vy, k) == t implies k == idx by {
        lemma_offset_unique(base, t, k);
    }
}

proof fn lemma_offset_of(base: int, t: int)
    requires
        0 <= base,
        0 <= t < 2048,
    ensures
        0 <= (base + t) % 2048 < 2048,
        ((base + t) % 2048 - base) % 2048 == t,
{
    let q = (base + t) / 2048;
    vstd::arithmetic::div_mod::lemma_fundamental_div_mod(base + t, 2048);
    assert((base + t) % 2048 - base == t - 2048 * q);
    vstd::arithmetic::div_mod::lemma_mod_multiples_vanish(-q, t, 2048);
    vstd::arithmetic::div_mod::lemma_small_mod(t as nat, 2048);
}

proof fn lemma_offset_unique(base: int, t: int, k: int)
    requires
        0 <= base,
        0 <= t < 2048,
        0 <= k < 2048,
        (k - base) % 2048 == t,
    ensures
        k == (base + t) % 2048,
{
    let p = (k - base) / 2048;
    vstd::arithmetic::div_mod::lemma_fundamental_div_mod(k - base, 2048);
    assert(base + t == k + 2048 * (-p));
    vstd::arithmetic::div_mod::lemma_mod_multiples_vanish(-p, k, 2048);
    vstd::arithmetic::div_mod::lemma_small_mod(k as nat, 2048);
}

/// Some cell covered before (`row`, `col`) held 1 before drawing.
spec fn collision_before(orig: Seq<u8>, mem: Seq<u8>, i: u16, vx: u8, vy: u8, n: int, row: int, col: int) -> bool {
    exists|k: int| 0 <= k < 2048 && #[trigger] covered_before(mem, i, vx, vy, n, k, row, col) && orig[k] == 1
}

proof fn lemma_collision_col_step(orig: Seq<u8>, mem: Seq<u8>, i: u16, vx: u8, vy: u8, n: int, row: int, col: int)
    requires
        0 <= row <= n < 16,
        0 <= col < 8,
    ensures
        ({
            let idx = (vx + col + (vy + row) * 64) % 2048;
            collision_before(orig, mem, i, vx, vy, n, row, col + 1) == (collision_before(orig, mem, i, vx, vy, n, row, col) || (sprite_bit(mem[i + row], col) && orig[idx] == 1))
        }),
{
    let idx = (vx + col + (vy + row) * 64) % 2048;
    lemma_sprite_cell(vx, vy, row, col);
    if collision_before(orig, mem, i, vx, vy, n, row, col + 1) {
        let k = choose|k: int| 0 <= k < 2048 && #[trigger] covered_before(mem, i, vx, vy, n, k, row, col + 1) && orig[k] == 1;
        if k != idx {
            assert(covered_before(mem, i, vx, vy, n, k, row, col));
        }
    }
    if collision_before(orig, mem, i, vx, vy, n, row, col) {
        let k = choose|k: int| 0 <= k < 2048 && #[trigger] covered_before(mem, i, vx, vy, n, k, row, col) && orig[k] == 1;
        assert(covered_before(mem, i, vx, vy, n, k, row, col + 1));
    }
    if sprite_bit(mem[i + row], col) && orig[idx] == 1 {
        assert(covered_before(mem, i, vx, vy, n, idx, row, col + 1));
    }
}

proof fn lemma_collision_row_step(orig: Seq<u8>, mem: Seq<u8>, i: u16, vx: u8, vy: u8, n: int, row: int)
    ensures
        collision_before(orig, mem, i, vx, vy, n, row, 8) == collision_before(orig, mem, i, vx, vy, n, row + 1, 0),
{
    if collision_before(orig, mem, i, vx, vy, n, row, 8) {
        let k = choose|k: int| 0 <= k < 2048 && #[trigger] covered_before(mem, i, vx, vy, n, k, row, 8) && orig[k] == 1;
        assert(covered_before(mem, i, vx, vy, n, k, row + 1, 0));
    }
    if collision_before(orig, mem, i, vx, vy, n, row + 1, 0) {
        let k = choose|k: int| 0 <= k < 2048 && #[trigger] covered_before(mem, i, vx, vy, n, k, row + 1, 0) && orig[k] == 1;
        assert(covered_before(mem, i, vx, vy, n, k, row, 8));
    }
}

proof fn lemma_collision_ends(orig: Seq<u8>, mem: Seq<u8>, i: u16, vx: u8, vy: u8, n: int)
    ensures
        !collision_before(orig, mem, i, vx, vy, n, 0, 0),
        collision_before(orig, mem, i, vx, vy, n, n + 1, 0) == sprite_collides(orig, mem, i, vx, vy, n),
{
    if collision_before(orig, mem, i, vx, vy, n, n + 1, 0) {
        let k = choose|k: int| 0 <= k < 2048 && #[trigger] covered_before(mem, i, vx, vy, n, k, n + 1, 0) && orig[k] == 1;
        assert(sprite_covers(mem, i, vx, vy, n, k));
    }
    if sprite_collides(orig, mem, i, vx, vy, n) {
        let k = choose|k: int| 0 <= k < 2048 && #[trigger] sprite_covers(mem, i, vx, vy, n, k) && orig[k] == 1;
        assert(covered_before(mem, i, vx, vy, n, k, n + 1, 0));
    }
}

/// Draws the sprite of `n + 1` rows stored from `i` on at (`vx`, `vy`) by
/// XORing each covered cell with 1; tells whether a lit cell was turned off.
fn draw_sprite(display: &mut [u8; 2048], memory: &[u8; 4096], i: u16, vx: u8, vy: u8, n: u16) -> (collided: bool)
    requires
        n < 16,
        i + n < 4096,
    ensures
        final(display)@ == drawn(old(display)@, memory@, i, vx, vy, n as int),
        collided == sprite_collides(old(display)@, memory@, i, vx, vy, n as int),
{
    let ghost orig = display@;
    let mut collided = false;
    proof {
        lemma_collision_ends(orig, memory@, i, vx, vy, n as int);
    }
    for j in 0..n + 1
        invariant
            n < 16,
            i + n < 4096,
            orig.len() == 2048,
            display@ == Seq::new(2048, |k: int| if covered_before(memory@, i, vx, vy, n as int, k, j as int, 0) { orig[k] ^ 1u8 } else { orig[k] }),
            collided == collision_before(orig, memory@, i, vx, vy, n as int, j as int, 0),
    {
        let line_from_memory = memory[i as usize + j as usize];
        for c in 0..8u8
            invariant
                n < 16,
                j <= n,
                i + n < 4096,
                orig.len() == 2048,
                line_from_memory == memory@[i + j],
                display@ == Seq::new(2048, |k: int| if covered_before(memory@, i, vx, vy, n as int, k, j as int, c as int) { orig[k] ^ 1u8 } else { orig[k] }),
                collided == collision_before(orig, memory@, i, vx, vy, n as int, j as int, c as int),
        {
            let x = vx as usize + c as usize;
            let y = vy as usize + j as usize;
            let idx = (x + y * 64) % 2048;
            let bit = (line_from_memory >> (7 - c)) & 1;
            proof {
                lemma_sprite_cell(vx, vy, j as int, c as int);
                lemma_collision_col_step(orig, memory@, i, vx, vy, n as int, j as int, c as int);
            }
            if bit == 1 {
                if display[idx] == 1 {
                    collided = true;
                }
                display[idx] = display[idx] ^ 1;
            }
            assert(display@ =~= Seq::new(2048, |k: int| if covered_before(memory@, i, vx, vy, n as int, k, j as int, c + 1) { orig[k] ^ 1u8 } else { orig[k] }));
        }
        proof {
            lemma_collision_row_step(orig, memory@, i, vx, vy, n as int, j as int);
        }
        assert(display@ =~= Seq::new(2048, |k: int| if covered_before(memory@, i, vx, vy, n as int, k, j + 1, 0) { orig[k] ^ 1u8 } else { orig[k] }));
    }
    assert(display@ =~= drawn(orig, memory@, i, vx, vy, n as int));
    collided
}


/// How the fields of an opcode are extracted with masks and shifts.
proof fn lemma_decode(op: u16)
    by (bit_vector)
    ensures
        (op & 0xF000) >> 12 == op / 4096,
        (op & 0x0F00) >> 8 == (op / 256) % 16,
        (op & 0x00F0) >> 4 == (op / 16) % 16,
        op & 0x000F == op % 16,
        op & 0x00FF == op % 256,
        op & 0x0FFF == op % 4096,
{
}

/// The lowest and highest bit of a byte, and a shift right by one.
proof fn lemma_byte_bits(a: u8)
    by (bit_vector)
    ensures
        0x01 & a == a % 2,
        a >> 1 == a / 2,
        (0x80 & a) >> 7 == a / 128,
{
}

/// Turns every pixel off.
pub fn clear_display(cpu: &mut CPU)
    ensures
        final(cpu).display.v_memory@ == Seq::new(2048, |k: int| 0u8),
        final(cpu).memory == old(cpu).memory,
        final(cpu).registers == old(cpu).registers,
        final(cpu).stack == old(cpu).stack,
        final(cpu).timers == old(cpu).timers,
        final(cpu).pc == old(cpu).pc,
{
    for i in 0..2048
        invariant
            cpu.display.v_memory@ == Seq::new(2048, |k: int| if k < i { 0u8 } else { old(cpu).display.v_memory@[k] }),
            cpu.memory == old(cpu).memory,
            cpu.registers == old(cpu).registers,
            cpu.stack == old(cpu).stack,
            cpu.timers == old(cpu).timers,
            cpu.pc == old(cpu).pc,
    {
        cpu.display.v_memory[i] = 0;
        assert(cpu.display.v_memory@ =~= Seq::new(2048, |k: int| if k < i + 1 { 0u8 } else { old(cpu).display.v_memory@[k] }));
    }
    assert(cpu.display.v_memory@ =~= Seq::new(2048, |k: int| 0u8));
}

/// `00E0` (and any `00N0`): clear the screen; `00EE` (and any `00NN` with a
/// non-zero last nibble): return from a subroutine.
fn exec_system(cpu: &mut CPU, opcode: u16, keyboard_input: [bool; 16], random: u8)
    requires
        op_family(opcode) == 0,
        opcode_runs(*old(cpu), opcode, keyboard_input),
    ensures
        executes(*old(cpu), *final(cpu), opcode, keyboard_input, random),
{
    proof {
        lemma_decode(opcode);
    }
    if opcode & 0x000F == 0 {
        clear_display(cpu);
        cpu.pc = cpu.pc + 2;
    } else {
        cpu.pc = cpu.stack.pop();
        assert(cpu.stack.bytes@ =~= old(cpu).stack.bytes@.update(old(cpu).stack.pop_index - 1, 0));
    }
}

/// The register updates of an `8XYN` instruction.
fn alu_step(v: &mut [u8; 16], x: usize, y: usize, n: u16)
    requires
        x < 16,
        y < 16,
        n <= 7 || n == 14,
    ensures
        final(v)@ == alu(old(v)@, x as int, y as int, n as int),
{
    if n <= 3 {
        alu_bitwise(v, x, y, n);
    } else {
        alu_arith(v, x, y, n);
    }
}

/// `8XY0`..`8XY3`: copy, or, and, xor.
fn alu_bitwise(v: &mut [u8; 16], x: usize, y: usize, n: u16)
    requires
        x < 16,
        y < 16,
        n <= 3,
    ensures
        final(v)@ == alu(old(v)@, x as int, y as int, n as int),
{
    let ghost v0 = v@;
    if n == 0x0 {
        v[x] = v[y];
        assert(v@ =~= alu(v0, x as int, y as int, n as int));
    } else if n == 0x1 {
        v[x] = v[x] | v[y];
        assert(v@ =~= alu(v0, x as int, y as int, n as int));
    } else if n == 0x2 {
        v[x] = v[x] & v[y];
        assert(v@ =~= alu(v0, x as int, y as int, n as int));
    } else if n == 0x3 {
        v[x] = v[x] ^ v[y];
        assert(v@ =~= alu(v0, x as int, y as int, n as int));
    }
}

/// `8XY4`..`8XY7` and `8XYE`: add, subtract, shift, with the flag in `VF`.
fn alu_arith(v: &mut [u8; 16], x: usize, y: usize, n: u16)
    requires
        x < 16,
        y < 16,
        4 <= n <= 7 || n == 14,
    ensures
        final(v)@ == alu(old(v)@, x as int, y as int, n as int),
{
    if n == 0x4 {
        alu_add(v, x, y);
    } else if n == 0x5 || n == 0x7 {
        alu_sub(v, x, y, n);
    } else {
        alu_shift(v, x, y, n);
    }
}

/// `8XY4`: `VX += VY`; `VF` is the carry out of the addition.
fn alu_add(v: &mut [u8; 16], x: usize, y: usize)
    requires
        x < 16,
        y < 16,
    ensures
        final(v)@ == alu(old(v)@, x as int, y as int, 4),
{
    let ghost v0 = v@;
    if v[x] as u32 + v[y] as u32 > 0xFF {
        v[15] = 1;
    } else {
        v[15] = 0;
    }
    v[x] = ((v[y] as u16 + v[x] as u16) % 256) as u8;
    assert(v@ =~= alu(v0, x as int, y as int, 4));
}

/// `8XY5`: `VX -= VY`; `8XY7`: `VX = VY - VX`.  `VF` is 0 on a borrow and 1
/// otherwise; the difference wraps.
fn alu_sub(v: &mut [u8; 16], x: usize, y: usize, n: u16)
    requires
        x < 16,
        y < 16,
        n == 5 || n == 7,
    ensures
        final(v)@ == alu(old(v)@, x as int, y as int, n as int),
{
    let ghost v0 = v@;
    if n == 0x5 {
        if v[x] < v[y] {
            v[15] = 0;
        } else {
            v[15] = 1;
        }
        let ghost v1 = v@;
        v[x] = ((v[x] as u16 + 0x100 - v[y] as u16) % 256) as u8;
        assert((v1[x as int] + 0x100 - v1[y as int]) % 256 == (v1[x as int] - v1[y as int]) % 256);
        assert(v@ =~= alu(v0, x as int, y as int, 5));
    } else {
        if v[x] > v[y] {
            v[15] = 0;
        } else {
            v[15] = 1;
        }
        let ghost v1 = v@;
        v[x] = ((v[y] as u16 + 0x100 - v[x] as u16) % 256) as u8;
        assert((v1[y as int] + 0x100 - v1[x as int]) % 256 == (v1[y as int] - v1[x as int]) % 256);
        assert(v@ =~= alu(v0, x as int, y as int, 7));
    }
}

/// `8XY6`: `VF` gets the lowest bit of `VX`, then `VX` shifts right by one;
/// `8XYE`: `VF` gets the highest bit of `VX`, then `VX` shifts left by one.
fn alu_shift(v: &mut [u8; 16], x: usize, y: usize, n: u16)
    requires
        x < 16,
        y < 16,
        n == 6 || n == 14,
    ensures
        final(v)@ == alu(old(v)@, x as int, y as int, n as int),
{
    let ghost v0 = v@;
    proof {
        lemma_byte_bits(v0[x as int]);
    }
    if n == 0x6 {
        let least_significant_bit = 0x01 & v[x];
        v[15] = least_significant_bit;
        let ghost v1 = v@;
        proof {
            lemma_byte_bits(v1[x as int]);
        }
        v[x] = v[x] >> 1;
        assert(v@ =~= alu(v0, x as int, y as int, 6));
    } else {
        let most_significant_bit = (0x80 & v[x]) >> 7;
        v[15] = most_significant_bit;
        v[x] = ((v[x] as u16 * 2) % 256) as u8;
        assert(v@ =~= alu(v0, x as int, y as int, 14));
    }
}

/// `DXYN`: draw the sprite of `N + 1` rows stored from `I` on at (`VX`,
/// `VY`); `VF` tells whether a lit pixel was turned off.
fn exec_draw(cpu: &mut CPU, opcode: u16, keyboard_input: [bool; 16], random: u8)
    requires
        op_family(opcode) == 0xD,
        opcode_runs(*old(cpu), opcode, keyboard_input),
    ensures
        executes(*old(cpu), *final(cpu), opcode, keyboard_input, random),
{
    proof {
        lemma_decode(opcode);
    }
    let x = ((opcode & 0x0F00) >> 8) as usize;
    let y = ((opcode & 0x00F0) >> 4) as usize;
    let n = opcode & 0x000F;
    let vx = cpu.registers.v[x];
    let vy = cpu.registers.v[y];
    let collided = draw_sprite(&mut cpu.display.v_memory, &cpu.memory.bytes, cpu.registers.i, vx, vy, n);
    if collided {
        cpu.registers.v[15] = 1;
    } else {
        cpu.registers.v[15] = 0;
    }
    cpu.pc = cpu.pc + 2;
}

/// `EX9E` / `EXA1`: skip the next instruction if the key named by `VX` is
/// (is not) pressed.
fn exec_key_skip(cpu: &mut CPU, opcode: u16, keyboard_input: [bool; 16], random: u8)
    requires
        op_family(opcode) == 0xE,
        opcode_runs(*old(cpu), opcode, keyboard_input),
    ensures
        executes(*old(cpu), *final(cpu), opcode, keyboard_input, random),
{
    proof {
        lemma_decode(opcode);
    }
    let last_8_bits = opcode & 0x00FF;
    let x = ((opcode & 0x0F00) >> 8) as usize;
    let pressed = keyboard_input[cpu.registers.v[x] as usize];
    if last_8_bits == 0x9E {
        if pressed {
            cpu.pc = cpu.pc + 4;
        } else {
            cpu.pc = cpu.pc + 2;
        }
    } else {
        if !pressed {
            cpu.pc = cpu.pc + 4;
        } else {
            cpu.pc = cpu.pc + 2;
        }
    }
}

/// `FX0A`: wait for a key: when some key is pressed, the highest pressed
/// key goes to `VX` and execution moves on; otherwise nothing changes and the
/// instruction runs again.
fn exec_wait_key(cpu: &mut CPU, opcode: u16, keyboard_input: [bool; 16], random: u8)
    requires
        op_family(opcode) == 0xF,
        op_nn(opcode) == 0x0A,
        opcode_runs(*old(cpu), opcode, keyboard_input),
    ensures
        executes(*old(cpu), *final(cpu), opcode, keyboard_input, random),
{
    proof {
        lemma_decode(opcode);
    }
    let x = ((opcode & 0x0F00) >> 8) as usize;
    let mut none_pressed = true;
    for i in 0..16
        invariant
            x < 16,
            none_pressed == (last_pressed(keyboard_input@, i as int) < 0),
            cpu.registers.v@ == (if none_pressed {
                old(cpu).registers.v@
            } else {
                old(cpu).registers.v@.update(x as int, last_pressed(keyboard_input@, i as int) as u8)
            }),
            cpu.memory == old(cpu).memory,
            cpu.registers.i == old(cpu).registers.i,
            cpu.stack == old(cpu).stack,
            cpu.timers == old(cpu).timers,
            cpu.display == old(cpu).display,
            cpu.pc == old(cpu).pc,
    {
        if keyboard_input[i] {
            cpu.registers.v[x] = i as u8;
            none_pressed = false;
        }
        assert(cpu.registers.v@ =~= (if none_pressed {
            old(cpu).registers.v@
        } else {
            old(cpu).registers.v@.update(x as int, last_pressed(keyboard_input@, i + 1) as u8)
        }));
    }
    if !none_pressed {
        cpu.pc = cpu.pc + 2;
    }
}

/// `FX55` / `FX65`: store `V0`..`VX` to memory at `I`, or load them from it.
fn exec_bulk(cpu: &mut CPU, opcode: u16, keyboard_input: [bool; 16], random: u8)
    requires
        op_family(opcode) == 0xF,
        op_nn(opcode) == 0x55 || op_nn(opcode) == 0x65,
        opcode_runs(*old(cpu), opcode, keyboard_input),
    ensures
        executes(*old(cpu), *final(cpu), opcode, keyboard_input, random),
{
    proof {
        lemma_decode(opcode);
    }
    let x = (opcode & 0x0F00) >> 8;
    let i_reg = cpu.registers.i;
    let ghost m0 = cpu.memory.bytes@;
    let ghost v0 = cpu.registers.v@;
    if opcode & 0x00FF == 0x55 {
        for k in 0..(x + 1)
            invariant
                x < 16,
                i_reg == old(cpu).registers.i,
                i_reg + x < 4096,
                m0 == old(cpu).memory.bytes@,
                v0 == old(cpu).registers.v@,
                cpu.memory.bytes@ == Seq::new(4096, |a: int| if i_reg <= a < i_reg + k { v0[a - i_reg] } else { m0[a] }),
                cpu.registers == old(cpu).registers,
                cpu.stack == old(cpu).stack,
                cpu.timers == old(cpu).timers,
                cpu.display == old(cpu).display,
                cpu.pc == old(cpu).pc,
        {
            cpu.memory.bytes[(i_reg + k) as usize] = cpu.registers.v[k as usize];
            assert(cpu.memory.bytes@ =~= Seq::new(4096, |a: int| if i_reg <= a < i_reg + k + 1 { v0[a - i_reg] } else { m0[a] }));
        }
        assert(cpu.memory.bytes@ =~= Seq::new(4096, |a: int| if i_reg <= a <= i_reg + x { v0[a - i_reg] } else { m0[a] }));
    } else {
        for k in 0..(x + 1)
            invariant
                x < 16,
                i_reg == old(cpu).registers.i,
                i_reg + x < 4096,
                m0 == old(cpu).memory.bytes@,
                v0 == old(cpu).registers.v@,
                cpu.registers.v@ == Seq::new(16, |a: int| if a < k { m0[i_reg + a] } else { v0[a] }),
                cpu.registers.i == old(cpu).registers.i,
                cpu.memory == old(cpu).memory,
                cpu.stack == old(cpu).stack,
                cpu.timers == old(cpu).timers,
                cpu.display == old(cpu).display,
                cpu.pc == old(cpu).pc,
        {
            cpu.registers.v[k as usize] = cpu.memory.bytes[(i_reg + k) as usize];
            assert(cpu.registers.v@ =~= Seq::new(16, |a: int| if a < k + 1 { m0[i_reg + a] } else { v0[a] }));
        }
        assert(cpu.registers.v@ =~= Seq::new(16, |a: int| if a <= x { m0[i_reg + a] } else { v0[a] }));
    }
    cpu.pc = cpu.pc + 2;
}

/// The `FXNN` instructions: timers, `I` arithmetic, key wait, decimal
/// conversion and register block transfers.
fn exec_misc(cpu: &mut CPU, opcode: u16, keyboard_input: [bool; 16], random: u8)
    requires
        op_family(opcode) == 0xF,
        opcode_runs(*old(cpu), opcode, keyboard_input),
    ensures
        executes(*old(cpu), *final(cpu), opcode, keyboard_input, random),
{
    proof {
        lemma_decode(opcode);
    }
    let x = ((opcode & 0x0F00) >> 8) as usize;
    let last_8_bits = opcode & 0x00FF;
    if last_8_bits == 0x07 {
        cpu.registers.v[x] = cpu.timers.delay_timer;
        cpu.pc = cpu.pc + 2;
    } else if last_8_bits == 0x0A {
        exec_wait_key(cpu, opcode, keyboard_input, random);
    } else if last_8_bits == 0x15 {
        cpu.timers.delay_timer = cpu.registers.v[x];
        cpu.pc = cpu.pc + 2;
    } else if last_8_bits == 0x18 {
        cpu.timers.sound_timer = cpu.registers.v[x];
        cpu.pc = cpu.pc + 2;
    } else if last_8_bits == 0x1E {
        cpu.registers.i = cpu.registers.i + cpu.registers.v[x] as u16;
        cpu.pc = cpu.pc + 2;
    } else if last_8_bits == 0x29 {
        cpu.registers.i = cpu.registers.v[x] as u16 * 5;
        cpu.pc = cpu.pc + 2;
    } else if last_8_bits == 0x33 {
        let i_reg = cpu.registers.i as usize;
        let vx = cpu.registers.v[x];
        cpu.memory.bytes[i_reg] = vx / 100;
        cpu.memory.bytes[i_reg + 1] = (vx / 10) % 10;
        cpu.memory.bytes[i_reg + 2] = (vx % 100) % 10;
        cpu.pc = cpu.pc + 2;
    } else {
        exec_bulk(cpu, opcode, keyboard_input, random);
    }
}

/// Executes one opcode, with `random` as the byte that a `CXNN` instruction
/// masks into `VX`.
pub fn execute(cpu: &mut CPU, opcode: u16, keyboard_input: [bool; 16], random: u8)
    requires
        opcode_runs(*old(cpu), opcode, keyboard_input),
    ensures
        executes(*old(cpu), *final(cpu), opcode, keyboard_input, random),
{
    proof {
        lemma_decode(opcode);
    }
    let first_four_bits = (opcode & 0xF000) >> 12;
    let x = ((opcode & 0x0F00) >> 8) as usize;
    let y = ((opcode & 0x00F0) >> 4) as usize;
    let nn = opcode & 0x00FF;
    let nnn = opcode & 0x0FFF;
    if first_four_bits == 0x0 {
        exec_system(cpu, opcode, keyboard_input, random);
    } else if first_four_bits == 0x1 {
        // Jump to NNN.
        cpu.pc = nnn;
    } else if first_four_bits == 0x2 {
        // Call the subroutine at NNN.
        cpu.stack.push(cpu.pc + 2);
        cpu.pc = nnn;
    } else if first_four_bits == 0x3 {
        // Skip if VX == NN.
        if cpu.registers.v[x] == nn as u8 {
            cpu.pc = cpu.pc + 4;
        } else {
            cpu.pc = cpu.pc + 2;
        }
    } else if first_four_bits == 0x4 {
        // Skip if VX != NN.
        if cpu.registers.v[x] != nn as u8 {
            cpu.pc = cpu.pc + 4;
        } else {
            cpu.pc = cpu.pc + 2;
        }
    } else if first_four_bits == 0x5 {
        // Skip if VX == VY.
        if cpu.registers.v[x] == cpu.registers.v[y] {
            cpu.pc = cpu.pc + 4;
        } else {
            cpu.pc = cpu.pc + 2;
        }
    } else if first_four_bits == 0x6 {
        // VX = NN.
        cpu.registers.v[x] = nn as u8;
        cpu.pc = cpu.pc + 2;
    } else if first_four_bits == 0x7 {
        // VX += NN, without carry.
        cpu.registers.v[x] = ((nn + cpu.registers.v[x] as u16) % 256) as u8;
        cpu.pc = cpu.pc + 2;
    } else if first_four_bits == 0x8 {
        let n = opcode & 0x000F;
        alu_step(&mut cpu.registers.v, x, y, n);
        cpu.pc = cpu.pc + 2;
    } else if first_four_bits == 0x9 {
        // Skip if VX != VY.
        if cpu.registers.v[x] != cpu.registers.v[y] {
            cpu.pc = cpu.pc + 4;
        } else {
            cpu.pc = cpu.pc + 2;
        }
    } else if first_four_bits == 0xA {
        // I = NNN.
        cpu.registers.i = nnn;
        cpu.pc = cpu.pc + 2;
    } else if first_four_bits == 0xB {
        // Jump to NNN + V0.
        cpu.pc = nnn + cpu.registers.v[0] as u16;
    } else if first_four_bits == 0xC {
        // VX = random & NN.
        cpu.registers.v[x] = random & (nn as u8);
        cpu.pc = cpu.pc + 2;
    } else if first_four_bits == 0xD {
        exec_draw(cpu, opcode, keyboard_input, random);
    } else if first_four_bits == 0xE {
        exec_key_skip(cpu, opcode, keyboard_input, random);
    } else {
        exec_misc(cpu, opcode, keyboard_input, random);
    }
}

/// Draws a random byte in `0..=max` from the thread-local generator of the
/// `rand` crate (`rand::thread_rng().gen_range(0..=max)`).  The crate
/// documents that the value lies in the given range, and an inclusive range
/// from 0 is never empty, so the call does not panic on any argument; which
/// value comes out is chance, so nothing more is claimed.
#[verifier::external_body]
fn random_up_to(max: u8) -> (r: u8)
    ensures
        r <= max,
{
    rand::thread_rng().gen_range(0..=max)
}

/// Executes one opcode; a `CXNN` instruction draws its random byte from the
/// whole range 0 to 255.
pub fn accept_opcode(cpu: &mut CPU, opcode: u16, keyboard_input: [bool; 16])
    requires
        opcode_runs(*old(cpu), opcode, keyboard_input),
    ensures
        exists|r: u8| #[trigger] executes(*old(cpu), *final(cpu), opcode, keyboard_input, r),
        op_family(opcode) != 0xC ==> executes(*old(cpu), *final(cpu), opcode, keyboard_input, 0),
{
    proof {
        lemma_decode(opcode);
    }
    let random = if (opcode & 0xF000) >> 12 == 0xC {
        random_up_to(255)
    } else {
        0
    };
    execute(cpu, opcode, keyboard_input, random);
}

/// Whether some key is pressed.
fn any_key_pressed(keyboard_input: &[bool; 16]) -> (pressed: bool)
    ensures
        pressed == (last_pressed(keyboard_input@, 16) >= 0),
{
    let mut pressed = false;
    for i in 0..16
        invariant
            pressed == (last_pressed(keyboard_input@, i as int) >= 0),
    {
        if keyboard_input[i] {
            pressed = true;
        }
    }
    pressed
}

/// Whether the machine accepts `opcode` in its current state: a caller that
/// gets `true` may pass the opcode to `accept_opcode` or `execute`.
pub fn can_execute(cpu: &CPU, opcode: u16, keyboard_input: &[bool; 16]) -> (ok: bool)
    ensures
        ok == opcode_runs(*cpu, opcode, *keyboard_input),
{
    proof {
        lemma_decode(opcode);
    }
    let family = (opcode & 0xF000) >> 12;
    let x = ((opcode & 0x0F00) >> 8) as usize;
    let y = ((opcode & 0x00F0) >> 4) as usize;
    let n = opcode & 0x000F;
    let nn = opcode & 0x00FF;
    let nnn = opcode & 0x0FFF;
    let pc = cpu.pc as u32;
    let i_reg = cpu.registers.i as u32;
    let vx = cpu.registers.v[x];
    let depth = cpu.stack.pop_index;
    if family == 0x0 {
        if opcode >= 0x100 {
            false
        } else if n == 0 {
            pc + 2 <= 0xFFFF
        } else {
            1 <= depth && depth <= 12 && cpu.stack.bytes[depth as usize - 1] > 0x200
        }
    } else if family == 0x1 {
        true
    } else if family == 0x2 {
        pc + 2 <= 0xFFFF && depth < 12 && nnn != 0
    } else if family == 0xB {
        nnn + cpu.registers.v[0] as u16 != 0
    } else if family == 0xE && !(nn == 0x9E || nn == 0xA1) {
        false
    } else if family == 0xE && vx >= 16 {
        false
    } else {
        let advance: u32 = if family == 0x3 {
            if vx == nn as u8 { 4 } else { 2 }
        } else if family == 0x4 {
            if vx != nn as u8 { 4 } else { 2 }
        } else if family == 0x5 {
            if vx == cpu.registers.v[y] { 4 } else { 2 }
        } else if family == 0x9 {
            if vx != cpu.registers.v[y] { 4 } else { 2 }
        } else if family == 0xE {
            let pressed = keyboard_input[vx as usize];
            if (nn == 0x9E) == pressed { 4 } else { 2 }
        } else if family == 0xF && nn == 0x0A {
            if any_key_pressed(keyboard_input) { 2 } else { 0 }
        } else {
            2
        };
        let pc_fits = pc + advance <= 0xFFFF;
        if family == 0x8 {
            (n <= 7 || n == 14) && pc_fits
        } else if family == 0xD {
            i_reg + (n as u32) < 4096 && pc_fits
        } else if family == 0xF {
            pc_fits && if nn == 0x07 || nn == 0x0A || nn == 0x15 || nn == 0x18 || nn == 0x29 {
                true
            } else if nn == 0x1E {
                i_reg + vx as u32 <= 0xFFFF
            } else if nn == 0x33 {
                i_reg + 2 < 4096
            } else if nn == 0x55 || nn == 0x65 {
                i_reg + (x as u32) < 4096
            } else {
                false
            }
        } else {
            pc_fits
        }
    }
}

} // verus!
