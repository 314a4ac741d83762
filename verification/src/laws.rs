//! Properties of the machine that relate several operations.
use vstd::prelude::*;
use crate::cpu::{CPU, Stack, Timers, font_glyphs, font_loaded, is_initial, TICK_NANOS};
use crate::semantics::{
    executes, op_family, op_n, op_nn, op_x, op_y, opcode_runs, sprite_covers,
};

verus! {

/// Pushing appends to the stack's contents, and popping removes and returns
/// the last entry.
pub proof fn stack_discipline(s0: Stack, e: u16, s1: Stack, s2: Stack, top: u16)
    requires
        s0.pop_index < 12,
        Stack::pushes(s0, e, s1),
    ensures
        s1.contents() == s0.contents().push(e),
        Stack::pops(s1, s2, top) ==> s2.contents() == s1.contents().drop_last() && top == s1.contents().last(),
{
    assert(s1.contents() =~= s0.contents().push(e));
    if Stack::pops(s1, s2, top) {
        assert(s2.contents() =~= s1.contents().drop_last());
    }
}

/// A pop undoes a push: it returns the pushed address and leaves the stack as
/// it was before the push, slot for slot when the free slots were clear.
pub proof fn pop_undoes_push(s0: Stack, e: u16, s1: Stack, s2: Stack, top: u16)
    requires
        s0.pop_index < 12,
        Stack::pushes(s0, e, s1),
        Stack::pops(s1, s2, top),
    ensures
        top == e,
        s2.pop_index == s0.pop_index,
        s2.contents() == s0.contents(),
        s0.slots_clear() ==> s2.bytes@ == s0.bytes@,
{
    assert(s2.contents() =~= s0.contents());
    if s0.slots_clear() {
        assert(s2.bytes@ =~= s0.bytes@);
    }
}

/// A freshly started machine has an empty stack whose slots are all clear,
/// and the font in the first 80 bytes of memory.
pub proof fn initial_machine(c: CPU)
    requires
        is_initial(c),
    ensures
        c.stack.slots_clear(),
        c.stack.contents() == Seq::<u16>::empty(),
        font_loaded(c.memory.bytes@),
{
    assert(c.stack.contents() =~= Seq::<u16>::empty());
    assert(c.memory.bytes@.take(80) =~= font_glyphs());
}

/// Pushing and popping keep every slot above the top of the stack at zero.
pub proof fn free_slots_stay_clear(s0: Stack, e: u16, s1: Stack, s2: Stack, top: u16)
    requires
        s0.slots_clear(),
    ensures
        Stack::pushes(s0, e, s1) ==> s1.slots_clear(),
        Stack::pops(s0, s2, top) && s0.pop_index >= 1 ==> s2.slots_clear(),
{
}

/// The timers only count down, by at most one per update, and no time is
/// lost: the time accumulated before plus the elapsed time is the time
/// accumulated after plus the tick that was taken, if any.
pub proof fn timers_account_for_time(old: Timers, elapsed_nanos: u128, new: Timers)
    requires
        Timers::advances(old, elapsed_nanos, new),
    ensures
        new.delay_timer <= old.delay_timer <= new.delay_timer + 1,
        new.sound_timer <= old.sound_timer <= new.sound_timer + 1,
        old.time_since_update + elapsed_nanos == new.time_since_update + (if elapsed_nanos + old.time_since_update > TICK_NANOS {
            TICK_NANOS
        } else {
            0
        }),
{
}

/// The sum of a sequence of elapsed times.
pub open spec fn total_elapsed(ds: Seq<u128>) -> int
    decreases ds.len(),
{
    if ds.len() == 0 {
        0
    } else {
        total_elapsed(ds.drop_last()) + ds.last()
    }
}

/// Over any run of updates, each timer counts down at most once per full
/// tick of time: the ticks counted, plus the time left over, never exceed
/// the time accumulated at the start plus all the time that elapsed.  From a
/// fresh start (nothing accumulated), a timer drops by at most the total
/// elapsed time divided by the tick.
pub proof fn timers_tick_at_most_once_per_tick(ts: Seq<Timers>, ds: Seq<u128>)
    requires
        ts.len() == ds.len() + 1,
        forall|k: int| 0 <= k < ds.len() ==> Timers::advances(ts[k], #[trigger] ds[k], ts[k + 1]),
    ensures
        ts.last().delay_timer <= ts[0].delay_timer,
        ts.last().sound_timer <= ts[0].sound_timer,
        (ts[0].delay_timer - ts.last().delay_timer) * TICK_NANOS + ts.last().time_since_update
            <= ts[0].time_since_update + total_elapsed(ds),
        (ts[0].sound_timer - ts.last().sound_timer) * TICK_NANOS + ts.last().time_since_update
            <= ts[0].time_since_update + total_elapsed(ds),
        ts[0].delay_timer - ts.last().delay_timer <= (ts[0].time_since_update + total_elapsed(ds)) / 10_000_000,
        ts[0].sound_timer - ts.last().sound_timer <= (ts[0].time_since_update + total_elapsed(ds)) / 10_000_000,
    decreases ds.len(),
{
    let n = ds.len() as int;
    if n > 0 {
        let ts0 = ts.drop_last();
        let ds0 = ds.drop_last();
        assert forall|k: int| 0 <= k < ds0.len() implies Timers::advances(ts0[k], #[trigger] ds0[k], ts0[k + 1]) by {
            assert(ds0[k] == ds[k]);
        }
        timers_tick_at_most_once_per_tick(ts0, ds0);
        assert(Timers::advances(ts[n - 1], ds[n - 1], ts[n]));
        assert(ts0.last() == ts[n - 1]);
    }
    let start = ts[0].time_since_update + total_elapsed(ds);
    let dd = ts[0].delay_timer - ts.last().delay_timer;
    let sd = ts[0].sound_timer - ts.last().sound_timer;
    assert(dd <= start / 10_000_000) by (nonlinear_arith)
        requires
            0 <= dd,
            dd * 10_000_000 <= start,
    ;
    assert(sd <= start / 10_000_000) by (nonlinear_arith)
        requires
            0 <= sd,
            sd * 10_000_000 <= start,
    ;
}

/// Loading a program at 0x200 keeps the font in place.
pub proof fn font_survives_loading(old_memory: Seq<u8>, rom: Seq<u8>, new_memory: Seq<u8>)
    requires
        old_memory.len() == 4096,
        rom.len() <= 4096 - 0x200,
        new_memory == old_memory.take(0x200) + rom + old_memory.skip(0x200 + rom.len() as int),
    ensures
        font_loaded(old_memory) ==> font_loaded(new_memory),
{
    if font_loaded(old_memory) {
        assert(new_memory.take(80) =~= old_memory.take(80));
    }
}

/// With the font in memory, `FX29` points `I` at the five-byte glyph of the
/// hexadecimal digit in `VX`.
pub proof fn glyph_address(c0: CPU, c1: CPU, op: u16, keys: [bool; 16], random: u8)
    requires
        font_loaded(c0.memory.bytes@),
        op_family(op) == 0xF,
        op_nn(op) == 0x29,
        c0.registers.v@[op_x(op)] < 16,
        executes(c0, c1, op, keys, random),
    ensures
        c1.memory.bytes@.subrange(c1.registers.i as int, c1.registers.i + 5)
            == font_glyphs().subrange(5 * c0.registers.v@[op_x(op)], 5 * c0.registers.v@[op_x(op)] + 5),
{
    let d = c0.registers.v@[op_x(op)] as int;
    assert(c1.memory.bytes@.take(80) == font_glyphs());
    assert forall|k: int| 5 * d <= k < 5 * d + 5 implies #[trigger] c1.memory.bytes@[k] == font_glyphs()[k] by {
        assert(c1.memory.bytes@.take(80)[k] == c1.memory.bytes@[k]);
    }
    assert(c1.memory.bytes@.subrange(5 * d, 5 * d + 5) =~= font_glyphs().subrange(5 * d, 5 * d + 5));
}

/// A call (`2NNN`) followed by a return (`00EE`) resumes at the instruction
/// after the call, with the stack, registers, memory, screen and timers as
/// they were before the call.
pub proof fn return_resumes_after_call(
    c0: CPU,
    c1: CPU,
    c2: CPU,
    call: u16,
    ret: u16,
    keys: [bool; 16],
    r1: u8,
    r2: u8,
)
    requires
        op_family(call) == 2,
        op_family(ret) == 0,
        op_n(ret) != 0,
        opcode_runs(c0, call, keys),
        executes(c0, c1, call, keys, r1),
        opcode_runs(c1, ret, keys),
        executes(c1, c2, ret, keys, r2),
    ensures
        c2.pc == c0.pc + 2,
        c2.stack.pop_index == c0.stack.pop_index,
        c2.stack.contents() == c0.stack.contents(),
        c0.stack.slots_clear() ==> c2.stack.bytes@ == c0.stack.bytes@,
        c2.registers.v@ == c0.registers.v@,
        c2.registers.i == c0.registers.i,
        c2.memory.bytes@ == c0.memory.bytes@,
        c2.display.v_memory@ == c0.display.v_memory@,
        c2.timers == c0.timers,
{
    assert(c2.stack.contents() =~= c0.stack.contents());
    if c0.stack.slots_clear() {
        assert(c2.stack.bytes@ =~= c0.stack.bytes@);
    }
    assert(c2.registers.v@ =~= c0.registers.v@);
}

proof fn lemma_xor_one_twice(a: u8)
    by (bit_vector)
    ensures
        (a ^ 1u8) ^ 1u8 == a,
{
}

/// Drawing the same sprite twice at the same place (`DXYN` twice, with `X`
/// and `Y` other than `F`) leaves the screen as it was.
pub proof fn drawing_twice_restores_screen(c0: CPU, c1: CPU, c2: CPU, op: u16, keys: [bool; 16], r1: u8, r2: u8)
    requires
        op_family(op) == 0xD,
        op_x(op) != 15,
        op_y(op) != 15,
        executes(c0, c1, op, keys, r1),
        executes(c1, c2, op, keys, r2),
    ensures
        c2.display.v_memory@ == c0.display.v_memory@,
        c2.memory.bytes@ == c0.memory.bytes@,
{
    let m = c0.memory.bytes@;
    let i = c0.registers.i;
    let vx = c0.registers.v@[op_x(op)];
    let vy = c0.registers.v@[op_y(op)];
    let n = op_n(op);
    assert(c1.registers.v@[op_x(op)] == vx);
    assert(c1.registers.v@[op_y(op)] == vy);
    assert forall|k: int| 0 <= k < 2048 implies #[trigger] c2.display.v_memory@[k] == c0.display.v_memory@[k] by {
        lemma_xor_one_twice(c0.display.v_memory@[k]);
        if sprite_covers(m, i, vx, vy, n, k) {
            assert(c1.display.v_memory@[k] == c0.display.v_memory@[k] ^ 1u8);
        }
    }
    assert(c2.display.v_memory@ =~= c0.display.v_memory@);
}

/// Storing `V0`..`VX` (`FX55`) and loading them back from the same place
/// (`FX65`) leaves the registers as they were.
pub proof fn store_then_load_registers(c0: CPU, c1: CPU, c2: CPU, store: u16, load: u16, keys: [bool; 16], r1: u8, r2: u8)
    requires
        op_family(store) == 0xF,
        op_nn(store) == 0x55,
        op_family(load) == 0xF,
        op_nn(load) == 0x65,
        op_x(load) == op_x(store),
        opcode_runs(c0, store, keys),
        executes(c0, c1, store, keys, r1),
        executes(c1, c2, load, keys, r2),
    ensures
        c2.registers.v@ == c0.registers.v@,
        c2.registers.i == c0.registers.i,
        c2.memory.bytes@ == c1.memory.bytes@,
{
    let x = op_x(store);
    let i = c0.registers.i as int;
    assert forall|k: int| 0 <= k < 16 implies #[trigger] c2.registers.v@[k] == c0.registers.v@[k] by {
        if k <= x {
            assert(c1.memory.bytes@[i + k] == c0.registers.v@[k]);
        }
    }
    assert(c2.registers.v@ =~= c0.registers.v@);
}

/// `FX33` writes the three decimal digits of `VX`, most significant first.
pub proof fn decimal_digits(c0: CPU, c1: CPU, op: u16, keys: [bool; 16], random: u8)
    requires
        op_family(op) == 0xF,
        op_nn(op) == 0x33,
        opcode_runs(c0, op, keys),
        executes(c0, c1, op, keys, random),
    ensures
        ({
            let m = c1.memory.bytes@;
            let i = c0.registers.i as int;
            &&& m[i] < 10 && m[i + 1] < 10 && m[i + 2] < 10
            &&& 100 * m[i] + 10 * m[i + 1] + m[i + 2] == c0.registers.v@[op_x(op)]
        }),
{
}

/// `8XY4` with `X` and `Y` other than `F` adds with carry: `VF` is the carry
/// and `VX` the low byte of the sum.
pub proof fn add_with_carry(c0: CPU, c1: CPU, op: u16, keys: [bool; 16], random: u8)
    requires
        op_family(op) == 8,
        op_n(op) == 4,
        op_x(op) != 15,
        op_y(op) != 15,
        executes(c0, c1, op, keys, random),
    ensures
        256 * c1.registers.v@[15] + c1.registers.v@[op_x(op)]
            == c0.registers.v@[op_x(op)] + c0.registers.v@[op_y(op)],
{
}

/// `8XY5` with `X` and `Y` other than `F` subtracts with borrow: `VF` is 0
/// exactly when a borrow occurs, and `VX` is the difference modulo 256.
pub proof fn subtract_with_borrow(c0: CPU, c1: CPU, op: u16, keys: [bool; 16], random: u8)
    requires
        op_family(op) == 8,
        op_n(op) == 5,
        op_x(op) != 15,
        op_y(op) != 15,
        executes(c0, c1, op, keys, random),
    ensures
        c1.registers.v@[op_x(op)] - 256 * (1 - c1.registers.v@[15])
            == c0.registers.v@[op_x(op)] - c0.registers.v@[op_y(op)],
{
}

} // verus!
