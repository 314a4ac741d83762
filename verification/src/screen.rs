//! What the terminal front end draws: the lit pixels of the frame buffer and
//! the keys shown as pressed under the screen.
use vstd::prelude::*;
use crate::cpu::Display;

verus! {

/// (column, row) of every cell of `cells` that holds 1, in cell order, for a
/// frame buffer 64 cells wide.
pub open spec fn lit_cells(cells: Seq<u8>) -> Seq<(usize, usize)>
    decreases cells.len(),
{
    if cells.len() == 0 {
        Seq::empty()
    } else {
        let k = cells.len() - 1;
        lit_cells(cells.drop_last()) + if cells[k] == 1 {
            seq![((k % 64) as usize, (k / 64) as usize)]
        } else {
            Seq::empty()
        }
    }
}

/// The indices of the pressed keys among `keys`, in increasing order.
pub open spec fn pressed_indices(keys: Seq<bool>) -> Seq<usize>
    decreases keys.len(),
{
    if keys.len() == 0 {
        Seq::empty()
    } else {
        let k = keys.len() - 1;
        pressed_indices(keys.drop_last()) + if keys[k] {
            seq![k as usize]
        } else {
            Seq::empty()
        }
    }
}

impl Display {
    /// The (column, row) position of each lit pixel, in cell order.
    pub fn lit_pixels(&self) -> (pixels: Vec<(usize, usize)>)
        ensures
            pixels@ == lit_cells(self.v_memory@),
    {
        let mut pixels: Vec<(usize, usize)> = Vec::new();
        for i in 0..2048
            invariant
                pixels@ == lit_cells(self.v_memory@.take(i as int)),
        {
            assert(self.v_memory@.take(i + 1).drop_last() =~= self.v_memory@.take(i as int));
            if self.v_memory[i] == 1 {
                let y = i / 64;
                let x = i % 64;
                pixels.push((x, y));
            }
            assert(pixels@ =~= lit_cells(self.v_memory@.take(i + 1)));
        }
        assert(self.v_memory@.take(2048) =~= self.v_memory@);
        pixels
    }
}

/// The indices of the pressed keys, in increasing order.
pub fn pressed_keys(keyboard_input: &[bool; 16]) -> (keys: Vec<usize>)
    ensures
        keys@ == pressed_indices(keyboard_input@),
{
    let mut keys: Vec<usize> = Vec::new();
    for i in 0..16
        invariant
            keys@ == pressed_indices(keyboard_input@.take(i as int)),
    {
        assert(keyboard_input@.take(i + 1).drop_last() =~= keyboard_input@.take(i as int));
        if keyboard_input[i] {
            keys.push(i);
        }
        assert(keys@ =~= pressed_indices(keyboard_input@.take(i + 1)));
    }
    assert(keyboard_input@.take(16) =~= keyboard_input@);
    keys
}

/// Every listed position is a lit cell of a frame buffer 64 cells wide, and
/// every lit cell is listed.
pub proof fn lit_cells_are_the_lit_pixels(cells: Seq<u8>)
    requires
        cells.len() <= 2048,
    ensures
        forall|p: (usize, usize)| #[trigger] lit_cells(cells).contains(p) ==> p.0 < 64 && p.0 + 64 * p.1 < cells.len()
            && cells[p.0 + 64 * p.1] == 1,
        forall|k: int| 0 <= k < cells.len() && cells[k] == 1 ==> #[trigger] lit_cells(cells).contains(((k % 64) as usize, (k / 64) as usize)),
    decreases cells.len(),
{
    if cells.len() > 0 {
        let rest = cells.drop_last();
        let last = cells.len() - 1;
        lit_cells_are_the_lit_pixels(rest);
        let tail: Seq<(usize, usize)> = if cells[last] == 1 {
            seq![((last % 64) as usize, (last / 64) as usize)]
        } else {
            Seq::empty()
        };
        assert(lit_cells(cells) == lit_cells(rest) + tail);
        assert forall|p: (usize, usize)| #[trigger] lit_cells(cells).contains(p) implies p.0 < 64 && p.0 + 64 * p.1 < cells.len()
            && cells[p.0 + 64 * p.1] == 1 by {
            let j = choose|j: int| 0 <= j < lit_cells(cells).len() && lit_cells(cells)[j] == p;
            if j < lit_cells(rest).len() {
                assert(lit_cells(rest)[j] == p);
                assert(lit_cells(rest).contains(p));
                assert(cells[p.0 + 64 * p.1] == rest[p.0 + 64 * p.1]);
            } else {
                assert(tail[j - lit_cells(rest).len()] == p);
            }
        }
        assert forall|k: int| 0 <= k < cells.len() && cells[k] == 1 implies #[trigger] lit_cells(cells).contains(((k % 64) as usize, (k / 64) as usize)) by {
            let p = ((k % 64) as usize, (k / 64) as usize);
            if k < last {
                assert(rest[k] == cells[k]);
                assert(lit_cells(rest).contains(p));
                let j = choose|j: int| 0 <= j < lit_cells(rest).len() && lit_cells(rest)[j] == p;
                assert(lit_cells(cells)[j] == p);
            } else {
                assert(lit_cells(cells)[lit_cells(rest).len() as int] == p);
            }
        }
    }
}

/// The listed keys are exactly the pressed ones.
pub proof fn pressed_indices_are_the_pressed_keys(keys: Seq<bool>)
    requires
        keys.len() <= 16,
    ensures
        forall|i: usize| #[trigger] pressed_indices(keys).contains(i) <==> (i < keys.len() && keys[i as int]),
    decreases keys.len(),
{
    if keys.len() > 0 {
        let rest = keys.drop_last();
        let last = keys.len() - 1;
        pressed_indices_are_the_pressed_keys(rest);
        let tail: Seq<usize> = if keys[last] { seq![last as usize] } else { Seq::empty() };
        assert(pressed_indices(keys) == pressed_indices(rest) + tail);
        assert forall|i: usize| #[trigger] pressed_indices(keys).contains(i) <==> (i < keys.len() && keys[i as int]) by {
            if pressed_indices(keys).contains(i) {
                let j = choose|j: int| 0 <= j < pressed_indices(keys).len() && pressed_indices(keys)[j] == i;
                if j < pressed_indices(rest).len() {
                    assert(pressed_indices(rest)[j] == i);
                    assert(pressed_indices(rest).contains(i));
                    assert(rest[i as int] == keys[i as int]);
                } else {
                    assert(tail[j - pressed_indices(rest).len()] == i);
                }
            }
            if i < keys.len() && keys[i as int] {
                if i < last {
                    assert(rest[i as int] == keys[i as int]);
                    assert(pressed_indices(rest).contains(i));
                    let j = choose|j: int| 0 <= j < pressed_indices(rest).len() && pressed_indices(rest)[j] == i;
                    assert(pressed_indices(keys)[j] == i);
                } else {
                    assert(pressed_indices(keys)[pressed_indices(rest).len() as int] == i);
                }
            }
        }
    }
}

} // verus!
