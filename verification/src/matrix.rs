//! Command frames for a MAX7219 LED matrix driver on the SPI bus: the
//! power-up sequence, and one sweep that lights one dot per row and then
//! clears the rows.

use vstd::prelude::*;

verus! {

/// One 16-bit command: a register address and the byte written to it.
#[derive(PartialEq, Eq, Structural, Debug, Clone, Copy)]
pub struct MatrixFrame {
    pub register: u8,
    pub data: u8,
}

/// The frame for `register` and `data`.
pub open spec fn frame(register: u8, data: u8) -> MatrixFrame {
    MatrixFrame { register, data }
}

/// The power-up commands, in order: leave shutdown mode, no digit decoding,
/// scan all eight rows, medium intensity.
pub open spec fn init_sequence() -> Seq<MatrixFrame> {
    seq![frame(0x0C, 0x01), frame(0x09, 0x00), frame(0x0B, 0x07), frame(0x0A, 0x07)]
}

/// The power-up commands of the display.
pub fn init_frames() -> (v: Vec<MatrixFrame>)
    ensures
        v@ == init_sequence(),
{
    let mut v: Vec<MatrixFrame> = Vec::new();
    v.push(MatrixFrame { register: 0x0C, data: 0x01 });
    v.push(MatrixFrame { register: 0x09, data: 0x00 });
    v.push(MatrixFrame { register: 0x0B, data: 0x07 });
    v.push(MatrixFrame { register: 0x0A, data: 0x07 });
    v
}

/// The dot pattern that the `k`-th row of a sweep gets: one bit, moving
/// one place up per row.
pub open spec fn row_bit(k: nat) -> nat
    decreases k,
{
    if k == 0 {
        1
    } else {
        2 * row_bit((k - 1) as nat)
    }
}

/// One sweep: rows 1 to 8 get the bits 1, 2, 4, ... 128 in turn, then rows
/// 1 to 8 are written with the pattern left over after eight shifts of a
/// byte, which is zero.
pub open spec fn sweep_frame(i: int) -> MatrixFrame {
    if i < 8 {
        frame((i + 1) as u8, row_bit(i as nat) as u8)
    } else {
        frame((i - 7) as u8, 0)
    }
}

/// The frames of one sweep of the display, in the order they are sent.
pub fn sweep_frames() -> (v: Vec<MatrixFrame>)
    ensures
        v@.len() == 16,
        forall|i: int| 0 <= i < 16 ==> #[trigger] v@[i] == sweep_frame(i),
{
    let mut v: Vec<MatrixFrame> = Vec::new();
    let mut data: u8 = 1;
    let mut addr: u8 = 1;
    while addr < 9
        invariant
            1 <= addr <= 9,
            v@.len() == addr - 1,
            addr < 9 ==> data == row_bit((addr - 1) as nat),
            addr == 9 ==> data == 0,
            forall|i: int| 0 <= i < v@.len() ==> #[trigger] v@[i] == sweep_frame(i),
        decreases 9 - addr,
    {
        v.push(MatrixFrame { register: addr, data });
        proof {
            reveal_with_fuel(row_bit, 9);
        }
        assert(data == 128 ==> data << 1 == 0u8) by (bit_vector);
        assert(data < 128 ==> data << 1 == data * 2) by (bit_vector);
        data = data << 1;
        addr = addr + 1;
    }
    let mut addr: u8 = 1;
    while addr < 9
        invariant
            1 <= addr <= 9,
            data == 0,
            v@.len() == addr + 7,
            forall|i: int| 0 <= i < v@.len() ==> #[trigger] v@[i] == sweep_frame(i),
        decreases 9 - addr,
    {
        v.push(MatrixFrame { register: addr, data });
        addr = addr + 1;
    }
    v
}

} // verus!
