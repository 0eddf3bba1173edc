//! The mathematical model of the machine: a ghost record of every component,
//! with its well-formedness condition and the wrapping arithmetic the
//! instruction set uses.
use vstd::prelude::*;

verus! {

/// Number of bytes in the memory.
pub const MEM_SIZE: usize = 4096;

/// Number of general registers.
pub const NUM_REGS: usize = 16;

/// Number of call-stack slots.
pub const STACK_SLOTS: usize = 16;

/// Width of the display in pixels.
pub const DISPLAY_WIDTH: usize = 64;

/// Height of the display in pixels.
pub const DISPLAY_HEIGHT: usize = 32;

/// Number of pixels in the display, rows stored one after another.
pub const DISPLAY_CELLS: usize = 2048;

/// Address where the font table is kept.
pub const FONT_BASE: usize = 0x50;

/// Address where a program image is loaded and where execution starts.
pub const ROM_BASE: usize = 0x200;

/// The model of the whole machine.
#[verifier::ext_equal]
pub ghost struct MachineState {
    /// The 4096 memory cells.
    pub mem: Seq<u8>,
    /// The sixteen general registers V0..VF.
    pub v: Seq<u8>,
    /// The 16-bit address register I.
    pub i: u16,
    /// The program counter.
    pub pc: u16,
    /// The sixteen call-stack slots.
    pub stack: Seq<u16>,
    /// The stack pointer, always below 16.
    pub sp: u8,
    /// The delay timer.
    pub delay: u8,
    /// The sound timer; sound is audible while it is nonzero.
    pub sound: u8,
    /// The display cells, row by row: pixel (px, py) is cell py * 64 + px.
    pub disp: Seq<bool>,
}

/// Well-formedness of a machine state: every component has its fixed size
/// and the stack pointer stays inside the stack.
pub open spec fn wf(s: MachineState) -> bool {
    &&& s.mem.len() == MEM_SIZE
    &&& s.v.len() == NUM_REGS
    &&& s.stack.len() == STACK_SLOTS
    &&& s.sp < STACK_SLOTS
    &&& s.disp.len() == DISPLAY_CELLS
}

/// Reduction modulo 256, the wrap of 8-bit register arithmetic.
pub open spec fn wrap8(x: int) -> u8 {
    (((x % 256) + 256) % 256) as u8
}

/// Reduction modulo 2^16, the wrap of address and program-counter arithmetic.
pub open spec fn wrap16(x: int) -> u16 {
    (((x % 0x10000) + 0x10000) % 0x10000) as u16
}

/// The memory with `data` written at addresses `start..start + data.len()`
/// and every other cell unchanged.
pub open spec fn store_seq(mem: Seq<u8>, start: int, data: Seq<u8>) -> Seq<u8> {
    Seq::new(mem.len(), |a: int| if start <= a < start + data.len() { data[a - start] } else { mem[a] })
}

} // verus!
