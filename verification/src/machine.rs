//! The machine itself: memory, registers, call stack, timers and display,
//! with the small state transitions that the instruction forms share.
use vstd::prelude::*;

use crate::Chip8Error;
use crate::state::{
    DISPLAY_CELLS, FONT_BASE, MEM_SIZE, MachineState, NUM_REGS, ROM_BASE, STACK_SLOTS, store_seq,
    wf, wrap16,
};

verus! {

/// The machine. Fields are public so that callers outside the library can
/// inspect and seed them; every verified method keeps `wf` of the view.
pub struct Chip8 {
    /// The 4096 memory cells.
    pub mem: Vec<u8>,
    /// The sixteen general registers V0..VF.
    pub v: Vec<u8>,
    /// The 16-bit address register I.
    pub i: u16,
    /// The program counter.
    pub pc: u16,
    /// The sixteen call-stack slots.
    pub stack: Vec<u16>,
    /// The stack pointer.
    pub sp: u8,
    /// The delay timer.
    pub delay_timer: u8,
    /// The sound timer.
    pub sound_timer: u8,
    /// The display cells, row by row: pixel (px, py) is cell py * 64 + px.
    pub display: Vec<bool>,
}

impl View for Chip8 {
    type V = MachineState;

    open spec fn view(&self) -> MachineState {
        MachineState {
            mem: self.mem@,
            v: self.v@,
            i: self.i,
            pc: self.pc,
            stack: self.stack@,
            sp: self.sp,
            delay: self.delay_timer,
            sound: self.sound_timer,
            disp: self.display@,
        }
    }
}

/// The state a machine starts in: everything zeroed, the display dark, and
/// the program counter at the load address 0x200.
pub open spec fn initial_state() -> MachineState {
    MachineState {
        mem: Seq::new(MEM_SIZE as nat, |a: int| 0u8),
        v: Seq::new(NUM_REGS as nat, |j: int| 0u8),
        i: 0u16,
        pc: 0x200u16,
        stack: Seq::new(STACK_SLOTS as nat, |j: int| 0u16),
        sp: 0u8,
        delay: 0u8,
        sound: 0u8,
        disp: Seq::new(DISPLAY_CELLS as nat, |c: int| false),
    }
}

/// The 80-byte font table: sixteen hexadecimal digit glyphs, five bytes each.
pub open spec fn font() -> Seq<u8> {
    seq![
        0xF0u8, 0x90, 0x90, 0x90, 0xF0, // 0
        0x20, 0x60, 0x20, 0x20, 0x70, // 1
        0xF0, 0x10, 0xF0, 0x80, 0xF0, // 2
        0xF0, 0x10, 0xF0, 0x10, 0xF0, // 3
        0x90, 0x90, 0xF0, 0x10, 0x10, // 4
        0xF0, 0x80, 0xF0, 0x10, 0xF0, // 5
        0xF0, 0x80, 0xF0, 0x90, 0xF0, // 6
        0xF0, 0x10, 0x20, 0x40, 0x40, // 7
        0xF0, 0x90, 0xF0, 0x90, 0xF0, // 8
        0xF0, 0x90, 0xF0, 0x10, 0xF0, // 9
        0xF0, 0x90, 0xF0, 0x90, 0x90, // A
        0xE0, 0x90, 0xE0, 0x90, 0xE0, // B
        0xF0, 0x80, 0x80, 0x80, 0xF0, // C
        0xE0, 0x90, 0x90, 0x90, 0xE0, // D
        0xF0, 0x80, 0xF0, 0x80, 0xF0, // E
        0xF0, 0x80, 0xF0, 0x80, 0x80, // F
    ]
}

/// Appends one five-byte glyph to the table being built.
fn push_glyph(t: &mut Vec<u8>, b0: u8, b1: u8, b2: u8, b3: u8, b4: u8)
    ensures
        final(t)@ == old(t)@ + seq![b0, b1, b2, b3, b4],
{
    t.push(b0);
    t.push(b1);
    t.push(b2);
    t.push(b3);
    t.push(b4);
    proof {
        assert(t@ =~= old(t)@ + seq![b0, b1, b2, b3, b4]);
    }
}

/// Builds the font table as a vector of its 80 bytes.
#[verifier::rlimit(30)]
pub fn font_table() -> (t: Vec<u8>)
    ensures
        t@ == font(),
{
    let mut t: Vec<u8> = Vec::new();
    push_glyph(&mut t, 0xF0, 0x90, 0x90, 0x90, 0xF0);
    push_glyph(&mut t, 0x20, 0x60, 0x20, 0x20, 0x70);
    push_glyph(&mut t, 0xF0, 0x10, 0xF0, 0x80, 0xF0);
    push_glyph(&mut t, 0xF0, 0x10, 0xF0, 0x10, 0xF0);
    push_glyph(&mut t, 0x90, 0x90, 0xF0, 0x10, 0x10);
    push_glyph(&mut t, 0xF0, 0x80, 0xF0, 0x10, 0xF0);
    push_glyph(&mut t, 0xF0, 0x80, 0xF0, 0x90, 0xF0);
    push_glyph(&mut t, 0xF0, 0x10, 0x20, 0x40, 0x40);
    push_glyph(&mut t, 0xF0, 0x90, 0xF0, 0x90, 0xF0);
    push_glyph(&mut t, 0xF0, 0x90, 0xF0, 0x10, 0xF0);
    push_glyph(&mut t, 0xF0, 0x90, 0xF0, 0x90, 0x90);
    push_glyph(&mut t, 0xE0, 0x90, 0xE0, 0x90, 0xE0);
    push_glyph(&mut t, 0xF0, 0x80, 0x80, 0x80, 0xF0);
    push_glyph(&mut t, 0xE0, 0x90, 0x90, 0x90, 0xE0);
    push_glyph(&mut t, 0xF0, 0x80, 0xF0, 0x80, 0xF0);
    push_glyph(&mut t, 0xF0, 0x80, 0xF0, 0x80, 0x80);
    proof {
        assert(t@ =~= font());
    }
    t
}

impl Chip8 {
    /// A fresh machine in the initial state.
    pub fn new() -> (m: Chip8)
        ensures
            m@ == initial_state(),
            wf(m@),
    {
        let m = Chip8 {
            mem: vec![0u8; 4096],
            v: vec![0u8; 16],
            i: 0,
            pc: 0x200,
            stack: vec![0u16; 16],
            sp: 0,
            delay_timer: 0,
            sound_timer: 0,
            display: vec![false; 2048],
        };
        proof {
            assert(m@ =~= initial_state());
        }
        m
    }

    /// Writes the font table at addresses 0x50..0xA0; the rest of the
    /// machine is untouched.
    pub fn load_fonts(&mut self)
        requires
            wf(old(self)@),
        ensures
            wf(final(self)@),
            final(self)@ == (MachineState { mem: store_seq(old(self)@.mem, FONT_BASE as int, font()), ..old(self)@ }),
    {
        let t = font_table();
        let mut j: usize = 0;
        while j < 80
            invariant
                wf(old(self)@),
                t@ == font(),
                j <= 80,
                self@ == (MachineState { mem: self@.mem, ..old(self)@ }),
                self@.mem.len() == MEM_SIZE,
                forall|a: int| 0 <= a < MEM_SIZE ==> self@.mem[a] == (
                    if FONT_BASE <= a < FONT_BASE + j { font()[a - FONT_BASE] } else { old(self)@.mem[a] }
                ),
            decreases 80 - j,
        {
            self.mem[FONT_BASE + j] = t[j];
            j += 1;
        }
        proof {
            assert(self@.mem =~= store_seq(old(self)@.mem, FONT_BASE as int, font()));
            assert(self@ =~= (MachineState { mem: store_seq(old(self)@.mem, FONT_BASE as int, font()), ..old(self)@ }));
        }
    }

    /// Loads a program image at address 0x200. Fails with `RomTooLarge`,
    /// leaving the machine unchanged, exactly when the image does not fit
    /// in the 3584 bytes above the load address.
    pub fn load_rom(&mut self, rom: &Vec<u8>) -> (r: Result<(), Chip8Error>)
        requires
            wf(old(self)@),
        ensures
            wf(final(self)@),
            rom@.len() <= MEM_SIZE - ROM_BASE ==> r is Ok && final(self)@ == (
                MachineState { mem: store_seq(old(self)@.mem, ROM_BASE as int, rom@), ..old(self)@ }
            ),
            rom@.len() > MEM_SIZE - ROM_BASE ==> r == Err::<(), Chip8Error>(Chip8Error::RomTooLarge)
                && final(self)@ == old(self)@,
    {
        if rom.len() > MEM_SIZE - ROM_BASE {
            return Err(Chip8Error::RomTooLarge);
        }
        let n = rom.len();
        let mut j: usize = 0;
        while j < n
            invariant
                wf(old(self)@),
                n == rom@.len(),
                n <= MEM_SIZE - ROM_BASE,
                j <= n,
                self@ == (MachineState { mem: self@.mem, ..old(self)@ }),
                self@.mem.len() == MEM_SIZE,
                forall|a: int| 0 <= a < MEM_SIZE ==> self@.mem[a] == (
                    if ROM_BASE <= a < ROM_BASE + j { rom@[a - ROM_BASE] } else { old(self)@.mem[a] }
                ),
            decreases n - j,
        {
            self.mem[ROM_BASE + j] = rom[j];
            j += 1;
        }
        proof {
            assert(self@.mem =~= store_seq(old(self)@.mem, ROM_BASE as int, rom@));
            assert(self@ =~= (MachineState { mem: store_seq(old(self)@.mem, ROM_BASE as int, rom@), ..old(self)@ }));
        }
        Ok(())
    }

    /// Jump: sets the program counter to the target, nothing else.
    pub fn jmp(&mut self, target: u16)
        ensures
            final(self)@ == (MachineState { pc: target, ..old(self)@ }),
    {
        self.pc = target;
    }

    /// Clear: turns every display cell off, nothing else.
    pub fn cls(&mut self)
        requires
            wf(old(self)@),
        ensures
            wf(final(self)@),
            final(self)@ == (MachineState { disp: Seq::new(DISPLAY_CELLS as nat, |c: int| false), ..old(self)@ }),
    {
        let mut j: usize = 0;
        while j < DISPLAY_CELLS
            invariant
                wf(old(self)@),
                j <= DISPLAY_CELLS,
                self@ == (MachineState { disp: self@.disp, ..old(self)@ }),
                self@.disp.len() == DISPLAY_CELLS,
                forall|c: int| 0 <= c < j ==> !self@.disp[c],
            decreases DISPLAY_CELLS - j,
        {
            self.display[j] = false;
            j += 1;
        }
        proof {
            assert(self@.disp =~= Seq::new(DISPLAY_CELLS as nat, |c: int| false));
            assert(self@ =~= (MachineState { disp: Seq::new(DISPLAY_CELLS as nat, |c: int| false), ..old(self)@ }));
        }
    }

    /// Call: pushes the current (already advanced) program counter into the
    /// slot at the stack pointer, advances the pointer modulo 16, and jumps.
    /// Past sixteen pending calls the oldest slot is overwritten.
    pub fn jsr(&mut self, target: u16)
        requires
            wf(old(self)@),
        ensures
            wf(final(self)@),
            final(self)@ == spec_jsr(old(self)@, target),
    {
        self.stack[self.sp as usize] = self.pc;
        self.sp = (self.sp + 1) % 16;
        self.pc = target;
        proof {
            assert(self@ =~= spec_jsr(old(self)@, target));
        }
    }

    /// Return: steps the stack pointer back modulo 16 and jumps to the
    /// address in the slot it then points at.
    pub fn rts(&mut self)
        requires
            wf(old(self)@),
        ensures
            wf(final(self)@),
            final(self)@ == spec_rts(old(self)@),
    {
        if self.sp == 0 {
            self.sp = 15;
        } else {
            self.sp = self.sp - 1;
        }
        self.pc = self.stack[self.sp as usize];
        proof {
            assert(self@ =~= spec_rts(old(self)@));
        }
    }

    /// Conditional skip: advances the program counter by one instruction
    /// (two bytes, wrapping modulo 2^16) when the condition holds.
    pub fn skc(&mut self, condition: bool)
        ensures
            final(self)@ == spec_skip(old(self)@, condition),
    {
        if condition {
            self.pc = self.pc.wrapping_add(2);
        }
        proof {
            assert(self@ =~= spec_skip(old(self)@, condition));
        }
    }

    /// One timer tick: each timer steps down by one unless it is already
    /// zero; nothing else changes.
    pub fn tick_timers(&mut self)
        ensures
            final(self)@ == (MachineState {
                delay: crate::timer::spec_tick(old(self)@.delay),
                sound: crate::timer::spec_tick(old(self)@.sound),
                ..old(self)@
            }),
    {
        if self.delay_timer > 0 {
            self.delay_timer = self.delay_timer - 1;
        }
        if self.sound_timer > 0 {
            self.sound_timer = self.sound_timer - 1;
        }
    }

    /// Whether the sound timer asks for an audible tone.
    pub fn sound_active(&self) -> (r: bool)
        ensures
            r == (self@.sound > 0),
    {
        self.sound_timer > 0
    }
}

/// The call transition on the model.
pub open spec fn spec_jsr(s: MachineState, target: u16) -> MachineState {
    MachineState {
        stack: s.stack.update(s.sp as int, s.pc),
        sp: (((s.sp + 1) as int % 16) as u8),
        pc: target,
        ..s
    }
}

/// The return transition on the model.
pub open spec fn spec_rts(s: MachineState) -> MachineState {
    let nsp: u8 = if s.sp == 0 { 15u8 } else { (s.sp - 1) as u8 };
    MachineState { sp: nsp, pc: s.stack[nsp as int], ..s }
}

/// The conditional-skip transition on the model.
pub open spec fn spec_skip(s: MachineState, condition: bool) -> MachineState {
    if condition {
        MachineState { pc: wrap16(s.pc + 2), ..s }
    } else {
        s
    }
}

} // verus!
