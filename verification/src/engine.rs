//! The execution engine: one decoded instruction applied to the machine
//! state, and the full fetch-decode-execute cycle. The random byte of the
//! random instruction enters as an argument, so every contract here holds
//! for every byte the generator may return.
use vstd::prelude::*;

use crate::Chip8Error;
use crate::decode::{Instr, decode, instr_ok, spec_decode};
use crate::display::{draw_sprite, spec_collision, spec_draw};
use crate::input::{InputSnapshot, first_held, input_wf};
use crate::machine::{Chip8, spec_jsr, spec_rts, spec_skip};
use crate::rng::random_byte;
use crate::state::{DISPLAY_CELLS, MachineState, store_seq, wf, wrap8, wrap16};

verus! {

/// What one instruction does to the machine: the next state, or the fault
/// that stops execution. The program counter has already been advanced past
/// the instruction; control-flow forms overwrite it again.
pub open spec fn spec_step(
    s: MachineState,
    ins: Instr,
    held: Seq<bool>,
    rel: Seq<bool>,
    rnd: u8,
) -> Result<MachineState, Chip8Error> {
    match ins {
        Instr::Cls => Ok(spec_op_cls(s)),
        Instr::Ret => Ok(spec_rts(s)),
        Instr::Jump(nnn) => Ok(spec_op_jump(s, nnn)),
        Instr::Call(nnn) => Ok(spec_jsr(s, nnn)),
        Instr::SkipEqImm(x, nn) => Ok(spec_skip(s, s.v[x as int] == nn)),
        Instr::SkipNeImm(x, nn) => Ok(spec_skip(s, s.v[x as int] != nn)),
        Instr::SkipEqReg(x, y) => Ok(spec_skip(s, s.v[x as int] == s.v[y as int])),
        Instr::LoadImm(x, nn) => Ok(spec_set_reg(s, x, nn)),
        Instr::AddImm(x, nn) => Ok(spec_set_reg(s, x, wrap8(s.v[x as int] + nn))),
        Instr::CopyReg(x, y) => Ok(spec_set_reg(s, x, s.v[y as int])),
        Instr::OrReg(x, y) => Ok(spec_set_reg(s, x, s.v[x as int] | s.v[y as int])),
        Instr::AndReg(x, y) => Ok(spec_set_reg(s, x, s.v[x as int] & s.v[y as int])),
        Instr::XorReg(x, y) => Ok(spec_set_reg(s, x, s.v[x as int] ^ s.v[y as int])),
        Instr::AddReg(x, y) => Ok(spec_op_add(s, x, y)),
        Instr::SubReg(x, y) => Ok(spec_op_sub(s, x, y)),
        Instr::ShrReg(x) => Ok(spec_op_shr(s, x)),
        Instr::SubFrom(x, y) => Ok(spec_op_subn(s, x, y)),
        Instr::ShlReg(x) => Ok(spec_op_shl(s, x)),
        Instr::SkipNeReg(x, y) => Ok(spec_skip(s, s.v[x as int] != s.v[y as int])),
        Instr::LoadI(nnn) => Ok(MachineState { i: nnn, ..s }),
        Instr::JumpV0(nnn) => Ok(spec_op_jump(s, wrap16(s.v[0] + nnn))),
        Instr::Rand(x, nn) => Ok(spec_set_reg(s, x, rnd & nn)),
        Instr::Draw(x, y, n) => spec_op_draw(s, x, y, n),
        Instr::SkipKey(x) => Ok(spec_skip(s, held[s.v[x as int] as int % 16])),
        Instr::SkipNoKey(x) => Ok(spec_skip(s, rel[s.v[x as int] as int % 16])),
        Instr::GetDelay(x) => Ok(spec_set_reg(s, x, s.delay)),
        Instr::WaitKey(x) => Ok(spec_op_wait_key(s, x, held)),
        Instr::SetDelay(x) => Ok(MachineState { delay: s.v[x as int], ..s }),
        Instr::SetSound(x) => Ok(MachineState { sound: s.v[x as int], ..s }),
        Instr::AddI(x) => Ok(MachineState { i: wrap16(s.i + s.v[x as int]), ..s }),
        Instr::FontAddr(x) => Ok(MachineState { i: (0x50 + 5 * s.v[x as int]) as u16, ..s }),
        Instr::Bcd(x) => spec_op_bcd(s, x),
        Instr::StoreRegs(x) => spec_op_store(s, x),
        Instr::LoadRegs(x) => spec_op_load(s, x),
    }
}

/// The state with register Vx set to `val` and nothing else changed.
pub open spec fn spec_set_reg(s: MachineState, x: u8, val: u8) -> MachineState {
    MachineState { v: s.v.update(x as int, val), ..s }
}

/// The clear instruction: every display cell off.
pub open spec fn spec_op_cls(s: MachineState) -> MachineState {
    MachineState { disp: Seq::new(DISPLAY_CELLS as nat, |c: int| false), ..s }
}

/// A jump: the program counter set to the target, nothing else changed.
pub open spec fn spec_op_jump(s: MachineState, target: u16) -> MachineState {
    MachineState { pc: target, ..s }
}

/// The add instruction: Vx takes Vx plus Vy modulo 256, then VF becomes 1
/// exactly when the unwrapped sum reaches 256.
pub open spec fn spec_op_add(s: MachineState, x: u8, y: u8) -> MachineState {
    MachineState {
        v: s.v.update(x as int, wrap8(s.v[x as int] + s.v[y as int])).update(
            15,
            if s.v[x as int] + s.v[y as int] >= 256 { 1u8 } else { 0u8 },
        ),
        ..s
    }
}

/// The subtract instruction: Vx takes Vx minus Vy modulo 256, then VF
/// becomes 1 exactly when the subtraction does not borrow.
pub open spec fn spec_op_sub(s: MachineState, x: u8, y: u8) -> MachineState {
    MachineState {
        v: s.v.update(x as int, wrap8(s.v[x as int] - s.v[y as int])).update(
            15,
            if s.v[x as int] >= s.v[y as int] { 1u8 } else { 0u8 },
        ),
        ..s
    }
}

/// The reversed subtract instruction: Vx takes Vy minus Vx modulo 256,
/// then VF becomes 1 exactly when the subtraction does not borrow.
pub open spec fn spec_op_subn(s: MachineState, x: u8, y: u8) -> MachineState {
    MachineState {
        v: s.v.update(x as int, wrap8(s.v[y as int] - s.v[x as int])).update(
            15,
            if s.v[y as int] >= s.v[x as int] { 1u8 } else { 0u8 },
        ),
        ..s
    }
}

/// The shift-right instruction: VF takes the low bit of Vx, then Vx
/// shifts right by one.
pub open spec fn spec_op_shr(s: MachineState, x: u8) -> MachineState {
    let v1 = s.v.update(15, s.v[x as int] & 1);
    MachineState { v: v1.update(x as int, v1[x as int] >> 1u8), ..s }
}

/// The shift-left instruction: VF takes the high bit of Vx, then Vx
/// shifts left by one, keeping the low eight bits.
pub open spec fn spec_op_shl(s: MachineState, x: u8) -> MachineState {
    let v1 = s.v.update(15, (s.v[x as int] & 0x80) >> 7u8);
    MachineState { v: v1.update(x as int, v1[x as int] << 1u8), ..s }
}

/// The key-wait instruction: when some key is held, Vx takes the lowest
/// held key code; otherwise the program counter rewinds by one
/// instruction so the same instruction runs again next cycle.
pub open spec fn spec_op_wait_key(s: MachineState, x: u8, held: Seq<bool>) -> MachineState {
    match first_held(held) {
        Some(k) => spec_set_reg(s, x, k),
        None => MachineState { pc: wrap16(s.pc - 2), ..s },
    }
}

/// What the draw instruction does: the sprite of `n` rows at the address
/// register toggles cells from (Vx mod 64, Vy mod 32), clipped at the
/// edges, and VF reports collision; reading past memory is a fault.
pub open spec fn spec_op_draw(s: MachineState, x: u8, y: u8, n: u8) -> Result<
    MachineState,
    Chip8Error,
> {
    if n > 0 && s.i + n > 4096 {
        Err(Chip8Error::MemoryAddressOutOfRange)
    } else {
        let sprite = Seq::new(n as nat, |q: int| s.mem[s.i + q]);
        let x0 = (s.v[x as int] % 64) as int;
        let y0 = (s.v[y as int] % 32) as int;
        let flag: u8 = if spec_collision(s.disp, x0, y0, sprite) { 1u8 } else { 0u8 };
        Ok(MachineState { disp: spec_draw(s.disp, x0, y0, sprite), v: s.v.update(15, flag), ..s })
    }
}

/// What the decimal-digit instruction does: hundreds, tens and ones of Vx
/// go to the three cells at the address register; writing past memory is
/// a fault.
pub open spec fn spec_op_bcd(s: MachineState, x: u8) -> Result<MachineState, Chip8Error> {
    if s.i + 2 > 4095 {
        Err(Chip8Error::MemoryAddressOutOfRange)
    } else {
        let vx = s.v[x as int];
        Ok(MachineState {
            mem: s.mem.update(s.i as int, (vx as int / 100) as u8).update(
                s.i as int + 1,
                ((vx as int / 10) % 10) as u8,
            ).update(s.i as int + 2, (vx as int % 10) as u8),
            ..s
        })
    }
}

/// What the register-store instruction does: V0 up to but not including Vx
/// go to memory at the address register; writing past memory is a fault.
pub open spec fn spec_op_store(s: MachineState, x: u8) -> Result<MachineState, Chip8Error> {
    if x > 0 && s.i + x > 4096 {
        Err(Chip8Error::MemoryAddressOutOfRange)
    } else {
        Ok(MachineState { mem: store_seq(s.mem, s.i as int, s.v.subrange(0, x as int)), ..s })
    }
}

/// What the register-load instruction does: V0 up to but not including Vx
/// come from memory at the address register, the rest stay; reading past
/// memory is a fault.
pub open spec fn spec_op_load(s: MachineState, x: u8) -> Result<MachineState, Chip8Error> {
    if x > 0 && s.i + x > 4096 {
        Err(Chip8Error::MemoryAddressOutOfRange)
    } else {
        Ok(MachineState {
            v: Seq::new(16, |q: int| if q < x { s.mem[s.i + q] } else { s.v[q] }),
            ..s
        })
    }
}

/// One whole cycle on the model: fetch the big-endian word at the program
/// counter, advance past it, decode, execute. Fails without changing the
/// state when the counter cannot address a whole instruction or the word
/// has no recognized form.
pub open spec fn spec_cycle(
    s: MachineState,
    held: Seq<bool>,
    rel: Seq<bool>,
    rnd: u8,
) -> Result<MachineState, Chip8Error> {
    if s.pc > 4094 {
        Err(Chip8Error::MemoryAddressOutOfRange)
    } else {
        let w: u16 = ((s.mem[s.pc as int] as u16) << 8u16) | (s.mem[s.pc as int + 1] as u16);
        match spec_decode(w) {
            None => Err(Chip8Error::IllegalOpcode(w)),
            Some(ins) => spec_step(
                MachineState { pc: (s.pc + 2) as u16, ..s },
                ins,
                held,
                rel,
                rnd,
            ),
        }
    }
}

/// What a full cycle with a drawn random byte `rnd` guarantees: the result
/// and the next state are exactly what `spec_cycle` names, and a fault
/// leaves the machine as it was.
pub open spec fn cycle_post(
    pre: MachineState,
    post: MachineState,
    held: Seq<bool>,
    rel: Seq<bool>,
    rnd: u8,
    r: Result<(), Chip8Error>,
) -> bool {
    match spec_cycle(pre, held, rel, rnd) {
        Ok(p) => r is Ok && post == p,
        Err(e) => r == Err::<(), Chip8Error>(e) && post == pre,
    }
}

impl Chip8 {
    /// Applies one decoded instruction. The next state and the result are
    /// exactly what `spec_step` names; on a fault the machine is unchanged.
    pub fn execute(&mut self, ins: Instr, inp: &InputSnapshot, rnd: u8) -> (r: Result<
        (),
        Chip8Error,
    >)
        requires
            wf(old(self)@),
            instr_ok(ins),
            input_wf(*inp),
        ensures
            wf(final(self)@),
            match spec_step(old(self)@, ins, inp.held@, inp.released@, rnd) {
                Ok(post) => r is Ok && final(self)@ == post,
                Err(e) => r == Err::<(), Chip8Error>(e) && final(self)@ == old(self)@,
            },
    {
        match ins {
            Instr::Cls | Instr::Ret | Instr::Jump(_) | Instr::Call(_) | Instr::SkipEqImm(_, _)
            | Instr::SkipNeImm(_, _) | Instr::SkipEqReg(_, _) | Instr::SkipNeReg(_, _)
            | Instr::SkipKey(_) | Instr::SkipNoKey(_) | Instr::WaitKey(_) => self.step_flow(
                ins,
                inp,
                rnd,
            ),
            Instr::LoadImm(_, _) | Instr::AddImm(_, _) | Instr::CopyReg(_, _) | Instr::OrReg(_, _)
            | Instr::AndReg(_, _) | Instr::XorReg(_, _) | Instr::AddReg(_, _)
            | Instr::SubReg(_, _) | Instr::ShrReg(_) | Instr::SubFrom(_, _) | Instr::ShlReg(_)
            | Instr::Rand(_, _) | Instr::GetDelay(_) => self.step_alu(ins, inp, rnd),
            Instr::LoadI(_) | Instr::JumpV0(_) | Instr::SetDelay(_) | Instr::SetSound(_)
            | Instr::AddI(_) | Instr::FontAddr(_) | Instr::Draw(_, _, _) | Instr::Bcd(_)
            | Instr::StoreRegs(_) | Instr::LoadRegs(_) => self.step_rest(ins, inp, rnd),
        }
    }

    /// The control-flow instructions: jumps, calls, returns, skips and the
    /// key wait.
    #[verifier::rlimit(100)]
    #[verifier::spinoff_prover]
    fn step_flow(&mut self, ins: Instr, inp: &InputSnapshot, rnd: u8) -> (r: Result<
        (),
        Chip8Error,
    >)
        requires
            wf(old(self)@),
            instr_ok(ins),
            input_wf(*inp),
            ins is Cls || ins is Ret || ins is Jump || ins is Call || ins is SkipEqImm
                || ins is SkipNeImm || ins is SkipEqReg || ins is SkipNeReg || ins is SkipKey
                || ins is SkipNoKey || ins is WaitKey,
        ensures
            wf(final(self)@),
            match spec_step(old(self)@, ins, inp.held@, inp.released@, rnd) {
                Ok(post) => r is Ok && final(self)@ == post,
                Err(e) => r == Err::<(), Chip8Error>(e) && final(self)@ == old(self)@,
            },
    {
        match ins {
            Instr::Cls => {
                self.cls();
            },
            Instr::Ret => {
                self.rts();
            },
            Instr::Jump(nnn) => {
                self.jmp(nnn);
            },
            Instr::Call(nnn) => {
                self.jsr(nnn);
            },
            Instr::SkipEqImm(x, nn) => {
                let c: bool = self.v[x as usize] == nn;
                self.skc(c);
            },
            Instr::SkipNeImm(x, nn) => {
                let c: bool = self.v[x as usize] != nn;
                self.skc(c);
            },
            Instr::SkipEqReg(x, y) => {
                let c: bool = self.v[x as usize] == self.v[y as usize];
                self.skc(c);
            },
            Instr::SkipNeReg(x, y) => {
                let c: bool = self.v[x as usize] != self.v[y as usize];
                self.skc(c);
            },
            Instr::SkipKey(x) => {
                let key: usize = (self.v[x as usize] % 16) as usize;
                let c: bool = inp.held[key];
                self.skc(c);
            },
            Instr::SkipNoKey(x) => {
                let key: usize = (self.v[x as usize] % 16) as usize;
                let c: bool = inp.released[key];
                self.skc(c);
            },
            Instr::WaitKey(x) => {
                match inp.first_held_key() {
                    Some(k) => {
                        self.v[x as usize] = k;
                    },
                    None => {
                        self.pc = self.pc.wrapping_sub(2);
                    },
                }
            },
            _ => {
                proof {
                    assert(false);
                }
            },
        }
        Ok(())
    }

    /// The register and arithmetic instructions, the random byte included.
    #[verifier::rlimit(100)]
    #[verifier::spinoff_prover]
    fn step_alu(&mut self, ins: Instr, inp: &InputSnapshot, rnd: u8) -> (r: Result<
        (),
        Chip8Error,
    >)
        requires
            wf(old(self)@),
            instr_ok(ins),
            input_wf(*inp),
            ins is LoadImm || ins is AddImm || ins is CopyReg || ins is OrReg || ins is AndReg
                || ins is XorReg || ins is AddReg || ins is SubReg || ins is ShrReg
                || ins is SubFrom || ins is ShlReg || ins is Rand || ins is GetDelay,
        ensures
            wf(final(self)@),
            match spec_step(old(self)@, ins, inp.held@, inp.released@, rnd) {
                Ok(post) => r is Ok && final(self)@ == post,
                Err(e) => r == Err::<(), Chip8Error>(e) && final(self)@ == old(self)@,
            },
    {
        match ins {
            Instr::LoadImm(x, nn) => {
                self.v[x as usize] = nn;
            },
            Instr::AddImm(x, nn) => {
                let vx = self.v[x as usize];
                self.v[x as usize] = vx.wrapping_add(nn);
            },
            Instr::CopyReg(x, y) => {
                let vy = self.v[y as usize];
                self.v[x as usize] = vy;
            },
            Instr::OrReg(x, y) => {
                let vx = self.v[x as usize];
                let vy = self.v[y as usize];
                self.v[x as usize] = vx | vy;
            },
            Instr::AndReg(x, y) => {
                let vx = self.v[x as usize];
                let vy = self.v[y as usize];
                self.v[x as usize] = vx & vy;
            },
            Instr::XorReg(x, y) => {
                let vx = self.v[x as usize];
                let vy = self.v[y as usize];
                self.v[x as usize] = vx ^ vy;
            },
            Instr::AddReg(x, y) => {
                let vx = self.v[x as usize];
                let vy = self.v[y as usize];
                self.v[x as usize] = vx.wrapping_add(vy);
                self.v[15] = if (vx as u16) + (vy as u16) >= 256 { 1 } else { 0 };
            },
            Instr::SubReg(x, y) => {
                let vx = self.v[x as usize];
                let vy = self.v[y as usize];
                self.v[x as usize] = vx.wrapping_sub(vy);
                self.v[15] = if vx >= vy { 1 } else { 0 };
            },
            Instr::ShrReg(x) => {
                let vx = self.v[x as usize];
                self.v[15] = vx & 1;
                let cur = self.v[x as usize];
                self.v[x as usize] = cur >> 1u8;
            },
            Instr::SubFrom(x, y) => {
                let vx = self.v[x as usize];
                let vy = self.v[y as usize];
                self.v[x as usize] = vy.wrapping_sub(vx);
                self.v[15] = if vy >= vx { 1 } else { 0 };
            },
            Instr::ShlReg(x) => {
                let vx = self.v[x as usize];
                self.v[15] = (vx & 0x80) >> 7u8;
                let cur = self.v[x as usize];
                self.v[x as usize] = cur << 1u8;
            },
            Instr::Rand(x, nn) => {
                self.v[x as usize] = rnd & nn;
            },
            Instr::GetDelay(x) => {
                let d = self.delay_timer;
                self.v[x as usize] = d;
            },
            _ => {
                proof {
                    assert(false);
                }
            },
        }
        Ok(())
    }

    /// The address-register, timer-store and memory instructions.
    #[verifier::rlimit(100)]
    #[verifier::spinoff_prover]
    fn step_rest(&mut self, ins: Instr, inp: &InputSnapshot, rnd: u8) -> (r: Result<
        (),
        Chip8Error,
    >)
        requires
            wf(old(self)@),
            instr_ok(ins),
            input_wf(*inp),
            ins is LoadI || ins is JumpV0 || ins is SetDelay || ins is SetSound || ins is AddI
                || ins is FontAddr || ins is Draw || ins is Bcd || ins is StoreRegs
                || ins is LoadRegs,
        ensures
            wf(final(self)@),
            match spec_step(old(self)@, ins, inp.held@, inp.released@, rnd) {
                Ok(post) => r is Ok && final(self)@ == post,
                Err(e) => r == Err::<(), Chip8Error>(e) && final(self)@ == old(self)@,
            },
    {
        match ins {
            Instr::LoadI(nnn) => {
                self.i = nnn;
            },
            Instr::JumpV0(nnn) => {
                self.pc = (self.v[0] as u16).wrapping_add(nnn);
            },
            Instr::SetDelay(x) => {
                self.delay_timer = self.v[x as usize];
            },
            Instr::SetSound(x) => {
                self.sound_timer = self.v[x as usize];
            },
            Instr::AddI(x) => {
                let vx = self.v[x as usize];
                self.i = self.i.wrapping_add(vx as u16);
            },
            Instr::FontAddr(x) => {
                let vx = self.v[x as usize];
                self.i = 0x50 + 5 * (vx as u16);
            },
            Instr::Draw(x, y, n) => {
                return self.op_draw(x, y, n);
            },
            Instr::Bcd(x) => {
                return self.op_bcd(x);
            },
            Instr::StoreRegs(x) => {
                return self.op_store_regs(x);
            },
            Instr::LoadRegs(x) => {
                return self.op_load_regs(x);
            },
            _ => {
                proof {
                    assert(false);
                }
            },
        }
        Ok(())
    }

    /// The draw instruction on the machine; see `spec_op_draw`.
    #[verifier::spinoff_prover]
    fn op_draw(&mut self, x: u8, y: u8, n: u8) -> (r: Result<(), Chip8Error>)
        requires
            wf(old(self)@),
            x < 16,
            y < 16,
            n < 16,
        ensures
            wf(final(self)@),
            match spec_op_draw(old(self)@, x, y, n) {
                Ok(post) => r is Ok && final(self)@ == post,
                Err(e) => r == Err::<(), Chip8Error>(e) && final(self)@ == old(self)@,
            },
    {
        let count: usize = n as usize;
        if count > 0 && self.i as usize + count > 4096 {
            return Err(Chip8Error::MemoryAddressOutOfRange);
        }
        let i0: usize = self.i as usize;
        let mut sprite: Vec<u8> = Vec::new();
        let mut j: usize = 0;
        while j < count
            invariant
                wf(old(self)@),
                self@ == old(self)@,
                i0 == old(self)@.i,
                count < 16,
                count > 0 ==> i0 + count <= 4096,
                j <= count,
                sprite@.len() == j,
                forall|q: int| 0 <= q < j ==> sprite@[q] == old(self)@.mem[i0 + q],
            decreases count - j,
        {
            let b = self.mem[i0 + j];
            sprite.push(b);
            j += 1;
        }
        proof {
            assert(sprite@ =~= Seq::new(n as nat, |q: int| old(self)@.mem[old(self)@.i + q]));
        }
        let x0: u8 = self.v[x as usize] % 64;
        let y0: u8 = self.v[y as usize] % 32;
        let col = draw_sprite(&mut self.display, x0, y0, &sprite);
        self.v[15] = if col { 1 } else { 0 };
        Ok(())
    }

    /// The decimal-digit instruction on the machine; see `spec_op_bcd`.
    #[verifier::spinoff_prover]
    fn op_bcd(&mut self, x: u8) -> (r: Result<(), Chip8Error>)
        requires
            wf(old(self)@),
            x < 16,
        ensures
            wf(final(self)@),
            match spec_op_bcd(old(self)@, x) {
                Ok(post) => r is Ok && final(self)@ == post,
                Err(e) => r == Err::<(), Chip8Error>(e) && final(self)@ == old(self)@,
            },
    {
        if self.i > 4093 {
            return Err(Chip8Error::MemoryAddressOutOfRange);
        }
        let vx = self.v[x as usize];
        let i0: usize = self.i as usize;
        self.mem[i0] = vx / 100;
        self.mem[i0 + 1] = (vx / 10) % 10;
        self.mem[i0 + 2] = vx % 10;
        Ok(())
    }

    /// The register-store instruction on the machine; see `spec_op_store`.
    #[verifier::spinoff_prover]
    fn op_store_regs(&mut self, x: u8) -> (r: Result<(), Chip8Error>)
        requires
            wf(old(self)@),
            x < 16,
        ensures
            wf(final(self)@),
            match spec_op_store(old(self)@, x) {
                Ok(post) => r is Ok && final(self)@ == post,
                Err(e) => r == Err::<(), Chip8Error>(e) && final(self)@ == old(self)@,
            },
    {
        let count: usize = x as usize;
        if count > 0 && self.i as usize + count > 4096 {
            return Err(Chip8Error::MemoryAddressOutOfRange);
        }
        let i0: usize = self.i as usize;
        let mut j: usize = 0;
        while j < count
            invariant
                wf(old(self)@),
                count < 16,
                count > 0 ==> i0 + count <= 4096,
                i0 == old(self)@.i,
                j <= count,
                self@ == (MachineState { mem: self@.mem, ..old(self)@ }),
                self@.mem.len() == 4096,
                forall|a: int| 0 <= a < 4096 ==> self@.mem[a] == (
                    if i0 <= a < i0 + j { old(self)@.v[a - i0] } else { old(self)@.mem[a] }
                ),
            decreases count - j,
        {
            let val = self.v[j];
            self.mem[i0 + j] = val;
            j += 1;
        }
        proof {
            assert(self@.mem =~= store_seq(
                old(self)@.mem,
                old(self)@.i as int,
                old(self)@.v.subrange(0, x as int),
            ));
        }
        Ok(())
    }

    /// The register-load instruction on the machine; see `spec_op_load`.
    #[verifier::spinoff_prover]
    fn op_load_regs(&mut self, x: u8) -> (r: Result<(), Chip8Error>)
        requires
            wf(old(self)@),
            x < 16,
        ensures
            wf(final(self)@),
            match spec_op_load(old(self)@, x) {
                Ok(post) => r is Ok && final(self)@ == post,
                Err(e) => r == Err::<(), Chip8Error>(e) && final(self)@ == old(self)@,
            },
    {
        let count: usize = x as usize;
        if count > 0 && self.i as usize + count > 4096 {
            return Err(Chip8Error::MemoryAddressOutOfRange);
        }
        let i0: usize = self.i as usize;
        let mut j: usize = 0;
        while j < count
            invariant
                wf(old(self)@),
                count < 16,
                count > 0 ==> i0 + count <= 4096,
                i0 == old(self)@.i,
                j <= count,
                self@ == (MachineState { v: self@.v, ..old(self)@ }),
                self@.v.len() == 16,
                forall|q: int| 0 <= q < 16 ==> self@.v[q] == (
                    if q < j { old(self)@.mem[i0 + q] } else { old(self)@.v[q] }
                ),
            decreases count - j,
        {
            let val = self.mem[i0 + j];
            self.v[j] = val;
            j += 1;
        }
        proof {
            assert(self@.v =~= Seq::new(
                16,
                |q: int| if q < x { old(self)@.mem[old(self)@.i + q] } else { old(self)@.v[q] },
            ));
        }
        Ok(())
    }

    /// Runs one whole cycle with the random byte drawn here. Some byte
    /// makes the outcome exactly what `spec_cycle` names; which one is the
    /// generator's choice, so every claim below holds of each possibility.
    pub fn cycle(&mut self, inp: &InputSnapshot) -> (r: Result<(), Chip8Error>)
        requires
            wf(old(self)@),
            input_wf(*inp),
        ensures
            wf(final(self)@),
            exists|rnd: u8| #[trigger] cycle_post(
                old(self)@,
                final(self)@,
                inp.held@,
                inp.released@,
                rnd,
                r,
            ),
    {
        let rnd = random_byte();
        let r = self.cycle_with(inp, rnd);
        proof {
            assert(cycle_post(old(self)@, self@, inp.held@, inp.released@, rnd, r));
        }
        r
    }

    /// Runs one whole cycle with the given random byte: fetch at the
    /// program counter, advance by two, decode, execute. The result and
    /// the next state are exactly what `spec_cycle` names; on a fault the
    /// machine is unchanged.
    pub fn cycle_with(&mut self, inp: &InputSnapshot, rnd: u8) -> (r: Result<(), Chip8Error>)
        requires
            wf(old(self)@),
            input_wf(*inp),
        ensures
            wf(final(self)@),
            match spec_cycle(old(self)@, inp.held@, inp.released@, rnd) {
                Ok(post) => r is Ok && final(self)@ == post,
                Err(e) => r == Err::<(), Chip8Error>(e) && final(self)@ == old(self)@,
            },
    {
        if self.pc > 4094 {
            return Err(Chip8Error::MemoryAddressOutOfRange);
        }
        let hi = self.mem[self.pc as usize];
        let lo = self.mem[self.pc as usize + 1];
        let w: u16 = ((hi as u16) << 8u16) | (lo as u16);
        let ins = match decode(w) {
            Ok(ins) => ins,
            Err(e) => {
                return Err(e);
            },
        };
        self.pc = self.pc + 2;
        match self.execute(ins, inp, rnd) {
            Ok(()) => Ok(()),
            Err(e) => {
                self.pc = self.pc - 2;
                proof {
                    assert(self@ =~= old(self)@);
                }
                Err(e)
            },
        }
    }
}

} // verus!
