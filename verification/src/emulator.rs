use crate::cpu::{spec_add, spec_shl, spec_shr, spec_sub, CpuView, CPU};
use crate::decoder::{decode, spec_decode, Instruction, Op};
use crate::display::{draw_collision, draw_pixels, Display};
use crate::fault::Fault;
use crate::input::{spec_first_pressed, Keyboard, KeyboardView};
use crate::memory::{spec_loaded, Memory};
use crate::timers::{spec_dec, Timers, TimersView};
use vstd::prelude::*;

verus! {

/// Mathematical model of the whole machine: the register file, the 4096
/// memory bytes, the framebuffer, the keyboard and the two timers.
#[verifier::ext_equal]
pub ghost struct EmuView {
    pub cpu: CpuView,
    pub mem: Seq<u8>,
    pub pix: Seq<bool>,
    pub kbd: KeyboardView,
    pub timers: TimersView,
}

impl EmuView {
    /// Validity of a machine state: the fixed sizes of every component, the
    /// stack-pointer bound, and the program-counter bound.
    pub open spec fn wf(self) -> bool {
        &&& self.cpu.regs.len() == 16
        &&& self.cpu.stack.len() == 16
        &&& self.cpu.pc < 4096
        &&& self.cpu.sp <= 16
        &&& forall|k: int| 0 <= k < 16 ==> self.cpu.stack[k] < 4096
        &&& self.mem.len() == 4096
        &&& self.pix.len() == 2048
        &&& self.kbd.keys.len() == 16
        &&& self.kbd.held matches Some(k) ==> k < 16
    }
}

/// The program counter after one instruction: two bytes forward, or four to
/// skip the following instruction; program-counter arithmetic is modulo the
/// address space, which keeps the counter below 4096.
pub open spec fn spec_advance(pc: u16, skip: bool) -> u16 {
    if skip {
        (((pc + 4) as u16) % 4096) as u16
    } else {
        (((pc + 2) as u16) % 4096) as u16
    }
}

/// The 16-bit opcode at `pc`: big-endian, high byte at the lower address.
pub open spec fn spec_word(mem: Seq<u8>, pc: u16) -> u16 {
    (mem[pc as int] * 256 + mem[pc as int + 1]) as u16
}

/// What `fetch` observes: the decoded opcode at the program counter, or
/// nothing when even one of the two opcode bytes would fall outside memory.
pub open spec fn spec_fetch(s: EmuView) -> Option<Instruction> {
    if s.cpu.pc + 1 < 4096 {
        Some(spec_decode(spec_word(s.mem, s.cpu.pc)))
    } else {
        None
    }
}

/// An execution outcome as the caller sees it.
pub open spec fn spec_result(f: Option<Fault>) -> Result<(), Fault> {
    match f {
        None => Ok(()),
        Some(ft) => Err(ft),
    }
}

/// The register file after an ordinary instruction: the instruction is
/// recorded for diagnostics and the program counter advances.
pub open spec fn with_instr_pc(s: EmuView, instr: Instruction, skip: bool) -> CpuView {
    CpuView { pc: spec_advance(s.cpu.pc, skip), instr: Some(instr), ..s.cpu }
}

/// An outcome that stores one register and advances.
pub open spec fn upd_reg(s: EmuView, instr: Instruction, x: u8, v: u8) -> (EmuView, Option<
    Fault,
>) {
    (
        EmuView {
            cpu: CpuView { regs: s.cpu.regs.update(x as int, v), ..with_instr_pc(s, instr, false) },
            ..s
        },
        None,
    )
}

/// An outcome that stores an ALU result in one register and its flag in VF,
/// flag last, and advances.
pub open spec fn upd_reg_vf(s: EmuView, instr: Instruction, x: u8, rv: (u8, u8)) -> (
    EmuView,
    Option<Fault>,
) {
    (
        EmuView {
            cpu: CpuView {
                regs: s.cpu.regs.update(x as int, rv.0).update(15, rv.1),
                ..with_instr_pc(s, instr, false)
            },
            ..s
        },
        None,
    )
}

/// One step of the machine on an already decoded instruction: the next state
/// and the fault, if any. A faulting step leaves the state exactly as it
/// was. `rnd` is the byte the random source supplies; only the Cxkk
/// instruction reads it.
pub open spec fn step_spec(s: EmuView, instr: Instruction, rnd: u8) -> (EmuView, Option<Fault>) {
    let c = s.cpu;
    let regs = c.regs;
    match instr.op {
        Op::Cls => (
            EmuView {
                pix: Seq::new(2048, |p: int| false),
                cpu: with_instr_pc(s, instr, false),
                ..s
            },
            None,
        ),
        Op::Ret => if c.sp == 0 {
            (s, Some(Fault::StackUnderflow))
        } else {
            (
                EmuView {
                    cpu: CpuView {
                        pc: c.stack[c.sp - 1],
                        sp: (c.sp - 1) as u16,
                        instr: Some(instr),
                        ..c
                    },
                    ..s
                },
                None,
            )
        },
        Op::Jp(nnn) => (EmuView { cpu: CpuView { pc: nnn, instr: Some(instr), ..c }, ..s }, None),
        Op::Call(nnn) => if c.sp >= 16 {
            (s, Some(Fault::StackOverflow))
        } else {
            (
                EmuView {
                    cpu: CpuView {
                        pc: nnn,
                        sp: (c.sp + 1) as u16,
                        stack: c.stack.update(c.sp as int, spec_advance(c.pc, false)),
                        instr: Some(instr),
                        ..c
                    },
                    ..s
                },
                None,
            )
        },
        Op::SeByte(x, kk) => (
            EmuView { cpu: with_instr_pc(s, instr, regs[x as int] == kk), ..s },
            None,
        ),
        Op::SneByte(x, kk) => (
            EmuView { cpu: with_instr_pc(s, instr, regs[x as int] != kk), ..s },
            None,
        ),
        Op::SeReg(x, y) => (
            EmuView { cpu: with_instr_pc(s, instr, regs[x as int] == regs[y as int]), ..s },
            None,
        ),
        Op::LdByte(x, kk) => upd_reg(s, instr, x, kk),
        Op::AddByte(x, kk) => upd_reg(s, instr, x, ((regs[x as int] + kk) % 256) as u8),
        Op::LdReg(x, y) => upd_reg(s, instr, x, regs[y as int]),
        Op::Or(x, y) => upd_reg(s, instr, x, regs[x as int] | regs[y as int]),
        Op::And(x, y) => upd_reg(s, instr, x, regs[x as int] & regs[y as int]),
        Op::Xor(x, y) => upd_reg(s, instr, x, regs[x as int] ^ regs[y as int]),
        Op::AddReg(x, y) => upd_reg_vf(s, instr, x, spec_add(regs[x as int], regs[y as int])),
        Op::SubReg(x, y) => upd_reg_vf(s, instr, x, spec_sub(regs[x as int], regs[y as int])),
        Op::Shr(x) => upd_reg_vf(s, instr, x, spec_shr(regs[x as int])),
        Op::Subn(x, y) => upd_reg_vf(s, instr, x, spec_sub(regs[y as int], regs[x as int])),
        Op::Shl(x) => upd_reg_vf(s, instr, x, spec_shl(regs[x as int])),
        Op::SneReg(x, y) => (
            EmuView { cpu: with_instr_pc(s, instr, regs[x as int] != regs[y as int]), ..s },
            None,
        ),
        Op::LdI(nnn) => (
            EmuView { cpu: CpuView { i: nnn, ..with_instr_pc(s, instr, false) }, ..s },
            None,
        ),
        Op::JpV0(nnn) => (
            EmuView {
                cpu: CpuView {
                    pc: (((nnn + regs[0]) as u16) % 4096) as u16,
                    instr: Some(instr),
                    ..c
                },
                ..s
            },
            None,
        ),
        Op::Rnd(x, kk) => upd_reg(s, instr, x, rnd & kk),
        Op::Drw(x, y, n) => if c.i + n > 4096 {
            (s, Some(Fault::AddressOutOfRange(c.i)))
        } else {
            let sprite = s.mem.subrange(c.i as int, c.i + n);
            let vx = regs[x as int];
            let vy = regs[y as int];
            let vf: u8 = if draw_collision(s.pix, vx, vy, sprite) {
                1
            } else {
                0
            };
            (
                EmuView {
                    pix: draw_pixels(s.pix, vx, vy, sprite),
                    cpu: CpuView { regs: regs.update(15, vf), ..with_instr_pc(s, instr, false) },
                    ..s
                },
                None,
            )
        },
        Op::Skp(x) => (
            EmuView { cpu: with_instr_pc(s, instr, s.kbd.keys[(regs[x as int] % 16) as int]), ..s },
            None,
        ),
        Op::Sknp(x) => (
            EmuView {
                cpu: with_instr_pc(s, instr, !s.kbd.keys[(regs[x as int] % 16) as int]),
                ..s
            },
            None,
        ),
        Op::ReadDelay(x) => upd_reg(s, instr, x, s.timers.delay),
        Op::WaitKey(x) => match spec_first_pressed(s.kbd.keys) {
            Some(k) => upd_reg(s, instr, x, k),
            None => (EmuView { cpu: CpuView { instr: Some(instr), ..c }, ..s }, None),
        },
        Op::SetDelay(x) => (
            EmuView {
                timers: TimersView { delay: regs[x as int], ..s.timers },
                cpu: with_instr_pc(s, instr, false),
                ..s
            },
            None,
        ),
        Op::SetSound(x) => (
            EmuView {
                timers: TimersView { sound: regs[x as int], ..s.timers },
                cpu: with_instr_pc(s, instr, false),
                ..s
            },
            None,
        ),
        Op::Font(x) => (
            EmuView {
                cpu: CpuView {
                    i: (0x50 + 5 * (regs[x as int] % 16)) as u16,
                    ..with_instr_pc(s, instr, false)
                },
                ..s
            },
            None,
        ),
        Op::Bcd(x) => if c.i + 2 > 4095 {
            (s, Some(Fault::AddressOutOfRange(c.i)))
        } else {
            let vx = regs[x as int];
            (
                EmuView {
                    mem: s.mem.update(c.i as int, vx / 100).update(c.i + 1, (vx / 10) % 10).update(
                        c.i + 2,
                        vx % 10,
                    ),
                    cpu: with_instr_pc(s, instr, false),
                    ..s
                },
                None,
            )
        },
        Op::StoreRegs(x) => if c.i + x > 4095 {
            (s, Some(Fault::AddressOutOfRange(c.i)))
        } else {
            (
                EmuView {
                    mem: Seq::new(
                        4096,
                        |a: int|
                            if c.i <= a <= c.i + x {
                                regs[a - c.i]
                            } else {
                                s.mem[a]
                            },
                    ),
                    cpu: with_instr_pc(s, instr, false),
                    ..s
                },
                None,
            )
        },
        Op::LoadRegs(x) => if c.i + x > 4095 {
            (s, Some(Fault::AddressOutOfRange(c.i)))
        } else {
            (
                EmuView {
                    cpu: CpuView {
                        regs: Seq::new(
                            16,
                            |k: int|
                                if k <= x {
                                    s.mem[c.i + k]
                                } else {
                                    regs[k]
                                },
                        ),
                        ..with_instr_pc(s, instr, false)
                    },
                    ..s
                },
                None,
            )
        },
        Op::Unknown => (s, Some(Fault::UnknownOpcode(instr.raw, c.pc))),
    }
}

/// One step of the machine from its program counter: fetch, then execute;
/// when even one of the two opcode bytes falls outside memory the step
/// faults with `AddressOutOfRange` at the program counter and changes
/// nothing.
pub open spec fn spec_step(s: EmuView, rnd: u8) -> (EmuView, Option<Fault>) {
    match spec_fetch(s) {
        Some(instr) => step_spec(s, instr, rnd),
        None => (s, Some(Fault::AddressOutOfRange(s.cpu.pc))),
    }
}

/// The machine: exactly one instance of each component, the sole mutator of
/// all of them, exclusively owned and driven by one external loop.
pub struct Emulator {
    cpu: CPU,
    mem: Memory,
    scr: Display,
    kbd: Keyboard,
    timers: Timers,
}

impl View for Emulator {
    type V = EmuView;

    closed spec fn view(&self) -> EmuView {
        EmuView {
            cpu: self.cpu@,
            mem: self.mem@,
            pix: self.scr@,
            kbd: self.kbd@,
            timers: self.timers@,
        }
    }
}

impl Emulator {
    /// A fresh machine: memory and registers zeroed, display clear, no key
    /// pressed, timers at zero, program counter at the fixed program origin.
    pub fn new() -> (e: Emulator)
        ensures
            e@.wf(),
            e@.cpu.pc == crate::memory::ROM_ORIGIN,
            e@.cpu.sp == 0,
            e@.cpu.i == 0,
            e@.cpu.instr is None,
            forall|k: int| 0 <= k < 16 ==> e@.cpu.regs[k] == 0,
            forall|k: int| 0 <= k < 16 ==> e@.cpu.stack[k] == 0,
            forall|a: int| 0 <= a < 4096 ==> e@.mem[a] == 0,
            forall|p: int| 0 <= p < 2048 ==> !e@.pix[p],
            forall|k: int| 0 <= k < 16 ==> !e@.kbd.keys[k],
            e@.kbd.held is None,
            e@.timers.delay == 0,
            e@.timers.sound == 0,
    {
        Emulator {
            cpu: CPU::new(),
            mem: Memory::new(),
            scr: Display::new(),
            kbd: Keyboard::new(),
            timers: Timers::new(),
        }
    }

    /// The register file, for read-only rendering.
    pub fn cpu(&self) -> (r: &CPU)
        ensures
            r@ == self@.cpu,
    {
        &self.cpu
    }

    /// The framebuffer, for read-only rendering.
    pub fn scr(&self) -> (r: &Display)
        ensures
            r@ == self@.pix,
    {
        &self.scr
    }

    /// The keyboard, for read-only rendering.
    pub fn kbd(&self) -> (r: &Keyboard)
        ensures
            r@ == self@.kbd,
    {
        &self.kbd
    }

    /// Checked byte read from memory, for read-only inspection.
    pub fn read_mem(&self, addr: u16) -> (r: Result<u8, Fault>)
        ensures
            addr < 4096 ==> r == Ok::<u8, Fault>(self@.mem[addr as int]),
            addr >= 4096 ==> r == Err::<u8, Fault>(Fault::AddressOutOfRange(addr)),
    {
        self.mem.read(addr)
    }

    /// Copy a ROM image into memory at `origin`; `RomTooLarge` when it does
    /// not fit, leaving the machine unchanged.
    pub fn load(&mut self, rom: &[u8], origin: u16) -> (r: Result<(), Fault>)
        ensures
            origin + rom@.len() <= 4096 ==> r == Ok::<(), Fault>(()) && final(self)@ == (EmuView {
                mem: spec_loaded(old(self)@.mem, rom@, origin),
                ..old(self)@
            }),
            origin + rom@.len() > 4096 ==> r == Err::<(), Fault>(Fault::RomTooLarge)
                && final(self)@ == old(self)@,
    {
        self.mem.load(rom, origin)
    }

    /// Write the built-in font sprites into the reserved low region.
    pub fn store_font(&mut self)
        ensures
            final(self)@.cpu == old(self)@.cpu,
            final(self)@.pix == old(self)@.pix,
            final(self)@.kbd == old(self)@.kbd,
            final(self)@.timers == old(self)@.timers,
            final(self)@.mem.len() == old(self)@.mem.len(),
            forall|d: int, k: int|
                0 <= d < 16 && 0 <= k < 5 ==> final(self)@.mem[0x50 + 5 * d + k]
                    == crate::memory::font_sprite(d)[k],
            forall|a: int|
                0 <= a < 4096 && !(0x50 <= a < 0xA0) ==> final(self)@.mem[a] == old(self)@.mem[a],
    {
        self.mem.store_font()
    }

    /// Return the current timer values, then decrement each toward 0.
    pub fn tick(&mut self) -> (r: (u8, u8))
        ensures
            r.0 == old(self)@.timers.delay,
            r.1 == old(self)@.timers.sound,
            final(self)@ == (EmuView {
                timers: TimersView {
                    delay: spec_dec(old(self)@.timers.delay),
                    sound: spec_dec(old(self)@.timers.sound),
                },
                ..old(self)@
            }),
    {
        self.timers.tick()
    }

    /// Forward a key-down event to the keyboard: release the key the caller
    /// was tracking, if any, then press and track the new one.
    pub fn key_pressed(&mut self, old_key: Option<usize>, new_key: usize)
        requires
            new_key < 16,
            old_key matches Some(k) ==> k < 16,
        ensures
            final(self)@ == (EmuView {
                kbd: KeyboardView {
                    keys: (match old_key {
                        Some(k) => old(self)@.kbd.keys.update(k as int, false),
                        None => old(self)@.kbd.keys,
                    }).update(new_key as int, true),
                    held: Some(new_key),
                },
                ..old(self)@
            }),
    {
        self.kbd.key_pressed(old_key, new_key);
    }

    /// Forward the debounce timeout to the keyboard: release the held key.
    pub fn key_released(&mut self)
        ensures
            final(self)@ == (EmuView {
                kbd: KeyboardView {
                    keys: (match old(self)@.kbd.held {
                        Some(k) => old(self)@.kbd.keys.update(k as int, false),
                        None => old(self)@.kbd.keys,
                    }),
                    held: None,
                },
                ..old(self)@
            }),
    {
        self.kbd.key_released();
    }

    /// Read and decode the opcode at the program counter, without mutating
    /// anything; the program counter only moves in `exec`, so that skip,
    /// jump and call instructions can override the default advance.
    pub fn fetch(&self) -> (r: Option<Instruction>)
        ensures
            r == spec_fetch(self@),
            r matches Some(i) ==> i.wf(),
    {
        let pc = self.cpu.pc();
        if pc + 1 < 4096 {
            let hi = self.mem.at(pc);
            let lo = self.mem.at(pc + 1);
            let raw = (hi as u16) * 256 + (lo as u16);
            Some(decode(raw))
        } else {
            None
        }
    }

    /// Record the instruction for diagnostics and move the program counter
    /// past it, four bytes when `skip` holds, else two.
    fn advance(&mut self, instr: Instruction, skip: bool)
        ensures
            final(self)@ == (EmuView { cpu: with_instr_pc(old(self)@, instr, skip), ..old(
                self,
            )@ }),
    {
        let pc = self.cpu.pc();
        let npc = if skip {
            (pc + 4) % 4096
        } else {
            (pc + 2) % 4096
        };
        self.cpu.set_instr(instr);
        self.cpu.set_pc(npc);
    }

    /// Apply one decoded instruction against the whole machine, with the
    /// random byte supplied by the caller, so that the step is a pure
    /// function of its inputs: deterministic test fixtures hand in a fixed
    /// sequence. A fault leaves the machine exactly as it was.
    pub fn exec_with_rand(&mut self, instr: Instruction, rnd: u8) -> (r: Result<(), Fault>)
        requires
            instr.wf(),
        ensures
            final(self)@ == step_spec(old(self)@, instr, rnd).0,
            r == spec_result(step_spec(old(self)@, instr, rnd).1),
    {
        proof {
            use_type_invariant(&self.cpu);
            use_type_invariant(&self.mem);
            use_type_invariant(&self.scr);
            use_type_invariant(&self.kbd);
        }
        let ghost s0 = self@;
        match instr.op {
            Op::Cls => {
                self.scr.clear();
                self.advance(instr, false);
                proof {
                    assert(self@ =~~= step_spec(s0, instr, rnd).0);
                }
                Ok(())
            },
            Op::Ret => {
                match self.cpu.ret() {
                    Err(f) => Err(f),
                    Ok(()) => {
                        self.cpu.set_instr(instr);
                        proof {
                            assert(self@ =~~= step_spec(s0, instr, rnd).0);
                        }
                        Ok(())
                    },
                }
            },
            Op::Jp(nnn) => {
                self.cpu.set_instr(instr);
                self.cpu.set_pc(nnn);
                proof {
                    assert(self@ =~~= step_spec(s0, instr, rnd).0);
                }
                Ok(())
            },
            Op::Call(nnn) => {
                match self.cpu.call(nnn) {
                    Err(f) => Err(f),
                    Ok(()) => {
                        self.cpu.set_instr(instr);
                        proof {
                            assert(self@ =~~= step_spec(s0, instr, rnd).0);
                        }
                        Ok(())
                    },
                }
            },
            Op::SeByte(x, kk) => {
                let skip = self.cpu.reg(x) == kk;
                self.advance(instr, skip);
                proof {
                    assert(self@ =~~= step_spec(s0, instr, rnd).0);
                }
                Ok(())
            },
            Op::SneByte(x, kk) => {
                let skip = self.cpu.reg(x) != kk;
                self.advance(instr, skip);
                proof {
                    assert(self@ =~~= step_spec(s0, instr, rnd).0);
                }
                Ok(())
            },
            Op::SeReg(x, y) => {
                let skip = self.cpu.reg(x) == self.cpu.reg(y);
                self.advance(instr, skip);
                proof {
                    assert(self@ =~~= step_spec(s0, instr, rnd).0);
                }
                Ok(())
            },
            Op::LdByte(x, kk) => {
                self.cpu.set_reg(x, kk);
                self.advance(instr, false);
                proof {
                    assert(self@ =~~= step_spec(s0, instr, rnd).0);
                }
                Ok(())
            },
            Op::AddByte(x, kk) => {
                let vx = self.cpu.reg(x);
                let sum = vx as u16 + kk as u16;
                self.cpu.set_reg(x, (sum % 256) as u8);
                self.advance(instr, false);
                proof {
                    assert(self@ =~~= step_spec(s0, instr, rnd).0);
                }
                Ok(())
            },
            Op::LdReg(x, y) => {
                let vy = self.cpu.reg(y);
                self.cpu.set_reg(x, vy);
                self.advance(instr, false);
                proof {
                    assert(self@ =~~= step_spec(s0, instr, rnd).0);
                }
                Ok(())
            },
            Op::Or(x, y) => {
                let v = self.cpu.reg(x) | self.cpu.reg(y);
                self.cpu.set_reg(x, v);
                self.advance(instr, false);
                proof {
                    assert(self@ =~~= step_spec(s0, instr, rnd).0);
                }
                Ok(())
            },
            Op::And(x, y) => {
                let v = self.cpu.reg(x) & self.cpu.reg(y);
                self.cpu.set_reg(x, v);
                self.advance(instr, false);
                proof {
                    assert(self@ =~~= step_spec(s0, instr, rnd).0);
                }
                Ok(())
            },
            Op::Xor(x, y) => {
                let v = self.cpu.reg(x) ^ self.cpu.reg(y);
                self.cpu.set_reg(x, v);
                self.advance(instr, false);
                proof {
                    assert(self@ =~~= step_spec(s0, instr, rnd).0);
                }
                Ok(())
            },
            Op::AddReg(x, y) => {
                let vx = self.cpu.reg(x);
                let vy = self.cpu.reg(y);
                let sum = vx as u16 + vy as u16;
                let vf: u8 = if sum > 255 {
                    1
                } else {
                    0
                };
                self.cpu.set_reg(x, (sum % 256) as u8);
                self.cpu.set_reg(15, vf);
                self.advance(instr, false);
                proof {
                    assert(self@ =~~= step_spec(s0, instr, rnd).0);
                }
                Ok(())
            },
            Op::SubReg(x, y) => {
                let vx = self.cpu.reg(x);
                let vy = self.cpu.reg(y);
                let res: u8 = if vx >= vy {
                    vx - vy
                } else {
                    (vx as u16 + 256 - vy as u16) as u8
                };
                let vf: u8 = if vx >= vy {
                    1
                } else {
                    0
                };
                self.cpu.set_reg(x, res);
                self.cpu.set_reg(15, vf);
                self.advance(instr, false);
                proof {
                    crate::cpu::lemma_sub_mod(vx, vy);
                    assert(self@ =~~= step_spec(s0, instr, rnd).0);
                }
                Ok(())
            },
            Op::Shr(x) => {
                let vx = self.cpu.reg(x);
                self.cpu.set_reg(x, vx / 2);
                self.cpu.set_reg(15, vx % 2);
                self.advance(instr, false);
                proof {
                    assert(self@ =~~= step_spec(s0, instr, rnd).0);
                }
                Ok(())
            },
            Op::Subn(x, y) => {
                let vx = self.cpu.reg(x);
                let vy = self.cpu.reg(y);
                let res: u8 = if vy >= vx {
                    vy - vx
                } else {
                    (vy as u16 + 256 - vx as u16) as u8
                };
                let vf: u8 = if vy >= vx {
                    1
                } else {
                    0
                };
                self.cpu.set_reg(x, res);
                self.cpu.set_reg(15, vf);
                self.advance(instr, false);
                proof {
                    crate::cpu::lemma_sub_mod(vy, vx);
                    assert(self@ =~~= step_spec(s0, instr, rnd).0);
                }
                Ok(())
            },
            Op::Shl(x) => {
                let vx = self.cpu.reg(x);
                let dbl = vx as u16 * 2;
                self.cpu.set_reg(x, (dbl % 256) as u8);
                self.cpu.set_reg(15, vx / 128);
                self.advance(instr, false);
                proof {
                    assert(self@ =~~= step_spec(s0, instr, rnd).0);
                }
                Ok(())
            },
            Op::SneReg(x, y) => {
                let skip = self.cpu.reg(x) != self.cpu.reg(y);
                self.advance(instr, skip);
                proof {
                    assert(self@ =~~= step_spec(s0, instr, rnd).0);
                }
                Ok(())
            },
            Op::LdI(nnn) => {
                self.cpu.set_i(nnn);
                self.advance(instr, false);
                proof {
                    assert(self@ =~~= step_spec(s0, instr, rnd).0);
                }
                Ok(())
            },
            Op::JpV0(nnn) => {
                let v0 = self.cpu.reg(0);
                let target = (nnn + v0 as u16) % 4096;
                self.cpu.set_instr(instr);
                self.cpu.set_pc(target);
                proof {
                    assert(self@ =~~= step_spec(s0, instr, rnd).0);
                }
                Ok(())
            },
            Op::Rnd(x, kk) => {
                self.cpu.set_reg(x, rnd & kk);
                self.advance(instr, false);
                proof {
                    assert(self@ =~~= step_spec(s0, instr, rnd).0);
                }
                Ok(())
            },
            Op::Drw(x, y, n) => {
                let i = self.cpu.i_reg();
                if i as usize + n as usize > 4096 {
                    return Err(Fault::AddressOutOfRange(i));
                }
                let mut sprite: Vec<u8> = Vec::new();
                let mut k: u16 = 0;
                while k < n as u16
                    invariant
                        k <= n as u16,
                        i + n <= 4096,
                        self@ == s0,
                        s0.mem.len() == 4096,
                        sprite@ == s0.mem.subrange(i as int, i as int + k as int),
                    decreases n as u16 - k,
                {
                    let byte = self.mem.at(i + k);
                    sprite.push(byte);
                    proof {
                        assert(sprite@ =~= s0.mem.subrange(i as int, i as int + (k + 1) as int));
                    }
                    k = k + 1;
                }
                let vx = self.cpu.reg(x);
                let vy = self.cpu.reg(y);
                let col = self.scr.draw(vx, vy, &sprite);
                let vf: u8 = if col {
                    1
                } else {
                    0
                };
                self.cpu.set_reg(15, vf);
                self.advance(instr, false);
                proof {
                    assert(self@ =~~= step_spec(s0, instr, rnd).0);
                }
                Ok(())
            },
            Op::Skp(x) => {
                let key = (self.cpu.reg(x) % 16) as usize;
                let skip = self.kbd.get(key);
                self.advance(instr, skip);
                proof {
                    assert(self@ =~~= step_spec(s0, instr, rnd).0);
                }
                Ok(())
            },
            Op::Sknp(x) => {
                let key = (self.cpu.reg(x) % 16) as usize;
                let skip = !self.kbd.get(key);
                self.advance(instr, skip);
                proof {
                    assert(self@ =~~= step_spec(s0, instr, rnd).0);
                }
                Ok(())
            },
            Op::ReadDelay(x) => {
                let dt = self.timers.delay();
                self.cpu.set_reg(x, dt);
                self.advance(instr, false);
                proof {
                    assert(self@ =~~= step_spec(s0, instr, rnd).0);
                }
                Ok(())
            },
            Op::WaitKey(x) => {
                match self.kbd.first_pressed() {
                    Some(k) => {
                        self.cpu.set_reg(x, k);
                        self.advance(instr, false);
                        proof {
                            assert(self@ =~~= step_spec(s0, instr, rnd).0);
                        }
                    },
                    None => {
                        self.cpu.set_instr(instr);
                        proof {
                            assert(self@ =~~= step_spec(s0, instr, rnd).0);
                        }
                    },
                }
                Ok(())
            },
            Op::SetDelay(x) => {
                let vx = self.cpu.reg(x);
                self.timers.set_delay(vx);
                self.advance(instr, false);
                proof {
                    assert(self@ =~~= step_spec(s0, instr, rnd).0);
                }
                Ok(())
            },
            Op::SetSound(x) => {
                let vx = self.cpu.reg(x);
                self.timers.set_sound(vx);
                self.advance(instr, false);
                proof {
                    assert(self@ =~~= step_spec(s0, instr, rnd).0);
                }
                Ok(())
            },
            Op::Font(x) => {
                let digit = self.cpu.reg(x) % 16;
                self.cpu.set_i(0x50 + 5 * (digit as u16));
                self.advance(instr, false);
                proof {
                    assert(self@ =~~= step_spec(s0, instr, rnd).0);
                }
                Ok(())
            },
            Op::Bcd(x) => {
                let i = self.cpu.i_reg();
                if i > 4093 {
                    return Err(Fault::AddressOutOfRange(i));
                }
                let vx = self.cpu.reg(x);
                self.mem.set_at(i, vx / 100);
                self.mem.set_at(i + 1, (vx / 10) % 10);
                self.mem.set_at(i + 2, vx % 10);
                self.advance(instr, false);
                proof {
                    assert(self@ =~~= step_spec(s0, instr, rnd).0);
                }
                Ok(())
            },
            Op::StoreRegs(x) => {
                let i = self.cpu.i_reg();
                if i as usize + x as usize > 4095 {
                    return Err(Fault::AddressOutOfRange(i));
                }
                let mut k: u16 = 0;
                while k <= x as u16
                    invariant
                        k <= x + 1,
                        x < 16,
                        i + x <= 4095,
                        self@.cpu == s0.cpu,
                        self@.pix == s0.pix,
                        self@.kbd == s0.kbd,
                        self@.timers == s0.timers,
                        self@.mem.len() == 4096,
                        s0.mem.len() == 4096,
                        s0.cpu.regs.len() == 16,
                        forall|a: int|
                            0 <= a < 4096 ==> self@.mem[a] == (if i <= a < i + k {
                                s0.cpu.regs[a - i]
                            } else {
                                s0.mem[a]
                            }),
                    decreases x as u16 + 1 - k,
                {
                    let v = self.cpu.reg(k as u8);
                    self.mem.set_at(i + k, v);
                    k = k + 1;
                }
                proof {
                    assert(self@.mem =~= Seq::new(
                        4096,
                        |a: int|
                            if i <= a <= i + x {
                                s0.cpu.regs[a - i]
                            } else {
                                s0.mem[a]
                            },
                    ));
                }
                self.advance(instr, false);
                proof {
                    assert(self@ =~~= step_spec(s0, instr, rnd).0);
                }
                Ok(())
            },
            Op::LoadRegs(x) => {
                let i = self.cpu.i_reg();
                if i as usize + x as usize > 4095 {
                    return Err(Fault::AddressOutOfRange(i));
                }
                let mut k: u16 = 0;
                while k <= x as u16
                    invariant
                        k <= x + 1,
                        x < 16,
                        i + x <= 4095,
                        self@.mem == s0.mem,
                        self@.pix == s0.pix,
                        self@.kbd == s0.kbd,
                        self@.timers == s0.timers,
                        self@.cpu.i == s0.cpu.i,
                        self@.cpu.pc == s0.cpu.pc,
                        self@.cpu.sp == s0.cpu.sp,
                        self@.cpu.stack == s0.cpu.stack,
                        self@.cpu.instr == s0.cpu.instr,
                        self@.cpu.regs.len() == 16,
                        s0.cpu.regs.len() == 16,
                        s0.mem.len() == 4096,
                        forall|j: int|
                            0 <= j < 16 ==> self@.cpu.regs[j] == (if j < k {
                                s0.mem[i + j]
                            } else {
                                s0.cpu.regs[j]
                            }),
                    decreases x as u16 + 1 - k,
                {
                    let v = self.mem.at(i + k);
                    self.cpu.set_reg(k as u8, v);
                    k = k + 1;
                }
                proof {
                    assert(self@.cpu.regs =~= Seq::new(
                        16,
                        |j: int|
                            if j <= x {
                                s0.mem[i + j]
                            } else {
                                s0.cpu.regs[j]
                            },
                    ));
                }
                self.advance(instr, false);
                proof {
                    assert(self@ =~~= step_spec(s0, instr, rnd).0);
                }
                Ok(())
            },
            Op::Unknown => {
                let pc = self.cpu.pc();
                Err(Fault::UnknownOpcode(instr.raw, pc))
            },
        }
    }

    /// Apply one decoded instruction, drawing the byte for the random
    /// instruction (Cxkk) from the crate's random source. Every other
    /// instruction is a pure function of the machine state: its outcome
    /// equals the step function whatever byte is supplied.
    pub fn exec(&mut self, instr: Instruction) -> (r: Result<(), Fault>)
        requires
            instr.wf(),
        ensures
            exists|rnd: u8|
                #![auto]
                final(self)@ == step_spec(old(self)@, instr, rnd).0 && r == spec_result(
                    step_spec(old(self)@, instr, rnd).1,
                ),
            !(instr.op is Rnd) ==> final(self)@ == step_spec(old(self)@, instr, 0).0 && r
                == spec_result(step_spec(old(self)@, instr, 0).1),
    {
        let rnd = match instr.op {
            Op::Rnd(_, _) => random_byte(),
            _ => 0,
        };
        let r = self.exec_with_rand(instr, rnd);
        proof {
            assert(self@ == step_spec(old(self)@, instr, rnd).0 && r == spec_result(
                step_spec(old(self)@, instr, rnd).1,
            ));
        }
        r
    }

    /// Fetch the opcode at the program counter and execute it: one step of
    /// the external driving loop. When even one of the two opcode bytes
    /// falls outside memory, fault with `AddressOutOfRange` at the program
    /// counter and change nothing.
    pub fn step(&mut self) -> (r: Result<(), Fault>)
        ensures
            exists|rnd: u8|
                #![auto]
                final(self)@ == spec_step(old(self)@, rnd).0 && r == spec_result(
                    spec_step(old(self)@, rnd).1,
                ),
            (match spec_fetch(old(self)@) {
                Some(i) => !(i.op is Rnd),
                None => true,
            }) ==> final(self)@ == spec_step(old(self)@, 0).0 && r == spec_result(
                spec_step(old(self)@, 0).1,
            ),
    {
        match self.fetch() {
            Some(instr) => {
                let r = self.exec(instr);
                proof {
                    let rnd = choose|rnd: u8|
                        #![auto]
                        self@ == step_spec(old(self)@, instr, rnd).0 && r == spec_result(
                            step_spec(old(self)@, instr, rnd).1,
                        );
                    assert(self@ == spec_step(old(self)@, rnd).0 && r == spec_result(
                        spec_step(old(self)@, rnd).1,
                    ));
                }
                r
            },
            None => {
                let pc = self.cpu.pc();
                proof {
                    assert(self@ == spec_step(old(self)@, 0).0);
                }
                Err(Fault::AddressOutOfRange(pc))
            },
        }
    }
}

/// Relies on rand::random::<u8>: one byte from the thread-local generator.
/// The value is unconstrained; nothing is promised of it, and the machine's
/// contracts hold whatever comes back.
#[verifier::external_body]
fn random_byte() -> u8 {
    rand::random()
}

/// A faulting step is harmless: whenever the step function reports a fault,
/// it leaves the machine exactly as it was.
pub proof fn lemma_fault_preserves_state(s: EmuView, instr: Instruction, rnd: u8)
    requires
        step_spec(s, instr, rnd).1 is Some,
    ensures
        step_spec(s, instr, rnd).0 == s,
{
}

/// RET on an empty call stack faults with `StackUnderflow` and leaves every
/// other part of the machine unchanged.
pub proof fn lemma_ret_underflow(s: EmuView, ret_i: Instruction, rnd: u8)
    requires
        ret_i.op is Ret,
        s.cpu.sp == 0,
    ensures
        step_spec(s, ret_i, rnd).0 == s,
        step_spec(s, ret_i, rnd).1 == Some(Fault::StackUnderflow),
{
}

/// Executing an unrecognized opcode faults with `UnknownOpcode`, carrying
/// the raw opcode and the program counter, and changes nothing.
pub proof fn lemma_unknown_fault(s: EmuView, instr: Instruction, rnd: u8)
    requires
        instr.op is Unknown,
    ensures
        step_spec(s, instr, rnd).0 == s,
        step_spec(s, instr, rnd).1 == Some(Fault::UnknownOpcode(instr.raw, s.cpu.pc)),
{
}

/// CALL then RET round-trips: from any valid state with a free stack slot,
/// a call followed by a return succeeds, lands the program counter on the
/// instruction after the call, restores the stack pointer, and touches no
/// register, memory byte, pixel, key or timer.
pub proof fn lemma_call_ret_round_trip(
    s: EmuView,
    call_i: Instruction,
    ret_i: Instruction,
    rnd: u8,
    nnn: u16,
)
    requires
        s.wf(),
        call_i.op == Op::Call(nnn),
        nnn < 4096,
        ret_i.op is Ret,
        s.cpu.sp < 16,
    ensures
        ({
            let (s1, f1) = step_spec(s, call_i, rnd);
            let (s2, f2) = step_spec(s1, ret_i, rnd);
            &&& f1 is None
            &&& f2 is None
            &&& s1.cpu.pc == nnn
            &&& s2.cpu.pc == spec_advance(s.cpu.pc, false)
            &&& s2.cpu.sp == s.cpu.sp
            &&& s2.cpu.regs == s.cpu.regs
            &&& s2.cpu.i == s.cpu.i
            &&& s2.mem == s.mem
            &&& s2.pix == s.pix
            &&& s2.kbd == s.kbd
            &&& s2.timers == s.timers
        }),
{
}

/// ADD with carry at machine level: for every valid state, executing
/// 8xy4 with x other than VF stores the wrapped sum in Vx and sets VF to 1
/// exactly when the true sum exceeds 255.
pub proof fn lemma_step_add(s: EmuView, instr: Instruction, rnd: u8, x: u8, y: u8)
    requires
        s.wf(),
        instr.op == Op::AddReg(x, y),
        x < 16,
        y < 16,
        x != 15,
    ensures
        step_spec(s, instr, rnd).1 is None,
        step_spec(s, instr, rnd).0.cpu.regs[x as int] == (s.cpu.regs[x as int] + s.cpu.regs[y as int]) % 256,
        (step_spec(s, instr, rnd).0.cpu.regs[15] == 1 <==> s.cpu.regs[x as int] + s.cpu.regs[y as int] > 255),
{
}

/// SUB with borrow at machine level: for every valid state, executing
/// 8xy5 with x other than VF stores the wrapped difference in Vx and sets
/// VF to 1 exactly when Vx >= Vy (no borrow).
pub proof fn lemma_step_sub(s: EmuView, instr: Instruction, rnd: u8, x: u8, y: u8)
    requires
        s.wf(),
        instr.op == Op::SubReg(x, y),
        x < 16,
        y < 16,
        x != 15,
    ensures
        step_spec(s, instr, rnd).1 is None,
        step_spec(s, instr, rnd).0.cpu.regs[x as int] == (s.cpu.regs[x as int] - s.cpu.regs[y as int]) % 256,
        (step_spec(s, instr, rnd).0.cpu.regs[15] == 1 <==> s.cpu.regs[x as int] >= s.cpu.regs[y as int]),
{
}

} // verus!
