use crate::decoder::Instruction;
use crate::fault::Fault;
use crate::memory::ROM_ORIGIN;
use vstd::arithmetic::div_mod::{lemma_mod_multiples_vanish, lemma_small_mod};
use vstd::prelude::*;

verus! {

/// Mathematical model of the register file: the 16 general-purpose
/// registers, the index register, the program counter, the stack pointer,
/// the fixed-capacity call stack, and the last instruction handed to exec
/// (kept for diagnostic rendering).
#[verifier::ext_equal]
pub ghost struct CpuView {
    pub regs: Seq<u8>,
    pub i: u16,
    pub pc: u16,
    pub sp: u16,
    pub stack: Seq<u16>,
    pub instr: Option<Instruction>,
}

/// 8-bit addition: the wrapped sum and the carry flag for VF, 1 exactly on
/// unsigned overflow.
pub open spec fn spec_add(vx: u8, vy: u8) -> (u8, u8) {
    (((vx + vy) % 256) as u8, if vx + vy > 255 {
        1u8
    } else {
        0u8
    })
}

/// 8-bit subtraction: the wrapped difference and the no-borrow flag for VF,
/// 1 exactly when vx >= vy.
pub open spec fn spec_sub(vx: u8, vy: u8) -> (u8, u8) {
    (((vx - vy) % 256) as u8, if vx >= vy {
        1u8
    } else {
        0u8
    })
}

/// Shift right by one: the result and the bit shifted out.
pub open spec fn spec_shr(vx: u8) -> (u8, u8) {
    (vx / 2, vx % 2)
}

/// Shift left by one: the wrapped result and the bit shifted out.
pub open spec fn spec_shl(vx: u8) -> (u8, u8) {
    (((vx * 2) % 256) as u8, vx / 128)
}

/// The register file. The program counter always stays inside the 4096-byte
/// address space (program-counter arithmetic is modulo the address space),
/// the stack pointer never exceeds 16, and every stack slot holds a valid
/// return address.
pub struct CPU {
    regs: [u8; 16],
    i: u16,
    pc: u16,
    sp: u16,
    stack: [u16; 16],
    instr: Option<Instruction>,
}

impl View for CPU {
    type V = CpuView;

    closed spec fn view(&self) -> CpuView {
        CpuView {
            regs: self.regs@,
            i: self.i,
            pc: self.pc,
            sp: self.sp,
            stack: self.stack@,
            instr: self.instr,
        }
    }
}

impl CPU {
    /// Holds of every register file: established by `new`, preserved by
    /// every operation.
    #[verifier::type_invariant]
    pub open spec fn inv(self) -> bool {
        &&& self@.pc < 4096
        &&& self@.sp <= 16
        &&& self@.regs.len() == 16
        &&& self@.stack.len() == 16
        &&& forall|k: int| 0 <= k < 16 ==> self@.stack[k] < 4096
    }

    pub fn new() -> (cpu: CPU)
        ensures
            cpu@.regs.len() == 16,
            forall|k: int| 0 <= k < 16 ==> cpu@.regs[k] == 0,
            cpu@.i == 0,
            cpu@.pc == ROM_ORIGIN,
            cpu@.sp == 0,
            cpu@.stack.len() == 16,
            forall|k: int| 0 <= k < 16 ==> cpu@.stack[k] == 0,
            cpu@.instr is None,
    {
        CPU { regs: [0u8; 16], i: 0, pc: ROM_ORIGIN, sp: 0, stack: [0u16; 16], instr: None }
    }

    /// The program counter; always below 4096.
    pub fn pc(&self) -> (r: u16)
        ensures
            r == self@.pc,
            r < 4096,
    {
        proof {
            use_type_invariant(&*self);
        }
        self.pc
    }

    /// The index register I.
    pub fn i_reg(&self) -> (r: u16)
        ensures
            r == self@.i,
    {
        self.i
    }

    /// The stack pointer; never exceeds 16.
    pub fn sp(&self) -> (r: u16)
        ensures
            r == self@.sp,
            r <= 16,
    {
        proof {
            use_type_invariant(&*self);
        }
        self.sp
    }

    /// One general-purpose register.
    pub fn reg(&self, x: u8) -> (r: u8)
        requires
            x < 16,
        ensures
            r == self@.regs[x as int],
    {
        self.regs[x as usize]
    }

    /// The instruction most recently handed to exec, for diagnostics.
    pub fn instr(&self) -> (r: Option<Instruction>)
        ensures
            r == self@.instr,
    {
        self.instr
    }

    pub(crate) fn set_reg(&mut self, x: u8, v: u8)
        requires
            x < 16,
        ensures
            final(self)@ == (CpuView { regs: old(self)@.regs.update(x as int, v), ..old(self)@ }),
    {
        proof {
            use_type_invariant(&*self);
        }
        self.regs[x as usize] = v;
    }

    pub(crate) fn set_i(&mut self, v: u16)
        ensures
            final(self)@ == (CpuView { i: v, ..old(self)@ }),
    {
        proof {
            use_type_invariant(&*self);
        }
        self.i = v;
    }

    pub(crate) fn set_pc(&mut self, v: u16)
        requires
            v < 4096,
        ensures
            final(self)@ == (CpuView { pc: v, ..old(self)@ }),
    {
        proof {
            use_type_invariant(&*self);
        }
        self.pc = v;
    }

    pub(crate) fn set_instr(&mut self, ins: Instruction)
        ensures
            final(self)@ == (CpuView { instr: Some(ins), ..old(self)@ }),
    {
        proof {
            use_type_invariant(&*self);
        }
        self.instr = Some(ins);
    }

    /// CALL: push the address of the following instruction, bump the stack
    /// pointer, jump to the target; fault with `StackOverflow`, changing
    /// nothing, when all 16 slots are in use.
    pub(crate) fn call(&mut self, nnn: u16) -> (r: Result<(), Fault>)
        requires
            nnn < 4096,
        ensures
            old(self)@.sp < 16 ==> r == Ok::<(), Fault>(()) && final(self)@ == (CpuView {
                pc: nnn,
                sp: (old(self)@.sp + 1) as u16,
                stack: old(self)@.stack.update(
                    old(self)@.sp as int,
                    ((old(self)@.pc + 2) % 4096) as u16,
                ),
                ..old(self)@
            }),
            old(self)@.sp >= 16 ==> r == Err::<(), Fault>(Fault::StackOverflow) && final(self)@
                == old(self)@,
    {
        proof {
            use_type_invariant(&*self);
        }
        if self.sp >= 16 {
            return Err(Fault::StackOverflow);
        }
        self.stack[self.sp as usize] = (self.pc + 2) % 4096;
        self.sp = self.sp + 1;
        self.pc = nnn;
        Ok(())
    }

    /// RET: pop the return address into the program counter; fault with
    /// `StackUnderflow`, changing nothing, when the stack is empty.
    pub(crate) fn ret(&mut self) -> (r: Result<(), Fault>)
        ensures
            old(self)@.sp == 0 ==> r == Err::<(), Fault>(Fault::StackUnderflow) && final(self)@
                == old(self)@,
            old(self)@.sp > 0 ==> r == Ok::<(), Fault>(()) && final(self)@ == (CpuView {
                pc: old(self)@.stack[old(self)@.sp - 1],
                sp: (old(self)@.sp - 1) as u16,
                ..old(self)@
            }),
    {
        proof {
            use_type_invariant(&*self);
        }
        if self.sp == 0 {
            return Err(Fault::StackUnderflow);
        }
        self.sp = self.sp - 1;
        self.pc = self.stack[self.sp as usize];
        Ok(())
    }
}

/// ADD with carry: for all register values, VF is 1 exactly when the true
/// sum exceeds 255, and the stored result is the sum modulo 256.
pub proof fn lemma_add_flags(vx: u8, vy: u8)
    ensures
        (spec_add(vx, vy).1 == 1 <==> vx + vy > 255),
        spec_add(vx, vy).0 == (vx + vy) % 256,
{
}

/// The wrapped difference written out without the modulus, as executable
/// code computes it.
pub proof fn lemma_sub_mod(vx: u8, vy: u8)
    ensures
        vx >= vy ==> spec_sub(vx, vy).0 == vx - vy,
        vx < vy ==> spec_sub(vx, vy).0 == vx + 256 - vy,
{
    if vx >= vy {
        lemma_small_mod((vx - vy) as nat, 256);
    } else {
        lemma_mod_multiples_vanish(1, vx - vy, 256);
        lemma_small_mod((vx + 256 - vy) as nat, 256);
    }
}

/// SUB with borrow: for all register values, VF is 1 exactly when vx >= vy
/// (no borrow), and the stored result is the difference modulo 256.
pub proof fn lemma_sub_flags(vx: u8, vy: u8)
    ensures
        (spec_sub(vx, vy).1 == 1 <==> vx >= vy),
        spec_sub(vx, vy).0 == (vx - vy) % 256,
{
}

} // verus!
