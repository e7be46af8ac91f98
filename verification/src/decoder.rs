use vstd::prelude::*;

verus! {

/// The operation kind of one decoded opcode, with its typed operands:
/// register indices (4 bits), byte immediates (8 bits) and addresses
/// (12 bits). Opcode values that match no pattern decode to `Unknown`;
/// only executing an `Unknown` instruction surfaces a fault, so decoding
/// itself stays total and side-effect free.
#[derive(Clone, Copy, Debug, PartialEq, Eq, Structural)]
pub enum Op {
    /// 00E0: clear the display.
    Cls,
    /// 00EE: return from a subroutine.
    Ret,
    /// 1nnn: jump to address.
    Jp(u16),
    /// 2nnn: call the subroutine at the address.
    Call(u16),
    /// 3xkk: skip the next instruction if Vx == kk.
    SeByte(u8, u8),
    /// 4xkk: skip the next instruction if Vx != kk.
    SneByte(u8, u8),
    /// 5xy0: skip the next instruction if Vx == Vy.
    SeReg(u8, u8),
    /// 6xkk: Vx = kk.
    LdByte(u8, u8),
    /// 7xkk: Vx = Vx + kk, wrapping, no carry flag.
    AddByte(u8, u8),
    /// 8xy0: Vx = Vy.
    LdReg(u8, u8),
    /// 8xy1: Vx = Vx | Vy.
    Or(u8, u8),
    /// 8xy2: Vx = Vx & Vy.
    And(u8, u8),
    /// 8xy3: Vx = Vx ^ Vy.
    Xor(u8, u8),
    /// 8xy4: Vx = Vx + Vy, VF = carry.
    AddReg(u8, u8),
    /// 8xy5: Vx = Vx - Vy, VF = 1 when no borrow.
    SubReg(u8, u8),
    /// 8xy6: Vx = Vx >> 1, VF = the bit shifted out.
    Shr(u8),
    /// 8xy7: Vx = Vy - Vx, VF = 1 when no borrow.
    Subn(u8, u8),
    /// 8xyE: Vx = Vx << 1, VF = the bit shifted out.
    Shl(u8),
    /// 9xy0: skip the next instruction if Vx != Vy.
    SneReg(u8, u8),
    /// Annn: I = nnn.
    LdI(u16),
    /// Bnnn: jump to nnn + V0.
    JpV0(u16),
    /// Cxkk: Vx = a random byte masked with kk.
    Rnd(u8, u8),
    /// Dxyn: draw the n-row sprite at memory I at coordinates (Vx, Vy),
    /// VF = collision.
    Drw(u8, u8, u8),
    /// Ex9E: skip the next instruction if the key named by Vx is pressed.
    Skp(u8),
    /// ExA1: skip the next instruction if the key named by Vx is not pressed.
    Sknp(u8),
    /// Fx07: Vx = the delay timer.
    ReadDelay(u8),
    /// Fx0A: wait for a key press; the program counter does not advance
    /// until some key is pressed, and the key index lands in Vx.
    WaitKey(u8),
    /// Fx15: delay timer = Vx.
    SetDelay(u8),
    /// Fx18: sound timer = Vx.
    SetSound(u8),
    /// Fx29: I = the address of the built-in font glyph for the low nibble
    /// of Vx.
    Font(u8),
    /// Fx33: write the decimal digits of Vx (hundreds, tens, units) to
    /// memory at I, I+1, I+2.
    Bcd(u8),
    /// Fx55: copy V0..=Vx to memory starting at I.
    StoreRegs(u8),
    /// Fx65: copy memory starting at I into V0..=Vx.
    LoadRegs(u8),
    /// Any opcode value that matches no pattern above.
    Unknown,
}

/// One decoded, immutable instruction: the operation with its operands, plus
/// the raw opcode it came from, retained for diagnostic rendering. Constructed
/// fresh on every fetch, consumed once by exec, never mutated.
#[derive(Clone, Copy, Debug, PartialEq, Eq, Structural)]
pub struct Instruction {
    pub raw: u16,
    pub op: Op,
}

impl Instruction {
    /// Operand ranges that `decode` guarantees: register indices and sprite
    /// heights are nibbles, addresses are 12 bits.
    pub open spec fn wf(self) -> bool {
        match self.op {
            Op::Cls | Op::Ret | Op::Unknown => true,
            Op::Jp(nnn) | Op::Call(nnn) | Op::LdI(nnn) | Op::JpV0(nnn) => nnn < 0x1000,
            Op::SeByte(x, _) | Op::SneByte(x, _) | Op::LdByte(x, _) | Op::AddByte(x, _)
                | Op::Rnd(x, _) => x < 16,
            Op::SeReg(x, y) | Op::LdReg(x, y) | Op::Or(x, y) | Op::And(x, y) | Op::Xor(x, y)
                | Op::AddReg(x, y) | Op::SubReg(x, y) | Op::Subn(x, y) | Op::SneReg(x, y)
                => x < 16 && y < 16,
            Op::Shr(x) | Op::Shl(x) | Op::Skp(x) | Op::Sknp(x) | Op::ReadDelay(x)
                | Op::WaitKey(x) | Op::SetDelay(x) | Op::SetSound(x) | Op::Font(x)
                | Op::Bcd(x) | Op::StoreRegs(x) | Op::LoadRegs(x) => x < 16,
            Op::Drw(x, y, n) => x < 16 && y < 16 && n < 16,
        }
    }

    /// The raw 16-bit opcode this instruction was decoded from.
    pub fn to_instr(&self) -> (r: u16)
        ensures
            r == self.raw,
    {
        self.raw
    }
}

/// What `decode` returns for each raw opcode value, as a pure function of its
/// nibble groups.
pub open spec fn spec_decode(raw: u16) -> Instruction {
    Instruction { raw, op: spec_op_of(raw) }
}

/// The operation encoded by a raw opcode, keyed on the high nibble and, where
/// the family needs it, the low nibble or low byte.
pub open spec fn spec_op_of(raw: u16) -> Op {
    let hi = raw / 0x1000;
    let nnn = raw % 0x1000;
    let x = ((raw / 0x100) % 0x10) as u8;
    let y = ((raw / 0x10) % 0x10) as u8;
    let kk = (raw % 0x100) as u8;
    let n = (raw % 0x10) as u8;
    if raw == 0x00E0 {
        Op::Cls
    } else if raw == 0x00EE {
        Op::Ret
    } else if hi == 0x1 {
        Op::Jp(nnn)
    } else if hi == 0x2 {
        Op::Call(nnn)
    } else if hi == 0x3 {
        Op::SeByte(x, kk)
    } else if hi == 0x4 {
        Op::SneByte(x, kk)
    } else if hi == 0x5 && n == 0x0 {
        Op::SeReg(x, y)
    } else if hi == 0x6 {
        Op::LdByte(x, kk)
    } else if hi == 0x7 {
        Op::AddByte(x, kk)
    } else if hi == 0x8 && n == 0x0 {
        Op::LdReg(x, y)
    } else if hi == 0x8 && n == 0x1 {
        Op::Or(x, y)
    } else if hi == 0x8 && n == 0x2 {
        Op::And(x, y)
    } else if hi == 0x8 && n == 0x3 {
        Op::Xor(x, y)
    } else if hi == 0x8 && n == 0x4 {
        Op::AddReg(x, y)
    } else if hi == 0x8 && n == 0x5 {
        Op::SubReg(x, y)
    } else if hi == 0x8 && n == 0x6 {
        Op::Shr(x)
    } else if hi == 0x8 && n == 0x7 {
        Op::Subn(x, y)
    } else if hi == 0x8 && n == 0xE {
        Op::Shl(x)
    } else if hi == 0x9 && n == 0x0 {
        Op::SneReg(x, y)
    } else if hi == 0xA {
        Op::LdI(nnn)
    } else if hi == 0xB {
        Op::JpV0(nnn)
    } else if hi == 0xC {
        Op::Rnd(x, kk)
    } else if hi == 0xD {
        Op::Drw(x, y, n)
    } else if hi == 0xE && kk == 0x9E {
        Op::Skp(x)
    } else if hi == 0xE && kk == 0xA1 {
        Op::Sknp(x)
    } else if hi == 0xF && kk == 0x07 {
        Op::ReadDelay(x)
    } else if hi == 0xF && kk == 0x0A {
        Op::WaitKey(x)
    } else if hi == 0xF && kk == 0x15 {
        Op::SetDelay(x)
    } else if hi == 0xF && kk == 0x18 {
        Op::SetSound(x)
    } else if hi == 0xF && kk == 0x29 {
        Op::Font(x)
    } else if hi == 0xF && kk == 0x33 {
        Op::Bcd(x)
    } else if hi == 0xF && kk == 0x55 {
        Op::StoreRegs(x)
    } else if hi == 0xF && kk == 0x65 {
        Op::LoadRegs(x)
    } else {
        Op::Unknown
    }
}

/// Translate a raw 16-bit opcode into a structured instruction. Total: every
/// value maps to exactly one variant, with `Op::Unknown` for the values that
/// match no pattern.
pub fn decode(raw: u16) -> (instr: Instruction)
    ensures
        instr == spec_decode(raw),
        instr.wf(),
{
    let hi = raw / 0x1000;
    let nnn = raw % 0x1000;
    let x = ((raw / 0x100) % 0x10) as u8;
    let y = ((raw / 0x10) % 0x10) as u8;
    let kk = (raw % 0x100) as u8;
    let n = (raw % 0x10) as u8;
    let op = if raw == 0x00E0 {
        Op::Cls
    } else if raw == 0x00EE {
        Op::Ret
    } else if hi == 0x1 {
        Op::Jp(nnn)
    } else if hi == 0x2 {
        Op::Call(nnn)
    } else if hi == 0x3 {
        Op::SeByte(x, kk)
    } else if hi == 0x4 {
        Op::SneByte(x, kk)
    } else if hi == 0x5 && n == 0x0 {
        Op::SeReg(x, y)
    } else if hi == 0x6 {
        Op::LdByte(x, kk)
    } else if hi == 0x7 {
        Op::AddByte(x, kk)
    } else if hi == 0x8 && n == 0x0 {
        Op::LdReg(x, y)
    } else if hi == 0x8 && n == 0x1 {
        Op::Or(x, y)
    } else if hi == 0x8 && n == 0x2 {
        Op::And(x, y)
    } else if hi == 0x8 && n == 0x3 {
        Op::Xor(x, y)
    } else if hi == 0x8 && n == 0x4 {
        Op::AddReg(x, y)
    } else if hi == 0x8 && n == 0x5 {
        Op::SubReg(x, y)
    } else if hi == 0x8 && n == 0x6 {
        Op::Shr(x)
    } else if hi == 0x8 && n == 0x7 {
        Op::Subn(x, y)
    } else if hi == 0x8 && n == 0xE {
        Op::Shl(x)
    } else if hi == 0x9 && n == 0x0 {
        Op::SneReg(x, y)
    } else if hi == 0xA {
        Op::LdI(nnn)
    } else if hi == 0xB {
        Op::JpV0(nnn)
    } else if hi == 0xC {
        Op::Rnd(x, kk)
    } else if hi == 0xD {
        Op::Drw(x, y, n)
    } else if hi == 0xE && kk == 0x9E {
        Op::Skp(x)
    } else if hi == 0xE && kk == 0xA1 {
        Op::Sknp(x)
    } else if hi == 0xF && kk == 0x07 {
        Op::ReadDelay(x)
    } else if hi == 0xF && kk == 0x0A {
        Op::WaitKey(x)
    } else if hi == 0xF && kk == 0x15 {
        Op::SetDelay(x)
    } else if hi == 0xF && kk == 0x18 {
        Op::SetSound(x)
    } else if hi == 0xF && kk == 0x29 {
        Op::Font(x)
    } else if hi == 0xF && kk == 0x33 {
        Op::Bcd(x)
    } else if hi == 0xF && kk == 0x55 {
        Op::StoreRegs(x)
    } else if hi == 0xF && kk == 0x65 {
        Op::LoadRegs(x)
    } else {
        Op::Unknown
    };
    Instruction { raw, op }
}

/// Decoding the same raw value always yields the same instruction: the law
/// that `decode` is deterministic, stated over its pure specification.
pub proof fn lemma_decode_deterministic(a: u16, b: u16)
    requires
        a == b,
    ensures
        spec_decode(a) == spec_decode(b),
{
}

/// Every decoded instruction has its operands in range: decode is total and
/// lands in the well-formed instructions.
pub proof fn lemma_decode_wf(raw: u16)
    ensures
        spec_decode(raw).wf(),
        spec_decode(raw).raw == raw,
{
}

} // verus!
