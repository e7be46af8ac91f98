use crate::fault::Fault;
use vstd::prelude::*;

verus! {

/// Size of the address space in bytes.
pub const MEM_SIZE: u16 = 4096;

/// Where the built-in font sprites start: the reserved low region.
pub const FONT_BASE: u16 = 0x50;

/// Where program bytes start; this boundary is fixed and not configurable.
pub const ROM_ORIGIN: u16 = 0x200;

/// The 5-byte sprite of one hexadecimal digit glyph, 0 through F.
pub open spec fn font_sprite(d: int) -> Seq<u8> {
    if d == 0x0 {
        seq![0xF0u8, 0x90, 0x90, 0x90, 0xF0]
    } else if d == 0x1 {
        seq![0x20u8, 0x60, 0x20, 0x20, 0x70]
    } else if d == 0x2 {
        seq![0xF0u8, 0x10, 0xF0, 0x80, 0xF0]
    } else if d == 0x3 {
        seq![0xF0u8, 0x10, 0xF0, 0x10, 0xF0]
    } else if d == 0x4 {
        seq![0x90u8, 0x90, 0xF0, 0x10, 0x10]
    } else if d == 0x5 {
        seq![0xF0u8, 0x80, 0xF0, 0x10, 0xF0]
    } else if d == 0x6 {
        seq![0xF0u8, 0x80, 0xF0, 0x90, 0xF0]
    } else if d == 0x7 {
        seq![0xF0u8, 0x10, 0x20, 0x40, 0x40]
    } else if d == 0x8 {
        seq![0xF0u8, 0x90, 0xF0, 0x90, 0xF0]
    } else if d == 0x9 {
        seq![0xF0u8, 0x90, 0xF0, 0x10, 0xF0]
    } else if d == 0xA {
        seq![0xF0u8, 0x90, 0xF0, 0x90, 0x90]
    } else if d == 0xB {
        seq![0xE0u8, 0x90, 0xE0, 0x90, 0xE0]
    } else if d == 0xC {
        seq![0xF0u8, 0x80, 0x80, 0x80, 0xF0]
    } else if d == 0xD {
        seq![0xE0u8, 0x90, 0x90, 0x90, 0xE0]
    } else if d == 0xE {
        seq![0xF0u8, 0x80, 0xF0, 0x80, 0xF0]
    } else {
        seq![0xF0u8, 0x80, 0xF0, 0x80, 0x80]
    }
}

/// Memory after a ROM image is copied in at `origin`: the image verbatim over
/// `[origin, origin + len)`, everything else untouched.
pub open spec fn spec_loaded(mem: Seq<u8>, rom: Seq<u8>, origin: u16) -> Seq<u8> {
    Seq::new(
        mem.len(),
        |a: int|
            if origin <= a < origin + rom.len() {
                rom[a - origin]
            } else {
                mem[a]
            },
    )
}

/// The fixed 4096-byte address space, zero-initialized. Every read and write
/// is address-checked against [0, 4095]; an out-of-range access is surfaced
/// as a fault, never silently wrapped.
pub struct Memory {
    bytes: [u8; 4096],
}

impl View for Memory {
    type V = Seq<u8>;

    closed spec fn view(&self) -> Seq<u8> {
        self.bytes@
    }
}

impl Memory {
    /// The address space always spans exactly 4096 bytes.
    #[verifier::type_invariant]
    pub open spec fn inv(self) -> bool {
        self@.len() == 4096
    }

    pub fn new() -> (m: Memory)
        ensures
            m@.len() == 4096,
            forall|a: int| 0 <= a < 4096 ==> m@[a] == 0,
    {
        Memory { bytes: [0u8; 4096] }
    }

    /// Byte-level checked read.
    pub fn read(&self, addr: u16) -> (r: Result<u8, Fault>)
        ensures
            addr < 4096 ==> r == Ok::<u8, Fault>(self@[addr as int]),
            addr >= 4096 ==> r == Err::<u8, Fault>(Fault::AddressOutOfRange(addr)),
    {
        if addr < 4096 {
            Ok(self.bytes[addr as usize])
        } else {
            Err(Fault::AddressOutOfRange(addr))
        }
    }

    /// Byte-level checked write; an out-of-range address changes nothing.
    pub fn write(&mut self, addr: u16, val: u8) -> (r: Result<(), Fault>)
        ensures
            addr < 4096 ==> r == Ok::<(), Fault>(()) && final(self)@ == old(self)@.update(
                addr as int,
                val,
            ),
            addr >= 4096 ==> r == Err::<(), Fault>(Fault::AddressOutOfRange(addr))
                && final(self)@ == old(self)@,
    {
        if addr < 4096 {
            self.bytes[addr as usize] = val;
            Ok(())
        } else {
            Err(Fault::AddressOutOfRange(addr))
        }
    }

    /// Unchecked read for callers that have already established the bound.
    pub(crate) fn at(&self, addr: u16) -> (r: u8)
        requires
            addr < 4096,
        ensures
            r == self@[addr as int],
    {
        self.bytes[addr as usize]
    }

    /// Unchecked write for callers that have already established the bound.
    pub(crate) fn set_at(&mut self, addr: u16, val: u8)
        requires
            addr < 4096,
        ensures
            final(self)@ == old(self)@.update(addr as int, val),
    {
        self.bytes[addr as usize] = val;
    }

    /// Copy a ROM image verbatim into memory starting at `origin`; fail with
    /// `RomTooLarge`, changing nothing, when the image does not fit below the
    /// end of the address space. The content itself is never validated here:
    /// malformed opcodes are detected at decode time, not at load time.
    pub fn load(&mut self, rom: &[u8], origin: u16) -> (r: Result<(), Fault>)
        ensures
            origin + rom@.len() <= 4096 ==> r == Ok::<(), Fault>(()) && final(self)@
                == spec_loaded(old(self)@, rom@, origin),
            origin + rom@.len() > 4096 ==> r == Err::<(), Fault>(Fault::RomTooLarge)
                && final(self)@ == old(self)@,
    {
        if rom.len() > 4096 || origin as usize > 4096 - rom.len() {
            return Err(Fault::RomTooLarge);
        }
        let ghost mem0 = self@;
        let mut k: usize = 0;
        while k < rom.len()
            invariant
                0 <= k <= rom@.len(),
                origin + rom@.len() <= 4096,
                self@.len() == mem0.len() == 4096,
                forall|a: int|
                    0 <= a < 4096 ==> self@[a] == (if origin <= a < origin + k {
                        rom@[a - origin]
                    } else {
                        mem0[a]
                    }),
            decreases rom@.len() - k,
        {
            self.bytes[origin as usize + k] = rom[k];
            k = k + 1;
        }
        proof {
            assert(self@ =~= spec_loaded(mem0, rom@, origin));
        }
        Ok(())
    }

    /// Write the 16 built-in 5-byte hex-digit sprites into the reserved low
    /// region, leaving the rest of memory untouched. Must run once before any
    /// font-address lookup (Fx29) is meaningful.
    pub fn store_font(&mut self)
        ensures
            final(self)@.len() == old(self)@.len(),
            forall|d: int, k: int|
                0 <= d < 16 && 0 <= k < 5 ==> final(self)@[FONT_BASE + 5 * d + k]
                    == font_sprite(d)[k],
            forall|a: int|
                0 <= a < 4096 && !(FONT_BASE <= a < FONT_BASE + 80) ==> final(self)@[a]
                    == old(self)@[a],
    {
        let ghost mem0 = self@;
        let mut d: usize = 0;
        while d < 16
            invariant
                0 <= d <= 16,
                self@.len() == mem0.len() == 4096,
                forall|dd: int, k: int|
                    0 <= dd < d && 0 <= k < 5 ==> self@[FONT_BASE + 5 * dd + k] == font_sprite(
                        dd,
                    )[k],
                forall|a: int|
                    0 <= a < 4096 && !(FONT_BASE <= a < FONT_BASE + 5 * d) ==> self@[a] == mem0[a],
            decreases 16 - d,
        {
            let g = glyph(d as u8);
            let base = 0x50 + 5 * d;
            self.bytes[base] = g.0;
            self.bytes[base + 1] = g.1;
            self.bytes[base + 2] = g.2;
            self.bytes[base + 3] = g.3;
            self.bytes[base + 4] = g.4;
            d = d + 1;
        }
    }
}

/// The five rows of one font glyph, top to bottom.
fn glyph(d: u8) -> (g: (u8, u8, u8, u8, u8))
    requires
        d < 16,
    ensures
        g.0 == font_sprite(d as int)[0],
        g.1 == font_sprite(d as int)[1],
        g.2 == font_sprite(d as int)[2],
        g.3 == font_sprite(d as int)[3],
        g.4 == font_sprite(d as int)[4],
{
    if d == 0x0 {
        (0xF0, 0x90, 0x90, 0x90, 0xF0)
    } else if d == 0x1 {
        (0x20, 0x60, 0x20, 0x20, 0x70)
    } else if d == 0x2 {
        (0xF0, 0x10, 0xF0, 0x80, 0xF0)
    } else if d == 0x3 {
        (0xF0, 0x10, 0xF0, 0x10, 0xF0)
    } else if d == 0x4 {
        (0x90, 0x90, 0xF0, 0x10, 0x10)
    } else if d == 0x5 {
        (0xF0, 0x80, 0xF0, 0x10, 0xF0)
    } else if d == 0x6 {
        (0xF0, 0x80, 0xF0, 0x90, 0xF0)
    } else if d == 0x7 {
        (0xF0, 0x10, 0x20, 0x40, 0x40)
    } else if d == 0x8 {
        (0xF0, 0x90, 0xF0, 0x90, 0xF0)
    } else if d == 0x9 {
        (0xF0, 0x90, 0xF0, 0x10, 0xF0)
    } else if d == 0xA {
        (0xF0, 0x90, 0xF0, 0x90, 0x90)
    } else if d == 0xB {
        (0xE0, 0x90, 0xE0, 0x90, 0xE0)
    } else if d == 0xC {
        (0xF0, 0x80, 0x80, 0x80, 0xF0)
    } else if d == 0xD {
        (0xE0, 0x90, 0x90, 0x90, 0xE0)
    } else if d == 0xE {
        (0xF0, 0x80, 0xF0, 0x80, 0xF0)
    } else {
        (0xF0, 0x80, 0xF0, 0x80, 0x80)
    }
}

} // verus!
