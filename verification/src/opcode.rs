use vstd::prelude::*;

verus! {

/// One fetched 16-bit instruction word, before decoding. Operand fields are
/// extracted by fixed mask/shift arithmetic and never mutated.
#[derive(Copy, Clone)]
pub struct Opcode {
    pub code: u16,
}

/// The nibble of `code` at 4-bit-aligned position `n`, counting 1 (lowest)
/// to 4 (highest).
pub open spec fn nibble_of(code: u16, n: u16) -> u16
    recommends
        1 <= n <= 4,
{
    (code >> (((n - 1) * 4) as u16)) & 0xF
}

impl Opcode {
    pub fn new(code: u16) -> (r: Opcode)
        ensures
            r.code == code,
    {
        Opcode { code }
    }

    /// Low 12 bits: a jump or call target, or an index-load value.
    pub fn get_address(&self) -> (r: u16)
        ensures
            r == self.code & 0xFFF,
            r < 0x1000,
    {
        proof {
            let c = self.code;
            assert(c & 0xFFF < 0x1000) by (bit_vector);
        }
        self.code & 0xFFF
    }

    /// The nibble at position `nibble` (1 = lowest .. 4 = highest): a register
    /// index X or Y, or the 4-bit literal N.
    pub fn get_index_from_nibble(&self, nibble: u8) -> (r: usize)
        requires
            1 <= nibble <= 4,
        ensures
            r == nibble_of(self.code, nibble as u16),
            r < 16,
    {
        let shift: u16 = (nibble as u16 - 1) * 4;
        let code = self.code;
        proof {
            assert((code & (0xFu16 << shift)) >> shift == (code >> shift) & 0xF
                && (code >> shift) & 0xF < 16) by (bit_vector)
                requires
                    shift == 0 || shift == 4 || shift == 8 || shift == 12,
            ;
        }
        ((self.code & (0xF << shift)) >> shift) as usize
    }

    /// Low 8 bits: the immediate operand KK.
    pub fn get_low_byte(&self) -> (r: u8)
        ensures
            r == (self.code & 0xFF) as u8,
    {
        (self.code & 0xFF) as u8
    }
}

} // verus!
