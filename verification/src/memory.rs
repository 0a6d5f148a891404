use vstd::prelude::*;

verus! {

/// Byte-addressable storage as the instruction engine sees it, viewed in
/// specifications as a sequence of bytes. Callers guarantee bounds: an
/// address out of range is excluded by the contracts, never wrapped.
pub trait Memory {
    spec fn contents(&self) -> Seq<u8>;

    fn read_byte(&self, address: u16) -> (r: u8)
        requires
            address < self.contents().len(),
        ensures
            r == self.contents()[address as int],
    ;

    fn write_byte(&mut self, address: u16, value: u8)
        requires
            address < old(self).contents().len(),
        ensures
            final(self).contents() == old(self).contents().update(address as int, value),
    ;

    fn read_block(&self, address: u16, size: usize) -> (r: Vec<u8>)
        requires
            address + size <= self.contents().len(),
        ensures
            r@ == self.contents().subrange(address as int, address + size),
    ;
}

/// A flat store of 4096 bytes backing both program code and data. The ROM is
/// copied in starting at offset 0x200; the bytes below that offset are
/// reserved and stay zero.
pub struct BlockMemory {
    pub memory: [u8; 4096],
}

impl BlockMemory {
    /// Fresh memory holding the given ROM image at offset 0x200 and zeroes
    /// everywhere else.
    pub fn new(rom: &[u8]) -> (r: BlockMemory)
        requires
            rom@.len() <= 4096 - 0x200,
        ensures
            r.contents().len() == 4096,
            forall|k: int| 0 <= k < 0x200 ==> r.contents()[k] == 0,
            forall|k: int| 0 <= k < rom@.len() ==> r.contents()[0x200 + k] == rom@[k],
            forall|k: int| 0x200 + rom@.len() <= k < 4096 ==> r.contents()[k] == 0,
    {
        let mut memory = BlockMemory { memory: [0; 4096] };
        memory.load_rom(rom);
        memory
    }

    fn load_rom(&mut self, rom: &[u8])
        requires
            rom@.len() <= 4096 - 0x200,
            forall|k: int| 0 <= k < 4096 ==> old(self).memory@[k] == 0,
        ensures
            forall|k: int| 0 <= k < 0x200 ==> final(self).memory@[k] == 0,
            forall|k: int| 0 <= k < rom@.len() ==> final(self).memory@[0x200 + k] == rom@[k],
            forall|k: int| 0x200 + rom@.len() <= k < 4096 ==> final(self).memory@[k] == 0,
    {
        let size = rom.len();
        let mut i: usize = 0;
        while i < size
            invariant
                i <= size,
                size == rom@.len(),
                size <= 4096 - 0x200,
                forall|k: int| 0 <= k < 0x200 ==> self.memory@[k] == 0,
                forall|k: int| 0 <= k < i ==> self.memory@[0x200 + k] == rom@[k],
                forall|k: int| 0x200 + i <= k < 4096 ==> self.memory@[k] == 0,
            decreases size - i,
        {
            self.memory[0x200 + i] = rom[i];
            i += 1;
        }
    }
}

impl Memory for BlockMemory {
    open spec fn contents(&self) -> Seq<u8> {
        self.memory@
    }

    fn read_byte(&self, address: u16) -> (r: u8) {
        self.memory[address as usize]
    }

    fn write_byte(&mut self, address: u16, value: u8) {
        self.memory[address as usize] = value;
    }

    fn read_block(&self, address: u16, size: usize) -> (r: Vec<u8>) {
        let mut block: Vec<u8> = Vec::new();
        let mut i: usize = 0;
        while i < size
            invariant
                i <= size,
                address + size <= self.memory@.len(),
                block@ == self.memory@.subrange(address as int, address + i),
            decreases size - i,
        {
            block.push(self.memory[address as usize + i]);
            proof {
                assert(block@ =~= self.memory@.subrange(address as int, address + i + 1));
            }
            i += 1;
        }
        block
    }
}

} // verus!
