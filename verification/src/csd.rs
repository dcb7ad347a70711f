//! The card-specific data register, in its second version.
use vstd::prelude::*;

verus! {

/// The register as the controller hands it over, lowest word first.
#[derive(Clone, Copy, Debug)]
pub struct CsdV2 {
    pub words: [u32; 4],
}

impl CsdV2 {
    /// The register as one number of 128 bits.
    pub open spec fn value(self) -> int {
        self.words[0] + self.words[1] * 0x1_0000_0000 + self.words[2]
            * 0x1_0000_0000_0000_0000 + self.words[3] * 0x1_0000_0000_0000_0000_0000_0000
    }

    /// Blocks on the card: the device size, in bits 69:48, counts units of 1024
    /// blocks less one.
    pub open spec fn capacity(self) -> int {
        (self.value() / 0x1_0000_0000_0000 % 0x40_0000 + 1) * 1024
    }

    /// Number of blocks on the card.
    pub fn num_blocks(&self) -> (n: u64)
        ensures
            n == self.capacity(),
    {
        let low: u32 = self.words[1] / 0x1_0000;
        let high: u32 = self.words[2] % 0x40;
        proof {
            let w0 = self.words[0] as int;
            let w1 = self.words[1] as int;
            let w2 = self.words[2] as int;
            let w3 = self.words[3] as int;
            let rest = w1 % 0x1_0000 * 0x1_0000_0000 + w0;
            let units = w1 / 0x1_0000 + w2 * 0x1_0000 + w3 * 0x1_0000_0000_0000;
            assert(self.value() == units * 0x1_0000_0000_0000 + rest);
            assert(self.value() / 0x1_0000_0000_0000 == units);
            assert(units == w1 / 0x1_0000 + w2 % 0x40 * 0x1_0000 + (w2 / 0x40 + w3 * 0x400_0000)
                * 0x40_0000);
            assert(units % 0x40_0000 == w1 / 0x1_0000 + w2 % 0x40 * 0x1_0000);
        }
        (high as u64 * 0x1_0000 + low as u64 + 1) * 1024
    }
}

/// A card has at least 1024 blocks, and their number fits in 32 bits or just
/// exceeds them.
pub proof fn capacity_range(csd: CsdV2)
    ensures
        1024 <= csd.capacity() <= 0x1_0000_0000,
        csd.capacity() % 1024 == 0,
{
}

} // verus!
