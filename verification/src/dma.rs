//! Coherent memory and the descriptors of the internal DMA controller (IDMAC).
use vstd::prelude::*;

use crate::bits::{assign_bit, bit, test_bit, with_bit};

verus! {

/// A block of coherent memory, seen from both sides.
#[derive(Clone, Copy, Debug, PartialEq, Eq, Structural)]
pub struct DMAInfo {
    /// Virtual address through which the CPU reaches the block.
    pub cpu_addr: usize,
    /// Address of the block on the bus, as the DMA controller sees it.
    pub bus_addr: u64,
}

/// The coherent memory that data passes through in DMA mode.
#[derive(Clone, Copy, Debug, PartialEq, Eq, Structural)]
pub struct DMABuffer {
    pub addr: DMAInfo,
    /// Bytes of the memory.
    pub size: usize,
}

/// Control word of a descriptor.
///
/// | bit  | field       | meaning                                             |
/// |------|-------------|-----------------------------------------------------|
/// | 31   | `ownership` | the descriptor belongs to the IDMAC, not to the CPU |
/// | 30   | `ces`       | card error summary, set by the hardware             |
/// | 29:6 |             | reserved                                            |
/// | 5    | `er`        | end of a descriptor ring                            |
/// | 4    | `ch`        | the fourth word chains to another descriptor        |
/// | 3    | `fs`        | first buffer of the transfer                        |
/// | 2    | `ld`        | last buffer of the transfer                         |
/// | 1    | `dic`       | no interrupt when this descriptor completes         |
/// | 0    |             | reserved                                            |
#[derive(Clone, Copy, Debug, PartialEq, Eq, Structural)]
pub struct IdmacDes0 {
    pub bits: u32,
}

impl IdmacDes0 {
    /// An all-zero control word.
    #[verifier::allow_in_spec]
    pub fn new() -> Self
        returns
            (IdmacDes0 { bits: 0 }),
    {
        IdmacDes0 { bits: 0 }
    }

    /// Whether the descriptor belongs to the IDMAC.
    #[verifier::allow_in_spec]
    pub fn ownership(&self) -> bool
        returns
            bit(self.bits, 31),
    {
        test_bit(self.bits, 31)
    }

    /// Whether the transfer met a card error.
    #[verifier::allow_in_spec]
    pub fn ces(&self) -> bool
        returns
            bit(self.bits, 30),
    {
        test_bit(self.bits, 30)
    }

    /// Whether the descriptor ends a ring.
    #[verifier::allow_in_spec]
    pub fn er(&self) -> bool
        returns
            bit(self.bits, 5),
    {
        test_bit(self.bits, 5)
    }

    /// Whether the fourth word chains to another descriptor.
    #[verifier::allow_in_spec]
    pub fn ch(&self) -> bool
        returns
            bit(self.bits, 4),
    {
        test_bit(self.bits, 4)
    }

    /// Whether the descriptor holds the first buffer.
    #[verifier::allow_in_spec]
    pub fn fs(&self) -> bool
        returns
            bit(self.bits, 3),
    {
        test_bit(self.bits, 3)
    }

    /// Whether the descriptor holds the last buffer.
    #[verifier::allow_in_spec]
    pub fn ld(&self) -> bool
        returns
            bit(self.bits, 2),
    {
        test_bit(self.bits, 2)
    }

    /// Whether completion raises no interrupt.
    #[verifier::allow_in_spec]
    pub fn dic(&self) -> bool
        returns
            bit(self.bits, 1),
    {
        test_bit(self.bits, 1)
    }

    /// The word with `ownership` set to `value` and the rest kept.
    #[verifier::allow_in_spec]
    pub fn with_ownership(self, value: bool) -> Self
        returns
            (IdmacDes0 { bits: with_bit(self.bits, 31, value) }),
    {
        IdmacDes0 { bits: assign_bit(self.bits, 31, value) }
    }

    /// The word with `ces` set to `value` and the rest kept.
    #[verifier::allow_in_spec]
    pub fn with_ces(self, value: bool) -> Self
        returns
            (IdmacDes0 { bits: with_bit(self.bits, 30, value) }),
    {
        IdmacDes0 { bits: assign_bit(self.bits, 30, value) }
    }

    /// The word with `er` set to `value` and the rest kept.
    #[verifier::allow_in_spec]
    pub fn with_er(self, value: bool) -> Self
        returns
            (IdmacDes0 { bits: with_bit(self.bits, 5, value) }),
    {
        IdmacDes0 { bits: assign_bit(self.bits, 5, value) }
    }

    /// The word with `ch` set to `value` and the rest kept.
    #[verifier::allow_in_spec]
    pub fn with_ch(self, value: bool) -> Self
        returns
            (IdmacDes0 { bits: with_bit(self.bits, 4, value) }),
    {
        IdmacDes0 { bits: assign_bit(self.bits, 4, value) }
    }

    /// The word with `fs` set to `value` and the rest kept.
    #[verifier::allow_in_spec]
    pub fn with_fs(self, value: bool) -> Self
        returns
            (IdmacDes0 { bits: with_bit(self.bits, 3, value) }),
    {
        IdmacDes0 { bits: assign_bit(self.bits, 3, value) }
    }

    /// The word with `ld` set to `value` and the rest kept.
    #[verifier::allow_in_spec]
    pub fn with_ld(self, value: bool) -> Self
        returns
            (IdmacDes0 { bits: with_bit(self.bits, 2, value) }),
    {
        IdmacDes0 { bits: assign_bit(self.bits, 2, value) }
    }

    /// The word with `dic` set to `value` and the rest kept.
    #[verifier::allow_in_spec]
    pub fn with_dic(self, value: bool) -> Self
        returns
            (IdmacDes0 { bits: with_bit(self.bits, 1, value) }),
    {
        IdmacDes0 { bits: assign_bit(self.bits, 1, value) }
    }
}

impl Default for IdmacDes0 {
    fn default() -> (r: Self)
        ensures
            r == IdmacDes0::new(),
    {
        IdmacDes0::new()
    }
}

/// Length word of a descriptor: the buffer's size in bits 12:0, the rest
/// reserved.
#[derive(Clone, Copy, Debug, PartialEq, Eq, Structural)]
pub struct IdmacDes1 {
    pub bits: u32,
}

/// Largest buffer that one descriptor can describe.
pub const MAX_BUFFER_SIZE: u16 = 0x1fff;

impl IdmacDes1 {
    /// An all-zero length word.
    #[verifier::allow_in_spec]
    pub fn new() -> Self
        returns
            (IdmacDes1 { bits: 0 }),
    {
        IdmacDes1 { bits: 0 }
    }

    /// The buffer's size.
    pub fn bs1(&self) -> (size: u16)
        ensures
            size == self.bits % 0x2000,
    {
        let word: u32 = self.bits;
        assert(word & 0x1fff == word % 0x2000) by (bit_vector);
        (word & 0x1fff) as u16
    }

    /// Sets the buffer's size; the reserved bits stay as they are.
    pub fn set_bs1(&mut self, size: u16)
        requires
            size <= MAX_BUFFER_SIZE,
        ensures
            final(self).bits == old(self).bits - old(self).bits % 0x2000 + size,
    {
        let word: u32 = self.bits;
        let value: u32 = size as u32;
        assert((word & !0x1fffu32) | value == word - word % 0x2000 + value) by (bit_vector)
            requires
                value <= 0x1fff,
        ;
        self.bits = (word & !0x1fffu32) | value;
    }
}

impl Default for IdmacDes1 {
    fn default() -> (r: Self)
        ensures
            r == IdmacDes1::new(),
    {
        IdmacDes1::new()
    }
}

/// One descriptor, four words in the order in which the IDMAC fetches them.
#[derive(Clone, Copy, Debug, PartialEq, Eq, Structural)]
pub struct IdmacDescriptor {
    /// Control word: ownership and the buffer's place in the transfer.
    pub des0: IdmacDes0,
    /// Length of the buffer.
    pub des1: IdmacDes1,
    /// Bus address of the buffer.
    pub des2: u32,
    /// Bus address of the next descriptor.
    pub des3: u32,
}

/// The control word with the given fields and nothing else in it.
pub open spec fn control_word(
    own: bool,
    ces: bool,
    er: bool,
    ch: bool,
    fs: bool,
    ld: bool,
    dic: bool,
) -> IdmacDes0 {
    IdmacDes0::new().with_ownership(own).with_ces(ces).with_er(er).with_ch(ch).with_fs(fs).with_ld(
        ld,
    ).with_dic(dic)
}

/// Bits of the control word that no field uses.
pub const DES0_RESERVED: u32 = 0x3fff_ffc1;

impl IdmacDescriptor {
    /// A descriptor with every word zero.
    pub fn new() -> (r: Self)
        ensures
            r == (IdmacDescriptor {
                des0: IdmacDes0::new(),
                des1: IdmacDes1::new(),
                des2: 0,
                des3: 0,
            }),
    {
        IdmacDescriptor {
            des0: IdmacDes0::default(),
            des1: IdmacDes1::default(),
            des2: 0,
            des3: 0,
        }
    }

    /// Writes the control word afresh: each field as given, reserved bits zero.
    pub fn set_desc0_control_descriptor(
        &mut self,
        own: bool,
        ces: bool,
        er: bool,
        ch: bool,
        fs: bool,
        ld: bool,
        dic: bool,
    )
        ensures
            final(self).des0 == control_word(own, ces, er, ch, fs, ld, dic),
            final(self).des0.ownership() == own,
            final(self).des0.ces() == ces,
            final(self).des0.er() == er,
            final(self).des0.ch() == ch,
            final(self).des0.fs() == fs,
            final(self).des0.ld() == ld,
            final(self).des0.dic() == dic,
            final(self).des0.bits & DES0_RESERVED == 0,
            final(self).des1 == old(self).des1,
            final(self).des2 == old(self).des2,
            final(self).des3 == old(self).des3,
    {
        self.des0 =
        IdmacDes0::new().with_ownership(own).with_ces(ces).with_er(er).with_ch(ch).with_fs(
            fs,
        ).with_ld(ld).with_dic(dic);
        proof {
            lemma_control_word(own, ces, er, ch, fs, ld, dic);
        }
    }

    /// Sets the buffer's length.
    pub fn set_des1_buffer1_size(&mut self, size: u16)
        requires
            size <= MAX_BUFFER_SIZE,
        ensures
            *final(self) == (IdmacDescriptor {
                des1: IdmacDes1 {
                    bits: (old(self).des1.bits - old(self).des1.bits % 0x2000 + size) as u32,
                },
                ..*old(self)
            }),
    {
        self.des1.set_bs1(size);
    }

    /// Sets the buffer's bus address.
    pub fn set_des2_buffer1_address(&mut self, addr: u32)
        ensures
            *final(self) == (IdmacDescriptor { des2: addr, ..*old(self) }),
    {
        self.des2 = addr;
    }

    /// Sets the next descriptor's bus address.
    pub fn set_des3_next_descriptor_address(&mut self, addr: u32)
        ensures
            *final(self) == (IdmacDescriptor { des3: addr, ..*old(self) }),
    {
        self.des3 = addr;
    }
}

/// Fields written one after the other do not disturb each other.
pub proof fn lemma_control_word(
    own: bool,
    ces: bool,
    er: bool,
    ch: bool,
    fs: bool,
    ld: bool,
    dic: bool,
)
    ensures
        ({
            let r = control_word(own, ces, er, ch, fs, ld, dic);
            &&& r.ownership() == own
            &&& r.ces() == ces
            &&& r.er() == er
            &&& r.ch() == ch
            &&& r.fs() == fs
            &&& r.ld() == ld
            &&& r.dic() == dic
            &&& r.bits & DES0_RESERVED == 0
        }),
{
    let w1: u32 = with_bit(0, 31, own);
    let w2: u32 = with_bit(w1, 30, ces);
    let w3: u32 = with_bit(w2, 5, er);
    let w4: u32 = with_bit(w3, 4, ch);
    let w5: u32 = with_bit(w4, 3, fs);
    let w6: u32 = with_bit(w5, 2, ld);
    let w7: u32 = with_bit(w6, 1, dic);
    assert(bit(w7, 31) == own && bit(w7, 30) == ces && bit(w7, 5) == er && bit(w7, 4) == ch && bit(
        w7,
        3,
    ) == fs && bit(w7, 2) == ld && bit(w7, 1) == dic && w7 & 0x3fff_ffc1u32 == 0) by (bit_vector)
        requires
            w1 == with_bit(0, 31, own),
            w2 == with_bit(w1, 30, ces),
            w3 == with_bit(w2, 5, er),
            w4 == with_bit(w3, 4, ch),
            w5 == with_bit(w4, 3, fs),
            w6 == with_bit(w5, 2, ld),
            w7 == with_bit(w6, 1, dic),
    ;
}

} // verus!
