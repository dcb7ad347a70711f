//! Registers of the DesignWare mobile storage host controller.
//!
//! A register is a 32-bit word; only the fields that the driver touches have
//! accessors. An update of one field keeps all the others.
use vstd::prelude::*;

use crate::bits::{assign_bit, bit, test_bit, with_bit};

verus! {

/// A register, by name.
#[derive(Clone, Copy, Debug, PartialEq, Eq, Structural)]
pub enum Reg {
    /// Control.
    Ctrl,
    /// Power enable.
    Pwren,
    /// Clock divider.
    Clkdiv,
    /// Clock enable.
    Clkena,
    /// Card type, that is the width of the data bus.
    Ctype,
    /// Block size.
    Blksiz,
    /// Byte count.
    Bytcnt,
    /// Interrupt mask.
    Intmask,
    /// Command argument.
    Cmdarg,
    /// Command.
    Cmd,
    /// Raw interrupt status; writing ones clears them.
    Rintsts,
    /// Controller status.
    Status,
    /// Bus mode.
    Bmod,
    /// Poll demand: any write wakes the IDMAC.
    Pldmnd,
    /// Base address of the descriptor list.
    Dbaddr,
    /// IDMAC status; writing ones clears them.
    Idsts,
    /// IDMAC interrupt enable.
    Idinten,
}

/// Byte offset of the four response registers.
pub const RESP_OFFSET: usize = 0x30;

/// Byte offset of the data FIFO.
pub const FIFO_OFFSET: usize = 0x200;

impl Reg {
    /// Byte offset from the start of the register block.
    #[verifier::allow_in_spec]
    pub fn offset(&self) -> usize
        returns
            (match self {
                Reg::Ctrl => 0x00usize,
                Reg::Pwren => 0x04usize,
                Reg::Clkdiv => 0x08usize,
                Reg::Clkena => 0x10usize,
                Reg::Ctype => 0x18usize,
                Reg::Blksiz => 0x1cusize,
                Reg::Bytcnt => 0x20usize,
                Reg::Intmask => 0x24usize,
                Reg::Cmdarg => 0x28usize,
                Reg::Cmd => 0x2cusize,
                Reg::Rintsts => 0x44usize,
                Reg::Status => 0x48usize,
                Reg::Bmod => 0x80usize,
                Reg::Pldmnd => 0x84usize,
                Reg::Dbaddr => 0x88usize,
                Reg::Idsts => 0x8cusize,
                Reg::Idinten => 0x90usize,
            }),
    {
        match self {
            Reg::Ctrl => 0x00usize,
            Reg::Pwren => 0x04usize,
            Reg::Clkdiv => 0x08usize,
            Reg::Clkena => 0x10usize,
            Reg::Ctype => 0x18usize,
            Reg::Blksiz => 0x1cusize,
            Reg::Bytcnt => 0x20usize,
            Reg::Intmask => 0x24usize,
            Reg::Cmdarg => 0x28usize,
            Reg::Cmd => 0x2cusize,
            Reg::Rintsts => 0x44usize,
            Reg::Status => 0x48usize,
            Reg::Bmod => 0x80usize,
            Reg::Pldmnd => 0x84usize,
            Reg::Dbaddr => 0x88usize,
            Reg::Idsts => 0x8cusize,
            Reg::Idinten => 0x90usize,
        }
    }
}

/// No two registers share an offset, and none reaches into the response
/// registers or the FIFO.
pub proof fn registers_do_not_overlap(a: Reg, b: Reg)
    ensures
        a.offset() == b.offset() ==> a == b,
        a.offset() % 4 == 0,
        a.offset() + 4 <= RESP_OFFSET || RESP_OFFSET + 16 <= a.offset(),
        a.offset() + 4 <= FIFO_OFFSET,
{
}

/// Control register.
#[derive(Clone, Copy, Debug, PartialEq, Eq, Structural)]
pub struct Ctrl {
    pub bits: u32,
}

impl Ctrl {
    /// Whether a reset of the DMA interface is under way.
    #[verifier::allow_in_spec]
    pub fn dma_reset(&self) -> bool
        returns
            bit(self.bits, 2),
    {
        test_bit(self.bits, 2)
    }

    /// Whether interrupts are enabled globally.
    #[verifier::allow_in_spec]
    pub fn int_enable(&self) -> bool
        returns
            bit(self.bits, 4),
    {
        test_bit(self.bits, 4)
    }

    /// Whether data moves through the IDMAC.
    #[verifier::allow_in_spec]
    pub fn use_internal_dmac(&self) -> bool
        returns
            bit(self.bits, 25),
    {
        test_bit(self.bits, 25)
    }

    /// The word with `dma_reset` set to `value` and the rest kept.
    #[verifier::allow_in_spec]
    pub fn with_dma_reset(self, value: bool) -> Self
        returns
            (Ctrl { bits: with_bit(self.bits, 2, value) }),
    {
        Ctrl { bits: assign_bit(self.bits, 2, value) }
    }

    /// The word with `int_enable` set to `value` and the rest kept.
    #[verifier::allow_in_spec]
    pub fn with_int_enable(self, value: bool) -> Self
        returns
            (Ctrl { bits: with_bit(self.bits, 4, value) }),
    {
        Ctrl { bits: assign_bit(self.bits, 4, value) }
    }

    /// The word with `use_internal_dmac` set to `value` and the rest kept.
    #[verifier::allow_in_spec]
    pub fn with_use_internal_dmac(self, value: bool) -> Self
        returns
            (Ctrl { bits: with_bit(self.bits, 25, value) }),
    {
        Ctrl { bits: assign_bit(self.bits, 25, value) }
    }
}

/// Bus mode register.
#[derive(Clone, Copy, Debug, PartialEq, Eq, Structural)]
pub struct BMod {
    pub bits: u32,
}

impl BMod {
    /// Whether a software reset of the IDMAC is under way.
    #[verifier::allow_in_spec]
    pub fn swr(&self) -> bool
        returns
            bit(self.bits, 0),
    {
        test_bit(self.bits, 0)
    }

    /// Whether bursts have a fixed length.
    #[verifier::allow_in_spec]
    pub fn fb(&self) -> bool
        returns
            bit(self.bits, 1),
    {
        test_bit(self.bits, 1)
    }

    /// Whether the IDMAC is enabled.
    #[verifier::allow_in_spec]
    pub fn de(&self) -> bool
        returns
            bit(self.bits, 7),
    {
        test_bit(self.bits, 7)
    }

    /// The word with `swr` set to `value` and the rest kept.
    #[verifier::allow_in_spec]
    pub fn with_swr(self, value: bool) -> Self
        returns
            (BMod { bits: with_bit(self.bits, 0, value) }),
    {
        BMod { bits: assign_bit(self.bits, 0, value) }
    }

    /// The word with `fb` set to `value` and the rest kept.
    #[verifier::allow_in_spec]
    pub fn with_fb(self, value: bool) -> Self
        returns
            (BMod { bits: with_bit(self.bits, 1, value) }),
    {
        BMod { bits: assign_bit(self.bits, 1, value) }
    }

    /// The word with `de` set to `value` and the rest kept.
    #[verifier::allow_in_spec]
    pub fn with_de(self, value: bool) -> Self
        returns
            (BMod { bits: with_bit(self.bits, 7, value) }),
    {
        BMod { bits: assign_bit(self.bits, 7, value) }
    }
}

/// Interrupt mask register.
#[derive(Clone, Copy, Debug, PartialEq, Eq, Structural)]
pub struct IntMask {
    pub bits: u32,
}

impl IntMask {
    /// Whether the end of a data transfer interrupts.
    #[verifier::allow_in_spec]
    pub fn dto(&self) -> bool
        returns
            bit(self.bits, 3),
    {
        test_bit(self.bits, 3)
    }

    /// The word with `dto` set to `value` and the rest kept.
    #[verifier::allow_in_spec]
    pub fn with_dto(self, value: bool) -> Self
        returns
            (IntMask { bits: with_bit(self.bits, 3, value) }),
    {
        IntMask { bits: assign_bit(self.bits, 3, value) }
    }
}

/// Controller status register.
#[derive(Clone, Copy, Debug, PartialEq, Eq, Structural)]
pub struct Status {
    pub bits: u32,
}

impl Status {
    /// Whether the card holds the data line busy.
    #[verifier::allow_in_spec]
    pub fn data_busy(&self) -> bool
        returns
            bit(self.bits, 9),
    {
        test_bit(self.bits, 9)
    }

    /// Number of words in the FIFO, bits 29:17.
    #[verifier::allow_in_spec]
    pub fn fifo_count(&self) -> u32
        returns
            (self.bits >> 17) & 0x1fff,
    {
        (self.bits >> 17) & 0x1fff
    }
}

/// Block size register.
#[derive(Clone, Copy, Debug, PartialEq, Eq, Structural)]
pub struct BlkSiz {
    pub bits: u32,
}

impl BlkSiz {
    /// The word with `size` in bits 15:0 and the rest kept.
    #[verifier::allow_in_spec]
    pub fn with_block_size(self, size: u16) -> Self
        returns
            (BlkSiz { bits: (self.bits & 0xffff_0000) | size as u32 }),
    {
        BlkSiz { bits: (self.bits & 0xffff_0000) | size as u32 }
    }
}

/// IDMAC interrupt enable register.
#[derive(Clone, Copy, Debug, PartialEq, Eq, Structural)]
pub struct IdIntEn {
    pub bits: u32,
}

impl IdIntEn {
    /// The word with every bit clear.
    #[verifier::allow_in_spec]
    pub fn new() -> Self
        returns
            (IdIntEn { bits: 0 }),
    {
        IdIntEn { bits: 0 }
    }

    /// Transmit complete.
    #[verifier::allow_in_spec]
    pub fn ti(&self) -> bool
        returns
            bit(self.bits, 0),
    {
        test_bit(self.bits, 0)
    }

    /// Receive complete.
    #[verifier::allow_in_spec]
    pub fn ri(&self) -> bool
        returns
            bit(self.bits, 1),
    {
        test_bit(self.bits, 1)
    }

    /// Fatal bus error.
    #[verifier::allow_in_spec]
    pub fn fbe(&self) -> bool
        returns
            bit(self.bits, 2),
    {
        test_bit(self.bits, 2)
    }

    /// Descriptor unavailable.
    #[verifier::allow_in_spec]
    pub fn du(&self) -> bool
        returns
            bit(self.bits, 4),
    {
        test_bit(self.bits, 4)
    }

    /// Card error summary.
    #[verifier::allow_in_spec]
    pub fn ces(&self) -> bool
        returns
            bit(self.bits, 5),
    {
        test_bit(self.bits, 5)
    }

    /// Normal interrupt summary.
    #[verifier::allow_in_spec]
    pub fn ni(&self) -> bool
        returns
            bit(self.bits, 8),
    {
        test_bit(self.bits, 8)
    }

    /// Abnormal interrupt summary.
    #[verifier::allow_in_spec]
    pub fn ai(&self) -> bool
        returns
            bit(self.bits, 9),
    {
        test_bit(self.bits, 9)
    }

    /// The word with `ti` set to `value` and the rest kept.
    #[verifier::allow_in_spec]
    pub fn with_ti(self, value: bool) -> Self
        returns
            (IdIntEn { bits: with_bit(self.bits, 0, value) }),
    {
        IdIntEn { bits: assign_bit(self.bits, 0, value) }
    }

    /// The word with `ri` set to `value` and the rest kept.
    #[verifier::allow_in_spec]
    pub fn with_ri(self, value: bool) -> Self
        returns
            (IdIntEn { bits: with_bit(self.bits, 1, value) }),
    {
        IdIntEn { bits: assign_bit(self.bits, 1, value) }
    }

    /// The word with `fbe` set to `value` and the rest kept.
    #[verifier::allow_in_spec]
    pub fn with_fbe(self, value: bool) -> Self
        returns
            (IdIntEn { bits: with_bit(self.bits, 2, value) }),
    {
        IdIntEn { bits: assign_bit(self.bits, 2, value) }
    }

    /// The word with `du` set to `value` and the rest kept.
    #[verifier::allow_in_spec]
    pub fn with_du(self, value: bool) -> Self
        returns
            (IdIntEn { bits: with_bit(self.bits, 4, value) }),
    {
        IdIntEn { bits: assign_bit(self.bits, 4, value) }
    }

    /// The word with `ces` set to `value` and the rest kept.
    #[verifier::allow_in_spec]
    pub fn with_ces(self, value: bool) -> Self
        returns
            (IdIntEn { bits: with_bit(self.bits, 5, value) }),
    {
        IdIntEn { bits: assign_bit(self.bits, 5, value) }
    }

    /// The word with `ni` set to `value` and the rest kept.
    #[verifier::allow_in_spec]
    pub fn with_ni(self, value: bool) -> Self
        returns
            (IdIntEn { bits: with_bit(self.bits, 8, value) }),
    {
        IdIntEn { bits: assign_bit(self.bits, 8, value) }
    }

    /// The word with `ai` set to `value` and the rest kept.
    #[verifier::allow_in_spec]
    pub fn with_ai(self, value: bool) -> Self
        returns
            (IdIntEn { bits: with_bit(self.bits, 9, value) }),
    {
        IdIntEn { bits: assign_bit(self.bits, 9, value) }
    }
}

/// IDMAC status register.
#[derive(Clone, Copy, Debug, PartialEq, Eq, Structural)]
pub struct IdSts {
    pub bits: u32,
}

impl IdSts {
    /// The word with every bit clear.
    #[verifier::allow_in_spec]
    pub fn new() -> Self
        returns
            (IdSts { bits: 0 }),
    {
        IdSts { bits: 0 }
    }

    /// Transmit complete.
    #[verifier::allow_in_spec]
    pub fn ti(&self) -> bool
        returns
            bit(self.bits, 0),
    {
        test_bit(self.bits, 0)
    }

    /// Receive complete.
    #[verifier::allow_in_spec]
    pub fn ri(&self) -> bool
        returns
            bit(self.bits, 1),
    {
        test_bit(self.bits, 1)
    }

    /// Fatal bus error.
    #[verifier::allow_in_spec]
    pub fn fbe(&self) -> bool
        returns
            bit(self.bits, 2),
    {
        test_bit(self.bits, 2)
    }

    /// Descriptor unavailable.
    #[verifier::allow_in_spec]
    pub fn du(&self) -> bool
        returns
            bit(self.bits, 4),
    {
        test_bit(self.bits, 4)
    }

    /// Card error summary.
    #[verifier::allow_in_spec]
    pub fn ces(&self) -> bool
        returns
            bit(self.bits, 5),
    {
        test_bit(self.bits, 5)
    }

    /// Normal interrupt summary.
    #[verifier::allow_in_spec]
    pub fn nis(&self) -> bool
        returns
            bit(self.bits, 8),
    {
        test_bit(self.bits, 8)
    }

    /// Abnormal interrupt summary.
    #[verifier::allow_in_spec]
    pub fn ais(&self) -> bool
        returns
            bit(self.bits, 9),
    {
        test_bit(self.bits, 9)
    }

    /// The word with `du` set to `value` and the rest kept.
    #[verifier::allow_in_spec]
    pub fn with_du(self, value: bool) -> Self
        returns
            (IdSts { bits: with_bit(self.bits, 4, value) }),
    {
        IdSts { bits: assign_bit(self.bits, 4, value) }
    }

    /// Whether the IDMAC met an error that ends the transfer.
    #[verifier::allow_in_spec]
    pub fn failed(&self) -> bool
        returns
            self.fbe() || self.du() || self.ces(),
    {
        self.fbe() || self.du() || self.ces()
    }

    /// Whether any interrupt cause is recorded.
    #[verifier::allow_in_spec]
    pub fn pending(&self) -> bool
        returns
            self.ais() || self.nis() || self.ces() || self.du() || self.fbe() || self.ri()
                || self.ti(),
    {
        self.ais() || self.nis() || self.ces() || self.du() || self.fbe() || self.ri() || self.ti()
    }
}

/// Error bits of the raw interrupt status: end bit (15), start bit (13),
/// hardware locked write (12), FIFO under- or overrun (11), host timeout (10),
/// data read timeout (9), response timeout (8), data CRC (7), response CRC (6)
/// and response error (1).
pub const RINTSTS_ERRORS: u32 = 0xbfc2;

/// Raw interrupt status register.
#[derive(Clone, Copy, Debug, PartialEq, Eq, Structural)]
pub struct RIntSts {
    pub bits: u32,
}

impl RIntSts {
    /// The word with every bit clear.
    #[verifier::allow_in_spec]
    pub fn new() -> Self
        returns
            (RIntSts { bits: 0 }),
    {
        RIntSts { bits: 0 }
    }

    /// The command was sent and, where one is due, its response received.
    #[verifier::allow_in_spec]
    pub fn command_done(&self) -> bool
        returns
            bit(self.bits, 2),
    {
        test_bit(self.bits, 2)
    }

    /// The data transfer has ended.
    #[verifier::allow_in_spec]
    pub fn data_transfer_over(&self) -> bool
        returns
            bit(self.bits, 3),
    {
        test_bit(self.bits, 3)
    }

    /// The transmit FIFO wants data.
    #[verifier::allow_in_spec]
    pub fn transmit_fifo_data_request(&self) -> bool
        returns
            bit(self.bits, 4),
    {
        test_bit(self.bits, 4)
    }

    /// The receive FIFO holds data.
    #[verifier::allow_in_spec]
    pub fn receive_fifo_data_request(&self) -> bool
        returns
            bit(self.bits, 5),
    {
        test_bit(self.bits, 5)
    }

    /// The word with `data_transfer_over` set to `value` and the rest kept.
    #[verifier::allow_in_spec]
    pub fn with_data_transfer_over(self, value: bool) -> Self
        returns
            (RIntSts { bits: with_bit(self.bits, 3, value) }),
    {
        RIntSts { bits: assign_bit(self.bits, 3, value) }
    }

    /// The word with `transmit_fifo_data_request` set to `value` and the rest kept.
    #[verifier::allow_in_spec]
    pub fn with_transmit_fifo_data_request(self, value: bool) -> Self
        returns
            (RIntSts { bits: with_bit(self.bits, 4, value) }),
    {
        RIntSts { bits: assign_bit(self.bits, 4, value) }
    }

    /// The word with `receive_fifo_data_request` set to `value` and the rest kept.
    #[verifier::allow_in_spec]
    pub fn with_receive_fifo_data_request(self, value: bool) -> Self
        returns
            (RIntSts { bits: with_bit(self.bits, 5, value) }),
    {
        RIntSts { bits: assign_bit(self.bits, 5, value) }
    }

    /// Whether any error is recorded.
    #[verifier::allow_in_spec]
    pub fn error(&self) -> bool
        returns
            self.bits & RINTSTS_ERRORS != 0,
    {
        self.bits & RINTSTS_ERRORS != 0
    }

    /// Whether any interrupt cause is recorded.
    #[verifier::allow_in_spec]
    pub fn pending(&self) -> bool
        returns
            self.bits != 0,
    {
        self.bits != 0
    }
}

} // verus!
