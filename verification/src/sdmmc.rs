//! The driver.
use vstd::prelude::*;

use crate::block::BlockOp;
use crate::bus::{MemLayout, Protocol, Reply, Request};
use crate::cmd::Command;
use crate::dma::{DMABuffer, DMAInfo, MAX_BUFFER_SIZE};
use crate::enable::{EnableError, EnableStage, TryEnableIdmac};
use crate::idmac::{region_of, DmaRegion, SendCmdIdmac};
use crate::init::Init;
use crate::interrupt::HandleInterrupt;
use crate::send::{sendable, SendCmd};

verus! {

/// Width of the data path between the bus and the controller.
#[derive(Clone, Copy, Debug, PartialEq, Eq, Structural)]
pub enum AHBDataWidth {
    Bits16,
    Bits32,
    Bits64,
}

impl AHBDataWidth {
    /// Alignment in bytes that memory needs for this width.
    #[verifier::allow_in_spec]
    pub fn align_value(&self) -> usize
        returns
            (match self {
                AHBDataWidth::Bits16 => 2usize,
                AHBDataWidth::Bits32 => 4usize,
                AHBDataWidth::Bits64 => 8usize,
            }),
    {
        match self {
            AHBDataWidth::Bits16 => 2,
            AHBDataWidth::Bits32 => 4,
            AHBDataWidth::Bits64 => 8,
        }
    }
}

/// What a driver knows.
#[derive(Clone, Copy, Debug, PartialEq, Eq, Structural)]
pub struct SdMmcState {
    pub num_blocks: u64,
    pub dma_buffer: Option<DMABuffer>,
    pub ahb_data_width: AHBDataWidth,
}

impl SdMmcState {
    /// Size and alignment of the data buffer.
    pub open spec fn buffer_layout(self) -> MemLayout {
        MemLayout { size: SdMmc::BLOCK_SIZE, align: self.ahb_data_width.align_value() }
    }

    /// The data buffer, if there is one, holds one block.
    pub open spec fn wf(self) -> bool {
        self.dma_buffer matches Some(buffer) ==> buffer.size == SdMmc::BLOCK_SIZE
    }
}

/// Driver of an SD card behind the controller.
pub struct SdMmc {
    /// Blocks on the card; zero where that is not known.
    num_blocks: u64,
    /// Coherent memory for data; without it the CPU moves the data.
    dma_buffer: Option<DMABuffer>,
    ahb_data_width: AHBDataWidth,
}

impl View for SdMmc {
    type V = SdMmcState;

    closed spec fn view(&self) -> SdMmcState {
        SdMmcState {
            num_blocks: self.num_blocks,
            dma_buffer: self.dma_buffer,
            ahb_data_width: self.ahb_data_width,
        }
    }
}

impl SdMmc {
    /// Bytes of a block.
    pub const BLOCK_SIZE: usize = 512;

    /// Starts to set up a driver of the controller whose registers are at `base`.
    pub fn new(base: usize, ahb_data_width: AHBDataWidth) -> (op: NewSdMmc<Vec<u8>>)
        ensures
            op@ == NewSdMmc::begin(base, ahb_data_width),
            op@.wf(),
    {
        NewSdMmc {
            base,
            ahb_data_width,
            init: Init::new(0),
            enable: TryEnableIdmac::new(
                MemLayout { size: SdMmc::BLOCK_SIZE, align: ahb_data_width.align_value() },
                None,
            ),
            stage: NewStage::Publish,
        }
    }

    /// Starts to send `command`, the data of which the CPU moves.
    pub fn send_cmd(&self, command: Command<Vec<u8>>) -> (op: SendCmd<Vec<u8>>)
        requires
            sendable(command@),
        ensures
            op@ == SendCmd::begin(command@),
            op@.wf(),
    {
        SendCmd::new(command)
    }

    /// Starts to bring up the controller and the card.
    pub fn init(&self) -> (op: Init<Vec<u8>>)
        ensures
            op@ == Init::begin(self@.num_blocks),
            op@.wf(),
    {
        Init::new(self.num_blocks)
    }

    /// Takes over what a bring-up learned.
    pub fn complete_init(&mut self, op: &Init<Vec<u8>>)
        requires
            op@.result() is Some,
        ensures
            final(self)@ == (SdMmcState { num_blocks: op@.num_blocks, ..old(self)@ }),
    {
        self.num_blocks = op.num_blocks;
    }

    /// Starts to enter DMA mode.
    pub fn try_enable_idmac(&self) -> (op: TryEnableIdmac)
        ensures
            op == TryEnableIdmac::begin(self@.buffer_layout(), self@.dma_buffer),
    {
        TryEnableIdmac::new(
            MemLayout { size: SdMmc::BLOCK_SIZE, align: self.ahb_data_width.align_value() },
            self.dma_buffer,
        )
    }

    /// Takes over the data buffer from an attempt to enter DMA mode.
    pub fn complete_enable(&mut self, op: &TryEnableIdmac) -> (r: Result<(), EnableError>)
        requires
            op.result() is Some,
        ensures
            Some(r) == op.result(),
            final(self)@ == (SdMmcState { dma_buffer: op.buffer, ..old(self)@ }),
    {
        self.dma_buffer = op.buffer;
        match op.stage {
            EnableStage::Finished(outcome) => outcome,
            _ => Ok(()),
        }
    }

    /// Starts to send `command`, the data of which the IDMAC moves.
    pub fn send_cmd_idmac(&self, command: Command<DmaRegion>) -> (op: SendCmdIdmac)
        requires
            command.xfer() is Some,
            region_of(command).len as u16 <= MAX_BUFFER_SIZE,
        ensures
            op == SendCmdIdmac::begin(command),
    {
        SendCmdIdmac::new(command)
    }

    /// Starts to read a block; `buf` is what the caller's buffer holds.
    pub fn read_block(&self, block: u32, buf: &[u8; 512]) -> (op: BlockOp<Vec<u8>>)
        ensures
            op@ == BlockOp::begin(false, block, *buf, self@.dma_buffer),
            op@.wf(),
    {
        BlockOp::new(false, block, buf, self.dma_buffer)
    }

    /// Starts to write a block.
    pub fn write_block(&self, block: u32, buf: &[u8; 512]) -> (op: BlockOp<Vec<u8>>)
        ensures
            op@ == BlockOp::begin(true, block, *buf, self@.dma_buffer),
            op@.wf(),
    {
        BlockOp::new(true, block, buf, self.dma_buffer)
    }

    /// Number of blocks on the card.
    pub fn num_blocks(&self) -> (n: u64)
        ensures
            n == self@.num_blocks,
    {
        self.num_blocks
    }

    /// The data buffer, where the driver is in DMA mode.
    pub fn dma_buffer(&self) -> (buffer: Option<DMABuffer>)
        ensures
            buffer == self@.dma_buffer,
    {
        self.dma_buffer
    }

    /// Enters the handler of the controller's interrupt.
    pub fn handle_interrupt() -> (op: HandleInterrupt)
        ensures
            op == HandleInterrupt::begin(),
    {
        HandleInterrupt::new()
    }

    /// Gives up the data buffer: what is to be freed, if anything. The driver is
    /// without a buffer then.
    pub fn release(&mut self) -> (r: Option<(DMAInfo, MemLayout)>)
        ensures
            final(self)@ == (SdMmcState { dma_buffer: None, ..old(self)@ }),
            r == match old(self)@.dma_buffer {
                Some(buffer) => {
                    let layout = MemLayout {
                        size: buffer.size,
                        align: old(self)@.ahb_data_width.align_value(),
                    };
                    if layout.size + layout.align - 1 <= isize::MAX {
                        Some((buffer.addr, layout))
                    } else {
                        None
                    }
                },
                None => None,
            },
    {
        let align: usize = self.ahb_data_width.align_value();
        match self.dma_buffer.take() {
            Some(buffer) => {
                if buffer.size <= isize::MAX as usize - (align - 1) {
                    Some((buffer.addr, MemLayout { size: buffer.size, align }))
                } else {
                    None
                }
            },
            None => None,
        }
    }
}

/// Where the setup of a driver stands.
#[derive(Clone, Copy, Debug, PartialEq, Eq, Structural)]
pub enum NewStage {
    /// About to tell the interrupt handler where the registers are.
    Publish,
    /// Bringing up controller and card.
    BringUp,
    /// Entering DMA mode.
    Enable,
    /// Over.
    Finished,
}

/// The setup of a driver under way. `B` holds the bytes of a command's data.
pub struct NewSdMmc<B> {
    pub base: usize,
    pub ahb_data_width: AHBDataWidth,
    pub init: Init<B>,
    pub enable: TryEnableIdmac,
    pub stage: NewStage,
}

impl View for NewSdMmc<Vec<u8>> {
    type V = NewSdMmc<Seq<u8>>;

    open spec fn view(&self) -> NewSdMmc<Seq<u8>> {
        NewSdMmc {
            base: self.base,
            ahb_data_width: self.ahb_data_width,
            init: self.init@,
            enable: self.enable,
            stage: self.stage,
        }
    }
}

impl NewSdMmc<Seq<u8>> {
    /// A setup about to begin.
    pub open spec fn begin(base: usize, ahb_data_width: AHBDataWidth) -> Self {
        NewSdMmc {
            base,
            ahb_data_width,
            init: Init::begin(0),
            enable: TryEnableIdmac::begin(
                MemLayout { size: SdMmc::BLOCK_SIZE, align: ahb_data_width.align_value() },
                None,
            ),
            stage: NewStage::Publish,
        }
    }

    pub open spec fn wf(self) -> bool {
        self.init.wf()
    }

    /// The driver that a finished setup yields.
    pub open spec fn driver(self) -> SdMmcState {
        SdMmcState {
            num_blocks: self.init.num_blocks,
            dma_buffer: self.enable.buffer,
            ahb_data_width: self.ahb_data_width,
        }
    }
}

impl Protocol for NewSdMmc<Seq<u8>> {
    open spec fn asks(self) -> Request {
        match self.stage {
            NewStage::Publish => Request::SetBase(self.base),
            NewStage::BringUp => self.init.asks(),
            NewStage::Enable => self.enable.asks(),
            NewStage::Finished => Request::Finished,
        }
    }

    open spec fn hears(self, reply: Reply) -> Self {
        match self.stage {
            NewStage::Publish => if reply is Done {
                NewSdMmc { stage: NewStage::BringUp, ..self }
            } else {
                self
            },
            NewStage::BringUp => {
                let init = self.init.hears(reply);
                NewSdMmc {
                    init,
                    stage: if init.result() is Some {
                        NewStage::Enable
                    } else {
                        NewStage::BringUp
                    },
                    ..self
                }
            },
            NewStage::Enable => {
                let enable = self.enable.hears(reply);
                NewSdMmc {
                    enable,
                    stage: if enable.result() is Some {
                        NewStage::Finished
                    } else {
                        NewStage::Enable
                    },
                    ..self
                }
            },
            NewStage::Finished => self,
        }
    }
}

impl NewSdMmc<Vec<u8>> {
    /// The outside work that is due.
    pub fn request(&self) -> (request: Request)
        requires
            self@.wf(),
        ensures
            request == self@.asks(),
    {
        match self.stage {
            NewStage::Publish => Request::SetBase(self.base),
            NewStage::BringUp => self.init.request(),
            NewStage::Enable => self.enable.request(),
            NewStage::Finished => Request::Finished,
        }
    }

    /// Takes in the reply to the outstanding request.
    pub fn step(&mut self, reply: Reply)
        requires
            old(self)@.wf(),
        ensures
            final(self)@ == old(self)@.hears(reply),
            final(self)@.wf(),
    {
        match self.stage {
            NewStage::Publish => {
                if let Reply::Done = reply {
                    self.stage = NewStage::BringUp;
                }
            },
            NewStage::BringUp => {
                self.init.step(reply);
                if self.init.outcome().is_some() {
                    self.stage = NewStage::Enable;
                }
            },
            NewStage::Enable => {
                self.enable.step(reply);
                if self.enable.outcome().is_some() {
                    self.stage = NewStage::Finished;
                }
            },
            NewStage::Finished => {},
        }
    }

    /// Yields the driver once the setup is over. A setup always yields one: a card
    /// that did not get ready has no known blocks, and without DMA mode the CPU
    /// moves the data.
    pub fn finish(self) -> (driver: SdMmc)
        requires
            self@.stage is Finished,
        ensures
            driver@ == self@.driver(),
    {
        SdMmc {
            num_blocks: self.init.num_blocks,
            dma_buffer: self.enable.buffer,
            ahb_data_width: self.ahb_data_width,
        }
    }
}

} // verus!
