//! Reading and writing one block.
use vstd::prelude::*;

use crate::bus::{Protocol, Reply, Request};
use crate::cmd::{Command, DataXfer};
use crate::dma::{DMABuffer, DMAInfo};
use crate::idmac::{DmaRegion, IdmacOutcome, SendCmdIdmac};
use crate::regs::{BlkSiz, Reg};
use crate::send::SendCmd;

verus! {

/// Bytes of a block.
pub const BLOCK_BYTES: usize = 512;

/// How a block transfer ended.
#[derive(Clone, Copy, Debug, PartialEq, Eq, Structural)]
pub enum BlockOutcome {
    /// The block was moved.
    Moved,
    /// There was no memory for a DMA descriptor.
    NoDescriptor,
    /// The command failed.
    Failed,
}

/// Where a block transfer stands.
#[derive(Clone, Copy, Debug)]
pub enum BlockStage {
    /// About to set block size and byte count.
    ReadSize,
    WriteSize(BlkSiz),
    WriteCount,
    /// About to copy the block into the DMA buffer.
    CopyIn(DMAInfo),
    /// The command is on its way.
    Move,
    /// About to copy the block out of the DMA buffer.
    CopyOut(DMAInfo),
    /// Over.
    Finished(BlockOutcome),
}

/// How the data moves.
pub enum Route<B> {
    /// By the CPU, through the FIFO.
    Pio(SendCmd<B>),
    /// By the IDMAC, through coherent memory.
    Dma(DMAInfo, SendCmdIdmac),
}

/// A transfer of one block under way. `B` holds the bytes of a command's data.
pub struct BlockOp<B> {
    /// Whether the block goes to the card.
    pub write: bool,
    /// The block to write, or that the caller had before the read; after a read
    /// by DMA, the block that was read.
    pub data: [u8; BLOCK_BYTES],
    pub route: Route<B>,
    pub stage: BlockStage,
}

impl View for Route<Vec<u8>> {
    type V = Route<Seq<u8>>;

    open spec fn view(&self) -> Route<Seq<u8>> {
        match self {
            Route::Pio(command) => Route::Pio(command@),
            Route::Dma(memory, command) => Route::Dma(*memory, *command),
        }
    }
}

impl View for BlockOp<Vec<u8>> {
    type V = BlockOp<Seq<u8>>;

    open spec fn view(&self) -> BlockOp<Seq<u8>> {
        BlockOp { write: self.write, data: self.data, route: self.route@, stage: self.stage }
    }
}

/// The command that reads or writes `block`.
pub open spec fn block_command<B>(write: bool, block: u32, buf: B) -> Command<B> {
    if write {
        Command::WriteSingleBlock(block, buf)
    } else {
        Command::ReadSingleBlock(block, buf)
    }
}

/// The part of the DMA buffer that holds a block, as the IDMAC sees it.
pub open spec fn block_region(memory: DMAInfo) -> DmaRegion {
    DmaRegion { addr: memory.bus_addr as usize, len: BLOCK_BYTES }
}

impl BlockOp<Seq<u8>> {
    /// A transfer about to begin: by DMA where the driver has a buffer for it, and
    /// by the CPU where it has none.
    pub open spec fn begin(
        write: bool,
        block: u32,
        data: [u8; BLOCK_BYTES],
        buffer: Option<DMABuffer>,
    ) -> Self {
        BlockOp {
            write,
            data,
            route: match buffer {
                Some(buffer) => Route::Dma(
                    buffer.addr,
                    SendCmdIdmac::begin(block_command(write, block, block_region(buffer.addr))),
                ),
                None => Route::Pio(SendCmd::begin(block_command(write, block, data@))),
            },
            stage: BlockStage::ReadSize,
        }
    }

    /// A command whose data the CPU moves has one block of it.
    pub open spec fn wf(self) -> bool {
        self.route matches Route::Pio(command) ==> {
            &&& command.wf()
            &&& command.xfer matches Some(xfer)
            &&& xfer.bytes().len() == BLOCK_BYTES
            &&& xfer is Write <==> self.write
        }
    }

    /// The transfer moved on to `stage`.
    pub open spec fn at(self, stage: BlockStage) -> Self {
        BlockOp { stage, ..self }
    }

    /// The transaction is sized: a block to be written by DMA is copied first.
    pub open spec fn once_sized(self) -> Self {
        match self.route {
            Route::Dma(memory, _) if self.write => self.at(BlockStage::CopyIn(memory)),
            _ => self.at(BlockStage::Move),
        }
    }

    /// The command on its way took in a reply.
    pub open spec fn moving(self, reply: Reply) -> Self {
        match self.route {
            Route::Pio(command) => {
                let moved = command.hears(reply);
                BlockOp {
                    route: Route::Pio(moved),
                    stage: match moved.result() {
                        None => BlockStage::Move,
                        Some(None) => BlockStage::Finished(BlockOutcome::Failed),
                        Some(Some(_)) => BlockStage::Finished(BlockOutcome::Moved),
                    },
                    ..self
                }
            },
            Route::Dma(memory, command) => {
                let moved = command.hears(reply);
                BlockOp {
                    route: Route::Dma(memory, moved),
                    stage: match moved.result() {
                        None => BlockStage::Move,
                        Some(IdmacOutcome::NoDescriptor) => BlockStage::Finished(
                            BlockOutcome::NoDescriptor,
                        ),
                        Some(IdmacOutcome::Failed) => BlockStage::Finished(BlockOutcome::Failed),
                        Some(IdmacOutcome::Response(_)) => if self.write {
                            BlockStage::Finished(BlockOutcome::Moved)
                        } else {
                            BlockStage::CopyOut(memory)
                        },
                    },
                    ..self
                }
            },
        }
    }

    /// The outcome, once there is one.
    pub open spec fn result(self) -> Option<BlockOutcome> {
        match self.stage {
            BlockStage::Finished(outcome) => Some(outcome),
            _ => None,
        }
    }

    /// The block that the caller gets.
    pub open spec fn received(self) -> Seq<u8> {
        match self.route {
            Route::Pio(command) => command.xfer->Some_0.bytes(),
            Route::Dma(_, _) => self.data@,
        }
    }
}

impl Protocol for BlockOp<Seq<u8>> {
    open spec fn asks(self) -> Request {
        match self.stage {
            BlockStage::ReadSize => Request::Read(Reg::Blksiz),
            BlockStage::WriteSize(size) => Request::Write(Reg::Blksiz, size.bits),
            BlockStage::WriteCount => Request::Write(Reg::Bytcnt, BLOCK_BYTES as u32),
            BlockStage::CopyIn(buffer) => Request::CopyToDma(buffer, self.data),
            BlockStage::Move => match self.route {
                Route::Pio(command) => command.asks(),
                Route::Dma(_, command) => command.asks(),
            },
            BlockStage::CopyOut(buffer) => Request::CopyFromDma(buffer),
            BlockStage::Finished(_) => Request::Finished,
        }
    }

    open spec fn hears(self, reply: Reply) -> Self {
        match (self.stage, reply) {
            (BlockStage::ReadSize, Reply::Word(word)) => self.at(
                BlockStage::WriteSize((BlkSiz { bits: word }).with_block_size(BLOCK_BYTES as u16)),
            ),
            (BlockStage::WriteSize(_), Reply::Done) => self.at(BlockStage::WriteCount),
            (BlockStage::WriteCount, Reply::Done) => self.once_sized(),
            (BlockStage::CopyIn(_), Reply::Done) => self.at(BlockStage::Move),
            (BlockStage::Move, _) => self.moving(reply),
            (BlockStage::CopyOut(_), Reply::Block(data)) => BlockOp {
                data,
                stage: BlockStage::Finished(BlockOutcome::Moved),
                ..self
            },
            _ => self,
        }
    }
}

/// The bytes of a block in a vector.
fn to_vec(data: &[u8; BLOCK_BYTES]) -> (buf: Vec<u8>)
    ensures
        buf@ == data@,
{
    let mut buf: Vec<u8> = Vec::new();
    let mut i: usize = 0;
    while i < BLOCK_BYTES
        invariant
            i <= BLOCK_BYTES,
            buf@ == data@.take(i as int),
        decreases BLOCK_BYTES - i,
    {
        buf.push(data[i]);
        i += 1;
    }
    assert(data@.take(512) =~= data@);
    buf
}

/// Copies the bytes of a block out of a vector.
fn copy_block(from: &Vec<u8>, to: &mut [u8; BLOCK_BYTES])
    requires
        from@.len() == BLOCK_BYTES,
    ensures
        final(to)@ == from@,
{
    let mut i: usize = 0;
    while i < BLOCK_BYTES
        invariant
            i <= BLOCK_BYTES,
            from@.len() == BLOCK_BYTES,
            forall|k: int| 0 <= k < i ==> to@[k] == from@[k],
        decreases BLOCK_BYTES - i,
    {
        to[i] = from[i];
        i += 1;
    }
    assert(to@ =~= from@);
}

impl BlockOp<Vec<u8>> {
    /// Starts a transfer for a driver that has `buffer`.
    pub fn new(write: bool, block: u32, data: &[u8; BLOCK_BYTES], buffer: Option<DMABuffer>) -> (op:
        Self)
        ensures
            op@ == BlockOp::begin(write, block, *data, buffer),
            op@.wf(),
    {
        let route = match buffer {
            Some(buffer) => {
                let region = DmaRegion {
                    addr: #[verifier::truncate] (buffer.addr.bus_addr as usize),
                    len: BLOCK_BYTES,
                };
                let command = if write {
                    Command::WriteSingleBlock(block, region)
                } else {
                    Command::ReadSingleBlock(block, region)
                };
                Route::Dma(buffer.addr, SendCmdIdmac::new(command))
            },
            None => {
                let buf = to_vec(data);
                let command = if write {
                    Command::WriteSingleBlock(block, buf)
                } else {
                    Command::ReadSingleBlock(block, buf)
                };
                Route::Pio(SendCmd::new(command))
            },
        };
        BlockOp { write, data: *data, route, stage: BlockStage::ReadSize }
    }

    /// The outside work that is due.
    pub fn request(&self) -> (request: Request)
        requires
            self@.wf(),
        ensures
            request == self@.asks(),
    {
        match self.stage {
            BlockStage::ReadSize => Request::Read(Reg::Blksiz),
            BlockStage::WriteSize(size) => Request::Write(Reg::Blksiz, size.bits),
            BlockStage::WriteCount => Request::Write(Reg::Bytcnt, BLOCK_BYTES as u32),
            BlockStage::CopyIn(buffer) => Request::CopyToDma(buffer, self.data),
            BlockStage::Move => match &self.route {
                Route::Pio(command) => command.request(),
                Route::Dma(_, command) => command.request(),
            },
            BlockStage::CopyOut(buffer) => Request::CopyFromDma(buffer),
            BlockStage::Finished(_) => Request::Finished,
        }
    }

    /// Takes in the reply to the outstanding request.
    pub fn step(&mut self, reply: Reply)
        requires
            old(self)@.wf(),
        ensures
            final(self)@ == old(self)@.hears(reply),
            final(self)@.wf(),
    {
        match (self.stage, reply) {
            (BlockStage::ReadSize, Reply::Word(word)) => {
                self.stage =
                BlockStage::WriteSize((BlkSiz { bits: word }).with_block_size(BLOCK_BYTES as u16));
            },
            (BlockStage::WriteSize(_), Reply::Done) => {
                self.stage = BlockStage::WriteCount;
            },
            (BlockStage::WriteCount, Reply::Done) => {
                self.stage =
                match &self.route {
                    Route::Dma(memory, _) if self.write => BlockStage::CopyIn(*memory),
                    _ => BlockStage::Move,
                };
            },
            (BlockStage::CopyIn(_), Reply::Done) => {
                self.stage = BlockStage::Move;
            },
            (BlockStage::Move, _) => {
                self.pass_on(reply);
            },
            (BlockStage::CopyOut(_), Reply::Block(data)) => {
                self.data = data;
                self.stage = BlockStage::Finished(BlockOutcome::Moved);
            },
            _ => {},
        }
    }

    /// Hands a reply to the command that is on its way.
    fn pass_on(&mut self, reply: Reply)
        requires
            old(self)@.wf(),
        ensures
            final(self)@ == old(self)@.moving(reply),
            final(self)@.wf(),
    {
        match &mut self.route {
            Route::Pio(command) => {
                command.step(reply);
                self.stage =
                match command.outcome() {
                    None => BlockStage::Move,
                    Some(None) => BlockStage::Finished(BlockOutcome::Failed),
                    Some(Some(_)) => BlockStage::Finished(BlockOutcome::Moved),
                };
            },
            Route::Dma(memory, command) => {
                command.step(reply);
                self.stage =
                match command.outcome() {
                    None => BlockStage::Move,
                    Some(IdmacOutcome::NoDescriptor) => BlockStage::Finished(
                        BlockOutcome::NoDescriptor,
                    ),
                    Some(IdmacOutcome::Failed) => BlockStage::Finished(BlockOutcome::Failed),
                    Some(IdmacOutcome::Response(_)) => if self.write {
                        BlockStage::Finished(BlockOutcome::Moved)
                    } else {
                        BlockStage::CopyOut(*memory)
                    },
                };
            },
        }
    }

    /// The outcome once the transfer is over.
    pub fn outcome(&self) -> (r: Option<BlockOutcome>)
        ensures
            r == self@.result(),
    {
        match self.stage {
            BlockStage::Finished(outcome) => Some(outcome),
            _ => None,
        }
    }

    /// Hands the block over that was read.
    pub fn store(&self, buf: &mut [u8; BLOCK_BYTES])
        requires
            self@.wf(),
        ensures
            final(buf)@ == self@.received(),
    {
        match &self.route {
            Route::Pio(command) => match &command.xfer {
                Some(DataXfer::Read(data)) => {
                    copy_block(data, buf);
                },
                Some(DataXfer::Write(data)) => {
                    copy_block(data, buf);
                },
                None => {},
            },
            Route::Dma(_, _) => {
                *buf = self.data;
            },
        }
    }
}

} // verus!
