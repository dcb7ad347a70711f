//! What a block transfer must ask for next, by what was asked and answered before.
use vstd::prelude::*;

use crate::block::{BlockOp, BlockOutcome, BlockStage, Route, BLOCK_BYTES};
use crate::block_laws::block_moves_in_order;
use crate::bus::{after, fifo_words, outstanding, valid_run, Protocol, Reply, Request};
use crate::cmd::Command;
use crate::dma::{DMABuffer, DMAInfo, IdmacDes0, IdmacDes1, IdmacDescriptor};
use crate::field_laws::register_updates;
use crate::idmac::{DmaRegion, IdmacOutcome, SendCmdIdmac};
use crate::idmac_course_laws::{
    data_of, lone_descriptor, transfer_ends_by_its_course, transfer_takes_its_course,
};
use crate::regs::{BlkSiz, Reg};
use crate::send::SendCmd;
use crate::send_course_laws::buffer_holds_what_was_read;

verus! {

/// The command that reads or writes `block`.
pub open spec fn one_block<B>(write: bool, block: u32, data: B) -> Command<B> {
    if write {
        Command::WriteSingleBlock(block, data)
    } else {
        Command::ReadSingleBlock(block, data)
    }
}

/// The data buffer of the driver, as the IDMAC sees it: at its bus address, one block
/// long.
pub open spec fn seen_by_idmac(memory: DMAInfo) -> DmaRegion {
    DmaRegion { addr: memory.bus_addr as usize, len: 512 }
}

/// The command of a transfer without DMA.
pub open spec fn by_cpu(write: bool, block: u32, data: [u8; BLOCK_BYTES]) -> SendCmd<Seq<u8>> {
    SendCmd::begin(one_block(write, block, data@))
}

/// The command of a transfer by DMA.
pub open spec fn by_dma(write: bool, block: u32, buffer: DMABuffer) -> SendCmdIdmac {
    SendCmdIdmac::begin(one_block(write, block, seen_by_idmac(buffer.addr)))
}

/// The replies that concern the command: those after the first `skipped`, but for a
/// block that was copied out of the data buffer.
pub open spec fn for_command(replies: Seq<Reply>, skipped: int) -> Seq<Reply> {
    if replies.len() > skipped && replies.last() is Block {
        replies.skip(skipped).drop_last()
    } else {
        replies.skip(skipped)
    }
}

/// Requests before the command.
pub open spec fn lead(write: bool, dma: bool) -> int {
    if write && dma {
        4
    } else {
        3
    }
}

/// What is due, by the traffic so far. The transaction is sized to one block of 512
/// bytes, the high half of the block size register kept. By DMA, a block to be written
/// is copied into the driver's data buffer. Then the command takes its course. By DMA, a
/// block that was read with success is copied out of that same buffer.
pub open spec fn due(
    write: bool,
    block: u32,
    data: [u8; BLOCK_BYTES],
    buffer: Option<DMABuffer>,
    replies: Seq<Reply>,
) -> Request {
    let n = replies.len();
    let part = for_command(replies, lead(write, buffer is Some));
    if n == 0 {
        Request::Read(Reg::Blksiz)
    } else if n == 1 {
        Request::Write(Reg::Blksiz, (replies[0]->Word_0 / 0x1_0000 * 0x1_0000 + 512) as u32)
    } else if n == 2 {
        Request::Write(Reg::Bytcnt, 512)
    } else {
        match buffer {
            None => outstanding(by_cpu(write, block, data), part),
            Some(buffer) => if n == 3 && write {
                Request::CopyToDma(buffer.addr, data)
            } else {
                match outstanding(by_dma(write, block, buffer), part) {
                    Request::Finished => match after(by_dma(write, block, buffer), part).result() {
                        Some(IdmacOutcome::Response(_)) if !write && replies.last() !is Block => {
                            Request::CopyFromDma(buffer.addr)
                        },
                        _ => Request::Finished,
                    },
                    request => request,
                }
            },
        }
    }
}

/// What the traffic says of the stage and of the command.
spec fn tells_stage(
    write: bool,
    block: u32,
    data: [u8; BLOCK_BYTES],
    buffer: Option<DMABuffer>,
    replies: Seq<Reply>,
) -> bool {
    let s = after(BlockOp::begin(write, block, data, buffer), replies);
    let n = replies.len();
    let part = for_command(replies, lead(write, buffer is Some));
    let fresh = n < lead(write, buffer is Some);
    &&& s.write == write
    &&& s.stage is ReadSize <==> n == 0
    &&& s.stage is WriteSize <==> n == 1
    &&& s.stage is WriteCount <==> n == 2
    &&& s.stage is CopyIn <==> n == 3 && write && buffer is Some
    &&& s.stage matches BlockStage::WriteSize(size) ==> replies[0] is Word && size.bits
        == replies[0]->Word_0 / 0x1_0000 * 0x1_0000 + 512
    &&& match (buffer, s.route) {
        (None, Route::Pio(command)) => {
            &&& s.data == data
            &&& !(s.stage is CopyOut) && !(s.stage is CopyIn)
            &&& n > 0 ==> !(replies.last() is Block)
            &&& fresh ==> command == by_cpu(write, block, data)
            &&& !fresh ==> {
                &&& valid_run(by_cpu(write, block, data), part)
                &&& command == after(by_cpu(write, block, data), part)
                &&& s.stage == match command.result() {
                    None => BlockStage::Move,
                    Some(None) => BlockStage::Finished(BlockOutcome::Failed),
                    Some(Some(_)) => BlockStage::Finished(BlockOutcome::Moved),
                }
            }
        },
        (Some(buffer), Route::Dma(memory, command)) => {
            &&& memory == buffer.addr
            &&& s.stage matches BlockStage::CopyIn(memory) ==> memory == buffer.addr
            &&& s.stage matches BlockStage::CopyOut(memory) ==> memory == buffer.addr
            &&& n > 0 && replies.last() is Block ==> !write && s.stage == BlockStage::Finished(
                BlockOutcome::Moved,
            ) && s.data == replies.last()->Block_0
            &&& n == 0 || !(replies.last() is Block) ==> s.data == data
            &&& fresh ==> command == by_dma(write, block, buffer)
            &&& !fresh ==> {
                &&& valid_run(by_dma(write, block, buffer), part)
                &&& command == after(by_dma(write, block, buffer), part)
                &&& command.result() is None ==> s.stage is Move
                &&& command.result() matches Some(IdmacOutcome::NoDescriptor) ==> s.stage
                    == BlockStage::Finished(BlockOutcome::NoDescriptor)
                &&& command.result() matches Some(IdmacOutcome::Failed) ==> s.stage
                    == BlockStage::Finished(BlockOutcome::Failed)
                &&& command.result() matches Some(IdmacOutcome::Response(_)) ==> if write
                    || replies.last() is Block {
                    s.stage == BlockStage::Finished(BlockOutcome::Moved)
                } else {
                    s.stage is CopyOut
                }
            }
        },
        _ => false,
    }
}

/// A transfer has the command for its block: by DMA where the driver has a data buffer,
/// on that buffer as the IDMAC sees it, and else on the caller's data.
pub proof fn block_has_its_command(
    write: bool,
    block: u32,
    data: [u8; BLOCK_BYTES],
    buffer: Option<DMABuffer>,
)
    ensures
        BlockOp::begin(write, block, data, buffer).route == match buffer {
            None => Route::Pio(by_cpu(write, block, data)),
            Some(buffer) => Route::Dma(buffer.addr, by_dma(write, block, buffer)),
        },
{
}

/// The lead: up to the command a transfer is as it began, but for its stage.
proof fn lemma_lead(
    write: bool,
    block: u32,
    data: [u8; BLOCK_BYTES],
    buffer: Option<DMABuffer>,
    replies: Seq<Reply>,
)
    requires
        valid_run(BlockOp::begin(write, block, data, buffer), replies),
        replies.len() <= lead(write, buffer is Some),
    ensures
        ({
            let start = BlockOp::begin(write, block, data, buffer);
            let s = after(start, replies);
            let n = replies.len();
            &&& s.write == write && s.data == data && s.route == start.route
            &&& n > 0 ==> !(replies.last() is Block)
            &&& s.stage == if n == 0 {
                BlockStage::ReadSize
            } else if n == 1 {
                BlockStage::WriteSize(
                    (BlkSiz { bits: replies[0]->Word_0 }).with_block_size(512),
                )
            } else if n == 2 {
                BlockStage::WriteCount
            } else if n == 3 && write && buffer is Some {
                BlockStage::CopyIn(buffer->Some_0.addr)
            } else {
                BlockStage::Move
            }
            &&& n > 0 ==> replies[0] is Word
        }),
    decreases replies.len(),
{
    if replies.len() > 0 {
        let earlier = replies.drop_last();
        lemma_lead(write, block, data, buffer, earlier);
        assert(earlier.len() > 0 ==> earlier[0] == replies[0]);
        let start = BlockOp::begin(write, block, data, buffer);
        assert(after(start, replies) == after(start, earlier).hears(replies.last()));
    }
}

/// One step of a command without DMA.
proof fn lemma_cpu_step(s: BlockOp<Seq<u8>>, command: SendCmd<Seq<u8>>, reply: Reply)
    requires
        s.stage is Move,
        s.route == Route::<Seq<u8>>::Pio(command),
    ensures
        ({
            let t = s.hears(reply);
            &&& t.write == s.write && t.data == s.data
            &&& t.route == Route::<Seq<u8>>::Pio(command.hears(reply))
            &&& t.stage == match command.hears(reply).result() {
                None => BlockStage::Move,
                Some(None) => BlockStage::Finished(BlockOutcome::Failed),
                Some(Some(_)) => BlockStage::Finished(BlockOutcome::Moved),
            }
            &&& s.asks() == command.asks()
        }),
{
}

/// One step of a command by DMA.
proof fn lemma_dma_step(s: BlockOp<Seq<u8>>, memory: DMAInfo, command: SendCmdIdmac, reply: Reply)
    requires
        s.stage is Move,
        s.route == Route::<Seq<u8>>::Dma(memory, command),
    ensures
        ({
            let t = s.hears(reply);
            &&& t.write == s.write && t.data == s.data
            &&& t.route == Route::<Seq<u8>>::Dma(memory, command.hears(reply))
            &&& t.stage == match command.hears(reply).result() {
                None => BlockStage::Move,
                Some(IdmacOutcome::NoDescriptor) => BlockStage::Finished(
                    BlockOutcome::NoDescriptor,
                ),
                Some(IdmacOutcome::Failed) => BlockStage::Finished(BlockOutcome::Failed),
                Some(IdmacOutcome::Response(_)) => if s.write {
                    BlockStage::Finished(BlockOutcome::Moved)
                } else {
                    BlockStage::CopyOut(memory)
                },
            }
            &&& s.asks() == command.asks()
        }),
{
}

/// No reply to a transfer by DMA, or to a command without it, is a block.
proof fn lemma_no_block(cpu: SendCmd<Seq<u8>>, dma: SendCmdIdmac, reply: Reply)
    ensures
        reply.answers(cpu.asks()) ==> !(reply is Block),
        reply.answers(dma.asks()) ==> !(reply is Block),
{
}

/// A command goes on by one reply.
proof fn lemma_goes_on<P: Protocol>(start: P, part: Seq<Reply>, more: Seq<Reply>)
    requires
        more.len() > 0,
        more.drop_last() == part,
    ensures
        after(start, more) == after(start, part).hears(more.last()),
        valid_run(start, more) <==> valid_run(start, part) && more.last().answers(
            after(start, part).asks(),
        ),
{
}

/// Nothing is asked once all is over.
proof fn lemma_over(s: BlockOp<Seq<u8>>)
    ensures
        s.stage is Finished ==> s.asks() is Finished,
        s.stage is CopyOut ==> s.asks() is CopyFromDma,
        s.stage matches BlockStage::CopyOut(memory) ==> forall|reply: Reply|
            reply is Block ==> #[trigger] s.hears(reply) == (BlockOp {
                data: reply->Block_0,
                stage: BlockStage::Finished(BlockOutcome::Moved),
                ..s
            }),
{
}

/// The stage follows from the traffic.
proof fn lemma_stage(
    write: bool,
    block: u32,
    data: [u8; BLOCK_BYTES],
    buffer: Option<DMABuffer>,
    replies: Seq<Reply>,
)
    requires
        valid_run(BlockOp::begin(write, block, data, buffer), replies),
    ensures
        tells_stage(write, block, data, buffer, replies),
    decreases replies.len(),
{
    let start = BlockOp::begin(write, block, data, buffer);
    let k = lead(write, buffer is Some);
    block_has_its_command(write, block, data, buffer);
    if replies.len() <= k {
        lemma_lead(write, block, data, buffer, replies);
        if replies.len() > 0 {
            register_updates(replies[0]->Word_0, true, 512);
        }
        if replies.len() == k {
            assert(replies.skip(k) =~= Seq::empty());
        }
    } else {
        let earlier = replies.drop_last();
        let reply = replies.last();
        lemma_stage(write, block, data, buffer, earlier);
        let s = after(start, earlier);
        assert(after(start, replies) == s.hears(reply));
        assert(replies.skip(k).drop_last() =~= earlier.skip(k));
        assert(replies.skip(k).last() == reply);
        lemma_over(s);
        if s.stage is Move {
            match s.route {
                Route::Pio(command) => {
                    lemma_cpu_step(s, command, reply);
                    lemma_no_block(command, by_dma(true, 0, DMABuffer {
                        addr: DMAInfo { cpu_addr: 0, bus_addr: 0 },
                        size: 0,
                    }), reply);
                    lemma_goes_on(by_cpu(write, block, data), earlier.skip(k), replies.skip(k));
                },
                Route::Dma(memory, command) => {
                    lemma_dma_step(s, memory, command, reply);
                    lemma_no_block(by_cpu(write, block, data), command, reply);
                    lemma_goes_on(
                        by_dma(write, block, buffer->Some_0),
                        earlier.skip(k),
                        replies.skip(k),
                    );
                },
            }
        }
    }
}

/// A transfer by DMA asks for nothing more exactly if it is over.
proof fn lemma_dma_over(command: SendCmdIdmac)
    ensures
        command.asks() is Finished <==> command.result() is Some,
{
}

/// A command without DMA asks for nothing more exactly if it is over.
proof fn lemma_cpu_over(command: SendCmd<Seq<u8>>)
    ensures
        command.asks() is Finished <==> command.result() is Some,
{
}

/// What a transfer asks for, in terms of its command.
proof fn lemma_request(s: BlockOp<Seq<u8>>)
    ensures
        s.stage is Move ==> s.asks() == match s.route {
            Route::Pio(command) => command.asks(),
            Route::Dma(_, command) => command.asks(),
        },
        s.stage is ReadSize ==> s.asks() == Request::Read(Reg::Blksiz),
        s.stage matches BlockStage::WriteSize(size) ==> s.asks() == Request::Write(
            Reg::Blksiz,
            size.bits,
        ),
        s.stage is WriteCount ==> s.asks() == Request::Write(Reg::Bytcnt, 512),
        s.stage matches BlockStage::CopyIn(memory) ==> s.asks() == Request::CopyToDma(
            memory,
            s.data,
        ),
        s.stage matches BlockStage::CopyOut(memory) ==> s.asks() == Request::CopyFromDma(memory),
        s.stage is Finished ==> s.asks() is Finished,
{
}

/// The whole course of a block transfer.
pub proof fn block_takes_its_course(
    write: bool,
    block: u32,
    data: [u8; BLOCK_BYTES],
    buffer: Option<DMABuffer>,
    replies: Seq<Reply>,
)
    requires
        valid_run(BlockOp::begin(write, block, data, buffer), replies),
    ensures
        outstanding(BlockOp::begin(write, block, data, buffer), replies) == due(
            write,
            block,
            data,
            buffer,
            replies,
        ),
{
    let s = after(BlockOp::begin(write, block, data, buffer), replies);
    lemma_stage(write, block, data, buffer, replies);
    lemma_request(s);
    let part = for_command(replies, lead(write, buffer is Some));
    match buffer {
        None => {
            lemma_cpu_over(after(by_cpu(write, block, data), part));
            if replies.len() >= 3 {
                assert(outstanding(BlockOp::begin(write, block, data, buffer), replies)
                    == outstanding(by_cpu(write, block, data), part));
            }
        },
        Some(memory) => {
            lemma_dma_over(after(by_dma(write, block, memory), part));
        },
    }
}

/// How a block transfer ends: as its command does. By DMA, a read ends with the copy.
pub proof fn block_ends_by_its_command(
    write: bool,
    block: u32,
    data: [u8; BLOCK_BYTES],
    buffer: Option<DMABuffer>,
    replies: Seq<Reply>,
)
    requires
        valid_run(BlockOp::begin(write, block, data, buffer), replies),
    ensures
        ({
            let s = after(BlockOp::begin(write, block, data, buffer), replies);
            let part = for_command(replies, lead(write, buffer is Some));
            if replies.len() < lead(write, buffer is Some) {
                s.result() is None
            } else {
                match buffer {
                    None => s.result() == match after(by_cpu(write, block, data), part).result() {
                        None => None,
                        Some(None) => Some(BlockOutcome::Failed),
                        Some(Some(_)) => Some(BlockOutcome::Moved),
                    },
                    Some(buffer) => s.result() == match after(
                        by_dma(write, block, buffer),
                        part,
                    ).result() {
                        None => None,
                        Some(IdmacOutcome::NoDescriptor) => Some(BlockOutcome::NoDescriptor),
                        Some(IdmacOutcome::Failed) => Some(BlockOutcome::Failed),
                        Some(IdmacOutcome::Response(_)) => if write || replies.last() is Block {
                            Some(BlockOutcome::Moved)
                        } else {
                            None
                        },
                    },
                }
            }
        }),
{
    lemma_stage(write, block, data, buffer, replies);
}

/// The descriptor for one block in `memory`.
pub open spec fn naming(memory: DMAInfo) -> IdmacDescriptor {
    IdmacDescriptor {
        des0: IdmacDes0 { bits: 0x8000_000c },
        des1: IdmacDes1 { bits: 512 },
        des2: (memory.bus_addr % 0x1_0000_0000) as u32,
        des3: 0,
    }
}

/// Narrowing the bus address keeps its low 32 bits.
proof fn lemma_names_memory(memory: DMAInfo)
    ensures
        lone_descriptor(seen_by_idmac(memory)) == naming(memory),
{
    let bus: u64 = memory.bus_addr;
    let narrow: usize = bus as usize;
    let wide: u64 = narrow as u64;
    assert(wide % 0x1_0000_0000u64 == bus % 0x1_0000_0000u64) by (bit_vector)
        requires
            wide == (bus as usize) as u64,
    ;
}

/// By DMA, the descriptor that is stored names the very memory that the block is copied
/// into before a write and out of after a read: the low 32 bits of its bus address, and
/// 512 bytes.
#[verifier::rlimit(40)]
pub proof fn descriptor_names_the_data_buffer(
    write: bool,
    block: u32,
    data: [u8; BLOCK_BYTES],
    buffer: DMABuffer,
    replies: Seq<Reply>,
)
    requires
        valid_run(BlockOp::begin(write, block, data, Some(buffer)), replies),
    ensures
        ({
            let request = outstanding(BlockOp::begin(write, block, data, Some(buffer)), replies);
            &&& request matches Request::StoreDescriptor(_, descriptor) ==> descriptor == naming(
                buffer.addr,
            )
            &&& request matches Request::CopyToDma(memory, copied) ==> write && memory
                == buffer.addr && copied == data
            &&& request matches Request::CopyFromDma(memory) ==> !write && memory == buffer.addr
            &&& replies.len() == lead(write, true) + 7 && !(request is Finished) ==> (request
                is StoreDescriptor)
        }),
{
    let start = BlockOp::begin(write, block, data, Some(buffer));
    let k = lead(write, true);
    block_takes_its_course(write, block, data, Some(buffer), replies);
    lemma_names_memory(buffer.addr);
    if replies.len() >= k {
        let part = for_command(replies, k);
        let command = one_block(write, block, seen_by_idmac(buffer.addr));
        assert(command.xfer() is Some);
        lemma_part_is_a_run(write, block, data, buffer, replies);
        lemma_stores_once(command, part);
        assert(data_of(command) == seen_by_idmac(buffer.addr));
        lemma_dma_over(after(by_dma(write, block, buffer), part));
    }
}

/// The replies that concern the command are a run of it, and all of the replies after
/// the lead where nothing was copied out yet.
proof fn lemma_part_is_a_run(
    write: bool,
    block: u32,
    data: [u8; BLOCK_BYTES],
    buffer: DMABuffer,
    replies: Seq<Reply>,
)
    requires
        valid_run(BlockOp::begin(write, block, data, Some(buffer)), replies),
        replies.len() >= lead(write, true),
    ensures
        valid_run(by_dma(write, block, buffer), for_command(replies, lead(write, true))),
        replies.last() is Block ==> outstanding(
            BlockOp::begin(write, block, data, Some(buffer)),
            replies,
        ) is Finished,
        !(replies.last() is Block) ==> for_command(replies, lead(write, true)).len()
            == replies.len() - lead(write, true),
{
    lemma_stage(write, block, data, Some(buffer), replies);
}

/// Of all that a transfer asks for, only its eighth request stores a descriptor, and
/// none copies a block.
proof fn lemma_stores_once(command: Command<DmaRegion>, replies: Seq<Reply>)
    requires
        command.xfer() is Some,
        valid_run(SendCmdIdmac::begin(command), replies),
    ensures
        outstanding(SendCmdIdmac::begin(command), replies) matches Request::StoreDescriptor(
            _,
            descriptor,
        ) ==> replies.len() == 7 && descriptor == lone_descriptor(data_of(command)),
        !(outstanding(SendCmdIdmac::begin(command), replies) is CopyToDma),
        !(outstanding(SendCmdIdmac::begin(command), replies) is CopyFromDma),
        replies.len() == 7 ==> outstanding(SendCmdIdmac::begin(command), replies) is StoreDescriptor
            || after(SendCmdIdmac::begin(command), replies).result() == Some(
            IdmacOutcome::NoDescriptor,
        ),
{
    transfer_takes_its_course(command, replies);
    if replies.len() == 7 && after(SendCmdIdmac::begin(command), replies).result() is Some {
        transfer_ends_by_its_course(command, replies);
    }
}

/// What the caller gets. Without DMA a read gives the words that came out of the FIFO,
/// lowest byte first, and behind them what the caller had there. By DMA it gives the
/// block that was copied out of the data buffer, and until then what the caller had. A
/// write changes nothing.
pub proof fn caller_gets_what_was_read(
    write: bool,
    block: u32,
    data: [u8; BLOCK_BYTES],
    buffer: Option<DMABuffer>,
    replies: Seq<Reply>,
)
    requires
        valid_run(BlockOp::begin(write, block, data, buffer), replies),
    ensures
        ({
            let got = after(BlockOp::begin(write, block, data, buffer), replies).received();
            let words = fifo_words(for_command(replies, 3));
            &&& got.len() == 512
            &&& write ==> got == data@
            &&& !write && buffer is Some ==> got == if replies.len() > 0
                && replies.last() is Block {
                replies.last()->Block_0@
            } else {
                data@
            }
            &&& !write && buffer is None && replies.len() < 3 ==> got == data@
            &&& !write && buffer is None && replies.len() >= 3 ==> forall|i: int|
                0 <= i < 512 ==> #[trigger] got[i] == if i < 8 * words.len() {
                    vstd::bytes::spec_u64_to_le_bytes(words[i / 8])[i % 8]
                } else {
                    data@[i]
                }
        }),
{
    lemma_stage(write, block, data, buffer, replies);
    let command = one_block(write, block, data@);
    if buffer is None {
        if replies.len() >= 3 {
            buffer_holds_what_was_read(command, for_command(replies, 3));
        }
    }
    block_moves_in_order(write, block, data, buffer, replies);
}

} // verus!
