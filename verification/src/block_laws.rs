//! What holds of every transfer of a block.
use vstd::prelude::*;

use crate::block::{
    block_command, block_region, BlockOp, BlockOutcome, BlockStage, Route, BLOCK_BYTES,
};
use crate::bus::{
    after, dma_put, fifo_puts, fifo_words, log, valid_run, Protocol, Reply, Request,
};
use crate::cmd::{command_word_fields, DataXfer};
use crate::dma::DMABuffer;
use crate::idmac::IdmacOutcome;
use crate::idmac_laws::{idmac_step_manages, manages_transfer};
use crate::regs::Reg;
use crate::send::{overlay, word_at};
use crate::send_laws::{
    acts_on_card, bytes_of, has_read, send_step_acts, send_step_reads, send_step_wf,
    words_keep_bytes, words_of,
};

verus! {

/// The requests that make up a block transfer.
pub open spec fn moves_block(request: Request) -> bool {
    match request {
        Request::CopyToDma(_, _) | Request::CopyFromDma(_) => true,
        _ => acts_on_card(request) || manages_transfer(request),
    }
}

impl BlockOp<Seq<u8>> {
    /// What came before the command: the byte count, and the copy of a block to be
    /// written by DMA.
    pub open spec fn prepared(self) -> Seq<Request> {
        let count = Request::Write(Reg::Bytcnt, BLOCK_BYTES as u32);
        match self.route {
            Route::Dma(memory, _) if self.write => seq![
                count,
                Request::CopyToDma(memory, self.data),
            ],
            _ => seq![count],
        }
    }

    /// What the command did.
    pub open spec fn carried(self) -> Seq<Request> {
        match self.route {
            Route::Pio(command) => command.acted(),
            Route::Dma(_, command) => command.managed(),
        }
    }

    /// What the transfer has done so far.
    pub open spec fn done(self) -> Seq<Request> {
        match self.stage {
            BlockStage::ReadSize | BlockStage::WriteSize(_) | BlockStage::WriteCount => {
                Seq::empty()
            },
            BlockStage::CopyIn(_) => self.prepared().take(1),
            BlockStage::Move | BlockStage::CopyOut(_) => self.prepared() + self.carried(),
            BlockStage::Finished(outcome) => match self.route {
                Route::Dma(memory, _) if !self.write && outcome == BlockOutcome::Moved => (
                self.prepared() + self.carried()).push(Request::CopyFromDma(memory)),
                _ => self.prepared() + self.carried(),
            },
        }
    }

    /// The command has not begun before its stage, and the DMA buffer stays the
    /// same.
    pub open spec fn on_course(self) -> bool {
        &&& self.wf()
        &&& match self.stage {
            BlockStage::ReadSize | BlockStage::WriteSize(_) | BlockStage::WriteCount => {
                self.fresh()
            },
            BlockStage::CopyIn(buffer) => {
                &&& self.fresh()
                &&& self.write
                &&& self.route matches Route::Dma(memory, _)
                &&& memory == buffer
            },
            BlockStage::CopyOut(buffer) => {
                &&& !self.write
                &&& self.route matches Route::Dma(memory, _)
                &&& memory == buffer
            },
            _ => true,
        }
    }

    /// The command is still to begin.
    pub open spec fn fresh(self) -> bool {
        match self.route {
            Route::Pio(command) => command.stage is AwaitIdle,
            Route::Dma(_, command) => command.stage is SaveIdsts,
        }
    }
}

/// One step adds to what was done the request that it answers, where that request
/// is part of the transfer.
proof fn lemma_block_step(s: BlockOp<Seq<u8>>, reply: Reply)
    requires
        s.on_course(),
        reply.answers(s.asks()),
    ensures
        s.hears(reply).on_course(),
        s.hears(reply).write == s.write,
        s.hears(reply).done() == if moves_block(s.asks()) {
            s.done().push(s.asks())
        } else {
            s.done()
        },
{
    let t = s.hears(reply);
    match s.stage {
        BlockStage::WriteCount => {
            assert(t.carried() =~= Seq::empty());
            assert(t.done() =~= Seq::empty().push(s.asks()));
        },
        BlockStage::CopyIn(_) => {
            assert(t.carried() =~= Seq::empty());
            assert(t.done() =~= s.done().push(s.asks()));
        },
        BlockStage::Move => {
            match s.route {
                Route::Pio(command) => {
                    send_step_wf(command, reply);
                    send_step_acts(command, reply);
                    assert(moves_block(s.asks()) == acts_on_card(s.asks()));
                },
                Route::Dma(_, command) => {
                    idmac_step_manages(command, reply);
                    assert(moves_block(s.asks()) == manages_transfer(s.asks()));
                },
            }
            if moves_block(s.asks()) {
                assert(t.carried() == s.carried().push(s.asks()));
                assert(s.prepared() + s.carried().push(s.asks()) =~= (s.prepared()
                    + s.carried()).push(s.asks()));
            } else {
                assert(t.carried() == s.carried());
            }
            assert(!(t.stage is Finished && t.stage->Finished_0 == BlockOutcome::Moved && !s.write
                && s.route is Dma));
        },
        _ => {},
    }
}

/// A block transfer sizes the transaction, then sends its one command. By DMA, a
/// block to be written is copied into the buffer before the command, and a block
/// that was read is copied out of it after the command succeeded.
pub proof fn block_moves_in_order(
    write: bool,
    block: u32,
    data: [u8; BLOCK_BYTES],
    buffer: Option<DMABuffer>,
    replies: Seq<Reply>,
)
    requires
        valid_run(BlockOp::begin(write, block, data, buffer), replies),
    ensures
        ({
            let start = BlockOp::begin(write, block, data, buffer);
            let s = after(start, replies);
            &&& s.on_course()
            &&& s.write == write
            &&& log(start, replies, |q: Request| moves_block(q)) == s.done()
        }),
    decreases replies.len(),
{
    let start = BlockOp::begin(write, block, data, buffer);
    if replies.len() == 0 {
        command_word_fields(block_command(write, block, data@));
    } else {
        let earlier = replies.drop_last();
        block_moves_in_order(write, block, data, buffer, earlier);
        lemma_block_step(after(start, earlier), replies.last());
    }
}

/// The transaction is sized to one block: the low half of the block size register
/// becomes the size of a block, the high half stays as it was read.
pub proof fn block_size_is_set(
    write: bool,
    block: u32,
    data: [u8; BLOCK_BYTES],
    buffer: Option<DMABuffer>,
    replies: Seq<Reply>,
)
    requires
        valid_run(BlockOp::begin(write, block, data, buffer), replies),
    ensures
        ({
            let s = after(BlockOp::begin(write, block, data, buffer), replies);
            s.stage matches BlockStage::WriteSize(size) ==> {
                &&& replies.last() matches Reply::Word(word)
                &&& size.bits == word - word % 0x1_0000 + BLOCK_BYTES
            }
        }),
{
    let start = BlockOp::begin(write, block, data, buffer);
    if replies.len() > 0 {
        assert(after(start, replies) == after(start, replies.drop_last()).hears(replies.last()));
        if let Reply::Word(word) = replies.last() {
            assert((word & 0xffff_0000) | 512u32 == word - word % 0x1_0000 + 512) by (bit_vector);
        }
    }
}

/// The transfer keeps to the route that it began with, to its command, and to the
/// caller's block, unless a block was read by DMA, and with success.
#[verifier::rlimit(60)]
pub proof fn block_keeps_its_route(
    write: bool,
    block: u32,
    data: [u8; BLOCK_BYTES],
    buffer: Option<DMABuffer>,
    replies: Seq<Reply>,
)
    requires
        valid_run(BlockOp::begin(write, block, data, buffer), replies),
    ensures
        ({
            let s = after(BlockOp::begin(write, block, data, buffer), replies);
            &&& match buffer {
                Some(buffer) => {
                    let command = block_command(write, block, block_region(buffer.addr));
                    &&& s.route matches Route::Dma(memory, sub)
                    &&& memory == buffer.addr
                    &&& sub.cmd == command.word() && sub.arg == block
                    &&& sub.region == block_region(buffer.addr)
                    &&& sub.descriptor == crate::idmac::descriptor_for(block_region(buffer.addr))
                },
                None => {
                    let command = block_command(write, block, data@);
                    &&& s.route matches Route::Pio(sub)
                    &&& sub.cmd == command.word() && sub.arg == block
                    &&& write ==> sub.xfer == Some(DataXfer::Write(data@))
                },
            }
            &&& s.write == write
            &&& write || s.result() != Some(BlockOutcome::Moved) ==> s.data == data
        }),
    decreases replies.len(),
{
    let start = BlockOp::begin(write, block, data, buffer);
    if replies.len() > 0 {
        let earlier = replies.drop_last();
        block_keeps_its_route(write, block, data, buffer, earlier);
        block_moves_in_order(write, block, data, buffer, earlier);
        let s = after(start, earlier);
        assert(after(start, replies) == s.hears(replies.last()));
        if let Route::Pio(command) = s.route {
            send_step_wf(command, replies.last());
        }
    }
}

/// A block that was read by DMA is the one that was copied out of the buffer.
pub proof fn dma_read_returns_buffer(
    block: u32,
    data: [u8; BLOCK_BYTES],
    buffer: DMABuffer,
    replies: Seq<Reply>,
)
    requires
        valid_run(BlockOp::begin(false, block, data, Some(buffer)), replies),
        after(BlockOp::begin(false, block, data, Some(buffer)), replies).result() == Some(
            BlockOutcome::Moved,
        ),
    ensures
        replies.len() > 0,
        replies.last() is Block,
        after(BlockOp::begin(false, block, data, Some(buffer)), replies).received()
            == replies.last()->Block_0@,
{
    let start = BlockOp::begin(false, block, data, Some(buffer));
    let earlier = replies.drop_last();
    assert(replies.len() > 0);
    block_keeps_its_route(false, block, data, Some(buffer), earlier);
    assert(after(start, replies) == after(start, earlier).hears(replies.last()));
}

/// A block that the CPU reads is the words that the FIFO gave, in order; where
/// they are fewer than a block, the rest of it is what the caller had there.
pub proof fn pio_read_returns_fifo_words(
    block: u32,
    data: [u8; BLOCK_BYTES],
    replies: Seq<Reply>,
)
    requires
        valid_run(BlockOp::begin(false, block, data, None), replies),
    ensures
        after(BlockOp::begin(false, block, data, None), replies).received() == overlay(
            data@,
            0,
            bytes_of(fifo_words(replies)),
        ),
        after(BlockOp::begin(false, block, data, None), replies).route matches Route::Pio(command)
            && has_read(command, data@, fifo_words(replies)),
    decreases replies.len(),
{
    let start = BlockOp::begin(false, block, data, None);
    if replies.len() == 0 {
        command_word_fields(block_command(false, block, data@));
        assert(overlay(data@, 0, bytes_of(fifo_words(replies))) =~= data@);
    } else {
        let earlier = replies.drop_last();
        pio_read_returns_fifo_words(block, data, earlier);
        let s = after(start, earlier);
        if let BlockStage::Move = s.stage {
            if let Route::Pio(command) = s.route {
                send_step_reads(command, data@, fifo_words(earlier), replies.last());
            }
        } else {
            block_moves_in_order(false, block, data, None, earlier);
            assert(!(replies.last() is Fifo));
            assert(after(start, replies).route == s.route);
        }
    }
}

/// A block that the CPU writes goes into the FIFO as the block's words, in order, as
/// far as the transfer has come.
#[verifier::rlimit(40)]
pub proof fn pio_write_puts_block(block: u32, data: [u8; BLOCK_BYTES], replies: Seq<Reply>)
    requires
        valid_run(BlockOp::begin(true, block, data, None), replies),
    ensures
        ({
            let start = BlockOp::begin(true, block, data, None);
            &&& after(start, replies).route matches Route::Pio(command)
            &&& fifo_puts(start, replies) == words_of(data@, command.offset as nat / 8)
            &&& fifo_puts(start, replies).len() <= BLOCK_BYTES / 8
        }),
    decreases replies.len(),
{
    let start = BlockOp::begin(true, block, data, None);
    block_keeps_its_route(true, block, data, None, replies);
    block_moves_in_order(true, block, data, None, replies);
    if replies.len() == 0 {
        assert(words_of(data@, 0) =~= Seq::empty());
    } else {
        let earlier = replies.drop_last();
        pio_write_puts_block(block, data, earlier);
        block_keeps_its_route(true, block, data, None, earlier);
        block_moves_in_order(true, block, data, None, earlier);
        let s = after(start, earlier);
        let t = after(start, replies);
        assert(t == s.hears(replies.last()));
        if let Route::Pio(command) = s.route {
            if s.stage is Move && command.stage is MoveWord {
                let count = command.offset as nat / 8;
                assert(count * 8 == command.offset);
                assert(words_of(data@, count + 1) =~= words_of(data@, count).push(
                    word_at(data@, command.offset as int),
                ));
            }
        }
    }
}

/// What the CPU wrote, the CPU reads back: where a read is given the words that
/// writing a whole block put out, it ends with the block that was written.
pub proof fn pio_read_returns_what_was_written(
    written_to: u32,
    written: [u8; BLOCK_BYTES],
    write_replies: Seq<Reply>,
    read_from: u32,
    data: [u8; BLOCK_BYTES],
    read_replies: Seq<Reply>,
)
    requires
        valid_run(BlockOp::begin(true, written_to, written, None), write_replies),
        valid_run(BlockOp::begin(false, read_from, data, None), read_replies),
        fifo_puts(BlockOp::begin(true, written_to, written, None), write_replies).len()
            == BLOCK_BYTES / 8,
        fifo_words(read_replies) == fifo_puts(
            BlockOp::begin(true, written_to, written, None),
            write_replies,
        ),
    ensures
        after(BlockOp::begin(false, read_from, data, None), read_replies).received() == written@,
{
    pio_write_puts_block(written_to, written, write_replies);
    pio_read_returns_fifo_words(read_from, data, read_replies);
    words_keep_bytes(written@);
    assert(overlay(data@, 0, written@) =~= written@);
}

/// A block that is written by DMA is copied into the buffer, whole, before the
/// command goes out; one that is read is never copied in.
pub proof fn dma_write_puts_block(
    write: bool,
    block: u32,
    data: [u8; BLOCK_BYTES],
    buffer: DMABuffer,
    replies: Seq<Reply>,
)
    requires
        valid_run(BlockOp::begin(write, block, data, Some(buffer)), replies),
    ensures
        ({
            let start = BlockOp::begin(write, block, data, Some(buffer));
            let s = after(start, replies);
            let begun = s.stage is Move || s.stage is CopyOut || s.stage is Finished;
            dma_put(start, replies) == (if write && begun {
                Some((buffer.addr, data))
            } else {
                None
            })
        }),
    decreases replies.len(),
{
    let start = BlockOp::begin(write, block, data, Some(buffer));
    if replies.len() > 0 {
        let earlier = replies.drop_last();
        dma_write_puts_block(write, block, data, buffer, earlier);
        block_keeps_its_route(write, block, data, Some(buffer), earlier);
        block_moves_in_order(write, block, data, Some(buffer), earlier);
        assert(after(start, replies) == after(start, earlier).hears(replies.last()));
    }
}

/// What DMA wrote, DMA reads back: where a read that succeeded finds in its buffer
/// the block that a write put into its own, it ends with the block that was written.
pub proof fn dma_read_returns_what_was_written(
    written_to: u32,
    written: [u8; BLOCK_BYTES],
    write_buffer: DMABuffer,
    write_replies: Seq<Reply>,
    read_from: u32,
    data: [u8; BLOCK_BYTES],
    read_buffer: DMABuffer,
    read_replies: Seq<Reply>,
)
    requires
        valid_run(BlockOp::begin(true, written_to, written, Some(write_buffer)), write_replies),
        valid_run(BlockOp::begin(false, read_from, data, Some(read_buffer)), read_replies),
        after(BlockOp::begin(false, read_from, data, Some(read_buffer)), read_replies).result()
            == Some(BlockOutcome::Moved),
        dma_put(
            BlockOp::begin(true, written_to, written, Some(write_buffer)),
            write_replies,
        ) matches Some((_, put)) && read_replies.last() == Reply::Block(put),
    ensures
        after(
            BlockOp::begin(false, read_from, data, Some(read_buffer)),
            read_replies,
        ).received() == written@,
{
    dma_write_puts_block(true, written_to, written, write_buffer, write_replies);
    dma_read_returns_buffer(read_from, data, read_buffer, read_replies);
}

/// The replies of a transfer that its command took in.
pub open spec fn heard_by_command(start: BlockOp<Seq<u8>>, replies: Seq<Reply>) -> Seq<Reply>
    decreases replies.len(),
{
    if replies.len() == 0 {
        Seq::empty()
    } else {
        let heard = heard_by_command(start, replies.drop_last());
        if after(start, replies.drop_last()).stage is Move {
            heard.push(replies.last())
        } else {
            heard
        }
    }
}

/// A transfer runs the command of its route, from its beginning to its end, and
/// ends as the command does: a command without success makes it fail, one that found
/// no memory for its descriptor is told apart, and one with success moves the block,
/// for a read by DMA once the block was copied out of the buffer.
#[verifier::rlimit(40)]
pub proof fn block_runs_its_command(
    write: bool,
    block: u32,
    data: [u8; BLOCK_BYTES],
    buffer: Option<DMABuffer>,
    replies: Seq<Reply>,
)
    requires
        valid_run(BlockOp::begin(write, block, data, buffer), replies),
    ensures
        ({
            let start = BlockOp::begin(write, block, data, buffer);
            let s = after(start, replies);
            let heard = heard_by_command(start, replies);
            match (start.route, s.route) {
                (Route::Pio(first), Route::Pio(command)) => {
                    &&& valid_run(first, heard)
                    &&& command == after(first, heard)
                    &&& s.result() == match command.result() {
                        None => None,
                        Some(None) => Some(BlockOutcome::Failed),
                        Some(Some(_)) => Some(BlockOutcome::Moved),
                    }
                },
                (Route::Dma(_, first), Route::Dma(_, command)) => {
                    &&& valid_run(first, heard)
                    &&& command == after(first, heard)
                    &&& s.result() == match command.result() {
                        None => None,
                        Some(IdmacOutcome::NoDescriptor) => Some(BlockOutcome::NoDescriptor),
                        Some(IdmacOutcome::Failed) => Some(BlockOutcome::Failed),
                        Some(IdmacOutcome::Response(_)) => if s.stage is CopyOut {
                            None
                        } else {
                            Some(BlockOutcome::Moved)
                        },
                    }
                    &&& s.stage is CopyOut ==> {
                        &&& !write
                        &&& command.result() matches Some(IdmacOutcome::Response(_))
                    }
                },
                _ => false,
            }
        }),
    decreases replies.len(),
{
    let start = BlockOp::begin(write, block, data, buffer);
    block_moves_in_order(write, block, data, buffer, replies);
    if replies.len() > 0 {
        let earlier = replies.drop_last();
        block_runs_its_command(write, block, data, buffer, earlier);
        block_moves_in_order(write, block, data, buffer, earlier);
        let s = after(start, earlier);
        assert(after(start, replies) == s.hears(replies.last()));
        let heard = heard_by_command(start, earlier);
        assert(heard.push(replies.last()).drop_last() =~= heard);
    }
}

} // verus!
