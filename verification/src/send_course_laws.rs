//! What a command that the CPU moves the data of must ask for next, by what was asked
//! and answered before.
//!
//! The laws speak of the traffic with the hardware alone: which registers were read
//! and written, with what values, and how much went through the FIFO.
use vstd::prelude::*;

use crate::bits::bit;
use crate::bus::{
    after, fifo_puts, fifo_words, last_read, last_response, last_write, outstanding, polls, reads,
    seen, valid_run, Protocol, Reply, Request,
};
use crate::cmd::{Command, DataXfer};
use crate::field_laws::{
    commands_on_the_wire, data_read, data_written, is_answered, register_fields, wire_arg,
    wire_word,
};
use crate::regs::Reg;
use crate::send::{sendable, SendCmd, SendStage};
use crate::send_laws::{bytes_of, has_read, read_takes_fifo_words, send_step_wf};

verus! {

/// The next poll of a register: the first since a write is a plain read.
pub open spec fn next_poll<P: Protocol>(start: P, replies: Seq<Reply>, reg: Reg) -> Request {
    if polls(start, replies, reg) == 0 {
        Request::Read(reg)
    } else {
        Request::Retry(reg)
    }
}

/// Whether the controller was read free to take a command since the last write, or
/// was polled a million times and once more in vain.
pub open spec fn controller_waited_for(command: Command<Seq<u8>>, replies: Seq<Reply>) -> bool {
    let start = SendCmd::begin(command);
    seen(start, replies, Reg::Cmd, 31, false) || polls(start, replies, Reg::Cmd) > 1_000_000
}

/// Whether the response, where one is due, was seen to be there since the command went
/// out, or was polled for a million times and once more in vain.
pub open spec fn response_waited_for(command: Command<Seq<u8>>, replies: Seq<Reply>) -> bool {
    let start = SendCmd::begin(command);
    is_answered(command) ==> seen(start, replies, Reg::Rintsts, 2, true) || polls(
        start,
        replies,
        Reg::Rintsts,
    ) > 1_000_000
}

/// Whether the command is out, taken and answered.
pub open spec fn command_phase_over(command: Command<Seq<u8>>, replies: Seq<Reply>) -> bool {
    &&& last_write(SendCmd::begin(command), replies, Reg::Cmd) is Some
    &&& controller_waited_for(command, replies)
    &&& response_waited_for(command, replies)
}

/// Bytes that went through the FIFO.
pub open spec fn bytes_moved(command: Command<Seq<u8>>, replies: Seq<Reply>) -> int {
    (fifo_words(replies).len() + fifo_puts(SendCmd::begin(command), replies).len()) * 8int
}

/// Whether all of a command's data went through the FIFO.
pub open spec fn all_moved(command: Command<Seq<u8>>, replies: Seq<Reply>) -> bool {
    match (data_read(command), data_written(command)) {
        (Some(buf), _) => bytes_moved(command, replies) >= buf.len(),
        (None, Some(buf)) => bytes_moved(command, replies) >= buf.len(),
        (None, None) => true,
    }
}

/// Whether a status asks for data in the command's direction.
pub open spec fn asks_for_data(command: Command<Seq<u8>>, status: u32) -> bool {
    if data_read(command) is Some {
        bit(status, 5)
    } else {
        bit(status, 4)
    }
}

/// Whether the FIFO, by the controller's status, has eight bytes to give, or room for
/// eight more.
pub open spec fn fifo_allows(command: Command<Seq<u8>>, fill: u32) -> bool {
    if data_read(command) is Some {
        fill / 0x2_0000 % 0x2000 >= 2
    } else {
        fill / 0x2_0000 % 0x2000 < 120
    }
}

/// The request that moves the next eight bytes: out of the FIFO, or into it, in
/// little-endian order.
pub open spec fn next_move(command: Command<Seq<u8>>, replies: Seq<Reply>) -> Request {
    match data_written(command) {
        Some(buf) => {
            let at = bytes_moved(command, replies);
            Request::WriteFifo(vstd::bytes::spec_u64_from_le_bytes(buf.subrange(at, at + 8)))
        },
        None => Request::ReadFifo,
    }
}

/// Whether the data phase is over, by the interrupt status `status`: the transfer is,
/// there was an error, or a read is complete.
pub open spec fn data_phase_over(
    command: Command<Seq<u8>>,
    replies: Seq<Reply>,
    status: u32,
) -> bool {
    ||| bit(status, 3)
    ||| status & 0xbfc2 != 0
    ||| data_read(command) is Some && all_moved(command, replies)
}

/// What follows once nothing more can be moved for now.
pub open spec fn once_drained(command: Command<Seq<u8>>, replies: Seq<Reply>) -> Request {
    match last_read(SendCmd::begin(command), replies, Reg::Rintsts) {
        Some(status) if data_phase_over(command, replies, status) => Request::ReadResponse,
        _ => Request::Retry(Reg::Rintsts),
    }
}

/// What is due in the data phase, by the last request and its reply.
pub open spec fn due_in_data_phase(command: Command<Seq<u8>>, replies: Seq<Reply>) -> Request {
    let earlier = replies.drop_last();
    match (outstanding(SendCmd::begin(command), earlier), replies.last()) {
        (Request::ReadFifo, _) | (Request::WriteFifo(_), _) => Request::Read(Reg::Status),
        (Request::Read(Reg::Status), Reply::Word(fill)) => if fifo_allows(command, fill)
            && !all_moved(command, replies) {
            next_move(command, replies)
        } else {
            once_drained(command, replies)
        },
        (_, Reply::Word(status)) => if !command_phase_over(command, earlier) {
            Request::Read(Reg::Rintsts)
        } else if asks_for_data(command, status) {
            Request::Read(Reg::Status)
        } else {
            once_drained(command, replies)
        },
        _ => Request::Finished,
    }
}

/// What is due, by the traffic so far.
pub open spec fn due(command: Command<Seq<u8>>, replies: Seq<Reply>) -> Request {
    let start = SendCmd::begin(command);
    let has_data = data_read(command) is Some || data_written(command) is Some;
    if last_write(start, replies, Reg::Cmdarg) is None {
        if !controller_waited_for(command, replies) {
            next_poll(start, replies, Reg::Cmd)
        } else if has_data && !seen(start, replies, Reg::Status, 9, false) {
            next_poll(start, replies, Reg::Status)
        } else {
            Request::Write(Reg::Cmdarg, wire_arg(command))
        }
    } else if last_write(start, replies, Reg::Cmd) is None {
        Request::Write(Reg::Cmd, wire_word(command))
    } else if last_response(replies) is None {
        if !controller_waited_for(command, replies) {
            next_poll(start, replies, Reg::Cmd)
        } else if !response_waited_for(command, replies) {
            next_poll(start, replies, Reg::Rintsts)
        } else if has_data {
            due_in_data_phase(command, replies)
        } else {
            Request::ReadResponse
        }
    } else {
        match replies.last() {
            Reply::Response(_) => Request::Read(Reg::Rintsts),
            Reply::Word(word) => Request::Write(Reg::Rintsts, word),
            _ => Request::Finished,
        }
    }
}

/// What the traffic says of the stage, where the request alone does not tell.
spec fn tells_stage(command: Command<Seq<u8>>, replies: Seq<Reply>) -> bool {
    let start = SendCmd::begin(command);
    let s = after(start, replies);
    let argued = last_write(start, replies, Reg::Cmdarg) is Some;
    let sent = last_write(start, replies, Reg::Cmd) is Some;
    let closed = last_response(replies) is Some;
    let status = last_read(start, replies, Reg::Rintsts);
    let in_data = argued && sent && !closed && command_phase_over(command, replies);
    match s.stage {
        SendStage::AwaitIdle(n) => {
            &&& !argued && !sent && !closed
            &&& polls(start, replies, Reg::Cmd) == n && !seen(start, replies, Reg::Cmd, 31, false)
            &&& polls(start, replies, Reg::Status) == 0
            &&& !seen(start, replies, Reg::Status, 9, false)
        },
        SendStage::AwaitData(again) => {
            &&& !argued && !sent && !closed
            &&& controller_waited_for(command, replies)
            &&& again == (polls(start, replies, Reg::Status) > 0)
            &&& !seen(start, replies, Reg::Status, 9, false)
        },
        SendStage::WriteArg => {
            &&& !argued && !sent && !closed
            &&& controller_waited_for(command, replies)
            &&& s.xfer is Some ==> seen(start, replies, Reg::Status, 9, false)
        },
        SendStage::WriteCmd => argued && !sent && !closed,
        SendStage::AwaitTaken(n) => {
            &&& argued && sent && !closed
            &&& polls(start, replies, Reg::Cmd) == n && !seen(start, replies, Reg::Cmd, 31, false)
            &&& polls(start, replies, Reg::Rintsts) == 0
            &&& !seen(start, replies, Reg::Rintsts, 2, true)
        },
        SendStage::AwaitResponse(n) => {
            &&& argued && sent && !closed && is_answered(command)
            &&& controller_waited_for(command, replies)
            &&& polls(start, replies, Reg::Rintsts) == n
            &&& !seen(start, replies, Reg::Rintsts, 2, true)
        },
        SendStage::PollData(again) => {
            &&& in_data
            &&& !again ==> replies.len() > 0 && !command_phase_over(command, replies.drop_last())
            &&& !again ==> reads(outstanding(start, replies.drop_last()), Reg::Cmd) || reads(
                outstanding(start, replies.drop_last()),
                Reg::Rintsts,
            )
        },
        SendStage::CountFifo(seen) => in_data && status == Some(seen.bits),
        SendStage::MoveWord(seen) => in_data && status == Some(seen.bits),
        SendStage::ReadResponse => in_data,
        _ => argued && sent && closed,
    }
}

/// The buffer's part in the invariant: it keeps its size, and its direction, and the
/// offset is what went through the FIFO.
spec fn tells_data(command: Command<Seq<u8>>, replies: Seq<Reply>) -> bool {
    let s = after(SendCmd::begin(command), replies);
    &&& s.wf()
    &&& s.cmd.bits == wire_word(command)
    &&& s.arg == wire_arg(command)
    &&& s.offset == bytes_moved(command, replies)
    &&& match s.xfer {
        Some(DataXfer::Read(buf)) => data_read(command) matches Some(data) && data.len()
            == buf.len(),
        Some(DataXfer::Write(buf)) => data_read(command) is None && data_written(command) == Some(
            buf,
        ),
        None => data_read(command) is None && data_written(command) is None,
    }
}

/// The data follows the traffic.
proof fn lemma_tells_data(command: Command<Seq<u8>>, replies: Seq<Reply>)
    requires
        sendable(command),
        valid_run(SendCmd::begin(command), replies),
    ensures
        tells_data(command, replies),
    decreases replies.len(),
{
    let start = SendCmd::begin(command);
    commands_on_the_wire(command);
    if replies.len() > 0 {
        let earlier = replies.drop_last();
        lemma_tells_data(command, earlier);
        send_step_wf(after(start, earlier), replies.last());
        assert(after(start, replies) == after(start, earlier).hears(replies.last()));
    }
}

/// The stage and the request follow from the traffic.
#[verifier::rlimit(40)]
proof fn lemma_course(command: Command<Seq<u8>>, replies: Seq<Reply>)
    requires
        sendable(command),
        valid_run(SendCmd::begin(command), replies),
    ensures
        tells_stage(command, replies),
        outstanding(SendCmd::begin(command), replies) == due(command, replies),
    decreases replies.len(),
{
    let start = SendCmd::begin(command);
    commands_on_the_wire(command);
    lemma_tells_data(command, replies);
    if replies.len() > 0 {
        let earlier = replies.drop_last();
        lemma_course(command, earlier);
        lemma_tells_data(command, earlier);
        assert(after(start, replies) == after(start, earlier).hears(replies.last()));
        if let Reply::Word(word) = replies.last() {
            register_fields(word);
        }
        if let Some(word) = last_read(start, replies, Reg::Rintsts) {
            register_fields(word);
        }
    }
}

/// The whole course of a command. Before its argument is written, the controller is
/// polled until it can take a command, then, where there is data, the data line until
/// it is free. The argument and the command word follow. The controller is polled until
/// it has taken the command and, where the card answers, the interrupt status until the
/// response is there. Where there is data, the data phase follows. Then the response is
/// read, and the interrupt status, which is acknowledged as it was read.
pub proof fn command_takes_its_course(command: Command<Seq<u8>>, replies: Seq<Reply>)
    requires
        sendable(command),
        valid_run(SendCmd::begin(command), replies),
    ensures
        outstanding(SendCmd::begin(command), replies) == due(command, replies),
        after(SendCmd::begin(command), replies).result() is Some <==> outstanding(
            SendCmd::begin(command),
            replies,
        ) is Finished,
{
    lemma_course(command, replies);
}

/// Whatever data the hardware asks for is moved, as far as the FIFO and the buffer
/// allow, before the data phase can end: a poll that shows the request is followed by a
/// look at the FIFO; so is every move; and where the response is read although the
/// status read last shows the request, the look before that found too few bytes or too
/// little room, or all data was moved.
pub proof fn requested_data_is_moved(command: Command<Seq<u8>>, replies: Seq<Reply>)
    requires
        sendable(command),
        valid_run(SendCmd::begin(command), replies),
        replies.len() > 0,
        data_read(command) is Some || data_written(command) is Some,
        last_response(replies) is None,
        command_phase_over(command, replies.drop_last()),
    ensures
        ({
            let start = SendCmd::begin(command);
            let asked = outstanding(start, replies.drop_last());
            let next = outstanding(start, replies);
            &&& reads(asked, Reg::Rintsts) && asks_for_data(command, replies.last()->Word_0)
                ==> next == Request::Read(Reg::Status)
            &&& asked is ReadFifo || asked is WriteFifo ==> next == Request::Read(Reg::Status)
            &&& asked == Request::Read(Reg::Status) && fifo_allows(command, replies.last()->Word_0)
                && !all_moved(command, replies) ==> next == next_move(command, replies)
            &&& next is ReadResponse && asks_for_data(
                command,
                last_read(start, replies, Reg::Rintsts)->Some_0,
            ) ==> {
                &&& asked == Request::Read(Reg::Status)
                &&& !fifo_allows(command, replies.last()->Word_0) || all_moved(command, replies)
            }
        }),
{
    lemma_course(command, replies);
    lemma_course(command, replies.drop_last());
}

/// What a command gives in the end: the response that was read, unless the interrupt
/// status read after it has an error bit.
pub proof fn response_is_what_was_read(command: Command<Seq<u8>>, replies: Seq<Reply>)
    requires
        sendable(command),
        valid_run(SendCmd::begin(command), replies),
        after(SendCmd::begin(command), replies).result() is Some,
    ensures
        ({
            let n = replies.len() as int;
            &&& n >= 3
            &&& replies[n - 3] matches Reply::Response(resp)
            &&& replies[n - 2] matches Reply::Word(word)
            &&& after(SendCmd::begin(command), replies).result() == Some(
                if word & 0xbfc2 != 0 {
                    None
                } else {
                    Some(resp)
                },
            )
        }),
{
    crate::send_laws::outcome_follows_status(command, replies);
    if let Reply::Word(word) = replies[replies.len() - 2] {
        register_fields(word);
    }
}

/// What a read leaves in its buffer: byte by byte the words that the FIFO gave, lowest
/// byte first, and behind them what was there before. A write leaves its buffer alone.
pub proof fn buffer_holds_what_was_read(command: Command<Seq<u8>>, replies: Seq<Reply>)
    requires
        sendable(command),
        valid_run(SendCmd::begin(command), replies),
    ensures
        match after(SendCmd::begin(command), replies).xfer {
            Some(DataXfer::Read(data)) => {
                let words = fifo_words(replies);
                &&& data_read(command) matches Some(buf)
                &&& data.len() == buf.len() && 8 * words.len() <= buf.len()
                &&& forall|i: int|
                    0 <= i < data.len() ==> #[trigger] data[i] == if i < 8 * words.len() {
                        vstd::bytes::spec_u64_to_le_bytes(words[i / 8])[i % 8]
                    } else {
                        buf[i]
                    }
            },
            Some(DataXfer::Write(data)) => data_written(command) == Some(data),
            None => data_read(command) is None && data_written(command) is None,
        },
{
    commands_on_the_wire(command);
    lemma_tells_data(command, replies);
    if let Some(buf) = data_read(command) {
        read_takes_fifo_words(command, buf, replies);
        let words = fifo_words(replies);
        let s = after(SendCmd::begin(command), replies);
        assert(has_read(s, buf, words));
        assert(bytes_of(words).len() == 8 * words.len());
    }
}

} // verus!
