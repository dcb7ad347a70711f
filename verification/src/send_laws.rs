//! What holds of every run of a command that the CPU moves the data of.
use vstd::prelude::*;

use crate::bus::{
    after, fifo_words, last_read, log, outstanding, polls, valid_run, Protocol, Reply, Request,
};
use crate::cmd::{command_word_fields, Cmd, Command, DataXfer};
use crate::regs::{RIntSts, Reg, Status};
use crate::send::{overlay, sendable, word_at, SendCmd, SendStage, MAX_WAIT};

verus! {

/// The requests by which a command acts on the card: its issue and its data.
pub open spec fn acts_on_card(request: Request) -> bool {
    match request {
        Request::Write(Reg::Cmdarg, _) | Request::Write(Reg::Cmd, _) => true,
        Request::ReadFifo | Request::WriteFifo(_) => true,
        _ => false,
    }
}

/// The bytes of little-endian numbers, one after the other.
pub open spec fn bytes_of(words: Seq<u64>) -> Seq<u8> {
    Seq::new(
        words.len() * 8,
        |i: int| vstd::bytes::spec_u64_to_le_bytes(words[i / 8])[i % 8],
    )
}

/// The numbers that the first `count` groups of eight bytes make.
pub open spec fn words_of(buf: Seq<u8>, count: nat) -> Seq<u64> {
    Seq::new(count, |i: int| word_at(buf, i * 8))
}

impl SendCmd<Seq<u8>> {
    /// The requests that moved the data so far.
    pub open spec fn moved(self) -> Seq<Request> {
        let count = self.offset as nat / 8;
        match self.xfer {
            None => Seq::empty(),
            Some(DataXfer::Read(_)) => Seq::new(count, |i: int| Request::ReadFifo),
            Some(DataXfer::Write(buf)) => Seq::new(
                count,
                |i: int| Request::WriteFifo(word_at(buf, i * 8)),
            ),
        }
    }

    /// What the command has done to the card so far.
    pub open spec fn acted(self) -> Seq<Request> {
        let arg = Request::Write(Reg::Cmdarg, self.arg);
        let cmd = Request::Write(Reg::Cmd, self.cmd.bits);
        match self.stage {
            SendStage::AwaitIdle(_) | SendStage::AwaitData(_) | SendStage::WriteArg => Seq::empty(),
            SendStage::WriteCmd => seq![arg],
            _ => seq![arg, cmd] + self.moved(),
        }
    }

    /// An upper bound on the replies still to come where there is no data.
    pub open spec fn replies_left(self) -> int {
        let wait = MAX_WAIT as int + 1;
        match self.stage {
            SendStage::AwaitIdle(n) => 3 * wait + 5 - n,
            SendStage::AwaitData(_) => 2 * wait + 6,
            SendStage::WriteArg => 2 * wait + 5,
            SendStage::WriteCmd => 2 * wait + 4,
            SendStage::AwaitTaken(n) => 2 * wait + 3 - n,
            SendStage::AwaitResponse(n) => wait + 3 - n,
            SendStage::ReadResponse => 3,
            SendStage::ReadStatus(_) => 2,
            SendStage::ClearStatus(_, _) => 1,
            _ => 0,
        }
    }
}

/// A reply keeps a well-formed command well-formed.
pub proof fn send_step_wf(s: SendCmd<Seq<u8>>, reply: Reply)
    requires
        s.wf(),
    ensures
        s.hears(reply).wf(),
        s.hears(reply).cmd == s.cmd,
        s.hears(reply).arg == s.arg,
{
}

/// One step adds to what was done to the card the request that it answers,
/// where that request acts on the card.
pub proof fn send_step_acts(s: SendCmd<Seq<u8>>, reply: Reply)
    requires
        s.wf(),
        reply.answers(s.asks()),
    ensures
        s.hears(reply).acted() == if acts_on_card(s.asks()) {
            s.acted().push(s.asks())
        } else {
            s.acted()
        },
{
    let t = s.hears(reply);
    if let SendStage::MoveWord(_) = s.stage {
        let count = s.offset as nat / 8;
        assert(t.offset as nat / 8 == count + 1);
        assert(count * 8 == s.offset);
        assert(t.moved() =~= s.moved().push(s.asks()));
        assert(t.acted() =~= s.acted().push(s.asks()));
    } else if let SendStage::WriteCmd = s.stage {
        assert(t.moved() =~= Seq::empty());
        assert(t.acted() =~= s.acted().push(s.asks()));
    } else if let SendStage::WriteArg = s.stage {
        assert(t.acted() =~= s.acted().push(s.asks()));
    } else {
        assert(t.acted() =~= s.acted());
    }
}

/// Whatever the hardware answers, a command acts on the card by writing its
/// argument, then itself, then moving its data in order, and by nothing else.
pub proof fn command_is_issued_once(command: Command<Seq<u8>>, replies: Seq<Reply>)
    requires
        sendable(command),
        valid_run(SendCmd::begin(command), replies),
    ensures
        after(SendCmd::begin(command), replies).wf(),
        log(SendCmd::begin(command), replies, |q: Request| acts_on_card(q)) == after(
            SendCmd::begin(command),
            replies,
        ).acted(),
    decreases replies.len(),
{
    let start = SendCmd::begin(command);
    let keep = |q: Request| acts_on_card(q);
    command_word_fields(command);
    if replies.len() > 0 {
        let earlier = replies.drop_last();
        command_is_issued_once(command, earlier);
        send_step_wf(after(start, earlier), replies.last());
        send_step_acts(after(start, earlier), replies.last());
    }
}

/// A finished command has issued itself exactly once; its outcome is the
/// response that was read last, unless the status read after it, and
/// acknowledged as read, records an error.
pub proof fn outcome_follows_status(command: Command<Seq<u8>>, replies: Seq<Reply>)
    requires
        sendable(command),
        valid_run(SendCmd::begin(command), replies),
    ensures
        ({
            let start = SendCmd::begin(command);
            let n = replies.len() as int;
            &&& after(start, replies).stage matches SendStage::ReadStatus(resp) ==> n >= 1
                && replies[n - 1] == Reply::Response(resp)
            &&& after(start, replies).stage matches SendStage::ClearStatus(resp, status) ==> {
                &&& n >= 2
                &&& replies[n - 2] == Reply::Response(resp)
                &&& replies[n - 1] == Reply::Word(status.bits)
            }
            &&& after(start, replies).result() matches Some(outcome) ==> {
                &&& n >= 3
                &&& replies[n - 3] matches Reply::Response(resp)
                &&& replies[n - 2] matches Reply::Word(word)
                &&& outcome == (if (RIntSts { bits: word }).error() {
                    None
                } else {
                    Some(resp)
                })
                &&& outstanding(start, replies.drop_last()) == Request::Write(Reg::Rintsts, word)
            }
        }),
    decreases replies.len(),
{
    let start = SendCmd::begin(command);
    if replies.len() > 0 {
        let earlier = replies.drop_last();
        outcome_follows_status(command, earlier);
        assert(after(start, replies) == after(start, earlier).hears(replies.last()));
    }
}

/// A command without data comes to an end: no run of it is longer than the three
/// bounded waits and the five other requests take.
pub proof fn command_without_data_ends(command: Command<Seq<u8>>, replies: Seq<Reply>)
    requires
        command.xfer() is None,
        valid_run(SendCmd::begin(command), replies),
    ensures
        replies.len() + after(SendCmd::begin(command), replies).replies_left() <= 3 * (MAX_WAIT + 1)
            + 5,
        replies.len() <= 3 * (MAX_WAIT + 1) + 5,
        after(SendCmd::begin(command), replies).wf(),
        after(SendCmd::begin(command), replies).xfer is None,
    decreases replies.len(),
{
    let start = SendCmd::begin(command);
    command_word_fields(command);
    if replies.len() > 0 {
        let earlier = replies.drop_last();
        command_without_data_ends(command, earlier);
        send_step_wf(after(start, earlier), replies.last());
        assert(after(start, replies).replies_left() < after(start, earlier).replies_left());
    }
}

/// A command that has read `words` into a buffer that held `buf` before.
pub open spec fn has_read(s: SendCmd<Seq<u8>>, buf: Seq<u8>, words: Seq<u64>) -> bool {
    &&& s.wf()
    &&& s.offset == words.len() * 8
    &&& s.xfer == Some(DataXfer::Read(overlay(buf, 0, bytes_of(words))))
}

/// One step reads the word that the FIFO gave, where it gave one.
pub proof fn send_step_reads(s: SendCmd<Seq<u8>>, buf: Seq<u8>, words: Seq<u64>, reply: Reply)
    requires
        has_read(s, buf, words),
        reply.answers(s.asks()),
    ensures
        has_read(
            s.hears(reply),
            buf,
            match reply {
                Reply::Fifo(word) => words.push(word),
                _ => words,
            },
        ),
{
    send_step_wf(s, reply);
    if let Reply::Fifo(word) = reply {
        vstd::bytes::lemma_auto_spec_u64_to_from_le_bytes();
        let bytes = vstd::bytes::spec_u64_to_le_bytes(word);
        let more = bytes_of(words.push(word));
        assert(bytes.len() == 8);
        assert forall|i: int| 0 <= i < more.len() implies #[trigger] more[i] == if i < s.offset {
            bytes_of(words)[i]
        } else {
            bytes[i - s.offset]
        } by {
            if i < s.offset {
                assert(i / 8 < words.len());
            } else {
                assert(i / 8 == words.len());
                assert(i % 8 == i - s.offset);
            }
        }
        assert(overlay(overlay(buf, 0, bytes_of(words)), s.offset as int, bytes) =~= overlay(
            buf,
            0,
            more,
        ));
    }
}

/// Reading fills the buffer from its start with the words that the FIFO gave,
/// each in little-endian order, and leaves the rest of it alone.
pub proof fn read_takes_fifo_words(
    command: Command<Seq<u8>>,
    buf: Seq<u8>,
    replies: Seq<Reply>,
)
    requires
        command.xfer() == Some(DataXfer::Read(buf)),
        sendable(command),
        valid_run(SendCmd::begin(command), replies),
    ensures
        has_read(after(SendCmd::begin(command), replies), buf, fifo_words(replies)),
    decreases replies.len(),
{
    let start = SendCmd::begin(command);
    if replies.len() == 0 {
        command_word_fields(command);
        assert(overlay(buf, 0, bytes_of(fifo_words(replies))) =~= buf);
    } else {
        let earlier = replies.drop_last();
        read_takes_fifo_words(command, buf, earlier);
        send_step_reads(after(start, earlier), buf, fifo_words(earlier), replies.last());
    }
}

/// The words that a buffer is sent as hold the buffer's bytes: read back, they
/// give the same buffer.
pub proof fn words_keep_bytes(buf: Seq<u8>)
    requires
        buf.len() % 8 == 0,
    ensures
        bytes_of(words_of(buf, buf.len() / 8)) == buf,
{
    vstd::bytes::lemma_auto_spec_u64_to_from_le_bytes();
    let words = words_of(buf, buf.len() / 8);
    assert forall|i: int| 0 <= i < buf.len() implies #[trigger] bytes_of(words)[i] == buf[i] by {
        let group = buf.subrange(i / 8 * 8, i / 8 * 8 + 8);
        assert(vstd::bytes::spec_u64_to_le_bytes(vstd::bytes::spec_u64_from_le_bytes(group))
            == group);
        assert(words[i / 8] == vstd::bytes::spec_u64_from_le_bytes(group));
    }
    assert(bytes_of(words) =~= buf);
}

/// Where a read is given the words that a write of a whole block put out, it
/// ends with the block that was written.
pub proof fn read_returns_what_was_written(
    write: Command<Seq<u8>>,
    written: Seq<u8>,
    write_replies: Seq<Reply>,
    read: Command<Seq<u8>>,
    buf: Seq<u8>,
    read_replies: Seq<Reply>,
)
    requires
        write.xfer() == Some(DataXfer::Write(written)),
        sendable(write),
        valid_run(SendCmd::begin(write), write_replies),
        after(SendCmd::begin(write), write_replies).offset == written.len(),
        read.xfer() == Some(DataXfer::Read(buf)),
        sendable(read),
        buf.len() == written.len(),
        valid_run(SendCmd::begin(read), read_replies),
        log(
            SendCmd::begin(write),
            write_replies,
            |q: Request| acts_on_card(q),
        ) == seq![
            Request::Write(Reg::Cmdarg, write.arg()),
            Request::Write(Reg::Cmd, write.word().bits),
        ] + fifo_words(read_replies).map_values(|word: u64| Request::WriteFifo(word)),
    ensures
        after(SendCmd::begin(read), read_replies).xfer == Some(DataXfer::Read(written)),
{
    let sent = after(SendCmd::begin(write), write_replies);
    let words = fifo_words(read_replies);
    let puts = words.map_values(|word: u64| Request::WriteFifo(word));
    command_is_issued_once(write, write_replies);
    write_keeps_buffer(write, written, write_replies);
    let issue = seq![
        Request::Write(Reg::Cmdarg, write.arg()),
        Request::Write(Reg::Cmd, write.word().bits),
    ];
    if written.len() == 0 {
        assert(log(SendCmd::begin(write), write_replies, |q: Request| acts_on_card(q)).len() == 2
            + words.len());
        assert(sent.acted().len() <= 2);
        assert(words =~= words_of(written, 0));
    } else {
        assert(sent.acted() == issue + sent.moved());
        assert(sent.moved() =~= (issue + sent.moved()).skip(2));
        assert(puts =~= (issue + puts).skip(2));
        assert(words =~= words_of(written, written.len() / 8)) by {
            assert(words.len() == written.len() / 8);
            assert forall|i: int| 0 <= i < words.len() implies words[i] == #[trigger] words_of(
                written,
                written.len() / 8,
            )[i] by {
                assert(puts[i] == sent.moved()[i]);
            }
        }
    }
    words_keep_bytes(written);
    read_takes_fifo_words(read, buf, read_replies);
    assert(overlay(buf, 0, written) =~= written);
}

/// Writing leaves the buffer and the identity of the command alone.
pub proof fn write_keeps_buffer(
    command: Command<Seq<u8>>,
    buf: Seq<u8>,
    replies: Seq<Reply>,
)
    requires
        command.xfer() == Some(DataXfer::Write(buf)),
        sendable(command),
        valid_run(SendCmd::begin(command), replies),
    ensures
        after(SendCmd::begin(command), replies).xfer == Some(DataXfer::Write(buf)),
        after(SendCmd::begin(command), replies).cmd == command.word(),
        after(SendCmd::begin(command), replies).arg == command.arg(),
        after(SendCmd::begin(command), replies).wf(),
    decreases replies.len(),
{
    command_word_fields(command);
    if replies.len() > 0 {
        write_keeps_buffer(command, buf, replies.drop_last());
        send_step_wf(after(SendCmd::begin(command), replies.drop_last()), replies.last());
    }
}

/// The interrupt status that had been read last when the response was read.
pub open spec fn status_at_response(start: SendCmd<Seq<u8>>, replies: Seq<Reply>) -> Option<u32>
    decreases replies.len(),
{
    if replies.len() == 0 {
        None
    } else {
        match outstanding(start, replies.drop_last()) {
            Request::ReadResponse => last_read(start, replies.drop_last(), Reg::Rintsts),
            _ => status_at_response(start, replies.drop_last()),
        }
    }
}

/// Whether the wait for the controller is over: it was read free to take a command,
/// or every poll that the wait has was in vain.
pub open spec fn controller_awaited(start: SendCmd<Seq<u8>>, replies: Seq<Reply>) -> bool {
    ||| last_read(start, replies, Reg::Cmd) matches Some(word) && !(Cmd { bits: word }).start_cmd()
    ||| polls(start, replies, Reg::Cmd) == MAX_WAIT + 1
}

/// Whether the wait for the response is over: the status showed it, or every poll
/// that the wait has was in vain.
pub open spec fn response_awaited(start: SendCmd<Seq<u8>>, replies: Seq<Reply>) -> bool {
    ||| last_read(start, replies, Reg::Rintsts) matches Some(word) && (RIntSts {
        bits: word,
    }).command_done()
    ||| polls(start, replies, Reg::Rintsts) == MAX_WAIT + 1
}

/// Whether the data line was read free.
pub open spec fn data_line_free(start: SendCmd<Seq<u8>>, replies: Seq<Reply>) -> bool {
    last_read(start, replies, Reg::Status) matches Some(word) && !(Status {
        bits: word,
    }).data_busy()
}

impl SendCmd<Seq<u8>> {
    /// Whether the data phase ends after `status` was read.
    spec fn shows_end(self, status: Option<u32>) -> bool {
        match status {
            Some(word) => self.data_over(RIntSts { bits: word }),
            None => false,
        }
    }
}

/// What the replies so far say of the stage that a command has come to.
spec fn stage_fits(start: SendCmd<Seq<u8>>, replies: Seq<Reply>) -> bool {
    let s = after(start, replies);
    let status = last_read(start, replies, Reg::Rintsts);
    let taken = controller_awaited(start, replies);
    let answered = taken && (s.cmd.response_expect() ==> response_awaited(start, replies));
    match s.stage {
        SendStage::AwaitIdle(n) => polls(start, replies, Reg::Cmd) == n,
        SendStage::AwaitData(_) => taken,
        SendStage::WriteArg => taken && (s.cmd.data_expected() ==> data_line_free(start, replies)),
        SendStage::WriteCmd => s.cmd.data_expected() ==> data_line_free(start, replies),
        SendStage::AwaitTaken(n) => {
            &&& polls(start, replies, Reg::Cmd) == n
            &&& polls(start, replies, Reg::Rintsts) == 0
        },
        SendStage::AwaitResponse(n) => taken && polls(start, replies, Reg::Rintsts) == n,
        SendStage::PollData(again) => {
            &&& again ==> status is Some && !s.shows_end(status)
            &&& !again ==> answered
        },
        SendStage::CountFifo(seen) => status == Some(seen.bits) && s.wants_data(seen),
        SendStage::MoveWord(seen) => {
            &&& status == Some(seen.bits) && s.wants_data(seen)
            &&& replies.len() > 0
            &&& outstanding(start, replies.drop_last()) == Request::Read(Reg::Status)
            &&& replies.last() matches Reply::Word(word)
            &&& s.can_move((Status { bits: word }).fifo_count())
        },
        SendStage::ReadResponse => {
            &&& s.xfer is Some ==> s.shows_end(status)
            &&& s.xfer is None ==> answered
        },
        _ => s.xfer is Some ==> s.shows_end(status_at_response(start, replies)),
    }
}

/// The stage that a command has come to fits the replies so far.
#[verifier::rlimit(60)]
proof fn lemma_stage_fits(command: Command<Seq<u8>>, replies: Seq<Reply>)
    requires
        sendable(command),
        valid_run(SendCmd::begin(command), replies),
    ensures
        stage_fits(SendCmd::begin(command), replies),
        after(SendCmd::begin(command), replies).wf(),
        after(SendCmd::begin(command), replies).cmd == command.word(),
    decreases replies.len(),
{
    let start = SendCmd::begin(command);
    command_word_fields(command);
    if replies.len() > 0 {
        let earlier = replies.drop_last();
        lemma_stage_fits(command, earlier);
        send_step_wf(after(start, earlier), replies.last());
        assert(after(start, replies) == after(start, earlier).hears(replies.last()));
    }
}

/// A command goes out once the controller was read free to take it or the wait for
/// that was given up, and, where it moves data, not before the data line was read
/// free.
pub proof fn command_awaits_its_turn(command: Command<Seq<u8>>, replies: Seq<Reply>)
    requires
        sendable(command),
        valid_run(SendCmd::begin(command), replies),
    ensures
        ({
            let start = SendCmd::begin(command);
            let request = outstanding(start, replies);
            &&& request matches Request::Write(Reg::Cmdarg, _) ==> controller_awaited(start, replies)
            &&& request matches Request::Write(Reg::Cmdarg, _) ==> command.xfer() is Some
                ==> data_line_free(start, replies)
            &&& request matches Request::Write(Reg::Cmd, _) ==> command.xfer() is Some
                ==> data_line_free(start, replies)
        }),
{
    command_word_fields(command);
    lemma_stage_fits(command, replies);
}

/// A command that moves no data reads its response once the controller has taken
/// it and, where one is due, the response is there, or the wait for it was given
/// up; one that moves data first looks for data then.
pub proof fn command_awaits_its_response(command: Command<Seq<u8>>, replies: Seq<Reply>)
    requires
        sendable(command),
        valid_run(SendCmd::begin(command), replies),
    ensures
        ({
            let start = SendCmd::begin(command);
            let s = after(start, replies);
            s.stage is ReadResponse && command.xfer() is None || s.stage == SendStage::PollData(
                false,
            ) ==> {
                &&& controller_awaited(start, replies)
                &&& command.word().response_expect() ==> response_awaited(start, replies)
            }
        }),
{
    lemma_stage_fits(command, replies);
    lemma_keeps_direction(command, replies);
}

/// A command keeps the direction and the size of its data.
proof fn lemma_keeps_direction(command: Command<Seq<u8>>, replies: Seq<Reply>)
    requires
        sendable(command),
        valid_run(SendCmd::begin(command), replies),
    ensures
        after(SendCmd::begin(command), replies).wf(),
        match (command.xfer(), after(SendCmd::begin(command), replies).xfer) {
            (None, None) => true,
            (Some(DataXfer::Read(buf)), Some(DataXfer::Read(now))) => now.len() == buf.len(),
            (Some(DataXfer::Write(buf)), Some(DataXfer::Write(now))) => now == buf,
            _ => false,
        },
    decreases replies.len(),
{
    command_word_fields(command);
    if replies.len() > 0 {
        lemma_keeps_direction(command, replies.drop_last());
        send_step_wf(after(SendCmd::begin(command), replies.drop_last()), replies.last());
    }
}

/// A word is read only right after the FIFO was seen to hold two 32-bit words or
/// more, and sent only right after it was seen to hold fewer than 120, both only
/// while the interrupt status read last asks for data that way.
pub proof fn words_move_as_the_fifo_allows(command: Command<Seq<u8>>, replies: Seq<Reply>)
    requires
        sendable(command),
        valid_run(SendCmd::begin(command), replies),
    ensures
        ({
            let start = SendCmd::begin(command);
            let request = outstanding(start, replies);
            request is ReadFifo || request is WriteFifo ==> {
                &&& replies.len() > 0
                &&& outstanding(start, replies.drop_last()) == Request::Read(Reg::Status)
                &&& replies.last() matches Reply::Word(fill)
                &&& last_read(start, replies, Reg::Rintsts) matches Some(word)
                &&& if request is ReadFifo {
                    &&& command.xfer() matches Some(DataXfer::Read(_))
                    &&& (Status { bits: fill }).fifo_count() >= 2
                    &&& (RIntSts { bits: word }).receive_fifo_data_request()
                } else {
                    &&& command.xfer() matches Some(DataXfer::Write(_))
                    &&& (Status { bits: fill }).fifo_count() < 120
                    &&& (RIntSts { bits: word }).transmit_fifo_data_request()
                }
            }
        }),
{
    lemma_stage_fits(command, replies);
    lemma_keeps_direction(command, replies);
}

/// When the data phase ends. A read that is over is full, unless the status polled
/// last in its data phase showed the transfer over or an error; a write ends only
/// after such a status. While none of this holds, the status is polled again.
pub proof fn data_phase_ends_for_a_reason(command: Command<Seq<u8>>, replies: Seq<Reply>)
    requires
        sendable(command),
        valid_run(SendCmd::begin(command), replies),
        command.xfer() is Some,
    ensures
        ({
            let start = SendCmd::begin(command);
            let s = after(start, replies);
            let full = command.xfer() matches Some(DataXfer::Read(buf)) && fifo_words(replies).len()
                * 8 == buf.len();
            let ended = |status: Option<u32>|
                status matches Some(word) && ((RIntSts { bits: word }).data_transfer_over()
                    || (RIntSts { bits: word }).error());
            &&& s.stage is ReadResponse ==> full || ended(last_read(start, replies, Reg::Rintsts))
            &&& s.stage == SendStage::PollData(true) ==> !full && !ended(
                last_read(start, replies, Reg::Rintsts),
            )
            &&& s.result() is Some ==> full || ended(status_at_response(start, replies))
        }),
{
    lemma_stage_fits(command, replies);
    lemma_keeps_direction(command, replies);
    if let Some(DataXfer::Read(buf)) = command.xfer() {
        read_takes_fifo_words(command, buf, replies);
    }
}

} // verus!
