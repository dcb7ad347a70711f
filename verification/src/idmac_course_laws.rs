//! What a command whose data the IDMAC moves must ask for next, by what was asked and
//! answered before.
//!
//! The laws speak of the traffic with the machine alone: registers, memory, flags and
//! the clock.
use vstd::prelude::*;

use crate::bits::bit;
use crate::bus::{
    after, last_read, last_response, last_write, outstanding, polls, seen, valid_run, MemLayout,
    Protocol, Reply, Request, WallTime,
};
use crate::cmd::Command;
use crate::dma::{DMAInfo, IdmacDes0, IdmacDes1, IdmacDescriptor};
use crate::field_laws::{
    commands_on_the_wire, data_read, data_written, descriptor_words, register_updates, wire_arg,
    wire_word,
};
use crate::idmac::{DmaRegion, IdmacOutcome, IdmacStage, SendCmdIdmac};
use crate::regs::Reg;
use crate::send_course_laws::next_poll;

verus! {

/// The memory that a command's data is in.
pub open spec fn data_of(command: Command<DmaRegion>) -> DmaRegion {
    match data_read(command) {
        Some(region) => region,
        None => data_written(command)->Some_0,
    }
}

/// Whether the interrupt status has an error bit.
pub open spec fn has_error(status: u32) -> bool {
    status & 0xbfc2 != 0
}

/// The register value in reply number `i`.
pub open spec fn word_in(replies: Seq<Reply>, i: int) -> u32 {
    replies[i]->Word_0
}

/// The memory that was given for the descriptor.
pub open spec fn descriptor_memory(replies: Seq<Reply>) -> DMAInfo {
    replies[6]->Allocated_0->Some_0
}

/// The descriptor of a transfer: the IDMAC's own, first and last, with length and
/// address of the data, and no successor.
pub open spec fn lone_descriptor(region: DmaRegion) -> IdmacDescriptor {
    IdmacDescriptor {
        des0: IdmacDes0 { bits: 0x8000_000c },
        des1: IdmacDes1 { bits: (region.len % 0x1_0000) as u32 },
        des2: (region.addr as int % 0x1_0000_0000) as u32,
        des3: 0,
    }
}

/// The requests before the command, by their number: the state of the hardware is kept,
/// what it has pending is acknowledged as it was read, the descriptor is stored, made
/// visible and handed over, the transaction is sized, and the flags are reset.
pub open spec fn opening(command: Command<DmaRegion>, replies: Seq<Reply>) -> Request {
    let n = replies.len();
    let region = data_of(command);
    let size = if region.len < 512 {
        region.len as int
    } else {
        512
    };
    if n == 0 || n == 4 {
        Request::Read(Reg::Idsts)
    } else if n == 1 || n == 2 {
        Request::Read(Reg::Rintsts)
    } else if n == 3 {
        Request::Write(Reg::Rintsts, word_in(replies, 2))
    } else if n == 5 {
        Request::Write(Reg::Idsts, word_in(replies, 4))
    } else if n == 6 {
        Request::AllocCoherent(MemLayout { size: 16, align: 4 })
    } else if n == 7 {
        if replies[6] == Reply::Allocated(None) {
            Request::Finished
        } else {
            Request::StoreDescriptor(descriptor_memory(replies), lone_descriptor(region))
        }
    } else if n == 8 {
        Request::Fence
    } else if n == 9 {
        Request::Write(
            Reg::Dbaddr,
            (descriptor_memory(replies).bus_addr % 0x1_0000_0000) as u32,
        )
    } else if n == 10 {
        Request::Read(Reg::Blksiz)
    } else if n == 11 {
        Request::Write(
            Reg::Blksiz,
            (word_in(replies, 10) / 0x1_0000 * 0x1_0000 + size) as u32,
        )
    } else if n == 12 {
        Request::Write(Reg::Bytcnt, (region.len as int % 0x1_0000_0000) as u32)
    } else if n == 13 {
        Request::SetDone(false)
    } else {
        Request::SetError(false)
    }
}

/// How far a transfer has come, by what was asked and answered.
pub struct Course {
    /// When the wait for the interrupt began.
    pub irq_since: Option<WallTime>,
    /// The interrupt came, or its second was over.
    pub irq_over: bool,
    /// Its second was over.
    pub irq_late: bool,
    /// When the wait for the response began.
    pub response_since: Option<WallTime>,
    /// The response was seen to be there.
    pub answered: bool,
    /// There was an error instead, or the two seconds were over.
    pub broken_off: bool,
    /// When the wait for the data began.
    pub data_since: Option<WallTime>,
    /// The interrupt status of the latest look at the data transfer.
    pub look: Option<u32>,
    /// Pauses between looks.
    pub pauses: nat,
    /// The wait for the data is over.
    pub data_over: bool,
    /// Its five seconds were over.
    pub slow: bool,
    /// A look showed trouble that was not there before the command.
    pub trouble: bool,
}

/// Nothing has come to pass.
pub open spec fn no_course() -> Course {
    Course {
        irq_since: None,
        irq_over: false,
        irq_late: false,
        response_since: None,
        answered: false,
        broken_off: false,
        data_since: None,
        look: None,
        pauses: 0,
        data_over: false,
        slow: false,
        trouble: false,
    }
}

/// Whether `secs` seconds have passed from `since` to `now`, to the nanosecond.
pub open spec fn passed(since: WallTime, now: WallTime, secs: int) -> bool {
    now.secs * 1_000_000_000 + now.nanos >= (since.secs + secs) * 1_000_000_000 + since.nanos
}

/// Whether the IDMAC's status or the interrupt status show an error that they did not
/// show at first: a fatal bus error, a card error, an unavailable descriptor, or an
/// error of the controller.
pub open spec fn new_trouble(replies: Seq<Reply>, idsts: u32, status: u32) -> bool {
    let idsts_then = word_in(replies, 0);
    let status_then = word_in(replies, 1);
    ||| bit(idsts, 2) && !bit(idsts_then, 2)
    ||| bit(idsts, 5) && !bit(idsts_then, 5)
    ||| bit(idsts, 4) && !bit(idsts_then, 4)
    ||| has_error(status) && !has_error(status_then)
}

impl Course {
    /// What a clock reading tells.
    pub open spec fn at_time(self, now: WallTime) -> Course {
        if self.irq_since is None {
            Course { irq_since: Some(now), ..self }
        } else if !self.irq_over {
            let late = passed(self.irq_since->Some_0, now, 1);
            Course { irq_over: late, irq_late: late, ..self }
        } else if self.response_since is None {
            Course { response_since: Some(now), ..self }
        } else if !self.answered {
            Course { broken_off: passed(self.response_since->Some_0, now, 2), ..self }
        } else if self.data_since is None {
            Course { data_since: Some(now), ..self }
        } else {
            let late = passed(self.data_since->Some_0, now, 5);
            Course { data_over: late, slow: late, ..self }
        }
    }

    /// What a reading of the interrupt status tells.
    pub open spec fn at_status(self, again: bool, status: u32) -> Course {
        if self.response_since is None || self.broken_off || self.data_over {
            self
        } else if !self.answered {
            if again {
                Course { broken_off: has_error(status), ..self }
            } else {
                Course { answered: bit(status, 2), ..self }
            }
        } else {
            Course { look: Some(status), ..self }
        }
    }

    /// What a request and its reply tell.
    pub open spec fn with(self, replies: Seq<Reply>, request: Request, reply: Reply) -> Course {
        match (request, reply) {
            (Request::Now, Reply::Time(now)) => self.at_time(now),
            (Request::TestDone, Reply::Flag(flag)) => if !self.irq_over {
                Course { irq_over: flag, ..self }
            } else {
                let status = self.look->Some_0;
                Course { data_over: flag || bit(status, 3) || has_error(status), ..self }
            },
            (Request::Read(Reg::Rintsts), Reply::Word(status)) => self.at_status(false, status),
            (Request::Retry(Reg::Rintsts), Reply::Word(status)) => self.at_status(true, status),
            (Request::Read(Reg::Idsts), Reply::Word(idsts)) => if self.look is Some
                && !self.data_over {
                let trouble = new_trouble(replies, idsts, self.look->Some_0);
                Course { data_over: trouble, trouble, ..self }
            } else {
                self
            },
            (Request::Delay(_), Reply::Done) => Course {
                pauses: self.pauses + 1,
                data_over: self.pauses + 1 >= u64::MAX,
                ..self
            },
            _ => self,
        }
    }
}

/// How far a transfer has come after `replies`. The replies of the opening tell nothing
/// yet.
pub open spec fn course(command: Command<DmaRegion>, replies: Seq<Reply>) -> Course
    decreases replies.len(),
{
    if replies.len() <= 15 {
        no_course()
    } else {
        course(command, replies.drop_last()).with(
            replies,
            outstanding(SendCmdIdmac::begin(command), replies.drop_last()),
            replies.last(),
        )
    }
}

/// What is due between the opening and the wait for the interrupt: the controller and
/// the data line are waited for, the command goes out, and once it is taken the IDMAC
/// is told to poll, a second time where its descriptor is unavailable, which is
/// acknowledged by itself.
pub open spec fn starting(command: Command<DmaRegion>, replies: Seq<Reply>) -> Request {
    let start = SendCmdIdmac::begin(command);
    let free = seen(start, replies, Reg::Cmd, 31, false);
    let before = replies.drop_last();
    if last_write(start, replies, Reg::Cmdarg) is None {
        if !free {
            next_poll(start, replies, Reg::Cmd)
        } else if !seen(start, replies, Reg::Status, 9, false) {
            next_poll(start, replies, Reg::Status)
        } else {
            Request::Write(Reg::Cmdarg, wire_arg(command))
        }
    } else if last_write(start, replies, Reg::Cmd) is None {
        Request::Write(Reg::Cmd, wire_word(command))
    } else if last_write(start, replies, Reg::Pldmnd) is None {
        if !free {
            next_poll(start, replies, Reg::Cmd)
        } else {
            Request::Write(Reg::Pldmnd, 1)
        }
    } else {
        match (outstanding(start, before), replies.last()) {
            (Request::Write(Reg::Pldmnd, _), _) => if last_write(
                start,
                before,
                Reg::Pldmnd,
            ) is None {
                Request::Read(Reg::Idsts)
            } else {
                Request::Now
            },
            (Request::Read(Reg::Idsts), Reply::Word(idsts)) => if bit(idsts, 4) {
                Request::Write(Reg::Idsts, 0x10)
            } else {
                Request::Now
            },
            _ => Request::Write(Reg::Pldmnd, 1),
        }
    }
}

/// What is due during the three timed waits.
pub open spec fn waiting(command: Command<DmaRegion>, replies: Seq<Reply>) -> Request {
    let start = SendCmdIdmac::begin(command);
    let before = replies.drop_last();
    let asked = outstanding(start, before);
    let then = course(command, before);
    let now = course(command, replies);
    if !now.irq_over {
        match asked {
            Request::Now => if then.irq_since is None {
                Request::TestDone
            } else {
                Request::Yield
            },
            Request::TestDone => Request::Now,
            _ => Request::TestDone,
        }
    } else if now.response_since is None {
        match asked {
            Request::Read(Reg::Rintsts) => Request::Read(Reg::Idsts),
            Request::Read(Reg::Idsts) => Request::Now,
            _ => Request::Read(Reg::Rintsts),
        }
    } else if !now.answered {
        match asked {
            Request::Now => Request::Read(Reg::Rintsts),
            Request::Read(Reg::Rintsts) => Request::Retry(Reg::Rintsts),
            _ => Request::Now,
        }
    } else if now.data_since is None {
        Request::Now
    } else {
        match asked {
            Request::Now => if then.data_since is None {
                Request::Now
            } else {
                Request::Read(Reg::Rintsts)
            },
            Request::Read(Reg::Rintsts) => Request::Read(Reg::Idsts),
            Request::Read(Reg::Idsts) => Request::TestDone,
            Request::TestDone => Request::Delay(1),
            _ => Request::Now,
        }
    }
}

/// What is due after the command was given up: what is pending is acknowledged as it is
/// read, and the descriptor's memory is freed.
pub open spec fn giving_up(command: Command<DmaRegion>, replies: Seq<Reply>) -> Request {
    let before = replies.drop_last();
    let freed = Request::DeallocCoherent(
        descriptor_memory(replies),
        MemLayout { size: 16, align: 4 },
    );
    match (outstanding(SendCmdIdmac::begin(command), before), replies.last()) {
        (Request::Read(Reg::Rintsts), Reply::Word(status)) => Request::Write(Reg::Rintsts, status),
        (Request::Write(Reg::Rintsts, _), _) => Request::Read(Reg::Idsts),
        (Request::Read(Reg::Idsts), Reply::Word(idsts)) => Request::Write(Reg::Idsts, idsts),
        (Request::Write(Reg::Idsts, _), _) => freed,
        (Request::DeallocCoherent(_, _), _) => Request::Finished,
        _ => Request::Read(Reg::Rintsts),
    }
}

/// What is due after the wait for the data: the response, a first look at the hardware
/// where there was none, acknowledgements, the descriptor's memory, and the error flag.
pub open spec fn closing(command: Command<DmaRegion>, replies: Seq<Reply>) -> Request {
    let start = SendCmdIdmac::begin(command);
    let before = replies.drop_last();
    if last_response(replies) is None {
        Request::ReadResponse
    } else {
        match (outstanding(start, before), replies.last()) {
            (Request::ReadResponse, _) => if course(command, replies).look is None {
                Request::Read(Reg::Rintsts)
            } else {
                Request::Read(Reg::Idsts)
            },
            (Request::Read(Reg::Rintsts), _) => Request::Read(Reg::Idsts),
            (Request::Read(Reg::Idsts), Reply::Word(idsts)) => if outstanding(
                start,
                before.drop_last(),
            ) == Request::Read(Reg::Rintsts) {
                Request::Read(Reg::Idsts)
            } else {
                Request::Write(Reg::Idsts, idsts)
            },
            (Request::Write(Reg::Idsts, _), _) => Request::Write(
                Reg::Rintsts,
                last_read(start, replies, Reg::Rintsts)->Some_0,
            ),
            (Request::Write(Reg::Rintsts, _), _) => Request::DeallocCoherent(
                descriptor_memory(replies),
                MemLayout { size: 16, align: 4 },
            ),
            (Request::DeallocCoherent(_, _), _) => Request::TestError,
            _ => Request::Finished,
        }
    }
}

/// What is due, by the traffic so far.
pub open spec fn due(command: Command<DmaRegion>, replies: Seq<Reply>) -> Request {
    let now = course(command, replies);
    if replies.len() < 15 {
        opening(command, replies)
    } else if now.irq_since is None {
        starting(command, replies)
    } else if now.broken_off {
        giving_up(command, replies)
    } else if now.data_over {
        closing(command, replies)
    } else {
        waiting(command, replies)
    }
}

/// What the traffic says of the opening stages.
spec fn tells_opening(command: Command<DmaRegion>, replies: Seq<Reply>) -> bool {
    let s = after(SendCmdIdmac::begin(command), replies);
    let n = replies.len();
    let region = data_of(command);
    &&& s.cmd.bits == wire_word(command) && s.arg == wire_arg(command)
    &&& s.cmd.response_expect() && s.cmd.data_expected()
    &&& s.region == region
    &&& s.descriptor == lone_descriptor(region)
    &&& n > 0 ==> replies[0] == Reply::Word(s.old_idsts.bits)
    &&& n > 1 ==> replies[1] == Reply::Word(s.old_status.bits)
    &&& n > 7 ==> replies[6] == Reply::Allocated(Some(s.memory))
    &&& n < 15 ==> last_response(replies) is None
    &&& match s.stage {
        IdmacStage::SaveIdsts => n == 0,
        IdmacStage::SaveStatus => n == 1,
        IdmacStage::ReadStatus => n == 2,
        IdmacStage::ClearStatus(word) => n == 3 && replies[2] == Reply::Word(word),
        IdmacStage::ReadIdsts => n == 4,
        IdmacStage::ClearIdsts(word) => n == 5 && replies[4] == Reply::Word(word),
        IdmacStage::Allocate => n == 6,
        IdmacStage::Finished(IdmacOutcome::NoDescriptor) => n == 7 && replies[6]
            == Reply::Allocated(None),
        IdmacStage::Store => n == 7 && replies[6] == Reply::Allocated(Some(s.memory)),
        IdmacStage::Fence => n == 8,
        IdmacStage::Mount => n == 9,
        IdmacStage::ReadBlockSize => n == 10,
        IdmacStage::WriteBlockSize(size) => n == 11 && replies[10] is Word && size.bits == word_in(
            replies,
            10,
        ) / 0x1_0000 * 0x1_0000 + (if region.len < 512 {
            region.len as int
        } else {
            512
        }),
        IdmacStage::WriteByteCount => n == 12,
        IdmacStage::ResetDone => n == 13,
        IdmacStage::ResetError => n == 14,
        _ => n >= 15,
    }
}

/// The opening follows its numbers.
proof fn lemma_opening(command: Command<DmaRegion>, replies: Seq<Reply>)
    requires
        command.xfer() is Some,
        valid_run(SendCmdIdmac::begin(command), replies),
    ensures
        tells_opening(command, replies),
        replies.len() < 15 ==> outstanding(SendCmdIdmac::begin(command), replies) == opening(
            command,
            replies,
        ),
    decreases replies.len(),
{
    let start = SendCmdIdmac::begin(command);
    let region = data_of(command);
    commands_on_the_wire(command);
    descriptor_words(region);
    let len: u64 = region.len as u64;
    assert(len as u32 == len % 0x1_0000_0000u64) by (bit_vector);
    if replies.len() > 0 {
        let earlier = replies.drop_last();
        lemma_opening(command, earlier);
        assert(after(start, replies) == after(start, earlier).hears(replies.last()));
        assert(forall|i: int| 0 <= i < earlier.len() ==> earlier[i] == replies[i]);
        if let Reply::Word(word) = replies.last() {
            register_updates(word, true, crate::idmac::block_size(region.len));
        }
        let bus: u64 = after(start, replies).memory.bus_addr;
        assert(bus as u32 == bus % 0x1_0000_0000u64) by (bit_vector);
    }
}

/// What the traffic says of the stages from the opening to the wait for the interrupt.
spec fn tells_start(command: Command<DmaRegion>, replies: Seq<Reply>) -> bool {
    let start = SendCmdIdmac::begin(command);
    let s = after(start, replies);
    let argued = last_write(start, replies, Reg::Cmdarg) is Some;
    let sent = last_write(start, replies, Reg::Cmd) is Some;
    let woken = last_write(start, replies, Reg::Pldmnd) is Some;
    let free = seen(start, replies, Reg::Cmd, 31, false);
    let line_free = seen(start, replies, Reg::Status, 9, false);
    let polled = polls(start, replies, Reg::Cmd) > 0;
    let line_polled = polls(start, replies, Reg::Status) > 0;
    &&& s.age() < 7 ==> !argued && !sent && !woken
    &&& s.stage is ResetDone || s.stage is ResetError ==> !free && !line_free && !polled
        && !line_polled
    &&& match s.stage {
        IdmacStage::AwaitIdle(again) => {
            &&& !argued && !sent && !woken && !free && again == polled
            &&& !line_free && !line_polled
        },
        IdmacStage::AwaitData(again) => {
            &&& !argued && !sent && !woken && free
            &&& !line_free && again == line_polled
        },
        IdmacStage::WriteArg => !argued && !sent && !woken && free && line_free,
        IdmacStage::WriteCmd => argued && !sent && !woken,
        IdmacStage::AwaitTaken(again) => argued && sent && !woken && !free && again == polled,
        IdmacStage::Wake => argued && sent && !woken && free,
        IdmacStage::CheckDescriptor | IdmacStage::ClearUnavailable => argued && sent && woken,
        IdmacStage::WakeAgain | IdmacStage::StartIrqWait => argued && sent && woken,
        _ => true,
    }
}

/// Whether a stage comes before the wait for the interrupt.
spec fn is_early(stage: IdmacStage) -> bool {
    match stage {
        IdmacStage::AwaitIdle(_) | IdmacStage::AwaitData(_) | IdmacStage::WriteArg => true,
        IdmacStage::WriteCmd | IdmacStage::AwaitTaken(_) | IdmacStage::Wake => true,
        IdmacStage::CheckDescriptor | IdmacStage::ClearUnavailable => true,
        IdmacStage::WakeAgain | IdmacStage::StartIrqWait => true,
        _ => false,
    }
}

/// The marks of the start follow the traffic.
#[verifier::rlimit(40)]
proof fn lemma_start_marks(command: Command<DmaRegion>, replies: Seq<Reply>)
    requires
        command.xfer() is Some,
        valid_run(SendCmdIdmac::begin(command), replies),
    ensures
        tells_start(command, replies),
    decreases replies.len(),
{
    let start = SendCmdIdmac::begin(command);
    if replies.len() > 0 {
        let earlier = replies.drop_last();
        lemma_start_marks(command, earlier);
        lemma_opening(command, earlier);
        assert(after(start, replies) == after(start, earlier).hears(replies.last()));
    }
}

/// The start is no part of the timed waits.
proof fn lemma_start_is_early(command: Command<DmaRegion>, replies: Seq<Reply>)
    requires
        command.xfer() is Some,
        valid_run(SendCmdIdmac::begin(command), replies),
    ensures
        is_early(after(SendCmdIdmac::begin(command), replies).stage) ==> {
            &&& replies.len() >= 15
            &&& course(command, replies) == no_course()
            &&& last_response(replies) is None
        },
    decreases replies.len(),
{
    let start = SendCmdIdmac::begin(command);
    lemma_opening(command, replies);
    if replies.len() > 0 {
        let earlier = replies.drop_last();
        lemma_start_is_early(command, earlier);
        lemma_opening(command, earlier);
        let s = after(start, earlier);
        assert(after(start, replies) == s.hears(replies.last()));
        if is_early(after(start, replies).stage) {
            assert(is_early(s.stage) || s.stage is ResetError);
        }
    }
}

/// The start follows from the traffic.
#[verifier::rlimit(40)]
proof fn lemma_start(command: Command<DmaRegion>, replies: Seq<Reply>)
    requires
        command.xfer() is Some,
        valid_run(SendCmdIdmac::begin(command), replies),
        is_early(after(SendCmdIdmac::begin(command), replies).stage),
    ensures
        outstanding(SendCmdIdmac::begin(command), replies) == starting(command, replies),
{
    let start = SendCmdIdmac::begin(command);
    lemma_opening(command, replies);
    lemma_start_marks(command, replies);
    let earlier = replies.drop_last();
    lemma_start_marks(command, earlier);
    lemma_opening(command, earlier);
    assert(after(start, replies) == after(start, earlier).hears(replies.last()));
    assert(0u32 | (1u32 << 4u32) == 0x10u32) by (bit_vector);
}

/// What the course, the interrupt status read last and the response say of the stage.
spec fn tells_wait(
    s: SendCmdIdmac,
    c: Course,
    status: Option<u32>,
    resp: Option<[u32; 4]>,
) -> bool {
    let in_irq = c.irq_since is Some && c.response_since is None && !c.answered && !c.broken_off
        && c.data_since is None && c.look is None && c.pauses == 0 && !c.data_over && !c.slow
        && !c.trouble && resp is None;
    let past_irq = c.irq_since is Some && c.irq_over && c.irq_late == s.irq_timed_out;
    let in_response = past_irq && c.response_since is Some && !c.answered && c.data_since is None
        && c.look is None && c.pauses == 0 && !c.data_over && !c.slow && !c.trouble && resp is None;
    let past_response = past_irq && c.response_since is Some && c.answered && !c.broken_off;
    let in_data = past_response && c.data_since is Some && !c.data_over && !c.slow && !c.trouble
        && resp is None;
    let past_data = past_response && c.data_since is Some && c.data_over;
    match s.stage {
        IdmacStage::TestDone(since) | IdmacStage::IrqClock(since) | IdmacStage::Yield(since) => {
            in_irq && !c.irq_over && !c.irq_late && c.irq_since == Some(since) && !s.irq_timed_out
        },
        IdmacStage::IrqStatus | IdmacStage::IrqIdsts | IdmacStage::StartResponseWait => in_irq
            && past_irq,
        IdmacStage::TestResponse(since) | IdmacStage::TestError(since) => in_response
            && !c.broken_off && c.response_since == Some(since),
        IdmacStage::ResponseClock(since) => in_response && !c.broken_off && c.response_since
            == Some(since),
        IdmacStage::CheckCommand => false,
        IdmacStage::FailStatus | IdmacStage::FailClearStatus(_) => in_response && c.broken_off,
        IdmacStage::FailIdsts | IdmacStage::FailClearIdsts(_) => in_response && c.broken_off,
        IdmacStage::FailFree => in_response && c.broken_off,
        IdmacStage::StartDataWait => past_response && c.data_since is None && c.look is None
            && c.pauses == 0 && !c.data_over && !c.slow && !c.trouble && resp is None,
        IdmacStage::DataClock(since, rounds, last) => {
            &&& in_data && c.data_since == Some(since) && c.pauses == rounds
            &&& last is None ==> c.look is None
            &&& last matches Some(look) ==> c.look == Some(look.status.bits) && status == c.look
                && !look.new_error && !look.status.error()
        },
        IdmacStage::DataStatus(since, rounds) => in_data && c.data_since == Some(since) && c.pauses
            == rounds,
        IdmacStage::DataIdsts(since, rounds, look) => in_data && c.data_since == Some(since)
            && c.pauses == rounds && c.look == Some(look.bits) && status == c.look,
        IdmacStage::DataDone(since, rounds, look) => in_data && c.data_since == Some(since)
            && c.pauses == rounds && c.look == Some(look.status.bits) && status == c.look
            && !look.new_error,
        IdmacStage::DataPause(since, rounds, look) => in_data && c.data_since == Some(since)
            && c.pauses == rounds && c.look == Some(look.status.bits) && status == c.look
            && !look.new_error && !look.status.error(),
        IdmacStage::ReadResponse(Some(look), gave_up) => past_data && resp is None && c.look
            == Some(look.status.bits) && status == c.look && gave_up == (c.slow || c.trouble)
            && look.new_error == c.trouble,
        IdmacStage::ReadResponse(None, gave_up) => past_data && resp is None && c.look is None
            && c.slow && !c.trouble && gave_up,
        IdmacStage::LateStatus(words, gave_up) => past_data && resp == Some(words) && c.look is None
            && c.slow && !c.trouble && gave_up,
        IdmacStage::LateIdsts(words, gave_up, late) => past_data && resp == Some(words)
            && c.look is None && c.slow && !c.trouble && gave_up && status == Some(late.bits),
        IdmacStage::EndIdsts(verdict) | IdmacStage::EndClearIdsts(verdict, _) => {
            past_data && resp == Some(verdict.resp) && status == Some(verdict.status.bits)
                && verdict.failed == (c.irq_late || c.slow || c.trouble || has_error(
                verdict.status.bits,
            ))
        },
        IdmacStage::EndClearStatus(verdict) | IdmacStage::EndFree(verdict) => {
            past_data && resp == Some(verdict.resp) && status == Some(verdict.status.bits)
                && verdict.failed == (c.irq_late || c.slow || c.trouble || has_error(
                verdict.status.bits,
            ))
        },
        IdmacStage::EndFlag(verdict) => past_data && resp == Some(verdict.resp) && status == Some(
            verdict.status.bits,
        ) && verdict.failed == (c.irq_late || c.slow || c.trouble || has_error(
            verdict.status.bits,
        )),
        IdmacStage::Finished(IdmacOutcome::NoDescriptor) => true,
        IdmacStage::Finished(_) => in_response && c.broken_off || past_data && resp is Some,
        _ => true,
    }
}

/// The stages before the timed waits.
spec fn before_waits(stage: IdmacStage) -> bool {
    match stage {
        IdmacStage::SaveIdsts | IdmacStage::SaveStatus | IdmacStage::ReadStatus => true,
        IdmacStage::ClearStatus(_) | IdmacStage::ReadIdsts | IdmacStage::ClearIdsts(_) => true,
        IdmacStage::Allocate | IdmacStage::Store | IdmacStage::Fence | IdmacStage::Mount => true,
        IdmacStage::ReadBlockSize | IdmacStage::WriteBlockSize(_) => true,
        IdmacStage::WriteByteCount | IdmacStage::ResetDone | IdmacStage::ResetError => true,
        _ => is_early(stage),
    }
}

/// One step of the timed waits, and of what follows on them, keeps stage and course in
/// agreement.
#[verifier::rlimit(40)]
proof fn lemma_wait_step(
    s: SendCmdIdmac,
    replies: Seq<Reply>,
    c: Course,
    status: Option<u32>,
    resp: Option<[u32; 4]>,
    reply: Reply,
)
    requires
        tells_wait(s, c, status, resp),
        is_early(s.stage) ==> c == no_course() && resp is None && !s.irq_timed_out,
        is_early(s.stage) || !before_waits(s.stage),
        reply.answers(s.asks()),
        s.cmd.response_expect(),
        replies.len() >= 2,
        replies[0] == Reply::Word(s.old_idsts.bits),
        replies[1] == Reply::Word(s.old_status.bits),
    ensures
        ({
            let status_then = match reply {
                Reply::Word(word) if crate::bus::reads(s.asks(), Reg::Rintsts) => Some(word),
                _ => status,
            };
            let resp_then = match reply {
                Reply::Response(words) => Some(words),
                _ => resp,
            };
            tells_wait(s.hears(reply), c.with(replies, s.asks(), reply), status_then, resp_then)
        }),
{
}

/// The timed waits, and what follows on them, go by the course.
proof fn lemma_waits(command: Command<DmaRegion>, replies: Seq<Reply>)
    requires
        command.xfer() is Some,
        valid_run(SendCmdIdmac::begin(command), replies),
    ensures
        tells_wait(
            after(SendCmdIdmac::begin(command), replies),
            course(command, replies),
            last_read(SendCmdIdmac::begin(command), replies, Reg::Rintsts),
            last_response(replies),
        ),
        before_waits(after(SendCmdIdmac::begin(command), replies).stage) ==> !after(
            SendCmdIdmac::begin(command),
            replies,
        ).irq_timed_out,
    decreases replies.len(),
{
    let start = SendCmdIdmac::begin(command);
    if replies.len() > 0 {
        let earlier = replies.drop_last();
        lemma_waits(command, earlier);
        lemma_opening(command, earlier);
        lemma_start_is_early(command, earlier);
        let s = after(start, earlier);
        assert(after(start, replies) == s.hears(replies.last()));
        if is_early(s.stage) || !before_waits(s.stage) {
            assert(earlier[0] == replies[0] && earlier[1] == replies[1]);
            lemma_wait_step(
                s,
                replies,
                course(command, earlier),
                last_read(start, earlier, Reg::Rintsts),
                last_response(earlier),
                replies.last(),
            );
            assert(!(s.stage is Finished));
        }
    }
}

/// The request before the one outstanding tells the two looks at the end apart.
proof fn lemma_end_looks(command: Command<DmaRegion>, replies: Seq<Reply>)
    requires
        valid_run(SendCmdIdmac::begin(command), replies),
    ensures
        ({
            let start = SendCmdIdmac::begin(command);
            let s = after(start, replies);
            &&& s.stage is LateIdsts ==> outstanding(start, replies.drop_last()) == Request::Read(
                Reg::Rintsts,
            )
            &&& s.stage is EndIdsts ==> outstanding(start, replies.drop_last()) != Request::Read(
                Reg::Rintsts,
            )
        }),
{
    let start = SendCmdIdmac::begin(command);
    if replies.len() > 0 {
        assert(after(start, replies) == after(start, replies.drop_last()).hears(replies.last()));
    }
}

/// The request follows from the traffic.
#[verifier::rlimit(40)]
proof fn lemma_due(command: Command<DmaRegion>, replies: Seq<Reply>)
    requires
        command.xfer() is Some,
        valid_run(SendCmdIdmac::begin(command), replies),
        replies.len() >= 15,
    ensures
        outstanding(SendCmdIdmac::begin(command), replies) == due(command, replies),
{
    let start = SendCmdIdmac::begin(command);
    let earlier = replies.drop_last();
    let s = after(start, earlier);
    let t = after(start, replies);
    assert(t == s.hears(replies.last()));
    lemma_opening(command, replies);
    lemma_waits(command, replies);
    if is_early(t.stage) {
        lemma_start(command, replies);
        lemma_start_is_early(command, replies);
    } else {
        assert(earlier.len() >= 7);
        lemma_opening(command, earlier);
        lemma_waits(command, earlier);
        lemma_start_is_early(command, earlier);
        lemma_end_looks(command, earlier);
        assert(earlier[6] == replies[6]);
    }
}

/// The whole course of a transfer by DMA. It opens with fifteen requests in one order;
/// the command goes out and the IDMAC is woken; the interrupt is awaited for a second,
/// the response for two, the data for five, in each case by looking at the clock only
/// where what is awaited is not there; and at the end, whatever the way, what is pending
/// is acknowledged and the descriptor's memory is freed.
pub proof fn transfer_takes_its_course(command: Command<DmaRegion>, replies: Seq<Reply>)
    requires
        command.xfer() is Some,
        valid_run(SendCmdIdmac::begin(command), replies),
    ensures
        outstanding(SendCmdIdmac::begin(command), replies) == due(command, replies),
        after(SendCmdIdmac::begin(command), replies).result() is Some <==> outstanding(
            SendCmdIdmac::begin(command),
            replies,
        ) is Finished,
{
    if replies.len() < 15 {
        lemma_opening(command, replies);
        if replies.len() > 6 {
            lemma_no_course(command, replies);
        }
    } else {
        lemma_due(command, replies);
    }
}

/// The opening is no part of the timed waits.
proof fn lemma_no_course(command: Command<DmaRegion>, replies: Seq<Reply>)
    requires
        replies.len() <= 15,
    ensures
        course(command, replies) == no_course(),
{
}

/// When the command goes out, the transaction is sized: the block size register was
/// written, with the length of the data or 512, whichever is less, in its low half, and
/// its high half as it was read; and the byte count is the length of the data.
pub proof fn transaction_is_sized(command: Command<DmaRegion>, replies: Seq<Reply>)
    requires
        command.xfer() is Some,
        valid_run(SendCmdIdmac::begin(command), replies),
    ensures
        ({
            let start = SendCmdIdmac::begin(command);
            let region = data_of(command);
            let sized = last_write(start, replies, Reg::Blksiz);
            &&& replies.len() >= 12 ==> {
                &&& last_read(start, replies, Reg::Blksiz) matches Some(old)
                &&& sized matches Some(word)
                &&& word / 0x1_0000 == old / 0x1_0000
                &&& word % 0x1_0000 == (if region.len < 512 {
                    region.len as int
                } else {
                    512
                })
            }
            &&& replies.len() >= 13 ==> last_write(start, replies, Reg::Bytcnt) == Some(
                (region.len as int % 0x1_0000_0000) as u32,
            )
            &&& outstanding(start, replies) matches Request::Write(reg, _) ==> (reg == Reg::Bytcnt
                || reg == Reg::Cmdarg || reg == Reg::Cmd || reg == Reg::Pldmnd ==> replies.len()
                >= 12)
        }),
    decreases replies.len(),
{
    let start = SendCmdIdmac::begin(command);
    lemma_opening(command, replies);
    if replies.len() > 0 {
        let earlier = replies.drop_last();
        transaction_is_sized(command, earlier);
        lemma_opening(command, earlier);
        let s = after(start, earlier);
        assert(after(start, replies) == s.hears(replies.last()));
        if replies.len() == 12 {
            assert(word_in(earlier, 10) <= u32::MAX);
            assert(last_read(start, replies.take(11), Reg::Blksiz) == Some(word_in(replies, 10)))
                by {
                let first = replies.take(11);
                assert(first =~= earlier);
                assert(earlier.drop_last().len() == 10);
                lemma_prefix_valid(command, earlier);
                lemma_opening(command, earlier.drop_last());
            }
            assert(replies.take(11) =~= earlier);
        }
    }
}

/// A run without its last reply is a run.
proof fn lemma_prefix_valid(command: Command<DmaRegion>, replies: Seq<Reply>)
    requires
        valid_run(SendCmdIdmac::begin(command), replies),
        replies.len() > 0,
    ensures
        valid_run(SendCmdIdmac::begin(command), replies.drop_last()),
        replies.last().answers(outstanding(SendCmdIdmac::begin(command), replies.drop_last())),
{
}

/// How a transfer ends. Without memory for the descriptor it ends at once. Where the
/// command phase was broken off it fails. Otherwise it gives the response that was read,
/// exactly if the interrupt came within its second, the data took no five seconds, no
/// look showed new trouble, the interrupt status read last has no error, and the
/// interrupt handler's error flag is not set.
pub proof fn transfer_ends_by_its_course(command: Command<DmaRegion>, replies: Seq<Reply>)
    requires
        command.xfer() is Some,
        valid_run(SendCmdIdmac::begin(command), replies),
        after(SendCmdIdmac::begin(command), replies).result() is Some,
    ensures
        ({
            let start = SendCmdIdmac::begin(command);
            let c = course(command, replies);
            let outcome = after(start, replies).result()->Some_0;
            if replies.len() == 7 {
                &&& replies[6] == Reply::Allocated(None)
                &&& outcome is NoDescriptor
            } else if c.broken_off {
                outcome is Failed
            } else {
                &&& last_read(start, replies, Reg::Rintsts) matches Some(status)
                &&& last_response(replies) matches Some(resp)
                &&& outcome == if replies.last() == Reply::Flag(true) || c.irq_late || c.slow
                    || c.trouble || has_error(status) {
                    IdmacOutcome::Failed
                } else {
                    IdmacOutcome::Response(resp)
                }
            }
        }),
{
    let start = SendCmdIdmac::begin(command);
    let earlier = replies.drop_last();
    lemma_opening(command, replies);
    lemma_opening(command, earlier);
    lemma_waits(command, earlier);
    lemma_waits(command, replies);
    assert(after(start, replies) == after(start, earlier).hears(replies.last()));
}

} // verus!
