//! What holds of every run of a command that the IDMAC moves the data of.
use vstd::prelude::*;

use crate::bus::{
    after, last_allocation, last_read, last_response, lemma_run_in_parts, log, outstanding, reads,
    valid_run, Protocol, Reply, Request, WallTime,
};
use crate::cmd::{command_word_fields, Cmd, Command};
use crate::dma::{lemma_control_word, DMAInfo};
use crate::idmac::{
    block_size, descriptor_for, descriptor_layout, new_error, region_of, DmaRegion, IdmacOutcome,
    IdmacStage, SendCmdIdmac, Verdict, DATA_TIMEOUT, IRQ_TIMEOUT, RESPONSE_TIMEOUT,
};
use crate::regs::{BlkSiz, IdSts, RIntSts, Reg, Status};

verus! {

/// The requests by which a transfer is set up, started and taken down.
pub open spec fn manages_transfer(request: Request) -> bool {
    match request {
        Request::AllocCoherent(_) | Request::DeallocCoherent(_, _) => true,
        Request::StoreDescriptor(_, _) | Request::Fence => true,
        Request::SetDone(_) | Request::SetError(_) => true,
        Request::Write(Reg::Dbaddr, _) | Request::Write(Reg::Bytcnt, _) => true,
        Request::Write(Reg::Cmdarg, _) | Request::Write(Reg::Cmd, _) => true,
        _ => false,
    }
}

impl SendCmdIdmac {
    /// The life of a transfer: get memory for the descriptor, store it, make it
    /// visible, hand it over, give the byte count, reset the flags of the
    /// interrupt handler, send the command, and free the memory.
    pub open spec fn life(self) -> Seq<Request> {
        seq![
            Request::AllocCoherent(descriptor_layout()),
            Request::StoreDescriptor(self.memory, self.descriptor),
            Request::Fence,
            Request::Write(Reg::Dbaddr, self.memory.bus_addr as u32),
            Request::Write(Reg::Bytcnt, self.region.len as u32),
            Request::SetDone(false),
            Request::SetError(false),
            Request::Write(Reg::Cmdarg, self.arg),
            Request::Write(Reg::Cmd, self.cmd.bits),
            Request::DeallocCoherent(self.memory, descriptor_layout()),
        ]
    }

    /// How much of its life a transfer has behind it.
    pub open spec fn age(self) -> int {
        match self.stage {
            IdmacStage::SaveIdsts | IdmacStage::SaveStatus | IdmacStage::ReadStatus => 0,
            IdmacStage::ClearStatus(_) | IdmacStage::ReadIdsts => 0,
            IdmacStage::ClearIdsts(_) | IdmacStage::Allocate => 0,
            IdmacStage::Store | IdmacStage::Finished(IdmacOutcome::NoDescriptor) => 1,
            IdmacStage::Fence => 2,
            IdmacStage::Mount => 3,
            IdmacStage::ReadBlockSize | IdmacStage::WriteBlockSize(_) => 4,
            IdmacStage::WriteByteCount => 4,
            IdmacStage::ResetDone => 5,
            IdmacStage::ResetError => 6,
            IdmacStage::AwaitIdle(_) | IdmacStage::AwaitData(_) | IdmacStage::WriteArg => 7,
            IdmacStage::WriteCmd => 8,
            IdmacStage::EndFlag(_) | IdmacStage::Finished(_) => 10,
            _ => 9,
        }
    }

    /// What the transfer has managed so far.
    pub open spec fn managed(self) -> Seq<Request> {
        self.life().take(self.age())
    }
}

/// One step adds to what was managed the request that it answers, where that
/// request manages the transfer.
pub proof fn idmac_step_manages(s: SendCmdIdmac, reply: Reply)
    requires
        reply.answers(s.asks()),
    ensures
        s.hears(reply).managed() == if manages_transfer(s.asks()) {
            s.managed().push(s.asks())
        } else {
            s.managed()
        },
{
    let t = s.hears(reply);
    if manages_transfer(s.asks()) {
        assert(t.age() == s.age() + 1);
        assert(t.life()[s.age()] == s.asks());
        assert(t.managed() =~= s.managed().push(s.asks()));
    } else {
        assert(t.age() == s.age());
        assert(t.managed() =~= s.managed());
    }
}

/// A transfer is set up, started and taken down in one order: the descriptor is
/// stored and made visible before the IDMAC learns its address, the flags are
/// reset before the command goes out, and nothing happens twice.
pub proof fn transfer_is_managed_in_order(command: Command<DmaRegion>, replies: Seq<Reply>)
    requires
        valid_run(SendCmdIdmac::begin(command), replies),
    ensures
        log(SendCmdIdmac::begin(command), replies, |q: Request| manages_transfer(q)) == after(
            SendCmdIdmac::begin(command),
            replies,
        ).managed(),
        after(SendCmdIdmac::begin(command), replies).cmd == command.word(),
        after(SendCmdIdmac::begin(command), replies).arg == command.arg(),
        after(SendCmdIdmac::begin(command), replies).region == region_of(command),
        after(SendCmdIdmac::begin(command), replies).descriptor == descriptor_for(
            region_of(command),
        ),
    decreases replies.len(),
{
    let start = SendCmdIdmac::begin(command);
    if replies.len() == 0 {
        assert(start.managed() =~= Seq::empty());
    } else {
        transfer_is_managed_in_order(command, replies.drop_last());
        idmac_step_manages(after(start, replies.drop_last()), replies.last());
    }
}

/// The memory that a transfer works with is what the allocator gave when it was
/// asked for some, and it is asked before anything else of a transfer's life.
pub proof fn descriptor_is_in_given_memory(command: Command<DmaRegion>, replies: Seq<Reply>)
    requires
        valid_run(SendCmdIdmac::begin(command), replies),
    ensures
        ({
            let s = after(SendCmdIdmac::begin(command), replies);
            last_allocation(replies) == if s.age() == 0 {
                None
            } else if s.result() == Some(IdmacOutcome::NoDescriptor) {
                Some(None)
            } else {
                Some(Some(s.memory))
            }
        }),
    decreases replies.len(),
{
    let start = SendCmdIdmac::begin(command);
    if replies.len() > 0 {
        descriptor_is_in_given_memory(command, replies.drop_last());
        assert(after(start, replies) == after(start, replies.drop_last()).hears(replies.last()));
    }
}

/// A transfer that is over holds no memory: whatever way it ended, what the
/// allocator gave for the descriptor was freed once, with the layout it was asked
/// for with, unless there was none to be had in the first place.
pub proof fn descriptor_is_freed(command: Command<DmaRegion>, replies: Seq<Reply>)
    requires
        valid_run(SendCmdIdmac::begin(command), replies),
        after(SendCmdIdmac::begin(command), replies).result() is Some,
    ensures
        ({
            let end = after(SendCmdIdmac::begin(command), replies);
            let managed = log(
                SendCmdIdmac::begin(command),
                replies,
                |q: Request| manages_transfer(q),
            );
            if end.result() == Some(IdmacOutcome::NoDescriptor) {
                &&& last_allocation(replies) == Some(None::<DMAInfo>)
                &&& managed == seq![Request::AllocCoherent(descriptor_layout())]
            } else {
                &&& last_allocation(replies) == Some(Some(end.memory))
                &&& managed == end.life()
            }
        }),
{
    transfer_is_managed_in_order(command, replies);
    descriptor_is_in_given_memory(command, replies);
    let end = after(SendCmdIdmac::begin(command), replies);
    if end.result() == Some(IdmacOutcome::NoDescriptor) {
        assert(end.managed() =~= seq![Request::AllocCoherent(descriptor_layout())]);
    } else {
        assert(end.managed() =~= end.life());
    }
}

/// The requests that send the command and demand of the IDMAC that it polls for its
/// descriptor.
pub open spec fn starts_transfer(request: Request) -> bool {
    match request {
        Request::Write(Reg::Cmd, _) | Request::Write(Reg::Pldmnd, _) => true,
        _ => false,
    }
}

/// What the look at the IDMAC's status after the first poll demand showed, once it
/// was taken.
pub open spec fn look_after_demand(start: SendCmdIdmac, replies: Seq<Reply>) -> Option<IdSts>
    decreases replies.len(),
{
    if replies.len() == 0 {
        None
    } else {
        match (after(start, replies.drop_last()).stage, replies.last()) {
            (IdmacStage::CheckDescriptor, Reply::Word(word)) => Some(IdSts { bits: word }),
            _ => look_after_demand(start, replies.drop_last()),
        }
    }
}

/// Whether a look shows the descriptor unavailable.
pub open spec fn shows_unavailable(look: Option<IdSts>) -> bool {
    match look {
        Some(idsts) => idsts.du(),
        None => false,
    }
}

impl SendCmdIdmac {
    /// Whether the look after the first poll demand was taken.
    pub open spec fn has_looked(self) -> bool {
        match self.stage {
            IdmacStage::AwaitTaken(_) | IdmacStage::Wake | IdmacStage::CheckDescriptor => false,
            _ => self.age() >= 9,
        }
    }

    /// The command and the poll demands so far, where `look` is what the look after
    /// the first demand showed.
    pub open spec fn started(self, look: Option<IdSts>) -> Seq<Request> {
        let cmd = Request::Write(Reg::Cmd, self.cmd.bits);
        let demand = Request::Write(Reg::Pldmnd, 1);
        match self.stage {
            IdmacStage::AwaitTaken(_) | IdmacStage::Wake => seq![cmd],
            IdmacStage::CheckDescriptor => seq![cmd, demand],
            IdmacStage::ClearUnavailable | IdmacStage::WakeAgain => seq![cmd, demand],
            _ => if self.age() < 9 {
                Seq::empty()
            } else if shows_unavailable(look) {
                seq![cmd, demand, demand]
            } else {
                seq![cmd, demand]
            },
        }
    }
}

/// The IDMAC is told to poll for its descriptor once, after the command, and once
/// more exactly if the look after that showed the descriptor unavailable.
pub proof fn poll_is_demanded_after_command(command: Command<DmaRegion>, replies: Seq<Reply>)
    requires
        valid_run(SendCmdIdmac::begin(command), replies),
    ensures
        ({
            let start = SendCmdIdmac::begin(command);
            let s = after(start, replies);
            let look = look_after_demand(start, replies);
            &&& log(start, replies, |q: Request| starts_transfer(q)) == s.started(look)
            &&& s.stage is ClearUnavailable || s.stage is WakeAgain ==> shows_unavailable(look)
            &&& look is Some <==> s.has_looked()
        }),
    decreases replies.len(),
{
    let start = SendCmdIdmac::begin(command);
    if replies.len() == 0 {
        assert(start.started(None) =~= Seq::empty());
    } else {
        let earlier = replies.drop_last();
        poll_is_demanded_after_command(command, earlier);
        lemma_start_step(
            after(start, earlier),
            look_after_demand(start, earlier),
            replies.last(),
            look_after_demand(start, replies),
        );
    }
}

/// One step adds to the command and the demands the request that it answers, where
/// that request is one of them.
proof fn lemma_start_step(
    s: SendCmdIdmac,
    look: Option<IdSts>,
    reply: Reply,
    look_then: Option<IdSts>,
)
    requires
        reply.answers(s.asks()),
        look is Some <==> s.has_looked(),
        s.stage is ClearUnavailable || s.stage is WakeAgain ==> shows_unavailable(look),
        look_then == match (s.stage, reply) {
            (IdmacStage::CheckDescriptor, Reply::Word(word)) => Some(IdSts { bits: word }),
            _ => look,
        },
    ensures
        s.hears(reply).started(look_then) == if starts_transfer(s.asks()) {
            s.started(look).push(s.asks())
        } else {
            s.started(look)
        },
        look_then is Some <==> s.hears(reply).has_looked(),
        s.hears(reply).stage is ClearUnavailable || s.hears(reply).stage is WakeAgain
            ==> shows_unavailable(look_then),
{
    let t = s.hears(reply);
    if starts_transfer(s.asks()) {
        assert(t.started(look_then) =~= s.started(look).push(s.asks()));
    } else {
        assert(t.started(look_then) =~= s.started(look));
    }
}

/// Each step of the start follows at once on what allows it. The command goes out
/// after the controller was read free to take one and the data line was read free.
/// The first poll demand follows on a reading that the command was taken. The second
/// follows on an acknowledgement of the unavailable descriptor, and of nothing else,
/// that the look after the first demand gave rise to.
pub proof fn transfer_starts_step_by_step(command: Command<DmaRegion>, replies: Seq<Reply>)
    requires
        command.xfer() is Some,
        valid_run(SendCmdIdmac::begin(command), replies),
    ensures
        ({
            let start = SendCmdIdmac::begin(command);
            let s = after(start, replies);
            let before = replies.drop_last();
            let cmd_free = last_read(start, replies, Reg::Cmd) matches Some(word) && !(Cmd {
                bits: word,
            }).start_cmd();
            let line_free = last_read(start, replies, Reg::Status) matches Some(word)
                && !(Status { bits: word }).data_busy();
            &&& s.cmd == command.word()
            &&& s.stage is AwaitData ==> cmd_free
            &&& s.stage is WriteArg || s.stage is WriteCmd ==> cmd_free && line_free
            &&& s.stage is Wake ==> {
                &&& replies.len() > 0
                &&& reads(outstanding(start, before), Reg::Cmd)
                &&& cmd_free
            }
            &&& s.stage is CheckDescriptor ==> {
                &&& replies.len() > 0
                &&& outstanding(start, before) == Request::Write(Reg::Pldmnd, 1)
            }
            &&& s.stage is ClearUnavailable ==> {
                &&& replies.len() > 0
                &&& outstanding(start, before) == Request::Read(Reg::Idsts)
                &&& replies.last() matches Reply::Word(word)
                &&& (IdSts { bits: word }).du()
            }
            &&& s.stage is WakeAgain ==> {
                &&& replies.len() > 0
                &&& outstanding(start, before) == Request::Write(Reg::Idsts, 0x10)
            }
            &&& s.asks() matches Request::Write(Reg::Cmdarg, _) ==> s.stage is WriteArg
            &&& s.asks() matches Request::Write(Reg::Cmd, _) ==> s.stage is WriteCmd
            &&& s.asks() matches Request::Write(Reg::Pldmnd, _) ==> s.stage is Wake
                || s.stage is WakeAgain
        }),
    decreases replies.len(),
{
    let start = SendCmdIdmac::begin(command);
    command_word_fields(command);
    if replies.len() > 0 {
        transfer_starts_step_by_step(command, replies.drop_last());
        assert(IdSts::new().with_du(true).bits == 0x10) by {
            assert(0u32 | (1u32 << 4u32) == 0x10u32) by (bit_vector);
        }
        assert(after(start, replies) == after(start, replies.drop_last()).hears(replies.last()));
    }
}

/// What a verdict vouches for: it holds the card's response, and where it tells
/// of no failure there was none to tell of.
pub open spec fn vouches(s: SendCmdIdmac, replies: Seq<Reply>, verdict: Verdict) -> bool {
    &&& last_response(replies) == Some(verdict.resp)
    &&& !verdict.failed ==> !s.irq_timed_out && !verdict.status.error()
}

/// Where a transfer ends with a response, it is the one that the card gave, the
/// interrupt handler came in time and saw no error, and neither does the status
/// that was acknowledged.
pub proof fn response_means_no_error(command: Command<DmaRegion>, replies: Seq<Reply>)
    requires
        valid_run(SendCmdIdmac::begin(command), replies),
    ensures
        ({
            let start = SendCmdIdmac::begin(command);
            let s = after(start, replies);
            let n = replies.len() as int;
            &&& s.stage matches IdmacStage::LateStatus(resp, _) ==> last_response(replies) == Some(
                resp,
            )
            &&& s.stage matches IdmacStage::LateIdsts(resp, _, _) ==> last_response(replies)
                == Some(resp)
            &&& s.stage matches IdmacStage::EndIdsts(verdict) ==> vouches(s, replies, verdict)
            &&& s.stage matches IdmacStage::EndClearIdsts(verdict, _) ==> vouches(s, replies, verdict)
            &&& s.stage matches IdmacStage::EndClearStatus(verdict) ==> vouches(s, replies, verdict)
            &&& s.stage matches IdmacStage::EndFree(verdict) ==> {
                &&& vouches(s, replies, verdict)
                &&& n >= 1
                &&& outstanding(start, replies.take(n - 1)) == Request::Write(
                    Reg::Rintsts,
                    verdict.status.bits,
                )
            }
            &&& s.stage matches IdmacStage::EndFlag(verdict) ==> {
                &&& vouches(s, replies, verdict)
                &&& n >= 2
                &&& outstanding(start, replies.take(n - 2)) == Request::Write(
                    Reg::Rintsts,
                    verdict.status.bits,
                )
            }
            &&& s.result() matches Some(IdmacOutcome::Response(resp)) ==> {
                &&& last_response(replies) == Some(resp)
                &&& !s.irq_timed_out
                &&& n >= 3
                &&& replies.last() == Reply::Flag(false)
                &&& outstanding(start, replies.take(n - 3)) matches Request::Write(
                    Reg::Rintsts,
                    word,
                )
                &&& !(RIntSts { bits: word }).error()
            }
        }),
    decreases replies.len(),
{
    let start = SendCmdIdmac::begin(command);
    let n = replies.len() as int;
    if n > 0 {
        let earlier = replies.drop_last();
        response_means_no_error(command, earlier);
        assert(replies.take(n - 1) =~= earlier);
        if n > 1 {
            assert(replies.take(n - 2) =~= earlier.take(n - 2));
        }
        if n > 2 {
            assert(replies.take(n - 3) =~= earlier.take(n - 3));
        }
    }
}

/// The interrupt handler's flag is seen before the deadline.
pub open spec fn irq_seen(s: SendCmdIdmac, reply: Reply) -> bool {
    s.stage is TestDone && reply == Reply::Flag(true)
}

/// The deadline for the interrupt has come.
pub open spec fn irq_late(s: SendCmdIdmac, reply: Reply) -> bool {
    match (s.stage, reply) {
        (IdmacStage::IrqClock(start), Reply::Time(now)) => now.has_reached(start, IRQ_TIMEOUT),
        _ => false,
    }
}

/// The command phase ends well: with the response, or, where none is due, with a
/// status without error.
pub open spec fn command_went_well(s: SendCmdIdmac, reply: Reply) -> bool {
    match (s.stage, reply) {
        (IdmacStage::TestResponse(_), Reply::Word(word)) => (RIntSts { bits: word }).command_done(),
        (IdmacStage::CheckCommand, Reply::Word(word)) => !(RIntSts { bits: word }).error(),
        _ => false,
    }
}

/// The command phase ends badly: with an error, or at the deadline for the
/// response.
pub open spec fn command_went_badly(s: SendCmdIdmac, reply: Reply) -> bool {
    match (s.stage, reply) {
        (IdmacStage::TestError(_), Reply::Word(word)) => (RIntSts { bits: word }).error(),
        (IdmacStage::CheckCommand, Reply::Word(word)) => (RIntSts { bits: word }).error(),
        (IdmacStage::ResponseClock(start), Reply::Time(now)) => now.has_reached(
            start,
            RESPONSE_TIMEOUT,
        ),
        _ => false,
    }
}

/// The deadline for the data has come.
pub open spec fn data_late(s: SendCmdIdmac, reply: Reply) -> bool {
    match (s.stage, reply) {
        (IdmacStage::DataClock(start, _, _), Reply::Time(now)) => now.has_reached(
            start,
            DATA_TIMEOUT,
        ),
        _ => false,
    }
}

/// A look at the hardware during the data phase shows an error of the controller,
/// or one of the IDMAC that was not there before the command. Such a look is the
/// last one.
pub open spec fn data_went_badly(s: SendCmdIdmac, reply: Reply) -> bool {
    match (s.stage, reply) {
        (IdmacStage::DataIdsts(_, _, status), Reply::Word(word)) => status.error() || new_error(
            s.old_idsts,
            s.old_status,
            IdSts { bits: word },
            status,
        ),
        _ => false,
    }
}

/// Errors are new by comparison with the first two replies of a run: the status of
/// the IDMAC and that of the controller before anything was done to them.
pub proof fn baseline_is_read_first(command: Command<DmaRegion>, replies: Seq<Reply>)
    requires
        valid_run(SendCmdIdmac::begin(command), replies),
    ensures
        ({
            let s = after(SendCmdIdmac::begin(command), replies);
            &&& s.stage is SaveIdsts <==> replies.len() == 0
            &&& s.stage is SaveStatus <==> replies.len() == 1
            &&& replies.len() > 0 ==> replies[0] == Reply::Word(s.old_idsts.bits)
            &&& replies.len() > 1 ==> replies[1] == Reply::Word(s.old_status.bits)
        }),
    decreases replies.len(),
{
    let start = SendCmdIdmac::begin(command);
    if replies.len() > 0 {
        baseline_is_read_first(command, replies.drop_last());
        assert(after(start, replies) == after(start, replies.drop_last()).hears(replies.last()));
    }
}

/// The end of the data phase is reported, by the interrupt handler's flag or by the
/// controller.
pub open spec fn data_came_to_end(s: SendCmdIdmac, reply: Reply) -> bool {
    match (s.stage, reply) {
        (IdmacStage::DataDone(_, _, look), Reply::Flag(flag)) => flag
            || look.status.data_transfer_over(),
        _ => false,
    }
}

/// The interrupt handler saw an error.
pub open spec fn handler_saw_error(s: SendCmdIdmac, reply: Reply) -> bool {
    s.stage is EndFlag && reply == Reply::Flag(true)
}

/// What has come to pass in a run.
pub struct Events {
    /// The interrupt handler's flag was seen before its deadline.
    pub seen: bool,
    /// The deadline for the interrupt came.
    pub late: bool,
    /// The command phase ended well.
    pub well: bool,
    /// The command phase ended with an error or at the deadline for the response.
    pub badly: bool,
    /// The end of the data phase was reported.
    pub done: bool,
    /// The deadline for the data came.
    pub slow: bool,
    /// The data phase showed an error.
    pub broken: bool,
    /// The interrupt handler saw an error.
    pub marked: bool,
}

impl Events {
    /// These events and those of one step: what `reply` tells in state `s`.
    pub open spec fn with(self, s: SendCmdIdmac, reply: Reply) -> Events {
        Events {
            seen: self.seen || irq_seen(s, reply),
            late: self.late || irq_late(s, reply),
            well: self.well || command_went_well(s, reply),
            badly: self.badly || command_went_badly(s, reply),
            done: self.done || data_came_to_end(s, reply),
            slow: self.slow || data_late(s, reply),
            broken: self.broken || data_went_badly(s, reply),
            marked: self.marked || handler_saw_error(s, reply),
        }
    }
}

/// The events of a run.
pub open spec fn events(start: SendCmdIdmac, replies: Seq<Reply>) -> Events
    decreases replies.len(),
{
    if replies.len() == 0 {
        Events {
            seen: false,
            late: false,
            well: false,
            badly: false,
            done: false,
            slow: false,
            broken: false,
            marked: false,
        }
    } else {
        events(start, replies.drop_last()).with(
            after(start, replies.drop_last()),
            replies.last(),
        )
    }
}

/// What the events so far say of the stage that a run has come to.
spec fn stage_fits(s: SendCmdIdmac, e: Events) -> bool {
    let irq_over = e.seen == !e.late && s.irq_timed_out == e.late;
    let quiet = !e.slow && !e.broken && !e.marked;
    let in_command = irq_over && !e.well && !e.badly && quiet;
    let given_up = irq_over && !e.well && e.badly && quiet;
    let in_data = irq_over && e.well && !e.badly && !e.marked;
    let ending = in_data && (e.late || e.slow || e.broken);
    match s.stage {
        IdmacStage::IrqStatus | IdmacStage::IrqIdsts | IdmacStage::StartResponseWait => in_command,
        IdmacStage::TestResponse(_) | IdmacStage::TestError(_) => in_command,
        IdmacStage::ResponseClock(_) | IdmacStage::CheckCommand => in_command,
        IdmacStage::FailStatus | IdmacStage::FailClearStatus(_) => given_up,
        IdmacStage::FailIdsts | IdmacStage::FailClearIdsts(_) | IdmacStage::FailFree => given_up,
        IdmacStage::StartDataWait | IdmacStage::DataStatus(_, _) => in_data && quiet,
        IdmacStage::DataIdsts(_, _, _) | IdmacStage::DataClock(_, _, None) => in_data && quiet,
        IdmacStage::DataClock(_, _, Some(look)) => in_data && quiet && !look.status.error()
            && !look.new_error,
        IdmacStage::DataPause(_, _, look) => in_data && quiet && !look.status.error()
            && !look.new_error,
        IdmacStage::DataDone(_, _, look) => in_data && !e.slow && e.broken == look.status.error()
            && !look.new_error,
        IdmacStage::ReadResponse(Some(look), gave_up) => in_data && (e.slow || e.broken) == (gave_up
            || look.status.error() || look.new_error),
        IdmacStage::ReadResponse(None, gave_up) => in_data && e.slow && gave_up,
        IdmacStage::LateStatus(_, gave_up) | IdmacStage::LateIdsts(_, gave_up, _) => in_data
            && e.slow && gave_up,
        IdmacStage::EndIdsts(verdict) | IdmacStage::EndClearIdsts(verdict, _) => in_data
            && verdict.failed == ending,
        IdmacStage::EndClearStatus(verdict) | IdmacStage::EndFree(verdict) => in_data
            && verdict.failed == ending,
        IdmacStage::EndFlag(verdict) => in_data && verdict.failed == ending,
        IdmacStage::Finished(IdmacOutcome::NoDescriptor) => !e.seen && !e.late && !e.well
            && !e.badly && quiet,
        IdmacStage::Finished(outcome) => {
            &&& irq_over && e.well == !e.badly
            &&& outcome is Response <==> e.seen && e.well && quiet
            &&& outcome is Failed <==> e.late || e.badly || !quiet
        },
        _ => !e.seen && !e.late && !e.well && !e.badly && quiet && !s.irq_timed_out,
    }
}

/// One step keeps the stage and the events in agreement.
#[verifier::rlimit(60)]
proof fn lemma_stage_fits_step(s: SendCmdIdmac, e: Events, reply: Reply)
    requires
        stage_fits(s, e),
        s.asks() !is Finished,
        reply.answers(s.asks()),
    ensures
        stage_fits(s.hears(reply), e.with(s, reply)),
{
}

/// The stage that a run has come to agrees with its events.
proof fn lemma_stage_fits(command: Command<DmaRegion>, replies: Seq<Reply>)
    requires
        valid_run(SendCmdIdmac::begin(command), replies),
    ensures
        stage_fits(
            after(SendCmdIdmac::begin(command), replies),
            events(SendCmdIdmac::begin(command), replies),
        ),
    decreases replies.len(),
{
    let start = SendCmdIdmac::begin(command);
    if replies.len() > 0 {
        lemma_stage_fits(command, replies.drop_last());
        lemma_stage_fits_step(
            after(start, replies.drop_last()),
            events(start, replies.drop_last()),
            replies.last(),
        );
    }
}

/// Before its rounds have run out, the data wait ends with the end of the data
/// phase, an error or the deadline, and with nothing else.
proof fn lemma_data_wait_has_reason(command: Command<DmaRegion>, replies: Seq<Reply>)
    requires
        valid_run(SendCmdIdmac::begin(command), replies),
        replies.len() < u64::MAX,
    ensures
        ({
            let s = after(SendCmdIdmac::begin(command), replies);
            let e = events(SendCmdIdmac::begin(command), replies);
            let over = e.done || e.slow || e.broken;
            match s.stage {
                IdmacStage::DataClock(_, rounds, _) | IdmacStage::DataStatus(_, rounds) => rounds
                    < replies.len(),
                IdmacStage::DataIdsts(_, rounds, _) | IdmacStage::DataDone(_, rounds, _) => rounds
                    < replies.len(),
                IdmacStage::DataPause(_, rounds, _) => rounds < replies.len(),
                IdmacStage::ReadResponse(_, _) | IdmacStage::LateStatus(_, _) => over,
                IdmacStage::LateIdsts(_, _, _) | IdmacStage::EndIdsts(_) => over,
                IdmacStage::EndClearIdsts(_, _) | IdmacStage::EndClearStatus(_) => over,
                IdmacStage::EndFree(_) | IdmacStage::EndFlag(_) => over,
                IdmacStage::Finished(IdmacOutcome::Response(_)) => over,
                _ => true,
            }
        }),
    decreases replies.len(),
{
    let start = SendCmdIdmac::begin(command);
    if replies.len() > 0 {
        lemma_data_wait_has_reason(command, replies.drop_last());
        lemma_stage_fits(command, replies.drop_last());
        assert(after(start, replies) == after(start, replies.drop_last()).hears(replies.last()));
    }
}

/// How a transfer ends, both ways. Where there was memory for the descriptor, it
/// ends with the response that was read last exactly if the interrupt handler's
/// flag was seen before its deadline, the command phase ended well, the deadline
/// for the data did not come, no look at the hardware during the data phase showed
/// an error, and the handler saw none. It ends with a failure exactly if one of
/// these went wrong. So it fails where the interrupt, the response or, within the
/// rounds that can be counted, the end of the data phase does not come.
pub proof fn outcome_follows_events(command: Command<DmaRegion>, replies: Seq<Reply>)
    requires
        valid_run(SendCmdIdmac::begin(command), replies),
        after(SendCmdIdmac::begin(command), replies).result() is Some,
        after(SendCmdIdmac::begin(command), replies).result() != Some(IdmacOutcome::NoDescriptor),
    ensures
        ({
            let outcome = after(SendCmdIdmac::begin(command), replies).result()->Some_0;
            let e = events(SendCmdIdmac::begin(command), replies);
            &&& outcome is Response <==> e.seen && e.well && !e.slow && !e.broken && !e.marked
            &&& outcome is Failed <==> e.late || e.badly || e.slow || e.broken || e.marked
            &&& e.seen <==> !e.late
            &&& e.well <==> !e.badly
            &&& outcome is Response && replies.len() < u64::MAX ==> e.done
            &&& outcome matches IdmacOutcome::Response(resp) ==> last_response(replies) == Some(
                resp,
            )
        }),
{
    lemma_stage_fits(command, replies);
    if replies.len() < u64::MAX {
        lemma_data_wait_has_reason(command, replies);
    }
    response_means_no_error(command, replies);
}

impl SendCmdIdmac {
    /// The wait that the transfer is in: since when, and for how many seconds.
    pub open spec fn waiting(self) -> Option<(WallTime, u32)> {
        match self.stage {
            IdmacStage::TestDone(start) | IdmacStage::IrqClock(start) => Some((start, IRQ_TIMEOUT)),
            IdmacStage::Yield(start) => Some((start, IRQ_TIMEOUT)),
            IdmacStage::TestResponse(start) | IdmacStage::TestError(start) => Some(
                (start, RESPONSE_TIMEOUT),
            ),
            IdmacStage::ResponseClock(start) => Some((start, RESPONSE_TIMEOUT)),
            IdmacStage::DataClock(start, _, _) | IdmacStage::DataStatus(start, _) => Some(
                (start, DATA_TIMEOUT),
            ),
            IdmacStage::DataIdsts(start, _, _) | IdmacStage::DataDone(start, _, _) => Some(
                (start, DATA_TIMEOUT),
            ),
            IdmacStage::DataPause(start, _, _) => Some((start, DATA_TIMEOUT)),
            _ => None,
        }
    }

    /// Replies until the clock of the wait has been looked at.
    pub open spec fn until_clock(self) -> nat {
        match self.stage {
            IdmacStage::Yield(_) | IdmacStage::TestResponse(_) => 3,
            IdmacStage::TestDone(_) | IdmacStage::TestError(_) => 2,
            IdmacStage::DataStatus(_, _) => 5,
            IdmacStage::DataIdsts(_, _, _) => 4,
            IdmacStage::DataDone(_, _, _) => 3,
            IdmacStage::DataPause(_, _, _) => 2,
            _ => 1,
        }
    }
}

/// The clock reading at which the wait began that the transfer is in or was in
/// last.
pub open spec fn wait_began(start: SendCmdIdmac, replies: Seq<Reply>) -> Option<WallTime>
    decreases replies.len(),
{
    if replies.len() == 0 {
        None
    } else {
        match (after(start, replies.drop_last()).stage, replies.last()) {
            (IdmacStage::StartIrqWait, Reply::Time(now)) => Some(now),
            (IdmacStage::StartResponseWait, Reply::Time(now)) => Some(now),
            (IdmacStage::StartDataWait, Reply::Time(now)) => Some(now),
            _ => wait_began(start, replies.drop_last()),
        }
    }
}

/// The start of a wait is the clock reading taken for it, and stays so.
pub proof fn wait_is_timed_from_its_start(command: Command<DmaRegion>, replies: Seq<Reply>)
    requires
        valid_run(SendCmdIdmac::begin(command), replies),
    ensures
        after(SendCmdIdmac::begin(command), replies).waiting() matches Some((began, _))
            ==> wait_began(SendCmdIdmac::begin(command), replies) == Some(began),
    decreases replies.len(),
{
    let start = SendCmdIdmac::begin(command);
    if replies.len() > 0 {
        wait_is_timed_from_its_start(command, replies.drop_last());
        assert(after(start, replies) == after(start, replies.drop_last()).hears(replies.last()));
    }
}

/// Whether every clock reading among `replies` is `secs` seconds past `began` or
/// more.
pub open spec fn clock_is_past(replies: Seq<Reply>, began: WallTime, secs: u32) -> bool {
    forall|i: int|
        0 <= i < replies.len() && #[trigger] replies[i] is Time
            ==> replies[i]->Time_0.has_reached(began, secs)
}

/// One reply brings a wait closer to the next look at the clock, or ends it; a
/// reading at or past the deadline does.
proof fn lemma_wait_step(s: SendCmdIdmac, reply: Reply)
    requires
        s.waiting() is Some,
        reply.answers(s.asks()),
        reply is Time ==> reply->Time_0.has_reached(
            s.waiting()->Some_0.0,
            s.waiting()->Some_0.1,
        ),
    ensures
        s.hears(reply).waiting() != s.waiting() || s.hears(reply).until_clock() + 1
            == s.until_clock(),
{
}

/// A wait whose clock readings are at or past its deadline is over after as many
/// replies as it takes to look at the clock.
#[verifier::rlimit(40)]
proof fn lemma_wait_ends(s: SendCmdIdmac, more: Seq<Reply>)
    requires
        s.waiting() is Some,
        valid_run(s, more),
        more.len() >= s.until_clock(),
        clock_is_past(more, s.waiting()->Some_0.0, s.waiting()->Some_0.1),
    ensures
        exists|k: int|
            0 < k <= s.until_clock() && #[trigger] after(s, more.take(k)).waiting() != s.waiting(),
    decreases s.until_clock(),
{
    let head = more.take(1);
    let rest = more.skip(1);
    assert(head + rest =~= more);
    lemma_run_in_parts(s, head, rest);
    assert(head.drop_last() =~= Seq::<Reply>::empty());
    let t = s.hears(more[0]);
    assert(after(s, head) == t);
    lemma_wait_step(s, more[0]);
    if t.waiting() != s.waiting() {
        assert(after(s, more.take(1)).waiting() != s.waiting());
    } else {
        assert(clock_is_past(rest, s.waiting()->Some_0.0, s.waiting()->Some_0.1)) by {
            assert forall|i: int| 0 <= i < rest.len() && #[trigger] rest[i] is Time implies (
            rest[i]->Time_0).has_reached(s.waiting()->Some_0.0, s.waiting()->Some_0.1) by {
                assert(more[i + 1] is Time);
            }
        }
        lemma_wait_ends(t, rest);
        let k = choose|k: int|
            0 < k <= t.until_clock() && #[trigger] after(t, rest.take(k)).waiting() != t.waiting();
        assert(head + rest.take(k) =~= more.take(k + 1));
        lemma_run_in_parts(s, head, rest.take(k));
        assert(after(s, more.take(k + 1)).waiting() != s.waiting());
    }
}

/// The waits of a transfer are bounded by the clock: for the interrupt by one
/// second, for the response by two, for the data by five. A wait looks at the clock
/// at the latest with the fifth reply, and the first reading at or past its deadline
/// ends it; such a reading makes the transfer fail.
pub proof fn wait_ends_at_its_deadline(
    command: Command<DmaRegion>,
    replies: Seq<Reply>,
    more: Seq<Reply>,
)
    requires
        valid_run(SendCmdIdmac::begin(command), replies + more),
        after(SendCmdIdmac::begin(command), replies).waiting() is Some,
        more.len() >= 5,
        ({
            let (began, secs) = after(SendCmdIdmac::begin(command), replies).waiting()->Some_0;
            clock_is_past(more, began, secs)
        }),
    ensures
        exists|k: int|
            0 < k <= 5 && #[trigger] after(
                SendCmdIdmac::begin(command),
                replies + more.take(k),
            ).waiting() != after(SendCmdIdmac::begin(command), replies).waiting(),
{
    let start = SendCmdIdmac::begin(command);
    let s = after(start, replies);
    lemma_run_in_parts(start, replies, more);
    lemma_wait_ends(s, more);
    let k = choose|k: int|
        0 < k <= s.until_clock() && #[trigger] after(s, more.take(k)).waiting() != s.waiting();
    assert(more =~= more.take(k) + more.skip(k));
    lemma_run_in_parts(start, replies, more.take(k));
    assert(after(start, replies + more.take(k)).waiting() != s.waiting());
}

/// What came to pass in the first part of a run came to pass in the whole.
proof fn lemma_events_stay(start: SendCmdIdmac, first: Seq<Reply>, second: Seq<Reply>)
    ensures
        events(start, first).late ==> events(start, first + second).late,
        events(start, first).badly ==> events(start, first + second).badly,
        events(start, first).slow ==> events(start, first + second).slow,
    decreases second.len(),
{
    if second.len() == 0 {
        assert(first + second =~= first);
    } else {
        lemma_events_stay(start, first, second.drop_last());
        assert((first + second).drop_last() =~= first + second.drop_last());
    }
}

/// A clock reading ends the wait that asked for it exactly if it is at or past the
/// deadline; the transfer can then only end with a failure.
pub proof fn deadline_decides(
    command: Command<DmaRegion>,
    replies: Seq<Reply>,
    now: WallTime,
    more: Seq<Reply>,
)
    requires
        valid_run(SendCmdIdmac::begin(command), replies.push(Reply::Time(now)) + more),
        after(SendCmdIdmac::begin(command), replies).waiting() is Some,
        outstanding(SendCmdIdmac::begin(command), replies) is Now,
    ensures
        ({
            let start = SendCmdIdmac::begin(command);
            let waiting = after(start, replies).waiting();
            let (began, secs) = waiting->Some_0;
            let next = after(start, replies.push(Reply::Time(now)));
            let end = after(start, replies.push(Reply::Time(now)) + more);
            if now.has_reached(began, secs) {
                &&& next.waiting() is None
                &&& end.result() is Some ==> end.result() == Some(IdmacOutcome::Failed)
            } else {
                next.waiting() == waiting
            }
        }),
{
    let start = SendCmdIdmac::begin(command);
    let first = replies.push(Reply::Time(now));
    assert(first.drop_last() =~= replies);
    lemma_stage_fits(command, first + more);
    lemma_events_stay(start, first, more);
}

/// Whether `status` is the interrupt status that was read last.
spec fn read_last(start: SendCmdIdmac, replies: Seq<Reply>, status: RIntSts) -> bool {
    last_read(start, replies, Reg::Rintsts) == Some(status.bits)
}

/// A look, and the verdict that rests on it, hold the interrupt status that was read
/// last.
proof fn lemma_look_is_last(command: Command<DmaRegion>, replies: Seq<Reply>)
    requires
        valid_run(SendCmdIdmac::begin(command), replies),
    ensures
        ({
            let start = SendCmdIdmac::begin(command);
            match after(start, replies).stage {
                IdmacStage::DataIdsts(_, _, status) => read_last(start, replies, status),
                IdmacStage::DataDone(_, _, look) => read_last(start, replies, look.status),
                IdmacStage::DataPause(_, _, look) => read_last(start, replies, look.status),
                IdmacStage::DataClock(_, _, Some(look)) => read_last(start, replies, look.status),
                IdmacStage::ReadResponse(Some(look), _) => read_last(start, replies, look.status),
                IdmacStage::LateIdsts(_, _, status) => read_last(start, replies, status),
                IdmacStage::EndIdsts(verdict) => read_last(start, replies, verdict.status),
                IdmacStage::EndClearIdsts(verdict, _) => read_last(start, replies, verdict.status),
                IdmacStage::EndClearStatus(verdict) => read_last(start, replies, verdict.status),
                _ => true,
            }
        }),
    decreases replies.len(),
{
    let start = SendCmdIdmac::begin(command);
    if replies.len() > 0 {
        lemma_look_is_last(command, replies.drop_last());
        assert(after(start, replies) == after(start, replies.drop_last()).hears(replies.last()));
    }
}

/// Status bits are acknowledged as they were read last; the one exception is an
/// unavailable descriptor, which is acknowledged by itself.
pub proof fn idmac_acknowledges_what_it_read(command: Command<DmaRegion>, replies: Seq<Reply>)
    requires
        valid_run(SendCmdIdmac::begin(command), replies),
    ensures
        ({
            let start = SendCmdIdmac::begin(command);
            let s = after(start, replies);
            &&& s.asks() matches Request::Write(Reg::Idsts, word) ==> {
                ||| last_read(start, replies, Reg::Idsts) == Some(word)
                ||| s.stage is ClearUnavailable && word == IdSts::new().with_du(true).bits
            }
            &&& s.asks() matches Request::Write(Reg::Rintsts, word) ==> last_read(
                start,
                replies,
                Reg::Rintsts,
            ) == Some(word)
        }),
{
    let start = SendCmdIdmac::begin(command);
    lemma_look_is_last(command, replies);
    if replies.len() > 0 {
        assert(after(start, replies) == after(start, replies.drop_last()).hears(replies.last()));
    }
}

/// The block size of a transfer is its length, up to a block, and the rest of that
/// register is written back as it was read.
pub proof fn transfer_sizes_its_block(command: Command<DmaRegion>, replies: Seq<Reply>)
    requires
        valid_run(SendCmdIdmac::begin(command), replies),
    ensures
        ({
            let start = SendCmdIdmac::begin(command);
            outstanding(start, replies) matches Request::Write(Reg::Blksiz, word) ==> {
                &&& replies.last() matches Reply::Word(old)
                &&& word == (BlkSiz { bits: old }).with_block_size(
                    block_size(region_of(command).len),
                ).bits
            }
        }),
{
    let start = SendCmdIdmac::begin(command);
    if replies.len() > 0 {
        transfer_is_managed_in_order(command, replies.drop_last());
        assert(after(start, replies) == after(start, replies.drop_last()).hears(replies.last()));
    }
}

/// The descriptor of a transfer says: it is the IDMAC's, its buffer is the first
/// and the last, it stands alone, and its completion interrupts.
pub proof fn descriptor_fields(region: DmaRegion)
    ensures
        ({
            let des0 = descriptor_for(region).des0;
            &&& des0.ownership() && des0.fs() && des0.ld()
            &&& !des0.ces() && !des0.er() && !des0.ch() && !des0.dic()
        }),
        region.len <= 0x1fff ==> descriptor_for(region).des1.bits == region.len,
        region.addr <= u32::MAX ==> descriptor_for(region).des2 == region.addr,
        descriptor_for(region).des3 == 0,
{
    lemma_control_word(true, false, false, false, true, true, false);
}

} // verus!
