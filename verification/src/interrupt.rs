//! The handler of the controller's interrupt.
use vstd::prelude::*;

use crate::bits::{bit, with_bit};
use crate::bus::{after, log, valid_run, Protocol, Reply, Request};
use crate::regs::{IdSts, RIntSts, Reg};

verus! {

/// What the hardware gives as the reason of an interrupt.
#[derive(Clone, Copy, Debug, PartialEq, Eq, Structural)]
pub struct Causes {
    pub status: RIntSts,
    pub idsts: IdSts,
}

/// Where the handler stands.
#[derive(Clone, Copy, Debug)]
pub enum InterruptStage {
    /// About to find the registers.
    GetBase,
    /// About to read the causes.
    ReadStatus,
    ReadIdsts(RIntSts),
    /// The IDMAC met an error: about to say so.
    MarkIdmac(Causes),
    /// About to acknowledge what the IDMAC reports.
    ClearIdsts(Causes),
    /// The controller met an error: about to say so.
    MarkController(Causes),
    /// About to acknowledge what concerns data.
    ClearStatus(Causes),
    /// About to end the wait for the transfer.
    SetDone(Causes),
    Notify(Causes),
    /// Over; without causes where there were no registers to read.
    Finished(Option<Causes>),
}

/// The handler at work.
#[derive(Clone, Copy, Debug)]
pub struct HandleInterrupt {
    pub stage: InterruptStage,
}

/// Whether `status` concerns data.
#[verifier::allow_in_spec]
pub fn concerns_data(status: RIntSts) -> bool
    returns
        (status.data_transfer_over() || status.receive_fifo_data_request()
            || status.transmit_fifo_data_request()),
{
    status.data_transfer_over() || status.receive_fifo_data_request()
        || status.transmit_fifo_data_request()
}

/// Those bits of `status` that concern data, and no others.
#[verifier::allow_in_spec]
pub fn data_bits(status: RIntSts) -> RIntSts
    returns
        (RIntSts::new().with_data_transfer_over(
            status.data_transfer_over(),
        ).with_receive_fifo_data_request(
            status.receive_fifo_data_request(),
        ).with_transmit_fifo_data_request(status.transmit_fifo_data_request())),
{
    RIntSts::new().with_data_transfer_over(
        status.data_transfer_over(),
    ).with_receive_fifo_data_request(
        status.receive_fifo_data_request(),
    ).with_transmit_fifo_data_request(status.transmit_fifo_data_request())
}

/// Whether the causes end the wait for a transfer.
#[verifier::allow_in_spec]
pub fn ends_wait(causes: Causes) -> bool
    returns
        (causes.idsts.pending() || causes.status.error() || concerns_data(causes.status)),
{
    causes.idsts.pending() || causes.status.error() || concerns_data(causes.status)
}

/// Whether the causes tell of a failed transfer.
#[verifier::allow_in_spec]
pub fn tells_failure(causes: Causes) -> bool
    returns
        (causes.idsts.failed() || causes.status.error()),
{
    causes.idsts.failed() || causes.status.error()
}

/// Whether there is no cause at all.
#[verifier::allow_in_spec]
pub fn is_stray(causes: Causes) -> bool
    returns
        (!causes.status.pending() && !causes.idsts.pending()),
{
    !causes.status.pending() && !causes.idsts.pending()
}

/// First comes what the IDMAC reports.
#[verifier::allow_in_spec]
pub fn idmac_stage(causes: Causes) -> InterruptStage
    returns
        (if causes.idsts.pending() {
            if causes.idsts.failed() {
                InterruptStage::MarkIdmac(causes)
            } else {
                InterruptStage::ClearIdsts(causes)
            }
        } else {
            controller_stage(causes)
        }),
{
    if causes.idsts.pending() {
        if causes.idsts.failed() {
            InterruptStage::MarkIdmac(causes)
        } else {
            InterruptStage::ClearIdsts(causes)
        }
    } else {
        controller_stage(causes)
    }
}

/// Then come errors of the controller.
#[verifier::allow_in_spec]
pub fn controller_stage(causes: Causes) -> InterruptStage
    returns
        (if causes.status.error() {
            InterruptStage::MarkController(causes)
        } else {
            data_stage(causes)
        }),
{
    if causes.status.error() {
        InterruptStage::MarkController(causes)
    } else {
        data_stage(causes)
    }
}

/// Then comes what concerns data.
#[verifier::allow_in_spec]
pub fn data_stage(causes: Causes) -> InterruptStage
    returns
        (if concerns_data(causes.status) {
            InterruptStage::ClearStatus(causes)
        } else {
            wake_stage(causes)
        }),
{
    if concerns_data(causes.status) {
        InterruptStage::ClearStatus(causes)
    } else {
        wake_stage(causes)
    }
}

/// Last, the waiting task is woken where there is a reason to.
#[verifier::allow_in_spec]
pub fn wake_stage(causes: Causes) -> InterruptStage
    returns
        (if ends_wait(causes) {
            InterruptStage::SetDone(causes)
        } else {
            InterruptStage::Finished(Some(causes))
        }),
{
    if ends_wait(causes) {
        InterruptStage::SetDone(causes)
    } else {
        InterruptStage::Finished(Some(causes))
    }
}

impl HandleInterrupt {
    /// A handler about to run.
    pub open spec fn begin() -> Self {
        HandleInterrupt { stage: InterruptStage::GetBase }
    }

    /// The handler moved on to `stage`.
    #[verifier::allow_in_spec]
    pub fn at(self, stage: InterruptStage) -> Self
        returns
            (HandleInterrupt { stage }),
    {
        HandleInterrupt { stage }
    }
}

impl Protocol for HandleInterrupt {
    open spec fn asks(self) -> Request {
        match self.stage {
            InterruptStage::GetBase => Request::GetBase,
            InterruptStage::ReadStatus => Request::Read(Reg::Rintsts),
            InterruptStage::ReadIdsts(_) => Request::Read(Reg::Idsts),
            InterruptStage::MarkIdmac(_) | InterruptStage::MarkController(_) => {
                Request::SetError(true)
            },
            InterruptStage::ClearIdsts(causes) => Request::Write(Reg::Idsts, causes.idsts.bits),
            InterruptStage::ClearStatus(causes) => Request::Write(
                Reg::Rintsts,
                data_bits(causes.status).bits,
            ),
            InterruptStage::SetDone(_) => Request::SetDone(true),
            InterruptStage::Notify(_) => Request::NotifyOne,
            InterruptStage::Finished(_) => Request::Finished,
        }
    }

    open spec fn hears(self, reply: Reply) -> Self {
        match (self.stage, reply) {
            (InterruptStage::GetBase, Reply::Base(base)) => if base == 0 {
                self.at(InterruptStage::Finished(None))
            } else {
                self.at(InterruptStage::ReadStatus)
            },
            (InterruptStage::ReadStatus, Reply::Word(word)) => self.at(
                InterruptStage::ReadIdsts(RIntSts { bits: word }),
            ),
            (InterruptStage::ReadIdsts(status), Reply::Word(word)) => self.at(
                idmac_stage(Causes { status, idsts: IdSts { bits: word } }),
            ),
            (InterruptStage::MarkIdmac(causes), Reply::Done) => self.at(
                InterruptStage::ClearIdsts(causes),
            ),
            (InterruptStage::ClearIdsts(causes), Reply::Done) => self.at(controller_stage(causes)),
            (InterruptStage::MarkController(causes), Reply::Done) => self.at(data_stage(causes)),
            (InterruptStage::ClearStatus(causes), Reply::Done) => self.at(wake_stage(causes)),
            (InterruptStage::SetDone(causes), Reply::Done) => self.at(
                InterruptStage::Notify(causes),
            ),
            (InterruptStage::Notify(causes), Reply::Done) => self.at(
                InterruptStage::Finished(Some(causes)),
            ),
            _ => self,
        }
    }
}

impl HandleInterrupt {
    /// Enters the handler.
    pub fn new() -> (op: Self)
        ensures
            op == HandleInterrupt::begin(),
    {
        HandleInterrupt { stage: InterruptStage::GetBase }
    }

    /// The outside work that is due.
    pub fn request(&self) -> (request: Request)
        ensures
            request == self.asks(),
    {
        match self.stage {
            InterruptStage::GetBase => Request::GetBase,
            InterruptStage::ReadStatus => Request::Read(Reg::Rintsts),
            InterruptStage::ReadIdsts(_) => Request::Read(Reg::Idsts),
            InterruptStage::MarkIdmac(_) | InterruptStage::MarkController(_) => {
                Request::SetError(true)
            },
            InterruptStage::ClearIdsts(causes) => Request::Write(Reg::Idsts, causes.idsts.bits),
            InterruptStage::ClearStatus(causes) => Request::Write(
                Reg::Rintsts,
                data_bits(causes.status).bits,
            ),
            InterruptStage::SetDone(_) => Request::SetDone(true),
            InterruptStage::Notify(_) => Request::NotifyOne,
            InterruptStage::Finished(_) => Request::Finished,
        }
    }

    /// Takes in the reply to the outstanding request.
    pub fn step(&mut self, reply: Reply)
        ensures
            *final(self) == old(self).hears(reply),
    {
        *self = match (self.stage, reply) {
            (InterruptStage::GetBase, Reply::Base(base)) => if base == 0 {
                self.at(InterruptStage::Finished(None))
            } else {
                self.at(InterruptStage::ReadStatus)
            },
            (InterruptStage::ReadStatus, Reply::Word(word)) => self.at(
                InterruptStage::ReadIdsts(RIntSts { bits: word }),
            ),
            (InterruptStage::ReadIdsts(status), Reply::Word(word)) => self.at(
                idmac_stage(Causes { status, idsts: IdSts { bits: word } }),
            ),
            (InterruptStage::MarkIdmac(causes), Reply::Done) => self.at(
                InterruptStage::ClearIdsts(causes),
            ),
            (InterruptStage::ClearIdsts(causes), Reply::Done) => self.at(controller_stage(causes)),
            (InterruptStage::MarkController(causes), Reply::Done) => self.at(data_stage(causes)),
            (InterruptStage::ClearStatus(causes), Reply::Done) => self.at(wake_stage(causes)),
            (InterruptStage::SetDone(causes), Reply::Done) => self.at(
                InterruptStage::Notify(causes),
            ),
            (InterruptStage::Notify(causes), Reply::Done) => self.at(
                InterruptStage::Finished(Some(causes)),
            ),
            _ => *self,
        };
    }
}

/// What the handler does about the IDMAC's report.
pub open spec fn idmac_part(causes: Causes) -> Seq<Request> {
    if !causes.idsts.pending() {
        Seq::empty()
    } else if causes.idsts.failed() {
        seq![Request::SetError(true), Request::Write(Reg::Idsts, causes.idsts.bits)]
    } else {
        seq![Request::Write(Reg::Idsts, causes.idsts.bits)]
    }
}

/// What it does about an error of the controller.
pub open spec fn controller_part(causes: Causes) -> Seq<Request> {
    if causes.status.error() {
        seq![Request::SetError(true)]
    } else {
        Seq::empty()
    }
}

/// What it does about data.
pub open spec fn data_part(causes: Causes) -> Seq<Request> {
    if concerns_data(causes.status) {
        seq![Request::Write(Reg::Rintsts, data_bits(causes.status).bits)]
    } else {
        Seq::empty()
    }
}

/// What it does for the waiting task.
pub open spec fn wake_part(causes: Causes) -> Seq<Request> {
    if ends_wait(causes) {
        seq![Request::SetDone(true), Request::NotifyOne]
    } else {
        Seq::empty()
    }
}

/// All that the handler asks for, in order, given the causes it finds.
pub open spec fn script(causes: Causes) -> Seq<Request> {
    look() + idmac_part(causes) + controller_part(causes) + data_part(causes) + wake_part(causes)
}

/// How the handler finds the causes.
pub open spec fn look() -> Seq<Request> {
    seq![Request::GetBase, Request::Read(Reg::Rintsts), Request::Read(Reg::Idsts)]
}

impl HandleInterrupt {
    /// What the handler has asked for so far.
    pub open spec fn asked(self) -> Seq<Request> {
        match self.stage {
            InterruptStage::GetBase => Seq::empty(),
            InterruptStage::ReadStatus => look().take(1),
            InterruptStage::ReadIdsts(_) => look().take(2),
            InterruptStage::MarkIdmac(_) => look(),
            InterruptStage::ClearIdsts(causes) => look() + idmac_part(causes).drop_last(),
            InterruptStage::MarkController(causes) => look() + idmac_part(causes),
            InterruptStage::ClearStatus(causes) => look() + idmac_part(causes) + controller_part(
                causes,
            ),
            InterruptStage::SetDone(causes) => look() + idmac_part(causes) + controller_part(causes)
                + data_part(causes),
            InterruptStage::Notify(causes) => (look() + idmac_part(causes) + controller_part(causes)
                + data_part(causes)).push(Request::SetDone(true)),
            InterruptStage::Finished(Some(causes)) => script(causes),
            InterruptStage::Finished(None) => look().take(1),
        }
    }

    /// The stage fits the causes that it carries.
    pub open spec fn wf(self) -> bool {
        match self.stage {
            InterruptStage::MarkIdmac(causes) => causes.idsts.failed() && causes.idsts.pending(),
            InterruptStage::ClearIdsts(causes) => causes.idsts.pending(),
            InterruptStage::MarkController(causes) => causes.status.error(),
            InterruptStage::ClearStatus(causes) => concerns_data(causes.status),
            InterruptStage::SetDone(causes) | InterruptStage::Notify(causes) => ends_wait(causes),
            _ => true,
        }
    }
}

/// One step adds the request that it answers to those asked for.
proof fn lemma_interrupt_step(s: HandleInterrupt, reply: Reply)
    requires
        s.wf(),
        reply.answers(s.asks()),
    ensures
        s.hears(reply).wf(),
        s.hears(reply).asked() == s.asked().push(s.asks()),
{
    let t = s.hears(reply);
    let all = s.asked().push(s.asks());
    match s.stage {
        InterruptStage::ReadIdsts(status) => {
            let causes = Causes { status, idsts: IdSts { bits: reply->Word_0 } };
            assert(all =~= look());
            if causes.idsts.pending() {
                assert(look() + idmac_part(causes).drop_last() =~= look()
                    || causes.idsts.failed());
            } else {
                assert(look() + idmac_part(causes) =~= look());
                lemma_skipped_parts(causes);
            }
        },
        InterruptStage::MarkIdmac(causes) => {
            assert(all =~= look() + idmac_part(causes).drop_last());
        },
        InterruptStage::ClearIdsts(causes) => {
            assert(all =~= look() + idmac_part(causes));
            lemma_skipped_parts(causes);
        },
        InterruptStage::MarkController(causes) => {
            assert(all =~= look() + idmac_part(causes) + controller_part(causes));
            lemma_skipped_parts(causes);
        },
        InterruptStage::ClearStatus(causes) => {
            assert(all =~= look() + idmac_part(causes) + controller_part(causes) + data_part(
                causes,
            ));
            lemma_skipped_parts(causes);
        },
        InterruptStage::Notify(causes) => {
            assert(all =~= script(causes));
        },
        _ => {
            assert(t.asked() =~= all);
        },
    }
}

/// Parts for which there is no reason are empty.
proof fn lemma_skipped_parts(causes: Causes)
    ensures
        !causes.status.error() ==> look() + idmac_part(causes) + controller_part(causes) == look()
            + idmac_part(causes),
        !concerns_data(causes.status) ==> look() + idmac_part(causes) + controller_part(causes)
            + data_part(causes) == look() + idmac_part(causes) + controller_part(causes),
        !ends_wait(causes) ==> script(causes) == look() + idmac_part(causes) + controller_part(
            causes,
        ) + data_part(causes),
{
    let first = look() + idmac_part(causes);
    assert(first + Seq::empty() =~= first);
    let second = first + controller_part(causes);
    assert(second + Seq::empty() =~= second);
    let third = second + data_part(causes);
    assert(third + Seq::empty() =~= third);
}

/// The handler's whole conduct: it looks for the causes, says so where the
/// transfer failed, acknowledges what the IDMAC reports and what concerns data,
/// and where there is a reason ends the wait and wakes the waiting task.
pub proof fn handler_follows_script(replies: Seq<Reply>)
    requires
        valid_run(HandleInterrupt::begin(), replies),
    ensures
        after(HandleInterrupt::begin(), replies).wf(),
        log(HandleInterrupt::begin(), replies, |q: Request| true) == after(
            HandleInterrupt::begin(),
            replies,
        ).asked(),
    decreases replies.len(),
{
    if replies.len() > 0 {
        handler_follows_script(replies.drop_last());
        lemma_interrupt_step(after(HandleInterrupt::begin(), replies.drop_last()), replies.last());
    }
}

/// The causes that a finished handler acted on are those that it read.
pub proof fn handler_acts_on_what_it_read(replies: Seq<Reply>)
    requires
        valid_run(HandleInterrupt::begin(), replies),
    ensures
        ({
            let stage = after(HandleInterrupt::begin(), replies).stage;
            let causes = match stage {
                InterruptStage::MarkIdmac(causes) => Some(causes),
                InterruptStage::ClearIdsts(causes) => Some(causes),
                InterruptStage::MarkController(causes) => Some(causes),
                InterruptStage::ClearStatus(causes) => Some(causes),
                InterruptStage::SetDone(causes) => Some(causes),
                InterruptStage::Notify(causes) => Some(causes),
                InterruptStage::Finished(causes) => causes,
                _ => None,
            };
            &&& stage is GetBase <==> replies.len() == 0
            &&& stage is ReadStatus ==> replies.len() == 1 && replies[0] != Reply::Base(0)
            &&& stage matches InterruptStage::ReadIdsts(status) ==> {
                &&& replies.len() == 2 && replies[0] != Reply::Base(0)
                &&& replies[1] == Reply::Word(status.bits)
            }
            &&& stage == InterruptStage::Finished(None) <==> replies.len() == 1 && replies[0]
                == Reply::Base(0)
            &&& causes matches Some(causes) ==> {
                &&& replies.len() >= 3 && replies[0] != Reply::Base(0)
                &&& replies[1] == Reply::Word(causes.status.bits)
                &&& replies[2] == Reply::Word(causes.idsts.bits)
            }
        }),
    decreases replies.len(),
{
    let start = HandleInterrupt::begin();
    if replies.len() > 0 {
        handler_acts_on_what_it_read(replies.drop_last());
        assert(after(start, replies) == after(start, replies.drop_last()).hears(replies.last()));
    }
}

/// Of the controller's interrupts the handler acknowledges those on data that are
/// there, bits 5:3, and leaves the others for the task that sent the command.
pub proof fn handler_acknowledges_data_only(status: RIntSts)
    ensures
        data_bits(status).bits == status.bits & 0x38,
        concerns_data(status) <==> status.bits & 0x38 != 0,
{
    let word: u32 = status.bits;
    let a: u32 = with_bit(0, 3, bit(word, 3));
    let b: u32 = with_bit(a, 5, bit(word, 5));
    let c: u32 = with_bit(b, 4, bit(word, 4));
    assert(c == word & 0x38 && ((bit(word, 3) || bit(word, 5) || bit(word, 4)) == (word & 0x38
        != 0))) by (bit_vector)
        requires
            a == with_bit(0, 3, bit(word, 3)),
            b == with_bit(a, 5, bit(word, 5)),
            c == with_bit(b, 4, bit(word, 4)),
    ;
}

/// The handler marks the transfer as failed, as over, or leaves it alone, as the
/// causes have it; on a stray interrupt it does no more than look.
pub proof fn handler_sets_flags(causes: Causes)
    ensures
        script(causes).contains(Request::SetError(true)) <==> tells_failure(causes),
        script(causes).contains(Request::SetDone(true)) <==> ends_wait(causes),
        script(causes).contains(Request::NotifyOne) <==> ends_wait(causes),
        tells_failure(causes) ==> ends_wait(causes),
        is_stray(causes) ==> script(causes) == look(),
{
    if is_stray(causes) {
        let none: u32 = 0;
        assert(none & 0xbfc2 == 0 && !bit(none, 3) && !bit(none, 4) && !bit(none, 5))
            by (bit_vector)
            requires
                none == 0,
        ;
        assert(script(causes) =~= look());
    }
    let all = script(causes);
    let n = look().len() + idmac_part(causes).len();
    if causes.idsts.failed() {
        assert(all[3] == Request::SetError(true));
    } else if causes.status.error() {
        assert(all[n as int] == Request::SetError(true));
    }
    if ends_wait(causes) {
        assert(all[all.len() - 2] == Request::SetDone(true));
        assert(all[all.len() - 1] == Request::NotifyOne);
    }
}

} // verus!
