//! What the interrupt handler must ask for, by what it was answered.
use vstd::prelude::*;

use crate::bits::bit;
use crate::bus::{after, outstanding, valid_run, Protocol, Reply, Request};
use crate::field_laws::{idmac_fields, register_fields};
use crate::interrupt::{
    concerns_data, controller_part, data_part, ends_wait, handler_acknowledges_data_only,
    handler_acts_on_what_it_read, handler_follows_script, idmac_part, is_stray, look, script,
    tells_failure, wake_part, Causes, HandleInterrupt, InterruptStage,
};
use crate::regs::{IdSts, RIntSts, Reg};

verus! {

/// Whether the IDMAC reports something.
pub open spec fn idmac_reports(idsts: u32) -> bool {
    bit(idsts, 0) || bit(idsts, 1) || bit(idsts, 2) || bit(idsts, 4) || bit(idsts, 5) || bit(
        idsts,
        8,
    ) || bit(idsts, 9)
}

/// Whether the IDMAC reports an error: a fatal bus error, an unavailable descriptor or a
/// card error.
pub open spec fn idmac_failed(idsts: u32) -> bool {
    bit(idsts, 2) || bit(idsts, 4) || bit(idsts, 5)
}

/// All that the handler asks for where it finds registers, by the interrupt status and
/// the IDMAC's status. An error sets the error flag. The IDMAC's status is acknowledged
/// as it was read, of the interrupt status only bits 5:3. Where there was anything of
/// this, the done flag is set and one waiting task woken.
pub open spec fn conduct(status: u32, idsts: u32) -> Seq<Request> {
    let failed = if idmac_failed(idsts) {
        seq![Request::SetError(true)]
    } else {
        Seq::empty()
    };
    let reported = if idmac_reports(idsts) {
        failed + seq![Request::Write(Reg::Idsts, idsts)]
    } else {
        Seq::empty()
    };
    let erred = if status & 0xbfc2 != 0 {
        seq![Request::SetError(true)]
    } else {
        Seq::empty()
    };
    let moved = if status & 0x38 != 0 {
        seq![Request::Write(Reg::Rintsts, status & 0x38)]
    } else {
        Seq::empty()
    };
    let woken = if idmac_reports(idsts) || status & 0xbfc2 != 0 || status & 0x38 != 0 {
        seq![Request::SetDone(true), Request::NotifyOne]
    } else {
        Seq::empty()
    };
    seq![Request::GetBase, Request::Read(Reg::Rintsts), Request::Read(Reg::Idsts)] + reported
        + erred + moved + woken
}

/// What is due, by the replies so far.
pub open spec fn due(replies: Seq<Reply>) -> Request {
    let n = replies.len() as int;
    if n == 0 {
        Request::GetBase
    } else if replies[0] == Reply::Base(0) {
        Request::Finished
    } else if n == 1 {
        Request::Read(Reg::Rintsts)
    } else if n == 2 {
        Request::Read(Reg::Idsts)
    } else {
        let all = conduct(replies[1]->Word_0, replies[2]->Word_0);
        if n < all.len() {
            all[n]
        } else {
            Request::Finished
        }
    }
}

/// The script of the handler is its conduct.
proof fn lemma_script(causes: Causes)
    ensures
        script(causes) == conduct(causes.status.bits, causes.idsts.bits),
{
    handler_acknowledges_data_only(causes.status);
    register_fields(causes.status.bits);
    idmac_fields(causes.idsts.bits);
    assert(script(causes) =~= conduct(causes.status.bits, causes.idsts.bits));
}

/// A handler at work asks for the part of its script that comes next.
proof fn lemma_next(s: HandleInterrupt, causes: Causes)
    requires
        s.wf(),
        match s.stage {
            InterruptStage::MarkIdmac(found) => found == causes,
            InterruptStage::ClearIdsts(found) => found == causes,
            InterruptStage::MarkController(found) => found == causes,
            InterruptStage::ClearStatus(found) => found == causes,
            InterruptStage::SetDone(found) => found == causes,
            InterruptStage::Notify(found) => found == causes,
            InterruptStage::Finished(found) => found == Some(causes),
            _ => false,
        },
    ensures
        s.asked().len() >= 3,
        s.asks() == if s.asked().len() < script(causes).len() {
            script(causes)[s.asked().len() as int]
        } else {
            Request::Finished
        },
{
    let a = look();
    let b = idmac_part(causes);
    let c = controller_part(causes);
    let d = data_part(causes);
    let e = wake_part(causes);
    let n = s.asked().len() as int;
    assert(script(causes) == a + b + c + d + e);
    match s.stage {
        InterruptStage::MarkIdmac(_) => {
            assert(script(causes)[n] == b[0]);
        },
        InterruptStage::ClearIdsts(_) => {
            assert(script(causes)[n] == b[b.len() - 1]);
        },
        InterruptStage::MarkController(_) => {
            assert(script(causes)[n] == c[0]);
        },
        InterruptStage::ClearStatus(_) => {
            assert(script(causes)[n] == d[0]);
        },
        InterruptStage::SetDone(_) => {
            assert(script(causes)[n] == e[0]);
        },
        InterruptStage::Notify(_) => {
            assert(script(causes)[n] == e[1]);
        },
        _ => {},
    }
}

/// As many requests were answered as there are replies.
proof fn lemma_all_logged(replies: Seq<Reply>)
    ensures
        crate::bus::log(HandleInterrupt::begin(), replies, |q: Request| true).len()
            == replies.len(),
    decreases replies.len(),
{
    if replies.len() > 0 {
        lemma_all_logged(replies.drop_last());
    }
}

/// The whole conduct of the handler, whatever it finds: without registers it does
/// nothing; with them it reads both causes and acts on what it read.
pub proof fn handler_takes_its_course(replies: Seq<Reply>)
    requires
        valid_run(HandleInterrupt::begin(), replies),
    ensures
        outstanding(HandleInterrupt::begin(), replies) == due(replies),
{
    let start = HandleInterrupt::begin();
    let s = after(start, replies);
    handler_follows_script(replies);
    handler_acts_on_what_it_read(replies);
    lemma_all_logged(replies);
    if replies.len() >= 3 {
        let causes = Causes {
            status: RIntSts { bits: replies[1]->Word_0 },
            idsts: IdSts { bits: replies[2]->Word_0 },
        };
        lemma_script(causes);
        lemma_next(s, causes);
    } else if replies.len() > 0 {
        assert(after(start, replies) == after(start, replies.drop_last()).hears(replies.last()));
    }
}

/// What the causes are said to mean is what their bits say.
pub proof fn causes_mean_what_they_say(causes: Causes)
    ensures
        tells_failure(causes) <==> idmac_failed(causes.idsts.bits) || causes.status.bits & 0xbfc2
            != 0,
        ends_wait(causes) <==> idmac_reports(causes.idsts.bits) || causes.status.bits & 0xbfc2 != 0
            || causes.status.bits & 0x38 != 0,
        is_stray(causes) <==> causes.status.bits == 0 && !idmac_reports(causes.idsts.bits),
        concerns_data(causes.status) <==> causes.status.bits & 0x38 != 0,
{
    handler_acknowledges_data_only(causes.status);
    register_fields(causes.status.bits);
    idmac_fields(causes.idsts.bits);
}

} // verus!
