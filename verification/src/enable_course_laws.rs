//! What an attempt to enter DMA mode must ask for next, by what was asked and answered
//! before.
use vstd::prelude::*;

use crate::bits::{bit, with_bit};
use crate::bus::{after, outstanding, reads, valid_run, MemLayout, Protocol, Reply, Request};
use crate::dma::DMABuffer;
use crate::enable::{EnableError, EnableStage, TryEnableIdmac};
use crate::field_laws::enabled_interrupts_word;
use crate::regs::Reg;

verus! {

/// The register value in reply number `i`.
pub open spec fn word_in(replies: Seq<Reply>, i: int) -> u32 {
    replies[i]->Word_0
}

/// Whether all interrupts that DMA needs are enabled.
pub open spec fn all_enabled(word: u32) -> bool {
    bit(word, 0) && bit(word, 1) && bit(word, 2) && bit(word, 4) && bit(word, 5) && bit(word, 8)
        && bit(word, 9)
}

/// The number of the first reply that refuses something: the memory, a setting that
/// does not read back, or the interrupt handler.
pub open spec fn refused_at(replies: Seq<Reply>) -> Option<int> {
    let n = replies.len();
    if n > 0 && replies[0] == Reply::Allocated(None) {
        Some(0)
    } else if n > 7 && !(bit(word_in(replies, 7), 7) && bit(word_in(replies, 7), 1)) {
        Some(7)
    } else if n > 10 && !(bit(word_in(replies, 10), 25) && bit(word_in(replies, 10), 4)) {
        Some(10)
    } else if n > 12 && !all_enabled(word_in(replies, 12)) {
        Some(12)
    } else if n > 15 && !bit(word_in(replies, 15), 3) {
        Some(15)
    } else if n > 16 && replies[16] == Reply::Registered(false) {
        Some(16)
    } else {
        None
    }
}

/// The error that goes with a refusal.
pub open spec fn error_at(index: int) -> EnableError {
    if index == 0 {
        EnableError::NoMemory
    } else if index == 7 {
        EnableError::BmodRejected
    } else if index == 10 {
        EnableError::CtrlRejected
    } else if index == 12 {
        EnableError::IdintenRejected
    } else if index == 15 {
        EnableError::IntmaskRejected
    } else {
        EnableError::IrqRefused
    }
}

/// The requests of an attempt that meets no refusal, by their number: memory, the
/// acknowledgement of what is pending as it was read, bus mode, control, interrupts and
/// the end of transfers, each read, changed in its own bits, and read back, and the
/// interrupt handler.
pub open spec fn advance(layout: MemLayout, replies: Seq<Reply>) -> Request {
    let n = replies.len();
    if n == 0 {
        Request::AllocCoherent(layout)
    } else if n == 1 {
        Request::Read(Reg::Rintsts)
    } else if n == 2 {
        Request::Write(Reg::Rintsts, word_in(replies, 1))
    } else if n == 3 {
        Request::Read(Reg::Idsts)
    } else if n == 4 {
        Request::Write(Reg::Idsts, word_in(replies, 3))
    } else if n == 5 || n == 7 {
        Request::Read(Reg::Bmod)
    } else if n == 6 {
        Request::Write(Reg::Bmod, with_bit(with_bit(word_in(replies, 5), 7, true), 1, true))
    } else if n == 8 || n == 10 {
        Request::Read(Reg::Ctrl)
    } else if n == 9 {
        Request::Write(Reg::Ctrl, with_bit(with_bit(word_in(replies, 8), 25, true), 4, true))
    } else if n == 11 {
        Request::Write(Reg::Idinten, 0x337)
    } else if n == 12 {
        Request::Read(Reg::Idinten)
    } else if n == 13 || n == 15 {
        Request::Read(Reg::Intmask)
    } else if n == 14 {
        Request::Write(Reg::Intmask, with_bit(word_in(replies, 13), 3, true))
    } else if n == 16 {
        Request::RegisterIrq
    } else {
        Request::Finished
    }
}

/// What is due after the refusal in reply number `index`: memory that was given is given
/// back; the IDMAC is disabled and reset, and that is awaited; DMA is left and its
/// interface reset, and that is awaited; the IDMAC's interrupts are disabled.
pub open spec fn retreat(
    layout: MemLayout,
    buffer: Option<DMABuffer>,
    replies: Seq<Reply>,
    index: int,
) -> Request {
    let start = TryEnableIdmac::begin(layout, buffer);
    let before = replies.drop_last();
    let since = replies.len() - index - 1;
    if since == 0 && index > 0 {
        Request::DeallocCoherent(replies[0]->Allocated_0->Some_0, layout)
    } else if since == 0 || since == 1 && index > 0 {
        Request::Read(Reg::Bmod)
    } else {
        match (outstanding(start, before), replies.last()) {
            (Request::Write(Reg::Bmod, _), _) => Request::Read(Reg::Bmod),
            (Request::Write(Reg::Ctrl, _), _) => Request::Read(Reg::Ctrl),
            (Request::Write(Reg::Idinten, _), _) => Request::Finished,
            (asked, Reply::Word(word)) => if reads(asked, Reg::Bmod) {
                if since == 1 || since == 2 && index > 0 {
                    Request::Write(Reg::Bmod, with_bit(with_bit(word, 7, false), 0, true))
                } else if bit(word, 0) {
                    Request::Retry(Reg::Bmod)
                } else {
                    Request::Read(Reg::Ctrl)
                }
            } else if reads(outstanding(start, before.drop_last()), Reg::Bmod) {
                Request::Write(Reg::Ctrl, with_bit(with_bit(word, 25, false), 2, true))
            } else if bit(word, 2) {
                Request::Retry(Reg::Ctrl)
            } else {
                Request::Write(Reg::Idinten, 0)
            },
            _ => Request::Finished,
        }
    }
}

/// What is due, by the traffic so far.
pub open spec fn due(layout: MemLayout, buffer: Option<DMABuffer>, replies: Seq<Reply>) -> Request {
    match refused_at(replies) {
        None => advance(layout, replies),
        Some(index) => retreat(layout, buffer, replies, index),
    }
}

/// What the traffic says of the stage.
spec fn tells_stage(layout: MemLayout, buffer: Option<DMABuffer>, replies: Seq<Reply>) -> bool {
    let start = TryEnableIdmac::begin(layout, buffer);
    let s = after(start, replies);
    let n = replies.len();
    let before = replies.drop_last();
    let since = match refused_at(replies) {
        Some(index) => n - index - 1,
        None => 0,
    };
    &&& s.layout == layout
    &&& n > 0 ==> replies[0] is Allocated
    &&& n > 0 && replies[0] != Reply::Allocated(None) ==> replies[0] == Reply::Allocated(
        Some(s.memory),
    )
    &&& s.buffer == match s.stage {
        EnableStage::Finished(Ok(())) => Some(DMABuffer { addr: s.memory, size: layout.size }),
        EnableStage::Finished(Err(_)) => None,
        _ => buffer,
    }
    &&& match refused_at(replies) {
        None => {
            &&& s.position() == n
            &&& n <= 17
            &&& s.stage matches EnableStage::ClearStatus(word) ==> replies[1] == Reply::Word(word)
            &&& s.stage matches EnableStage::ClearIdsts(word) ==> replies[3] == Reply::Word(word)
            &&& s.stage matches EnableStage::WriteBmod(bmod) ==> bmod.bits == with_bit(
                with_bit(word_in(replies, 5), 7, true),
                1,
                true,
            )
            &&& s.stage matches EnableStage::WriteCtrl(ctrl) ==> ctrl.bits == with_bit(
                with_bit(word_in(replies, 8), 25, true),
                4,
                true,
            )
            &&& s.stage matches EnableStage::WriteIntmask(mask) ==> mask.bits == with_bit(
                word_in(replies, 13),
                3,
                true,
            )
        },
        Some(index) => {
            &&& s.error() == Some(error_at(index))
            &&& since >= 0
            &&& index > 0 ==> (s.stage is Free <==> since == 0)
            &&& index == 0 ==> !(s.stage is Free)
            &&& s.stage is UndoReadBmod <==> since == (if index > 0 {
                1int
            } else {
                0
            })
            &&& s.stage is UndoWriteBmod <==> since == (if index > 0 {
                2int
            } else {
                1
            })
            &&& s.stage matches EnableStage::UndoWriteBmod(_, bmod) ==> {
                &&& replies.last() matches Reply::Word(word)
                &&& bmod.bits == with_bit(with_bit(word, 7, false), 0, true)
            }
            &&& s.stage matches EnableStage::AwaitBmod(_, again) ==> again == (outstanding(
                start,
                before,
            ) !is Write)
            &&& s.stage is AwaitBmod && outstanding(start, before) !is Write ==> reads(
                outstanding(start, before),
                Reg::Bmod,
            )
            &&& s.stage is UndoReadCtrl ==> reads(outstanding(start, before), Reg::Bmod)
            &&& s.stage matches EnableStage::UndoWriteCtrl(_, ctrl) ==> {
                &&& replies.last() matches Reply::Word(word)
                &&& ctrl.bits == with_bit(with_bit(word, 25, false), 2, true)
            }
            &&& s.stage matches EnableStage::AwaitCtrl(_, again) ==> again == (outstanding(
                start,
                before,
            ) !is Write)
            &&& s.stage is AwaitCtrl ==> !reads(outstanding(start, before), Reg::Bmod)
        },
    }
}

/// The stage follows from the traffic.
#[verifier::rlimit(40)]
proof fn lemma_stage(layout: MemLayout, buffer: Option<DMABuffer>, replies: Seq<Reply>)
    requires
        valid_run(TryEnableIdmac::begin(layout, buffer), replies),
    ensures
        tells_stage(layout, buffer, replies),
    decreases replies.len(),
{
    let start = TryEnableIdmac::begin(layout, buffer);
    if replies.len() > 0 {
        let earlier = replies.drop_last();
        lemma_stage(layout, buffer, earlier);
        assert(forall|i: int| 0 <= i < earlier.len() ==> earlier[i] == replies[i]);
        assert(after(start, replies) == after(start, earlier).hears(replies.last()));
    }
}

/// The whole course of an attempt: it takes its steps in one order until something is
/// refused, and then retreats into the mode in which the CPU moves the data.
#[verifier::rlimit(40)]
pub proof fn attempt_takes_its_course(
    layout: MemLayout,
    buffer: Option<DMABuffer>,
    replies: Seq<Reply>,
)
    requires
        valid_run(TryEnableIdmac::begin(layout, buffer), replies),
    ensures
        outstanding(TryEnableIdmac::begin(layout, buffer), replies) == due(layout, buffer, replies),
{
    let start = TryEnableIdmac::begin(layout, buffer);
    lemma_stage(layout, buffer, replies);
    enabled_interrupts_word();
    if replies.len() > 0 {
        let earlier = replies.drop_last();
        lemma_stage(layout, buffer, earlier);
        assert(after(start, replies) == after(start, earlier).hears(replies.last()));
        assert(forall|i: int| 0 <= i < earlier.len() ==> earlier[i] == replies[i]);
    }
}

/// How an attempt ends: with success after its seventeenth reply where none refused
/// anything, and then the driver's data buffer is the memory that was given, of the size
/// that was asked for; with the error of the first refusal where one did, and then the
/// driver has no data buffer. Until then it has the one it had.
pub proof fn attempt_ends_by_its_refusal(
    layout: MemLayout,
    buffer: Option<DMABuffer>,
    replies: Seq<Reply>,
)
    requires
        valid_run(TryEnableIdmac::begin(layout, buffer), replies),
    ensures
        ({
            let s = after(TryEnableIdmac::begin(layout, buffer), replies);
            let over = outstanding(TryEnableIdmac::begin(layout, buffer), replies) is Finished;
            &&& over <==> s.result() is Some
            &&& s.result() == match refused_at(replies) {
                None => if replies.len() == 17 {
                    Some(Ok(()))
                } else {
                    None
                },
                Some(index) => if over {
                    Some(Err(error_at(index)))
                } else {
                    None
                },
            }
            &&& s.buffer == match s.result() {
                None => buffer,
                Some(Err(_)) => None,
                Some(Ok(())) => Some(
                    DMABuffer { addr: replies[0]->Allocated_0->Some_0, size: layout.size },
                ),
            }
        }),
{
    lemma_stage(layout, buffer, replies);
}

} // verus!
