//! What holds of every attempt to enter DMA mode.
use vstd::prelude::*;

use crate::bits::lemma_with_bit;
use crate::bus::{
    after, last_read, last_write, log, outstanding, valid_run, MemLayout, Protocol, Reply, Request,
};
use crate::dma::DMABuffer;
use crate::enable::{
    idmac_interrupts, interrupts_enabled, EnableError, EnableStage, TryEnableIdmac,
};
use crate::regs::{BMod, Ctrl, IdIntEn, IntMask, Reg};

verus! {

/// The requests that reach beyond the controller: memory, the interrupt handler
/// and the enabling of interrupts.
pub open spec fn takes_resources(request: Request) -> bool {
    match request {
        Request::AllocCoherent(_) | Request::DeallocCoherent(_, _) => true,
        Request::RegisterIrq | Request::Write(Reg::Idinten, _) => true,
        _ => false,
    }
}

/// What had been taken, besides memory, when an attempt met `error`.
pub open spec fn taken_before(error: EnableError) -> Seq<Request> {
    let idinten = Request::Write(Reg::Idinten, idmac_interrupts().bits);
    match error {
        EnableError::IdintenRejected | EnableError::IntmaskRejected => seq![idinten],
        EnableError::IrqRefused => seq![idinten, Request::RegisterIrq],
        _ => Seq::empty(),
    }
}

impl TryEnableIdmac {
    /// What an attempt that met `error` has taken, and given back where there was
    /// memory to give back.
    pub open spec fn returned(self, error: EnableError) -> Seq<Request> {
        let alloc = seq![Request::AllocCoherent(self.layout)];
        if error == EnableError::NoMemory {
            alloc
        } else {
            (alloc + taken_before(error)).push(Request::DeallocCoherent(self.memory, self.layout))
        }
    }

    /// What the attempt has taken and given back so far.
    pub open spec fn taken(self) -> Seq<Request> {
        let alloc = seq![Request::AllocCoherent(self.layout)];
        let idinten = Request::Write(Reg::Idinten, idmac_interrupts().bits);
        match self.stage {
            EnableStage::Allocate => Seq::empty(),
            EnableStage::CheckIdinten | EnableStage::ReadIntmask => alloc.push(idinten),
            EnableStage::WriteIntmask(_) | EnableStage::CheckIntmask => alloc.push(idinten),
            EnableStage::Register => alloc.push(idinten),
            EnableStage::Finished(Ok(())) => alloc.push(idinten).push(Request::RegisterIrq),
            EnableStage::Free(error) => alloc + taken_before(error),
            EnableStage::UndoReadBmod(error) => self.returned(error),
            EnableStage::UndoWriteBmod(error, _) => self.returned(error),
            EnableStage::AwaitBmod(error, _) => self.returned(error),
            EnableStage::UndoReadCtrl(error) => self.returned(error),
            EnableStage::UndoWriteCtrl(error, _) => self.returned(error),
            EnableStage::AwaitCtrl(error, _) => self.returned(error),
            EnableStage::UndoIdinten(error) => self.returned(error),
            EnableStage::Finished(Err(error)) => self.returned(error).push(
                Request::Write(Reg::Idinten, 0),
            ),
            _ => alloc,
        }
    }

    /// Memory is given back only where there was some.
    pub open spec fn frees_what_it_has(self) -> bool {
        self.stage != EnableStage::Free(EnableError::NoMemory)
    }

    /// The error that an attempt is recovering from.
    pub open spec fn recovering(self) -> Option<EnableError> {
        match self.stage {
            EnableStage::Free(error) | EnableStage::UndoReadBmod(error) => Some(error),
            EnableStage::UndoWriteBmod(error, _) | EnableStage::AwaitBmod(error, _) => Some(error),
            EnableStage::UndoReadCtrl(error) | EnableStage::UndoWriteCtrl(error, _) => Some(error),
            EnableStage::AwaitCtrl(error, _) | EnableStage::UndoIdinten(error) => Some(error),
            _ => None,
        }
    }

    /// The error that an attempt met, whether it is over or not.
    pub open spec fn error(self) -> Option<EnableError> {
        match self.stage {
            EnableStage::Finished(Err(error)) => Some(error),
            _ => self.recovering(),
        }
    }

    /// The number of replies after which an attempt that goes well is here.
    pub open spec fn position(self) -> int {
        match self.stage {
            EnableStage::Allocate => 0,
            EnableStage::ReadStatus => 1,
            EnableStage::ClearStatus(_) => 2,
            EnableStage::ReadIdsts => 3,
            EnableStage::ClearIdsts(_) => 4,
            EnableStage::ReadBmod => 5,
            EnableStage::WriteBmod(_) => 6,
            EnableStage::CheckBmod => 7,
            EnableStage::ReadCtrl => 8,
            EnableStage::WriteCtrl(_) => 9,
            EnableStage::CheckCtrl => 10,
            EnableStage::WriteIdinten => 11,
            EnableStage::CheckIdinten => 12,
            EnableStage::ReadIntmask => 13,
            EnableStage::WriteIntmask(_) => 14,
            EnableStage::CheckIntmask => 15,
            EnableStage::Register => 16,
            EnableStage::Finished(Ok(())) => 17,
            _ => -1,
        }
    }
}

/// One step keeps account of what was taken.
pub proof fn enable_step_takes(s: TryEnableIdmac, reply: Reply)
    requires
        reply.answers(s.asks()),
        s.frees_what_it_has(),
    ensures
        s.hears(reply).frees_what_it_has(),
        s.hears(reply).taken() == if takes_resources(s.asks()) {
            s.taken().push(s.asks())
        } else {
            s.taken()
        },
{
    let t = s.hears(reply);
    let alloc = seq![Request::AllocCoherent(s.layout)];
    match s.stage {
        EnableStage::Allocate => {
            assert(t.taken() =~= Seq::empty().push(s.asks()));
        },
        EnableStage::WriteIdinten => {
            assert(t.taken() =~= s.taken().push(s.asks()));
        },
        EnableStage::CheckBmod | EnableStage::CheckCtrl => {
            assert(t.taken() =~= alloc);
        },
        EnableStage::CheckIdinten | EnableStage::CheckIntmask => {
            assert(t.taken() =~= s.taken());
        },
        EnableStage::Register => {
            assert(t.taken() =~= s.taken().push(s.asks()));
        },
        EnableStage::Free(_) | EnableStage::UndoIdinten(_) => {
            assert(t.taken() =~= s.taken().push(s.asks()));
        },
        _ => {
            assert(!takes_resources(s.asks()));
            assert(t.taken() == s.taken());
        },
    }
}

/// An attempt accounts for what it takes: memory is asked for once, and what the
/// allocator gave is the memory that the attempt works with; where the attempt
/// fails, memory that there was is freed once, with the layout it was
/// allocated with, the IDMAC's interrupts are disabled and the driver is without a
/// data buffer; where it succeeds, the memory is kept and the driver has it for its
/// data buffer.
pub proof fn enable_accounts_for_resources(
    layout: MemLayout,
    buffer: Option<DMABuffer>,
    replies: Seq<Reply>,
)
    requires
        valid_run(TryEnableIdmac::begin(layout, buffer), replies),
    ensures
        ({
            let start = TryEnableIdmac::begin(layout, buffer);
            let s = after(start, replies);
            &&& log(start, replies, |q: Request| takes_resources(q)) == s.taken()
            &&& s.layout == layout
            &&& s.frees_what_it_has()
            &&& s.stage is Allocate <==> replies.len() == 0
            &&& s.error() == Some(EnableError::NoMemory) <==> replies.len() > 0 && replies[0]
                == Reply::Allocated(None)
            &&& replies.len() > 0 && replies[0] != Reply::Allocated(None) ==> replies[0]
                == Reply::Allocated(Some(s.memory))
            &&& s.buffer == match s.result() {
                Some(Ok(())) => Some(DMABuffer { addr: s.memory, size: layout.size }),
                Some(Err(_)) => None,
                None => buffer,
            }
        }),
    decreases replies.len(),
{
    let start = TryEnableIdmac::begin(layout, buffer);
    if replies.len() > 0 {
        enable_accounts_for_resources(layout, buffer, replies.drop_last());
        enable_step_takes(after(start, replies.drop_last()), replies.last());
    }
}

/// What an attempt should come to grief on, by the replies it got: no memory, a
/// setting that does not read back as written, or a refused interrupt handler,
/// whichever is first.
pub open spec fn refusal(replies: Seq<Reply>) -> Option<EnableError> {
    if replies.len() > 0 && replies[0] == Reply::Allocated(None) {
        Some(EnableError::NoMemory)
    } else if replies.len() > 7 && !(BMod { bits: replies[7]->Word_0 }.de() && BMod {
        bits: replies[7]->Word_0,
    }.fb()) {
        Some(EnableError::BmodRejected)
    } else if replies.len() > 10 && !(Ctrl { bits: replies[10]->Word_0 }.use_internal_dmac()
        && Ctrl { bits: replies[10]->Word_0 }.int_enable()) {
        Some(EnableError::CtrlRejected)
    } else if replies.len() > 12 && !interrupts_enabled(IdIntEn { bits: replies[12]->Word_0 }) {
        Some(EnableError::IdintenRejected)
    } else if replies.len() > 15 && !(IntMask { bits: replies[15]->Word_0 }.dto()) {
        Some(EnableError::IntmaskRejected)
    } else if replies.len() > 16 && replies[16] == Reply::Registered(false) {
        Some(EnableError::IrqRefused)
    } else {
        None
    }
}

/// An attempt fails with the error that the first refusal gives, and on nothing
/// else: without a refusal it has succeeded after its seventeenth reply.
#[verifier::rlimit(60)]
pub proof fn attempt_fails_on_first_refusal(
    layout: MemLayout,
    buffer: Option<DMABuffer>,
    replies: Seq<Reply>,
)
    requires
        valid_run(TryEnableIdmac::begin(layout, buffer), replies),
    ensures
        after(TryEnableIdmac::begin(layout, buffer), replies).error() == refusal(replies),
        refusal(replies) is None ==> after(
            TryEnableIdmac::begin(layout, buffer),
            replies,
        ).position() == replies.len(),
        after(TryEnableIdmac::begin(layout, buffer), replies).result() == Some(
            Ok::<(), EnableError>(()),
        ) <==> replies.len() == 17 && refusal(replies) is None,
    decreases replies.len(),
{
    let start = TryEnableIdmac::begin(layout, buffer);
    if replies.len() > 0 {
        let earlier = replies.drop_last();
        attempt_fails_on_first_refusal(layout, buffer, earlier);
        assert(forall|i: int| 0 <= i < earlier.len() ==> earlier[i] == replies[i]);
        let s = after(start, earlier);
        assert(after(start, replies) == s.hears(replies.last()));
    }
}

/// The settings in which the controller does DMA.
pub open spec fn dma_settings(start: TryEnableIdmac, replies: Seq<Reply>) -> bool {
    let s = after(start, replies);
    &&& s.position() >= 7 ==> {
        &&& last_write(start, replies, Reg::Bmod) matches Some(word)
        &&& (BMod { bits: word }).de() && (BMod { bits: word }).fb()
    }
    &&& s.position() >= 10 ==> {
        &&& last_write(start, replies, Reg::Ctrl) matches Some(word)
        &&& (Ctrl { bits: word }).use_internal_dmac() && (Ctrl { bits: word }).int_enable()
    }
    &&& s.position() >= 12 ==> last_write(start, replies, Reg::Idinten) == Some(
        idmac_interrupts().bits,
    )
    &&& s.position() >= 15 ==> {
        &&& last_write(start, replies, Reg::Intmask) matches Some(word)
        &&& (IntMask { bits: word }).dto()
    }
    &&& s.stage matches EnableStage::WriteBmod(bmod) ==> bmod.de() && bmod.fb()
    &&& s.stage matches EnableStage::WriteCtrl(ctrl) ==> ctrl.use_internal_dmac()
        && ctrl.int_enable()
    &&& s.stage matches EnableStage::WriteIntmask(mask) ==> mask.dto()
}

/// The settings in which the CPU moves the data and the IDMAC is reset.
pub open spec fn pio_settings(start: TryEnableIdmac, replies: Seq<Reply>) -> bool {
    let s = after(start, replies);
    let bmod_off = match last_write(start, replies, Reg::Bmod) {
        Some(word) => !(BMod { bits: word }).de() && (BMod { bits: word }).swr(),
        None => false,
    };
    let ctrl_off = match last_write(start, replies, Reg::Ctrl) {
        Some(word) => !(Ctrl { bits: word }).use_internal_dmac() && (Ctrl { bits: word }).dma_reset(),
        None => false,
    };
    match s.stage {
        EnableStage::UndoWriteBmod(_, bmod) => !bmod.de() && bmod.swr(),
        EnableStage::AwaitBmod(_, _) | EnableStage::UndoReadCtrl(_) => bmod_off,
        EnableStage::UndoWriteCtrl(_, ctrl) => bmod_off && !ctrl.use_internal_dmac()
            && ctrl.dma_reset(),
        EnableStage::AwaitCtrl(_, _) | EnableStage::UndoIdinten(_) => bmod_off && ctrl_off,
        EnableStage::Finished(Err(_)) => bmod_off && ctrl_off && last_write(
            start,
            replies,
            Reg::Idinten,
        ) == Some(0u32),
        _ => true,
    }
}

/// Setting two bits of a register sets both.
proof fn lemma_two_bits(word: u32, a: u32, x: bool, b: u32, y: bool)
    requires
        a < 32,
        b < 32,
        a != b,
    ensures
        crate::bits::bit(
            crate::bits::with_bit(crate::bits::with_bit(word, a, x), b, y),
            a,
        ) == x,
        crate::bits::bit(
            crate::bits::with_bit(crate::bits::with_bit(word, a, x), b, y),
            b,
        ) == y,
{
    lemma_with_bit(word, a, x, a);
    lemma_with_bit(crate::bits::with_bit(word, a, x), b, y, a);
    lemma_with_bit(crate::bits::with_bit(word, a, x), b, y, b);
}

/// An attempt leaves the controller in one of two settings: in DMA mode with all
/// its interrupts where it succeeded, and where it failed, at whatever step, in the
/// mode in which the CPU moves the data, with the IDMAC and the DMA interface
/// reset.
pub proof fn controller_is_left_in_one_mode(
    layout: MemLayout,
    buffer: Option<DMABuffer>,
    replies: Seq<Reply>,
)
    requires
        valid_run(TryEnableIdmac::begin(layout, buffer), replies),
    ensures
        dma_settings(TryEnableIdmac::begin(layout, buffer), replies),
        pio_settings(TryEnableIdmac::begin(layout, buffer), replies),
    decreases replies.len(),
{
    let start = TryEnableIdmac::begin(layout, buffer);
    if replies.len() > 0 {
        let earlier = replies.drop_last();
        controller_is_left_in_one_mode(layout, buffer, earlier);
        enable_accounts_for_resources(layout, buffer, earlier);
        let s = after(start, earlier);
        assert(after(start, replies) == s.hears(replies.last()));
        if let Reply::Word(word) = replies.last() {
            lemma_two_bits(word, 7, true, 1, true);
            lemma_two_bits(word, 7, false, 0, true);
            lemma_two_bits(word, 25, true, 4, true);
            lemma_two_bits(word, 25, false, 2, true);
            lemma_with_bit(word, 3, true, 3);
        }
    }
}

/// An attempt with memory first acknowledges old interrupts, as they were read, and
/// then changes each register only in the bits that it is about: all others are
/// written back as they were read.
pub proof fn enable_keeps_other_bits(
    layout: MemLayout,
    buffer: Option<DMABuffer>,
    replies: Seq<Reply>,
)
    requires
        valid_run(TryEnableIdmac::begin(layout, buffer), replies),
    ensures
        ({
            let start = TryEnableIdmac::begin(layout, buffer);
            let s = after(start, replies);
            let request = outstanding(start, replies);
            let undoing = s.recovering() is Some;
            &&& request matches Request::Write(Reg::Rintsts, word) ==> replies.len() == 2
                && replies.last() == Reply::Word(word)
            &&& request matches Request::Write(Reg::Idsts, word) ==> replies.len() == 4
                && replies.last() == Reply::Word(word)
            &&& request matches Request::Write(Reg::Bmod, word) ==> {
                &&& replies.last() matches Reply::Word(old)
                &&& word == if undoing {
                    (BMod { bits: old }).with_de(false).with_swr(true).bits
                } else {
                    (BMod { bits: old }).with_de(true).with_fb(true).bits
                }
            }
            &&& request matches Request::Write(Reg::Ctrl, word) ==> {
                &&& replies.last() matches Reply::Word(old)
                &&& word == if undoing {
                    (Ctrl { bits: old }).with_use_internal_dmac(false).with_dma_reset(true).bits
                } else {
                    (Ctrl { bits: old }).with_use_internal_dmac(true).with_int_enable(true).bits
                }
            }
            &&& request matches Request::Write(Reg::Intmask, word) ==> {
                &&& replies.last() matches Reply::Word(old)
                &&& word == (IntMask { bits: old }).with_dto(true).bits
            }
        }),
{
    let start = TryEnableIdmac::begin(layout, buffer);
    attempt_fails_on_first_refusal(layout, buffer, replies);
    if replies.len() > 0 {
        assert(after(start, replies) == after(start, replies.drop_last()).hears(replies.last()));
    }
}

/// An attempt that failed waits for both resets: it leaves the IDMAC only once bus
/// mode was read with the reset over, and ends only once control was, too.
pub proof fn resets_are_awaited(layout: MemLayout, buffer: Option<DMABuffer>, replies: Seq<Reply>)
    requires
        valid_run(TryEnableIdmac::begin(layout, buffer), replies),
    ensures
        ({
            let start = TryEnableIdmac::begin(layout, buffer);
            let s = after(start, replies);
            let idmac_reset = last_read(start, replies, Reg::Bmod) matches Some(word) && !(BMod {
                bits: word,
            }).swr();
            let interface_reset = last_read(start, replies, Reg::Ctrl) matches Some(word)
                && !(Ctrl { bits: word }).dma_reset();
            match s.stage {
                EnableStage::UndoReadCtrl(_) | EnableStage::UndoWriteCtrl(_, _) => idmac_reset,
                EnableStage::AwaitCtrl(_, _) => idmac_reset,
                EnableStage::UndoIdinten(_) => idmac_reset && interface_reset,
                EnableStage::Finished(Err(_)) => idmac_reset && interface_reset,
                _ => true,
            }
        }),
    decreases replies.len(),
{
    let start = TryEnableIdmac::begin(layout, buffer);
    if replies.len() > 0 {
        resets_are_awaited(layout, buffer, replies.drop_last());
        assert(after(start, replies) == after(start, replies.drop_last()).hears(replies.last()));
    }
}

} // verus!
