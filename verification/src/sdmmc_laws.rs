//! What holds of the driver and of every setup of one.
use vstd::prelude::*;

use crate::bus::{after, log, valid_run, MemLayout, Protocol, Reply, Request};
use crate::dma::DMABuffer;
use crate::enable::{EnableError, TryEnableIdmac};
use crate::enable_laws::enable_accounts_for_resources;
use crate::init::Init;
use crate::init_laws::{blocks_after, capacity_answer, capacity_is_the_cards_answer};
use crate::sdmmc::{AHBDataWidth, NewSdMmc, NewStage, SdMmc, SdMmcState};

verus! {

/// An attempt to enter DMA mode leaves a well-formed driver well-formed.
pub proof fn enable_keeps_driver_wf(driver: SdMmcState, replies: Seq<Reply>)
    requires
        driver.wf(),
        valid_run(
            TryEnableIdmac::begin(driver.buffer_layout(), driver.dma_buffer),
            replies,
        ),
    ensures
        ({
            let op = after(
                TryEnableIdmac::begin(driver.buffer_layout(), driver.dma_buffer),
                replies,
            );
            (SdMmcState { dma_buffer: op.buffer, ..driver }).wf()
        }),
{
    enable_accounts_for_resources(driver.buffer_layout(), driver.dma_buffer, replies);
}

/// The replies of a setup that it took in at `stage`.
pub open spec fn heard_at(start: NewSdMmc<Seq<u8>>, replies: Seq<Reply>, stage: NewStage) -> Seq<
    Reply,
>
    decreases replies.len(),
{
    if replies.len() == 0 {
        Seq::empty()
    } else {
        let heard = heard_at(start, replies.drop_last(), stage);
        if after(start, replies.drop_last()).stage == stage {
            heard.push(replies.last())
        } else {
            heard
        }
    }
}

/// A setup tells the interrupt handler where the registers are before it does
/// anything else, then runs a bring-up to its end, and only then an attempt to
/// enter DMA mode.
pub proof fn setup_runs_its_parts(
    base: usize,
    ahb_data_width: AHBDataWidth,
    replies: Seq<Reply>,
)
    requires
        valid_run(NewSdMmc::begin(base, ahb_data_width), replies),
    ensures
        ({
            let start = NewSdMmc::begin(base, ahb_data_width);
            let s = after(start, replies);
            let bring_up = heard_at(start, replies, NewStage::BringUp);
            let enable = heard_at(start, replies, NewStage::Enable);
            &&& s.base == base && s.ahb_data_width == ahb_data_width
            &&& valid_run(start.init, bring_up) && s.init == after(start.init, bring_up)
            &&& valid_run(start.enable, enable) && s.enable == after(start.enable, enable)
            &&& s.stage is Publish <==> replies.len() == 0
            &&& s.stage is Publish ==> s == start
            &&& s.stage is BringUp ==> s.init.result() is None && s.enable == start.enable
            &&& s.stage is Enable || s.stage is Finished ==> s.init.result() is Some
            &&& s.stage is Finished <==> s.enable.result() is Some
        }),
    decreases replies.len(),
{
    let start = NewSdMmc::begin(base, ahb_data_width);
    if replies.len() > 0 {
        let earlier = replies.drop_last();
        setup_runs_its_parts(base, ahb_data_width, earlier);
        let s = after(start, earlier);
        assert(after(start, replies) == s.hears(replies.last()));
        let heard = heard_at(start, earlier, s.stage);
        assert(heard.push(replies.last()).drop_last() =~= heard);
    }
}

/// A setup yields a well-formed driver. It knows as many blocks as the card
/// answered, none where the card was not asked or the question ended in an error.
/// It has a data buffer exactly if DMA mode was entered: the memory that the
/// allocator gave.
#[verifier::rlimit(40)]
pub proof fn setup_yields_driver(
    base: usize,
    ahb_data_width: AHBDataWidth,
    replies: Seq<Reply>,
)
    requires
        valid_run(NewSdMmc::begin(base, ahb_data_width), replies),
    ensures
        ({
            let start = NewSdMmc::begin(base, ahb_data_width);
            let s = after(start, replies);
            let bring_up = heard_at(start, replies, NewStage::BringUp);
            let enable = heard_at(start, replies, NewStage::Enable);
            &&& s.driver().wf()
            &&& s.driver().ahb_data_width == ahb_data_width
            &&& s.driver().num_blocks == blocks_after(0, capacity_answer(Init::begin(0), bring_up))
            &&& s.driver().dma_buffer == if s.enable.result() == Some(Ok::<(), EnableError>(())) {
                Some(DMABuffer { addr: s.enable.memory, size: SdMmc::BLOCK_SIZE })
            } else {
                None
            }
            &&& s.driver().dma_buffer matches Some(buffer) ==> {
                &&& enable.len() > 0
                &&& enable[0] == Reply::Allocated(Some(buffer.addr))
            }
        }),
{
    let start = NewSdMmc::begin(base, ahb_data_width);
    setup_runs_its_parts(base, ahb_data_width, replies);
    capacity_is_the_cards_answer(0, heard_at(start, replies, NewStage::BringUp));
    enable_accounts_for_resources(
        start.enable.layout,
        None,
        heard_at(start, replies, NewStage::Enable),
    );
}

/// Whether an attempt to enter DMA mode came as far as registering the interrupt
/// handler.
pub open spec fn has_registered(s: TryEnableIdmac) -> bool {
    s.result() == Some(Ok::<(), EnableError>(())) || s.error() == Some(EnableError::IrqRefused)
}

/// An attempt has registered the handler once it asked for that, and asks for it
/// only where it has not.
proof fn lemma_registering_step(s: TryEnableIdmac, reply: Reply)
    requires
        reply.answers(s.asks()),
    ensures
        has_registered(s.hears(reply)) == (has_registered(s) || s.asks() is RegisterIrq),
        s.asks() is RegisterIrq ==> !has_registered(s),
{
}

/// A bring-up never registers the handler.
proof fn lemma_bring_up_registers_nothing(s: Init<Seq<u8>>)
    ensures
        s.asks() !is RegisterIrq,
{
}

/// A setup registers the interrupt handler at most once: exactly once where it came
/// as far as that, whether the handler was taken or refused, and not at all where it
/// did not.
pub proof fn setup_registers_handler_once(
    base: usize,
    ahb_data_width: AHBDataWidth,
    replies: Seq<Reply>,
)
    requires
        valid_run(NewSdMmc::begin(base, ahb_data_width), replies),
    ensures
        ({
            let start = NewSdMmc::begin(base, ahb_data_width);
            let s = after(start, replies);
            log(start, replies, |q: Request| q is RegisterIrq) == if has_registered(s.enable) {
                seq![Request::RegisterIrq]
            } else {
                Seq::empty()
            }
        }),
    decreases replies.len(),
{
    let start = NewSdMmc::begin(base, ahb_data_width);
    if replies.len() > 0 {
        let earlier = replies.drop_last();
        setup_registers_handler_once(base, ahb_data_width, earlier);
        setup_runs_its_parts(base, ahb_data_width, earlier);
        let s = after(start, earlier);
        assert(after(start, replies) == s.hears(replies.last()));
        match s.stage {
            NewStage::BringUp => {
                lemma_bring_up_registers_nothing(s.init);
            },
            NewStage::Enable => {
                lemma_registering_step(s.enable, replies.last());
                assert(Seq::<Request>::empty().push(Request::RegisterIrq) =~= seq![
                    Request::RegisterIrq,
                ]);
            },
            _ => {},
        }
    }
}

/// What a driver gives up at its end has the layout that its data buffer was
/// asked for with, and is one that the allocator takes.
pub proof fn release_matches_allocation(driver: SdMmcState)
    requires
        driver.wf(),
    ensures
        driver.dma_buffer matches Some(buffer) ==> driver.buffer_layout() == (MemLayout {
            size: buffer.size,
            align: driver.ahb_data_width.align_value(),
        }),
        driver.buffer_layout().valid(),
{
    vstd::arithmetic::power2::lemma2_to64();
    let align = driver.buffer_layout().align;
    assert(align == vstd::arithmetic::power2::pow2(1) || align == vstd::arithmetic::power2::pow2(2)
        || align == vstd::arithmetic::power2::pow2(3));
}

} // verus!
