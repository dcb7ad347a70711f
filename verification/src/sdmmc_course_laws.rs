//! What the setup of a driver must ask for next, by what was asked and answered before.
use vstd::prelude::*;

use crate::bus::{after, log, outstanding, valid_run, MemLayout, Protocol, Reply, Request};
use crate::dma::DMABuffer;
use crate::enable::TryEnableIdmac;
use crate::enable_course_laws::attempt_ends_by_its_refusal;
use crate::init::Init;
use crate::init_course_laws::{blocks_known, bring_up_takes_its_course, so_far};
use crate::sdmmc::{AHBDataWidth, NewSdMmc, SdMmcState};

verus! {

/// The data buffer that a driver asks for: one block, aligned to the bytes that the bus
/// moves at once.
pub open spec fn one_block_aligned(width: AHBDataWidth) -> MemLayout {
    MemLayout {
        size: 512,
        align: match width {
            AHBDataWidth::Bits16 => 2,
            AHBDataWidth::Bits32 => 4,
            AHBDataWidth::Bits64 => 8,
        },
    }
}

/// A driver asks for its data buffer, and gives it back, as one block in the alignment
/// of its bus.
pub proof fn buffer_is_one_block(driver: SdMmcState)
    ensures
        driver.buffer_layout() == one_block_aligned(driver.ahb_data_width),
        driver.ahb_data_width.align_value() == one_block_aligned(driver.ahb_data_width).align,
        driver.wf() <==> (driver.dma_buffer matches Some(buffer) ==> buffer.size == 512),
{
}

/// The attempt to enter DMA mode that a setup makes.
pub open spec fn first_attempt(width: AHBDataWidth) -> TryEnableIdmac {
    TryEnableIdmac::begin(one_block_aligned(width), None)
}

/// The replies after the first, parted: those to the bring-up, up to its end, and those
/// to the attempt to enter DMA mode.
pub open spec fn parted(replies: Seq<Reply>) -> (Seq<Reply>, Seq<Reply>)
    decreases replies.len(),
{
    if replies.len() <= 1 {
        (Seq::empty(), Seq::empty())
    } else {
        let (up, on) = parted(replies.drop_last());
        if after(Init::begin(0), up).result() is None {
            (up.push(replies.last()), on)
        } else {
            (up, on.push(replies.last()))
        }
    }
}

/// What is due, by the traffic so far: the address of the registers, as it was given, is
/// published; then comes the bring-up, and then the attempt to enter DMA mode.
pub open spec fn due(base: usize, width: AHBDataWidth, replies: Seq<Reply>) -> Request {
    let (up, on) = parted(replies);
    if replies.len() == 0 {
        Request::SetBase(base)
    } else if after(Init::begin(0), up).result() is None {
        outstanding(Init::begin(0), up)
    } else {
        outstanding(first_attempt(width), on)
    }
}

/// What the traffic says of the stage.
spec fn tells_stage(base: usize, width: AHBDataWidth, replies: Seq<Reply>) -> bool {
    let s = after(NewSdMmc::begin(base, width), replies);
    let (up, on) = parted(replies);
    &&& s.base == base && s.ahb_data_width == width
    &&& valid_run(Init::begin(0), up) && s.init == after(Init::begin(0), up)
    &&& valid_run(first_attempt(width), on) && s.enable == after(first_attempt(width), on)
    &&& s.stage is Publish <==> replies.len() == 0
    &&& replies.len() > 0 ==> (s.stage is BringUp <==> s.init.result() is None)
    &&& s.stage is Publish || s.stage is BringUp ==> on.len() == 0
    &&& s.stage is Enable ==> s.enable.result() is None
    &&& s.stage is Finished ==> s.enable.result() is Some
}

/// The stage follows from the traffic.
proof fn lemma_stage(base: usize, width: AHBDataWidth, replies: Seq<Reply>)
    requires
        valid_run(NewSdMmc::begin(base, width), replies),
    ensures
        tells_stage(base, width, replies),
    decreases replies.len(),
{
    let start = NewSdMmc::begin(base, width);
    if replies.len() > 0 {
        let earlier = replies.drop_last();
        lemma_stage(base, width, earlier);
        let s = after(start, earlier);
        assert(after(start, replies) == s.hears(replies.last()));
        let (up, on) = parted(earlier);
        assert(up.push(replies.last()).drop_last() =~= up);
        assert(on.push(replies.last()).drop_last() =~= on);
    }
}

/// A finished attempt asks for nothing.
proof fn lemma_attempt_over(s: TryEnableIdmac)
    ensures
        s.asks() is Finished <==> s.result() is Some,
        !(s.asks() is SetBase),
{
}

/// The bring-up publishes nothing.
proof fn lemma_bring_up_publishes_nothing(s: Init<Seq<u8>>)
    ensures
        !(s.asks() is SetBase),
{
}

/// The whole course of a setup.
pub proof fn setup_takes_its_course(base: usize, width: AHBDataWidth, replies: Seq<Reply>)
    requires
        valid_run(NewSdMmc::begin(base, width), replies),
    ensures
        outstanding(NewSdMmc::begin(base, width), replies) == due(base, width, replies),
{
    let s = after(NewSdMmc::begin(base, width), replies);
    lemma_stage(base, width, replies);
    lemma_attempt_over(s.enable);
}

/// What is published to the interrupt handler is exactly the address that the setup was
/// given; it is the first thing that the setup does, and nothing else is ever published.
pub proof fn given_base_is_published(base: usize, width: AHBDataWidth, replies: Seq<Reply>)
    requires
        valid_run(NewSdMmc::begin(base, width), replies),
    ensures
        outstanding(NewSdMmc::begin(base, width), Seq::empty()) == Request::SetBase(base),
        outstanding(NewSdMmc::begin(base, width), replies) is SetBase ==> replies.len() == 0,
        replies.len() > 0 ==> log(
            NewSdMmc::begin(base, width),
            replies,
            |q: Request| q is SetBase,
        ) == seq![Request::SetBase(base)],
    decreases replies.len(),
{
    let start = NewSdMmc::begin(base, width);
    let s = after(start, replies);
    lemma_stage(base, width, replies);
    lemma_attempt_over(s.enable);
    lemma_bring_up_publishes_nothing(s.init);
    if replies.len() > 0 {
        let earlier = replies.drop_last();
        given_base_is_published(base, width, earlier);
        let keep = |q: Request| q is SetBase;
        if replies.len() == 1 {
            assert(earlier =~= Seq::empty());
            assert(outstanding(start, earlier) == Request::SetBase(base));
            assert(log(start, earlier, keep) =~= Seq::empty());
            assert(log(start, replies, keep) =~= seq![Request::SetBase(base)]);
        } else {
            assert(log(start, replies, keep) == log(start, earlier, keep));
        }
    }
}

/// The driver that a setup yields: it knows the blocks that the card told, has the bus
/// that it was given, and for data buffer the memory that the allocator gave where DMA
/// mode was entered, and none where it was not.
pub proof fn setup_yields_what_it_learned(base: usize, width: AHBDataWidth, replies: Seq<Reply>)
    requires
        valid_run(NewSdMmc::begin(base, width), replies),
    ensures
        ({
            let s = after(NewSdMmc::begin(base, width), replies);
            let (up, on) = parted(replies);
            &&& s.stage is Finished <==> after(first_attempt(width), on).result() is Some
            &&& s.stage is Finished ==> outstanding(
                NewSdMmc::begin(base, width),
                replies,
            ) is Finished
            &&& s.driver().num_blocks == blocks_known(0, so_far(up).0)
            &&& s.driver().ahb_data_width == width
            &&& s.driver().dma_buffer == if after(first_attempt(width), on).result() == Some(
                Ok::<(), crate::enable::EnableError>(()),
            ) {
                Some(DMABuffer { addr: on[0]->Allocated_0->Some_0, size: 512 })
            } else {
                None
            }
        }),
{
    let (up, on) = parted(replies);
    lemma_stage(base, width, replies);
    lemma_attempt_comes_last(base, width, replies);
    bring_up_takes_its_course(0, up);
    attempt_ends_by_its_refusal(one_block_aligned(width), None, on);
}

/// The attempt has not begun while the bring-up goes on.
proof fn lemma_attempt_comes_last(base: usize, width: AHBDataWidth, replies: Seq<Reply>)
    ensures
        after(Init::begin(0), parted(replies).0).result() is None ==> parted(replies).1.len() == 0,
    decreases replies.len(),
{
    if replies.len() > 1 {
        let earlier = replies.drop_last();
        lemma_attempt_comes_last(base, width, earlier);
    }
}

} // verus!
