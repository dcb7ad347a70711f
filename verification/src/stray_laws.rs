//! A reply that does not answer what was asked changes nothing, whatever the operation
//! and wherever it stands.
use vstd::prelude::*;

use crate::block::{BlockOp, Route, BLOCK_BYTES};
use crate::block_laws::block_runs_its_command;
use crate::bus::{after, outstanding, valid_run, Protocol, Reply};
use crate::cmd::Command;
use crate::dma::DMABuffer;
use crate::enable::TryEnableIdmac;
use crate::idmac::SendCmdIdmac;
use crate::init::Init;
use crate::init_laws::bring_up_in_order;
use crate::interrupt::HandleInterrupt;
use crate::sdmmc::{AHBDataWidth, NewSdMmc, NewStage};
use crate::sdmmc_laws::setup_runs_its_parts;
use crate::send::SendCmd;

verus! {

/// A command without DMA ignores a stray reply.
pub proof fn command_ignores_stray_reply(s: SendCmd<Seq<u8>>, reply: Reply)
    requires
        !reply.answers(s.asks()),
    ensures
        s.hears(reply) == s,
{
}

/// A transfer by DMA ignores a stray reply.
pub proof fn transfer_ignores_stray_reply(s: SendCmdIdmac, reply: Reply)
    requires
        !reply.answers(s.asks()),
    ensures
        s.hears(reply) == s,
{
}

/// An attempt to enter DMA mode ignores a stray reply.
pub proof fn attempt_ignores_stray_reply(s: TryEnableIdmac, reply: Reply)
    requires
        !reply.answers(s.asks()),
    ensures
        s.hears(reply) == s,
{
}

/// The interrupt handler ignores a stray reply.
pub proof fn handler_ignores_stray_reply(s: HandleInterrupt, reply: Reply)
    requires
        !reply.answers(s.asks()),
    ensures
        s.hears(reply) == s,
{
}

/// The bring-up ignores a stray reply.
pub proof fn bring_up_ignores_stray_reply(s: Init<Seq<u8>>, reply: Reply)
    requires
        s.wf(),
        !reply.answers(s.asks()),
    ensures
        s.hears(reply) == s,
{
    if s.stage.sends() {
        command_ignores_stray_reply(s.command, reply);
    }
}

/// A block transfer ignores a stray reply.
pub proof fn block_ignores_stray_reply(
    write: bool,
    block: u32,
    data: [u8; BLOCK_BYTES],
    buffer: Option<DMABuffer>,
    replies: Seq<Reply>,
    reply: Reply,
)
    requires
        valid_run(BlockOp::begin(write, block, data, buffer), replies),
        !reply.answers(outstanding(BlockOp::begin(write, block, data, buffer), replies)),
    ensures
        after(BlockOp::begin(write, block, data, buffer), replies).hears(reply) == after(
            BlockOp::begin(write, block, data, buffer),
            replies,
        ),
{
    block_runs_its_command(write, block, data, buffer, replies);
    let s = after(BlockOp::begin(write, block, data, buffer), replies);
    if s.stage is Move {
        match s.route {
            Route::Pio(command) => {
                command_ignores_stray_reply(command, reply);
            },
            Route::Dma(_, command) => {
                transfer_ignores_stray_reply(command, reply);
            },
        }
    }
}

/// The setup of a driver ignores a stray reply.
pub proof fn setup_ignores_stray_reply(
    base: usize,
    width: AHBDataWidth,
    replies: Seq<Reply>,
    reply: Reply,
)
    requires
        valid_run(NewSdMmc::begin(base, width), replies),
        !reply.answers(outstanding(NewSdMmc::begin(base, width), replies)),
    ensures
        after(NewSdMmc::begin(base, width), replies).hears(reply) == after(
            NewSdMmc::begin(base, width),
            replies,
        ),
{
    let start = NewSdMmc::begin(base, width);
    let s = after(start, replies);
    setup_runs_its_parts(base, width, replies);
    bring_up_in_order(0, crate::sdmmc_laws::heard_at(start, replies, NewStage::BringUp));
    if s.stage is BringUp {
        bring_up_ignores_stray_reply(s.init, reply);
    } else if s.stage is Enable {
        attempt_ignores_stray_reply(s.enable, reply);
    }
}

} // verus!
