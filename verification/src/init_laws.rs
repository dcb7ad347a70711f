//! What holds of every run of the bring-up.
use vstd::prelude::*;

use crate::bus::{after, last_read, last_response, log, reads, valid_run, Protocol, Reply, Request};
use crate::cmd::{command_word_fields, Command};
use crate::csd::{capacity_range, CsdV2};
use crate::init::{
    address_arg, scr_buffer, Init, InitOutcome, InitStage, CLOCK_DELAY, CLOCK_DIVIDER, IF_COND,
    MAX_ATTEMPTS, OP_COND, POWER_DELAY,
};
use crate::regs::{BMod, BlkSiz, Ctrl, Reg};
use crate::send::{SendCmd, SendStage};
use crate::send_laws::{acts_on_card, send_step_acts, send_step_wf};

verus! {

/// The requests that make up the bring-up: clock, power, bus width, byte count,
/// delays, and what is done to the card.
pub open spec fn brings_up(request: Request) -> bool {
    match request {
        Request::Write(Reg::Clkena, _) | Request::Write(Reg::Clkdiv, _) => true,
        Request::Write(Reg::Pwren, _) | Request::Write(Reg::Ctype, _) => true,
        Request::Write(Reg::Bytcnt, _) | Request::Delay(_) => true,
        _ => acts_on_card(request),
    }
}

/// A command goes out: its argument, then itself.
pub open spec fn issue(command: Command<Seq<u8>>) -> Seq<Request> {
    seq![
        Request::Write(Reg::Cmdarg, command.arg()),
        Request::Write(Reg::Cmd, command.word().bits),
    ]
}

/// The clock is stopped, set to its divider, and started again.
pub open spec fn clock_set() -> Seq<Request> {
    (seq![Request::Write(Reg::Clkena, 0)] + issue(Command::ResetClock)).push(
        Request::Write(Reg::Clkdiv, CLOCK_DIVIDER),
    ).push(Request::Write(Reg::Clkena, 1)) + issue(Command::ResetClock)
}

/// Then the card gets power and time to settle, and the data bus one bit.
pub open spec fn powered() -> Seq<Request> {
    clock_set().push(Request::Delay(CLOCK_DELAY)).push(Request::Write(Reg::Pwren, 1)).push(
        Request::Delay(POWER_DELAY),
    ).push(Request::Write(Reg::Ctype, 0))
}

/// Then the card is reset and offered a voltage.
pub open spec fn opened() -> Seq<Request> {
    powered() + issue(Command::GoIdleState) + issue(Command::SendIfCond(IF_COND))
}

/// Rounds in vain of asking the card whether it is ready; in each the card either
/// heard the question and said no, or did not answer the announcement of it.
pub open spec fn asked_in_vain(rounds: Seq<bool>) -> Seq<Request>
    decreases rounds.len(),
{
    if rounds.len() == 0 {
        Seq::empty()
    } else if rounds.last() {
        (asked_in_vain(rounds.drop_last()) + issue(Command::AppCmd(0)) + issue(
            Command::SdSendOpCond(OP_COND),
        )).push(Request::Delay(1))
    } else {
        asked_in_vain(rounds.drop_last()) + issue(Command::AppCmd(0))
    }
}

/// Then the card is asked in vain for some rounds.
pub open spec fn waited(rounds: Seq<bool>) -> Seq<Request> {
    opened() + asked_in_vain(rounds)
}

/// Then the card says that it is ready.
pub open spec fn ready(rounds: Seq<bool>) -> Seq<Request> {
    waited(rounds) + issue(Command::AppCmd(0)) + issue(Command::SdSendOpCond(OP_COND))
}

/// Then it is asked for its identification and its address.
pub open spec fn addressed(rounds: Seq<bool>) -> Seq<Request> {
    ready(rounds) + issue(Command::AllSendCid) + issue(Command::SendRelativeAddr)
}

/// Then it is asked for its capacity and selected.
pub open spec fn selected(rounds: Seq<bool>, rca: u32) -> Seq<Request> {
    addressed(rounds) + issue(Command::SendCsd(address_arg(rca))) + issue(
        Command::SelectCard(address_arg(rca)),
    )
}

/// Then its configuration register is announced, with eight bytes to come.
pub open spec fn announced(rounds: Seq<bool>, rca: u32) -> Seq<Request> {
    (selected(rounds, rca) + issue(Command::AppCmd(address_arg(rca)))).push(
        Request::Write(Reg::Bytcnt, 8),
    )
}

impl Init<Seq<u8>> {
    /// What was done before the command that is on its way.
    pub open spec fn before(self, rounds: Seq<bool>) -> Seq<Request> {
        match self.stage {
            InitStage::ReadStatus | InitStage::ClearStatus(_) | InitStage::ClockOff => Seq::empty(),
            InitStage::StopClock => seq![Request::Write(Reg::Clkena, 0)],
            InitStage::Divide => seq![Request::Write(Reg::Clkena, 0)] + issue(Command::ResetClock),
            InitStage::ClockOn => (seq![Request::Write(Reg::Clkena, 0)] + issue(
                Command::ResetClock,
            )).push(Request::Write(Reg::Clkdiv, CLOCK_DIVIDER)),
            InitStage::StartClock => (seq![Request::Write(Reg::Clkena, 0)] + issue(
                Command::ResetClock,
            )).push(Request::Write(Reg::Clkdiv, CLOCK_DIVIDER)).push(
                Request::Write(Reg::Clkena, 1),
            ),
            InitStage::Settle => clock_set(),
            InitStage::PowerOn => clock_set().push(Request::Delay(CLOCK_DELAY)),
            InitStage::Stabilize => clock_set().push(Request::Delay(CLOCK_DELAY)).push(
                Request::Write(Reg::Pwren, 1),
            ),
            InitStage::BusWidth => clock_set().push(Request::Delay(CLOCK_DELAY)).push(
                Request::Write(Reg::Pwren, 1),
            ).push(Request::Delay(POWER_DELAY)),
            InitStage::ReadBmod | InitStage::WriteBmod(_) | InitStage::ReadCtrl => powered(),
            InitStage::WriteCtrl(_) | InitStage::GoIdle => powered(),
            InitStage::OfferVoltage => powered() + issue(Command::GoIdleState),
            InitStage::Announce => waited(rounds),
            InitStage::AskReady => waited(rounds) + issue(Command::AppCmd(0)),
            InitStage::Pause | InitStage::Identify => ready(rounds),
            InitStage::AskAddress => ready(rounds) + issue(Command::AllSendCid),
            InitStage::AskCapacity => addressed(rounds),
            InitStage::Select => addressed(rounds) + issue(Command::SendCsd(address_arg(self.rca))),
            InitStage::AnnounceScr => selected(rounds, self.rca),
            InitStage::ReadBlockSize | InitStage::WriteBlockSize(_) => selected(rounds, self.rca)
                + issue(Command::AppCmd(address_arg(self.rca))),
            InitStage::WriteByteCount => selected(rounds, self.rca) + issue(
                Command::AppCmd(address_arg(self.rca)),
            ),
            InitStage::ReadScr => announced(rounds, self.rca),
            InitStage::DrainFifo => announced(rounds, self.rca) + self.command.acted(),
            InitStage::EndStatus | InitStage::EndClear(_) => (announced(rounds, self.rca)
                + self.command.acted()).push(Request::ReadFifo),
            InitStage::Finished(InitOutcome::CardNotReady) => waited(rounds),
            InitStage::Finished(InitOutcome::NoIdentification) => ready(rounds) + issue(
                Command::AllSendCid,
            ),
            InitStage::Finished(InitOutcome::NoAddress) => addressed(rounds),
            InitStage::Finished(InitOutcome::Completed) => (announced(rounds, self.rca)
                + self.command.acted()).push(Request::ReadFifo),
        }
    }

    /// What the bring-up has done so far.
    pub open spec fn deeds(self, rounds: Seq<bool>) -> Seq<Request> {
        if self.stage.sends() {
            self.before(rounds) + self.command.acted()
        } else {
            self.before(rounds)
        }
    }

    /// The command that goes with the stage.
    pub open spec fn due(self) -> Command<Seq<u8>> {
        match self.stage {
            InitStage::StopClock | InitStage::StartClock => Command::ResetClock,
            InitStage::GoIdle => Command::GoIdleState,
            InitStage::OfferVoltage => Command::SendIfCond(IF_COND),
            InitStage::Announce => Command::AppCmd(0),
            InitStage::AskReady => Command::SdSendOpCond(OP_COND),
            InitStage::Identify => Command::AllSendCid,
            InitStage::AskAddress => Command::SendRelativeAddr,
            InitStage::AskCapacity => Command::SendCsd(address_arg(self.rca)),
            InitStage::Select => Command::SelectCard(address_arg(self.rca)),
            InitStage::AnnounceScr => Command::AppCmd(address_arg(self.rca)),
            _ => Command::SendScr(scr_buffer()),
        }
    }

    /// The command on its way is the one that is due.
    pub open spec fn on_course(self) -> bool {
        &&& self.wf()
        &&& self.stage.sends() ==> {
            &&& self.command.cmd == self.due().word()
            &&& self.command.arg == self.due().arg()
            &&& self.command.xfer is Some <==> self.stage is ReadScr
        }
    }

    /// Whether the reply ends a round in vain, and which kind of round.
    pub open spec fn round_lost(self, reply: Reply) -> Option<bool> {
        match self.stage {
            InitStage::Announce => if self.command.hears(reply).result() == Some(
                None::<[u32; 4]>,
            ) {
                Some(false)
            } else {
                None
            },
            InitStage::Pause => if reply is Done {
                Some(true)
            } else {
                None
            },
            _ => None,
        }
    }

    /// The number of attempts fits the number of rounds in vain.
    pub open spec fn counts(self, rounds: Seq<bool>) -> bool {
        match self.stage {
            InitStage::Announce | InitStage::AskReady | InitStage::Pause | InitStage::Identify => {
                self.attempts == rounds.len() + 1
            },
            InitStage::AskAddress | InitStage::AskCapacity | InitStage::Select => self.attempts
                == rounds.len() + 1,
            InitStage::AnnounceScr | InitStage::ReadBlockSize => self.attempts == rounds.len() + 1,
            InitStage::WriteBlockSize(_) | InitStage::WriteByteCount => self.attempts
                == rounds.len() + 1,
            InitStage::ReadScr | InitStage::DrainFifo | InitStage::EndStatus => self.attempts
                == rounds.len() + 1,
            InitStage::EndClear(_) => self.attempts == rounds.len() + 1,
            InitStage::Finished(InitOutcome::CardNotReady) => rounds.len() == MAX_ATTEMPTS,
            InitStage::Finished(_) => self.attempts == rounds.len() + 1,
            _ => self.attempts == 0 && rounds.len() == 0,
        }
    }
}

/// The rounds in vain of a run, in order.
pub open spec fn rounds_of(start: Init<Seq<u8>>, replies: Seq<Reply>) -> Seq<bool>
    decreases replies.len(),
{
    if replies.len() == 0 {
        Seq::empty()
    } else {
        let earlier = rounds_of(start, replies.drop_last());
        match after(start, replies.drop_last()).round_lost(replies.last()) {
            Some(heard) => earlier.push(heard),
            None => earlier,
        }
    }
}

/// The rounds after one more reply.
pub open spec fn rounds_then(s: Init<Seq<u8>>, reply: Reply, rounds: Seq<bool>) -> Seq<bool> {
    match s.round_lost(reply) {
        Some(heard) => rounds.push(heard),
        None => rounds,
    }
}

/// A command that has just begun has done nothing; one without data that is over
/// has been issued, and that is all.
proof fn lemma_command_ends(command: Command<Seq<u8>>, s: SendCmd<Seq<u8>>)
    requires
        s.cmd == command.word(),
        s.arg == command.arg(),
        s.xfer is None,
        s.result() is Some,
    ensures
        s.acted() == issue(command),
{
    assert(s.acted() =~= issue(command));
}

/// A step of a stage that sends nothing.
proof fn lemma_quiet_step(s: Init<Seq<u8>>, reply: Reply, rounds: Seq<bool>)
    requires
        s.on_course(),
        s.counts(rounds),
        reply.answers(s.asks()),
        !s.stage.sends(),
    ensures
        s.hears(reply).on_course(),
        s.hears(reply).counts(rounds_then(s, reply, rounds)),
        s.hears(reply).deeds(rounds_then(s, reply, rounds)) == if brings_up(s.asks()) {
            s.deeds(rounds).push(s.asks())
        } else {
            s.deeds(rounds)
        },
{
    let t = s.hears(reply);
    let later = rounds_then(s, reply, rounds);
    command_word_fields(t.due());
    if t.stage.sends() {
        assert(t.command.acted() =~= Seq::empty());
        assert(t.before(later) + Seq::empty() =~= t.before(later));
    }
    if s.stage is Pause {
        assert(later.drop_last() =~= rounds);
        assert(waited(later) =~= ready(rounds).push(Request::Delay(1)));
    }
}

/// A step of a stage in which a command is on its way.
#[verifier::rlimit(40)]
proof fn lemma_sending_step(s: Init<Seq<u8>>, reply: Reply, rounds: Seq<bool>)
    requires
        s.on_course(),
        s.counts(rounds),
        reply.answers(s.asks()),
        s.stage.sends(),
    ensures
        s.hears(reply).on_course(),
        s.hears(reply).counts(rounds_then(s, reply, rounds)),
        s.hears(reply).deeds(rounds_then(s, reply, rounds)) == if brings_up(s.asks()) {
            s.deeds(rounds).push(s.asks())
        } else {
            s.deeds(rounds)
        },
{
    let t = s.hears(reply);
    let later = rounds_then(s, reply, rounds);
    let c = s.command.hears(reply);
    send_step_wf(s.command, reply);
    send_step_acts(s.command, reply);
    command_word_fields(t.due());
    assert(brings_up(s.asks()) == acts_on_card(s.asks()));
    assert(c.xfer is Some == s.command.xfer is Some);
    if c.result() is None {
        assert(t.deeds(rounds) == s.before(rounds) + c.acted());
        assert(s.before(rounds) + s.command.acted().push(s.asks()) =~= (s.before(rounds)
            + s.command.acted()).push(s.asks()));
    } else {
        assert(!acts_on_card(s.asks()));
        if s.stage is ReadScr {
            assert(t.deeds(later) == s.deeds(rounds));
        } else {
            lemma_command_ends(s.due(), c);
            assert(s.deeds(rounds) == s.before(rounds) + issue(s.due()));
            if t.stage.sends() {
                assert(t.command.acted() =~= Seq::empty());
                assert(t.before(later) + Seq::empty() =~= t.before(later));
            }
            if s.round_lost(reply) is Some {
                assert(later.drop_last() =~= rounds);
                assert(waited(later) =~= waited(rounds) + issue(Command::AppCmd(0)));
            } else if s.stage is OfferVoltage {
                assert(waited(rounds) =~= opened());
            }
            assert(t.before(later) == s.before(rounds) + issue(s.due()));
        }
    }
}

/// The bring-up takes its steps in one order. It sets the clock, powers and resets
/// the card, asks at most as often as there are attempts whether it is ready, and
/// only of a ready card asks identification, address and capacity, selects it and
/// reads its configuration. It gives the card up as not ready exactly after the
/// last attempt.
pub proof fn bring_up_in_order(num_blocks: u64, replies: Seq<Reply>)
    requires
        valid_run(Init::begin(num_blocks), replies),
    ensures
        ({
            let start = Init::begin(num_blocks);
            let s = after(start, replies);
            let rounds = rounds_of(start, replies);
            &&& s.on_course()
            &&& s.counts(rounds)
            &&& rounds.len() <= MAX_ATTEMPTS
            &&& log(start, replies, |q: Request| brings_up(q)) == s.deeds(rounds)
        }),
    decreases replies.len(),
{
    let start = Init::begin(num_blocks);
    if replies.len() == 0 {
        command_word_fields(Command::<Seq<u8>>::ResetClock);
    } else {
        let earlier = replies.drop_last();
        bring_up_in_order(num_blocks, earlier);
        let s = after(start, earlier);
        let rounds = rounds_of(start, earlier);
        if s.stage.sends() {
            lemma_sending_step(s, replies.last(), rounds);
        } else {
            lemma_quiet_step(s, replies.last(), rounds);
        }
    }
}

/// The bring-up leaves DMA mode: it writes bus mode and control back as they were
/// read, but with the IDMAC disabled and in reset, and the DMA interface in reset;
/// and it sets the block size of the configuration register alone.
pub proof fn bring_up_leaves_dma_mode(num_blocks: u64, replies: Seq<Reply>)
    requires
        valid_run(Init::begin(num_blocks), replies),
    ensures
        ({
            let s = after(Init::begin(num_blocks), replies);
            &&& s.stage matches InitStage::WriteBmod(bmod) ==> {
                &&& replies.last() matches Reply::Word(word)
                &&& bmod == (BMod { bits: word }).with_de(false).with_swr(true)
            }
            &&& s.stage matches InitStage::WriteCtrl(ctrl) ==> {
                &&& replies.last() matches Reply::Word(word)
                &&& ctrl == (Ctrl { bits: word }).with_dma_reset(true).with_use_internal_dmac(
                    false,
                )
            }
            &&& s.stage matches InitStage::WriteBlockSize(size) ==> {
                &&& replies.last() matches Reply::Word(word)
                &&& size == (BlkSiz { bits: word }).with_block_size(8)
            }
            &&& s.asks() matches Request::Write(Reg::Bmod, _) ==> s.stage is WriteBmod
            &&& s.asks() matches Request::Write(Reg::Ctrl, _) ==> s.stage is WriteCtrl
        }),
{
    let start = Init::begin(num_blocks);
    if replies.len() > 0 {
        assert(after(start, replies) == after(start, replies.drop_last()).hears(replies.last()));
    }
}

/// Writes to the DMA settings, and commands other than those that take over the
/// clock settings: the latter do not reach the card.
pub open spec fn sets_mode_or_reaches_card(request: Request) -> bool {
    match request {
        Request::Write(Reg::Bmod, _) | Request::Write(Reg::Ctrl, _) => true,
        Request::Write(Reg::Cmd, word) => word != Command::<Seq<u8>>::ResetClock.word().bits,
        _ => false,
    }
}

/// The write that disables and resets the IDMAC, where bus mode reads as `word`.
pub open spec fn idmac_off(word: u32) -> Request {
    Request::Write(Reg::Bmod, (BMod { bits: word }).with_de(false).with_swr(true).bits)
}

/// The write that leaves DMA mode and resets the DMA interface, where control reads
/// as `word`.
pub open spec fn dma_interface_off(word: u32) -> Request {
    Request::Write(
        Reg::Ctrl,
        (Ctrl { bits: word }).with_dma_reset(true).with_use_internal_dmac(false).bits,
    )
}

/// The command that resets the card.
pub open spec fn card_reset() -> Request {
    Request::Write(Reg::Cmd, Command::<Seq<u8>>::GoIdleState.word().bits)
}

/// Whether `done` begins with both writes that leave DMA mode and the card's reset,
/// in this order, as far as it goes, and holds commands alone from there on.
pub open spec fn leaves_mode_first(
    done: Seq<Request>,
    bmod: Option<u32>,
    ctrl: Option<u32>,
) -> bool {
    &&& done.len() > 0 ==> {
        &&& bmod matches Some(word)
        &&& done[0] == idmac_off(word)
    }
    &&& done.len() > 1 ==> {
        &&& ctrl matches Some(word)
        &&& done[1] == dma_interface_off(word)
    }
    &&& done.len() > 2 ==> done[2] == card_reset()
    &&& forall|i: int|
        2 <= i < done.len() ==> (#[trigger] done[i] matches Request::Write(Reg::Cmd, _))
}

/// How far a bring-up has come in what it wrote, by its stage.
spec fn mode_fits(
    s: Init<Seq<u8>>,
    done: Seq<Request>,
    bmod: Option<u32>,
    ctrl: Option<u32>,
) -> bool {
    &&& s.on_course()
    &&& leaves_mode_first(done, bmod, ctrl)
    &&& match s.stage {
        InitStage::ReadStatus | InitStage::ClearStatus(_) | InitStage::ClockOff => done.len() == 0,
        InitStage::StopClock | InitStage::Divide | InitStage::ClockOn => done.len() == 0,
        InitStage::StartClock | InitStage::Settle | InitStage::PowerOn => done.len() == 0,
        InitStage::Stabilize | InitStage::BusWidth | InitStage::ReadBmod => done.len() == 0,
        InitStage::WriteBmod(value) => {
            &&& done.len() == 0
            &&& bmod matches Some(word)
            &&& value.bits == (BMod { bits: word }).with_de(false).with_swr(true).bits
        },
        InitStage::ReadCtrl => done.len() == 1,
        InitStage::WriteCtrl(value) => {
            &&& done.len() == 1
            &&& ctrl matches Some(word)
            &&& value.bits == (Ctrl { bits: word }).with_dma_reset(true).with_use_internal_dmac(
                false,
            ).bits
        },
        InitStage::GoIdle => match s.command.stage {
            SendStage::AwaitIdle(_) | SendStage::AwaitData(_) => done.len() == 2,
            SendStage::WriteArg | SendStage::WriteCmd => done.len() == 2,
            _ => done.len() == 3,
        },
        _ => done.len() >= 3,
    }
}

/// The value last read from `reg` once `reply` has come to `request`.
spec fn read_then(last: Option<u32>, request: Request, reply: Reply, reg: Reg) -> Option<u32> {
    match reply {
        Reply::Word(word) if reads(request, reg) => Some(word),
        _ => last,
    }
}

/// One step keeps what was written in order.
proof fn lemma_mode_step(
    s: Init<Seq<u8>>,
    done: Seq<Request>,
    bmod: Option<u32>,
    ctrl: Option<u32>,
    reply: Reply,
)
    requires
        mode_fits(s, done, bmod, ctrl),
        s.hears(reply).on_course(),
        reply.answers(s.asks()),
    ensures
        mode_fits(
            s.hears(reply),
            if sets_mode_or_reaches_card(s.asks()) {
                done.push(s.asks())
            } else {
                done
            },
            read_then(bmod, s.asks(), reply, Reg::Bmod),
            read_then(ctrl, s.asks(), reply, Reg::Ctrl),
        ),
{
    assert((crate::cmd::START_CMD | crate::cmd::WAIT_PRVDATA | crate::cmd::UPDATE_CLOCK_ONLY)
        != (crate::cmd::TO_CARD | crate::cmd::SEND_INITIALIZATION)) by (bit_vector);
    if s.stage.sends() {
        send_step_wf(s.command, reply);
        assert(!reads(s.asks(), Reg::Bmod) && !reads(s.asks(), Reg::Ctrl));
        if s.command.stage is WriteCmd {
            assert(s.asks() == Request::Write(Reg::Cmd, s.due().word().bits));
        } else {
            assert(!sets_mode_or_reaches_card(s.asks()));
        }
    }
}

/// Before the card's reset, the bring-up leaves DMA mode: of all writes to bus mode
/// and control and of all commands that reach the card, the first two are the
/// writes that disable and reset the IDMAC and the DMA interface, each register as it
/// was read but for that, and the third is the card's reset; no other write to bus
/// mode or control follows.
pub proof fn dma_mode_is_left_before_reset(num_blocks: u64, replies: Seq<Reply>)
    requires
        valid_run(Init::begin(num_blocks), replies),
    ensures
        leaves_mode_first(
            log(
                Init::begin(num_blocks),
                replies,
                |q: Request| sets_mode_or_reaches_card(q),
            ),
            last_read(Init::begin(num_blocks), replies, Reg::Bmod),
            last_read(Init::begin(num_blocks), replies, Reg::Ctrl),
        ),
{
    lemma_mode_fits(num_blocks, replies);
}

/// What a bring-up wrote fits its stage.
proof fn lemma_mode_fits(num_blocks: u64, replies: Seq<Reply>)
    requires
        valid_run(Init::begin(num_blocks), replies),
    ensures
        mode_fits(
            after(Init::begin(num_blocks), replies),
            log(
                Init::begin(num_blocks),
                replies,
                |q: Request| sets_mode_or_reaches_card(q),
            ),
            last_read(Init::begin(num_blocks), replies, Reg::Bmod),
            last_read(Init::begin(num_blocks), replies, Reg::Ctrl),
        ),
    decreases replies.len(),
{
    let start = Init::begin(num_blocks);
    let keep = |q: Request| sets_mode_or_reaches_card(q);
    bring_up_in_order(num_blocks, replies);
    if replies.len() > 0 {
        let earlier = replies.drop_last();
        lemma_mode_fits(num_blocks, earlier);
        lemma_mode_step(
            after(start, earlier),
            log(start, earlier, keep),
            last_read(start, earlier, Reg::Bmod),
            last_read(start, earlier, Reg::Ctrl),
            replies.last(),
        );
    }
}

/// Acknowledgements of the interrupt status, and commands.
pub open spec fn acknowledges_or_sends(request: Request) -> bool {
    match request {
        Request::Write(Reg::Rintsts, _) | Request::Write(Reg::Cmd, _) => true,
        _ => false,
    }
}

/// Interrupts from before are acknowledged, as the first reply shows them, before
/// any command goes out: of all acknowledgements and commands that is the first.
pub proof fn stale_status_is_acknowledged_first(num_blocks: u64, replies: Seq<Reply>)
    requires
        valid_run(Init::begin(num_blocks), replies),
    ensures
        ({
            let start = Init::begin(num_blocks);
            let s = after(start, replies);
            let done = log(start, replies, |q: Request| acknowledges_or_sends(q));
            &&& start.asks() == Request::Read(Reg::Rintsts)
            &&& replies.len() < 2 ==> done.len() == 0
            &&& replies.len() >= 2 ==> {
                &&& replies[0] matches Reply::Word(word)
                &&& done.len() > 0
                &&& done[0] == Request::Write(Reg::Rintsts, word)
            }
            &&& s.stage is ReadStatus <==> replies.len() == 0
            &&& s.stage is ClearStatus <==> replies.len() == 1
            &&& s.stage matches InitStage::ClearStatus(word) ==> replies[0] == Reply::Word(word)
        }),
    decreases replies.len(),
{
    let start = Init::begin(num_blocks);
    if replies.len() > 0 {
        stale_status_is_acknowledged_first(num_blocks, replies.drop_last());
        assert(after(start, replies) == after(start, replies.drop_last()).hears(replies.last()));
    }
}

/// The card's answer to the question for its capacity: the response that was read
/// for that command, or nothing where it ended in an error; none at all while the
/// question has not been sent and answered.
pub open spec fn capacity_answer(start: Init<Seq<u8>>, replies: Seq<Reply>) -> Option<
    Option<[u32; 4]>,
>
    decreases replies.len(),
{
    if replies.len() == 0 {
        None
    } else {
        let s = after(start, replies.drop_last());
        match (s.stage, s.command.hears(replies.last()).result()) {
            (InitStage::AskCapacity, Some(Some(_))) => Some(last_response(replies)),
            (InitStage::AskCapacity, Some(None)) => Some(None),
            _ => capacity_answer(start, replies.drop_last()),
        }
    }
}

/// The number of blocks after the answer `answer`, where it was `before`.
pub open spec fn blocks_after(before: u64, answer: Option<Option<[u32; 4]>>) -> int {
    match answer {
        None => before as int,
        Some(None) => 0,
        Some(Some(words)) => (CsdV2 { words }).capacity(),
    }
}

/// Whether the card has been asked for its capacity, and has answered or failed to.
pub open spec fn capacity_settled(stage: InitStage) -> bool {
    match stage {
        InitStage::Select | InitStage::AnnounceScr | InitStage::ReadBlockSize => true,
        InitStage::WriteBlockSize(_) | InitStage::WriteByteCount | InitStage::ReadScr => true,
        InitStage::DrainFifo | InitStage::EndStatus | InitStage::EndClear(_) => true,
        InitStage::Finished(outcome) => outcome is Completed,
        _ => false,
    }
}

/// A command under way holds the response that was read last.
proof fn lemma_command_holds_response(num_blocks: u64, replies: Seq<Reply>)
    requires
        valid_run(Init::begin(num_blocks), replies),
    ensures
        ({
            let s = after(Init::begin(num_blocks), replies);
            s.stage.sends() ==> match s.command.stage {
                SendStage::ReadStatus(resp) => last_response(replies) == Some(resp),
                SendStage::ClearStatus(resp, _) => last_response(replies) == Some(resp),
                SendStage::Finished(_) => false,
                _ => true,
            }
        }),
    decreases replies.len(),
{
    let start = Init::begin(num_blocks);
    if replies.len() > 0 {
        lemma_command_holds_response(num_blocks, replies.drop_last());
        let s = after(start, replies.drop_last());
        assert(after(start, replies) == s.hears(replies.last()));
    }
}

/// The number of blocks is exactly what the card answered to the question for its
/// capacity: what its register says, zero where the command ended in an error, and
/// unchanged where it never was sent. A bring-up that completes has sent it; one
/// that ends before has not.
pub proof fn capacity_is_the_cards_answer(num_blocks: u64, replies: Seq<Reply>)
    requires
        valid_run(Init::begin(num_blocks), replies),
    ensures
        ({
            let s = after(Init::begin(num_blocks), replies);
            let answer = capacity_answer(Init::begin(num_blocks), replies);
            &&& s.num_blocks == blocks_after(num_blocks, answer)
            &&& answer is Some <==> capacity_settled(s.stage)
        }),
    decreases replies.len(),
{
    let start = Init::begin(num_blocks);
    if replies.len() > 0 {
        capacity_is_the_cards_answer(num_blocks, replies.drop_last());
        lemma_command_holds_response(num_blocks, replies.drop_last());
        let s = after(start, replies.drop_last());
        assert(after(start, replies) == s.hears(replies.last()));
        if let InitStage::AskCapacity = s.stage {
            if let Some(Some(words)) = s.command.hears(replies.last()).result() {
                let csd = CsdV2 { words };
                capacity_range(csd);
                assert(csd.capacity() as u64 == csd.capacity());
                assert(last_response(replies) == Some(words));
            }
        }
    }
}

/// The replies that the command on its way has taken in.
pub open spec fn heard_by_command(start: Init<Seq<u8>>, replies: Seq<Reply>) -> Seq<Reply>
    decreases replies.len(),
{
    if replies.len() == 0 {
        Seq::empty()
    } else {
        let s = after(start, replies.drop_last());
        if s.stage.sends() && s.command.hears(replies.last()).result() is None {
            heard_by_command(start, replies.drop_last()).push(replies.last())
        } else {
            Seq::empty()
        }
    }
}

/// Each command of the bring-up is a run of that command from its beginning.
pub proof fn bring_up_runs_its_commands(num_blocks: u64, replies: Seq<Reply>)
    requires
        valid_run(Init::begin(num_blocks), replies),
    ensures
        ({
            let s = after(Init::begin(num_blocks), replies);
            let heard = heard_by_command(Init::begin(num_blocks), replies);
            if s.stage.sends() {
                &&& valid_run(SendCmd::begin(s.due()), heard)
                &&& s.command == after(SendCmd::begin(s.due()), heard)
            } else {
                heard.len() == 0
            }
        }),
    decreases replies.len(),
{
    let start = Init::begin(num_blocks);
    if replies.len() > 0 {
        let earlier = replies.drop_last();
        bring_up_runs_its_commands(num_blocks, earlier);
        let s = after(start, earlier);
        assert(after(start, replies) == s.hears(replies.last()));
        let heard = heard_by_command(start, earlier);
        assert(heard.push(replies.last()).drop_last() =~= heard);
    }
}

} // verus!
