//! Bringing up the controller and the card.
use vstd::prelude::*;

use crate::bus::{Protocol, Reply, Request};
use crate::cmd::Command;
use crate::csd::CsdV2;
use crate::regs::{BMod, BlkSiz, Ctrl, Reg};
use crate::send::SendCmd;

verus! {

/// Attempts to get the card ready before it is given up.
pub const MAX_ATTEMPTS: u32 = 100;

/// Clock divider for the slow clock of the bring-up.
pub const CLOCK_DIVIDER: u32 = 100;

/// Rounds to spin after the clock, and after the power, was switched on.
pub const CLOCK_DELAY: u32 = 10_000;

pub const POWER_DELAY: u32 = 100_000;

/// Supply voltage of 2.7 to 3.6 V and a pattern to be echoed.
pub const IF_COND: u32 = 0x1aa;

/// High capacity, and the voltages the host supports.
pub const OP_COND: u32 = 0x41ff_8000;

/// Bytes of the buffer that the configuration register is read into.
pub const SCR_BUFFER: usize = 512;

/// How the bring-up ended.
#[derive(Clone, Copy, Debug, PartialEq, Eq, Structural)]
pub enum InitOutcome {
    /// The card did not get ready.
    CardNotReady,
    /// The card did not identify itself.
    NoIdentification,
    /// The card did not give its address.
    NoAddress,
    /// The bring-up went through to its end.
    Completed,
}

/// Where the bring-up stands.
#[derive(Clone, Copy, Debug)]
pub enum InitStage {
    /// About to acknowledge interrupts from before.
    ReadStatus,
    ClearStatus(u32),
    /// About to stop the clock, set it, and start it again.
    ClockOff,
    StopClock,
    Divide,
    ClockOn,
    StartClock,
    Settle,
    /// About to switch the card's power on.
    PowerOn,
    Stabilize,
    /// About to set the data bus to one bit.
    BusWidth,
    /// About to reset the IDMAC and leave DMA mode.
    ReadBmod,
    WriteBmod(BMod),
    ReadCtrl,
    WriteCtrl(Ctrl),
    /// Resetting the card, and offering it a voltage.
    GoIdle,
    OfferVoltage,
    /// Asking the card whether it is ready.
    Announce,
    AskReady,
    Pause,
    /// Asking for identification, address and capacity.
    Identify,
    AskAddress,
    AskCapacity,
    /// Selecting the card.
    Select,
    /// Reading the configuration register.
    AnnounceScr,
    ReadBlockSize,
    WriteBlockSize(BlkSiz),
    WriteByteCount,
    ReadScr,
    DrainFifo,
    /// About to acknowledge what is left.
    EndStatus,
    EndClear(u32),
    /// Over.
    Finished(InitOutcome),
}

impl InitStage {
    /// Whether a command is on its way in this stage.
    #[verifier::allow_in_spec]
    pub fn sends(&self) -> bool
        returns
            (match self {
                InitStage::StopClock | InitStage::StartClock | InitStage::GoIdle => true,
                InitStage::OfferVoltage | InitStage::Announce | InitStage::AskReady => true,
                InitStage::Identify | InitStage::AskAddress | InitStage::AskCapacity => true,
                InitStage::Select | InitStage::AnnounceScr | InitStage::ReadScr => true,
                _ => false,
            }),
    {
        match self {
            InitStage::StopClock | InitStage::StartClock | InitStage::GoIdle => true,
            InitStage::OfferVoltage | InitStage::Announce | InitStage::AskReady => true,
            InitStage::Identify | InitStage::AskAddress | InitStage::AskCapacity => true,
            InitStage::Select | InitStage::AnnounceScr | InitStage::ReadScr => true,
            _ => false,
        }
    }
}

/// The bring-up under way. `B` holds the bytes of a command's data.
pub struct Init<B> {
    /// The number of blocks that is known.
    pub num_blocks: u64,
    /// Attempts to get the card ready so far.
    pub attempts: u32,
    /// The card's address, once it is known.
    pub rca: u32,
    /// The command that is on its way, or the last one that was.
    pub command: SendCmd<B>,
    pub stage: InitStage,
}

impl View for Init<Vec<u8>> {
    type V = Init<Seq<u8>>;

    open spec fn view(&self) -> Init<Seq<u8>> {
        Init {
            num_blocks: self.num_blocks,
            attempts: self.attempts,
            rca: self.rca,
            command: self.command@,
            stage: self.stage,
        }
    }
}

/// Whether the card says that it is ready.
#[verifier::allow_in_spec]
pub fn card_ready(resp: Option<[u32; 4]>) -> bool
    returns
        (match resp {
            Some(words) => words[0] & 0x8000_0000 != 0,
            None => false,
        }),
{
    match resp {
        Some(words) => words[0] & 0x8000_0000 != 0,
        None => false,
    }
}

/// The argument that addresses the card.
#[verifier::allow_in_spec]
pub fn address_arg(rca: u32) -> u32
    returns
        rca << 16,
{
    rca << 16
}

/// The card's address in its response.
#[verifier::allow_in_spec]
pub fn address_in(word: u32) -> u32
    returns
        (word >> 16) & 0xffff,
{
    (word >> 16) & 0xffff
}

/// A zeroed buffer for the configuration register.
pub open spec fn scr_buffer() -> Seq<u8> {
    Seq::new(SCR_BUFFER as nat, |i: int| 0u8)
}

impl Init<Seq<u8>> {
    /// A bring-up about to begin.
    pub open spec fn begin(num_blocks: u64) -> Self {
        Init {
            num_blocks,
            attempts: 0,
            rca: 0,
            command: SendCmd::begin(Command::ResetClock),
            stage: InitStage::ReadStatus,
        }
    }

    /// A stage that sends has a command that is not over, and the attempts stay
    /// within their bound.
    pub open spec fn wf(self) -> bool {
        &&& self.command.wf()
        &&& self.attempts <= MAX_ATTEMPTS
        &&& self.stage.sends() ==> self.command.result() is None
    }

    /// The bring-up moved on to `stage`.
    pub open spec fn at(self, stage: InitStage) -> Self {
        Init { stage, ..self }
    }

    /// The stage `stage` begins, with its command.
    pub open spec fn sending(self, stage: InitStage, command: Command<Seq<u8>>) -> Self {
        Init { stage, command: SendCmd::begin(command), ..self }
    }

    /// The next attempt to get the card ready, or the end.
    pub open spec fn attempt(self) -> Self {
        if self.attempts >= MAX_ATTEMPTS {
            self.at(InitStage::Finished(InitOutcome::CardNotReady))
        } else {
            Init {
                attempts: (self.attempts + 1) as u32,
                ..self.sending(InitStage::Announce, Command::AppCmd(0))
            }
        }
    }

    /// The command of the stage ended with `resp`.
    pub open spec fn answered(self, resp: Option<[u32; 4]>) -> Self {
        match self.stage {
            InitStage::StopClock => self.at(InitStage::Divide),
            InitStage::StartClock => self.at(InitStage::Settle),
            InitStage::GoIdle => self.sending(InitStage::OfferVoltage, Command::SendIfCond(IF_COND)),
            InitStage::OfferVoltage => self.attempt(),
            InitStage::Announce => if resp is None {
                self.attempt()
            } else {
                self.sending(InitStage::AskReady, Command::SdSendOpCond(OP_COND))
            },
            InitStage::AskReady => if card_ready(resp) {
                self.sending(InitStage::Identify, Command::AllSendCid)
            } else {
                self.at(InitStage::Pause)
            },
            InitStage::Identify => if resp is None {
                self.at(InitStage::Finished(InitOutcome::NoIdentification))
            } else {
                self.sending(InitStage::AskAddress, Command::SendRelativeAddr)
            },
            InitStage::AskAddress => match resp {
                None => self.at(InitStage::Finished(InitOutcome::NoAddress)),
                Some(words) => Init {
                    rca: address_in(words[0]),
                    ..self.sending(
                        InitStage::AskCapacity,
                        Command::SendCsd(address_arg(address_in(words[0]))),
                    )
                },
            },
            InitStage::AskCapacity => Init {
                num_blocks: match resp {
                    Some(words) => (CsdV2 { words }).capacity() as u64,
                    None => 0,
                },
                ..self.sending(InitStage::Select, Command::SelectCard(address_arg(self.rca)))
            },
            InitStage::Select => self.sending(
                InitStage::AnnounceScr,
                Command::AppCmd(address_arg(self.rca)),
            ),
            InitStage::AnnounceScr => self.at(InitStage::ReadBlockSize),
            InitStage::ReadScr => self.at(InitStage::DrainFifo),
            _ => self,
        }
    }

    /// The outcome, once there is one.
    pub open spec fn result(self) -> Option<InitOutcome> {
        match self.stage {
            InitStage::Finished(outcome) => Some(outcome),
            _ => None,
        }
    }
}

impl Protocol for Init<Seq<u8>> {
    open spec fn asks(self) -> Request {
        match self.stage {
            InitStage::ReadStatus | InitStage::EndStatus => Request::Read(Reg::Rintsts),
            InitStage::ClearStatus(word) => Request::Write(Reg::Rintsts, word),
            InitStage::EndClear(word) => Request::Write(Reg::Rintsts, word),
            InitStage::ClockOff => Request::Write(Reg::Clkena, 0),
            InitStage::Divide => Request::Write(Reg::Clkdiv, CLOCK_DIVIDER),
            InitStage::ClockOn => Request::Write(Reg::Clkena, 1),
            InitStage::Settle => Request::Delay(CLOCK_DELAY),
            InitStage::PowerOn => Request::Write(Reg::Pwren, 1),
            InitStage::Stabilize => Request::Delay(POWER_DELAY),
            InitStage::BusWidth => Request::Write(Reg::Ctype, 0),
            InitStage::ReadBmod => Request::Read(Reg::Bmod),
            InitStage::WriteBmod(bmod) => Request::Write(Reg::Bmod, bmod.bits),
            InitStage::ReadCtrl => Request::Read(Reg::Ctrl),
            InitStage::WriteCtrl(ctrl) => Request::Write(Reg::Ctrl, ctrl.bits),
            InitStage::Pause => Request::Delay(1),
            InitStage::ReadBlockSize => Request::Read(Reg::Blksiz),
            InitStage::WriteBlockSize(size) => Request::Write(Reg::Blksiz, size.bits),
            InitStage::WriteByteCount => Request::Write(Reg::Bytcnt, 8),
            InitStage::DrainFifo => Request::ReadFifo,
            InitStage::Finished(_) => Request::Finished,
            _ => self.command.asks(),
        }
    }

    open spec fn hears(self, reply: Reply) -> Self {
        if self.stage.sends() {
            let command = self.command.hears(reply);
            let moved = Init { command, ..self };
            match command.result() {
                Some(resp) => moved.answered(resp),
                None => moved,
            }
        } else {
            match (self.stage, reply) {
                (InitStage::ReadStatus, Reply::Word(word)) => self.at(InitStage::ClearStatus(word)),
                (InitStage::ClearStatus(_), Reply::Done) => self.at(InitStage::ClockOff),
                (InitStage::ClockOff, Reply::Done) => self.sending(
                    InitStage::StopClock,
                    Command::ResetClock,
                ),
                (InitStage::Divide, Reply::Done) => self.at(InitStage::ClockOn),
                (InitStage::ClockOn, Reply::Done) => self.sending(
                    InitStage::StartClock,
                    Command::ResetClock,
                ),
                (InitStage::Settle, Reply::Done) => self.at(InitStage::PowerOn),
                (InitStage::PowerOn, Reply::Done) => self.at(InitStage::Stabilize),
                (InitStage::Stabilize, Reply::Done) => self.at(InitStage::BusWidth),
                (InitStage::BusWidth, Reply::Done) => self.at(InitStage::ReadBmod),
                (InitStage::ReadBmod, Reply::Word(word)) => self.at(
                    InitStage::WriteBmod((BMod { bits: word }).with_de(false).with_swr(true)),
                ),
                (InitStage::WriteBmod(_), Reply::Done) => self.at(InitStage::ReadCtrl),
                (InitStage::ReadCtrl, Reply::Word(word)) => self.at(
                    InitStage::WriteCtrl(
                        (Ctrl { bits: word }).with_dma_reset(true).with_use_internal_dmac(false),
                    ),
                ),
                (InitStage::WriteCtrl(_), Reply::Done) => self.sending(
                    InitStage::GoIdle,
                    Command::GoIdleState,
                ),
                (InitStage::Pause, Reply::Done) => self.attempt(),
                (InitStage::ReadBlockSize, Reply::Word(word)) => self.at(
                    InitStage::WriteBlockSize((BlkSiz { bits: word }).with_block_size(8)),
                ),
                (InitStage::WriteBlockSize(_), Reply::Done) => self.at(InitStage::WriteByteCount),
                (InitStage::WriteByteCount, Reply::Done) => self.sending(
                    InitStage::ReadScr,
                    Command::SendScr(scr_buffer()),
                ),
                (InitStage::DrainFifo, Reply::Fifo(_)) => self.at(InitStage::EndStatus),
                (InitStage::EndStatus, Reply::Word(word)) => self.at(InitStage::EndClear(word)),
                (InitStage::EndClear(_), Reply::Done) => self.at(
                    InitStage::Finished(InitOutcome::Completed),
                ),
                _ => self,
            }
        }
    }
}

impl Init<Vec<u8>> {
    /// Starts the bring-up of a driver that knows of `num_blocks` blocks.
    pub fn new(num_blocks: u64) -> (op: Self)
        ensures
            op@ == Init::begin(num_blocks),
            op@.wf(),
    {
        Init {
            num_blocks,
            attempts: 0,
            rca: 0,
            command: SendCmd::new(Command::ResetClock),
            stage: InitStage::ReadStatus,
        }
    }

    /// The outside work that is due.
    pub fn request(&self) -> (request: Request)
        requires
            self@.wf(),
        ensures
            request == self@.asks(),
    {
        match self.stage {
            InitStage::ReadStatus | InitStage::EndStatus => Request::Read(Reg::Rintsts),
            InitStage::ClearStatus(word) => Request::Write(Reg::Rintsts, word),
            InitStage::EndClear(word) => Request::Write(Reg::Rintsts, word),
            InitStage::ClockOff => Request::Write(Reg::Clkena, 0),
            InitStage::Divide => Request::Write(Reg::Clkdiv, CLOCK_DIVIDER),
            InitStage::ClockOn => Request::Write(Reg::Clkena, 1),
            InitStage::Settle => Request::Delay(CLOCK_DELAY),
            InitStage::PowerOn => Request::Write(Reg::Pwren, 1),
            InitStage::Stabilize => Request::Delay(POWER_DELAY),
            InitStage::BusWidth => Request::Write(Reg::Ctype, 0),
            InitStage::ReadBmod => Request::Read(Reg::Bmod),
            InitStage::WriteBmod(bmod) => Request::Write(Reg::Bmod, bmod.bits),
            InitStage::ReadCtrl => Request::Read(Reg::Ctrl),
            InitStage::WriteCtrl(ctrl) => Request::Write(Reg::Ctrl, ctrl.bits),
            InitStage::Pause => Request::Delay(1),
            InitStage::ReadBlockSize => Request::Read(Reg::Blksiz),
            InitStage::WriteBlockSize(size) => Request::Write(Reg::Blksiz, size.bits),
            InitStage::WriteByteCount => Request::Write(Reg::Bytcnt, 8),
            InitStage::DrainFifo => Request::ReadFifo,
            InitStage::Finished(_) => Request::Finished,
            _ => self.command.request(),
        }
    }

    /// Takes in the reply to the outstanding request.
    pub fn step(&mut self, reply: Reply)
        requires
            old(self)@.wf(),
        ensures
            final(self)@ == old(self)@.hears(reply),
            final(self)@.wf(),
    {
        if self.stage.sends() {
            self.command.step(reply);
            if let Some(resp) = self.command.outcome() {
                self.take_answer(resp);
            }
        } else {
            match (self.stage, reply) {
                (InitStage::ReadStatus, Reply::Word(word)) => self.go(InitStage::ClearStatus(word)),
                (InitStage::ClearStatus(_), Reply::Done) => self.go(InitStage::ClockOff),
                (InitStage::ClockOff, Reply::Done) => self.send(
                    InitStage::StopClock,
                    Command::ResetClock,
                ),
                (InitStage::Divide, Reply::Done) => self.go(InitStage::ClockOn),
                (InitStage::ClockOn, Reply::Done) => self.send(
                    InitStage::StartClock,
                    Command::ResetClock,
                ),
                (InitStage::Settle, Reply::Done) => self.go(InitStage::PowerOn),
                (InitStage::PowerOn, Reply::Done) => self.go(InitStage::Stabilize),
                (InitStage::Stabilize, Reply::Done) => self.go(InitStage::BusWidth),
                (InitStage::BusWidth, Reply::Done) => self.go(InitStage::ReadBmod),
                (InitStage::ReadBmod, Reply::Word(word)) => self.go(
                    InitStage::WriteBmod((BMod { bits: word }).with_de(false).with_swr(true)),
                ),
                (InitStage::WriteBmod(_), Reply::Done) => self.go(InitStage::ReadCtrl),
                (InitStage::ReadCtrl, Reply::Word(word)) => self.go(
                    InitStage::WriteCtrl(
                        (Ctrl { bits: word }).with_dma_reset(true).with_use_internal_dmac(false),
                    ),
                ),
                (InitStage::WriteCtrl(_), Reply::Done) => self.send(
                    InitStage::GoIdle,
                    Command::GoIdleState,
                ),
                (InitStage::Pause, Reply::Done) => self.try_card(),
                (InitStage::ReadBlockSize, Reply::Word(word)) => self.go(
                    InitStage::WriteBlockSize((BlkSiz { bits: word }).with_block_size(8)),
                ),
                (InitStage::WriteBlockSize(_), Reply::Done) => self.go(InitStage::WriteByteCount),
                (InitStage::WriteByteCount, Reply::Done) => {
                    let buf = vec![0u8; SCR_BUFFER];
                    assert(buf@ =~= scr_buffer());
                    self.send(InitStage::ReadScr, Command::SendScr(buf));
                },
                (InitStage::DrainFifo, Reply::Fifo(_)) => self.go(InitStage::EndStatus),
                (InitStage::EndStatus, Reply::Word(word)) => self.go(InitStage::EndClear(word)),
                (InitStage::EndClear(_), Reply::Done) => self.go(
                    InitStage::Finished(InitOutcome::Completed),
                ),
                _ => {},
            }
        }
    }

    /// Moves on to a stage that sends nothing.
    fn go(&mut self, stage: InitStage)
        requires
            old(self)@.command.wf(),
            old(self)@.attempts <= MAX_ATTEMPTS,
            !stage.sends(),
        ensures
            final(self)@ == old(self)@.at(stage),
            final(self)@.wf(),
    {
        self.stage = stage;
    }

    /// Begins a stage with its command.
    fn send(&mut self, stage: InitStage, command: Command<Vec<u8>>)
        requires
            old(self)@.attempts <= MAX_ATTEMPTS,
            crate::send::sendable(command@),
        ensures
            final(self)@ == old(self)@.sending(stage, command@),
            final(self)@.wf(),
    {
        self.command = SendCmd::new(command);
        self.stage = stage;
    }

    /// Makes the next attempt to get the card ready, or gives up.
    fn try_card(&mut self)
        requires
            old(self)@.attempts <= MAX_ATTEMPTS,
            old(self)@.command.wf(),
        ensures
            final(self)@ == old(self)@.attempt(),
            final(self)@.wf(),
    {
        if self.attempts >= MAX_ATTEMPTS {
            self.stage = InitStage::Finished(InitOutcome::CardNotReady);
        } else {
            self.attempts = self.attempts + 1;
            self.send(InitStage::Announce, Command::AppCmd(0));
        }
    }

    /// Takes in the outcome of the stage's command.
    fn take_answer(&mut self, resp: Option<[u32; 4]>)
        requires
            old(self)@.stage.sends(),
            old(self)@.command.wf(),
            old(self)@.attempts <= MAX_ATTEMPTS,
        ensures
            final(self)@ == old(self)@.answered(resp),
            final(self)@.wf(),
    {
        match self.stage {
            InitStage::StopClock => self.go(InitStage::Divide),
            InitStage::StartClock => self.go(InitStage::Settle),
            InitStage::GoIdle => self.send(InitStage::OfferVoltage, Command::SendIfCond(IF_COND)),
            InitStage::OfferVoltage => self.try_card(),
            InitStage::Announce => if resp.is_none() {
                self.try_card()
            } else {
                self.send(InitStage::AskReady, Command::SdSendOpCond(OP_COND))
            },
            InitStage::AskReady => if card_ready(resp) {
                self.send(InitStage::Identify, Command::AllSendCid)
            } else {
                self.go(InitStage::Pause)
            },
            InitStage::Identify => if resp.is_none() {
                self.go(InitStage::Finished(InitOutcome::NoIdentification))
            } else {
                self.send(InitStage::AskAddress, Command::SendRelativeAddr)
            },
            InitStage::AskAddress => match resp {
                None => self.go(InitStage::Finished(InitOutcome::NoAddress)),
                Some(words) => {
                    self.rca = address_in(words[0]);
                    self.send(InitStage::AskCapacity, Command::SendCsd(address_arg(self.rca)));
                },
            },
            InitStage::AskCapacity => {
                self.num_blocks =
                match resp {
                    Some(words) => (CsdV2 { words }).num_blocks(),
                    None => 0,
                };
                self.send(InitStage::Select, Command::SelectCard(address_arg(self.rca)));
            },
            InitStage::Select => self.send(
                InitStage::AnnounceScr,
                Command::AppCmd(address_arg(self.rca)),
            ),
            InitStage::AnnounceScr => self.go(InitStage::ReadBlockSize),
            InitStage::ReadScr => self.go(InitStage::DrainFifo),
            _ => {},
        }
    }

    /// The outcome once the bring-up is over.
    pub fn outcome(&self) -> (r: Option<InitOutcome>)
        ensures
            r == self@.result(),
    {
        match self.stage {
            InitStage::Finished(outcome) => Some(outcome),
            _ => None,
        }
    }
}

} // verus!
