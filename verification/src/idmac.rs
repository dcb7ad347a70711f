//! Sending a command whose data the internal DMA controller moves.
use vstd::prelude::*;

use crate::bus::{poll, MemLayout, Protocol, Reply, Request, WallTime};
use crate::cmd::{Cmd, Command, DataXfer};
use crate::dma::{control_word, DMAInfo, IdmacDes1, IdmacDescriptor, MAX_BUFFER_SIZE};
use crate::regs::{BlkSiz, IdSts, RIntSts, Reg, Status};

verus! {

/// Memory that the IDMAC reads or writes, by its bus address.
#[derive(Clone, Copy, Debug, PartialEq, Eq, Structural)]
pub struct DmaRegion {
    pub addr: usize,
    pub len: usize,
}

/// Seconds to wait for the interrupt, for the response and for the data.
pub const IRQ_TIMEOUT: u32 = 1;

pub const RESPONSE_TIMEOUT: u32 = 2;

pub const DATA_TIMEOUT: u32 = 5;

/// Layout of a descriptor: four words, aligned to a word.
#[verifier::allow_in_spec]
pub fn descriptor_layout() -> MemLayout
    returns
        (MemLayout { size: 16, align: 4 }),
{
    MemLayout { size: 16, align: 4 }
}

/// What the last look at the hardware during the data phase showed.
#[derive(Clone, Copy, Debug, PartialEq, Eq, Structural)]
pub struct Seen {
    pub status: RIntSts,
    /// An error that the hardware did not show before the command.
    pub new_error: bool,
}

/// What is known when the data phase is over.
#[derive(Clone, Copy, Debug)]
pub struct Verdict {
    pub resp: [u32; 4],
    /// The interrupt status to acknowledge.
    pub status: RIntSts,
    pub failed: bool,
}

/// How a command ended.
#[derive(Clone, Copy, Debug)]
pub enum IdmacOutcome {
    /// There was no memory for the descriptor; nothing was sent.
    NoDescriptor,
    /// An error or a timeout.
    Failed,
    /// The card's response.
    Response([u32; 4]),
}

/// Where a command stands.
#[derive(Clone, Copy, Debug)]
pub enum IdmacStage {
    /// About to note the IDMAC status from before the command.
    SaveIdsts,
    /// About to note the interrupt status from before the command.
    SaveStatus,
    /// About to acknowledge old interrupts.
    ReadStatus,
    ClearStatus(u32),
    ReadIdsts,
    ClearIdsts(u32),
    /// About to get memory for the descriptor.
    Allocate,
    /// About to store the descriptor.
    Store,
    /// About to make the descriptor visible to the IDMAC.
    Fence,
    /// About to hand over the descriptor's address.
    Mount,
    /// About to set block size and byte count.
    ReadBlockSize,
    WriteBlockSize(BlkSiz),
    WriteByteCount,
    /// About to reset the flags that the interrupt handler sets.
    ResetDone,
    ResetError,
    /// Waiting until the controller can take a command.
    AwaitIdle(bool),
    /// Waiting until the data line is free.
    AwaitData(bool),
    WriteArg,
    WriteCmd,
    /// Waiting until the controller has taken the command.
    AwaitTaken(bool),
    /// About to wake the IDMAC.
    Wake,
    /// About to check that the IDMAC has seen the descriptor.
    CheckDescriptor,
    /// It has not: about to acknowledge that and wake the IDMAC again.
    ClearUnavailable,
    WakeAgain,
    /// Waiting for the interrupt handler since a moment.
    StartIrqWait,
    TestDone(WallTime),
    IrqClock(WallTime),
    Yield(WallTime),
    /// About to look at the hardware after the wait.
    IrqStatus,
    IrqIdsts,
    /// Waiting for the response since a moment.
    StartResponseWait,
    TestResponse(WallTime),
    TestError(WallTime),
    ResponseClock(WallTime),
    /// No response is due: about to look for an error.
    CheckCommand,
    /// The command failed: about to clean up.
    FailStatus,
    FailClearStatus(u32),
    FailIdsts,
    FailClearIdsts(u32),
    FailFree,
    /// Waiting for the data since a moment, for so many rounds.
    StartDataWait,
    DataClock(WallTime, u64, Option<Seen>),
    DataStatus(WallTime, u64),
    DataIdsts(WallTime, u64, RIntSts),
    DataDone(WallTime, u64, Seen),
    DataPause(WallTime, u64, Seen),
    /// The data phase is over, in vain or not: about to read the response.
    ReadResponse(Option<Seen>, bool),
    /// There was no look at the hardware yet: about to take one.
    LateStatus([u32; 4], bool),
    LateIdsts([u32; 4], bool, RIntSts),
    /// About to clean up.
    EndIdsts(Verdict),
    EndClearIdsts(Verdict, u32),
    EndClearStatus(Verdict),
    EndFree(Verdict),
    /// About to ask what the interrupt handler saw.
    EndFlag(Verdict),
    /// Over.
    Finished(IdmacOutcome),
}

/// A command on its way.
#[derive(Clone, Copy, Debug)]
pub struct SendCmdIdmac {
    pub cmd: Cmd,
    pub arg: u32,
    pub region: DmaRegion,
    pub descriptor: IdmacDescriptor,
    /// Memory of the descriptor, once there is some.
    pub memory: DMAInfo,
    /// The hardware's state from before the command.
    pub old_idsts: IdSts,
    pub old_status: RIntSts,
    /// Whether the interrupt stayed away.
    pub irq_timed_out: bool,
    pub stage: IdmacStage,
}

/// The memory that goes with a command.
pub open spec fn region_of(command: Command<DmaRegion>) -> DmaRegion {
    match command.xfer() {
        Some(DataXfer::Read(region)) => region,
        Some(DataXfer::Write(region)) => region,
        None => DmaRegion { addr: 0, len: 0 },
    }
}

/// The one descriptor of a transfer: it belongs to the IDMAC, and its buffer is
/// both the first and the last.
pub open spec fn descriptor_for(region: DmaRegion) -> IdmacDescriptor {
    IdmacDescriptor {
        des0: control_word(true, false, false, false, true, true, false),
        des1: IdmacDes1 { bits: (region.len as u16) as u32 },
        des2: region.addr as u32,
        des3: 0,
    }
}

/// Whether `idsts` and `status` show an error that was not there before.
#[verifier::allow_in_spec]
pub fn new_error(old_idsts: IdSts, old_status: RIntSts, idsts: IdSts, status: RIntSts) -> bool
    returns
        ({
            ||| idsts.fbe() && !old_idsts.fbe()
            ||| idsts.ces() && !old_idsts.ces()
            ||| idsts.du() && !old_idsts.du()
            ||| status.error() && !old_status.error()
        }),
{
    idsts.fbe() && !old_idsts.fbe() || idsts.ces() && !old_idsts.ces() || idsts.du()
        && !old_idsts.du() || status.error() && !old_status.error()
}

/// The block size for a transfer of `len` bytes.
#[verifier::allow_in_spec]
pub fn block_size(len: usize) -> u16
    returns
        (if len < 512 {
            len as u16
        } else {
            512u16
        }),
{
    if len < 512 {
        len as u16
    } else {
        512
    }
}

impl SendCmdIdmac {
    /// A command about to be sent.
    pub open spec fn begin(command: Command<DmaRegion>) -> Self {
        SendCmdIdmac {
            cmd: command.word(),
            arg: command.arg(),
            region: region_of(command),
            descriptor: descriptor_for(region_of(command)),
            memory: DMAInfo { cpu_addr: 0, bus_addr: 0 },
            old_idsts: IdSts { bits: 0 },
            old_status: RIntSts { bits: 0 },
            irq_timed_out: false,
            stage: IdmacStage::SaveIdsts,
        }
    }

    /// The command moved on to `stage`.
    #[verifier::allow_in_spec]
    pub fn at(self, stage: IdmacStage) -> Self
        returns
            (SendCmdIdmac { stage, ..self }),
    {
        SendCmdIdmac { stage, ..self }
    }

    /// The outcome, once there is one.
    pub open spec fn result(self) -> Option<IdmacOutcome> {
        match self.stage {
            IdmacStage::Finished(outcome) => Some(outcome),
            _ => None,
        }
    }

    /// The data phase is over and the hardware was looked at.
    #[verifier::allow_in_spec]
    pub fn verdict(self, resp: [u32; 4], seen: Seen, gave_up: bool) -> Verdict
        returns
            (Verdict {
                resp,
                status: seen.status,
                failed: self.irq_timed_out || gave_up || seen.status.error() || seen.new_error,
            }),
    {
        Verdict {
            resp,
            status: seen.status,
            failed: self.irq_timed_out || gave_up || seen.status.error() || seen.new_error,
        }
    }
}

impl Protocol for SendCmdIdmac {
    open spec fn asks(self) -> Request {
        match self.stage {
            IdmacStage::SaveIdsts | IdmacStage::ReadIdsts | IdmacStage::CheckDescriptor => {
                Request::Read(Reg::Idsts)
            },
            IdmacStage::IrqIdsts | IdmacStage::FailIdsts => Request::Read(Reg::Idsts),
            IdmacStage::SaveStatus | IdmacStage::ReadStatus => Request::Read(Reg::Rintsts),
            IdmacStage::IrqStatus | IdmacStage::CheckCommand => Request::Read(Reg::Rintsts),
            IdmacStage::FailStatus => Request::Read(Reg::Rintsts),
            IdmacStage::ClearStatus(word) => Request::Write(Reg::Rintsts, word),
            IdmacStage::FailClearStatus(word) => Request::Write(Reg::Rintsts, word),
            IdmacStage::ClearIdsts(word) => Request::Write(Reg::Idsts, word),
            IdmacStage::FailClearIdsts(word) => Request::Write(Reg::Idsts, word),
            IdmacStage::Allocate => Request::AllocCoherent(descriptor_layout()),
            IdmacStage::Store => Request::StoreDescriptor(self.memory, self.descriptor),
            IdmacStage::Fence => Request::Fence,
            IdmacStage::Mount => Request::Write(Reg::Dbaddr, self.memory.bus_addr as u32),
            IdmacStage::ReadBlockSize => Request::Read(Reg::Blksiz),
            IdmacStage::WriteBlockSize(size) => Request::Write(Reg::Blksiz, size.bits),
            IdmacStage::WriteByteCount => Request::Write(Reg::Bytcnt, self.region.len as u32),
            IdmacStage::ResetDone => Request::SetDone(false),
            IdmacStage::ResetError => Request::SetError(false),
            IdmacStage::AwaitIdle(again) => poll(Reg::Cmd, again),
            IdmacStage::AwaitData(again) => poll(Reg::Status, again),
            IdmacStage::WriteArg => Request::Write(Reg::Cmdarg, self.arg),
            IdmacStage::WriteCmd => Request::Write(Reg::Cmd, self.cmd.bits),
            IdmacStage::AwaitTaken(again) => poll(Reg::Cmd, again),
            IdmacStage::Wake | IdmacStage::WakeAgain => Request::Write(Reg::Pldmnd, 1),
            IdmacStage::ClearUnavailable => Request::Write(
                Reg::Idsts,
                IdSts::new().with_du(true).bits,
            ),
            IdmacStage::StartIrqWait | IdmacStage::IrqClock(_) => Request::Now,
            IdmacStage::StartResponseWait | IdmacStage::ResponseClock(_) => Request::Now,
            IdmacStage::StartDataWait | IdmacStage::DataClock(_, _, _) => Request::Now,
            IdmacStage::TestDone(_) | IdmacStage::DataDone(_, _, _) => Request::TestDone,
            IdmacStage::Yield(_) => Request::Yield,
            IdmacStage::TestResponse(_) => Request::Read(Reg::Rintsts),
            IdmacStage::TestError(_) => Request::Retry(Reg::Rintsts),
            IdmacStage::FailFree => Request::DeallocCoherent(self.memory, descriptor_layout()),
            IdmacStage::DataStatus(_, _) | IdmacStage::LateStatus(_, _) => Request::Read(
                Reg::Rintsts,
            ),
            IdmacStage::DataIdsts(_, _, _) | IdmacStage::LateIdsts(_, _, _) => Request::Read(
                Reg::Idsts,
            ),
            IdmacStage::DataPause(_, _, _) => Request::Delay(1),
            IdmacStage::ReadResponse(_, _) => Request::ReadResponse,
            IdmacStage::EndIdsts(_) => Request::Read(Reg::Idsts),
            IdmacStage::EndClearIdsts(_, word) => Request::Write(Reg::Idsts, word),
            IdmacStage::EndClearStatus(verdict) => Request::Write(Reg::Rintsts, verdict.status.bits),
            IdmacStage::EndFree(_) => Request::DeallocCoherent(self.memory, descriptor_layout()),
            IdmacStage::EndFlag(_) => Request::TestError,
            IdmacStage::Finished(_) => Request::Finished,
        }
    }

    open spec fn hears(self, reply: Reply) -> Self {
        match (self.stage, reply) {
            (IdmacStage::SaveIdsts, Reply::Word(word)) => SendCmdIdmac {
                old_idsts: IdSts { bits: word },
                stage: IdmacStage::SaveStatus,
                ..self
            },
            (IdmacStage::SaveStatus, Reply::Word(word)) => SendCmdIdmac {
                old_status: RIntSts { bits: word },
                stage: IdmacStage::ReadStatus,
                ..self
            },
            (IdmacStage::ReadStatus, Reply::Word(word)) => self.at(IdmacStage::ClearStatus(word)),
            (IdmacStage::ClearStatus(_), Reply::Done) => self.at(IdmacStage::ReadIdsts),
            (IdmacStage::ReadIdsts, Reply::Word(word)) => self.at(IdmacStage::ClearIdsts(word)),
            (IdmacStage::ClearIdsts(_), Reply::Done) => self.at(IdmacStage::Allocate),
            (IdmacStage::Allocate, Reply::Allocated(Some(memory))) => SendCmdIdmac {
                memory,
                stage: IdmacStage::Store,
                ..self
            },
            (IdmacStage::Allocate, Reply::Allocated(None)) => self.at(
                IdmacStage::Finished(IdmacOutcome::NoDescriptor),
            ),
            (IdmacStage::Store, Reply::Done) => self.at(IdmacStage::Fence),
            (IdmacStage::Fence, Reply::Done) => self.at(IdmacStage::Mount),
            (IdmacStage::Mount, Reply::Done) => self.at(IdmacStage::ReadBlockSize),
            (IdmacStage::ReadBlockSize, Reply::Word(word)) => self.at(
                IdmacStage::WriteBlockSize(
                    (BlkSiz { bits: word }).with_block_size(block_size(self.region.len)),
                ),
            ),
            (IdmacStage::WriteBlockSize(_), Reply::Done) => self.at(IdmacStage::WriteByteCount),
            (IdmacStage::WriteByteCount, Reply::Done) => self.at(IdmacStage::ResetDone),
            (IdmacStage::ResetDone, Reply::Done) => self.at(IdmacStage::ResetError),
            (IdmacStage::ResetError, Reply::Done) => self.at(IdmacStage::AwaitIdle(false)),
            (IdmacStage::AwaitIdle(_), Reply::Word(word)) => if (Cmd { bits: word }).start_cmd() {
                self.at(IdmacStage::AwaitIdle(true))
            } else if self.cmd.data_expected() {
                self.at(IdmacStage::AwaitData(false))
            } else {
                self.at(IdmacStage::WriteArg)
            },
            (IdmacStage::AwaitData(_), Reply::Word(word)) => if (Status {
                bits: word,
            }).data_busy() {
                self.at(IdmacStage::AwaitData(true))
            } else {
                self.at(IdmacStage::WriteArg)
            },
            (IdmacStage::WriteArg, Reply::Done) => self.at(IdmacStage::WriteCmd),
            (IdmacStage::WriteCmd, Reply::Done) => self.at(IdmacStage::AwaitTaken(false)),
            (IdmacStage::AwaitTaken(_), Reply::Word(word)) => if (Cmd { bits: word }).start_cmd() {
                self.at(IdmacStage::AwaitTaken(true))
            } else {
                self.at(IdmacStage::Wake)
            },
            (IdmacStage::Wake, Reply::Done) => self.at(IdmacStage::CheckDescriptor),
            (IdmacStage::CheckDescriptor, Reply::Word(word)) => if (IdSts { bits: word }).du() {
                self.at(IdmacStage::ClearUnavailable)
            } else {
                self.at(IdmacStage::StartIrqWait)
            },
            (IdmacStage::ClearUnavailable, Reply::Done) => self.at(IdmacStage::WakeAgain),
            (IdmacStage::WakeAgain, Reply::Done) => self.at(IdmacStage::StartIrqWait),
            (IdmacStage::StartIrqWait, Reply::Time(start)) => self.at(IdmacStage::TestDone(start)),
            (IdmacStage::TestDone(start), Reply::Flag(done)) => if done {
                self.at(IdmacStage::IrqStatus)
            } else {
                self.at(IdmacStage::IrqClock(start))
            },
            (IdmacStage::IrqClock(start), Reply::Time(now)) => if now.has_reached(
                start,
                IRQ_TIMEOUT,
            ) {
                SendCmdIdmac { irq_timed_out: true, stage: IdmacStage::IrqStatus, ..self }
            } else {
                self.at(IdmacStage::Yield(start))
            },
            (IdmacStage::Yield(start), Reply::Done) => self.at(IdmacStage::TestDone(start)),
            (IdmacStage::IrqStatus, Reply::Word(_)) => self.at(IdmacStage::IrqIdsts),
            (IdmacStage::IrqIdsts, Reply::Word(_)) => if self.cmd.response_expect() {
                self.at(IdmacStage::StartResponseWait)
            } else {
                self.at(IdmacStage::CheckCommand)
            },
            (IdmacStage::StartResponseWait, Reply::Time(start)) => self.at(
                IdmacStage::TestResponse(start),
            ),
            (IdmacStage::TestResponse(start), Reply::Word(word)) => if (RIntSts {
                bits: word,
            }).command_done() {
                self.at(IdmacStage::StartDataWait)
            } else {
                self.at(IdmacStage::TestError(start))
            },
            (IdmacStage::TestError(start), Reply::Word(word)) => if (RIntSts {
                bits: word,
            }).error() {
                self.at(IdmacStage::FailStatus)
            } else {
                self.at(IdmacStage::ResponseClock(start))
            },
            (IdmacStage::ResponseClock(start), Reply::Time(now)) => if now.has_reached(
                start,
                RESPONSE_TIMEOUT,
            ) {
                self.at(IdmacStage::FailStatus)
            } else {
                self.at(IdmacStage::TestResponse(start))
            },
            (IdmacStage::CheckCommand, Reply::Word(word)) => if (RIntSts { bits: word }).error() {
                self.at(IdmacStage::FailClearStatus(word))
            } else {
                self.at(IdmacStage::StartDataWait)
            },
            (IdmacStage::FailStatus, Reply::Word(word)) => self.at(
                IdmacStage::FailClearStatus(word),
            ),
            (IdmacStage::FailClearStatus(_), Reply::Done) => self.at(IdmacStage::FailIdsts),
            (IdmacStage::FailIdsts, Reply::Word(word)) => self.at(IdmacStage::FailClearIdsts(word)),
            (IdmacStage::FailClearIdsts(_), Reply::Done) => self.at(IdmacStage::FailFree),
            (IdmacStage::FailFree, Reply::Done) => self.at(
                IdmacStage::Finished(IdmacOutcome::Failed),
            ),
            (IdmacStage::StartDataWait, Reply::Time(start)) => self.at(
                IdmacStage::DataClock(start, 0, None),
            ),
            (IdmacStage::DataClock(start, rounds, last), Reply::Time(now)) => if now.has_reached(
                start,
                DATA_TIMEOUT,
            ) {
                self.at(IdmacStage::ReadResponse(last, true))
            } else {
                self.at(IdmacStage::DataStatus(start, rounds))
            },
            (IdmacStage::DataStatus(start, rounds), Reply::Word(word)) => self.at(
                IdmacStage::DataIdsts(start, rounds, RIntSts { bits: word }),
            ),
            (IdmacStage::DataIdsts(start, rounds, status), Reply::Word(word)) => {
                let seen = Seen {
                    status,
                    new_error: new_error(
                        self.old_idsts,
                        self.old_status,
                        IdSts { bits: word },
                        status,
                    ),
                };
                if seen.new_error {
                    self.at(IdmacStage::ReadResponse(Some(seen), true))
                } else {
                    self.at(IdmacStage::DataDone(start, rounds, seen))
                }
            },
            (IdmacStage::DataDone(start, rounds, seen), Reply::Flag(done)) => if done
                || seen.status.data_transfer_over() || seen.status.error() {
                self.at(IdmacStage::ReadResponse(Some(seen), false))
            } else {
                self.at(IdmacStage::DataPause(start, rounds, seen))
            },
            (IdmacStage::DataPause(start, rounds, seen), Reply::Done) => if rounds >= u64::MAX - 1 {
                self.at(IdmacStage::ReadResponse(Some(seen), false))
            } else {
                self.at(IdmacStage::DataClock(start, (rounds + 1) as u64, Some(seen)))
            },
            (IdmacStage::ReadResponse(Some(seen), gave_up), Reply::Response(resp)) => self.at(
                IdmacStage::EndIdsts(self.verdict(resp, seen, gave_up)),
            ),
            (IdmacStage::ReadResponse(None, gave_up), Reply::Response(resp)) => self.at(
                IdmacStage::LateStatus(resp, gave_up),
            ),
            (IdmacStage::LateStatus(resp, gave_up), Reply::Word(word)) => self.at(
                IdmacStage::LateIdsts(resp, gave_up, RIntSts { bits: word }),
            ),
            (IdmacStage::LateIdsts(resp, gave_up, status), Reply::Word(_)) => self.at(
                IdmacStage::EndIdsts(
                    self.verdict(resp, Seen { status, new_error: false }, gave_up),
                ),
            ),
            (IdmacStage::EndIdsts(verdict), Reply::Word(word)) => self.at(
                IdmacStage::EndClearIdsts(verdict, word),
            ),
            (IdmacStage::EndClearIdsts(verdict, _), Reply::Done) => self.at(
                IdmacStage::EndClearStatus(verdict),
            ),
            (IdmacStage::EndClearStatus(verdict), Reply::Done) => self.at(
                IdmacStage::EndFree(verdict),
            ),
            (IdmacStage::EndFree(verdict), Reply::Done) => self.at(IdmacStage::EndFlag(verdict)),
            (IdmacStage::EndFlag(verdict), Reply::Flag(error)) => self.at(
                IdmacStage::Finished(
                    if error || verdict.failed {
                        IdmacOutcome::Failed
                    } else {
                        IdmacOutcome::Response(verdict.resp)
                    },
                ),
            ),
            _ => self,
        }
    }
}

impl SendCmdIdmac {
    /// Starts sending `command`, which must move data.
    pub fn new(command: Command<DmaRegion>) -> (op: Self)
        requires
            command.xfer() is Some,
            region_of(command).len as u16 <= MAX_BUFFER_SIZE,
        ensures
            op == SendCmdIdmac::begin(command),
    {
        let (cmd, arg, xfer) = command.build();
        let region = match xfer {
            Some(DataXfer::Read(region)) => region,
            Some(DataXfer::Write(region)) => region,
            None => DmaRegion { addr: 0, len: 0 },
        };
        let mut descriptor = IdmacDescriptor::new();
        descriptor.set_desc0_control_descriptor(true, false, false, false, true, true, false);
        descriptor.set_des1_buffer1_size(#[verifier::truncate] (region.len as u16));
        descriptor.set_des2_buffer1_address(#[verifier::truncate] (region.addr as u32));
        descriptor.set_des3_next_descriptor_address(0);
        SendCmdIdmac {
            cmd,
            arg,
            region,
            descriptor,
            memory: DMAInfo { cpu_addr: 0, bus_addr: 0 },
            old_idsts: IdSts::new(),
            old_status: RIntSts::new(),
            irq_timed_out: false,
            stage: IdmacStage::SaveIdsts,
        }
    }

    /// The outside work that is due.
    pub fn request(&self) -> (request: Request)
        ensures
            request == self.asks(),
    {
        match self.stage {
            IdmacStage::SaveIdsts | IdmacStage::ReadIdsts | IdmacStage::CheckDescriptor => {
                Request::Read(Reg::Idsts)
            },
            IdmacStage::IrqIdsts | IdmacStage::FailIdsts => Request::Read(Reg::Idsts),
            IdmacStage::SaveStatus | IdmacStage::ReadStatus => Request::Read(Reg::Rintsts),
            IdmacStage::IrqStatus | IdmacStage::CheckCommand => Request::Read(Reg::Rintsts),
            IdmacStage::FailStatus => Request::Read(Reg::Rintsts),
            IdmacStage::ClearStatus(word) => Request::Write(Reg::Rintsts, word),
            IdmacStage::FailClearStatus(word) => Request::Write(Reg::Rintsts, word),
            IdmacStage::ClearIdsts(word) => Request::Write(Reg::Idsts, word),
            IdmacStage::FailClearIdsts(word) => Request::Write(Reg::Idsts, word),
            IdmacStage::Allocate => Request::AllocCoherent(descriptor_layout()),
            IdmacStage::Store => Request::StoreDescriptor(self.memory, self.descriptor),
            IdmacStage::Fence => Request::Fence,
            IdmacStage::Mount => Request::Write(
                Reg::Dbaddr,
                #[verifier::truncate] (self.memory.bus_addr as u32),
            ),
            IdmacStage::ReadBlockSize => Request::Read(Reg::Blksiz),
            IdmacStage::WriteBlockSize(size) => Request::Write(Reg::Blksiz, size.bits),
            IdmacStage::WriteByteCount => Request::Write(
                Reg::Bytcnt,
                #[verifier::truncate] (self.region.len as u32),
            ),
            IdmacStage::ResetDone => Request::SetDone(false),
            IdmacStage::ResetError => Request::SetError(false),
            IdmacStage::AwaitIdle(again) => poll(Reg::Cmd, again),
            IdmacStage::AwaitData(again) => poll(Reg::Status, again),
            IdmacStage::WriteArg => Request::Write(Reg::Cmdarg, self.arg),
            IdmacStage::WriteCmd => Request::Write(Reg::Cmd, self.cmd.bits),
            IdmacStage::AwaitTaken(again) => poll(Reg::Cmd, again),
            IdmacStage::Wake | IdmacStage::WakeAgain => Request::Write(Reg::Pldmnd, 1),
            IdmacStage::ClearUnavailable => Request::Write(
                Reg::Idsts,
                IdSts::new().with_du(true).bits,
            ),
            IdmacStage::StartIrqWait | IdmacStage::IrqClock(_) => Request::Now,
            IdmacStage::StartResponseWait | IdmacStage::ResponseClock(_) => Request::Now,
            IdmacStage::StartDataWait | IdmacStage::DataClock(_, _, _) => Request::Now,
            IdmacStage::TestDone(_) | IdmacStage::DataDone(_, _, _) => Request::TestDone,
            IdmacStage::Yield(_) => Request::Yield,
            IdmacStage::TestResponse(_) => Request::Read(Reg::Rintsts),
            IdmacStage::TestError(_) => Request::Retry(Reg::Rintsts),
            IdmacStage::FailFree => Request::DeallocCoherent(self.memory, descriptor_layout()),
            IdmacStage::DataStatus(_, _) | IdmacStage::LateStatus(_, _) => Request::Read(
                Reg::Rintsts,
            ),
            IdmacStage::DataIdsts(_, _, _) | IdmacStage::LateIdsts(_, _, _) => Request::Read(
                Reg::Idsts,
            ),
            IdmacStage::DataPause(_, _, _) => Request::Delay(1),
            IdmacStage::ReadResponse(_, _) => Request::ReadResponse,
            IdmacStage::EndIdsts(_) => Request::Read(Reg::Idsts),
            IdmacStage::EndClearIdsts(_, word) => Request::Write(Reg::Idsts, word),
            IdmacStage::EndClearStatus(verdict) => Request::Write(Reg::Rintsts, verdict.status.bits),
            IdmacStage::EndFree(_) => Request::DeallocCoherent(self.memory, descriptor_layout()),
            IdmacStage::EndFlag(_) => Request::TestError,
            IdmacStage::Finished(_) => Request::Finished,
        }
    }

    /// Takes in the reply to the outstanding request.
    pub fn step(&mut self, reply: Reply)
        ensures
            *final(self) == old(self).hears(reply),
    {
        *self = match (self.stage, reply) {
            (IdmacStage::SaveIdsts, Reply::Word(word)) => SendCmdIdmac {
                old_idsts: IdSts { bits: word },
                stage: IdmacStage::SaveStatus,
                ..*self
            },
            (IdmacStage::SaveStatus, Reply::Word(word)) => SendCmdIdmac {
                old_status: RIntSts { bits: word },
                stage: IdmacStage::ReadStatus,
                ..*self
            },
            (IdmacStage::ReadStatus, Reply::Word(word)) => self.at(IdmacStage::ClearStatus(word)),
            (IdmacStage::ClearStatus(_), Reply::Done) => self.at(IdmacStage::ReadIdsts),
            (IdmacStage::ReadIdsts, Reply::Word(word)) => self.at(IdmacStage::ClearIdsts(word)),
            (IdmacStage::ClearIdsts(_), Reply::Done) => self.at(IdmacStage::Allocate),
            (IdmacStage::Allocate, Reply::Allocated(Some(memory))) => SendCmdIdmac {
                memory,
                stage: IdmacStage::Store,
                ..*self
            },
            (IdmacStage::Allocate, Reply::Allocated(None)) => self.at(
                IdmacStage::Finished(IdmacOutcome::NoDescriptor),
            ),
            (IdmacStage::Store, Reply::Done) => self.at(IdmacStage::Fence),
            (IdmacStage::Fence, Reply::Done) => self.at(IdmacStage::Mount),
            (IdmacStage::Mount, Reply::Done) => self.at(IdmacStage::ReadBlockSize),
            (IdmacStage::ReadBlockSize, Reply::Word(word)) => self.at(
                IdmacStage::WriteBlockSize(
                    (BlkSiz { bits: word }).with_block_size(block_size(self.region.len)),
                ),
            ),
            (IdmacStage::WriteBlockSize(_), Reply::Done) => self.at(IdmacStage::WriteByteCount),
            (IdmacStage::WriteByteCount, Reply::Done) => self.at(IdmacStage::ResetDone),
            (IdmacStage::ResetDone, Reply::Done) => self.at(IdmacStage::ResetError),
            (IdmacStage::ResetError, Reply::Done) => self.at(IdmacStage::AwaitIdle(false)),
            (IdmacStage::AwaitIdle(_), Reply::Word(word)) => if (Cmd { bits: word }).start_cmd() {
                self.at(IdmacStage::AwaitIdle(true))
            } else if self.cmd.data_expected() {
                self.at(IdmacStage::AwaitData(false))
            } else {
                self.at(IdmacStage::WriteArg)
            },
            (IdmacStage::AwaitData(_), Reply::Word(word)) => if (Status {
                bits: word,
            }).data_busy() {
                self.at(IdmacStage::AwaitData(true))
            } else {
                self.at(IdmacStage::WriteArg)
            },
            (IdmacStage::WriteArg, Reply::Done) => self.at(IdmacStage::WriteCmd),
            (IdmacStage::WriteCmd, Reply::Done) => self.at(IdmacStage::AwaitTaken(false)),
            (IdmacStage::AwaitTaken(_), Reply::Word(word)) => if (Cmd { bits: word }).start_cmd() {
                self.at(IdmacStage::AwaitTaken(true))
            } else {
                self.at(IdmacStage::Wake)
            },
            (IdmacStage::Wake, Reply::Done) => self.at(IdmacStage::CheckDescriptor),
            (IdmacStage::CheckDescriptor, Reply::Word(word)) => if (IdSts { bits: word }).du() {
                self.at(IdmacStage::ClearUnavailable)
            } else {
                self.at(IdmacStage::StartIrqWait)
            },
            (IdmacStage::ClearUnavailable, Reply::Done) => self.at(IdmacStage::WakeAgain),
            (IdmacStage::WakeAgain, Reply::Done) => self.at(IdmacStage::StartIrqWait),
            (IdmacStage::StartIrqWait, Reply::Time(start)) => self.at(IdmacStage::TestDone(start)),
            (IdmacStage::TestDone(start), Reply::Flag(done)) => if done {
                self.at(IdmacStage::IrqStatus)
            } else {
                self.at(IdmacStage::IrqClock(start))
            },
            (IdmacStage::IrqClock(start), Reply::Time(now)) => if now.reached(
                start,
                IRQ_TIMEOUT,
            ) {
                SendCmdIdmac { irq_timed_out: true, stage: IdmacStage::IrqStatus, ..*self }
            } else {
                self.at(IdmacStage::Yield(start))
            },
            (IdmacStage::Yield(start), Reply::Done) => self.at(IdmacStage::TestDone(start)),
            (IdmacStage::IrqStatus, Reply::Word(_)) => self.at(IdmacStage::IrqIdsts),
            (IdmacStage::IrqIdsts, Reply::Word(_)) => if self.cmd.response_expect() {
                self.at(IdmacStage::StartResponseWait)
            } else {
                self.at(IdmacStage::CheckCommand)
            },
            (IdmacStage::StartResponseWait, Reply::Time(start)) => self.at(
                IdmacStage::TestResponse(start),
            ),
            (IdmacStage::TestResponse(start), Reply::Word(word)) => if (RIntSts {
                bits: word,
            }).command_done() {
                self.at(IdmacStage::StartDataWait)
            } else {
                self.at(IdmacStage::TestError(start))
            },
            (IdmacStage::TestError(start), Reply::Word(word)) => if (RIntSts {
                bits: word,
            }).error() {
                self.at(IdmacStage::FailStatus)
            } else {
                self.at(IdmacStage::ResponseClock(start))
            },
            (IdmacStage::ResponseClock(start), Reply::Time(now)) => if now.reached(
                start,
                RESPONSE_TIMEOUT,
            ) {
                self.at(IdmacStage::FailStatus)
            } else {
                self.at(IdmacStage::TestResponse(start))
            },
            (IdmacStage::CheckCommand, Reply::Word(word)) => if (RIntSts { bits: word }).error() {
                self.at(IdmacStage::FailClearStatus(word))
            } else {
                self.at(IdmacStage::StartDataWait)
            },
            (IdmacStage::FailStatus, Reply::Word(word)) => self.at(
                IdmacStage::FailClearStatus(word),
            ),
            (IdmacStage::FailClearStatus(_), Reply::Done) => self.at(IdmacStage::FailIdsts),
            (IdmacStage::FailIdsts, Reply::Word(word)) => self.at(IdmacStage::FailClearIdsts(word)),
            (IdmacStage::FailClearIdsts(_), Reply::Done) => self.at(IdmacStage::FailFree),
            (IdmacStage::FailFree, Reply::Done) => self.at(
                IdmacStage::Finished(IdmacOutcome::Failed),
            ),
            (IdmacStage::StartDataWait, Reply::Time(start)) => self.at(
                IdmacStage::DataClock(start, 0, None),
            ),
            (IdmacStage::DataClock(start, rounds, last), Reply::Time(now)) => if now.reached(
                start,
                DATA_TIMEOUT,
            ) {
                self.at(IdmacStage::ReadResponse(last, true))
            } else {
                self.at(IdmacStage::DataStatus(start, rounds))
            },
            (IdmacStage::DataStatus(start, rounds), Reply::Word(word)) => self.at(
                IdmacStage::DataIdsts(start, rounds, RIntSts { bits: word }),
            ),
            (IdmacStage::DataIdsts(start, rounds, status), Reply::Word(word)) => {
                let seen = Seen {
                    status,
                    new_error: new_error(
                        self.old_idsts,
                        self.old_status,
                        IdSts { bits: word },
                        status,
                    ),
                };
                if seen.new_error {
                    self.at(IdmacStage::ReadResponse(Some(seen), true))
                } else {
                    self.at(IdmacStage::DataDone(start, rounds, seen))
                }
            },
            (IdmacStage::DataDone(start, rounds, seen), Reply::Flag(done)) => if done
                || seen.status.data_transfer_over() || seen.status.error() {
                self.at(IdmacStage::ReadResponse(Some(seen), false))
            } else {
                self.at(IdmacStage::DataPause(start, rounds, seen))
            },
            (IdmacStage::DataPause(start, rounds, seen), Reply::Done) => if rounds >= u64::MAX - 1 {
                self.at(IdmacStage::ReadResponse(Some(seen), false))
            } else {
                self.at(IdmacStage::DataClock(start, rounds + 1, Some(seen)))
            },
            (IdmacStage::ReadResponse(Some(seen), gave_up), Reply::Response(resp)) => self.at(
                IdmacStage::EndIdsts(self.verdict(resp, seen, gave_up)),
            ),
            (IdmacStage::ReadResponse(None, gave_up), Reply::Response(resp)) => self.at(
                IdmacStage::LateStatus(resp, gave_up),
            ),
            (IdmacStage::LateStatus(resp, gave_up), Reply::Word(word)) => self.at(
                IdmacStage::LateIdsts(resp, gave_up, RIntSts { bits: word }),
            ),
            (IdmacStage::LateIdsts(resp, gave_up, status), Reply::Word(_)) => self.at(
                IdmacStage::EndIdsts(
                    self.verdict(resp, Seen { status, new_error: false }, gave_up),
                ),
            ),
            (IdmacStage::EndIdsts(verdict), Reply::Word(word)) => self.at(
                IdmacStage::EndClearIdsts(verdict, word),
            ),
            (IdmacStage::EndClearIdsts(verdict, _), Reply::Done) => self.at(
                IdmacStage::EndClearStatus(verdict),
            ),
            (IdmacStage::EndClearStatus(verdict), Reply::Done) => self.at(
                IdmacStage::EndFree(verdict),
            ),
            (IdmacStage::EndFree(verdict), Reply::Done) => self.at(IdmacStage::EndFlag(verdict)),
            (IdmacStage::EndFlag(verdict), Reply::Flag(error)) => self.at(
                IdmacStage::Finished(
                    if error || verdict.failed {
                        IdmacOutcome::Failed
                    } else {
                        IdmacOutcome::Response(verdict.resp)
                    },
                ),
            ),
            _ => *self,
        };
    }

    /// The outcome once the command is over.
    pub fn outcome(&self) -> (r: Option<IdmacOutcome>)
        ensures
            r == self.result(),
    {
        match self.stage {
            IdmacStage::Finished(outcome) => Some(outcome),
            _ => None,
        }
    }
}

} // verus!
