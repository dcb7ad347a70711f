//! Sending a command, with its data moved through the FIFO by the CPU.
use vstd::prelude::*;

use crate::bus::{poll, Protocol, Reply, Request};
use crate::cmd::{Cmd, Command, DataXfer};
use crate::regs::{RIntSts, Reg, Status};

verus! {

/// A bounded wait gives up once more polls than this were in vain.
pub const MAX_WAIT: u64 = 1_000_000;

/// Where a command stands.
#[derive(Clone, Copy, Debug)]
pub enum SendStage {
    /// Waiting until the controller can take a command; so many polls failed.
    AwaitIdle(u64),
    /// Waiting until the data line is free; whether a poll failed.
    AwaitData(bool),
    /// About to write the argument.
    WriteArg,
    /// About to write the command.
    WriteCmd,
    /// Waiting until the controller has taken the command.
    AwaitTaken(u64),
    /// Waiting for the card's response.
    AwaitResponse(u64),
    /// Waiting for the FIFO or the end of the transfer.
    PollData(bool),
    /// The status allowed for data: about to look how full the FIFO is.
    CountFifo(RIntSts),
    /// About to move eight bytes.
    MoveWord(RIntSts),
    /// About to read the response registers.
    ReadResponse,
    /// About to read the interrupt status.
    ReadStatus([u32; 4]),
    /// About to acknowledge the interrupt status.
    ClearStatus([u32; 4], RIntSts),
    /// Over: the response, or nothing where an error was recorded.
    Finished(Option<[u32; 4]>),
}

/// A command on its way. `B` holds the bytes of the data buffer.
pub struct SendCmd<B> {
    pub cmd: Cmd,
    pub arg: u32,
    pub xfer: Option<DataXfer<B>>,
    /// Bytes of the buffer that have been moved.
    pub offset: usize,
    pub stage: SendStage,
}

/// The eight bytes at `offset` as a little-endian number.
pub open spec fn word_at(buf: Seq<u8>, offset: int) -> u64 {
    vstd::bytes::spec_u64_from_le_bytes(buf.subrange(offset, offset + 8))
}

/// `buf` with the bytes from `offset` on replaced by `bytes`.
pub open spec fn overlay(buf: Seq<u8>, offset: int, bytes: Seq<u8>) -> Seq<u8> {
    Seq::new(
        buf.len(),
        |i: int|
            if offset <= i < offset + bytes.len() {
                bytes[i - offset]
            } else {
                buf[i]
            },
    )
}

impl DataXfer<Seq<u8>> {
    pub open spec fn bytes(self) -> Seq<u8> {
        match self {
            DataXfer::Read(buf) => buf,
            DataXfer::Write(buf) => buf,
        }
    }
}

impl View for DataXfer<Vec<u8>> {
    type V = DataXfer<Seq<u8>>;

    open spec fn view(&self) -> DataXfer<Seq<u8>> {
        match self {
            DataXfer::Read(buf) => DataXfer::Read(buf@),
            DataXfer::Write(buf) => DataXfer::Write(buf@),
        }
    }
}

impl View for SendCmd<Vec<u8>> {
    type V = SendCmd<Seq<u8>>;

    open spec fn view(&self) -> SendCmd<Seq<u8>> {
        SendCmd {
            cmd: self.cmd,
            arg: self.arg,
            xfer: match self.xfer {
                Some(xfer) => Some(xfer@),
                None => None,
            },
            offset: self.offset,
            stage: self.stage,
        }
    }
}

impl View for Command<Vec<u8>> {
    type V = Command<Seq<u8>>;

    open spec fn view(&self) -> Command<Seq<u8>> {
        match self {
            Command::ResetClock => Command::ResetClock,
            Command::GoIdleState => Command::GoIdleState,
            Command::AllSendCid => Command::AllSendCid,
            Command::SendRelativeAddr => Command::SendRelativeAddr,
            Command::SelectCard(arg) => Command::SelectCard(*arg),
            Command::SendIfCond(arg) => Command::SendIfCond(*arg),
            Command::SendCsd(arg) => Command::SendCsd(*arg),
            Command::ReadSingleBlock(block, buf) => Command::ReadSingleBlock(*block, buf@),
            Command::WriteSingleBlock(block, buf) => Command::WriteSingleBlock(*block, buf@),
            Command::SdSendOpCond(arg) => Command::SdSendOpCond(*arg),
            Command::SendScr(buf) => Command::SendScr(buf@),
            Command::AppCmd(arg) => Command::AppCmd(*arg),
        }
    }
}

/// Whether the command's data, if any, comes in whole FIFO words.
pub open spec fn sendable(command: Command<Seq<u8>>) -> bool {
    command.xfer() matches Some(xfer) ==> xfer.bytes().len() % 8 == 0 && xfer.bytes().len()
        <= usize::MAX
}

impl SendCmd<Seq<u8>> {
    /// A command about to be sent.
    pub open spec fn begin(command: Command<Seq<u8>>) -> Self {
        SendCmd {
            cmd: command.word(),
            arg: command.arg(),
            xfer: command.xfer(),
            offset: 0,
            stage: SendStage::AwaitIdle(0),
        }
    }

    /// The command says truly whether it moves data, the data comes in whole FIFO
    /// words, and the stage fits what there is to move.
    pub open spec fn wf(self) -> bool {
        &&& self.cmd.data_expected() == (self.xfer is Some)
        &&& self.xfer is None ==> self.offset == 0
        &&& self.xfer matches Some(xfer) ==> {
            &&& xfer.bytes().len() <= usize::MAX
            &&& xfer.bytes().len() % 8 == 0
            &&& self.offset % 8 == 0
            &&& self.offset <= xfer.bytes().len()
        }
        &&& match self.stage {
            SendStage::AwaitIdle(n) | SendStage::AwaitTaken(n) | SendStage::AwaitResponse(n) => n
                <= MAX_WAIT && self.offset == 0,
            SendStage::AwaitData(_) => self.xfer is Some && self.offset == 0,
            SendStage::WriteArg | SendStage::WriteCmd => self.offset == 0,
            SendStage::PollData(_) | SendStage::CountFifo(_) => self.xfer is Some,
            SendStage::MoveWord(_) => self.xfer matches Some(xfer) && self.offset
                < xfer.bytes().len(),
            _ => true,
        }
    }

    /// The outcome, once there is one.
    pub open spec fn result(self) -> Option<Option<[u32; 4]>> {
        match self.stage {
            SendStage::Finished(resp) => Some(resp),
            _ => None,
        }
    }

    /// The command moved on to `stage`.
    pub open spec fn at(self, stage: SendStage) -> Self {
        SendCmd { stage, ..self }
    }

    /// The controller is idle: data must wait for the data line.
    pub open spec fn once_idle(self) -> Self {
        if self.cmd.data_expected() {
            self.at(SendStage::AwaitData(false))
        } else {
            self.at(SendStage::WriteArg)
        }
    }

    /// The controller took the command: a response is awaited where one is due.
    pub open spec fn once_taken(self) -> Self {
        if self.cmd.response_expect() {
            self.at(SendStage::AwaitResponse(0))
        } else {
            self.once_answered()
        }
    }

    /// The command phase is over: data follows where there is any.
    pub open spec fn once_answered(self) -> Self {
        if self.xfer is Some {
            self.at(SendStage::PollData(false))
        } else {
            self.at(SendStage::ReadResponse)
        }
    }

    /// Whether `status` asks for data to be moved.
    pub open spec fn wants_data(self, status: RIntSts) -> bool {
        match self.xfer {
            Some(DataXfer::Read(_)) => status.receive_fifo_data_request(),
            Some(DataXfer::Write(_)) => status.transmit_fifo_data_request(),
            None => false,
        }
    }

    /// Whether a FIFO with `count` 32-bit words in it has eight bytes to give or
    /// room for eight more, and the buffer is not done with.
    pub open spec fn can_move(self, count: u32) -> bool {
        match self.xfer {
            Some(DataXfer::Read(buf)) => count >= 2 && self.offset < buf.len(),
            Some(DataXfer::Write(buf)) => count < 120 && self.offset < buf.len(),
            None => false,
        }
    }

    /// Whether the data phase ends after a look at `status`.
    pub open spec fn data_over(self, status: RIntSts) -> bool {
        ||| status.data_transfer_over()
        ||| status.error()
        ||| self.xfer matches Some(DataXfer::Read(buf)) && self.offset >= buf.len()
    }

    /// No more can be moved for now.
    pub open spec fn once_moved(self, status: RIntSts) -> Self {
        if self.data_over(status) {
            self.at(SendStage::ReadResponse)
        } else {
            self.at(SendStage::PollData(true))
        }
    }
}

impl Protocol for SendCmd<Seq<u8>> {
    open spec fn asks(self) -> Request {
        match self.stage {
            SendStage::AwaitIdle(n) | SendStage::AwaitTaken(n) => poll(Reg::Cmd, n > 0),
            SendStage::AwaitData(again) => poll(Reg::Status, again),
            SendStage::WriteArg => Request::Write(Reg::Cmdarg, self.arg),
            SendStage::WriteCmd => Request::Write(Reg::Cmd, self.cmd.bits),
            SendStage::AwaitResponse(n) => poll(Reg::Rintsts, n > 0),
            SendStage::PollData(again) => poll(Reg::Rintsts, again),
            SendStage::CountFifo(_) => Request::Read(Reg::Status),
            SendStage::MoveWord(_) => match self.xfer {
                Some(DataXfer::Write(buf)) => Request::WriteFifo(word_at(buf, self.offset as int)),
                _ => Request::ReadFifo,
            },
            SendStage::ReadResponse => Request::ReadResponse,
            SendStage::ReadStatus(_) => Request::Read(Reg::Rintsts),
            SendStage::ClearStatus(_, status) => Request::Write(Reg::Rintsts, status.bits),
            SendStage::Finished(_) => Request::Finished,
        }
    }

    open spec fn hears(self, reply: Reply) -> Self {
        match (self.stage, reply) {
            (SendStage::AwaitIdle(n), Reply::Word(word)) => if !(Cmd { bits: word }).start_cmd()
                || n >= MAX_WAIT {
                self.once_idle()
            } else {
                self.at(SendStage::AwaitIdle((n + 1) as u64))
            },
            (SendStage::AwaitData(_), Reply::Word(word)) => if (Status { bits: word }).data_busy() {
                self.at(SendStage::AwaitData(true))
            } else {
                self.at(SendStage::WriteArg)
            },
            (SendStage::WriteArg, Reply::Done) => self.at(SendStage::WriteCmd),
            (SendStage::WriteCmd, Reply::Done) => self.at(SendStage::AwaitTaken(0)),
            (SendStage::AwaitTaken(n), Reply::Word(word)) => if !(Cmd { bits: word }).start_cmd()
                || n >= MAX_WAIT {
                self.once_taken()
            } else {
                self.at(SendStage::AwaitTaken((n + 1) as u64))
            },
            (SendStage::AwaitResponse(n), Reply::Word(word)) => if (RIntSts {
                bits: word,
            }).command_done() || n >= MAX_WAIT {
                self.once_answered()
            } else {
                self.at(SendStage::AwaitResponse((n + 1) as u64))
            },
            (SendStage::PollData(_), Reply::Word(word)) => {
                let status = RIntSts { bits: word };
                if self.wants_data(status) {
                    self.at(SendStage::CountFifo(status))
                } else {
                    self.once_moved(status)
                }
            },
            (SendStage::CountFifo(status), Reply::Word(word)) => if self.can_move(
                (Status { bits: word }).fifo_count(),
            ) {
                self.at(SendStage::MoveWord(status))
            } else {
                self.once_moved(status)
            },
            (SendStage::MoveWord(status), Reply::Fifo(word)) => match self.xfer {
                Some(DataXfer::Read(buf)) => SendCmd {
                    xfer: Some(
                        DataXfer::Read(
                            overlay(
                                buf,
                                self.offset as int,
                                vstd::bytes::spec_u64_to_le_bytes(word),
                            ),
                        ),
                    ),
                    offset: (self.offset + 8) as usize,
                    stage: SendStage::CountFifo(status),
                    ..self
                },
                _ => self,
            },
            (SendStage::MoveWord(status), Reply::Done) => match self.xfer {
                Some(DataXfer::Write(_)) => SendCmd {
                    offset: (self.offset + 8) as usize,
                    stage: SendStage::CountFifo(status),
                    ..self
                },
                _ => self,
            },
            (SendStage::ReadResponse, Reply::Response(resp)) => self.at(
                SendStage::ReadStatus(resp),
            ),
            (SendStage::ReadStatus(resp), Reply::Word(word)) => self.at(
                SendStage::ClearStatus(resp, RIntSts { bits: word }),
            ),
            (SendStage::ClearStatus(resp, status), Reply::Done) => self.at(
                SendStage::Finished(
                    if status.error() {
                        None
                    } else {
                        Some(resp)
                    },
                ),
            ),
            _ => self,
        }
    }
}

/// Stores `word` in little-endian order at `offset`.
fn store_word(buf: &mut Vec<u8>, offset: usize, word: u64)
    requires
        offset + 8 <= old(buf)@.len(),
    ensures
        final(buf)@ == overlay(
            old(buf)@,
            offset as int,
            vstd::bytes::spec_u64_to_le_bytes(word),
        ),
{
    let bytes = vstd::bytes::u64_to_le_bytes(word);
    let mut i: usize = 0;
    while i < 8
        invariant
            i <= 8,
            bytes@.len() == 8,
            offset + 8 <= old(buf)@.len(),
            buf@ == overlay(old(buf)@, offset as int, bytes@.take(i as int)),
        decreases 8 - i,
    {
        assert(buf.len() == buf@.len());
        buf.set(offset + i, bytes[i]);
        i += 1;
    }
    assert(bytes@.take(8) == bytes@);
}

/// Loads the little-endian number at `offset`.
fn load_word(buf: &Vec<u8>, offset: usize) -> (word: u64)
    requires
        offset + 8 <= buf@.len(),
    ensures
        word == word_at(buf@, offset as int),
{
    assert(buf.len() == buf@.len());
    vstd::bytes::u64_from_le_bytes(
        vstd::slice::slice_subrange(buf.as_slice(), offset, offset + 8),
    )
}

impl SendCmd<Vec<u8>> {
    /// Starts sending `command`.
    pub fn new(command: Command<Vec<u8>>) -> (op: Self)
        requires
            sendable(command@),
        ensures
            op@ == SendCmd::begin(command@),
            op@.wf(),
    {
        let (cmd, arg, xfer) = command.build();
        SendCmd { cmd, arg, xfer, offset: 0, stage: SendStage::AwaitIdle(0) }
    }

    /// The outside work that is due.
    pub fn request(&self) -> (request: Request)
        requires
            self@.wf(),
        ensures
            request == self@.asks(),
    {
        match self.stage {
            SendStage::AwaitIdle(n) | SendStage::AwaitTaken(n) => poll(Reg::Cmd, n > 0),
            SendStage::AwaitData(again) => poll(Reg::Status, again),
            SendStage::WriteArg => Request::Write(Reg::Cmdarg, self.arg),
            SendStage::WriteCmd => Request::Write(Reg::Cmd, self.cmd.bits),
            SendStage::AwaitResponse(n) => poll(Reg::Rintsts, n > 0),
            SendStage::PollData(again) => poll(Reg::Rintsts, again),
            SendStage::CountFifo(_) => Request::Read(Reg::Status),
            SendStage::MoveWord(_) => match &self.xfer {
                Some(DataXfer::Write(buf)) => Request::WriteFifo(load_word(buf, self.offset)),
                _ => Request::ReadFifo,
            },
            SendStage::ReadResponse => Request::ReadResponse,
            SendStage::ReadStatus(_) => Request::Read(Reg::Rintsts),
            SendStage::ClearStatus(_, status) => Request::Write(Reg::Rintsts, status.bits),
            SendStage::Finished(_) => Request::Finished,
        }
    }

    /// Takes in the reply to the outstanding request.
    pub fn step(&mut self, reply: Reply)
        requires
            old(self)@.wf(),
        ensures
            final(self)@ == old(self)@.hears(reply),
            final(self)@.wf(),
    {
        match (self.stage, reply) {
            (SendStage::AwaitIdle(n), Reply::Word(word)) => {
                if !(Cmd { bits: word }).start_cmd() || n >= MAX_WAIT {
                    self.stage =
                    if self.cmd.data_expected() {
                        SendStage::AwaitData(false)
                    } else {
                        SendStage::WriteArg
                    };
                } else {
                    self.stage = SendStage::AwaitIdle(n + 1);
                }
            },
            (SendStage::AwaitData(_), Reply::Word(word)) => {
                self.stage =
                if (Status { bits: word }).data_busy() {
                    SendStage::AwaitData(true)
                } else {
                    SendStage::WriteArg
                };
            },
            (SendStage::WriteArg, Reply::Done) => {
                self.stage = SendStage::WriteCmd;
            },
            (SendStage::WriteCmd, Reply::Done) => {
                self.stage = SendStage::AwaitTaken(0);
            },
            (SendStage::AwaitTaken(n), Reply::Word(word)) => {
                if !(Cmd { bits: word }).start_cmd() || n >= MAX_WAIT {
                    if self.cmd.response_expect() {
                        self.stage = SendStage::AwaitResponse(0);
                    } else {
                        self.enter_data_phase();
                    }
                } else {
                    self.stage = SendStage::AwaitTaken(n + 1);
                }
            },
            (SendStage::AwaitResponse(n), Reply::Word(word)) => {
                if (RIntSts { bits: word }).command_done() || n >= MAX_WAIT {
                    self.enter_data_phase();
                } else {
                    self.stage = SendStage::AwaitResponse(n + 1);
                }
            },
            (SendStage::PollData(_), Reply::Word(word)) => {
                let status = RIntSts { bits: word };
                let wanted = match &self.xfer {
                    Some(DataXfer::Read(_)) => status.receive_fifo_data_request(),
                    Some(DataXfer::Write(_)) => status.transmit_fifo_data_request(),
                    None => false,
                };
                if wanted {
                    self.stage = SendStage::CountFifo(status);
                } else {
                    self.pause_data_phase(status);
                }
            },
            (SendStage::CountFifo(status), Reply::Word(word)) => {
                let count: u32 = (Status { bits: word }).fifo_count();
                let possible = match &self.xfer {
                    Some(DataXfer::Read(buf)) => count >= 2 && self.offset < buf.len(),
                    Some(DataXfer::Write(buf)) => count < 120 && self.offset < buf.len(),
                    None => false,
                };
                if possible {
                    self.stage = SendStage::MoveWord(status);
                } else {
                    self.pause_data_phase(status);
                }
            },
            (SendStage::MoveWord(status), Reply::Fifo(word)) => {
                if let Some(DataXfer::Read(buf)) = &mut self.xfer {
                    store_word(buf, self.offset, word);
                    self.offset = self.offset + 8;
                    self.stage = SendStage::CountFifo(status);
                }
            },
            (SendStage::MoveWord(status), Reply::Done) => {
                if let Some(DataXfer::Write(_)) = &self.xfer {
                    self.offset = self.offset + 8;
                    self.stage = SendStage::CountFifo(status);
                }
            },
            (SendStage::ReadResponse, Reply::Response(resp)) => {
                self.stage = SendStage::ReadStatus(resp);
            },
            (SendStage::ReadStatus(resp), Reply::Word(word)) => {
                self.stage = SendStage::ClearStatus(resp, RIntSts { bits: word });
            },
            (SendStage::ClearStatus(resp, status), Reply::Done) => {
                self.stage =
                SendStage::Finished(
                    if status.error() {
                        None
                    } else {
                        Some(resp)
                    },
                );
            },
            _ => {},
        }
    }

    /// The command phase is over.
    fn enter_data_phase(&mut self)
        requires
            old(self)@.wf(),
            old(self)@.offset == 0,
        ensures
            final(self)@ == old(self)@.once_answered(),
            final(self)@.wf(),
    {
        self.stage =
        match &self.xfer {
            Some(_) => SendStage::PollData(false),
            None => SendStage::ReadResponse,
        };
    }

    /// No more can be moved for now.
    fn pause_data_phase(&mut self, status: RIntSts)
        requires
            old(self)@.wf(),
            old(self)@.xfer is Some,
        ensures
            final(self)@ == old(self)@.once_moved(status),
            final(self)@.wf(),
    {
        let full = match &self.xfer {
            Some(DataXfer::Read(buf)) => self.offset >= buf.len(),
            _ => false,
        };
        self.stage =
        if status.data_transfer_over() || status.error() || full {
            SendStage::ReadResponse
        } else {
            SendStage::PollData(true)
        };
    }

    /// The outcome once the command is over: the response, or nothing where the
    /// controller recorded an error.
    pub fn outcome(&self) -> (r: Option<Option<[u32; 4]>>)
        ensures
            r == self@.result(),
    {
        match self.stage {
            SendStage::Finished(resp) => Some(resp),
            _ => None,
        }
    }

    /// Gives the data buffer back.
    pub fn into_data(self) -> (data: Option<Vec<u8>>)
        ensures
            self@.xfer is None <==> data is None,
            self@.xfer matches Some(xfer) ==> data matches Some(buf) && buf@ == xfer.bytes(),
    {
        match self.xfer {
            Some(DataXfer::Read(buf)) => Some(buf),
            Some(DataXfer::Write(buf)) => Some(buf),
            None => None,
        }
    }
}

} // verus!
