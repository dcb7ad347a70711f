//! Commands of the SD card protocol and their encoding for the controller.
use vstd::prelude::*;

use crate::bits::{bit, test_bit};

verus! {

/// Set to start the command; the controller clears it once it has taken it.
pub const START_CMD: u32 = 0x8000_0000;

/// Send through the hold register.
pub const USE_HOLD_REG: u32 = 0x2000_0000;

/// Nothing goes to the card, only the clock settings are taken over.
pub const UPDATE_CLOCK_ONLY: u32 = 0x0020_0000;

/// Send the initialisation sequence first.
pub const SEND_INITIALIZATION: u32 = 0x8000;

/// Wait for the end of the previous data transfer.
pub const WAIT_PRVDATA: u32 = 0x2000;

/// Data flows to the card.
pub const WRITE_DATA: u32 = 0x400;

/// The command moves data.
pub const DATA_EXPECTED: u32 = 0x200;

/// Check the response's CRC.
pub const CHECK_CRC: u32 = 0x100;

/// The response has 136 bits.
pub const LONG_RESPONSE: u32 = 0x80;

/// The card responds.
pub const RESPONSE_EXPECT: u32 = 0x40;

/// Flags common to all commands that reach the card.
pub const TO_CARD: u32 = START_CMD | USE_HOLD_REG | WAIT_PRVDATA;

/// A 48-bit response that carries a CRC.
pub const SHORT_RESPONSE: u32 = RESPONSE_EXPECT | CHECK_CRC;

/// The command register.
#[derive(Clone, Copy, Debug, PartialEq, Eq, Structural)]
pub struct Cmd {
    pub bits: u32,
}

impl Cmd {
    /// Whether the controller has yet to take the command.
    #[verifier::allow_in_spec]
    pub fn start_cmd(&self) -> bool
        returns
            bit(self.bits, 31),
    {
        test_bit(self.bits, 31)
    }

    /// Whether the command moves data.
    #[verifier::allow_in_spec]
    pub fn data_expected(&self) -> bool
        returns
            bit(self.bits, 9),
    {
        test_bit(self.bits, 9)
    }

    /// Whether the card responds to the command.
    #[verifier::allow_in_spec]
    pub fn response_expect(&self) -> bool
        returns
            bit(self.bits, 6),
    {
        test_bit(self.bits, 6)
    }

    /// The command's number.
    #[verifier::allow_in_spec]
    pub fn cmd_index(&self) -> u32
        returns
            self.bits % 64,
    {
        self.bits % 64
    }
}

/// The data that goes with a command: where it is, and which way it flows.
#[derive(Debug)]
pub enum DataXfer<B> {
    /// From the card.
    Read(B),
    /// To the card.
    Write(B),
}

/// A command. `B` stands for the data buffer of those that move data.
#[derive(Debug)]
pub enum Command<B> {
    /// Take over the clock settings.
    ResetClock,
    /// CMD0: reset the card.
    GoIdleState,
    /// CMD2: ask for the card's identification.
    AllSendCid,
    /// CMD3: ask for the card's address.
    SendRelativeAddr,
    /// CMD7: select the card.
    SelectCard(u32),
    /// CMD8: offer a supply voltage.
    SendIfCond(u32),
    /// CMD9: ask for the card-specific data.
    SendCsd(u32),
    /// CMD17: read one block.
    ReadSingleBlock(u32, B),
    /// CMD24: write one block.
    WriteSingleBlock(u32, B),
    /// ACMD41: ask whether the card is ready.
    SdSendOpCond(u32),
    /// ACMD51: read the configuration register.
    SendScr(B),
    /// CMD55: the next command is application specific.
    AppCmd(u32),
}

impl<B> Command<B> {
    /// The word for the command register.
    #[verifier::allow_in_spec]
    pub fn word(&self) -> Cmd
        returns
            (Cmd {
                bits: match self {
                    Command::ResetClock => START_CMD | WAIT_PRVDATA | UPDATE_CLOCK_ONLY,
                    Command::GoIdleState => TO_CARD | SEND_INITIALIZATION,
                    Command::AllSendCid => TO_CARD | SHORT_RESPONSE | LONG_RESPONSE | 2,
                    Command::SendRelativeAddr => TO_CARD | SHORT_RESPONSE | 3,
                    Command::SelectCard(_) => TO_CARD | SHORT_RESPONSE | 7,
                    Command::SendIfCond(_) => TO_CARD | SHORT_RESPONSE | 8,
                    Command::SendCsd(_) => TO_CARD | SHORT_RESPONSE | LONG_RESPONSE | 9,
                    Command::ReadSingleBlock(_, _) => TO_CARD | SHORT_RESPONSE | DATA_EXPECTED | 17,
                    Command::WriteSingleBlock(_, _) => TO_CARD | SHORT_RESPONSE | DATA_EXPECTED
                        | WRITE_DATA | 24,
                    Command::SdSendOpCond(_) => TO_CARD | RESPONSE_EXPECT | 41,
                    Command::SendScr(_) => TO_CARD | SHORT_RESPONSE | DATA_EXPECTED | 51,
                    Command::AppCmd(_) => TO_CARD | SHORT_RESPONSE | 55,
                },
            }),
    {
        let bits: u32 = match self {
            Command::ResetClock => START_CMD | WAIT_PRVDATA | UPDATE_CLOCK_ONLY,
            Command::GoIdleState => TO_CARD | SEND_INITIALIZATION,
            Command::AllSendCid => TO_CARD | SHORT_RESPONSE | LONG_RESPONSE | 2,
            Command::SendRelativeAddr => TO_CARD | SHORT_RESPONSE | 3,
            Command::SelectCard(_) => TO_CARD | SHORT_RESPONSE | 7,
            Command::SendIfCond(_) => TO_CARD | SHORT_RESPONSE | 8,
            Command::SendCsd(_) => TO_CARD | SHORT_RESPONSE | LONG_RESPONSE | 9,
            Command::ReadSingleBlock(_, _) => TO_CARD | SHORT_RESPONSE | DATA_EXPECTED | 17,
            Command::WriteSingleBlock(_, _) => TO_CARD | SHORT_RESPONSE | DATA_EXPECTED | WRITE_DATA
                | 24,
            Command::SdSendOpCond(_) => TO_CARD | RESPONSE_EXPECT | 41,
            Command::SendScr(_) => TO_CARD | SHORT_RESPONSE | DATA_EXPECTED | 51,
            Command::AppCmd(_) => TO_CARD | SHORT_RESPONSE | 55,
        };
        Cmd { bits }
    }

    /// The word for the argument register.
    #[verifier::allow_in_spec]
    pub fn arg(&self) -> u32
        returns
            (match self {
                Command::SelectCard(arg) | Command::SendIfCond(arg) | Command::SendCsd(arg)
                | Command::SdSendOpCond(arg) | Command::AppCmd(arg) => *arg,
                Command::ReadSingleBlock(block, _) | Command::WriteSingleBlock(block, _) => *block,
                _ => 0,
            }),
    {
        match self {
            Command::SelectCard(arg) | Command::SendIfCond(arg) | Command::SendCsd(arg)
            | Command::SdSendOpCond(arg) | Command::AppCmd(arg) => *arg,
            Command::ReadSingleBlock(block, _) | Command::WriteSingleBlock(block, _) => *block,
            _ => 0,
        }
    }

    /// The data that goes with the command.
    pub open spec fn xfer(self) -> Option<DataXfer<B>> {
        match self {
            Command::ReadSingleBlock(_, buf) | Command::SendScr(buf) => Some(DataXfer::Read(buf)),
            Command::WriteSingleBlock(_, buf) => Some(DataXfer::Write(buf)),
            _ => None,
        }
    }

    /// Command word, argument and data of the command.
    pub fn build(self) -> (r: (Cmd, u32, Option<DataXfer<B>>))
        ensures
            r.0 == self.word(),
            r.1 == self.arg(),
            r.2 == self.xfer(),
            r.0.data_expected() == (r.2 is Some),
    {
        proof {
            command_word_fields(self);
        }
        let cmd = self.word();
        let arg: u32 = self.arg();
        let xfer = match self {
            Command::ReadSingleBlock(_, buf) | Command::SendScr(buf) => Some(DataXfer::Read(buf)),
            Command::WriteSingleBlock(_, buf) => Some(DataXfer::Write(buf)),
            _ => None,
        };
        (cmd, arg, xfer)
    }
}

/// Every command word starts a command and says truly whether data follows;
/// all commands but a clock update and a reset are answered.
pub proof fn command_word_fields<B>(command: Command<B>)
    ensures
        command.word().start_cmd(),
        command.word().data_expected() == (command.xfer() is Some),
        command.word().response_expect() == !(command is ResetClock || command is GoIdleState),
        command.word().cmd_index() == match command {
            Command::ResetClock | Command::GoIdleState => 0u32,
            Command::AllSendCid => 2,
            Command::SendRelativeAddr => 3,
            Command::SelectCard(_) => 7,
            Command::SendIfCond(_) => 8,
            Command::SendCsd(_) => 9,
            Command::ReadSingleBlock(_, _) => 17,
            Command::WriteSingleBlock(_, _) => 24,
            Command::SdSendOpCond(_) => 41,
            Command::SendScr(_) => 51,
            Command::AppCmd(_) => 55,
        },
{
    assert({
        &&& (START_CMD | WAIT_PRVDATA | UPDATE_CLOCK_ONLY) == 0x8020_2000u32
        &&& (TO_CARD | SEND_INITIALIZATION) == 0xa000_a000u32
        &&& (TO_CARD | SHORT_RESPONSE | LONG_RESPONSE | 2) == 0xa000_21c2u32
        &&& (TO_CARD | SHORT_RESPONSE | 3) == 0xa000_2143u32
        &&& (TO_CARD | SHORT_RESPONSE | 7) == 0xa000_2147u32
        &&& (TO_CARD | SHORT_RESPONSE | 8) == 0xa000_2148u32
        &&& (TO_CARD | SHORT_RESPONSE | LONG_RESPONSE | 9) == 0xa000_21c9u32
        &&& (TO_CARD | SHORT_RESPONSE | DATA_EXPECTED | 17) == 0xa000_2351u32
        &&& (TO_CARD | SHORT_RESPONSE | DATA_EXPECTED | WRITE_DATA | 24) == 0xa000_2758u32
        &&& (TO_CARD | RESPONSE_EXPECT | 41) == 0xa000_2069u32
        &&& (TO_CARD | SHORT_RESPONSE | DATA_EXPECTED | 51) == 0xa000_2373u32
        &&& (TO_CARD | SHORT_RESPONSE | 55) == 0xa000_2177u32
    }) by (bit_vector);
    assert({
        &&& bit(0x8020_2000u32, 31)
        &&& !bit(0x8020_2000u32, 9)
        &&& !bit(0x8020_2000u32, 6)
        &&& bit(0xa000_a000u32, 31)
        &&& !bit(0xa000_a000u32, 9)
        &&& !bit(0xa000_a000u32, 6)
        &&& bit(0xa000_21c2u32, 31)
        &&& !bit(0xa000_21c2u32, 9)
        &&& bit(0xa000_21c2u32, 6)
        &&& bit(0xa000_2143u32, 31)
        &&& !bit(0xa000_2143u32, 9)
        &&& bit(0xa000_2143u32, 6)
        &&& bit(0xa000_2147u32, 31)
        &&& !bit(0xa000_2147u32, 9)
        &&& bit(0xa000_2147u32, 6)
        &&& bit(0xa000_2148u32, 31)
        &&& !bit(0xa000_2148u32, 9)
        &&& bit(0xa000_2148u32, 6)
        &&& bit(0xa000_21c9u32, 31)
        &&& !bit(0xa000_21c9u32, 9)
        &&& bit(0xa000_21c9u32, 6)
        &&& bit(0xa000_2351u32, 31)
        &&& bit(0xa000_2351u32, 9)
        &&& bit(0xa000_2351u32, 6)
        &&& bit(0xa000_2758u32, 31)
        &&& bit(0xa000_2758u32, 9)
        &&& bit(0xa000_2758u32, 6)
        &&& bit(0xa000_2069u32, 31)
        &&& !bit(0xa000_2069u32, 9)
        &&& bit(0xa000_2069u32, 6)
        &&& bit(0xa000_2373u32, 31)
        &&& bit(0xa000_2373u32, 9)
        &&& bit(0xa000_2373u32, 6)
        &&& bit(0xa000_2177u32, 31)
        &&& !bit(0xa000_2177u32, 9)
        &&& bit(0xa000_2177u32, 6)
    }) by (bit_vector);
}

} // verus!
