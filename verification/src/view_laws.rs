//! The models of operations hold all that the operations hold, as it is.
use vstd::prelude::*;

use crate::block::{BlockOp, Route};
use crate::cmd::{Command, DataXfer};
use crate::init::Init;
use crate::sdmmc::NewSdMmc;
use crate::send::SendCmd;

verus! {

/// The model of data holds its bytes in their order, and its direction.
pub proof fn model_of_data(xfer: DataXfer<Vec<u8>>)
    ensures
        xfer matches DataXfer::Read(buf) ==> xfer@ == DataXfer::Read(buf@) && xfer@.bytes() == buf@,
        xfer matches DataXfer::Write(buf) ==> xfer@ == DataXfer::Write(buf@) && xfer@.bytes()
            == buf@,
{
}

/// The model of a command is that command with the bytes of its data.
pub proof fn model_of_command(command: Command<Vec<u8>>)
    ensures
        command matches Command::ReadSingleBlock(block, buf) ==> command@
            == Command::ReadSingleBlock(block, buf@),
        command matches Command::WriteSingleBlock(block, buf) ==> command@
            == Command::WriteSingleBlock(block, buf@),
        command matches Command::SendScr(buf) ==> command@ == Command::SendScr(buf@),
        command is ResetClock ==> command@ is ResetClock,
        command is GoIdleState ==> command@ is GoIdleState,
        command is AllSendCid ==> command@ is AllSendCid,
        command is SendRelativeAddr ==> command@ is SendRelativeAddr,
        command matches Command::SelectCard(arg) ==> command@ == Command::<Seq<u8>>::SelectCard(arg),
        command matches Command::SendIfCond(arg) ==> command@ == Command::<Seq<u8>>::SendIfCond(arg),
        command matches Command::SendCsd(arg) ==> command@ == Command::<Seq<u8>>::SendCsd(arg),
        command matches Command::SdSendOpCond(arg) ==> command@
            == Command::<Seq<u8>>::SdSendOpCond(arg),
        command matches Command::AppCmd(arg) ==> command@ == Command::<Seq<u8>>::AppCmd(arg),
        command@.word() == command.word(),
        command@.arg() == command.arg(),
{
}

/// The model of a command on its way.
pub proof fn model_of_send(op: SendCmd<Vec<u8>>)
    ensures
        op@.cmd == op.cmd && op@.arg == op.arg && op@.offset == op.offset && op@.stage == op.stage,
        op@.xfer == match op.xfer {
            Some(DataXfer::Read(buf)) => Some(DataXfer::Read(buf@)),
            Some(DataXfer::Write(buf)) => Some(DataXfer::Write(buf@)),
            None => None,
        },
{
}

/// The model of a bring-up.
pub proof fn model_of_init(op: Init<Vec<u8>>)
    ensures
        op@.num_blocks == op.num_blocks && op@.attempts == op.attempts && op@.rca == op.rca,
        op@.command == op.command@ && op@.stage == op.stage,
{
}

/// The model of a block transfer.
pub proof fn model_of_block(op: BlockOp<Vec<u8>>)
    ensures
        op@.write == op.write && op@.data == op.data && op@.stage == op.stage,
        op@.route == match op.route {
            Route::Pio(command) => Route::Pio(command@),
            Route::Dma(memory, command) => Route::Dma(memory, command),
        },
{
}

/// The model of a setup.
pub proof fn model_of_setup(op: NewSdMmc<Vec<u8>>)
    ensures
        op@.base == op.base && op@.ahb_data_width == op.ahb_data_width && op@.stage == op.stage,
        op@.init == op.init@ && op@.enable == op.enable,
{
}

} // verus!
