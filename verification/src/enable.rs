//! Switching the controller over to its internal DMA controller.
use vstd::prelude::*;

use crate::bus::{poll, MemLayout, Protocol, Reply, Request};
use crate::dma::{DMABuffer, DMAInfo};
use crate::regs::{BMod, Ctrl, IdIntEn, IntMask, Reg};

verus! {

/// Why DMA mode could not be entered.
#[derive(Clone, Copy, Debug, PartialEq, Eq, Structural)]
pub enum EnableError {
    /// There was no coherent memory.
    NoMemory,
    /// The bus mode register did not take the settings.
    BmodRejected,
    /// The control register did not take the settings.
    CtrlRejected,
    /// The IDMAC interrupts could not be enabled.
    IdintenRejected,
    /// The end of a transfer could not be unmasked.
    IntmaskRejected,
    /// The interrupt handler could not be registered.
    IrqRefused,
}

impl EnableError {
    /// A description for people.
    pub fn message(&self) -> (text: &'static str)
        ensures
            text@ == match self {
                EnableError::NoMemory => "Failed to allocate coherent DMA memory"@,
                EnableError::BmodRejected => "Hardware verification failed: BMOD de/fb not set"@,
                EnableError::CtrlRejected => {
                    "Hardware verification failed: CTRL use_internal_dmac/int_enable not set"@
                },
                EnableError::IdintenRejected => {
                    "Hardware verification failed: IDINTEN flags not matching"@
                },
                EnableError::IntmaskRejected => "Hardware verification failed: INTMASK dto not set"@,
                EnableError::IrqRefused => "Failed to register IRQ"@,
            },
    {
        match self {
            EnableError::NoMemory => "Failed to allocate coherent DMA memory",
            EnableError::BmodRejected => "Hardware verification failed: BMOD de/fb not set",
            EnableError::CtrlRejected => {
                "Hardware verification failed: CTRL use_internal_dmac/int_enable not set"
            },
            EnableError::IdintenRejected => {
                "Hardware verification failed: IDINTEN flags not matching"
            },
            EnableError::IntmaskRejected => "Hardware verification failed: INTMASK dto not set",
            EnableError::IrqRefused => "Failed to register IRQ",
        }
    }
}

/// Where the switch stands.
#[derive(Clone, Copy, Debug)]
pub enum EnableStage {
    /// About to get memory for the data buffer.
    Allocate,
    /// About to acknowledge old interrupts.
    ReadStatus,
    ClearStatus(u32),
    ReadIdsts,
    ClearIdsts(u32),
    /// About to enable the IDMAC with fixed bursts, and to see whether it is.
    ReadBmod,
    WriteBmod(BMod),
    CheckBmod,
    /// About to enable DMA and interrupts, and to see whether they are.
    ReadCtrl,
    WriteCtrl(Ctrl),
    CheckCtrl,
    /// About to enable the IDMAC's interrupts, and to see whether they are.
    WriteIdinten,
    CheckIdinten,
    /// About to unmask the end of a transfer, and to see whether it is.
    ReadIntmask,
    WriteIntmask(IntMask),
    CheckIntmask,
    /// About to register the interrupt handler.
    Register,
    /// Something failed after there was memory: about to give it back.
    Free(EnableError),
    /// Something failed: about to disable and reset the IDMAC, and waiting until
    /// that is done.
    UndoReadBmod(EnableError),
    UndoWriteBmod(EnableError, BMod),
    AwaitBmod(EnableError, bool),
    /// About to leave DMA mode and reset the DMA interface, and waiting until
    /// that is done.
    UndoReadCtrl(EnableError),
    UndoWriteCtrl(EnableError, Ctrl),
    AwaitCtrl(EnableError, bool),
    /// About to disable the IDMAC's interrupts.
    UndoIdinten(EnableError),
    /// Over.
    Finished(Result<(), EnableError>),
}

/// The switch to DMA mode under way.
#[derive(Clone, Copy, Debug)]
pub struct TryEnableIdmac {
    /// Size and alignment of the data buffer.
    pub layout: MemLayout,
    /// Memory of the data buffer, once there is some.
    pub memory: DMAInfo,
    /// The data buffer that the driver has.
    pub buffer: Option<DMABuffer>,
    pub stage: EnableStage,
}

/// All interrupts that a transfer by the IDMAC raises.
#[verifier::allow_in_spec]
pub fn idmac_interrupts() -> IdIntEn
    returns
        IdIntEn::new().with_ni(true).with_ai(true).with_ti(true).with_ri(true).with_fbe(
            true,
        ).with_du(true).with_ces(true),
{
    IdIntEn::new().with_ni(true).with_ai(true).with_ti(true).with_ri(true).with_fbe(true).with_du(
        true,
    ).with_ces(true)
}

/// Whether all of those interrupts are enabled.
#[verifier::allow_in_spec]
pub fn interrupts_enabled(idinten: IdIntEn) -> bool
    returns
        idinten.ni() && idinten.ai() && idinten.ti() && idinten.ri() && idinten.fbe()
            && idinten.du() && idinten.ces(),
{
    idinten.ni() && idinten.ai() && idinten.ti() && idinten.ri() && idinten.fbe() && idinten.du()
        && idinten.ces()
}

impl TryEnableIdmac {
    /// A switch about to begin, for a driver that has `buffer`.
    pub open spec fn begin(layout: MemLayout, buffer: Option<DMABuffer>) -> Self {
        TryEnableIdmac {
            layout,
            memory: DMAInfo { cpu_addr: 0, bus_addr: 0 },
            buffer,
            stage: EnableStage::Allocate,
        }
    }

    /// The switch moved on to `stage`.
    #[verifier::allow_in_spec]
    pub fn at(self, stage: EnableStage) -> Self
        returns
            (TryEnableIdmac { stage, ..self }),
    {
        TryEnableIdmac { stage, ..self }
    }

    /// The outcome, once there is one.
    pub open spec fn result(self) -> Option<Result<(), EnableError>> {
        match self.stage {
            EnableStage::Finished(outcome) => Some(outcome),
            _ => None,
        }
    }
}

impl Protocol for TryEnableIdmac {
    open spec fn asks(self) -> Request {
        match self.stage {
            EnableStage::Allocate => Request::AllocCoherent(self.layout),
            EnableStage::ReadStatus => Request::Read(Reg::Rintsts),
            EnableStage::ClearStatus(word) => Request::Write(Reg::Rintsts, word),
            EnableStage::ReadIdsts => Request::Read(Reg::Idsts),
            EnableStage::ClearIdsts(word) => Request::Write(Reg::Idsts, word),
            EnableStage::ReadBmod | EnableStage::CheckBmod => Request::Read(Reg::Bmod),
            EnableStage::WriteBmod(bmod) => Request::Write(Reg::Bmod, bmod.bits),
            EnableStage::ReadCtrl | EnableStage::CheckCtrl => Request::Read(Reg::Ctrl),
            EnableStage::WriteCtrl(ctrl) => Request::Write(Reg::Ctrl, ctrl.bits),
            EnableStage::WriteIdinten => Request::Write(Reg::Idinten, idmac_interrupts().bits),
            EnableStage::CheckIdinten => Request::Read(Reg::Idinten),
            EnableStage::ReadIntmask | EnableStage::CheckIntmask => Request::Read(Reg::Intmask),
            EnableStage::WriteIntmask(mask) => Request::Write(Reg::Intmask, mask.bits),
            EnableStage::Register => Request::RegisterIrq,
            EnableStage::Free(_) => Request::DeallocCoherent(self.memory, self.layout),
            EnableStage::UndoReadBmod(_) => Request::Read(Reg::Bmod),
            EnableStage::UndoWriteBmod(_, bmod) => Request::Write(Reg::Bmod, bmod.bits),
            EnableStage::AwaitBmod(_, again) => poll(Reg::Bmod, again),
            EnableStage::UndoReadCtrl(_) => Request::Read(Reg::Ctrl),
            EnableStage::UndoWriteCtrl(_, ctrl) => Request::Write(Reg::Ctrl, ctrl.bits),
            EnableStage::AwaitCtrl(_, again) => poll(Reg::Ctrl, again),
            EnableStage::UndoIdinten(_) => Request::Write(Reg::Idinten, 0),
            EnableStage::Finished(_) => Request::Finished,
        }
    }

    open spec fn hears(self, reply: Reply) -> Self {
        match (self.stage, reply) {
            (EnableStage::Allocate, Reply::Allocated(Some(memory))) => TryEnableIdmac {
                memory,
                stage: EnableStage::ReadStatus,
                ..self
            },
            (EnableStage::Allocate, Reply::Allocated(None)) => self.at(
                EnableStage::UndoReadBmod(EnableError::NoMemory),
            ),
            (EnableStage::ReadStatus, Reply::Word(word)) => self.at(EnableStage::ClearStatus(word)),
            (EnableStage::ClearStatus(_), Reply::Done) => self.at(EnableStage::ReadIdsts),
            (EnableStage::ReadIdsts, Reply::Word(word)) => self.at(EnableStage::ClearIdsts(word)),
            (EnableStage::ClearIdsts(_), Reply::Done) => self.at(EnableStage::ReadBmod),
            (EnableStage::ReadBmod, Reply::Word(word)) => self.at(
                EnableStage::WriteBmod((BMod { bits: word }).with_de(true).with_fb(true)),
            ),
            (EnableStage::WriteBmod(_), Reply::Done) => self.at(EnableStage::CheckBmod),
            (EnableStage::CheckBmod, Reply::Word(word)) => if (BMod { bits: word }).de() && (BMod {
                bits: word,
            }).fb() {
                self.at(EnableStage::ReadCtrl)
            } else {
                self.at(EnableStage::Free(EnableError::BmodRejected))
            },
            (EnableStage::ReadCtrl, Reply::Word(word)) => self.at(
                EnableStage::WriteCtrl(
                    (Ctrl { bits: word }).with_use_internal_dmac(true).with_int_enable(true),
                ),
            ),
            (EnableStage::WriteCtrl(_), Reply::Done) => self.at(EnableStage::CheckCtrl),
            (EnableStage::CheckCtrl, Reply::Word(word)) => if (Ctrl {
                bits: word,
            }).use_internal_dmac() && (Ctrl { bits: word }).int_enable() {
                self.at(EnableStage::WriteIdinten)
            } else {
                self.at(EnableStage::Free(EnableError::CtrlRejected))
            },
            (EnableStage::WriteIdinten, Reply::Done) => self.at(EnableStage::CheckIdinten),
            (EnableStage::CheckIdinten, Reply::Word(word)) => if interrupts_enabled(
                IdIntEn { bits: word },
            ) {
                self.at(EnableStage::ReadIntmask)
            } else {
                self.at(EnableStage::Free(EnableError::IdintenRejected))
            },
            (EnableStage::ReadIntmask, Reply::Word(word)) => self.at(
                EnableStage::WriteIntmask((IntMask { bits: word }).with_dto(true)),
            ),
            (EnableStage::WriteIntmask(_), Reply::Done) => self.at(EnableStage::CheckIntmask),
            (EnableStage::CheckIntmask, Reply::Word(word)) => if (IntMask { bits: word }).dto() {
                self.at(EnableStage::Register)
            } else {
                self.at(EnableStage::Free(EnableError::IntmaskRejected))
            },
            (EnableStage::Register, Reply::Registered(true)) => TryEnableIdmac {
                buffer: Some(DMABuffer { addr: self.memory, size: self.layout.size }),
                stage: EnableStage::Finished(Ok(())),
                ..self
            },
            (EnableStage::Register, Reply::Registered(false)) => self.at(
                EnableStage::Free(EnableError::IrqRefused),
            ),
            (EnableStage::Free(error), Reply::Done) => self.at(EnableStage::UndoReadBmod(error)),
            (EnableStage::UndoReadBmod(error), Reply::Word(word)) => self.at(
                EnableStage::UndoWriteBmod(
                    error,
                    (BMod { bits: word }).with_de(false).with_swr(true),
                ),
            ),
            (EnableStage::UndoWriteBmod(error, _), Reply::Done) => self.at(
                EnableStage::AwaitBmod(error, false),
            ),
            (EnableStage::AwaitBmod(error, _), Reply::Word(word)) => if (BMod {
                bits: word,
            }).swr() {
                self.at(EnableStage::AwaitBmod(error, true))
            } else {
                self.at(EnableStage::UndoReadCtrl(error))
            },
            (EnableStage::UndoReadCtrl(error), Reply::Word(word)) => self.at(
                EnableStage::UndoWriteCtrl(
                    error,
                    (Ctrl { bits: word }).with_use_internal_dmac(false).with_dma_reset(true),
                ),
            ),
            (EnableStage::UndoWriteCtrl(error, _), Reply::Done) => self.at(
                EnableStage::AwaitCtrl(error, false),
            ),
            (EnableStage::AwaitCtrl(error, _), Reply::Word(word)) => if (Ctrl {
                bits: word,
            }).dma_reset() {
                self.at(EnableStage::AwaitCtrl(error, true))
            } else {
                self.at(EnableStage::UndoIdinten(error))
            },
            (EnableStage::UndoIdinten(error), Reply::Done) => TryEnableIdmac {
                buffer: None,
                stage: EnableStage::Finished(Err(error)),
                ..self
            },
            _ => self,
        }
    }
}

impl TryEnableIdmac {
    /// Starts the switch for a driver that has `buffer`.
    pub fn new(layout: MemLayout, buffer: Option<DMABuffer>) -> (op: Self)
        ensures
            op == TryEnableIdmac::begin(layout, buffer),
    {
        TryEnableIdmac {
            layout,
            memory: DMAInfo { cpu_addr: 0, bus_addr: 0 },
            buffer,
            stage: EnableStage::Allocate,
        }
    }

    /// The outside work that is due.
    pub fn request(&self) -> (request: Request)
        ensures
            request == self.asks(),
    {
        match self.stage {
            EnableStage::Allocate => Request::AllocCoherent(self.layout),
            EnableStage::ReadStatus => Request::Read(Reg::Rintsts),
            EnableStage::ClearStatus(word) => Request::Write(Reg::Rintsts, word),
            EnableStage::ReadIdsts => Request::Read(Reg::Idsts),
            EnableStage::ClearIdsts(word) => Request::Write(Reg::Idsts, word),
            EnableStage::ReadBmod | EnableStage::CheckBmod => Request::Read(Reg::Bmod),
            EnableStage::WriteBmod(bmod) => Request::Write(Reg::Bmod, bmod.bits),
            EnableStage::ReadCtrl | EnableStage::CheckCtrl => Request::Read(Reg::Ctrl),
            EnableStage::WriteCtrl(ctrl) => Request::Write(Reg::Ctrl, ctrl.bits),
            EnableStage::WriteIdinten => Request::Write(Reg::Idinten, idmac_interrupts().bits),
            EnableStage::CheckIdinten => Request::Read(Reg::Idinten),
            EnableStage::ReadIntmask | EnableStage::CheckIntmask => Request::Read(Reg::Intmask),
            EnableStage::WriteIntmask(mask) => Request::Write(Reg::Intmask, mask.bits),
            EnableStage::Register => Request::RegisterIrq,
            EnableStage::Free(_) => Request::DeallocCoherent(self.memory, self.layout),
            EnableStage::UndoReadBmod(_) => Request::Read(Reg::Bmod),
            EnableStage::UndoWriteBmod(_, bmod) => Request::Write(Reg::Bmod, bmod.bits),
            EnableStage::AwaitBmod(_, again) => poll(Reg::Bmod, again),
            EnableStage::UndoReadCtrl(_) => Request::Read(Reg::Ctrl),
            EnableStage::UndoWriteCtrl(_, ctrl) => Request::Write(Reg::Ctrl, ctrl.bits),
            EnableStage::AwaitCtrl(_, again) => poll(Reg::Ctrl, again),
            EnableStage::UndoIdinten(_) => Request::Write(Reg::Idinten, 0),
            EnableStage::Finished(_) => Request::Finished,
        }
    }

    /// Takes in the reply to the outstanding request.
    pub fn step(&mut self, reply: Reply)
        ensures
            *final(self) == old(self).hears(reply),
    {
        *self = match (self.stage, reply) {
            (EnableStage::Allocate, Reply::Allocated(Some(memory))) => TryEnableIdmac {
                memory,
                stage: EnableStage::ReadStatus,
                ..*self
            },
            (EnableStage::Allocate, Reply::Allocated(None)) => self.at(
                EnableStage::UndoReadBmod(EnableError::NoMemory),
            ),
            (EnableStage::ReadStatus, Reply::Word(word)) => self.at(EnableStage::ClearStatus(word)),
            (EnableStage::ClearStatus(_), Reply::Done) => self.at(EnableStage::ReadIdsts),
            (EnableStage::ReadIdsts, Reply::Word(word)) => self.at(EnableStage::ClearIdsts(word)),
            (EnableStage::ClearIdsts(_), Reply::Done) => self.at(EnableStage::ReadBmod),
            (EnableStage::ReadBmod, Reply::Word(word)) => self.at(
                EnableStage::WriteBmod((BMod { bits: word }).with_de(true).with_fb(true)),
            ),
            (EnableStage::WriteBmod(_), Reply::Done) => self.at(EnableStage::CheckBmod),
            (EnableStage::CheckBmod, Reply::Word(word)) => if (BMod { bits: word }).de() && (BMod {
                bits: word,
            }).fb() {
                self.at(EnableStage::ReadCtrl)
            } else {
                self.at(EnableStage::Free(EnableError::BmodRejected))
            },
            (EnableStage::ReadCtrl, Reply::Word(word)) => self.at(
                EnableStage::WriteCtrl(
                    (Ctrl { bits: word }).with_use_internal_dmac(true).with_int_enable(true),
                ),
            ),
            (EnableStage::WriteCtrl(_), Reply::Done) => self.at(EnableStage::CheckCtrl),
            (EnableStage::CheckCtrl, Reply::Word(word)) => if (Ctrl {
                bits: word,
            }).use_internal_dmac() && (Ctrl { bits: word }).int_enable() {
                self.at(EnableStage::WriteIdinten)
            } else {
                self.at(EnableStage::Free(EnableError::CtrlRejected))
            },
            (EnableStage::WriteIdinten, Reply::Done) => self.at(EnableStage::CheckIdinten),
            (EnableStage::CheckIdinten, Reply::Word(word)) => if interrupts_enabled(
                IdIntEn { bits: word },
            ) {
                self.at(EnableStage::ReadIntmask)
            } else {
                self.at(EnableStage::Free(EnableError::IdintenRejected))
            },
            (EnableStage::ReadIntmask, Reply::Word(word)) => self.at(
                EnableStage::WriteIntmask((IntMask { bits: word }).with_dto(true)),
            ),
            (EnableStage::WriteIntmask(_), Reply::Done) => self.at(EnableStage::CheckIntmask),
            (EnableStage::CheckIntmask, Reply::Word(word)) => if (IntMask { bits: word }).dto() {
                self.at(EnableStage::Register)
            } else {
                self.at(EnableStage::Free(EnableError::IntmaskRejected))
            },
            (EnableStage::Register, Reply::Registered(true)) => TryEnableIdmac {
                buffer: Some(DMABuffer { addr: self.memory, size: self.layout.size }),
                stage: EnableStage::Finished(Ok(())),
                ..*self
            },
            (EnableStage::Register, Reply::Registered(false)) => self.at(
                EnableStage::Free(EnableError::IrqRefused),
            ),
            (EnableStage::Free(error), Reply::Done) => self.at(EnableStage::UndoReadBmod(error)),
            (EnableStage::UndoReadBmod(error), Reply::Word(word)) => self.at(
                EnableStage::UndoWriteBmod(
                    error,
                    (BMod { bits: word }).with_de(false).with_swr(true),
                ),
            ),
            (EnableStage::UndoWriteBmod(error, _), Reply::Done) => self.at(
                EnableStage::AwaitBmod(error, false),
            ),
            (EnableStage::AwaitBmod(error, _), Reply::Word(word)) => if (BMod {
                bits: word,
            }).swr() {
                self.at(EnableStage::AwaitBmod(error, true))
            } else {
                self.at(EnableStage::UndoReadCtrl(error))
            },
            (EnableStage::UndoReadCtrl(error), Reply::Word(word)) => self.at(
                EnableStage::UndoWriteCtrl(
                    error,
                    (Ctrl { bits: word }).with_use_internal_dmac(false).with_dma_reset(true),
                ),
            ),
            (EnableStage::UndoWriteCtrl(error, _), Reply::Done) => self.at(
                EnableStage::AwaitCtrl(error, false),
            ),
            (EnableStage::AwaitCtrl(error, _), Reply::Word(word)) => if (Ctrl {
                bits: word,
            }).dma_reset() {
                self.at(EnableStage::AwaitCtrl(error, true))
            } else {
                self.at(EnableStage::UndoIdinten(error))
            },
            (EnableStage::UndoIdinten(error), Reply::Done) => TryEnableIdmac {
                buffer: None,
                stage: EnableStage::Finished(Err(error)),
                ..*self
            },
            _ => *self,
        };
    }

    /// The outcome once the switch is over.
    pub fn outcome(&self) -> (r: Option<Result<(), EnableError>>)
        ensures
            r == self.result(),
    {
        match self.stage {
            EnableStage::Finished(outcome) => Some(outcome),
            _ => None,
        }
    }
}

} // verus!
