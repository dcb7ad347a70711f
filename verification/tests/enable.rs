use sdmmc::bus::{MemLayout, Reply, Request};
use sdmmc::dma::{DMABuffer, DMAInfo};
use sdmmc::enable::{EnableError, TryEnableIdmac};
use sdmmc::regs::Reg;

const LAYOUT: MemLayout = MemLayout { size: 512, align: 8 };
const MEMORY: DMAInfo = DMAInfo { cpu_addr: 0xffff_0000, bus_addr: 0x4000_0000 };
const OTHER: DMABuffer =
    DMABuffer { addr: DMAInfo { cpu_addr: 1, bus_addr: 2 }, size: 512 };

/// Registers that remember, except that `deaf` takes no writes; resets last for
/// `resets` polls.
struct Machine {
    memory: Option<DMAInfo>,
    deaf: Option<Reg>,
    irq: bool,
    resets: u32,
    regs: Vec<(Reg, u32)>,
    log: Vec<Request>,
}

impl Machine {
    fn new() -> Self {
        Machine {
            memory: Some(MEMORY),
            deaf: None,
            irq: true,
            resets: 2,
            regs: vec![
                (Reg::Rintsts, 0x8),
                (Reg::Idsts, 0x4),
                (Reg::Bmod, 0),
                (Reg::Ctrl, 0),
                (Reg::Idinten, 0),
                (Reg::Intmask, 0xf0),
            ],
            log: Vec::new(),
        }
    }

    fn reg(&mut self, reg: Reg) -> &mut u32 {
        &mut self.regs.iter_mut().find(|(name, _)| *name == reg).unwrap().1
    }

    fn answer(&mut self, request: Request) -> Reply {
        self.log.push(request);
        match request {
            Request::AllocCoherent(layout) => {
                assert_eq!(layout, LAYOUT);
                Reply::Allocated(self.memory)
            }
            Request::DeallocCoherent(_, _) => Reply::Done,
            Request::RegisterIrq => Reply::Registered(self.irq),
            Request::Read(reg) => Reply::Word(*self.reg(reg)),
            Request::Retry(reg) => {
                self.resets -= 1;
                if self.resets == 0 {
                    *self.reg(reg) &= !0x5;
                    self.resets = 2;
                }
                Reply::Word(*self.reg(reg))
            }
            Request::Write(reg, word) => {
                if self.deaf != Some(reg) {
                    *self.reg(reg) = word;
                }
                Reply::Done
            }
            other => panic!("{other:?}"),
        }
    }

    fn run(&mut self, buffer: Option<DMABuffer>) -> (Result<(), EnableError>, Option<DMABuffer>) {
        let mut op = TryEnableIdmac::new(LAYOUT, buffer);
        loop {
            if let Some(outcome) = op.outcome() {
                assert!(matches!(op.request(), Request::Finished));
                return (outcome, op.buffer);
            }
            op.step(self.answer(op.request()));
        }
    }

    fn frees(&self) -> usize {
        self.log
            .iter()
            .filter(|q| matches!(q, Request::DeallocCoherent(MEMORY, LAYOUT)))
            .count()
    }
}

#[test]
fn willing_machine_enters_dma_mode() {
    let mut machine = Machine::new();
    let (outcome, buffer) = machine.run(None);
    assert_eq!(outcome, Ok(()));
    assert_eq!(buffer, Some(DMABuffer { addr: MEMORY, size: 512 }));
    assert_eq!(machine.log.len(), 17);
    assert_eq!(machine.frees(), 0);
    assert_eq!(*machine.reg(Reg::Bmod), 0x82);
    assert_eq!(*machine.reg(Reg::Ctrl), 0x0200_0010);
    assert_eq!(*machine.reg(Reg::Idinten), 0x337);
    assert_eq!(*machine.reg(Reg::Intmask), 0xf8);
    assert!(matches!(machine.log[2], Request::Write(Reg::Rintsts, 0x8)));
    assert!(matches!(machine.log[4], Request::Write(Reg::Idsts, 0x4)));
}

#[test]
fn without_memory_the_cpu_moves_the_data() {
    let mut machine = Machine::new();
    machine.memory = None;
    *machine.reg(Reg::Bmod) = 0x82;
    *machine.reg(Reg::Ctrl) = 0x0200_0010;
    *machine.reg(Reg::Idinten) = 0x337;
    let (outcome, buffer) = machine.run(Some(OTHER));
    assert_eq!(outcome, Err(EnableError::NoMemory));
    assert_eq!(buffer, None);
    assert_eq!(*machine.reg(Reg::Bmod), 0x2);
    assert_eq!(*machine.reg(Reg::Ctrl), 0x10);
    assert_eq!(*machine.reg(Reg::Idinten), 0);
    assert!(machine.log.iter().any(|q| matches!(q, Request::Write(Reg::Bmod, 0x3))));
    assert!(machine.log.iter().any(|q| matches!(q, Request::Write(Reg::Ctrl, 0x14))));
    assert_eq!(machine.frees(), 0);
    assert!(!machine.log.iter().any(|q| matches!(q, Request::RegisterIrq)));
}

#[test]
fn each_refusal_is_named_and_undone() {
    let cases = [
        (Reg::Bmod, EnableError::BmodRejected),
        (Reg::Ctrl, EnableError::CtrlRejected),
        (Reg::Idinten, EnableError::IdintenRejected),
        (Reg::Intmask, EnableError::IntmaskRejected),
    ];
    for (reg, error) in cases {
        let mut machine = Machine::new();
        machine.deaf = Some(reg);
        let (outcome, buffer) = machine.run(Some(OTHER));
        assert_eq!(outcome, Err(error));
        assert_eq!(buffer, None);
        assert_eq!(machine.frees(), 1);
        assert_eq!(*machine.reg(Reg::Bmod) & 0x80, 0);
        assert_eq!(*machine.reg(Reg::Ctrl) & 0x0200_0000, 0);
        assert_eq!(*machine.reg(Reg::Idinten), 0);
    }
}

#[test]
fn refused_handler_is_undone_after_the_resets() {
    let mut machine = Machine::new();
    machine.irq = false;
    let (outcome, buffer) = machine.run(None);
    assert_eq!(outcome, Err(EnableError::IrqRefused));
    assert_eq!(buffer, None);
    assert_eq!(machine.frees(), 1);
    assert_eq!(machine.log.iter().filter(|q| matches!(q, Request::Retry(Reg::Bmod))).count(), 2);
    assert_eq!(machine.log.iter().filter(|q| matches!(q, Request::Retry(Reg::Ctrl))).count(), 2);
    assert!(machine.log.iter().any(|q| matches!(q, Request::Write(Reg::Bmod, 0x3))));
    assert!(machine.log.iter().any(|q| matches!(q, Request::Write(Reg::Ctrl, 0x14))));
    assert!(matches!(machine.log.last(), Some(Request::Write(Reg::Idinten, 0))));
}

#[test]
fn errors_describe_themselves() {
    assert_eq!(EnableError::NoMemory.message(), "Failed to allocate coherent DMA memory");
    assert_eq!(
        EnableError::BmodRejected.message(),
        "Hardware verification failed: BMOD de/fb not set"
    );
    assert_eq!(
        EnableError::CtrlRejected.message(),
        "Hardware verification failed: CTRL use_internal_dmac/int_enable not set"
    );
    assert_eq!(
        EnableError::IdintenRejected.message(),
        "Hardware verification failed: IDINTEN flags not matching"
    );
    assert_eq!(
        EnableError::IntmaskRejected.message(),
        "Hardware verification failed: INTMASK dto not set"
    );
    assert_eq!(EnableError::IrqRefused.message(), "Failed to register IRQ");
}
