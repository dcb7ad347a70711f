use sdmmc::block::{BlockOp, BlockOutcome};
use sdmmc::bus::{MemLayout, Reply, Request, WallTime};
use sdmmc::cmd::Command;
use sdmmc::dma::{DMABuffer, DMAInfo};
use sdmmc::enable::EnableError;
use sdmmc::idmac::DmaRegion;
use sdmmc::init::{Init, InitOutcome};
use sdmmc::regs::Reg;
use sdmmc::sdmmc::{AHBDataWidth, SdMmc};

const MEMORY: DMAInfo = DMAInfo { cpu_addr: 0x7000, bus_addr: 0x2000_0000 };

/// A controller with a card behind it.
struct Machine {
    /// Commands, by their number, that the card does not answer.
    mute: Vec<u32>,
    /// Rounds of asking after which the card is ready.
    patience: u32,
    memory: bool,
    cmd: u32,
    arg: u32,
    regs: Vec<(Reg, u32)>,
    fifo: Vec<u64>,
    block: [u8; 512],
    done: bool,
    error: bool,
    commands: Vec<(u32, u32)>,
    log: Vec<Request>,
}

impl Machine {
    fn new() -> Self {
        Machine {
            mute: Vec::new(),
            patience: 3,
            memory: true,
            cmd: 0,
            arg: 0,
            regs: vec![
                (Reg::Bmod, 0),
                (Reg::Ctrl, 0),
                (Reg::Idinten, 0),
                (Reg::Intmask, 0),
                (Reg::Blksiz, 0),
            ],
            fifo: Vec::new(),
            block: [0; 512],
            done: false,
            error: false,
            commands: Vec::new(),
            log: Vec::new(),
        }
    }

    fn answer(&mut self, request: Request) -> Reply {
        self.log.push(request);
        let index = self.cmd % 64;
        match request {
            Request::Read(Reg::Rintsts) | Request::Retry(Reg::Rintsts) => {
                let error = if self.mute.contains(&index) { 0x100 } else { 0 };
                Reply::Word(0x3c | error)
            }
            Request::Read(Reg::Idsts) => Reply::Word(0),
            Request::Read(Reg::Cmd) => Reply::Word(0),
            Request::Read(Reg::Status) => Reply::Word((self.fifo.len().min(32) as u32 * 2) << 17),
            Request::Read(reg) => {
                Reply::Word(self.regs.iter().find(|(name, _)| *name == reg).unwrap().1)
            }
            Request::Write(Reg::Cmdarg, arg) => {
                self.arg = arg;
                Reply::Done
            }
            Request::Write(Reg::Cmd, cmd) => {
                self.cmd = cmd;
                self.commands.push((cmd % 64, self.arg));
                if cmd % 64 == 41 {
                    self.patience = self.patience.saturating_sub(1);
                }
                self.done = true;
                Reply::Done
            }
            Request::Write(reg, word) => {
                // Resets are over at once.
                let word = match reg {
                    Reg::Bmod => word & !0x1,
                    Reg::Ctrl => word & !0x4,
                    _ => word,
                };
                if let Some(entry) = self.regs.iter_mut().find(|(name, _)| *name == reg) {
                    entry.1 = word;
                }
                Reply::Done
            }
            Request::ReadResponse => Reply::Response(match index {
                41 if self.patience == 0 => [0xc000_0000, 0, 0, 0],
                3 => [0xaaaa_0520, 0, 0, 0],
                9 => [0, 0x3b37_0000, 0, 0],
                _ => [0; 4],
            }),
            Request::ReadFifo => {
                Reply::Fifo(if self.fifo.is_empty() { 0 } else { self.fifo.remove(0) })
            }
            Request::WriteFifo(word) => {
                self.fifo.push(word);
                Reply::Done
            }
            Request::AllocCoherent(_) => Reply::Allocated(if self.memory { Some(MEMORY) } else { None }),
            Request::RegisterIrq => Reply::Registered(true),
            Request::TestDone => Reply::Flag(self.done),
            Request::TestError => Reply::Flag(self.error),
            Request::Now => Reply::Time(WallTime { secs: 1, nanos: 0 }),
            Request::CopyFromDma(memory) => {
                assert_eq!(memory, MEMORY);
                Reply::Block(self.block)
            }
            Request::CopyToDma(memory, block) => {
                assert_eq!(memory, MEMORY);
                self.block = block;
                Reply::Done
            }
            _ => Reply::Done,
        }
    }

    fn bring_up(&mut self) -> Init<Vec<u8>> {
        let mut op = Init::new(77);
        while op.outcome().is_none() {
            op.step(self.answer(op.request()));
        }
        assert!(matches!(op.request(), Request::Finished));
        op
    }

    fn set_up(&mut self) -> SdMmc {
        let mut op = SdMmc::new(0x1602_0000, AHBDataWidth::Bits32);
        loop {
            match op.request() {
                Request::Finished => return op.finish(),
                request => op.step(self.answer(request)),
            }
        }
    }

    fn transfer(&mut self, op: &mut BlockOp<Vec<u8>>) -> BlockOutcome {
        self.log.clear();
        loop {
            if let Some(outcome) = op.outcome() {
                return outcome;
            }
            op.step(self.answer(op.request()));
        }
    }
}

#[test]
fn bring_up_completes() {
    let mut machine = Machine::new();
    let op = machine.bring_up();
    assert_eq!(op.outcome(), Some(InitOutcome::Completed));
    assert_eq!(op.num_blocks, (0x3b37 + 1) * 1024);
    let rca = 0xaaaa << 16;
    assert_eq!(
        machine.commands,
        vec![
            (0, 0),
            (0, 0),
            (0, 0),
            (8, 0x1aa),
            (55, 0),
            (41, 0x41ff_8000),
            (55, 0),
            (41, 0x41ff_8000),
            (55, 0),
            (41, 0x41ff_8000),
            (2, 0),
            (3, 0),
            (9, rca),
            (7, rca),
            (55, rca),
            (51, 0),
        ]
    );
    let setup: Vec<(Reg, u32)> = machine
        .log
        .iter()
        .filter_map(|q| match q {
            Request::Write(reg, word)
                if matches!(reg, Reg::Clkena | Reg::Clkdiv | Reg::Pwren | Reg::Ctype | Reg::Bytcnt) =>
            {
                Some((*reg, *word))
            }
            _ => None,
        })
        .collect();
    assert_eq!(
        setup,
        vec![
            (Reg::Clkena, 0),
            (Reg::Clkdiv, 100),
            (Reg::Clkena, 1),
            (Reg::Pwren, 1),
            (Reg::Ctype, 0),
            (Reg::Bytcnt, 8),
        ]
    );
    let delays: Vec<u32> = machine
        .log
        .iter()
        .filter_map(|q| match q {
            Request::Delay(rounds) => Some(*rounds),
            _ => None,
        })
        .collect();
    assert_eq!(delays, vec![10_000, 100_000, 1, 1]);
}

#[test]
fn card_is_given_up_after_a_hundred_attempts() {
    let mut machine = Machine::new();
    machine.patience = 1000;
    let op = machine.bring_up();
    assert_eq!(op.outcome(), Some(InitOutcome::CardNotReady));
    assert_eq!(op.num_blocks, 77);
    assert_eq!(machine.commands.iter().filter(|c| **c == (41, 0x41ff_8000)).count(), 100);
    assert!(!machine.commands.iter().any(|c| c.0 == 2));
}

#[test]
fn unannounced_question_is_not_asked() {
    let mut machine = Machine::new();
    machine.mute = vec![55];
    let op = machine.bring_up();
    assert_eq!(op.outcome(), Some(InitOutcome::CardNotReady));
    assert_eq!(machine.commands.iter().filter(|c| c.0 == 55).count(), 100);
    assert!(!machine.commands.iter().any(|c| c.0 == 41));
}

#[test]
fn silent_cards_end_the_bring_up() {
    for (command, outcome, blocks) in [
        (2, InitOutcome::NoIdentification, 77),
        (3, InitOutcome::NoAddress, 77),
        (9, InitOutcome::Completed, 0),
        (8, InitOutcome::Completed, (0x3b37 + 1) * 1024),
        (7, InitOutcome::Completed, (0x3b37 + 1) * 1024),
        (51, InitOutcome::Completed, (0x3b37 + 1) * 1024),
    ] {
        let mut machine = Machine::new();
        machine.mute = vec![command];
        let op = machine.bring_up();
        assert_eq!(op.outcome(), Some(outcome), "command {command}");
        assert_eq!(op.num_blocks, blocks, "command {command}");
    }
}

#[test]
fn setup_publishes_the_registers_first() {
    let mut machine = Machine::new();
    let mut driver = machine.set_up();
    assert!(matches!(machine.log[0], Request::SetBase(0x1602_0000)));
    assert_eq!(driver.num_blocks(), (0x3b37 + 1) * 1024);
    assert_eq!(driver.dma_buffer(), Some(DMABuffer { addr: MEMORY, size: SdMmc::BLOCK_SIZE }));
    assert_eq!(driver.release(), Some((MEMORY, MemLayout { size: 512, align: 4 })));
    assert_eq!(driver.release(), None);
    assert_eq!(driver.dma_buffer(), None);
    assert_eq!(driver.num_blocks(), (0x3b37 + 1) * 1024);
}

#[test]
fn setup_without_memory_falls_back() {
    let mut machine = Machine::new();
    machine.memory = false;
    let mut driver = machine.set_up();
    assert_eq!(driver.dma_buffer(), None);
    assert_eq!(driver.release(), None);
}

#[test]
fn results_are_taken_over() {
    let mut machine = Machine::new();
    machine.memory = false;
    let mut driver = machine.set_up();
    let mut init = driver.init();
    machine.patience = 1;
    machine.mute = vec![9];
    while init.outcome().is_none() {
        init.step(machine.answer(init.request()));
    }
    driver.complete_init(&init);
    assert_eq!(driver.num_blocks(), 0);
    let mut enable = driver.try_enable_idmac();
    while enable.outcome().is_none() {
        enable.step(machine.answer(enable.request()));
    }
    assert_eq!(driver.complete_enable(&enable), Err(EnableError::NoMemory));
    machine.memory = true;
    let mut enable = driver.try_enable_idmac();
    while enable.outcome().is_none() {
        enable.step(machine.answer(enable.request()));
    }
    assert_eq!(driver.complete_enable(&enable), Ok(()));
    assert_eq!(driver.dma_buffer(), Some(DMABuffer { addr: MEMORY, size: 512 }));
}

#[test]
fn commands_start_from_the_driver() {
    let mut machine = Machine::new();
    let driver = machine.set_up();
    let op = driver.send_cmd(Command::AppCmd(1));
    assert!(matches!(op.request(), Request::Read(Reg::Cmd)));
    let op = driver.send_cmd_idmac(Command::WriteSingleBlock(4, DmaRegion { addr: 64, len: 512 }));
    assert!(matches!(op.request(), Request::Read(Reg::Idsts)));
    assert_eq!((op.cmd.bits, op.arg), (0xa000_2758, 4));
}

#[test]
fn blocks_move_by_dma() {
    let mut machine = Machine::new();
    let driver = machine.set_up();
    let block: [u8; 512] = core::array::from_fn(|i| (i % 253) as u8);
    let mut op = driver.write_block(6, &block);
    assert_eq!(machine.transfer(&mut op), BlockOutcome::Moved);
    assert_eq!(machine.block, block);
    assert_eq!(machine.commands.last(), Some(&(24, 6)));
    let copy = machine.log.iter().position(|q| matches!(q, Request::CopyToDma(_, _))).unwrap();
    let send = machine.log.iter().position(|q| matches!(q, Request::Write(Reg::Cmd, _))).unwrap();
    assert!(copy < send);
    let mut op = driver.read_block(6, &[0; 512]);
    assert_eq!(machine.transfer(&mut op), BlockOutcome::Moved);
    assert!(matches!(machine.log.last(), Some(Request::CopyFromDma(MEMORY))));
    assert_eq!(machine.commands.last(), Some(&(17, 6)));
    let mut buf = [0u8; 512];
    op.store(&mut buf);
    assert_eq!(buf, block);
}

#[test]
fn blocks_move_by_the_cpu() {
    let mut machine = Machine::new();
    machine.memory = false;
    let driver = machine.set_up();
    let block: [u8; 512] = core::array::from_fn(|i| (i % 247) as u8);
    let mut op = driver.write_block(2, &block);
    assert_eq!(machine.transfer(&mut op), BlockOutcome::Moved);
    let words: Vec<u64> =
        block.chunks(8).map(|group| u64::from_le_bytes(group.try_into().unwrap())).collect();
    assert_eq!(machine.fifo, words);
    let mut op = driver.read_block(2, &[0; 512]);
    assert_eq!(machine.transfer(&mut op), BlockOutcome::Moved);
    assert!(machine.log.iter().any(|q| matches!(q, Request::Write(Reg::Blksiz, 512))));
    assert!(machine.log.iter().any(|q| matches!(q, Request::Write(Reg::Bytcnt, 512))));
    let mut buf = [0u8; 512];
    op.store(&mut buf);
    assert_eq!(buf, block);
}

#[test]
fn failed_blocks_say_so() {
    let mut machine = Machine::new();
    let driver = machine.set_up();
    machine.error = true;
    assert_eq!(machine.transfer(&mut driver.read_block(1, &[0; 512])), BlockOutcome::Failed);
    machine.error = false;
    machine.memory = false;
    assert_eq!(machine.transfer(&mut driver.write_block(1, &[0; 512])), BlockOutcome::NoDescriptor);
    let mut machine = Machine::new();
    machine.memory = false;
    let driver = machine.set_up();
    machine.mute = vec![17];
    assert_eq!(machine.transfer(&mut driver.read_block(1, &[0; 512])), BlockOutcome::Failed);
}

#[test]
fn setup_registers_the_handler_once() {
    let registrations = |machine: &Machine| {
        machine.log.iter().filter(|q| matches!(q, Request::RegisterIrq)).count()
    };
    let mut machine = Machine::new();
    machine.set_up();
    assert_eq!(registrations(&machine), 1);
    let mut machine = Machine::new();
    machine.memory = false;
    machine.set_up();
    assert_eq!(registrations(&machine), 0);
}

#[test]
fn setup_knows_the_blocks_that_the_card_told() {
    for (mute, blocks) in [(vec![], (0x3b37 + 1) * 1024), (vec![9], 0), (vec![2], 0), (vec![3], 0)] {
        let mut machine = Machine::new();
        machine.mute = mute;
        assert_eq!(machine.set_up().num_blocks(), blocks);
    }
}

#[test]
fn dma_mode_is_left_before_the_card_is_reset() {
    let mut machine = Machine::new();
    machine.regs[0].1 = 0x82;
    machine.regs[1].1 = 0x0200_0010;
    machine.bring_up();
    let place = |wanted: fn(&Request) -> bool| machine.log.iter().position(wanted).unwrap();
    let bmod = place(|q| matches!(q, Request::Write(Reg::Bmod, 0x03)));
    let ctrl = place(|q| matches!(q, Request::Write(Reg::Ctrl, 0x14)));
    let reset = place(|q| matches!(q, Request::Write(Reg::Cmd, 0xa000_a000)));
    assert!(bmod < ctrl && ctrl < reset);
    assert!(matches!(machine.log[0], Request::Read(Reg::Rintsts)));
    assert!(matches!(machine.log[1], Request::Write(Reg::Rintsts, 0x3c)));
}

#[test]
fn failed_read_by_dma_leaves_the_block() {
    let mut machine = Machine::new();
    let driver = machine.set_up();
    machine.block = [9; 512];
    machine.error = true;
    let mut op = driver.read_block(1, &[5; 512]);
    assert_eq!(machine.transfer(&mut op), BlockOutcome::Failed);
    let mut buf = [0u8; 512];
    op.store(&mut buf);
    assert_eq!(buf, [5; 512]);
}
