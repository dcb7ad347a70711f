use sdmmc::bus::{MemLayout, Reply, Request, WallTime};
use sdmmc::cmd::Command;
use sdmmc::dma::DMAInfo;
use sdmmc::idmac::{DmaRegion, IdmacOutcome, SendCmdIdmac};
use sdmmc::regs::Reg;

const RESP: [u32; 4] = [9, 8, 7, 6];
const MEMORY: DMAInfo = DMAInfo { cpu_addr: 0x7000, bus_addr: 0x1_2000_0000 };
const LAYOUT: MemLayout = MemLayout { size: 16, align: 4 };

fn transfer(len: usize) -> SendCmdIdmac {
    SendCmdIdmac::new(Command::ReadSingleBlock(77, DmaRegion { addr: 0x8000_1000, len }))
}

/// A machine on which all goes well at once.
fn willing(request: Request) -> Reply {
    match request {
        Request::Read(Reg::Rintsts) | Request::Retry(Reg::Rintsts) => Reply::Word(0xc),
        Request::Read(Reg::Idsts) => Reply::Word(0x102),
        Request::Read(_) | Request::Retry(_) => Reply::Word(0),
        Request::ReadResponse => Reply::Response(RESP),
        Request::AllocCoherent(layout) => {
            assert_eq!(layout, LAYOUT);
            Reply::Allocated(Some(MEMORY))
        }
        Request::TestDone => Reply::Flag(true),
        Request::TestError => Reply::Flag(false),
        Request::Now => Reply::Time(WallTime { secs: 100, nanos: 0 }),
        _ => Reply::Done,
    }
}

fn drive(
    op: &mut SendCmdIdmac,
    mut answer: impl FnMut(Request) -> Reply,
) -> (IdmacOutcome, Vec<Request>) {
    let mut log = Vec::new();
    loop {
        if let Some(outcome) = op.outcome() {
            assert!(matches!(op.request(), Request::Finished));
            return (outcome, log);
        }
        let request = op.request();
        log.push(request);
        op.step(answer(request));
    }
}

fn frees(log: &[Request]) -> usize {
    log.iter().filter(|q| matches!(q, Request::DeallocCoherent(MEMORY, LAYOUT))).count()
}

fn writes(log: &[Request], wanted: Reg) -> Vec<u32> {
    log.iter()
        .filter_map(|q| match q {
            Request::Write(reg, word) if *reg == wanted => Some(*word),
            _ => None,
        })
        .collect()
}

#[test]
fn transfer_goes_through() {
    let (outcome, log) = drive(&mut transfer(512), willing);
    assert!(matches!(outcome, IdmacOutcome::Response(RESP)));
    assert_eq!(frees(&log), 1);
    assert_eq!(writes(&log, Reg::Dbaddr), vec![0x2000_0000]);
    assert_eq!(writes(&log, Reg::Bytcnt), vec![512]);
    assert_eq!(writes(&log, Reg::Blksiz), vec![512]);
    assert_eq!(writes(&log, Reg::Cmdarg), vec![77]);
    assert_eq!(writes(&log, Reg::Cmd), vec![0xa000_2351]);
    assert_eq!(writes(&log, Reg::Pldmnd), vec![1]);
    let order: Vec<usize> = [
        log.iter().position(|q| matches!(q, Request::AllocCoherent(_))),
        log.iter().position(|q| matches!(q, Request::StoreDescriptor(_, _))),
        log.iter().position(|q| matches!(q, Request::Fence)),
        log.iter().position(|q| matches!(q, Request::Write(Reg::Dbaddr, _))),
        log.iter().position(|q| matches!(q, Request::SetDone(false))),
        log.iter().position(|q| matches!(q, Request::SetError(false))),
        log.iter().position(|q| matches!(q, Request::Write(Reg::Cmd, _))),
        log.iter().position(|q| matches!(q, Request::DeallocCoherent(_, _))),
    ]
    .into_iter()
    .map(Option::unwrap)
    .collect();
    assert!(order.windows(2).all(|pair| pair[0] < pair[1]));
}

#[test]
fn descriptor_describes_the_buffer() {
    let (_, log) = drive(&mut transfer(512), willing);
    let descriptor = log
        .iter()
        .find_map(|q| match q {
            Request::StoreDescriptor(MEMORY, descriptor) => Some(*descriptor),
            _ => None,
        })
        .unwrap();
    assert_eq!(descriptor.des0.bits, 0x8000_000c);
    assert_eq!(descriptor.des1.bits, 512);
    assert_eq!(descriptor.des2, 0x8000_1000);
    assert_eq!(descriptor.des3, 0);
}

#[test]
fn small_transfer_is_one_small_block() {
    let (_, log) = drive(&mut transfer(8), willing);
    assert_eq!(writes(&log, Reg::Blksiz), vec![8]);
    assert_eq!(writes(&log, Reg::Bytcnt), vec![8]);
}

#[test]
fn large_lengths_are_cut_to_their_fields() {
    let op = transfer(0x1_0000 + 16);
    assert_eq!(op.descriptor.des1.bits, 16);
    let (_, log) = drive(&mut transfer(0x1_0000 + 16), willing);
    assert_eq!(writes(&log, Reg::Blksiz), vec![512]);
    assert_eq!(writes(&log, Reg::Bytcnt), vec![0x1_0010]);
}

#[test]
fn no_descriptor_memory_ends_at_once() {
    let (outcome, log) = drive(&mut transfer(512), |q| match q {
        Request::AllocCoherent(_) => Reply::Allocated(None),
        other => willing(other),
    });
    assert!(matches!(outcome, IdmacOutcome::NoDescriptor));
    assert_eq!(frees(&log), 0);
    assert!(writes(&log, Reg::Cmd).is_empty());
}

#[test]
fn unseen_descriptor_is_announced_again() {
    let mut looks = 0;
    let (outcome, log) = drive(&mut transfer(512), |q| match q {
        Request::Read(Reg::Idsts) => {
            looks += 1;
            Reply::Word(if looks == 3 { 0x110 } else { 0 })
        }
        other => willing(other),
    });
    assert!(matches!(outcome, IdmacOutcome::Response(RESP)));
    assert_eq!(writes(&log, Reg::Pldmnd), vec![1, 1]);
    let second = log.iter().rposition(|q| matches!(q, Request::Write(Reg::Pldmnd, 1))).unwrap();
    assert!(matches!(log[second - 1], Request::Write(Reg::Idsts, 0x10)));
    assert!(matches!(log[second - 2], Request::Read(Reg::Idsts)));
    assert!(matches!(log[second - 3], Request::Write(Reg::Pldmnd, 1)));
    assert!(matches!(log[second - 4], Request::Read(Reg::Cmd)));
}

#[test]
fn late_interrupt_fails_the_transfer() {
    let mut clock = 0;
    let (outcome, log) = drive(&mut transfer(512), |q| match q {
        Request::TestDone => Reply::Flag(false),
        Request::Now => {
            clock += 1;
            Reply::Time(WallTime { secs: 0, nanos: clock * 400_000_000 })
        }
        other => willing(other),
    });
    assert!(matches!(outcome, IdmacOutcome::Failed));
    assert_eq!(log.iter().filter(|q| matches!(q, Request::Yield)).count(), 2);
    assert_eq!(frees(&log), 1);
}

#[test]
fn command_error_fails_the_transfer() {
    let mut sent = false;
    let (outcome, log) = drive(&mut transfer(512), |q| match q {
        Request::Write(Reg::Cmd, _) => {
            sent = true;
            Reply::Done
        }
        Request::Read(Reg::Rintsts) | Request::Retry(Reg::Rintsts) if sent => Reply::Word(0x100),
        other => willing(other),
    });
    assert!(matches!(outcome, IdmacOutcome::Failed));
    assert_eq!(writes(&log, Reg::Rintsts).last(), Some(&0x100));
    assert!(!log.iter().any(|q| matches!(q, Request::ReadResponse)));
    assert_eq!(frees(&log), 1);
}

#[test]
fn missing_response_fails_the_transfer() {
    let mut clock = 0;
    let (outcome, log) = drive(&mut transfer(512), |q| match q {
        Request::Read(Reg::Rintsts) | Request::Retry(Reg::Rintsts) => Reply::Word(0),
        Request::Now => {
            clock += 1;
            Reply::Time(WallTime { secs: clock, nanos: 0 })
        }
        other => willing(other),
    });
    assert!(matches!(outcome, IdmacOutcome::Failed));
    assert_eq!(log.iter().filter(|q| matches!(q, Request::Retry(Reg::Rintsts))).count(), 2);
    assert_eq!(frees(&log), 1);
}

#[test]
fn data_deadline_without_a_look_takes_one() {
    let mut clocks = 0;
    let (outcome, log) = drive(&mut transfer(512), |q| match q {
        Request::Now => {
            clocks += 1;
            Reply::Time(WallTime { secs: if clocks == 4 { 5 } else { 0 }, nanos: 0 })
        }
        other => willing(other),
    });
    assert!(matches!(outcome, IdmacOutcome::Failed));
    let response = log.iter().position(|q| matches!(q, Request::ReadResponse)).unwrap();
    assert!(matches!(log[response + 1], Request::Read(Reg::Rintsts)));
    assert!(matches!(log[response + 2], Request::Read(Reg::Idsts)));
    assert_eq!(frees(&log), 1);
}

#[test]
fn only_new_errors_count_in_the_data_phase() {
    // A fatal bus error from before the command is not held against it.
    let (outcome, _) = drive(&mut transfer(512), |q| match q {
        Request::Read(Reg::Idsts) => Reply::Word(0x4),
        other => willing(other),
    });
    assert!(matches!(outcome, IdmacOutcome::Response(RESP)));
    let mut looks = 0;
    let (outcome, log) = drive(&mut transfer(512), |q| match q {
        Request::Read(Reg::Idsts) => {
            looks += 1;
            Reply::Word(if looks >= 5 { 0x4 } else { 0 })
        }
        other => willing(other),
    });
    assert!(matches!(outcome, IdmacOutcome::Failed));
    assert_eq!(frees(&log), 1);
}

#[test]
fn data_phase_waits_for_its_end() {
    let mut tests = 0;
    let (outcome, log) = drive(&mut transfer(512), |q| match q {
        Request::TestDone => {
            tests += 1;
            Reply::Flag(tests == 1 || tests == 4)
        }
        Request::Read(Reg::Rintsts) => Reply::Word(0x4),
        other => willing(other),
    });
    assert!(matches!(outcome, IdmacOutcome::Response(RESP)));
    assert_eq!(log.iter().filter(|q| matches!(q, Request::Delay(1))).count(), 2);
}

#[test]
fn error_seen_by_the_handler_fails_the_transfer() {
    let (outcome, log) = drive(&mut transfer(512), |q| match q {
        Request::TestError => Reply::Flag(true),
        other => willing(other),
    });
    assert!(matches!(outcome, IdmacOutcome::Failed));
    assert!(matches!(log.last(), Some(Request::TestError)));
    assert_eq!(frees(&log), 1);
}

/// A clock that reads ten seconds for the first `starts` times, then a nanosecond
/// short of `secs` later, then just that.
fn clock(starts: u32, secs: u64) -> impl FnMut() -> Reply {
    let mut readings = 0;
    move || {
        readings += 1;
        let time = if readings <= starts {
            WallTime { secs: 10, nanos: 0 }
        } else if readings == starts + 1 {
            WallTime { secs: 9 + secs, nanos: 999_999_999 }
        } else {
            WallTime { secs: 10 + secs, nanos: 0 }
        };
        Reply::Time(time)
    }
}

fn count(log: &[Request], wanted: impl Fn(&Request) -> bool) -> usize {
    log.iter().filter(|q| wanted(q)).count()
}

#[test]
fn each_wait_ends_at_its_deadline() {
    let mut now = clock(1, 1);
    let (outcome, log) = drive(&mut transfer(512), |q| match q {
        Request::TestDone => Reply::Flag(false),
        Request::Now => now(),
        other => willing(other),
    });
    assert!(matches!(outcome, IdmacOutcome::Failed));
    assert_eq!(count(&log, |q| matches!(q, Request::Yield)), 1);

    let mut now = clock(2, 2);
    let (outcome, log) = drive(&mut transfer(512), |q| match q {
        Request::Read(Reg::Rintsts) | Request::Retry(Reg::Rintsts) => Reply::Word(0),
        Request::Now => now(),
        other => willing(other),
    });
    assert!(matches!(outcome, IdmacOutcome::Failed));
    assert_eq!(count(&log, |q| matches!(q, Request::Now)), 4);
    assert_eq!(count(&log, |q| matches!(q, Request::ReadResponse)), 0);

    let mut now = clock(3, 5);
    let mut looks = 0;
    let (outcome, log) = drive(&mut transfer(512), |q| match q {
        Request::Read(Reg::Rintsts) | Request::Retry(Reg::Rintsts) => Reply::Word(0x4),
        Request::TestDone => {
            looks += 1;
            Reply::Flag(looks == 1)
        }
        Request::Now => now(),
        other => willing(other),
    });
    assert!(matches!(outcome, IdmacOutcome::Failed));
    assert_eq!(count(&log, |q| matches!(q, Request::Now)), 5);
    assert_eq!(count(&log, |q| matches!(q, Request::Delay(1))), 1);
    assert_eq!(count(&log, |q| matches!(q, Request::ReadResponse)), 1);
}

#[test]
fn response_a_nanosecond_early_succeeds() {
    let mut now = clock(2, 2);
    let mut polled = false;
    let (outcome, log) = drive(&mut transfer(512), |q| match q {
        Request::Retry(Reg::Rintsts) => {
            polled = true;
            Reply::Word(0)
        }
        Request::Read(Reg::Rintsts) if !polled => Reply::Word(0),
        Request::Now => now(),
        other => willing(other),
    });
    assert!(matches!(outcome, IdmacOutcome::Response(RESP)));
    assert_eq!(count(&log, |q| matches!(q, Request::Retry(Reg::Rintsts))), 1);
}
