use sdmmc::bus::{Reply, Request};
use sdmmc::cmd::Command;
use sdmmc::regs::Reg;
use sdmmc::send::SendCmd;

const RESP: [u32; 4] = [1, 2, 3, 4];

/// A controller that takes every command at once and answers it.
fn willing(request: Request, fifo: &mut Vec<u64>, status: u32) -> Reply {
    match request {
        Request::Read(Reg::Cmd) => Reply::Word(0),
        Request::Read(Reg::Status) | Request::Retry(Reg::Status) => {
            Reply::Word((fifo.len() as u32 * 2) << 17)
        }
        Request::Read(Reg::Rintsts) | Request::Retry(Reg::Rintsts) => Reply::Word(status),
        Request::Write(_, _) => Reply::Done,
        Request::ReadResponse => Reply::Response(RESP),
        Request::ReadFifo => Reply::Fifo(fifo.remove(0)),
        Request::WriteFifo(word) => {
            fifo.push(word);
            Reply::Done
        }
        other => panic!("{other:?}"),
    }
}

fn drive(
    op: &mut SendCmd<Vec<u8>>,
    mut answer: impl FnMut(Request) -> Reply,
) -> (Option<[u32; 4]>, Vec<Request>) {
    let mut log = Vec::new();
    loop {
        if let Some(outcome) = op.outcome() {
            assert!(matches!(op.request(), Request::Finished));
            return (outcome, log);
        }
        let request = op.request();
        log.push(request);
        op.step(answer(request));
    }
}

fn writes(log: &[Request]) -> Vec<(Reg, u32)> {
    log.iter()
        .filter_map(|request| match request {
            Request::Write(reg, word) => Some((*reg, *word)),
            _ => None,
        })
        .collect()
}

#[test]
fn command_without_data() {
    let mut op = SendCmd::new(Command::SendIfCond(0x1aa));
    let (outcome, log) = drive(&mut op, |q| willing(q, &mut Vec::new(), 0x4));
    assert_eq!(outcome, Some(RESP));
    assert_eq!(
        writes(&log),
        vec![(Reg::Cmdarg, 0x1aa), (Reg::Cmd, 0xa000_2148), (Reg::Rintsts, 0x4)]
    );
    assert_eq!(log.len(), 8);
    assert!(op.into_data().is_none());
}

#[test]
fn recorded_error_yields_nothing() {
    let mut op = SendCmd::new(Command::AllSendCid);
    let (outcome, log) = drive(&mut op, |q| willing(q, &mut Vec::new(), 0x104));
    assert_eq!(outcome, None);
    assert_eq!(writes(&log).last(), Some(&(Reg::Rintsts, 0x104)));
}

#[test]
fn unanswered_polls_are_bounded() {
    let mut op = SendCmd::new(Command::AppCmd(0));
    let (outcome, log) = drive(&mut op, |q| match q {
        Request::Read(Reg::Cmd) | Request::Retry(Reg::Cmd) => Reply::Word(0x8000_0000),
        other => willing(other, &mut Vec::new(), 0),
    });
    assert_eq!(outcome, Some(RESP));
    assert_eq!(log.len(), 3 * 1_000_001 + 5);
    assert!(matches!(log[0], Request::Read(Reg::Cmd)));
    assert!(matches!(log[1], Request::Retry(Reg::Cmd)));
    assert!(matches!(log[1_000_000], Request::Retry(Reg::Cmd)));
    assert!(matches!(log[1_000_001], Request::Write(Reg::Cmdarg, 0)));
}

#[test]
fn reset_awaits_no_response() {
    let mut op = SendCmd::new(Command::GoIdleState);
    let (_, log) = drive(&mut op, |q| willing(q, &mut Vec::new(), 0));
    assert_eq!(log.len(), 7);
}

#[test]
fn read_fills_the_buffer_in_order() {
    let mut fifo = vec![0x0706_0504_0302_0100, 0x0f0e_0d0c_0b0a_0908];
    let mut op = SendCmd::new(Command::ReadSingleBlock(5, vec![0xffu8; 16]));
    let (outcome, _) = drive(&mut op, |q| willing(q, &mut fifo, 0x24));
    assert_eq!(outcome, Some(RESP));
    assert_eq!(op.into_data().unwrap(), (0..16).collect::<Vec<u8>>());
}

#[test]
fn short_read_keeps_the_rest() {
    let mut fifo = vec![0x0706_0504_0302_0100];
    let mut op = SendCmd::new(Command::ReadSingleBlock(5, vec![0xffu8; 16]));
    let (outcome, log) = drive(&mut op, |q| willing(q, &mut fifo, 0x2c));
    assert_eq!(outcome, Some(RESP));
    assert_eq!(log.iter().filter(|q| matches!(q, Request::ReadFifo)).count(), 1);
    let data = op.into_data().unwrap();
    assert_eq!(data[..8], [0, 1, 2, 3, 4, 5, 6, 7]);
    assert_eq!(data[8..], [0xff; 8]);
}

#[test]
fn write_fills_the_fifo_in_order() {
    let mut fifo = Vec::new();
    let bytes: Vec<u8> = (0..16).collect();
    let mut op = SendCmd::new(Command::WriteSingleBlock(5, bytes.clone()));
    let (outcome, log) = drive(&mut op, |q| willing(q, &mut fifo, 0x1c));
    assert_eq!(outcome, Some(RESP));
    assert_eq!(fifo, vec![0x0706_0504_0302_0100, 0x0f0e_0d0c_0b0a_0908]);
    assert_eq!(writes(&log)[..2], [(Reg::Cmdarg, 5), (Reg::Cmd, 0xa000_2758)]);
    assert_eq!(op.into_data().unwrap(), bytes);
}

#[test]
fn write_waits_for_room() {
    let mut polls = 0;
    let mut sent = Vec::new();
    let mut op = SendCmd::new(Command::WriteSingleBlock(5, vec![1u8; 8]));
    let (_, log) = drive(&mut op, |q| match q {
        Request::Read(Reg::Status) => {
            polls += 1;
            // The first look is at the data line, the next finds the FIFO full.
            Reply::Word(if polls == 2 { 120 << 17 } else { 119 << 17 })
        }
        Request::Retry(Reg::Rintsts) if sent.len() == 1 => Reply::Word(0x8),
        Request::WriteFifo(word) => {
            sent.push(word);
            Reply::Done
        }
        other => willing(other, &mut Vec::new(), 0x14),
    });
    assert_eq!(sent, vec![0x0101_0101_0101_0101]);
    assert!(log.iter().any(|q| matches!(q, Request::Retry(Reg::Rintsts))));
}

#[test]
fn busy_data_line_is_waited_for() {
    let mut busy = 3;
    let mut op = SendCmd::new(Command::ReadSingleBlock(5, Vec::new()));
    let (_, log) = drive(&mut op, |q| match q {
        Request::Read(Reg::Status) | Request::Retry(Reg::Status) if busy > 0 => {
            busy -= 1;
            Reply::Word(0x200)
        }
        other => willing(other, &mut Vec::new(), 0x4),
    });
    assert_eq!(log.iter().filter(|q| matches!(q, Request::Retry(Reg::Status))).count(), 3);
}

#[test]
fn what_was_written_is_read_back() {
    let mut fifo = Vec::new();
    let bytes: Vec<u8> = (0..512).map(|i| (i * 7 % 251) as u8).collect();
    let mut write = SendCmd::new(Command::WriteSingleBlock(1, bytes.clone()));
    drive(&mut write, |q| match q {
        Request::Read(Reg::Status) => Reply::Word(0),
        other => willing(other, &mut fifo, 0x1c),
    });
    assert_eq!(fifo.len(), 64);
    let mut read = SendCmd::new(Command::ReadSingleBlock(1, vec![0u8; 512]));
    drive(&mut read, |q| willing(q, &mut fifo, 0x2c));
    assert_eq!(read.into_data().unwrap(), bytes);
}

#[test]
fn stray_replies_change_nothing() {
    let mut op = SendCmd::new(Command::AppCmd(3));
    op.step(Reply::Done);
    op.step(Reply::Fifo(7));
    assert!(matches!(op.request(), Request::Read(Reg::Cmd)));
    op.step(Reply::Word(0));
    assert!(matches!(op.request(), Request::Write(Reg::Cmdarg, 3)));
}

#[test]
fn read_waits_for_two_words() {
    let mut looks = 0;
    let mut op = SendCmd::new(Command::ReadSingleBlock(5, vec![0u8; 8]));
    let (outcome, log) = drive(&mut op, |q| match q {
        Request::Read(Reg::Status) => {
            looks += 1;
            // The first look is at the data line, the next finds too few words.
            Reply::Word(if looks == 2 { 1 << 17 } else { 2 << 17 })
        }
        Request::ReadFifo => Reply::Fifo(0x0807_0605_0403_0201),
        other => willing(other, &mut Vec::new(), 0x24),
    });
    assert_eq!(outcome, Some(RESP));
    assert_eq!(looks, 4);
    let take = log.iter().position(|q| matches!(q, Request::ReadFifo)).unwrap();
    assert!(matches!(log[take - 1], Request::Read(Reg::Status)));
    assert!(log[..take].iter().any(|q| matches!(q, Request::Retry(Reg::Rintsts))));
    assert_eq!(op.into_data().unwrap(), vec![1, 2, 3, 4, 5, 6, 7, 8]);
}

#[test]
fn error_ends_the_data_phase() {
    let mut fifo = Vec::new();
    let mut op = SendCmd::new(Command::WriteSingleBlock(5, vec![1u8; 16]));
    let (outcome, _) = drive(&mut op, |q| willing(q, &mut fifo, 0x104));
    assert_eq!(outcome, None);
    assert!(fifo.is_empty());
}
