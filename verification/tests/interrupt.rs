use sdmmc::bus::{Reply, Request};
use sdmmc::regs::Reg;
use sdmmc::sdmmc::SdMmc;

fn drive(base: usize, status: u32, idsts: u32) -> Vec<Request> {
    let mut op = SdMmc::handle_interrupt();
    let mut log = Vec::new();
    loop {
        let request = op.request();
        let reply = match request {
            Request::Finished => return log,
            Request::GetBase => Reply::Base(base),
            Request::Read(Reg::Rintsts) => Reply::Word(status),
            Request::Read(Reg::Idsts) => Reply::Word(idsts),
            _ => Reply::Done,
        };
        log.push(request);
        op.step(reply);
    }
}

#[test]
fn without_registers_nothing_happens() {
    assert_eq!(drive(0, 0xffff_ffff, 0xffff_ffff).len(), 1);
}

#[test]
fn stray_interrupt_is_left_alone() {
    assert_eq!(drive(0x1000, 0, 0).len(), 3);
    // A command's end is for the task that waits for it.
    assert_eq!(drive(0x1000, 0x4, 0).len(), 3);
}

#[test]
fn finished_receive_wakes_the_task() {
    let log = drive(0x1000, 0xc, 0x102);
    assert_eq!(log.len(), 7);
    assert!(matches!(log[3], Request::Write(Reg::Idsts, 0x102)));
    assert!(matches!(log[4], Request::Write(Reg::Rintsts, 0x8)));
    assert!(matches!(log[5], Request::SetDone(true)));
    assert!(matches!(log[6], Request::NotifyOne));
}

#[test]
fn idmac_error_is_marked() {
    for idsts in [0x4, 0x10, 0x20] {
        let log = drive(0x1000, 0, idsts);
        assert_eq!(log.len(), 7);
        assert!(matches!(log[3], Request::SetError(true)));
        assert!(matches!(log[4], Request::Write(Reg::Idsts, word) if word == idsts));
        assert!(matches!(log[5], Request::SetDone(true)));
        assert!(matches!(log[6], Request::NotifyOne));
    }
}

#[test]
fn controller_error_is_marked() {
    let log = drive(0x1000, 0x80, 0);
    assert_eq!(log.len(), 6);
    assert!(matches!(log[3], Request::SetError(true)));
    assert!(matches!(log[4], Request::SetDone(true)));
    assert!(matches!(log[5], Request::NotifyOne));
}

#[test]
fn everything_at_once() {
    let log = drive(0x1000, 0xffff_ffff, 0x337);
    assert_eq!(log.len(), 9);
    assert!(matches!(log[3], Request::SetError(true)));
    assert!(matches!(log[4], Request::Write(Reg::Idsts, 0x337)));
    assert!(matches!(log[5], Request::SetError(true)));
    assert!(matches!(log[6], Request::Write(Reg::Rintsts, 0x38)));
}
