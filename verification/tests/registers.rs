use sdmmc::bits::{assign_bit, test_bit};
use sdmmc::bus::WallTime;
use sdmmc::cmd::{Command, DataXfer};
use sdmmc::csd::CsdV2;
use sdmmc::enable::{idmac_interrupts, interrupts_enabled};
use sdmmc::interrupt::{concerns_data, data_bits};
use sdmmc::regs::{BMod, BlkSiz, Ctrl, IdIntEn, IdSts, RIntSts, Reg, Status};

#[test]
fn one_bit_at_a_time() {
    assert!(test_bit(0x8000_0000, 31));
    assert!(!test_bit(0x7fff_ffff, 31));
    assert_eq!(assign_bit(0xf0, 0, true), 0xf1);
    assert_eq!(assign_bit(0xf0, 4, false), 0xe0);
    assert_eq!(assign_bit(0xf0, 4, true), 0xf0);
}

#[test]
fn updates_keep_other_bits() {
    let bmod = BMod { bits: 0xffff_ff00 };
    assert_eq!(bmod.with_de(false).with_swr(true).bits, 0xffff_ff01 & !0x80);
    assert_eq!(bmod.with_de(true).with_fb(true).bits, 0xffff_ff82);
    let ctrl = Ctrl { bits: 0x1 };
    assert_eq!(ctrl.with_use_internal_dmac(true).with_int_enable(true).bits, 0x0200_0011);
    assert_eq!(BlkSiz { bits: 0xabcd_1234 }.with_block_size(512).bits, 0xabcd_0200);
}

#[test]
fn registers_have_their_offsets() {
    assert_eq!(Reg::Ctrl.offset(), 0x00);
    assert_eq!(Reg::Cmd.offset(), 0x2c);
    assert_eq!(Reg::Rintsts.offset(), 0x44);
    assert_eq!(Reg::Status.offset(), 0x48);
    assert_eq!(Reg::Bmod.offset(), 0x80);
    assert_eq!(Reg::Idinten.offset(), 0x90);
}

#[test]
fn errors_of_the_interrupt_status() {
    for index in 0..32u32 {
        let expected = matches!(index, 1 | 6..=13 | 15);
        assert_eq!(RIntSts { bits: 1 << index }.error(), expected, "bit {index}");
    }
    assert!(!RIntSts { bits: 0 }.pending());
    assert!(RIntSts { bits: 0x4000 }.pending());
}

#[test]
fn causes_of_the_idmac_status() {
    for index in 0..32u32 {
        let idsts = IdSts { bits: 1 << index };
        assert_eq!(idsts.failed(), matches!(index, 2 | 4 | 5), "bit {index}");
        assert_eq!(idsts.pending(), matches!(index, 0 | 1 | 2 | 4 | 5 | 8 | 9), "bit {index}");
    }
}

#[test]
fn fifo_count_is_thirteen_bits() {
    assert_eq!(Status { bits: 0xffff_ffff }.fifo_count(), 0x1fff);
    assert_eq!(Status { bits: 2 << 17 }.fifo_count(), 2);
    assert!(Status { bits: 0x200 }.data_busy());
}

#[test]
fn idmac_interrupts_are_all_enabled() {
    assert_eq!(idmac_interrupts().bits, 0x337);
    assert!(interrupts_enabled(IdIntEn { bits: 0x337 }));
    for index in [0, 1, 2, 4, 5, 8, 9] {
        assert!(!interrupts_enabled(IdIntEn { bits: 0x337 & !(1 << index) }));
    }
}

#[test]
fn only_data_bits_are_acknowledged() {
    assert_eq!(data_bits(RIntSts { bits: 0xffff_ffff }).bits, 0x38);
    assert_eq!(data_bits(RIntSts { bits: 0x8018 }).bits, 0x18);
    assert!(!concerns_data(RIntSts { bits: !0x38 }));
}

#[test]
fn commands_build_their_words() {
    let words = [
        (Command::ResetClock, 0x8020_2000, 0),
        (Command::GoIdleState, 0xa000_a000, 0),
        (Command::AllSendCid, 0xa000_21c2, 0),
        (Command::SendRelativeAddr, 0xa000_2143, 0),
        (Command::SelectCard(1 << 16), 0xa000_2147, 1 << 16),
        (Command::SendIfCond(0x1aa), 0xa000_2148, 0x1aa),
        (Command::SendCsd(2 << 16), 0xa000_21c9, 2 << 16),
        (Command::ReadSingleBlock(9, ()), 0xa000_2351, 9),
        (Command::WriteSingleBlock(8, ()), 0xa000_2758, 8),
        (Command::SdSendOpCond(0x41ff_8000), 0xa000_2069, 0x41ff_8000),
        (Command::SendScr(()), 0xa000_2373, 0),
        (Command::AppCmd(5), 0xa000_2177, 5),
    ];
    for (command, word, expected_arg) in words {
        let (cmd, arg, xfer) = command.build();
        assert_eq!(cmd.bits, word);
        assert_eq!(arg, expected_arg);
        assert_eq!(cmd.data_expected(), xfer.is_some());
        assert!(cmd.start_cmd());
    }
    assert!(matches!(Command::ReadSingleBlock(1, 7u8).build().2, Some(DataXfer::Read(7))));
    assert!(matches!(Command::WriteSingleBlock(1, 7u8).build().2, Some(DataXfer::Write(7))));
}

#[test]
fn capacity_is_in_bits_69_to_48() {
    assert_eq!(CsdV2 { words: [0; 4] }.num_blocks(), 1024);
    assert_eq!(CsdV2 { words: [0xffff_ffff, 0xffff, 0xffff_ffc0, 0xffff_ffff] }.num_blocks(), 1024);
    assert_eq!(CsdV2 { words: [0, 0x3b37_0000, 0, 0] }.num_blocks(), (0x3b37 + 1) * 1024);
    assert_eq!(CsdV2 { words: [0, 0, 1, 0] }.num_blocks(), (0x1_0000 + 1) * 1024);
    assert_eq!(CsdV2 { words: [0xffff_ffff; 4] }.num_blocks(), 1 << 32);
}

#[test]
fn deadlines_are_reached_to_the_nanosecond() {
    let start = WallTime { secs: 10, nanos: 500 };
    assert!(!WallTime { secs: 11, nanos: 499 }.reached(start, 1));
    assert!(WallTime { secs: 11, nanos: 500 }.reached(start, 1));
    assert!(WallTime { secs: 10, nanos: 500 }.reached(start, 0));
    assert!(!WallTime { secs: u64::MAX, nanos: 0 }.reached(WallTime { secs: u64::MAX, nanos: 0 }, 5));
}
