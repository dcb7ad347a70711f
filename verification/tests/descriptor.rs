use sdmmc::dma::{IdmacDes0, IdmacDes1, IdmacDescriptor};
use sdmmc::sdmmc::AHBDataWidth;

#[test]
fn fresh_descriptor_is_zero() {
    let desc = IdmacDescriptor::new();
    assert_eq!(desc.des0.bits, 0);
    assert_eq!(desc.des1.bits, 0);
    assert_eq!(desc.des2, 0);
    assert_eq!(desc.des3, 0);
    assert_eq!(IdmacDes0::default(), IdmacDes0::new());
    assert_eq!(IdmacDes1::default(), IdmacDes1::new());
}

#[test]
fn control_fields_have_their_bits() {
    let flags = [
        (31, [true, false, false, false, false, false, false]),
        (30, [false, true, false, false, false, false, false]),
        (5, [false, false, true, false, false, false, false]),
        (4, [false, false, false, true, false, false, false]),
        (3, [false, false, false, false, true, false, false]),
        (2, [false, false, false, false, false, true, false]),
        (1, [false, false, false, false, false, false, true]),
    ];
    for (index, f) in flags {
        let mut desc = IdmacDescriptor::new();
        desc.set_desc0_control_descriptor(f[0], f[1], f[2], f[3], f[4], f[5], f[6]);
        assert_eq!(desc.des0.bits, 1u32 << index);
    }
}

#[test]
fn control_word_is_written_afresh() {
    let mut desc = IdmacDescriptor::new();
    desc.des0.bits = 0xffff_ffff;
    desc.des2 = 7;
    desc.set_desc0_control_descriptor(true, false, false, false, true, true, false);
    assert_eq!(desc.des0.bits, 0x8000_000c);
    assert!(desc.des0.ownership() && desc.des0.fs() && desc.des0.ld());
    assert!(!desc.des0.ces() && !desc.des0.er() && !desc.des0.ch() && !desc.des0.dic());
    assert_eq!(desc.des2, 7);
}

#[test]
fn buffer_size_keeps_reserved_bits() {
    let mut desc = IdmacDescriptor::new();
    desc.des1.bits = 0xffff_e123;
    desc.set_des1_buffer1_size(512);
    assert_eq!(desc.des1.bits, 0xffff_e200);
    assert_eq!(desc.des1.bs1(), 512);
    desc.set_des1_buffer1_size(0x1fff);
    assert_eq!(desc.des1.bits, 0xffff_ffff);
    assert_eq!(desc.des1.bs1(), 0x1fff);
    desc.set_des1_buffer1_size(0);
    assert_eq!(desc.des1.bits, 0xffff_e000);
}

#[test]
fn addresses_go_to_their_words() {
    let mut desc = IdmacDescriptor::new();
    desc.set_des2_buffer1_address(0x1234_5678);
    desc.set_des3_next_descriptor_address(0x9abc_def0);
    assert_eq!((desc.des0.bits, desc.des1.bits), (0, 0));
    assert_eq!((desc.des2, desc.des3), (0x1234_5678, 0x9abc_def0));
}

#[test]
fn alignment_follows_bus_width() {
    assert_eq!(AHBDataWidth::Bits16.align_value(), 2);
    assert_eq!(AHBDataWidth::Bits32.align_value(), 4);
    assert_eq!(AHBDataWidth::Bits64.align_value(), 8);
}
