//! What the words of registers, commands and descriptors mean, by their digits.
use vstd::prelude::*;

use crate::bits::{bit, with_bit};
use crate::bus::{poll, Request, WallTime};
use crate::cmd::{command_word_fields, Cmd, Command, DataXfer};
use crate::csd::CsdV2;
use crate::dma::{control_word, IdmacDes0};
use crate::enable::{idmac_interrupts, interrupts_enabled};
use crate::idmac::{block_size, descriptor_for, DmaRegion};
use crate::init::{address_arg, address_in, card_ready};
use crate::regs::{BMod, BlkSiz, Ctrl, IdIntEn, IdSts, IntMask, RIntSts, Reg, Status};

verus! {

/// A bit of a word is a binary digit of the number that the word is.
pub proof fn bit_is_a_digit(word: u32, index: u32)
    requires
        index < 32,
    ensures
        bit(word, index) <==> word as nat / vstd::arithmetic::power2::pow2(index as nat) % 2 == 1,
{
    vstd::bits::lemma_u32_shr_is_div(word, index);
    assert((word & (1u32 << index) != 0) == ((word >> index) % 2 == 1)) by (bit_vector)
        requires
            index < 32,
    ;
}

/// Setting a bit to `value` gives the word in which that digit is `value` and every
/// other one is as it was.
pub proof fn with_bit_sets_one_digit(word: u32, index: u32, value: bool)
    requires
        index < 32,
    ensures
        bit(with_bit(word, index, value), index) == value,
        forall|other: u32|
            other < 32 && other != index ==> #[trigger] bit(with_bit(word, index, value), other)
                == bit(word, other),
        bit(word, index) == value ==> with_bit(word, index, value) == word,
{
    crate::bits::lemma_with_bit(word, index, value, index);
    assert forall|other: u32| other < 32 && other != index implies #[trigger] bit(
        with_bit(word, index, value),
        other,
    ) == bit(word, other) by {
        crate::bits::lemma_with_bit(word, index, value, other);
    }
    assert((word & (1u32 << index) != 0 ==> word | (1u32 << index) == word) && (word & (1u32
        << index) == 0 ==> word & !(1u32 << index) == word)) by (bit_vector)
        requires
            index < 32,
    ;
}

/// Where each register is, as the hardware has it.
pub proof fn registers_are_where_they_are(reg: Reg)
    ensures
        reg == Reg::Ctrl ==> reg.offset() == 0x00,
        reg == Reg::Pwren ==> reg.offset() == 0x04,
        reg == Reg::Clkdiv ==> reg.offset() == 0x08,
        reg == Reg::Clkena ==> reg.offset() == 0x10,
        reg == Reg::Ctype ==> reg.offset() == 0x18,
        reg == Reg::Blksiz ==> reg.offset() == 0x1c,
        reg == Reg::Bytcnt ==> reg.offset() == 0x20,
        reg == Reg::Intmask ==> reg.offset() == 0x24,
        reg == Reg::Cmdarg ==> reg.offset() == 0x28,
        reg == Reg::Cmd ==> reg.offset() == 0x2c,
        reg == Reg::Rintsts ==> reg.offset() == 0x44,
        reg == Reg::Status ==> reg.offset() == 0x48,
        reg == Reg::Bmod ==> reg.offset() == 0x80,
        reg == Reg::Pldmnd ==> reg.offset() == 0x84,
        reg == Reg::Dbaddr ==> reg.offset() == 0x88,
        reg == Reg::Idsts ==> reg.offset() == 0x8c,
        reg == Reg::Idinten ==> reg.offset() == 0x90,
        crate::regs::RESP_OFFSET == 0x30,
        crate::regs::FIFO_OFFSET == 0x200,
{
}

/// The fields that are read out of the registers, each by the digits it stands in.
pub proof fn register_fields(word: u32)
    ensures
        (Ctrl { bits: word }).dma_reset() == bit(word, 2),
        (Ctrl { bits: word }).int_enable() == bit(word, 4),
        (Ctrl { bits: word }).use_internal_dmac() == bit(word, 25),
        (BMod { bits: word }).swr() == bit(word, 0),
        (BMod { bits: word }).fb() == bit(word, 1),
        (BMod { bits: word }).de() == bit(word, 7),
        (IntMask { bits: word }).dto() == bit(word, 3),
        (Status { bits: word }).data_busy() == bit(word, 9),
        (Status { bits: word }).fifo_count() == word / 0x2_0000 % 0x2000,
        (RIntSts { bits: word }).command_done() == bit(word, 2),
        (RIntSts { bits: word }).data_transfer_over() == bit(word, 3),
        (RIntSts { bits: word }).transmit_fifo_data_request() == bit(word, 4),
        (RIntSts { bits: word }).receive_fifo_data_request() == bit(word, 5),
        (RIntSts { bits: word }).error() == (bit(word, 1) || bit(word, 6) || bit(word, 7) || bit(
            word,
            8,
        ) || bit(word, 9) || bit(word, 10) || bit(word, 11) || bit(word, 12) || bit(word, 13)
            || bit(word, 15)),
        (RIntSts { bits: word }).pending() == (word != 0),
        (Cmd { bits: word }).start_cmd() == bit(word, 31),
        (Cmd { bits: word }).data_expected() == bit(word, 9),
        (Cmd { bits: word }).response_expect() == bit(word, 6),
        (Cmd { bits: word }).cmd_index() == word % 64,
{
    assert((word >> 17u32) & 0x1fffu32 == word / 0x2_0000u32 % 0x2000u32) by (bit_vector);
    lemma_errors(word);
}

/// The errors among the bits of the interrupt status.
proof fn lemma_errors(word: u32)
    ensures
        word & 0xbfc2 != 0 <==> (bit(word, 1) || bit(word, 6) || bit(word, 7) || bit(word, 8)
            || bit(word, 9) || bit(word, 10) || bit(word, 11) || bit(word, 12) || bit(word, 13)
            || bit(word, 15)),
{
    assert((word & 0xbfc2 != 0) == (bit(word, 1) || bit(word, 6) || bit(word, 7) || bit(word, 8)
        || bit(word, 9) || bit(word, 10) || bit(word, 11) || bit(word, 12) || bit(word, 13) || bit(
        word,
        15,
    ))) by (bit_vector);
}

/// The fields of the IDMAC's status and of its interrupt enables: the causes of both
/// stand in the same places.
pub proof fn idmac_fields(word: u32)
    ensures
        (IdSts { bits: word }).ti() == bit(word, 0),
        (IdSts { bits: word }).ri() == bit(word, 1),
        (IdSts { bits: word }).fbe() == bit(word, 2),
        (IdSts { bits: word }).du() == bit(word, 4),
        (IdSts { bits: word }).ces() == bit(word, 5),
        (IdSts { bits: word }).nis() == bit(word, 8),
        (IdSts { bits: word }).ais() == bit(word, 9),
        (IdSts { bits: word }).failed() == (bit(word, 2) || bit(word, 4) || bit(word, 5)),
        (IdSts { bits: word }).pending() == (bit(word, 0) || bit(word, 1) || bit(word, 2) || bit(
            word,
            4,
        ) || bit(word, 5) || bit(word, 8) || bit(word, 9)),
        (IdIntEn { bits: word }).ti() == bit(word, 0),
        (IdIntEn { bits: word }).ri() == bit(word, 1),
        (IdIntEn { bits: word }).fbe() == bit(word, 2),
        (IdIntEn { bits: word }).du() == bit(word, 4),
        (IdIntEn { bits: word }).ces() == bit(word, 5),
        (IdIntEn { bits: word }).ni() == bit(word, 8),
        (IdIntEn { bits: word }).ai() == bit(word, 9),
        interrupts_enabled(IdIntEn { bits: word }) == (bit(word, 0) && bit(word, 1) && bit(word, 2)
            && bit(word, 4) && bit(word, 5) && bit(word, 8) && bit(word, 9)),
{
}

/// The interrupts that DMA mode enables are those of the causes that end a transfer,
/// and they enable nothing else.
pub proof fn enabled_interrupts_word()
    ensures
        idmac_interrupts().bits == 0x337,
        interrupts_enabled(idmac_interrupts()),
{
    let a: u32 = with_bit(0, 8, true);
    let b: u32 = with_bit(a, 9, true);
    let c: u32 = with_bit(b, 0, true);
    let d: u32 = with_bit(c, 1, true);
    let e: u32 = with_bit(d, 2, true);
    let f: u32 = with_bit(e, 4, true);
    let g: u32 = with_bit(f, 5, true);
    assert(g == 0x337 && bit(g, 0) && bit(g, 1) && bit(g, 2) && bit(g, 4) && bit(g, 5) && bit(g, 8)
        && bit(g, 9)) by (bit_vector)
        requires
            a == with_bit(0, 8, true),
            b == with_bit(a, 9, true),
            c == with_bit(b, 0, true),
            d == with_bit(c, 1, true),
            e == with_bit(d, 2, true),
            f == with_bit(e, 4, true),
            g == with_bit(f, 5, true),
    ;
}

/// Updates of a register change the one field that they are named after.
pub proof fn register_updates(word: u32, value: bool, size: u16)
    ensures
        (Ctrl { bits: word }).with_dma_reset(value).bits == with_bit(word, 2, value),
        (Ctrl { bits: word }).with_int_enable(value).bits == with_bit(word, 4, value),
        (Ctrl { bits: word }).with_use_internal_dmac(value).bits == with_bit(word, 25, value),
        (BMod { bits: word }).with_swr(value).bits == with_bit(word, 0, value),
        (BMod { bits: word }).with_fb(value).bits == with_bit(word, 1, value),
        (BMod { bits: word }).with_de(value).bits == with_bit(word, 7, value),
        (IntMask { bits: word }).with_dto(value).bits == with_bit(word, 3, value),
        (IdSts { bits: word }).with_du(value).bits == with_bit(word, 4, value),
        (IdIntEn { bits: word }).with_ti(value).bits == with_bit(word, 0, value),
        (IdIntEn { bits: word }).with_ri(value).bits == with_bit(word, 1, value),
        (IdIntEn { bits: word }).with_fbe(value).bits == with_bit(word, 2, value),
        (IdIntEn { bits: word }).with_du(value).bits == with_bit(word, 4, value),
        (IdIntEn { bits: word }).with_ces(value).bits == with_bit(word, 5, value),
        (IdIntEn { bits: word }).with_ni(value).bits == with_bit(word, 8, value),
        (IdIntEn { bits: word }).with_ai(value).bits == with_bit(word, 9, value),
        (RIntSts { bits: word }).with_data_transfer_over(value).bits == with_bit(word, 3, value),
        (RIntSts { bits: word }).with_transmit_fifo_data_request(value).bits == with_bit(
            word,
            4,
            value,
        ),
        (RIntSts { bits: word }).with_receive_fifo_data_request(value).bits == with_bit(
            word,
            5,
            value,
        ),
        (BlkSiz { bits: word }).with_block_size(size).bits == word / 0x1_0000 * 0x1_0000 + size,
        IdSts::new().bits == 0,
        IdIntEn::new().bits == 0,
        RIntSts::new().bits == 0,
{
    let low: u32 = size as u32;
    assert((word & 0xffff_0000) | low == word / 0x1_0000 * 0x1_0000 + low) by (bit_vector)
        requires
            low <= 0xffff,
    ;
}

/// What goes into the command register, for every command, and what the argument is.
pub open spec fn wire_word<B>(command: Command<B>) -> u32 {
    match command {
        Command::ResetClock => 0x8020_2000,
        Command::GoIdleState => 0xa000_a000,
        Command::AllSendCid => 0xa000_21c2,
        Command::SendRelativeAddr => 0xa000_2143,
        Command::SelectCard(_) => 0xa000_2147,
        Command::SendIfCond(_) => 0xa000_2148,
        Command::SendCsd(_) => 0xa000_21c9,
        Command::ReadSingleBlock(_, _) => 0xa000_2351,
        Command::WriteSingleBlock(_, _) => 0xa000_2758,
        Command::SdSendOpCond(_) => 0xa000_2069,
        Command::SendScr(_) => 0xa000_2373,
        Command::AppCmd(_) => 0xa000_2177,
    }
}

/// The argument that a command carries; zero for one that carries none.
pub open spec fn wire_arg<B>(command: Command<B>) -> u32 {
    match command {
        Command::SelectCard(arg) => arg,
        Command::SendIfCond(arg) => arg,
        Command::SendCsd(arg) => arg,
        Command::SdSendOpCond(arg) => arg,
        Command::AppCmd(arg) => arg,
        Command::ReadSingleBlock(block, _) => block,
        Command::WriteSingleBlock(block, _) => block,
        _ => 0,
    }
}

/// The data that a command reads, if it reads any.
pub open spec fn data_read<B>(command: Command<B>) -> Option<B> {
    match command {
        Command::ReadSingleBlock(_, buf) => Some(buf),
        Command::SendScr(buf) => Some(buf),
        _ => None,
    }
}

/// The data that a command writes, if it writes any.
pub open spec fn data_written<B>(command: Command<B>) -> Option<B> {
    match command {
        Command::WriteSingleBlock(_, buf) => Some(buf),
        _ => None,
    }
}

/// Whether the card answers a command.
pub open spec fn is_answered<B>(command: Command<B>) -> bool {
    !(command is ResetClock) && !(command is GoIdleState)
}

/// Every command goes over the wire as its word and its argument, and has the data
/// that it reads or writes.
pub proof fn commands_on_the_wire<B>(command: Command<B>)
    ensures
        command.word().bits == wire_word(command),
        command.arg() == wire_arg(command),
        command.xfer() == match (data_read(command), data_written(command)) {
            (Some(buf), _) => Some(DataXfer::Read(buf)),
            (None, Some(buf)) => Some(DataXfer::Write(buf)),
            (None, None) => None,
        },
        command.word().response_expect() == is_answered(command),
        command.word().data_expected() == (command.xfer() is Some),
{
    command_word_fields(command);
    assert({
        &&& (0x8000_0000u32 | 0x2000 | 0x20_0000) == 0x8020_2000u32
        &&& (0x8000_0000u32 | 0x2000_0000 | 0x2000) == 0xa000_2000u32
        &&& (0x40u32 | 0x100) == 0x140u32
        &&& (0xa000_2000u32 | 0x8000) == 0xa000_a000u32
        &&& (0xa000_2000u32 | 0x140 | 0x80 | 2) == 0xa000_21c2u32
        &&& (0xa000_2000u32 | 0x140 | 3) == 0xa000_2143u32
        &&& (0xa000_2000u32 | 0x140 | 7) == 0xa000_2147u32
        &&& (0xa000_2000u32 | 0x140 | 8) == 0xa000_2148u32
        &&& (0xa000_2000u32 | 0x140 | 0x80 | 9) == 0xa000_21c9u32
        &&& (0xa000_2000u32 | 0x140 | 0x200 | 17) == 0xa000_2351u32
        &&& (0xa000_2000u32 | 0x140 | 0x200 | 0x400 | 24) == 0xa000_2758u32
        &&& (0xa000_2000u32 | 0x40 | 41) == 0xa000_2069u32
        &&& (0xa000_2000u32 | 0x140 | 0x200 | 51) == 0xa000_2373u32
        &&& (0xa000_2000u32 | 0x140 | 55) == 0xa000_2177u32
    }) by (bit_vector);
}

/// A card's capacity follows from 22 bits of its register: the high half of the
/// second word and, above it, the low six bits of the third.
pub proof fn capacity_of_words(words: [u32; 4])
    ensures
        (CsdV2 { words }).capacity() == (words[1] / 0x1_0000 + words[2] % 64 * 0x1_0000 + 1) * 1024,
{
    let w0 = words[0] as int;
    let w1 = words[1] as int;
    let w2 = words[2] as int;
    let w3 = words[3] as int;
    let rest = w1 % 0x1_0000 * 0x1_0000_0000 + w0;
    let units = w1 / 0x1_0000 + w2 * 0x1_0000 + w3 * 0x1_0000_0000_0000;
    assert((CsdV2 { words }).value() == units * 0x1_0000_0000_0000 + rest);
    assert((CsdV2 { words }).value() / 0x1_0000_0000_0000 == units);
    assert(units == w1 / 0x1_0000 + w2 % 64 * 0x1_0000 + (w2 / 64 + w3 * 0x400_0000) * 0x40_0000);
    assert(units % 0x40_0000 == w1 / 0x1_0000 + w2 % 64 * 0x1_0000);
}

/// A descriptor's control word is the sum of its fields, each in its place.
pub proof fn control_word_is_its_fields(
    own: bool,
    ces: bool,
    er: bool,
    ch: bool,
    fs: bool,
    ld: bool,
    dic: bool,
)
    ensures
        ({
            let digit = |set: bool, weight: int|
                if set {
                    weight
                } else {
                    0
                };
            control_word(own, ces, er, ch, fs, ld, dic).bits == digit(own, 0x8000_0000) + digit(
                ces,
                0x4000_0000,
            ) + digit(er, 0x20) + digit(ch, 0x10) + digit(fs, 8) + digit(ld, 4) + digit(dic, 2)
        }),
{
    let w1: u32 = with_bit(0, 31, own);
    let w2: u32 = with_bit(w1, 30, ces);
    let w3: u32 = with_bit(w2, 5, er);
    let w4: u32 = with_bit(w3, 4, ch);
    let w5: u32 = with_bit(w4, 3, fs);
    let w6: u32 = with_bit(w5, 2, ld);
    let w7: u32 = with_bit(w6, 1, dic);
    assert(w7 == (if own {
        0x8000_0000u32
    } else {
        0
    }) + (if ces {
        0x4000_0000u32
    } else {
        0
    }) + (if er {
        0x20u32
    } else {
        0
    }) + (if ch {
        0x10u32
    } else {
        0
    }) + (if fs {
        8u32
    } else {
        0
    }) + (if ld {
        4u32
    } else {
        0
    }) + (if dic {
        2u32
    } else {
        0
    })) by (bit_vector)
        requires
            w1 == with_bit(0, 31, own),
            w2 == with_bit(w1, 30, ces),
            w3 == with_bit(w2, 5, er),
            w4 == with_bit(w3, 4, ch),
            w5 == with_bit(w4, 3, fs),
            w6 == with_bit(w5, 2, ld),
            w7 == with_bit(w6, 1, dic),
    ;
}

/// The fields of a descriptor's control word, and what setting them does.
pub proof fn control_fields(word: u32, value: bool)
    ensures
        (IdmacDes0 { bits: word }).ownership() == bit(word, 31),
        (IdmacDes0 { bits: word }).ces() == bit(word, 30),
        (IdmacDes0 { bits: word }).er() == bit(word, 5),
        (IdmacDes0 { bits: word }).ch() == bit(word, 4),
        (IdmacDes0 { bits: word }).fs() == bit(word, 3),
        (IdmacDes0 { bits: word }).ld() == bit(word, 2),
        (IdmacDes0 { bits: word }).dic() == bit(word, 1),
        (IdmacDes0 { bits: word }).with_ownership(value).bits == with_bit(word, 31, value),
        (IdmacDes0 { bits: word }).with_ces(value).bits == with_bit(word, 30, value),
        (IdmacDes0 { bits: word }).with_er(value).bits == with_bit(word, 5, value),
        (IdmacDes0 { bits: word }).with_ch(value).bits == with_bit(word, 4, value),
        (IdmacDes0 { bits: word }).with_fs(value).bits == with_bit(word, 3, value),
        (IdmacDes0 { bits: word }).with_ld(value).bits == with_bit(word, 2, value),
        (IdmacDes0 { bits: word }).with_dic(value).bits == with_bit(word, 1, value),
        IdmacDes0::new().bits == 0,
        crate::dma::IdmacDes1::new().bits == 0,
{
}

/// The descriptor of a transfer: the IDMAC's own, first and last of its transfer,
/// with the length of the memory, its address, and no successor.
pub proof fn descriptor_words(region: DmaRegion)
    ensures
        descriptor_for(region).des0.bits == 0x8000_000c,
        region.len <= 0xffff ==> descriptor_for(region).des1.bits == region.len,
        descriptor_for(region).des1.bits == region.len % 0x1_0000,
        descriptor_for(region).des2 == region.addr as int % 0x1_0000_0000,
        descriptor_for(region).des3 == 0,
        block_size(region.len) == (if region.len < 512 {
            region.len as int
        } else {
            512
        }),
{
    control_word_is_its_fields(true, false, false, false, true, true, false);
    let len: usize = region.len;
    let addr: u64 = region.addr as u64;
    assert(len as u16 == len % 0x1_0000) by (bit_vector);
    assert(addr as u32 == addr % 0x1_0000_0000u64) by (bit_vector);
}

/// Time is reached to the nanosecond.
pub proof fn deadlines_by_the_nanosecond(now: WallTime, start: WallTime, secs: u32)
    ensures
        now.has_reached(start, secs) <==> now.secs * 1_000_000_000 + now.nanos >= (start.secs
            + secs) * 1_000_000_000 + start.nanos,
{
}

/// The first poll of a register is a plain read, and every further one a read after
/// a spin hint.
pub proof fn polls_read_their_register(reg: Reg)
    ensures
        poll(reg, false) == Request::Read(reg),
        poll(reg, true) == Request::Retry(reg),
{
}

/// What is taken out of a card's answers, and how the card is addressed: it is ready by
/// the top bit of the first word; its address is that word's high half, and stands there
/// in arguments.
pub proof fn answers_of_the_card(words: [u32; 4], rca: u32)
    ensures
        card_ready(Some(words)) <==> words[0] >= 0x8000_0000,
        !card_ready(None),
        address_in(words[0]) == words[0] / 0x1_0000,
        address_arg(rca) == rca % 0x1_0000 * 0x1_0000,
{
    let word: u32 = words[0];
    assert((word & 0x8000_0000 != 0) == (word >= 0x8000_0000)) by (bit_vector);
    assert((word >> 16u32) & 0xffff == word / 0x1_0000) by (bit_vector);
    assert(rca << 16u32 == rca % 0x1_0000 * 0x1_0000) by (bit_vector);
}

} // verus!
