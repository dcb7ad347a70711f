//! What the bring-up must ask for next, by what was asked and answered before.
//!
//! The bring-up is a list of things to do: a single request, or a whole command to the
//! card. What comes next on the list depends on how the earlier ones came out.
use vstd::prelude::*;

use crate::bits::with_bit;
use crate::bus::{after, outstanding, valid_run, Protocol, Reply, Request};
use crate::cmd::Command;
use crate::csd::{capacity_range, CsdV2};
use crate::field_laws::{capacity_of_words, register_updates, wire_arg};
use crate::init::{address_arg, Init, InitOutcome, InitStage};
use crate::regs::Reg;
use crate::send::{sendable, SendCmd};
use crate::send_course_laws::command_takes_its_course;

verus! {

/// A thing to do.
pub enum Item {
    /// One request.
    Ask(Request),
    /// A command, from its beginning to its end.
    Say(Command<Seq<u8>>),
    /// Nothing: the bring-up is over.
    Over(InitOutcome),
}

/// How a thing came out.
pub enum Outcome {
    /// The reply to a request.
    Heard(Reply),
    /// The response to a command, or nothing where it ended in an error.
    Answered(Option<[u32; 4]>),
}

/// Where the bring-up is in its list.
pub struct Plan {
    /// What is to be done now.
    pub item: Item,
    /// What was done before that.
    pub previous: Item,
    /// How often the card was asked to get ready.
    pub attempts: nat,
}

/// The word in outcome number `i`.
pub open spec fn word_in(past: Seq<Outcome>, i: int) -> u32 {
    past[i]->Heard_0->Word_0
}

/// The first seventeen things: stale interrupts are acknowledged as they were read, the
/// clock is stopped, divided by 100 and started, the card gets power and time, the bus
/// one bit, DMA is switched off and reset, the card is reset and offered a voltage.
pub open spec fn opening(past: Seq<Outcome>) -> Item {
    let n = past.len();
    if n == 0 {
        Item::Ask(Request::Read(Reg::Rintsts))
    } else if n == 1 {
        Item::Ask(Request::Write(Reg::Rintsts, word_in(past, 0)))
    } else if n == 2 {
        Item::Ask(Request::Write(Reg::Clkena, 0))
    } else if n == 3 || n == 6 {
        Item::Say(Command::ResetClock)
    } else if n == 4 {
        Item::Ask(Request::Write(Reg::Clkdiv, 100))
    } else if n == 5 {
        Item::Ask(Request::Write(Reg::Clkena, 1))
    } else if n == 7 {
        Item::Ask(Request::Delay(10_000))
    } else if n == 8 {
        Item::Ask(Request::Write(Reg::Pwren, 1))
    } else if n == 9 {
        Item::Ask(Request::Delay(100_000))
    } else if n == 10 {
        Item::Ask(Request::Write(Reg::Ctype, 0))
    } else if n == 11 {
        Item::Ask(Request::Read(Reg::Bmod))
    } else if n == 12 {
        Item::Ask(
            Request::Write(Reg::Bmod, with_bit(with_bit(word_in(past, 11), 7, false), 0, true)),
        )
    } else if n == 13 {
        Item::Ask(Request::Read(Reg::Ctrl))
    } else if n == 14 {
        Item::Ask(
            Request::Write(Reg::Ctrl, with_bit(with_bit(word_in(past, 13), 2, true), 25, false)),
        )
    } else if n == 15 {
        Item::Say(Command::GoIdleState)
    } else {
        Item::Say(Command::SendIfCond(0x1aa))
    }
}

/// A buffer of 512 zeroes.
pub open spec fn zeroes() -> Seq<u8> {
    Seq::new(512, |i: int| 0u8)
}

impl Plan {
    /// Goes on to `item`.
    pub open spec fn next(self, item: Item) -> Plan {
        Plan { item, previous: self.item, attempts: self.attempts }
    }

    /// The card is asked once more to get ready, but not more than a hundred times.
    pub open spec fn try_again(self) -> Plan {
        if self.attempts < 100 {
            Plan {
                item: Item::Say(Command::AppCmd(0)),
                previous: self.item,
                attempts: self.attempts + 1,
            }
        } else {
            self.next(Item::Over(InitOutcome::CardNotReady))
        }
    }

    /// What follows on the outcome of the thing to do. A card that heard the
    /// announcement is asked whether it is ready, which it is by the top bit of its
    /// answer. A ready card is asked for its identification and its address. What it
    /// answered in the high half of the first word is the argument of the commands
    /// that follow, by which it is asked for its capacity and selected. Then eight bytes
    /// of its configuration are read.
    pub open spec fn once(self, outcome: Outcome) -> Plan {
        let selected = self.previous matches Item::Say(Command::SelectCard(_));
        match (self.item, outcome) {
            (Item::Say(Command::AppCmd(_)), Outcome::Answered(answer)) => if selected {
                self.next(Item::Ask(Request::Read(Reg::Blksiz)))
            } else if answer is None {
                self.try_again()
            } else {
                self.next(Item::Say(Command::SdSendOpCond(0x41ff_8000)))
            },
            (Item::Say(Command::SdSendOpCond(_)), Outcome::Answered(answer)) => match answer {
                Some(words) if words[0] >= 0x8000_0000 => self.next(Item::Say(Command::AllSendCid)),
                _ => self.next(Item::Ask(Request::Delay(1))),
            },
            (Item::Ask(Request::Delay(_)), _) => self.try_again(),
            (Item::Say(Command::AllSendCid), Outcome::Answered(answer)) => if answer is None {
                self.next(Item::Over(InitOutcome::NoIdentification))
            } else {
                self.next(Item::Say(Command::SendRelativeAddr))
            },
            (Item::Say(Command::SendRelativeAddr), Outcome::Answered(answer)) => match answer {
                None => self.next(Item::Over(InitOutcome::NoAddress)),
                Some(words) => self.next(
                    Item::Say(Command::SendCsd((words[0] / 0x1_0000 * 0x1_0000) as u32)),
                ),
            },
            (Item::Say(Command::SendCsd(address)), _) => self.next(
                Item::Say(Command::SelectCard(address)),
            ),
            (Item::Say(Command::SelectCard(address)), _) => self.next(
                Item::Say(Command::AppCmd(address)),
            ),
            (Item::Ask(Request::Read(Reg::Blksiz)), Outcome::Heard(Reply::Word(word))) => self.next(
                Item::Ask(Request::Write(Reg::Blksiz, (word / 0x1_0000 * 0x1_0000 + 8) as u32)),
            ),
            (Item::Ask(Request::Write(Reg::Blksiz, _)), _) => self.next(
                Item::Ask(Request::Write(Reg::Bytcnt, 8)),
            ),
            (Item::Ask(Request::Write(Reg::Bytcnt, _)), _) => self.next(
                Item::Say(Command::SendScr(zeroes())),
            ),
            (Item::Say(Command::SendScr(_)), _) => self.next(Item::Ask(Request::ReadFifo)),
            (Item::Ask(Request::ReadFifo), _) => self.next(Item::Ask(Request::Read(Reg::Rintsts))),
            (Item::Ask(Request::Read(Reg::Rintsts)), Outcome::Heard(Reply::Word(word))) => {
                self.next(Item::Ask(Request::Write(Reg::Rintsts, word)))
            },
            _ => self.next(Item::Over(InitOutcome::Completed)),
        }
    }
}

/// Where the bring-up is in its list after the outcomes `past`.
pub open spec fn plan(past: Seq<Outcome>) -> Plan
    decreases past.len(),
{
    if past.len() < 17 {
        let item = opening(past);
        Plan { item, previous: item, attempts: 0 }
    } else if past.len() == 17 {
        Plan {
            item: Item::Say(Command::AppCmd(0)),
            previous: Item::Say(Command::SendIfCond(0x1aa)),
            attempts: 1,
        }
    } else {
        plan(past.drop_last()).once(past.last())
    }
}

/// The outcomes so far, and the replies that the command on its way has had.
pub open spec fn so_far(replies: Seq<Reply>) -> (Seq<Outcome>, Seq<Reply>)
    decreases replies.len(),
{
    if replies.len() == 0 {
        (Seq::empty(), Seq::empty())
    } else {
        let (past, part) = so_far(replies.drop_last());
        match plan(past).item {
            Item::Ask(_) => (past.push(Outcome::Heard(replies.last())), Seq::empty()),
            Item::Say(command) => match after(
                SendCmd::begin(command),
                part.push(replies.last()),
            ).result() {
                Some(answer) => (past.push(Outcome::Answered(answer)), Seq::empty()),
                None => (past, part.push(replies.last())),
            },
            Item::Over(_) => (past, part),
        }
    }
}

/// The number of blocks after the outcomes `past`: that of the card's register where it
/// was answered, none where that command ended in an error, and else `before`.
pub open spec fn blocks_known(before: u64, past: Seq<Outcome>) -> int
    decreases past.len(),
{
    if past.len() == 0 {
        before as int
    } else {
        match (plan(past.drop_last()).item, past.last()) {
            (Item::Say(Command::SendCsd(_)), Outcome::Answered(Some(words))) => (words[1] / 0x1_0000
                + words[2] % 64 * 0x1_0000 + 1) * 1024,
            (Item::Say(Command::SendCsd(_)), Outcome::Answered(None)) => 0,
            _ => blocks_known(before, past.drop_last()),
        }
    }
}

/// What is due, by the traffic so far.
pub open spec fn due(replies: Seq<Reply>) -> Request {
    let (past, part) = so_far(replies);
    match plan(past).item {
        Item::Ask(request) => request,
        Item::Say(command) => outstanding(SendCmd::begin(command), part),
        Item::Over(_) => Request::Finished,
    }
}

/// The command that goes with a stage that sends one.
spec fn command_of(s: Init<Seq<u8>>) -> Command<Seq<u8>> {
    match s.stage {
        InitStage::StopClock | InitStage::StartClock => Command::ResetClock,
        InitStage::GoIdle => Command::GoIdleState,
        InitStage::OfferVoltage => Command::SendIfCond(0x1aa),
        InitStage::Announce => Command::AppCmd(0),
        InitStage::AskReady => Command::SdSendOpCond(0x41ff_8000),
        InitStage::Identify => Command::AllSendCid,
        InitStage::AskAddress => Command::SendRelativeAddr,
        InitStage::AskCapacity => Command::SendCsd(address_arg(s.rca)),
        InitStage::Select => Command::SelectCard(address_arg(s.rca)),
        InitStage::AnnounceScr => Command::AppCmd(address_arg(s.rca)),
        _ => Command::SendScr(zeroes()),
    }
}

/// The number of an opening stage.
spec fn number(stage: InitStage) -> int {
    match stage {
        InitStage::ReadStatus => 0,
        InitStage::ClearStatus(_) => 1,
        InitStage::ClockOff => 2,
        InitStage::StopClock => 3,
        InitStage::Divide => 4,
        InitStage::ClockOn => 5,
        InitStage::StartClock => 6,
        InitStage::Settle => 7,
        InitStage::PowerOn => 8,
        InitStage::Stabilize => 9,
        InitStage::BusWidth => 10,
        InitStage::ReadBmod => 11,
        InitStage::WriteBmod(_) => 12,
        InitStage::ReadCtrl => 13,
        InitStage::WriteCtrl(_) => 14,
        InitStage::GoIdle => 15,
        InitStage::OfferVoltage => 16,
        _ => 17,
    }
}

/// What the list says of the stage.
spec fn tells_stage(s: Init<Seq<u8>>, past: Seq<Outcome>, part: Seq<Reply>, before: u64) -> bool {
    let p = plan(past);
    &&& s.num_blocks == blocks_known(before, past)
    &&& s.stage.sends() ==> {
        &&& p.item == Item::Say(command_of(s))
        &&& valid_run(SendCmd::begin(command_of(s)), part)
        &&& s.command == after(SendCmd::begin(command_of(s)), part)
        &&& s.command.result() is None
    }
    &&& !s.stage.sends() ==> {
        &&& part.len() == 0
        &&& match s.stage {
            InitStage::Finished(outcome) => p.item == Item::Over(outcome),
            _ => p.item == Item::Ask(s.asks()),
        }
    }
    &&& if number(s.stage) < 17 {
        past.len() == number(s.stage) && s.attempts == 0
    } else {
        &&& past.len() >= 17
        &&& s.attempts == p.attempts && s.attempts <= 100
        &&& p.previous matches Item::Say(Command::SelectCard(_)) ==> s.stage is AnnounceScr
        &&& s.stage is AnnounceScr ==> {
            &&& p.previous matches Item::Say(Command::SelectCard(_))
        }
    }
}

/// An outcome pushed onto the past is its last.
proof fn lemma_pushed(before: u64, past: Seq<Outcome>, outcome: Outcome)
    ensures
        past.push(outcome).drop_last() == past,
        past.push(outcome).last() == outcome,
        past.len() >= 17 ==> plan(past.push(outcome)) == plan(past).once(outcome),
        blocks_known(before, past.push(outcome)) == match (plan(past).item, outcome) {
            (Item::Say(Command::SendCsd(_)), Outcome::Answered(Some(words))) => (words[1] / 0x1_0000
                + words[2] % 64 * 0x1_0000 + 1) * 1024,
            (Item::Say(Command::SendCsd(_)), Outcome::Answered(None)) => 0,
            _ => blocks_known(before, past),
        },
{
    assert(past.push(outcome).drop_last() =~= past);
}

/// The card's address as an argument is the high half of the word that it came in.
proof fn lemma_address(word: u32)
    ensures
        address_arg(crate::init::address_in(word)) == word / 0x1_0000 * 0x1_0000,
        word & 0x8000_0000 != 0 <==> word >= 0x8000_0000,
{
    assert(((word >> 16) & 0xffff) << 16 == word / 0x1_0000 * 0x1_0000) by (bit_vector);
    assert((word & 0x8000_0000 != 0) == (word >= 0x8000_0000)) by (bit_vector);
}

/// A step of a stage that sends nothing.
#[verifier::rlimit(40)]
proof fn lemma_quiet_step(
    s: Init<Seq<u8>>,
    past: Seq<Outcome>,
    part: Seq<Reply>,
    before: u64,
    reply: Reply,
)
    requires
        tells_stage(s, past, part, before),
        !s.stage.sends(),
        !(s.stage is Finished),
        reply.answers(s.asks()),
    ensures
        tells_stage(s.hears(reply), past.push(Outcome::Heard(reply)), Seq::empty(), before),
{
    lemma_pushed(before, past, Outcome::Heard(reply));
    if let Reply::Word(word) = reply {
        register_updates(word, true, 8);
    }
    assert(crate::init::scr_buffer() =~= zeroes());
}

/// A step of a stage that has a command on its way.
#[verifier::rlimit(40)]
proof fn lemma_sending_step(
    s: Init<Seq<u8>>,
    past: Seq<Outcome>,
    part: Seq<Reply>,
    before: u64,
    reply: Reply,
)
    requires
        tells_stage(s, past, part, before),
        s.stage.sends(),
        reply.answers(s.asks()),
    ensures
        ({
            let more = part.push(reply);
            match after(SendCmd::begin(command_of(s)), more).result() {
                Some(answer) => tells_stage(
                    s.hears(reply),
                    past.push(Outcome::Answered(answer)),
                    Seq::empty(),
                    before,
                ),
                None => tells_stage(s.hears(reply), past, more, before),
            }
        }),
{
    let more = part.push(reply);
    assert(more.drop_last() =~= part);
    let done = s.command.hears(reply);
    assert(after(SendCmd::begin(command_of(s)), more) == done);
    if let Some(answer) = done.result() {
        lemma_pushed(before, past, Outcome::Answered(answer));
        if let Some(words) = answer {
            lemma_address(words[0]);
            capacity_of_words(words);
            capacity_range(CsdV2 { words });
        }
    }
}

/// The stage follows from the list.
proof fn lemma_stage(num_blocks: u64, replies: Seq<Reply>)
    requires
        valid_run(Init::begin(num_blocks), replies),
    ensures
        tells_stage(
            after(Init::begin(num_blocks), replies),
            so_far(replies).0,
            so_far(replies).1,
            num_blocks,
        ),
    decreases replies.len(),
{
    let start = Init::begin(num_blocks);
    if replies.len() > 0 {
        let earlier = replies.drop_last();
        lemma_stage(num_blocks, earlier);
        let s = after(start, earlier);
        let (past, part) = so_far(earlier);
        assert(after(start, replies) == s.hears(replies.last()));
        if s.stage.sends() {
            lemma_sending_step(s, past, part, num_blocks, replies.last());
        } else {
            lemma_quiet_step(s, past, part, num_blocks, replies.last());
        }
    }
}

/// The whole course of the bring-up: it does one thing after the other, each command in
/// full; it ends where its list ends, and knows as many blocks as the card told.
pub proof fn bring_up_takes_its_course(num_blocks: u64, replies: Seq<Reply>)
    requires
        valid_run(Init::begin(num_blocks), replies),
    ensures
        ({
            let s = after(Init::begin(num_blocks), replies);
            let (past, part) = so_far(replies);
            &&& outstanding(Init::begin(num_blocks), replies) == due(replies)
            &&& s.num_blocks == blocks_known(num_blocks, past)
            &&& s.result() == match plan(past).item {
                Item::Over(outcome) => Some(outcome),
                _ => None,
            }
            &&& plan(past).item matches Item::Say(command) ==> valid_run(
                SendCmd::begin(command),
                part,
            )
        }),
{
    lemma_stage(num_blocks, replies);
}

/// What the card answered to the question for its address, if it did.
pub open spec fn address_answered(past: Seq<Outcome>) -> Option<u32>
    decreases past.len(),
{
    if past.len() == 0 {
        None
    } else {
        match (plan(past.drop_last()).item, past.last()) {
            (Item::Say(Command::SendRelativeAddr), Outcome::Answered(Some(words))) => Some(
                words[0],
            ),
            _ => address_answered(past.drop_last()),
        }
    }
}

/// A card is addressed as it answered: the commands that ask for its capacity, select it
/// and announce the reading of its configuration all carry, in the high half of their
/// argument, what the card gave there for its address, and nothing in the low half.
pub proof fn card_is_addressed_as_it_answered(past: Seq<Outcome>)
    ensures
        ({
            let p = plan(past);
            let of_answer = |arg: u32|
                address_answered(past) matches Some(word) && arg == word / 0x1_0000 * 0x1_0000;
            &&& p.item matches Item::Say(Command::SendCsd(arg)) ==> of_answer(arg)
            &&& p.item matches Item::Say(Command::SelectCard(arg)) ==> of_answer(arg)
            &&& p.item matches Item::Say(Command::AppCmd(arg)) ==> if p.previous matches Item::Say(
                Command::SelectCard(_),
            ) {
                of_answer(arg)
            } else {
                arg == 0
            }
            &&& past.len() <= 17 ==> address_answered(past) is None
            &&& address_answered(past) is Some ==> match p.item {
                Item::Say(Command::SendCsd(_)) | Item::Say(Command::SelectCard(_)) => true,
                Item::Say(Command::AppCmd(_)) => p.previous matches Item::Say(
                    Command::SelectCard(_),
                ),
                Item::Say(command) => command is SendScr,
                Item::Ask(request) => !(request is Delay),
                Item::Over(_) => true,
            }
        }),
    decreases past.len(),
{
    if past.len() > 0 {
        card_is_addressed_as_it_answered(past.drop_last());
    }
}

/// In every run: once the card has answered with its address, each argument that is
/// written is that address, in its place, but for the command that reads the
/// configuration, which has none.
pub proof fn arguments_carry_the_address(num_blocks: u64, replies: Seq<Reply>)
    requires
        valid_run(Init::begin(num_blocks), replies),
        address_answered(so_far(replies).0) is Some,
    ensures
        outstanding(Init::begin(num_blocks), replies) matches Request::Write(Reg::Cmdarg, arg)
            ==> if plan(so_far(replies).0).item matches Item::Say(Command::SendScr(_)) {
            arg == 0
        } else {
            arg == address_answered(so_far(replies).0)->Some_0 / 0x1_0000 * 0x1_0000
        },
{
    let (past, part) = so_far(replies);
    bring_up_takes_its_course(num_blocks, replies);
    card_is_addressed_as_it_answered(past);
    if let Item::Say(command) = plan(past).item {
        lemma_stage(num_blocks, replies);
        assert(sendable(command));
        lemma_argument(command, part);
    }
}

/// The argument that a command writes is its own.
proof fn lemma_argument(command: Command<Seq<u8>>, replies: Seq<Reply>)
    requires
        sendable(command),
        valid_run(SendCmd::begin(command), replies),
    ensures
        outstanding(SendCmd::begin(command), replies) matches Request::Write(Reg::Cmdarg, arg)
            ==> arg == wire_arg(command),
{
    command_takes_its_course(command, replies);
}

} // verus!
