//! The conversation between the driver and the machine it runs on.
//!
//! An operation of the driver is a state machine. It asks for one piece of
//! outside work at a time, a [`Request`]; whoever runs it performs the work and
//! hands back the [`Reply`]. A reply that does not answer the outstanding
//! request leaves the operation where it is.
use vstd::prelude::*;

use crate::bits::bit;
use crate::dma::{DMAInfo, IdmacDescriptor};
use crate::regs::Reg;

verus! {

/// Size and alignment of a piece of coherent memory.
#[derive(Clone, Copy, Debug, PartialEq, Eq, Structural)]
pub struct MemLayout {
    pub size: usize,
    pub align: usize,
}

impl MemLayout {
    /// What the memory allocator accepts: the alignment is a power of two, and
    /// the size, rounded up to it, fits in `isize`.
    pub open spec fn valid(self) -> bool {
        &&& exists|n: nat| self.align == #[trigger] vstd::arithmetic::power2::pow2(n)
        &&& self.size + self.align - 1 <= isize::MAX
    }
}

/// A point in wall-clock time.
#[derive(Clone, Copy, Debug, PartialEq, Eq, Structural)]
pub struct WallTime {
    pub secs: u64,
    /// Nanoseconds past `secs`.
    pub nanos: u32,
}

impl WallTime {
    /// Nanoseconds since the clock's origin.
    pub open spec fn as_nanos(self) -> nat {
        self.secs as nat * 1_000_000_000 + self.nanos as nat
    }

    /// Whether at least `secs` seconds lie between `start` and this moment.
    pub open spec fn has_reached(self, start: WallTime, secs: u32) -> bool {
        self.as_nanos() >= start.as_nanos() + secs * 1_000_000_000
    }

    /// Tests whether at least `secs` seconds lie between `start` and this moment.
    pub fn reached(&self, start: WallTime, secs: u32) -> (r: bool)
        ensures
            r == self.has_reached(start, secs),
    {
        let now: u128 = self.secs as u128 * 1_000_000_000 + self.nanos as u128;
        let deadline: u128 = start.secs as u128 * 1_000_000_000 + start.nanos as u128 + secs as u128
            * 1_000_000_000;
        now >= deadline
    }
}

/// One piece of outside work.
#[derive(Clone, Copy, Debug)]
pub enum Request {
    /// Read a register.
    Read(Reg),
    /// Give the processor a spin hint, then read a register again.
    Retry(Reg),
    /// Write a register.
    Write(Reg, u32),
    /// Read the four response registers.
    ReadResponse,
    /// Take 64 bits out of the data FIFO.
    ReadFifo,
    /// Put 64 bits into the data FIFO.
    WriteFifo(u64),
    /// Spin for the given number of rounds.
    Delay(u32),
    /// Allocate coherent memory.
    AllocCoherent(MemLayout),
    /// Give coherent memory back.
    DeallocCoherent(DMAInfo, MemLayout),
    /// Store a descriptor at the start of a block of coherent memory.
    StoreDescriptor(DMAInfo, IdmacDescriptor),
    /// Make earlier stores visible before later ones.
    Fence,
    /// Copy a data block out of coherent memory.
    CopyFromDma(DMAInfo),
    /// Copy a data block into coherent memory.
    CopyToDma(DMAInfo, [u8; 512]),
    /// Register the handler of the controller's interrupt.
    RegisterIrq,
    /// Store the flag that says a DMA transfer is over.
    SetDone(bool),
    /// Load that flag.
    TestDone,
    /// Store the flag that says a DMA transfer failed.
    SetError(bool),
    /// Load that flag.
    TestError,
    /// Wake one task that waits for a DMA transfer.
    NotifyOne,
    /// Read the wall clock.
    Now,
    /// Let another task run.
    Yield,
    /// Publish the address of the register block to the interrupt handler.
    SetBase(usize),
    /// Load that address; zero when none was published.
    GetBase,
    /// Nothing: the operation is over.
    Finished,
}

/// What came of a request.
#[derive(Clone, Copy, Debug)]
pub enum Reply {
    /// The work was done; there is nothing to report.
    Done,
    /// A register's value.
    Word(u32),
    /// The response registers, lowest first.
    Response([u32; 4]),
    /// 64 bits of the FIFO.
    Fifo(u64),
    /// The memory that was allocated, if there was any.
    Allocated(Option<DMAInfo>),
    /// A data block.
    Block([u8; 512]),
    /// Whether the interrupt handler was registered.
    Registered(bool),
    /// A flag's value.
    Flag(bool),
    /// The current time.
    Time(WallTime),
    /// The published address.
    Base(usize),
}

impl Reply {
    /// Whether this kind of reply belongs to `request`.
    pub open spec fn answers(self, request: Request) -> bool {
        match request {
            Request::Read(_) | Request::Retry(_) => self is Word,
            Request::ReadResponse => self is Response,
            Request::ReadFifo => self is Fifo,
            Request::AllocCoherent(_) => self is Allocated,
            Request::CopyFromDma(_) => self is Block,
            Request::RegisterIrq => self is Registered,
            Request::TestDone | Request::TestError => self is Flag,
            Request::Now => self is Time,
            Request::GetBase => self is Base,
            Request::Finished => false,
            _ => self is Done,
        }
    }
}

/// A read of `reg`, after a spin hint where the register was read before.
#[verifier::allow_in_spec]
pub fn poll(reg: Reg, again: bool) -> Request
    returns
        (if again {
            Request::Retry(reg)
        } else {
            Request::Read(reg)
        }),
{
    if again {
        Request::Retry(reg)
    } else {
        Request::Read(reg)
    }
}

/// An operation as a state machine: what it asks for, and where a reply takes
/// it.
pub trait Protocol: Sized {
    spec fn asks(self) -> Request;

    spec fn hears(self, reply: Reply) -> Self;
}

/// The state after a sequence of replies.
pub open spec fn after<P: Protocol>(start: P, replies: Seq<Reply>) -> P
    decreases replies.len(),
{
    if replies.len() == 0 {
        start
    } else {
        after(start, replies.drop_last()).hears(replies.last())
    }
}

/// The request that the next reply will answer.
pub open spec fn outstanding<P: Protocol>(start: P, replies: Seq<Reply>) -> Request {
    after(start, replies).asks()
}

/// Every reply answers the request that was outstanding. No reply answers
/// `Finished`, so such a run ends with the operation at the latest.
pub open spec fn valid_run<P: Protocol>(start: P, replies: Seq<Reply>) -> bool
    decreases replies.len(),
{
    replies.len() > 0 ==> {
        &&& valid_run(start, replies.drop_last())
        &&& replies.last().answers(outstanding(start, replies.drop_last()))
    }
}

/// The requests that a sequence of replies answers, in order, those only that
/// `keep` selects.
pub open spec fn log<P: Protocol>(
    start: P,
    replies: Seq<Reply>,
    keep: spec_fn(Request) -> bool,
) -> Seq<Request>
    decreases replies.len(),
{
    if replies.len() == 0 {
        Seq::empty()
    } else {
        let earlier = log(start, replies.drop_last(), keep);
        let request = outstanding(start, replies.drop_last());
        if keep(request) {
            earlier.push(request)
        } else {
            earlier
        }
    }
}

/// A run in two parts is the second part from where the first one led.
pub proof fn lemma_run_in_parts<P: Protocol>(start: P, first: Seq<Reply>, second: Seq<Reply>)
    ensures
        after(start, first + second) == after(after(start, first), second),
        valid_run(start, first + second) <==> valid_run(start, first) && valid_run(
            after(start, first),
            second,
        ),
    decreases second.len(),
{
    if second.len() == 0 {
        assert(first + second =~= first);
    } else {
        lemma_run_in_parts(start, first, second.drop_last());
        assert((first + second).drop_last() =~= first + second.drop_last());
    }
}

/// The value last written to `reg`, if any was.
pub open spec fn last_write<P: Protocol>(start: P, replies: Seq<Reply>, reg: Reg) -> Option<u32>
    decreases replies.len(),
{
    if replies.len() == 0 {
        None
    } else {
        match outstanding(start, replies.drop_last()) {
            Request::Write(written, word) if written == reg => Some(word),
            _ => last_write(start, replies.drop_last(), reg),
        }
    }
}

/// Whether a request reads `reg`.
pub open spec fn reads(request: Request, reg: Reg) -> bool {
    request == Request::Read(reg) || request == Request::Retry(reg)
}

/// The value last read from `reg`, if any was.
pub open spec fn last_read<P: Protocol>(start: P, replies: Seq<Reply>, reg: Reg) -> Option<u32>
    decreases replies.len(),
{
    if replies.len() == 0 {
        None
    } else {
        match replies.last() {
            Reply::Word(word) if reads(outstanding(start, replies.drop_last()), reg) => Some(word),
            _ => last_read(start, replies.drop_last(), reg),
        }
    }
}

/// How often `reg` was read since the last write to a register.
pub open spec fn polls<P: Protocol>(start: P, replies: Seq<Reply>, reg: Reg) -> nat
    decreases replies.len(),
{
    if replies.len() == 0 {
        0
    } else {
        let request = outstanding(start, replies.drop_last());
        if request is Write {
            0
        } else if reads(request, reg) {
            polls(start, replies.drop_last(), reg) + 1
        } else {
            polls(start, replies.drop_last(), reg)
        }
    }
}

/// Whether a reading of `reg` since the last write to a register had bit `index` at
/// `value`.
pub open spec fn seen<P: Protocol>(
    start: P,
    replies: Seq<Reply>,
    reg: Reg,
    index: u32,
    value: bool,
) -> bool
    decreases replies.len(),
{
    if replies.len() == 0 {
        false
    } else {
        match (outstanding(start, replies.drop_last()), replies.last()) {
            (Request::Write(_, _), _) => false,
            (request, Reply::Word(word)) if reads(request, reg) && bit(word, index) == value => {
                true
            },
            _ => seen(start, replies.drop_last(), reg, index, value),
        }
    }
}

/// What the allocator gave last, if it was asked.
pub open spec fn last_allocation(replies: Seq<Reply>) -> Option<Option<DMAInfo>>
    decreases replies.len(),
{
    if replies.len() == 0 {
        None
    } else {
        match replies.last() {
            Reply::Allocated(given) => Some(given),
            _ => last_allocation(replies.drop_last()),
        }
    }
}

/// The response that was read last, if any was.
pub open spec fn last_response(replies: Seq<Reply>) -> Option<[u32; 4]>
    decreases replies.len(),
{
    if replies.len() == 0 {
        None
    } else {
        match replies.last() {
            Reply::Response(resp) => Some(resp),
            _ => last_response(replies.drop_last()),
        }
    }
}

/// The words that a run put into the FIFO, in order.
pub open spec fn fifo_puts<P: Protocol>(start: P, replies: Seq<Reply>) -> Seq<u64>
    decreases replies.len(),
{
    if replies.len() == 0 {
        Seq::empty()
    } else {
        match outstanding(start, replies.drop_last()) {
            Request::WriteFifo(word) => fifo_puts(start, replies.drop_last()).push(word),
            _ => fifo_puts(start, replies.drop_last()),
        }
    }
}

/// The block that a run copied into a DMA buffer last, if any, and which buffer.
pub open spec fn dma_put<P: Protocol>(start: P, replies: Seq<Reply>) -> Option<
    (DMAInfo, [u8; 512]),
>
    decreases replies.len(),
{
    if replies.len() == 0 {
        None
    } else {
        match outstanding(start, replies.drop_last()) {
            Request::CopyToDma(memory, data) => Some((memory, data)),
            _ => dma_put(start, replies.drop_last()),
        }
    }
}

/// The words that came out of the FIFO, in order.
pub open spec fn fifo_words(replies: Seq<Reply>) -> Seq<u64>
    decreases replies.len(),
{
    if replies.len() == 0 {
        Seq::empty()
    } else {
        match replies.last() {
            Reply::Fifo(word) => fifo_words(replies.drop_last()).push(word),
            _ => fifo_words(replies.drop_last()),
        }
    }
}

} // verus!
