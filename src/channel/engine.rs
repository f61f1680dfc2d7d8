//! The channel protocol engine, written once for every way of reaching the
//! medium.
//!
//! An [`Engine`] carries out one channel operation (create, attach, probe,
//! publish or consume) as a sequence of medium accesses. A driver asks it for
//! the next [`Access`], performs it on the medium, and hands back what the
//! medium returned; when the access is [`Access::Finished`] the engine holds
//! the operation's result. The engine itself never touches the medium, so the
//! same engine serves a driver that cannot suspend and one that awaits a slow
//! transport between accesses.
//!
//! The engine's contracts say that a driver that feeds it what a faithful
//! medium returns ends with the result and the medium that [`outcome`]
//! describes.
use vstd::prelude::*;

use crate::channel::codec::{bytes_to_words, pack_bytes, words_for};
use crate::channel::medium::{load_words, offset, store_words, word_addr};
use crate::channel::protocol::{
    channel_size, consume_outcome, create_check, data_size, field, fits, format_prefix, formatted,
    header_kept, is_idle, lemma_header_distinct, lemma_payload_clear_of_header, next_seq,
    payload_fits, payload_start, producer_seq, publish_outcome, size_check,
};
use crate::channel::{
    aligned, check_base_addr, check_channel_size, consumer_only, producer_only, ChannelActor,
    HEADER_SIZE, MIN_CHANNEL_SIZE,
};
use crate::{Error, Result};

verus! {

/// The operation an engine carries out.
#[derive(Debug, Clone, Copy, PartialEq, Eq, Structural)]
pub enum Request {
    /// Format a fresh control block for a channel of `size` bytes.
    Create { size: usize },
    /// Validate an existing control block.
    Attach,
    /// Read the payload capacity.
    Capacity,
    /// Tell whether the channel is idle.
    Idle,
    /// Tell how many bytes are waiting, if any.
    Available,
    /// Publish the engine's words: `byte_len` bytes packed into words, or,
    /// where `bulk`, the words themselves written in one bulk transfer.
    Publish { bulk: bool, byte_len: usize },
    /// Consume the waiting payload into a buffer of `room` units: words where
    /// `bulk` (read in one bulk transfer), bytes otherwise.
    Consume { bulk: bool, room: usize },
}

/// The next medium access that an engine asks for.
#[derive(Debug, Clone, Copy, PartialEq, Eq, Structural)]
pub enum Access {
    /// Read one word, atomically.
    ReadWord { addr: u32 },
    /// Write one word, atomically.
    WriteWord { addr: u32, value: u32 },
    /// Read `count` words from `addr` onwards, with no atomicity needed.
    ReadWords { addr: u32, count: usize },
    /// Write the engine's `count` payload words from `addr` onwards, with no
    /// atomicity needed.
    WriteWords { addr: u32, count: usize },
    /// The operation is over; its result is ready.
    Finished,
}

/// What a successful operation returns.
#[derive(Debug, Clone, Copy, PartialEq, Eq, Structural)]
pub enum Reply {
    /// Create and publish.
    Done,
    /// Attach and capacity: the payload capacity in bytes.
    Capacity(usize),
    /// Idle probe: whether the channel is idle.
    Idle(bool),
    /// Availability probe: the size of the waiting payload, if any.
    Available(Option<usize>),
    /// Consume: the size of the consumed payload in bytes.
    Consumed(usize),
}

/// Where an engine stands in its operation.
#[derive(Debug, Clone, Copy, PartialEq, Eq, Structural)]
enum Phase {
    Format,
    ReadSize,
    ReadProducer,
    ReadConsumer,
    ReadDataSize,
    WritePayload,
    ReadPayload,
    WriteDataSize,
    WriteFlags,
    ReadSequence,
    WriteSequence,
    Done,
}

/// The payload length in bytes that a publish request stands for.
pub open spec fn publish_len(bulk: bool, byte_len: usize, words: Seq<u32>) -> int {
    if bulk {
        4 * words.len() as int
    } else {
        byte_len as int
    }
}

/// What an engine started on `request` with payload words `w0` ends with on a
/// faithful medium that held `mem` at the start: the result, the medium
/// afterwards, and the engine's words (the payload read, for a consume).
pub open spec fn outcome(
    request: Request,
    actor: ChannelActor,
    base: u32,
    w0: Seq<u32>,
    mem: Map<u32, u32>,
) -> (Result<Reply>, Map<u32, u32>, Seq<u32>) {
    match request {
        Request::Create { size } => match create_check(base, size as int) {
            Err(e) => (Err(e), mem, w0),
            Ok(_) => (Ok(Reply::Done), formatted(mem, base, size as u32), w0),
        },
        Request::Attach => if !aligned(base) {
            (Err(Error::NotAligned), mem, w0)
        } else {
            match size_check(channel_size(mem, base)) {
                Err(e) => (Err(e), mem, w0),
                Ok(cap) => (Ok(Reply::Capacity(cap)), mem, w0),
            }
        },
        Request::Capacity => match size_check(channel_size(mem, base)) {
            Err(e) => (Err(e), mem, w0),
            Ok(cap) => (Ok(Reply::Capacity(cap)), mem, w0),
        },
        Request::Idle => (Ok(Reply::Idle(is_idle(mem, base))), mem, w0),
        Request::Available => if is_idle(mem, base) {
            (Ok(Reply::Available(None)), mem, w0)
        } else {
            (Ok(Reply::Available(Some(data_size(mem, base) as usize))), mem, w0)
        },
        Request::Publish { bulk, byte_len } => {
            let (r, m) = publish_outcome(mem, base, actor, w0, publish_len(bulk, byte_len, w0));
            match r {
                Ok(_) => (Ok(Reply::Done), m, w0),
                Err(e) => (Err(e), m, w0),
            }
        },
        Request::Consume { bulk, room } => {
            let (r, m, ws) = consume_outcome(mem, base, actor, bulk, room as int);
            match r {
                Ok(ds) => (Ok(Reply::Consumed(ds)), m, ws),
                Err(e) => (Err(e), m, w0),
            }
        },
    }
}

/// The error with which an operation ends before any medium access, if any:
/// a misaligned base, an unusable size to create, or the wrong role.
pub open spec fn early_error(request: Request, actor: ChannelActor, base: u32) -> Option<Error> {
    match request {
        Request::Create { size } => match create_check(base, size as int) {
            Err(e) => Some(e),
            Ok(_) => None,
        },
        Request::Attach => if aligned(base) {
            None
        } else {
            Some(Error::NotAligned)
        },
        Request::Publish { .. } => if actor == ChannelActor::Producer {
            None
        } else {
            Some(Error::InvalidOperation)
        },
        Request::Consume { .. } => if actor == ChannelActor::Consumer {
            None
        } else {
            Some(Error::InvalidOperation)
        },
        _ => None,
    }
}

/// A single-word read of `addr`.
pub open spec fn read_of(addr: u32) -> Access {
    Access::ReadWord { addr }
}

/// A single-word write of `value` to `addr`.
pub open spec fn write_of(addr: u32, value: u32) -> Access {
    Access::WriteWord { addr, value }
}

/// Write `k` (0 to 5) of a create: the size field zero, the four other
/// header words zero, and last the real size.
pub open spec fn format_access(base: u32, size: u32, k: int) -> Access {
    if k == 5 {
        write_of(field(base, 0), size)
    } else {
        write_of(field(base, (4 * k) as u32), 0)
    }
}

/// The first `k` writes of a create.
pub open spec fn format_log(base: u32, size: u32, k: int) -> Seq<Access>
    decreases k,
{
    if k <= 0 {
        Seq::empty()
    } else {
        format_log(base, size, k - 1).push(format_access(base, size, k - 1))
    }
}

/// The payload writes of a publish: one bulk write of all the words, or one
/// single-word write per word in order.
pub open spec fn payload_writes(p: u32, words: Seq<u32>, bulk: bool) -> Seq<Access> {
    if bulk {
        if words.len() == 0 {
            Seq::empty()
        } else {
            Seq::empty().push(Access::WriteWords { addr: p, count: words.len() as usize })
        }
    } else {
        Seq::new(words.len(), |i: int| write_of(word_addr(p, i), words[i]))
    }
}

/// The payload reads of a consume of `count` words: one bulk read, or one
/// single-word read per word in order.
pub open spec fn payload_reads(p: u32, count: nat, bulk: bool) -> Seq<Access> {
    if bulk {
        if count == 0 {
            Seq::empty()
        } else {
            Seq::empty().push(Access::ReadWords { addr: p, count: count as usize })
        }
    } else {
        Seq::new(count, |i: int| read_of(word_addr(p, i)))
    }
}

/// The first `k` reads with which a publish starts: `channel_size`, then
/// `producer_seq` and `consumer_seq`.
pub open spec fn publish_checks(base: u32, k: int) -> Seq<Access> {
    let r1 = Seq::empty().push(read_of(field(base, 0)));
    let r2 = r1.push(read_of(field(base, 4)));
    let r3 = r2.push(read_of(field(base, 8)));
    if k <= 0 {
        Seq::empty()
    } else if k == 1 {
        r1
    } else if k == 2 {
        r2
    } else {
        r3
    }
}

/// The first `k` reads with which a consume starts: `producer_seq` and
/// `consumer_seq`, then `data_size`, then `channel_size`.
pub open spec fn consume_checks(base: u32, k: int) -> Seq<Access> {
    let r1 = Seq::empty().push(read_of(field(base, 4)));
    let r2 = r1.push(read_of(field(base, 8)));
    let r3 = r2.push(read_of(field(base, 16)));
    let r4 = r3.push(read_of(field(base, 0)));
    if k <= 0 {
        Seq::empty()
    } else if k == 1 {
        r1
    } else if k == 2 {
        r2
    } else if k == 3 {
        r3
    } else {
        r4
    }
}

/// The accesses of a publish on a medium that held `mem`, in order: the
/// checks' reads, then the payload, `data_size` and `flags` writes, and
/// last the read and increment of `producer_seq`.
pub open spec fn publish_trace(
    mem: Map<u32, u32>,
    base: u32,
    actor: ChannelActor,
    words: Seq<u32>,
    len: int,
    bulk: bool,
) -> Seq<Access> {
    let head = publish_checks(base, 3);
    if actor != ChannelActor::Producer {
        Seq::empty()
    } else {
        match size_check(channel_size(mem, base)) {
            Err(_) => publish_checks(base, 1),
            Ok(cap) => if len > cap {
                publish_checks(base, 1)
            } else if !is_idle(mem, base) {
                head
            } else {
                (head + payload_writes(payload_start(base), words, bulk)).push(
                    write_of(field(base, 16), len as u32),
                ).push(write_of(field(base, 12), 0)).push(read_of(field(base, 4))).push(
                    write_of(field(base, 4), next_seq(producer_seq(mem, base))),
                )
            },
        }
    }
}

/// The accesses of a consume on a medium that held `mem`, in order: the
/// checks' reads, the payload reads, and last the read of `producer_seq`
/// and the write of `consumer_seq`.
pub open spec fn consume_trace(
    mem: Map<u32, u32>,
    base: u32,
    actor: ChannelActor,
    in_words: bool,
    room: int,
) -> Seq<Access> {
    let head = consume_checks(base, 4);
    let ds = data_size(mem, base);
    if actor != ChannelActor::Consumer {
        Seq::empty()
    } else if is_idle(mem, base) {
        consume_checks(base, 2)
    } else if !fits(in_words, ds as int, room) {
        consume_checks(base, 3)
    } else {
        match size_check(channel_size(mem, base)) {
            Err(_) => head,
            Ok(cap) => if ds > cap {
                head
            } else {
                (head + payload_reads(
                    payload_start(base),
                    words_for(ds as int) as nat,
                    in_words,
                )).push(read_of(field(base, 4))).push(
                    write_of(field(base, 8), producer_seq(mem, base)),
                )
            },
        }
    }
}

/// The accesses that an engine started on `request` makes on a faithful
/// medium that held `mem` at the start, in order.
pub open spec fn trace(
    request: Request,
    actor: ChannelActor,
    base: u32,
    w0: Seq<u32>,
    mem: Map<u32, u32>,
) -> Seq<Access> {
    match request {
        Request::Create { size } => if create_check(base, size as int) is Ok {
            format_log(base, size as u32, 6)
        } else {
            Seq::empty()
        },
        Request::Attach => if aligned(base) {
            Seq::empty().push(read_of(field(base, 0)))
        } else {
            Seq::empty()
        },
        Request::Capacity => Seq::empty().push(read_of(field(base, 0))),
        Request::Idle => consume_checks(base, 2),
        Request::Available => if is_idle(mem, base) {
            consume_checks(base, 2)
        } else {
            consume_checks(base, 3)
        },
        Request::Publish { bulk, byte_len } => publish_trace(
            mem,
            base,
            actor,
            w0,
            publish_len(bulk, byte_len, w0),
            bulk,
        ),
        Request::Consume { bulk, room } => consume_trace(mem, base, actor, bulk, room as int),
    }
}

/// What a medium shows while an operation on it is unfinished, or after a
/// failed access: a create has left it as it was or left `channel_size` zero
/// (uninitialized to an attacher); a publish has changed neither sequence
/// number nor `channel_size` (still idle to the consumer); any other
/// operation has left it as it was.
pub open spec fn unseen(request: Request, base: u32, mem0: Map<u32, u32>, mem: Map<u32, u32>) -> bool {
    match request {
        Request::Create { .. } => mem == mem0 || channel_size(mem, base) == 0,
        Request::Publish { .. } => header_kept(mem0, mem, base),
        _ => mem == mem0,
    }
}

/// The address an access reads or writes first.
pub open spec fn access_addr(a: Access) -> u32 {
    match a {
        Access::ReadWord { addr } => addr,
        Access::WriteWord { addr, value } => addr,
        Access::ReadWords { addr, count } => addr,
        Access::WriteWords { addr, count } => addr,
        Access::Finished => 0,
    }
}

/// The number of words a bulk access reads or writes.
pub open spec fn access_count(a: Access) -> usize {
    match a {
        Access::ReadWords { addr, count } => count,
        Access::WriteWords { addr, count } => count,
        _ => 0,
    }
}

/// The medium after a single-word write access.
pub open spec fn after_write(a: Access, mem: Map<u32, u32>) -> Map<u32, u32> {
    match a {
        Access::WriteWord { addr, value } => mem.insert(addr, value),
        _ => mem,
    }
}


/// Number of payload words that hold `ds` bytes.
fn words_for_size(ds: u32) -> (r: usize)
    ensures
        r == words_for(ds as int),
{
    (ds / 4 + if ds % 4 == 0 {
        0
    } else {
        1
    }) as usize
}

/// Validates a `channel_size` field.
fn check_size(cs: u32) -> (r: Result<usize>)
    ensures
        r == size_check(cs),
{
    if cs == 0 {
        Err(Error::Uninit)
    } else if cs < MIN_CHANNEL_SIZE {
        Err(Error::BufferTooSmall)
    } else {
        Ok((cs - HEADER_SIZE) as usize)
    }
}

/// One channel operation in progress.
pub struct Engine {
    request: Request,
    actor: ChannelActor,
    base: u32,
    phase: Phase,
    index: usize,
    producer: u32,
    data_size: u32,
    words: Vec<u32>,
    result: Result<Reply>,
}

impl Engine {
    pub closed spec fn request(&self) -> Request {
        self.request
    }

    pub closed spec fn actor(&self) -> ChannelActor {
        self.actor
    }

    pub closed spec fn base(&self) -> u32 {
        self.base
    }

    /// The engine's words: the payload to publish, or the payload read.
    pub closed spec fn words_view(&self) -> Seq<u32> {
        self.words@
    }

    closed spec fn count(&self) -> int {
        words_for(self.data_size as int)
    }

    closed spec fn create_size(&self) -> usize {
        match self.request {
            Request::Create { size } => size,
            _ => 0,
        }
    }

    /// The access the engine asks for next.
    pub closed spec fn access(&self) -> Access {
        let b = self.base;
        let p = payload_start(b);
        match self.phase {
            Phase::Format => format_access(b, self.create_size() as u32, self.index as int),
            Phase::ReadSize => Access::ReadWord { addr: field(b, 0) },
            Phase::ReadProducer => Access::ReadWord { addr: field(b, 4) },
            Phase::ReadConsumer => Access::ReadWord { addr: field(b, 8) },
            Phase::ReadDataSize => Access::ReadWord { addr: field(b, 16) },
            Phase::WritePayload => match self.request {
                Request::Publish { bulk: true, byte_len } => Access::WriteWords {
                    addr: p,
                    count: self.words@.len() as usize,
                },
                _ => Access::WriteWord {
                    addr: word_addr(p, self.index as int),
                    value: self.words@[self.index as int],
                },
            },
            Phase::ReadPayload => match self.request {
                Request::Consume { bulk: true, room } => Access::ReadWords {
                    addr: p,
                    count: self.count() as usize,
                },
                _ => Access::ReadWord { addr: word_addr(p, self.index as int) },
            },
            Phase::WriteDataSize => Access::WriteWord {
                addr: field(b, 16),
                value: publish_len(
                    self.publish_bulk(),
                    self.publish_byte_len(),
                    self.words@,
                ) as u32,
            },
            Phase::WriteFlags => Access::WriteWord { addr: field(b, 12), value: 0 },
            Phase::ReadSequence => Access::ReadWord { addr: field(b, 4) },
            Phase::WriteSequence => match self.request {
                Request::Publish { .. } => Access::WriteWord {
                    addr: field(b, 4),
                    value: next_seq(self.producer),
                },
                _ => Access::WriteWord { addr: field(b, 8), value: self.producer },
            },
            Phase::Done => Access::Finished,
        }
    }

    closed spec fn publish_bulk(&self) -> bool {
        match self.request {
            Request::Publish { bulk, .. } => bulk,
            _ => false,
        }
    }

    closed spec fn publish_byte_len(&self) -> usize {
        match self.request {
            Request::Publish { byte_len, .. } => byte_len,
            _ => 0,
        }
    }

    closed spec fn consume_bulk(&self) -> bool {
        match self.request {
            Request::Consume { bulk, .. } => bulk,
            _ => false,
        }
    }

    closed spec fn consume_room(&self) -> usize {
        match self.request {
            Request::Consume { room, .. } => room,
            _ => 0,
        }
    }

    /// A measure that every step decreases.
    pub closed spec fn rank(&self) -> int {
        let n = self.words@.len() as int;
        let big = 0x2_0000_0000int;
        match self.phase {
            Phase::Done => 0,
            Phase::WriteSequence => 1,
            Phase::ReadSequence => 2,
            Phase::WriteFlags => 3,
            Phase::WriteDataSize => 4,
            Phase::WritePayload => 5 + n - self.index,
            Phase::ReadPayload => 3 + self.count() - self.index,
            Phase::Format => 6 - self.index,
            Phase::ReadSize => match self.request {
                Request::Consume { .. } => 4 + self.count(),
                Request::Publish { .. } => n + 9,
                _ => 1,
            },
            Phase::ReadProducer => match self.request {
                Request::Publish { .. } => n + 8,
                _ => big + 3,
            },
            Phase::ReadConsumer => match self.request {
                Request::Publish { .. } => n + 7,
                _ => big + 2,
            },
            Phase::ReadDataSize => big + 1,
        }
    }

    /// The bounds that each phase relies on.
    pub closed spec fn wf(&self) -> bool {
        let n = self.words@.len() as int;
        let publish_ok = self.request is Publish && (!self.publish_bulk() ==> n == words_for(
            self.publish_byte_len() as int,
        ));
        let publish_bounded = publish_ok && payload_fits(n) && publish_len(
            self.publish_bulk(),
            self.publish_byte_len(),
            self.words@,
        ) <= u32::MAX;
        let consume_fresh = self.request is Consume && n == 0;
        match self.phase {
            Phase::Format => self.index < 6 && self.request is Create && self.create_size()
                <= u32::MAX,
            Phase::ReadSize => self.request is Attach || self.request is Capacity || publish_ok
                || consume_fresh,
            Phase::ReadProducer => self.request is Idle || self.request is Available
                || publish_bounded || consume_fresh,
            Phase::ReadConsumer => self.request is Idle || self.request is Available
                || publish_bounded || consume_fresh,
            Phase::ReadDataSize => self.request is Available || consume_fresh,
            Phase::WritePayload => publish_bounded && self.index < n && (self.publish_bulk()
                ==> self.index == 0),
            Phase::WriteDataSize => publish_bounded,
            Phase::WriteFlags => publish_bounded,
            Phase::ReadPayload => self.request is Consume && self.index < self.count()
                && n == self.index && (self.consume_bulk() ==> self.index == 0),
            Phase::ReadSequence => publish_bounded || self.request is Consume,
            Phase::WriteSequence => publish_bounded || self.request is Consume,
            Phase::Done => true,
        }
    }

    /// The size check has passed for a publish of the engine's words.
    closed spec fn publish_sized(&self, w0: Seq<u32>, mem0: Map<u32, u32>) -> bool {
        let len = publish_len(self.publish_bulk(), self.publish_byte_len(), w0);
        &&& self.request is Publish
        &&& self.actor == ChannelActor::Producer
        &&& self.words@ == w0
        &&& (!self.publish_bulk() ==> w0.len() == words_for(self.publish_byte_len() as int))
        &&& size_check(channel_size(mem0, self.base)) is Ok
        &&& len <= size_check(channel_size(mem0, self.base))->Ok_0
    }

    /// Every check of a publish has passed.
    closed spec fn publish_clear(&self, w0: Seq<u32>, mem0: Map<u32, u32>) -> bool {
        self.publish_sized(w0, mem0) && is_idle(mem0, self.base)
    }

    /// The checks of a consume that precede reading `data_size` have passed.
    closed spec fn consume_started(&self, w0: Seq<u32>, mem0: Map<u32, u32>) -> bool {
        &&& self.request is Consume
        &&& self.actor == ChannelActor::Consumer
        &&& w0.len() == 0
    }

    /// Every check of a consume has passed.
    closed spec fn consume_clear(&self, w0: Seq<u32>, mem0: Map<u32, u32>) -> bool {
        let ds = data_size(mem0, self.base);
        &&& self.consume_started(w0, mem0)
        &&& !is_idle(mem0, self.base)
        &&& self.data_size == ds
        &&& fits(self.consume_bulk(), ds as int, self.consume_room() as int)
        &&& size_check(channel_size(mem0, self.base)) is Ok
        &&& ds <= size_check(channel_size(mem0, self.base))->Ok_0
    }

    /// The engine is where a run of its operation on a faithful medium that
    /// held `mem0` at the start (with payload words `w0`) would be, with the
    /// medium now holding `mem` and `log` the accesses made so far.
    pub closed spec fn consistent(
        &self,
        w0: Seq<u32>,
        mem0: Map<u32, u32>,
        mem: Map<u32, u32>,
        log: Seq<Access>,
    ) -> bool {
        let b = self.base;
        let p = payload_start(b);
        let len = publish_len(self.publish_bulk(), self.publish_byte_len(), w0);
        let writes = payload_writes(p, w0, self.publish_bulk());
        let reads = payload_reads(p, self.count() as nat, self.consume_bulk());
        &&& self.wf()
        &&& match self.phase {
            Phase::Done => (self.result, mem, self.words@) == outcome(
                self.request,
                self.actor,
                b,
                w0,
                mem0,
            ) && log == trace(self.request, self.actor, b, w0, mem0),
            Phase::Format => create_check(b, self.create_size() as int) is Ok && mem
                == format_prefix(mem0, b, self.index as int) && self.words@ == w0 && log
                == format_log(b, self.create_size() as u32, self.index as int),
            Phase::ReadSize => mem == mem0 && match self.request {
                Request::Attach => aligned(b) && self.words@ == w0 && log == Seq::<Access>::empty(),
                Request::Capacity => self.words@ == w0 && log == Seq::<Access>::empty(),
                Request::Publish { .. } => self.actor == ChannelActor::Producer && self.words@ == w0
                    && (!self.publish_bulk() ==> w0.len() == words_for(
                    self.publish_byte_len() as int,
                )) && log == Seq::<Access>::empty(),
                Request::Consume { bulk, room } => self.consume_started(w0, mem0) && !is_idle(
                    mem0,
                    b,
                ) && self.data_size == data_size(mem0, b) && fits(
                    bulk,
                    data_size(mem0, b) as int,
                    room as int,
                ) && self.words@ == w0 && log == consume_checks(b, 3),
                _ => false,
            },
            Phase::ReadProducer => mem == mem0 && self.words@ == w0 && match self.request {
                Request::Idle => log == Seq::<Access>::empty(),
                Request::Available => log == Seq::<Access>::empty(),
                Request::Publish { .. } => self.publish_sized(w0, mem0) && log == publish_checks(b, 1),
                Request::Consume { .. } => self.consume_started(w0, mem0) && log == Seq::<
                    Access,
                >::empty(),
                _ => false,
            },
            Phase::ReadConsumer => mem == mem0 && self.words@ == w0 && self.producer
                == producer_seq(mem0, b) && match self.request {
                Request::Idle => log == consume_checks(b, 1),
                Request::Available => log == consume_checks(b, 1),
                Request::Publish { .. } => self.publish_sized(w0, mem0) && log == publish_checks(b, 2),
                Request::Consume { .. } => self.consume_started(w0, mem0) && log == consume_checks(b, 1),
                _ => false,
            },
            Phase::ReadDataSize => mem == mem0 && self.words@ == w0 && !is_idle(mem0, b) && log
                == consume_checks(b, 2) && match self.request {
                Request::Available => true,
                Request::Consume { .. } => self.consume_started(w0, mem0),
                _ => false,
            },
            Phase::WritePayload => self.publish_clear(w0, mem0) && mem == store_words(
                mem0,
                p,
                w0.take(self.index as int),
            ) && log == publish_checks(b, 3) + writes.take(self.index as int),
            Phase::WriteDataSize => self.publish_clear(w0, mem0) && mem == store_words(mem0, p, w0)
                && log == publish_checks(b, 3) + writes,
            Phase::WriteFlags => self.publish_clear(w0, mem0) && mem == store_words(
                mem0,
                p,
                w0,
            ).insert(field(b, 16), len as u32) && log == (publish_checks(b, 3) + writes).push(
                write_of(field(b, 16), len as u32),
            ),
            Phase::ReadSequence => match self.request {
                Request::Publish { .. } => self.publish_clear(w0, mem0) && mem == store_words(
                    mem0,
                    p,
                    w0,
                ).insert(field(b, 16), len as u32).insert(field(b, 12), 0) && log == (
                publish_checks(b, 3) + writes).push(write_of(field(b, 16), len as u32)).push(
                    write_of(field(b, 12), 0),
                ),
                Request::Consume { .. } => self.consume_clear(w0, mem0) && mem == mem0
                    && self.words@ == load_words(mem0, p, self.count() as nat) && log == consume_checks(b, 4) + reads,
                _ => false,
            },
            Phase::WriteSequence => self.producer == producer_seq(mem0, b) && match self.request {
                Request::Publish { .. } => self.publish_clear(w0, mem0) && mem == store_words(
                    mem0,
                    p,
                    w0,
                ).insert(field(b, 16), len as u32).insert(field(b, 12), 0) && log == (
                publish_checks(b, 3) + writes).push(write_of(field(b, 16), len as u32)).push(
                    write_of(field(b, 12), 0),
                ).push(read_of(field(b, 4))),
                Request::Consume { .. } => self.consume_clear(w0, mem0) && mem == mem0
                    && self.words@ == load_words(mem0, p, self.count() as nat) && log == (
                consume_checks(b, 4) + reads).push(read_of(field(b, 4))),
                _ => false,
            },
            Phase::ReadPayload => self.consume_clear(w0, mem0) && mem == mem0 && self.words@
                == load_words(mem0, p, self.index as nat) && log == consume_checks(b, 4) + reads.take(
                self.index as int,
            ),
        }
    }

    fn begin(request: Request, actor: ChannelActor, base: u32, words: Vec<u32>, phase: Phase) -> (r: Engine)
        ensures
            r.request == request,
            r.actor == actor,
            r.base == base,
            r.words@ == words@,
            r.phase == phase,
            r.index == 0,
    {
        Engine {
            request,
            actor,
            base,
            phase,
            index: 0,
            producer: 0,
            data_size: 0,
            words,
            result: Ok(Reply::Done),
        }
    }

    fn finish(&mut self, result: Result<Reply>)
        ensures
            final(self).phase == Phase::Done,
            final(self).result == result,
            final(self).request == old(self).request,
            final(self).actor == old(self).actor,
            final(self).base == old(self).base,
            final(self).words@ == old(self).words@,
            final(self).data_size == old(self).data_size,
    {
        self.result = result;
        self.phase = Phase::Done;
    }

    /// Starts formatting a fresh channel of `size` bytes at `base`.
    pub fn create(actor: ChannelActor, base: u32, size: usize) -> (r: Engine)
        ensures
            r.wf(),
            r.request() == (Request::Create { size }),
            r.actor() == actor,
            r.base() == base,
            r.words_view() == Seq::<u32>::empty(),
            forall|mem: Map<u32, u32>| #[trigger] r.consistent(r.words_view(), mem, mem, Seq::empty()),
            (r.access() is Finished) == (early_error(r.request(), actor, base) is Some),
    {
        let mut e = Engine::begin(Request::Create { size }, actor, base, Vec::new(), Phase::Format);
        if let Err(err) = check_base_addr(base) {
            e.finish(Err(err));
        } else if let Err(err) = check_channel_size(size) {
            e.finish(Err(err));
        } else if size > u32::MAX as usize {
            e.finish(Err(Error::InvalidOperation));
        }
        e
    }

    /// Starts validating the control block of an existing channel at `base`.
    pub fn attach(actor: ChannelActor, base: u32) -> (r: Engine)
        ensures
            r.wf(),
            r.request() == Request::Attach,
            r.actor() == actor,
            r.base() == base,
            r.words_view() == Seq::<u32>::empty(),
            forall|mem: Map<u32, u32>| #[trigger] r.consistent(r.words_view(), mem, mem, Seq::empty()),
            (r.access() is Finished) == (early_error(r.request(), actor, base) is Some),
    {
        let mut e = Engine::begin(Request::Attach, actor, base, Vec::new(), Phase::ReadSize);
        if let Err(err) = check_base_addr(base) {
            e.finish(Err(err));
        }
        e
    }

    /// Starts reading the payload capacity of the channel at `base`.
    pub fn capacity(actor: ChannelActor, base: u32) -> (r: Engine)
        ensures
            r.wf(),
            r.request() == Request::Capacity,
            r.actor() == actor,
            r.base() == base,
            r.words_view() == Seq::<u32>::empty(),
            forall|mem: Map<u32, u32>| #[trigger] r.consistent(r.words_view(), mem, mem, Seq::empty()),
            (r.access() is Finished) == (early_error(r.request(), actor, base) is Some),
    {
        Engine::begin(Request::Capacity, actor, base, Vec::new(), Phase::ReadSize)
    }

    /// Starts telling whether the channel at `base` is idle.
    pub fn idle(actor: ChannelActor, base: u32) -> (r: Engine)
        ensures
            r.wf(),
            r.request() == Request::Idle,
            r.actor() == actor,
            r.base() == base,
            r.words_view() == Seq::<u32>::empty(),
            forall|mem: Map<u32, u32>| #[trigger] r.consistent(r.words_view(), mem, mem, Seq::empty()),
            (r.access() is Finished) == (early_error(r.request(), actor, base) is Some),
    {
        Engine::begin(Request::Idle, actor, base, Vec::new(), Phase::ReadProducer)
    }

    /// Starts telling how many bytes wait in the channel at `base`.
    pub fn available(actor: ChannelActor, base: u32) -> (r: Engine)
        ensures
            r.wf(),
            r.request() == Request::Available,
            r.actor() == actor,
            r.base() == base,
            r.words_view() == Seq::<u32>::empty(),
            forall|mem: Map<u32, u32>| #[trigger] r.consistent(r.words_view(), mem, mem, Seq::empty()),
            (r.access() is Finished) == (early_error(r.request(), actor, base) is Some),
    {
        Engine::begin(Request::Available, actor, base, Vec::new(), Phase::ReadProducer)
    }

    /// Starts publishing word-aligned data, written in one bulk transfer.
    pub fn publish_words(actor: ChannelActor, base: u32, data: &[u32]) -> (r: Engine)
        ensures
            r.wf(),
            r.request() == (Request::Publish { bulk: true, byte_len: 0 }),
            r.actor() == actor,
            r.base() == base,
            r.words_view() == data@,
            forall|mem: Map<u32, u32>| #[trigger] r.consistent(r.words_view(), mem, mem, Seq::empty()),
            (r.access() is Finished) == (early_error(r.request(), actor, base) is Some),
    {
        let words = vstd::slice::slice_to_vec(data);
        let mut e = Engine::begin(
            Request::Publish { bulk: true, byte_len: 0 },
            actor,
            base,
            words,
            Phase::ReadSize,
        );
        if let Err(err) = producer_only(actor) {
            e.finish(Err(err));
        }
        e
    }

    /// Starts publishing bytes of any length, packed into words and written
    /// one word at a time.
    pub fn publish_bytes(actor: ChannelActor, base: u32, data: &[u8]) -> (r: Engine)
        ensures
            r.wf(),
            r.request() == (Request::Publish { bulk: false, byte_len: data@.len() as usize }),
            r.actor() == actor,
            r.base() == base,
            r.words_view() == bytes_to_words(data@),
            forall|mem: Map<u32, u32>| #[trigger] r.consistent(r.words_view(), mem, mem, Seq::empty()),
            (r.access() is Finished) == (early_error(r.request(), actor, base) is Some),
    {
        let words = pack_bytes(data);
        let mut e = Engine::begin(
            Request::Publish { bulk: false, byte_len: data.len() },
            actor,
            base,
            words,
            Phase::ReadSize,
        );
        if let Err(err) = producer_only(actor) {
            e.finish(Err(err));
        }
        e
    }

    /// Starts consuming the waiting payload as words, read in one bulk
    /// transfer, for a buffer of `room` words.
    pub fn consume_words(actor: ChannelActor, base: u32, room: usize) -> (r: Engine)
        ensures
            r.wf(),
            r.request() == (Request::Consume { bulk: true, room }),
            r.actor() == actor,
            r.base() == base,
            r.words_view() == Seq::<u32>::empty(),
            forall|mem: Map<u32, u32>| #[trigger] r.consistent(r.words_view(), mem, mem, Seq::empty()),
            (r.access() is Finished) == (early_error(r.request(), actor, base) is Some),
    {
        let mut e = Engine::begin(
            Request::Consume { bulk: true, room },
            actor,
            base,
            Vec::new(),
            Phase::ReadProducer,
        );
        if let Err(err) = consumer_only(actor) {
            e.finish(Err(err));
        }
        e
    }

    /// Starts consuming the waiting payload as bytes, read one word at a
    /// time, for a buffer of `room` bytes.
    pub fn consume_bytes(actor: ChannelActor, base: u32, room: usize) -> (r: Engine)
        ensures
            r.wf(),
            r.request() == (Request::Consume { bulk: false, room }),
            r.actor() == actor,
            r.base() == base,
            r.words_view() == Seq::<u32>::empty(),
            forall|mem: Map<u32, u32>| #[trigger] r.consistent(r.words_view(), mem, mem, Seq::empty()),
            (r.access() is Finished) == (early_error(r.request(), actor, base) is Some),
    {
        let mut e = Engine::begin(
            Request::Consume { bulk: false, room },
            actor,
            base,
            Vec::new(),
            Phase::ReadProducer,
        );
        if let Err(err) = consumer_only(actor) {
            e.finish(Err(err));
        }
        e
    }

    /// The access the engine asks for next.
    pub fn next_access(&self) -> (r: Access)
        requires
            self.wf(),
        ensures
            r == self.access(),
            r is WriteWords ==> access_count(r) == self.words_view().len(),
    {
        let b = self.base;
        match self.phase {
            Phase::Format => {
                if self.index == 5 {
                    let size = match self.request {
                        Request::Create { size } => size,
                        _ => 0,
                    };
                    Access::WriteWord { addr: offset(b, 0), value: size as u32 }
                } else {
                    Access::WriteWord { addr: offset(b, (4 * self.index) as u32), value: 0 }
                }
            },
            Phase::ReadSize => Access::ReadWord { addr: offset(b, 0) },
            Phase::ReadProducer => Access::ReadWord { addr: offset(b, 4) },
            Phase::ReadConsumer => Access::ReadWord { addr: offset(b, 8) },
            Phase::ReadDataSize => Access::ReadWord { addr: offset(b, 16) },
            Phase::WritePayload => {
                let p = offset(b, HEADER_SIZE);
                match self.request {
                    Request::Publish { bulk: true, .. } => Access::WriteWords {
                        addr: p,
                        count: self.words.len(),
                    },
                    _ => Access::WriteWord {
                        addr: offset(p, (4 * self.index) as u32),
                        value: self.words[self.index],
                    },
                }
            },
            Phase::ReadPayload => {
                let p = offset(b, HEADER_SIZE);
                match self.request {
                    Request::Consume { bulk: true, .. } => Access::ReadWords {
                        addr: p,
                        count: words_for_size(self.data_size),
                    },
                    _ => Access::ReadWord { addr: offset(p, (4 * self.index) as u32) },
                }
            },
            Phase::WriteDataSize => {
                let len = match self.request {
                    Request::Publish { bulk: true, .. } => 4 * self.words.len(),
                    Request::Publish { bulk: false, byte_len } => byte_len,
                    _ => 0,
                };
                Access::WriteWord { addr: offset(b, 16), value: len as u32 }
            },
            Phase::WriteFlags => Access::WriteWord {
                addr: offset(b, 12),
                value: crate::channel::ChannelFlags::Okay.word(),
            },
            Phase::ReadSequence => Access::ReadWord { addr: offset(b, 4) },
            Phase::WriteSequence => match self.request {
                Request::Publish { .. } => Access::WriteWord {
                    addr: offset(b, 4),
                    value: self.producer.wrapping_add(1),
                },
                _ => Access::WriteWord { addr: offset(b, 8), value: self.producer },
            },
            Phase::Done => Access::Finished,
        }
    }

    /// The words of the engine: the payload to publish, or, after a consume,
    /// the payload read.
    pub fn words(&self) -> (r: &[u32])
        ensures
            r@ == self.words_view(),
    {
        self.words.as_slice()
    }

    /// The result the engine holds once finished.
    pub closed spec fn result_view(&self) -> Result<Reply> {
        self.result
    }

    /// The result of the finished operation: on a faithful medium, the one
    /// that [`outcome`] gives (see [`lemma_partial_operations_hidden`]).
    pub fn result(&self) -> (r: Result<Reply>)
        ensures
            r == self.result_view(),
    {
        self.result
    }

    /// Takes the word that the access [`Access::ReadWord`] read.
    pub fn accept_word(&mut self, value: u32)
        requires
            old(self).wf(),
            old(self).access() is ReadWord,
        ensures
            final(self).wf(),
            final(self).request() == old(self).request(),
            final(self).actor() == old(self).actor(),
            final(self).base() == old(self).base(),
            0 <= final(self).rank() < old(self).rank(),
            forall|w0: Seq<u32>, mem0: Map<u32, u32>, mem: Map<u32, u32>, log: Seq<Access>|
                old(self).consistent(w0, mem0, mem, log) && mem[access_addr(old(self).access())] == value
                    ==> #[trigger] final(self).consistent(w0, mem0, mem, log.push(old(self).access())),
    {
        let ghost before = *self;
        match self.phase {
            Phase::ReadSize => self.take_size(value),
            Phase::ReadProducer => {
                self.producer = value;
                self.phase = Phase::ReadConsumer;
            },
            Phase::ReadConsumer => self.take_consumer(value),
            Phase::ReadDataSize => self.take_data_size(value),
            Phase::ReadPayload => self.take_payload_word(value),
            _ => {
                self.producer = value;
                self.phase = Phase::WriteSequence;
            },
        }
        proof {
            assert forall|w0: Seq<u32>, mem0: Map<u32, u32>, mem: Map<u32, u32>, log: Seq<Access>|
                before.consistent(w0, mem0, mem, log) && mem[access_addr(before.access())] == value
                    implies #[trigger] self.consistent(w0, mem0, mem, log.push(before.access())) by {
                if before.phase == Phase::ReadSequence && before.request is Publish {
                    let len = publish_len(before.publish_bulk(), before.publish_byte_len(), w0);
                    lemma_payload_clear_of_header(mem0, self.base, w0, 4);
                    lemma_header_distinct(self.base);
                    assert(value == producer_seq(mem0, self.base));
                }
            }
        }
    }

    fn take_size(&mut self, cs: u32)
        requires
            old(self).phase == Phase::ReadSize,
            old(self).wf(),
        ensures
            final(self).wf(),
            final(self).request == old(self).request,
            final(self).actor == old(self).actor,
            final(self).base == old(self).base,
            0 <= final(self).rank() < old(self).rank(),
            forall|w0: Seq<u32>, mem0: Map<u32, u32>, mem: Map<u32, u32>, log: Seq<Access>|
                old(self).consistent(w0, mem0, mem, log) && mem[field(old(self).base, 0)] == cs
                    ==> #[trigger] final(self).consistent(w0, mem0, mem, log.push(old(self).access())),
    {
        let ghost before = *self;
        let checked = check_size(cs);
        match self.request {
            Request::Attach | Request::Capacity => {
                match checked {
                    Ok(cap) => self.finish(Ok(Reply::Capacity(cap))),
                    Err(e) => self.finish(Err(e)),
                }
            },
            Request::Publish { bulk, byte_len } => {
                match checked {
                    Ok(cap) => {
                        let too_large = if bulk {
                            self.words.len() > cap / 4
                        } else {
                            byte_len > cap
                        };
                        if too_large {
                            self.finish(Err(Error::PayloadTooLarge));
                        } else {
                            self.phase = Phase::ReadProducer;
                        }
                    },
                    Err(e) => self.finish(Err(e)),
                }
            },
            Request::Consume { .. } => {
                match checked {
                    Ok(cap) => {
                        if self.data_size as usize > cap {
                            self.finish(Err(Error::PayloadTooLarge));
                        } else if words_for_size(self.data_size) == 0 {
                            self.phase = Phase::ReadSequence;
                        } else {
                            self.index = 0;
                            self.phase = Phase::ReadPayload;
                        }
                    },
                    Err(e) => self.finish(Err(e)),
                }
            },
            _ => {},
        }
        proof {
            assert forall|w0: Seq<u32>, mem0: Map<u32, u32>, mem: Map<u32, u32>, log: Seq<Access>|
                before.consistent(w0, mem0, mem, log) && mem[field(before.base, 0)] == cs
                    implies #[trigger] self.consistent(w0, mem0, mem, log.push(before.access())) by {
                assert(channel_size(mem0, self.base) == cs);
                if self.phase == Phase::ReadPayload {
                    assert(self.words@ =~= load_words(mem0, payload_start(self.base), 0));
                }
                if self.phase == Phase::ReadSequence {
                    assert(self.words@ =~= load_words(mem0, payload_start(self.base), 0));
                }
            }
        }
    }

    fn take_consumer(&mut self, seq: u32)
        requires
            old(self).phase == Phase::ReadConsumer,
            old(self).wf(),
        ensures
            final(self).wf(),
            final(self).request == old(self).request,
            final(self).actor == old(self).actor,
            final(self).base == old(self).base,
            0 <= final(self).rank() < old(self).rank(),
            forall|w0: Seq<u32>, mem0: Map<u32, u32>, mem: Map<u32, u32>, log: Seq<Access>|
                old(self).consistent(w0, mem0, mem, log) && mem[field(old(self).base, 8)] == seq
                    ==> #[trigger] final(self).consistent(w0, mem0, mem, log.push(old(self).access())),
    {
        let idle = self.producer == seq;
        match self.request {
            Request::Idle => self.finish(Ok(Reply::Idle(idle))),
            Request::Available => {
                if idle {
                    self.finish(Ok(Reply::Available(None)));
                } else {
                    self.phase = Phase::ReadDataSize;
                }
            },
            Request::Publish { .. } => {
                if !idle {
                    self.finish(Err(Error::Busy));
                } else if self.words.len() == 0 {
                    self.phase = Phase::WriteDataSize;
                } else {
                    self.index = 0;
                    self.phase = Phase::WritePayload;
                }
            },
            Request::Consume { .. } => {
                if idle {
                    self.finish(Err(Error::NoData));
                } else {
                    self.phase = Phase::ReadDataSize;
                }
            },
            _ => {},
        }
        proof {
            assert forall|w0: Seq<u32>, mem0: Map<u32, u32>, mem: Map<u32, u32>, log: Seq<Access>|
                old(self).consistent(w0, mem0, mem, log) && mem[field(old(self).base, 8)] == seq
                    implies #[trigger] self.consistent(w0, mem0, mem, log.push(old(self).access())) by {
                if self.phase == Phase::WriteDataSize {
                    assert(w0.take(0) =~= w0);
                }
            }
        }
    }

    fn take_data_size(&mut self, ds: u32)
        requires
            old(self).phase == Phase::ReadDataSize,
            old(self).wf(),
        ensures
            final(self).wf(),
            final(self).request == old(self).request,
            final(self).actor == old(self).actor,
            final(self).base == old(self).base,
            0 <= final(self).rank() < old(self).rank(),
            forall|w0: Seq<u32>, mem0: Map<u32, u32>, mem: Map<u32, u32>, log: Seq<Access>|
                old(self).consistent(w0, mem0, mem, log) && mem[field(old(self).base, 16)] == ds
                    ==> #[trigger] final(self).consistent(w0, mem0, mem, log.push(old(self).access())),
    {
        match self.request {
            Request::Available => self.finish(Ok(Reply::Available(Some(ds as usize)))),
            Request::Consume { bulk, room } => {
                let fits = if bulk {
                    words_for_size(ds) <= room
                } else {
                    ds as usize <= room
                };
                if !fits {
                    self.finish(Err(Error::BufferTooSmall));
                } else {
                    self.data_size = ds;
                    self.phase = Phase::ReadSize;
                }
            },
            _ => {},
        }
    }

    fn take_payload_word(&mut self, w: u32)
        requires
            old(self).phase == Phase::ReadPayload,
            old(self).wf(),
            !old(self).consume_bulk(),
        ensures
            final(self).wf(),
            final(self).request == old(self).request,
            final(self).actor == old(self).actor,
            final(self).base == old(self).base,
            0 <= final(self).rank() < old(self).rank(),
            forall|w0: Seq<u32>, mem0: Map<u32, u32>, mem: Map<u32, u32>, log: Seq<Access>|
                old(self).consistent(w0, mem0, mem, log) && mem[word_addr(
                    payload_start(old(self).base),
                    old(self).index as int,
                )] == w ==> #[trigger] final(self).consistent(w0, mem0, mem, log.push(old(self).access())),
    {
        let ghost before = *self;
        self.words.push(w);
        self.index = self.index + 1;
        if self.index == words_for_size(self.data_size) {
            self.phase = Phase::ReadSequence;
        }
        proof {
            assert forall|w0: Seq<u32>, mem0: Map<u32, u32>, mem: Map<u32, u32>, log: Seq<Access>|
                before.consistent(w0, mem0, mem, log) && mem[word_addr(
                    payload_start(before.base),
                    before.index as int,
                )] == w implies #[trigger] self.consistent(w0, mem0, mem, log.push(before.access())) by {
                let p = payload_start(self.base);
                assert(mem == mem0);
                assert(before.words@ == load_words(mem0, p, before.index as nat));
                assert(self.words@ =~= load_words(mem0, p, self.index as nat));
                let head = consume_checks(self.base, 4);
                let reads = payload_reads(p, self.count() as nat, false);
                assert(reads[before.index as int] == before.access());
                assert((head + reads.take(before.index as int)).push(before.access()) =~= head
                    + reads.take(self.index as int));
                if self.phase == Phase::ReadSequence {
                    assert(reads.take(self.index as int) =~= reads);
                }
            }
        }
    }

    /// Notes that the access [`Access::WriteWord`] was performed.
    pub fn accept_write(&mut self)
        requires
            old(self).wf(),
            old(self).access() is WriteWord,
        ensures
            final(self).wf(),
            final(self).request() == old(self).request(),
            final(self).actor() == old(self).actor(),
            final(self).base() == old(self).base(),
            0 <= final(self).rank() < old(self).rank(),
            forall|w0: Seq<u32>, mem0: Map<u32, u32>, mem: Map<u32, u32>, log: Seq<Access>|
                old(self).consistent(w0, mem0, mem, log) ==> #[trigger] final(self).consistent(
                    w0,
                    mem0,
                    after_write(old(self).access(), mem),
                    log.push(old(self).access()),
                ),
    {
        let ghost before = *self;
        match self.phase {
            Phase::Format => {
                self.index = self.index + 1;
                if self.index == 6 {
                    self.finish(Ok(Reply::Done));
                }
            },
            Phase::WritePayload => {
                self.index = self.index + 1;
                if self.index == self.words.len() {
                    self.phase = Phase::WriteDataSize;
                }
            },
            Phase::WriteDataSize => {
                self.phase = Phase::WriteFlags;
            },
            Phase::WriteFlags => {
                self.phase = Phase::ReadSequence;
            },
            _ => {
                let reply = match self.request {
                    Request::Publish { .. } => Reply::Done,
                    _ => Reply::Consumed(self.data_size as usize),
                };
                self.finish(Ok(reply));
            },
        }
        proof {
            assert forall|w0: Seq<u32>, mem0: Map<u32, u32>, mem: Map<u32, u32>, log: Seq<Access>|
                before.consistent(w0, mem0, mem, log) implies #[trigger] self.consistent(
                w0,
                mem0,
                after_write(before.access(), mem),
                log.push(before.access()),
            ) by {
                let b = self.base;
                let p = payload_start(b);
                if before.phase == Phase::Format {
                    if before.index == 5 {
                        reveal_with_fuel(format_prefix, 6);
                        lemma_header_distinct(b);
                        assert(after_write(before.access(), mem) =~= formatted(
                            mem0,
                            b,
                            self.create_size() as u32,
                        ));
                    }
                } else if before.phase == Phase::WritePayload {
                    crate::channel::medium::lemma_store_step(mem0, p, w0, before.index as int);
                    let head = publish_checks(b, 3);
                    let writes = payload_writes(p, w0, false);
                    assert(writes[before.index as int] == before.access());
                    assert((head + writes.take(before.index as int)).push(before.access()) =~= head
                        + writes.take(self.index as int));
                    if self.phase == Phase::WriteDataSize {
                        assert(w0.take(self.index as int) =~= w0);
                        assert(writes.take(self.index as int) =~= writes);
                    }
                }
            }
        }
    }

    /// Notes that the access [`Access::WriteWords`] was performed with the
    /// engine's words.
    pub fn accept_bulk_write(&mut self)
        requires
            old(self).wf(),
            old(self).access() is WriteWords,
        ensures
            final(self).wf(),
            final(self).request() == old(self).request(),
            final(self).actor() == old(self).actor(),
            final(self).base() == old(self).base(),
            0 <= final(self).rank() < old(self).rank(),
            forall|w0: Seq<u32>, mem0: Map<u32, u32>, mem: Map<u32, u32>, log: Seq<Access>|
                old(self).consistent(w0, mem0, mem, log) ==> #[trigger] final(self).consistent(
                    w0,
                    mem0,
                    store_words(mem, access_addr(old(self).access()), old(self).words_view()),
                    log.push(old(self).access()),
                ),
    {
        let ghost before = *self;
        self.phase = Phase::WriteDataSize;
        proof {
            assert forall|w0: Seq<u32>, mem0: Map<u32, u32>, mem: Map<u32, u32>, log: Seq<Access>|
                before.consistent(w0, mem0, mem, log) implies #[trigger] self.consistent(
                w0,
                mem0,
                store_words(mem, access_addr(before.access()), before.words_view()),
                log.push(before.access()),
            ) by {
                assert(w0.take(0) =~= Seq::<u32>::empty());
                assert(mem == mem0);
                let head = publish_checks(self.base, 3);
                let writes = payload_writes(payload_start(self.base), w0, true);
                assert((head + writes.take(0)).push(before.access()) =~= head + writes);
            }
        }
    }

    /// Takes the words that the access [`Access::ReadWords`] read.
    pub fn accept_words(&mut self, words: Vec<u32>)
        requires
            old(self).wf(),
            old(self).access() is ReadWords,
            words@.len() == access_count(old(self).access()),
        ensures
            final(self).wf(),
            final(self).request() == old(self).request(),
            final(self).actor() == old(self).actor(),
            final(self).base() == old(self).base(),
            0 <= final(self).rank() < old(self).rank(),
            forall|w0: Seq<u32>, mem0: Map<u32, u32>, mem: Map<u32, u32>, log: Seq<Access>|
                old(self).consistent(w0, mem0, mem, log) && words@ == load_words(
                    mem,
                    access_addr(old(self).access()),
                    access_count(old(self).access()) as nat,
                ) ==> #[trigger] final(self).consistent(w0, mem0, mem, log.push(old(self).access())),
    {
        let ghost before = *self;
        self.words = words;
        self.phase = Phase::ReadSequence;
        proof {
            assert forall|w0: Seq<u32>, mem0: Map<u32, u32>, mem: Map<u32, u32>, log: Seq<Access>|
                before.consistent(w0, mem0, mem, log) && self.words@ == load_words(
                    mem,
                    access_addr(before.access()),
                    access_count(before.access()) as nat,
                ) implies #[trigger] self.consistent(w0, mem0, mem, log.push(before.access())) by {
                let head = consume_checks(self.base, 4);
                let reads = payload_reads(payload_start(self.base), self.count() as nat, true);
                assert((head + reads.take(0)).push(before.access()) =~= head + reads);
            }
        }
    }
}

/// An operation in progress is invisible to the peer until its last write:
/// the medium of an unfinished run is [`unseen`]; that of a finished one is
/// the outcome's.
#[verifier::rlimit(50)]
pub proof fn lemma_partial_operations_hidden(
    e: Engine,
    w0: Seq<u32>,
    mem0: Map<u32, u32>,
    mem: Map<u32, u32>,
    log: Seq<Access>,
)
    requires
        e.consistent(w0, mem0, mem, log),
    ensures
        !(e.access() is Finished) ==> unseen(e.request(), e.base(), mem0, mem),
        e.access() is Finished ==> (e.result_view(), mem, e.words_view()) == outcome(
            e.request(),
            e.actor(),
            e.base(),
            w0,
            mem0,
        ) && log == trace(e.request(), e.actor(), e.base(), w0, mem0),
{
    let b = e.base;
    let p = payload_start(b);
    lemma_header_distinct(b);
    if e.phase == Phase::Format {
        reveal_with_fuel(format_prefix, 6);
    }
    if e.request is Publish {
        if e.phase == Phase::WritePayload {
            let done = w0.take(e.index as int);
            lemma_payload_clear_of_header(mem0, b, done, 0);
            lemma_payload_clear_of_header(mem0, b, done, 4);
            lemma_payload_clear_of_header(mem0, b, done, 8);
        } else if e.phase != Phase::ReadSize && e.phase != Phase::ReadProducer && e.phase
            != Phase::ReadConsumer && e.phase != Phase::Done {
            lemma_payload_clear_of_header(mem0, b, w0, 0);
            lemma_payload_clear_of_header(mem0, b, w0, 4);
            lemma_payload_clear_of_header(mem0, b, w0, 8);
        }
    }
}


/// A bulk write that failed part way, changing no address but its own, has
/// left the medium [`unseen`]: bulk writes carry only payload, which lies
/// clear of the control block.
pub proof fn lemma_failed_bulk_write(
    e: Engine,
    w0: Seq<u32>,
    mem0: Map<u32, u32>,
    mem: Map<u32, u32>,
    log: Seq<Access>,
    after: Map<u32, u32>,
)
    requires
        e.consistent(w0, mem0, mem, log),
        e.access() is WriteWords,
        forall|a: u32|
            (forall|i: int|
                0 <= i < access_count(e.access()) ==> word_addr(access_addr(e.access()), i) != a)
                ==> after.contains_key(a) == mem.contains_key(a) && after[a] == mem[a],
    ensures
        unseen(e.request(), e.base(), mem0, after),
{
    let b = e.base;
    let p = payload_start(b);
    lemma_partial_operations_hidden(e, w0, mem0, mem, log);
    assert forall|off: u32| off < HEADER_SIZE implies (forall|i: int|
        0 <= i < access_count(e.access()) ==> word_addr(p, i) != #[trigger] field(b, off)) by {
        assert forall|i: int| 0 <= i < access_count(e.access()) implies word_addr(p, i) != field(
            b,
            off,
        ) by {
            crate::channel::medium::lemma_addr_add(b, HEADER_SIZE as int, 4 * i);
            crate::channel::medium::lemma_addr_distinct(b, HEADER_SIZE + 4 * i, off as int);
        }
    }
    assert(field(b, 0) == field(b, 0));
    assert(field(b, 4) == field(b, 4));
    assert(field(b, 8) == field(b, 8));
}

} // verus!
