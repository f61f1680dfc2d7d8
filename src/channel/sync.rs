//! The synchronous channel: every medium access completes without
//! suspending. Typically used where the medium is directly addressable.
use vstd::prelude::*;

use crate::channel::codec::{bytes_to_words, copy_bytes_out, words_for};
use crate::channel::engine::{
    access_addr, access_count, after_write, consume_trace, format_log, lemma_failed_bulk_write,
    lemma_partial_operations_hidden, outcome, publish_trace, trace, unseen, Access, Engine, Reply,
    Request,
};
use crate::channel::protocol::{
    channel_size, consume_outcome, create_check, data_size, formatted, header_kept, is_idle,
    payload_bytes,
    payload_start, publish_outcome, size_check,
};
use crate::channel::medium::{covers, load_words, store_words, word_addr};
use crate::channel::{aligned, ChannelActor};
use crate::{Error, Result};

verus! {

/// Access to the medium that holds a channel (usually RAM), modelled as the
/// words it holds by address, and the log of the accesses made through it.
///
/// Single-word reads and writes must be atomic: one indivisible access,
/// never observed half done, so that a failed one has taken effect entirely
/// or not at all. Bulk transfers need no atomicity. Writes must become
/// visible to the other party in program order, each bulk transfer complete
/// before the single-word write that follows it. Any failure is reported as
/// an error; the channel reports it as [`Error::Io`].
pub trait ChannelIo {
    /// The words the medium holds, by address.
    spec fn medium(&self) -> Map<u32, u32>;

    /// Every access made so far, in order, failed ones included.
    spec fn log(&self) -> Seq<Access>;

    /// Atomic read of one word.
    fn read_u32(&mut self, addr: u32) -> (r: Result<u32>)
        ensures
            final(self).medium() == old(self).medium(),
            final(self).log() == old(self).log().push(Access::ReadWord { addr }),
            r is Ok ==> old(self).medium().contains_key(addr) && r->Ok_0 == old(self).medium()[addr],
    ;

    /// Atomic write of one word.
    fn write_u32(&mut self, addr: u32, value: u32) -> (r: Result<()>)
        ensures
            final(self).log() == old(self).log().push(Access::WriteWord { addr, value }),
            r is Ok ==> old(self).medium().contains_key(addr) && final(self).medium() == old(
                self,
            ).medium().insert(addr, value),
            r is Err ==> final(self).medium() == old(self).medium() || final(self).medium()
                == old(self).medium().insert(addr, value),
    ;

    /// Bulk read of `buf.len()` words from `addr` onwards, with no need for
    /// atomicity.
    fn read_bulk(&mut self, addr: u32, buf: &mut [u32]) -> (r: Result<()>)
        ensures
            final(self).medium() == old(self).medium(),
            final(self).log() == old(self).log().push(
                Access::ReadWords { addr, count: old(buf)@.len() as usize },
            ),
            final(buf)@.len() == old(buf)@.len(),
            r is Ok ==> covers(old(self).medium(), addr, old(buf)@.len()) && final(buf)@
                == load_words(old(self).medium(), addr, old(buf)@.len()),
    ;

    /// Bulk write of `data` from `addr` onwards, with no need for atomicity.
    /// A failed one changes no address but those of `data`'s words.
    fn write_bulk(&mut self, addr: u32, data: &[u32]) -> (r: Result<()>)
        ensures
            final(self).log() == old(self).log().push(
                Access::WriteWords { addr, count: data@.len() as usize },
            ),
            r is Ok ==> covers(old(self).medium(), addr, data@.len()) && final(self).medium()
                == store_words(old(self).medium(), addr, data@),
            r is Err ==> forall|a: u32|
                (forall|i: int| 0 <= i < data@.len() ==> word_addr(addr, i) != a) ==> (
                #[trigger] final(self).medium().contains_key(a) == old(self).medium().contains_key(a)
                    && final(self).medium()[a] == old(self).medium()[a]),
    ;
}

/// Drives `engine` to the end of its operation on the medium behind `io`.
/// A failed access ends the run with `Error::Io`, leaving the medium
/// [`unseen`] or, where the failed write took effect after all, as the
/// outcome leaves it.
fn drive<I: ChannelIo>(io: &mut I, engine: Engine) -> (r: Result<Engine>)
    requires
        engine.wf(),
        engine.consistent(engine.words_view(), old(io).medium(), old(io).medium(), Seq::empty()),
    ensures
        engine.access() is Finished ==> r == Ok::<Engine, Error>(engine) && final(io).medium()
            == old(io).medium() && final(io).log() == old(io).log(),
        r is Err ==> r == Err::<Engine, Error>(Error::Io) && (unseen(
            engine.request(),
            engine.base(),
            old(io).medium(),
            final(io).medium(),
        ) || final(io).medium() == outcome(
            engine.request(),
            engine.actor(),
            engine.base(),
            engine.words_view(),
            old(io).medium(),
        ).1),
        r is Ok ==> {
            let e = r->Ok_0;
            let (res, mem, words) = outcome(
                engine.request(),
                engine.actor(),
                engine.base(),
                engine.words_view(),
                old(io).medium(),
            );
            &&& e.result_view() == res
            &&& e.words_view() == words
            &&& final(io).medium() == mem
            &&& final(io).log() == old(io).log() + trace(
                engine.request(),
                engine.actor(),
                engine.base(),
                engine.words_view(),
                old(io).medium(),
            )
        },
{
    let ghost w0 = engine.words_view();
    let ghost mem0 = io.medium();
    let ghost log0 = io.log();
    let ghost mut done: Seq<Access> = Seq::empty();
    let mut e = engine;
    assert(log0 + done =~= log0);
    loop
        invariant
            mem0 == old(io).medium(),
            log0 == old(io).log(),
            w0 == engine.words_view(),
            e.wf(),
            e.consistent(w0, mem0, io.medium(), done),
            io.log() == log0 + done,
            e.request() == engine.request(),
            e.actor() == engine.actor(),
            e.base() == engine.base(),
            engine.access() is Finished ==> e == engine && io.medium() == mem0 && done
                == Seq::<Access>::empty(),
        decreases e.rank(),
    {
        let access = e.next_access();
        let ghost before = io.medium();
        let ghost prev = e;
        proof {
            lemma_partial_operations_hidden(e, w0, mem0, before, done);
        }
        match access {
            Access::Finished => {
                return Ok(e);
            },
            Access::ReadWord { addr } => {
                match io.read_u32(addr) {
                    Ok(v) => e.accept_word(v),
                    Err(_) => {
                        return Err(Error::Io);
                    },
                }
            },
            Access::WriteWord { addr, value } => {
                match io.write_u32(addr, value) {
                    Ok(()) => {
                        assert(io.medium() == after_write(access, before));
                        e.accept_write();
                    },
                    Err(_) => {
                        // The failed write may have taken effect; the engine's
                        // state after it covers that case.
                        e.accept_write();
                        proof {
                            if io.medium() != before {
                                assert(io.medium() == after_write(access, before));
                                lemma_partial_operations_hidden(
                                    e,
                                    w0,
                                    mem0,
                                    io.medium(),
                                    done.push(access),
                                );
                            }
                        }
                        return Err(Error::Io);
                    },
                }
            },
            Access::ReadWords { addr, count } => {
                let mut buf: Vec<u32> = vec![0u32; count];
                match io.read_bulk(addr, buf.as_mut_slice()) {
                    Ok(()) => e.accept_words(buf),
                    Err(_) => {
                        return Err(Error::Io);
                    },
                }
            },
            Access::WriteWords { addr, count } => {
                let ghost ws = e.words_view();
                match io.write_bulk(addr, e.words()) {
                    Ok(()) => {
                        assert(io.medium() == store_words(before, access_addr(access), ws));
                        e.accept_bulk_write();
                    },
                    Err(_) => {
                        proof {
                            assert(access == e.access());
                            assert(access_addr(access) == addr);
                            assert(access_count(access) == ws.len());
                            assert forall|a: u32|
                                (forall|i: int|
                                    0 <= i < access_count(e.access()) ==> word_addr(
                                        access_addr(e.access()),
                                        i,
                                    ) != a) implies io.medium().contains_key(a)
                                == before.contains_key(a) && io.medium()[a] == before[a] by {
                                assert forall|i: int| 0 <= i < ws.len() implies word_addr(addr, i)
                                    != a by {
                                    assert(0 <= i < access_count(e.access()));
                                }
                            }
                            lemma_failed_bulk_write(e, w0, mem0, before, done, io.medium());
                        }
                        return Err(Error::Io);
                    },
                }
            },
        }
        proof {
            done = done.push(access);
            assert(io.log() =~= log0 + done);
        }
    }
}

/// Synchronous unidirectional communication channel.
///
/// A channel borrows the medium access for its lifetime; dropping it leaves
/// the medium as it is, free for the next channel.
pub struct Channel<'a, I: ChannelIo> {
    io: &'a mut I,
    actor: ChannelActor,
    base_addr: u32,
}

/// Copies `words` into the front of `buf`, leaving the rest as it was.
fn copy_words_out(words: &[u32], buf: &mut [u32])
    requires
        words@.len() <= old(buf)@.len(),
    ensures
        final(buf)@.len() == old(buf)@.len(),
        final(buf)@.take(words@.len() as int) == words@,
        final(buf)@.skip(words@.len() as int) == old(buf)@.skip(words@.len() as int),
{
    let n = words.len();
    let mut i: usize = 0;
    while i < n
        invariant
            n == words@.len(),
            n <= buf@.len(),
            i <= n,
            buf@.len() == old(buf)@.len(),
            forall|k: int| 0 <= k < i ==> buf@[k] == words@[k],
            forall|k: int| n <= k < buf@.len() ==> buf@[k] == old(buf)@[k],
        decreases n - i,
    {
        buf[i] = words[i];
        i = i + 1;
    }
    assert(buf@.take(n as int) =~= words@);
    assert(buf@.skip(n as int) =~= old(buf)@.skip(n as int));
}

impl<'a, I: ChannelIo> Channel<'a, I> {
    /// The words the medium holds.
    pub closed spec fn medium(&self) -> Map<u32, u32> {
        self.io.medium()
    }

    /// Every access made through the channel's medium so far.
    pub closed spec fn log(&self) -> Seq<Access> {
        self.io.log()
    }

    pub closed spec fn actor(&self) -> ChannelActor {
        self.actor
    }

    pub closed spec fn base_addr(&self) -> u32 {
        self.base_addr
    }

    /// Creates a channel of `size` bytes (control block included) at
    /// `base_addr`, formatting a fresh control block. Used by the side that
    /// owns the region.
    ///
    /// A misaligned base, a size below the minimum, or a size that the
    /// 32-bit size field cannot hold (`InvalidOperation`) is rejected before
    /// any access. Otherwise the header is written in the order of
    /// [`format_log`]: `channel_size` zero first, then the other four words
    /// zero, and the real size last, so that a party attaching meanwhile sees
    /// an uninitialized channel, even if the medium fails part way.
    pub fn new(io: &'a mut I, actor: ChannelActor, base_addr: u32, size: usize) -> (r: Result<Self>)
        ensures
            match r {
                Ok(ch) => {
                    &&& create_check(base_addr, size as int) is Ok
                    &&& ch.actor() == actor
                    &&& ch.base_addr() == base_addr
                    &&& ch.medium() == formatted(old(io).medium(), base_addr, size as u32)
                    &&& ch.log() == old(io).log() + format_log(base_addr, size as u32, 6)
                },
                Err(e) => e == Error::Io || {
                    &&& create_check(base_addr, size as int) == Err::<(), Error>(e)
                    &&& final(io).medium() == old(io).medium()
                    &&& final(io).log() == old(io).log()
                },
            },
            create_check(base_addr, size as int) is Err ==> r is Err && create_check(
                base_addr,
                size as int,
            ) == Err::<(), Error>(r->Err_0),
            r is Err && r->Err_0 == Error::Io ==> final(io).medium() == old(io).medium()
                || channel_size(final(io).medium(), base_addr) == 0 || final(io).medium()
                == formatted(old(io).medium(), base_addr, size as u32),
    {
        let engine = Engine::create(actor, base_addr, size);
        match drive(io, engine) {
            Ok(e) => match e.result() {
                Ok(_) => Ok(Channel { io, actor, base_addr }),
                Err(err) => Err(err),
            },
            Err(err) => Err(err),
        }
    }

    /// Attaches to the existing channel at `base_addr`, validating its control
    /// block without changing it. Used by the peer of the side that created
    /// it. A misaligned base is rejected before any access; otherwise the one
    /// access is a read of `channel_size`.
    pub fn from_target(io: &'a mut I, actor: ChannelActor, base_addr: u32) -> (r: Result<Self>)
        ensures
            match r {
                Ok(ch) => {
                    &&& aligned(base_addr)
                    &&& size_check(channel_size(old(io).medium(), base_addr)) is Ok
                    &&& ch.actor() == actor
                    &&& ch.base_addr() == base_addr
                    &&& ch.medium() == old(io).medium()
                    &&& ch.log() == old(io).log().push(Access::ReadWord { addr: base_addr })
                },
                Err(e) => final(io).medium() == old(io).medium() && (e == Error::Io || if aligned(
                    base_addr,
                ) {
                    &&& size_check(channel_size(old(io).medium(), base_addr)) == Err::<
                        usize,
                        Error,
                    >(e)
                    &&& final(io).log() == old(io).log().push(Access::ReadWord { addr: base_addr })
                } else {
                    e == Error::NotAligned && final(io).log() == old(io).log()
                }),
            },
            !aligned(base_addr) ==> r is Err && r->Err_0 == Error::NotAligned,
    {
        let engine = Engine::attach(actor, base_addr);
        match drive(io, engine) {
            Ok(e) => match e.result() {
                Ok(_) => Ok(Channel { io, actor, base_addr }),
                Err(err) => Err(err),
            },
            Err(err) => Err(err),
        }
    }

    /// Producer: publishes word-aligned data, written in one bulk transfer.
    ///
    /// Unless the medium fails, the result and the medium afterwards are
    /// those of [`publish_outcome`], and the accesses those of
    /// [`publish_trace`]: the role, the channel size, the payload's length
    /// and the channel's idleness are checked in that order, then the
    /// payload, `data_size` and `flags` are written, and last the incremented
    /// `producer_seq` announces the payload. If the medium fails, the channel
    /// still reads idle to the consumer, unless the failed write was the
    /// announcing one and took effect.
    pub fn publish_data(&mut self, data: &[u32]) -> (r: Result<()>)
        ensures
            final(self).actor() == old(self).actor(),
            final(self).base_addr() == old(self).base_addr(),
            r != Err::<(), Error>(Error::Io) ==> (r, final(self).medium()) == publish_outcome(
                old(self).medium(),
                old(self).base_addr(),
                old(self).actor(),
                data@,
                4 * data@.len() as int,
            ) && final(self).log() == old(self).log() + publish_trace(
                old(self).medium(),
                old(self).base_addr(),
                old(self).actor(),
                data@,
                4 * data@.len() as int,
                true,
            ),
            r == Err::<(), Error>(Error::Io) ==> header_kept(
                old(self).medium(),
                final(self).medium(),
                old(self).base_addr(),
            ) || final(self).medium() == publish_outcome(
                old(self).medium(),
                old(self).base_addr(),
                old(self).actor(),
                data@,
                4 * data@.len() as int,
            ).1,
            old(self).actor() != ChannelActor::Producer ==> r == Err::<(), Error>(
                Error::InvalidOperation,
            ) && final(self).medium() == old(self).medium() && final(self).log() == old(self).log(),
    {
        let engine = Engine::publish_words(self.actor, self.base_addr, data);
        match drive(self.io, engine) {
            Ok(e) => match e.result() {
                Ok(_) => Ok(()),
                Err(err) => Err(err),
            },
            Err(err) => Err(err),
        }
    }

    /// Producer: publishes bytes of any length, packed little endian into
    /// words and written one word at a time; the unused high lanes of a last
    /// partial word are zero.
    ///
    /// Unless the medium fails, the result and the medium afterwards are
    /// those of [`publish_outcome`], and the accesses those of
    /// [`publish_trace`]. If the medium fails, the channel still reads idle
    /// to the consumer, unless the failed write was the announcing one and
    /// took effect.
    pub fn publish_bytes(&mut self, data: &[u8]) -> (r: Result<()>)
        ensures
            final(self).actor() == old(self).actor(),
            final(self).base_addr() == old(self).base_addr(),
            r != Err::<(), Error>(Error::Io) ==> (r, final(self).medium()) == publish_outcome(
                old(self).medium(),
                old(self).base_addr(),
                old(self).actor(),
                bytes_to_words(data@),
                data@.len() as int,
            ) && final(self).log() == old(self).log() + publish_trace(
                old(self).medium(),
                old(self).base_addr(),
                old(self).actor(),
                bytes_to_words(data@),
                data@.len() as int,
                false,
            ),
            r == Err::<(), Error>(Error::Io) ==> header_kept(
                old(self).medium(),
                final(self).medium(),
                old(self).base_addr(),
            ) || final(self).medium() == publish_outcome(
                old(self).medium(),
                old(self).base_addr(),
                old(self).actor(),
                bytes_to_words(data@),
                data@.len() as int,
            ).1,
            old(self).actor() != ChannelActor::Producer ==> r == Err::<(), Error>(
                Error::InvalidOperation,
            ) && final(self).medium() == old(self).medium() && final(self).log() == old(self).log(),
    {
        proof {
            assert(data@.len() == data.len());
        }
        let engine = Engine::publish_bytes(self.actor, self.base_addr, data);
        match drive(self.io, engine) {
            Ok(e) => match e.result() {
                Ok(_) => Ok(()),
                Err(err) => Err(err),
            },
            Err(err) => Err(err),
        }
    }

    /// Producer: whether the channel is idle, so that a publish may go ahead.
    /// Reads both sequence numbers and nothing else.
    pub fn can_publish(&mut self) -> (r: Result<bool>)
        ensures
            final(self).actor() == old(self).actor(),
            final(self).base_addr() == old(self).base_addr(),
            final(self).medium() == old(self).medium(),
            r != Err::<bool, Error>(Error::Io) ==> r == Ok::<bool, Error>(
                is_idle(old(self).medium(), old(self).base_addr()),
            ) && final(self).log() == old(self).log() + trace(
                Request::Idle,
                old(self).actor(),
                old(self).base_addr(),
                Seq::empty(),
                old(self).medium(),
            ),
    {
        let engine = Engine::idle(self.actor, self.base_addr);
        match drive(self.io, engine) {
            Ok(e) => match e.result() {
                Ok(Reply::Idle(idle)) => Ok(idle),
                Ok(_) => Err(Error::InvalidOperation),
                Err(err) => Err(err),
            },
            Err(err) => Err(err),
        }
    }

    /// Consumer: consumes the waiting payload as bytes into the front of
    /// `buf`, read one word at a time, and returns its length in bytes.
    ///
    /// Unless the medium fails, the result and the medium afterwards are
    /// those of [`consume_outcome`], and the accesses those of
    /// [`consume_trace`]: the role, the channel's busyness, the room in `buf`
    /// and the payload size against the channel's capacity are checked in
    /// that order; then the payload is read, and last `consumer_seq` is set
    /// to `producer_seq`, which returns the channel to idle. If the medium
    /// fails, the payload stays available, unless the failed write was that
    /// last one and took effect.
    pub fn consume_bytes(&mut self, buf: &mut [u8]) -> (r: Result<usize>)
        ensures
            final(self).actor() == old(self).actor(),
            final(self).base_addr() == old(self).base_addr(),
            r != Err::<usize, Error>(Error::Io) ==> {
                let (res, mem, words) = consume_outcome(
                    old(self).medium(),
                    old(self).base_addr(),
                    old(self).actor(),
                    false,
                    old(buf)@.len() as int,
                );
                &&& r == res
                &&& final(self).medium() == mem
                &&& final(self).log() == old(self).log() + consume_trace(
                    old(self).medium(),
                    old(self).base_addr(),
                    old(self).actor(),
                    false,
                    old(buf)@.len() as int,
                )
            },
            r == Err::<usize, Error>(Error::Io) ==> final(self).medium() == old(self).medium()
                || final(self).medium() == consume_outcome(
                old(self).medium(),
                old(self).base_addr(),
                old(self).actor(),
                false,
                old(buf)@.len() as int,
            ).1,
            r is Ok ==> {
                let n = r->Ok_0 as int;
                &&& final(buf)@.len() == old(buf)@.len()
                &&& final(buf)@.take(n) == payload_bytes(old(self).medium(), old(self).base_addr())
                &&& final(buf)@.skip(n) == old(buf)@.skip(n)
            },
            r is Err ==> final(buf)@ == old(buf)@,
            old(self).actor() != ChannelActor::Consumer ==> r == Err::<usize, Error>(
                Error::InvalidOperation,
            ) && final(self).medium() == old(self).medium() && final(self).log() == old(self).log(),
    {
        let engine = Engine::consume_bytes(self.actor, self.base_addr, buf.len());
        match drive(self.io, engine) {
            Ok(e) => match e.result() {
                Ok(Reply::Consumed(ds)) => {
                    copy_bytes_out(e.words(), ds, buf);
                    Ok(ds)
                },
                Ok(_) => Err(Error::InvalidOperation),
                Err(err) => Err(err),
            },
            Err(err) => Err(err),
        }
    }

    /// Consumer: consumes the waiting payload as words into the front of
    /// `buf`, read in one bulk transfer, and returns the number of words (a
    /// last partial word included).
    ///
    /// Unless the medium fails, the result and the medium afterwards are
    /// those of [`consume_outcome`], with the room in `buf` counted in words,
    /// and the accesses those of [`consume_trace`]. If the medium fails, the
    /// payload stays available, unless the failed write was the last one and
    /// took effect.
    pub fn consume_data(&mut self, buf: &mut [u32]) -> (r: Result<usize>)
        ensures
            final(self).actor() == old(self).actor(),
            final(self).base_addr() == old(self).base_addr(),
            r != Err::<usize, Error>(Error::Io) ==> {
                let (res, mem, words) = consume_outcome(
                    old(self).medium(),
                    old(self).base_addr(),
                    old(self).actor(),
                    true,
                    old(buf)@.len() as int,
                );
                &&& final(self).medium() == mem
                &&& final(self).log() == old(self).log() + consume_trace(
                    old(self).medium(),
                    old(self).base_addr(),
                    old(self).actor(),
                    true,
                    old(buf)@.len() as int,
                )
                &&& match res {
                    Ok(ds) => r == Ok::<usize, Error>(words_for(ds as int) as usize),
                    Err(e) => r == Err::<usize, Error>(e),
                }
            },
            r == Err::<usize, Error>(Error::Io) ==> final(self).medium() == old(self).medium()
                || final(self).medium() == consume_outcome(
                old(self).medium(),
                old(self).base_addr(),
                old(self).actor(),
                true,
                old(buf)@.len() as int,
            ).1,
            r is Ok ==> {
                let n = r->Ok_0 as int;
                &&& final(buf)@.len() == old(buf)@.len()
                &&& final(buf)@.take(n) == load_words(
                    old(self).medium(),
                    payload_start(old(self).base_addr()),
                    n as nat,
                )
                &&& final(buf)@.skip(n) == old(buf)@.skip(n)
            },
            r is Err ==> final(buf)@ == old(buf)@,
            old(self).actor() != ChannelActor::Consumer ==> r == Err::<usize, Error>(
                Error::InvalidOperation,
            ) && final(self).medium() == old(self).medium() && final(self).log() == old(self).log(),
    {
        let engine = Engine::consume_words(self.actor, self.base_addr, buf.len());
        match drive(self.io, engine) {
            Ok(e) => match e.result() {
                Ok(Reply::Consumed(_)) => {
                    let words = e.words();
                    copy_words_out(words, buf);
                    Ok(words.len())
                },
                Ok(_) => Err(Error::InvalidOperation),
                Err(err) => Err(err),
            },
            Err(err) => Err(err),
        }
    }

    /// Consumer: the size in bytes of the waiting payload, or `None` when the
    /// channel is idle. Reads both sequence numbers, and `data_size` when
    /// they differ.
    pub fn data_available(&mut self) -> (r: Result<Option<usize>>)
        ensures
            final(self).actor() == old(self).actor(),
            final(self).base_addr() == old(self).base_addr(),
            final(self).medium() == old(self).medium(),
            r != Err::<Option<usize>, Error>(Error::Io) ==> r == Ok::<Option<usize>, Error>(
                if is_idle(old(self).medium(), old(self).base_addr()) {
                    None
                } else {
                    Some(data_size(old(self).medium(), old(self).base_addr()) as usize)
                },
            ) && final(self).log() == old(self).log() + trace(
                Request::Available,
                old(self).actor(),
                old(self).base_addr(),
                Seq::empty(),
                old(self).medium(),
            ),
    {
        let engine = Engine::available(self.actor, self.base_addr);
        match drive(self.io, engine) {
            Ok(e) => match e.result() {
                Ok(Reply::Available(waiting)) => Ok(waiting),
                Ok(_) => Err(Error::InvalidOperation),
                Err(err) => Err(err),
            },
            Err(err) => Err(err),
        }
    }

    /// The payload capacity of the channel in bytes, after validating its
    /// size field. Reads `channel_size` and nothing else.
    pub fn data_capacity(&mut self) -> (r: Result<usize>)
        ensures
            final(self).actor() == old(self).actor(),
            final(self).base_addr() == old(self).base_addr(),
            final(self).medium() == old(self).medium(),
            r != Err::<usize, Error>(Error::Io) ==> r == size_check(
                channel_size(old(self).medium(), old(self).base_addr()),
            ) && final(self).log() == old(self).log() + trace(
                Request::Capacity,
                old(self).actor(),
                old(self).base_addr(),
                Seq::empty(),
                old(self).medium(),
            ),
    {
        let engine = Engine::capacity(self.actor, self.base_addr);
        match drive(self.io, engine) {
            Ok(e) => match e.result() {
                Ok(Reply::Capacity(cap)) => Ok(cap),
                Ok(_) => Err(Error::InvalidOperation),
                Err(err) => Err(err),
            },
            Err(err) => Err(err),
        }
    }
}

} // verus!
