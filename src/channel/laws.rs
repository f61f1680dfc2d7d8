//! Laws of the channel protocol, proved over the outcome specifications
//! that the operations' contracts use.
use vstd::prelude::*;

use crate::channel::codec::{
    bytes_to_words, lemma_bytes_round_trip, lemma_words_round_trip, words_for, words_to_bytes,
};
use crate::channel::engine::{format_log, outcome, write_of, Reply, Request};
use crate::channel::protocol::{
    channel_size, consume_outcome, consumer_seq, create_check, data_size, field, formatted,
    is_idle, lemma_header_distinct, lemma_payload_clear_of_header, next_seq, payload_bytes,
    payload_fits, payload_start, producer_seq, publish_outcome, published, size_check,
};
use crate::channel::medium::{
    lemma_addr_add, lemma_addr_distinct, lemma_load_store, load_words, store_words, word_addr,
};
use crate::channel::{aligned, ChannelActor, HEADER_SIZE};
use crate::Error;

verus! {

/// The payload capacity of a channel whose size field passes validation.
pub open spec fn capacity(mem: Map<u32, u32>, base: u32) -> int {
    size_check(channel_size(mem, base))->Ok_0 as int
}

/// A channel whose size field passes validation.
pub open spec fn valid_channel(mem: Map<u32, u32>, base: u32) -> bool {
    size_check(channel_size(mem, base)) is Ok
}

/// A freshly created channel has the requested size and is idle: attaching
/// to it succeeds with its capacity, and it has no data available.
pub proof fn lemma_create_then_attach(mem: Map<u32, u32>, base: u32, size: usize, actor: ChannelActor)
    requires
        create_check(base, size as int) is Ok,
    ensures
        channel_size(formatted(mem, base, size as u32), base) == size,
        is_idle(formatted(mem, base, size as u32), base),
        outcome(Request::Attach, actor, base, Seq::empty(), formatted(mem, base, size as u32)).0
            == Ok::<Reply, Error>(Reply::Capacity((size - HEADER_SIZE) as usize)),
        outcome(Request::Idle, actor, base, Seq::empty(), formatted(mem, base, size as u32)).0
            == Ok::<Reply, Error>(Reply::Idle(true)),
        outcome(Request::Available, actor, base, Seq::empty(), formatted(mem, base, size as u32)).0
            == Ok::<Reply, Error>(Reply::Available(None)),
{
    lemma_header_distinct(base);
}

/// Attaching to a channel whose size field is zero fails with `Uninit`; a
/// base address that is not a multiple of four fails with `NotAligned`, for
/// create and attach alike.
pub proof fn lemma_attach_rejects(mem: Map<u32, u32>, base: u32, size: int, actor: ChannelActor)
    ensures
        aligned(base) && channel_size(mem, base) == 0 ==> outcome(
            Request::Attach,
            actor,
            base,
            Seq::empty(),
            mem,
        ).0 == Err::<Reply, Error>(Error::Uninit),
        !aligned(base) ==> create_check(base, size) == Err::<(), Error>(Error::NotAligned),
        !aligned(base) ==> outcome(Request::Attach, actor, base, Seq::empty(), mem).0 == Err::<
            Reply,
            Error,
        >(Error::NotAligned),
{
}

/// What a publish leaves in the channel's header and payload.
proof fn lemma_published_reads(mem: Map<u32, u32>, base: u32, ws: Seq<u32>, len: int)
    requires
        payload_fits(ws.len() as int),
    ensures
        channel_size(published(mem, base, ws, len), base) == channel_size(mem, base),
        consumer_seq(published(mem, base, ws, len), base) == consumer_seq(mem, base),
        producer_seq(published(mem, base, ws, len), base) == next_seq(producer_seq(mem, base)),
        data_size(published(mem, base, ws, len), base) == len as u32,
        load_words(published(mem, base, ws, len), payload_start(base), ws.len()) == ws,
{
    let p = payload_start(base);
    lemma_header_distinct(base);
    lemma_payload_clear_of_header(mem, base, ws, 0);
    lemma_payload_clear_of_header(mem, base, ws, 8);
    let stored = store_words(mem, p, ws);
    lemma_load_store(mem, p, ws);
    let m = published(mem, base, ws, len);
    assert forall|i: int| 0 <= i < ws.len() implies #[trigger] m[word_addr(p, i)] == stored[word_addr(
        p,
        i,
    )] by {
        lemma_addr_add(base, HEADER_SIZE as int, 4 * i);
        lemma_addr_distinct(base, HEADER_SIZE + 4 * i, 16);
        lemma_addr_distinct(base, HEADER_SIZE + 4 * i, 12);
        lemma_addr_distinct(base, HEADER_SIZE + 4 * i, 4);
        assert(load_words(stored, p, ws.len())[i] == ws[i]);
    }
    assert(load_words(m, p, ws.len()) =~= ws);
}

/// A payload that fits packs into words that stay clear of the header.
proof fn lemma_fitting_payload(mem: Map<u32, u32>, base: u32, data: Seq<u8>)
    requires
        valid_channel(mem, base),
        data.len() <= capacity(mem, base),
    ensures
        payload_fits(bytes_to_words(data).len() as int),
        bytes_to_words(data).len() == words_for(data.len() as int),
{
}

/// Round trip: on a valid idle channel, publishing bytes that fit its
/// capacity succeeds, and consuming them into a buffer with room for them
/// succeeds with their length, returns exactly those bytes, and leaves the
/// channel idle.
pub proof fn lemma_round_trip(mem: Map<u32, u32>, base: u32, data: Seq<u8>, room: int)
    requires
        valid_channel(mem, base),
        is_idle(mem, base),
        data.len() <= capacity(mem, base),
        data.len() <= room,
    ensures
        ({
            let (r1, m1) = publish_outcome(
                mem,
                base,
                ChannelActor::Producer,
                bytes_to_words(data),
                data.len() as int,
            );
            let (r2, m2, ws) = consume_outcome(m1, base, ChannelActor::Consumer, false, room);
            &&& r1 == Ok::<(), Error>(())
            &&& r2 == Ok::<usize, Error>(data.len() as usize)
            &&& payload_bytes(m1, base) == data
            &&& words_to_bytes(ws).take(data.len() as int) == data
            &&& is_idle(m2, base)
        }),
{
    let ws = bytes_to_words(data);
    let len = data.len() as int;
    lemma_fitting_payload(mem, base, data);
    lemma_published_reads(mem, base, ws, len);
    lemma_bytes_round_trip(data);
    let m1 = published(mem, base, ws, len);
    assert(data_size(m1, base) == len);
    assert(load_words(m1, payload_start(base), words_for(len) as nat) == ws);
    lemma_header_distinct(base);
}

/// A payload longer than the capacity of a valid channel fails with
/// `PayloadTooLarge` and leaves the medium as it was.
pub proof fn lemma_oversize_rejected(mem: Map<u32, u32>, base: u32, words: Seq<u32>, len: int)
    requires
        valid_channel(mem, base),
        len > capacity(mem, base),
    ensures
        publish_outcome(mem, base, ChannelActor::Producer, words, len) == (
        Err::<(), Error>(Error::PayloadTooLarge),
        mem,
        ),
{
}

/// Probes leave the medium as it was, so repeating one without a publish or
/// consume in between gives the same answer.
pub proof fn lemma_probes_idempotent(mem: Map<u32, u32>, base: u32, actor: ChannelActor)
    ensures
        outcome(Request::Idle, actor, base, Seq::empty(), mem).1 == mem,
        outcome(Request::Available, actor, base, Seq::empty(), mem).1 == mem,
        outcome(Request::Capacity, actor, base, Seq::empty(), mem).1 == mem,
        outcome(
            Request::Idle,
            actor,
            base,
            Seq::empty(),
            outcome(Request::Idle, actor, base, Seq::empty(), mem).1,
        ).0 == outcome(Request::Idle, actor, base, Seq::empty(), mem).0,
        outcome(
            Request::Available,
            actor,
            base,
            Seq::empty(),
            outcome(Request::Available, actor, base, Seq::empty(), mem).1,
        ).0 == outcome(Request::Available, actor, base, Seq::empty(), mem).0,
{
}

/// Busy/idle alternation on a valid idle channel: consuming fails with
/// `NoData`; publishing succeeds and makes the channel busy; a second
/// publish that fits then fails with `Busy`; one consume succeeds and makes
/// the channel idle again, after which a further consume fails with `NoData`.
pub proof fn lemma_alternation(
    mem: Map<u32, u32>,
    base: u32,
    data: Seq<u8>,
    again: Seq<u8>,
    room: int,
)
    requires
        valid_channel(mem, base),
        is_idle(mem, base),
        data.len() <= capacity(mem, base),
        again.len() <= capacity(mem, base),
        data.len() <= room,
    ensures
        consume_outcome(mem, base, ChannelActor::Consumer, false, room).0 == Err::<usize, Error>(
            Error::NoData,
        ),
        ({
            let (r1, m1) = publish_outcome(
                mem,
                base,
                ChannelActor::Producer,
                bytes_to_words(data),
                data.len() as int,
            );
            let (r2, m2, ws) = consume_outcome(m1, base, ChannelActor::Consumer, false, room);
            &&& r1 == Ok::<(), Error>(())
            &&& !is_idle(m1, base)
            &&& publish_outcome(
                m1,
                base,
                ChannelActor::Producer,
                bytes_to_words(again),
                again.len() as int,
            ) == (Err::<(), Error>(Error::Busy), m1)
            &&& r2 == Ok::<usize, Error>(data.len() as usize)
            &&& is_idle(m2, base)
            &&& consume_outcome(m2, base, ChannelActor::Consumer, false, room).0 == Err::<
                usize,
                Error,
            >(Error::NoData)
        }),
{
    let ws = bytes_to_words(data);
    let len = data.len() as int;
    lemma_fitting_payload(mem, base, data);
    lemma_published_reads(mem, base, ws, len);
    lemma_round_trip(mem, base, data, room);
    let m1 = published(mem, base, ws, len);
    let m2 = m1.insert(field(base, 8), producer_seq(m1, base));
    lemma_header_distinct(base);
    assert(channel_size(m1, base) == channel_size(mem, base));
    assert(is_idle(m2, base));
}

/// Sequence numbers wrap: on a valid idle channel whose sequence numbers are
/// both `0xFFFF_FFFF`, a publish sets `producer_seq` to zero and the channel
/// reads as busy with the payload's size available; the consume then sets
/// `consumer_seq` to zero and the channel reads as idle.
pub proof fn lemma_sequence_wraps(mem: Map<u32, u32>, base: u32, data: Seq<u8>, room: int)
    requires
        valid_channel(mem, base),
        producer_seq(mem, base) == 0xFFFF_FFFF,
        consumer_seq(mem, base) == 0xFFFF_FFFF,
        data.len() <= capacity(mem, base),
        data.len() <= room,
    ensures
        ({
            let (r1, m1) = publish_outcome(
                mem,
                base,
                ChannelActor::Producer,
                bytes_to_words(data),
                data.len() as int,
            );
            let (r2, m2, ws) = consume_outcome(m1, base, ChannelActor::Consumer, false, room);
            &&& r1 == Ok::<(), Error>(())
            &&& producer_seq(m1, base) == 0
            &&& !is_idle(m1, base)
            &&& outcome(Request::Available, ChannelActor::Consumer, base, Seq::empty(), m1).0
                == Ok::<Reply, Error>(Reply::Available(Some(data.len() as usize)))
            &&& r2 == Ok::<usize, Error>(data.len() as usize)
            &&& consumer_seq(m2, base) == 0
            &&& is_idle(m2, base)
        }),
{
    let ws = bytes_to_words(data);
    let len = data.len() as int;
    lemma_fitting_payload(mem, base, data);
    lemma_published_reads(mem, base, ws, len);
    lemma_round_trip(mem, base, data, room);
    lemma_header_distinct(base);
}

/// Publishing words and publishing the bytes of those words (four per word,
/// little endian) leave the same result and the same medium.
pub proof fn lemma_word_and_byte_publish_agree(
    mem: Map<u32, u32>,
    base: u32,
    actor: ChannelActor,
    words: Seq<u32>,
)
    ensures
        publish_outcome(mem, base, actor, words, 4 * words.len() as int) == publish_outcome(
            mem,
            base,
            actor,
            bytes_to_words(words_to_bytes(words)),
            words_to_bytes(words).len() as int,
        ),
{
    lemma_words_round_trip(words);
}

/// Consuming a payload as bytes gives the bytes of the words that consuming
/// it as words gives, cut to the payload's size.
pub proof fn lemma_word_and_byte_consume_agree(mem: Map<u32, u32>, base: u32, room_words: int, room_bytes: int)
    ensures
        ({
            let (rw, mw, ws) = consume_outcome(mem, base, ChannelActor::Consumer, true, room_words);
            let (rb, mb, bs) = consume_outcome(mem, base, ChannelActor::Consumer, false, room_bytes);
            rw is Ok && rb is Ok ==> rw == rb && mw == mb && ws == bs && payload_bytes(mem, base)
                == words_to_bytes(ws).take(data_size(mem, base) as int)
        }),
{
}

/// A create writes `channel_size` zero first, then `producer_seq`,
/// `consumer_seq`, `flags` and `data_size` zero, and the real size last.
pub proof fn lemma_create_writes_in_order(base: u32, size: u32)
    ensures
        format_log(base, size, 6) == seq![
            write_of(field(base, 0), 0),
            write_of(field(base, 4), 0),
            write_of(field(base, 8), 0),
            write_of(field(base, 12), 0),
            write_of(field(base, 16), 0),
            write_of(field(base, 0), size),
        ],
{
    reveal_with_fuel(format_log, 7);
    assert(format_log(base, size, 6) =~= seq![
        write_of(field(base, 0), 0),
        write_of(field(base, 4), 0),
        write_of(field(base, 8), 0),
        write_of(field(base, 12), 0),
        write_of(field(base, 16), 0),
        write_of(field(base, 0), size),
    ]);
}

} // verus!
