//! The control block as the medium holds it, and what each channel
//! operation does to the medium, stated directly. The engine and the channels
//! are proved against these statements.
use vstd::prelude::*;

use crate::channel::codec::{words_for, words_to_bytes};
use crate::channel::medium::{addr_at, load_words, store_words, word_addr};
use crate::channel::{aligned, ChannelActor, HEADER_SIZE, MIN_CHANNEL_SIZE};
use crate::{Error, Result};

verus! {

/// Address of the header word at byte offset `off` of the channel at `base`.
pub open spec fn field(base: u32, off: u32) -> u32 {
    addr_at(base, off as int)
}

/// Address of the payload area of the channel at `base`.
pub open spec fn payload_start(base: u32) -> u32 {
    addr_at(base, HEADER_SIZE as int)
}

pub open spec fn channel_size(mem: Map<u32, u32>, base: u32) -> u32 {
    mem[field(base, 0)]
}

pub open spec fn producer_seq(mem: Map<u32, u32>, base: u32) -> u32 {
    mem[field(base, 4)]
}

pub open spec fn consumer_seq(mem: Map<u32, u32>, base: u32) -> u32 {
    mem[field(base, 8)]
}

pub open spec fn data_size(mem: Map<u32, u32>, base: u32) -> u32 {
    mem[field(base, 16)]
}

/// A channel is idle when its sequence numbers are equal, and busy when
/// they differ.
pub open spec fn is_idle(mem: Map<u32, u32>, base: u32) -> bool {
    producer_seq(mem, base) == consumer_seq(mem, base)
}

/// Neither sequence number nor `channel_size` differs between `mem0` and
/// `mem`: to the other party the channel reads as it did.
pub open spec fn header_kept(mem0: Map<u32, u32>, mem: Map<u32, u32>, base: u32) -> bool {
    &&& producer_seq(mem, base) == producer_seq(mem0, base)
    &&& consumer_seq(mem, base) == consumer_seq(mem0, base)
    &&& channel_size(mem, base) == channel_size(mem0, base)
}

/// The sequence number after `s`, wrapping to zero after the largest.
pub open spec fn next_seq(s: u32) -> u32 {
    if s == u32::MAX {
        0
    } else {
        (s + 1) as u32
    }
}

/// Validates a `channel_size` field: zero is "uninitialized", a size below
/// the minimum is too small; otherwise the payload capacity.
pub open spec fn size_check(cs: u32) -> Result<usize> {
    if cs == 0 {
        Err(Error::Uninit)
    } else if cs < MIN_CHANNEL_SIZE {
        Err(Error::BufferTooSmall)
    } else {
        Ok((cs - HEADER_SIZE) as usize)
    }
}

/// Whether a requested channel size can be created.
pub open spec fn create_check(base: u32, size: int) -> Result<()> {
    if !aligned(base) {
        Err(Error::NotAligned)
    } else if size < MIN_CHANNEL_SIZE {
        Err(Error::BufferTooSmall)
    } else if size > u32::MAX {
        Err(Error::InvalidOperation)
    } else {
        Ok(())
    }
}

/// The medium with a freshly created channel of `size` bytes at `base`:
/// sequence numbers, flags and data size zero.
pub open spec fn formatted(mem: Map<u32, u32>, base: u32, size: u32) -> Map<u32, u32> {
    mem.insert(field(base, 0), size).insert(field(base, 4), 0).insert(field(base, 8), 0).insert(
        field(base, 12),
        0,
    ).insert(field(base, 16), 0)
}

/// The medium after a publish of `words` holding `len` payload bytes: the
/// payload words, then `data_size`, then `flags`, and last the incremented
/// `producer_seq`.
pub open spec fn published(mem: Map<u32, u32>, base: u32, words: Seq<u32>, len: int) -> Map<
    u32,
    u32,
> {
    store_words(mem, payload_start(base), words).insert(field(base, 16), len as u32).insert(
        field(base, 12),
        0,
    ).insert(field(base, 4), next_seq(producer_seq(mem, base)))
}

/// What a publish of `words`, standing for `len` payload bytes, does to the
/// medium: the result, and the medium afterwards.
pub open spec fn publish_outcome(
    mem: Map<u32, u32>,
    base: u32,
    actor: ChannelActor,
    words: Seq<u32>,
    len: int,
) -> (Result<()>, Map<u32, u32>) {
    if actor != ChannelActor::Producer {
        (Err(Error::InvalidOperation), mem)
    } else {
        match size_check(channel_size(mem, base)) {
            Err(e) => (Err(e), mem),
            Ok(cap) => if len > cap {
                (Err(Error::PayloadTooLarge), mem)
            } else if !is_idle(mem, base) {
                (Err(Error::Busy), mem)
            } else {
                (Ok(()), published(mem, base, words, len))
            },
        }
    }
}

/// Whether a payload of `ds` bytes fits a buffer of `room` units (words where
/// `in_words`, bytes otherwise).
pub open spec fn fits(in_words: bool, ds: int, room: int) -> bool {
    if in_words {
        words_for(ds) <= room
    } else {
        ds <= room
    }
}

/// What a consume into a buffer of `room` units does: the result (the
/// payload size in bytes), the medium afterwards, and the payload words read.
pub open spec fn consume_outcome(
    mem: Map<u32, u32>,
    base: u32,
    actor: ChannelActor,
    in_words: bool,
    room: int,
) -> (Result<usize>, Map<u32, u32>, Seq<u32>) {
    let ds = data_size(mem, base);
    if actor != ChannelActor::Consumer {
        (Err(Error::InvalidOperation), mem, Seq::empty())
    } else if is_idle(mem, base) {
        (Err(Error::NoData), mem, Seq::empty())
    } else if !fits(in_words, ds as int, room) {
        (Err(Error::BufferTooSmall), mem, Seq::empty())
    } else {
        match size_check(channel_size(mem, base)) {
            Err(e) => (Err(e), mem, Seq::empty()),
            Ok(cap) => if ds > cap {
                (Err(Error::PayloadTooLarge), mem, Seq::empty())
            } else {
                (
                    Ok(ds as usize),
                    mem.insert(field(base, 8), producer_seq(mem, base)),
                    load_words(mem, payload_start(base), words_for(ds as int) as nat),
                )
            },
        }
    }
}

/// The bytes of the payload waiting in the channel at `base`.
pub open spec fn payload_bytes(mem: Map<u32, u32>, base: u32) -> Seq<u8> {
    let ds = data_size(mem, base) as int;
    words_to_bytes(load_words(mem, payload_start(base), words_for(ds) as nat)).take(ds)
}

/// Whether the header offsets below 20 lie clear of `n` payload words.
pub open spec fn payload_fits(n: int) -> bool {
    4 * n + 18 <= 0x1_0000_0000
}

/// Payload words of a channel never land on its control block.
pub proof fn lemma_payload_clear_of_header(mem: Map<u32, u32>, base: u32, ws: Seq<u32>, off: u32)
    requires
        payload_fits(ws.len() as int),
        off < HEADER_SIZE,
    ensures
        store_words(mem, payload_start(base), ws)[field(base, off)] == mem[field(base, off)],
        store_words(mem, payload_start(base), ws).contains_key(field(base, off)) == mem.contains_key(
            field(base, off),
        ),
{
    assert forall|i: int| 0 <= i < ws.len() implies word_addr(payload_start(base), i) != field(
        base,
        off,
    ) by {
        crate::channel::medium::lemma_addr_add(base, HEADER_SIZE as int, 4 * i);
        crate::channel::medium::lemma_addr_distinct(base, HEADER_SIZE + 4 * i, off as int);
    }
    crate::channel::medium::lemma_store_other(mem, payload_start(base), ws, field(base, off));
}

/// The five header words of a channel are five different addresses.
pub proof fn lemma_header_distinct(base: u32)
    ensures
        field(base, 0) != field(base, 4),
        field(base, 0) != field(base, 8),
        field(base, 0) != field(base, 12),
        field(base, 0) != field(base, 16),
        field(base, 4) != field(base, 8),
        field(base, 4) != field(base, 12),
        field(base, 4) != field(base, 16),
        field(base, 8) != field(base, 12),
        field(base, 8) != field(base, 16),
        field(base, 12) != field(base, 16),
{
}

/// The medium after the first `k` zeroing writes of a create.
pub open spec fn format_prefix(mem: Map<u32, u32>, base: u32, k: int) -> Map<u32, u32>
    decreases k,
{
    if k <= 0 {
        mem
    } else {
        format_prefix(mem, base, k - 1).insert(field(base, (4 * (k - 1)) as u32), 0)
    }
}

} // verus!
