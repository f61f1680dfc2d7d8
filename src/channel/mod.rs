//! Channels for communication between two parties that share a medium.
//!
//! Every channel region starts with a control block of five little-endian
//! 32-bit words, followed by the payload area:
//!
//! | offset | field          |
//! |--------|----------------|
//! | 0      | `channel_size` |
//! | 4      | `producer_seq` |
//! | 8      | `consumer_seq` |
//! | 12     | `flags`        |
//! | 16     | `data_size`    |
//! | 20     | payload        |
//!
//! A `channel_size` of zero means "not yet initialized". Any other value is at
//! least [`MIN_CHANNEL_SIZE`]. The channel is idle when the two sequence
//! numbers are equal, and busy (one unconsumed payload) when they differ.
use vstd::prelude::*;

pub mod codec;
pub mod engine;
pub mod laws;
pub mod medium;
pub mod memory;
pub mod protocol;
pub mod sync;

pub use engine::{Access, Engine, Reply, Request};
pub use memory::BufferIo;
pub use sync::{Channel, ChannelIo};


use crate::{Error, Result};

verus! {

/// Byte offset of `channel_size` in the control block.
pub const CHANNEL_SIZE_OFFSET: u32 = 0;

/// Byte offset of `producer_seq` in the control block.
pub const PRODUCER_SEQ_OFFSET: u32 = 4;

/// Byte offset of `consumer_seq` in the control block.
pub const CONSUMER_SEQ_OFFSET: u32 = 8;

/// Byte offset of `flags` in the control block.
pub const FLAGS_OFFSET: u32 = 12;

/// Byte offset of `data_size` in the control block.
pub const DATA_SIZE_OFFSET: u32 = 16;

/// Size of the control block in bytes: the payload starts at this offset.
pub const HEADER_SIZE: u32 = 20;

/// Smallest legal channel size: the control block and one word of payload.
pub const MIN_CHANNEL_SIZE: u32 = 24;

/// Whether the user of a channel is its producer or its consumer.
#[derive(Debug, Clone, Copy, PartialEq, Eq, Structural)]
pub enum ChannelActor {
    Producer,
    Consumer,
}

/// Status flags of a channel. Only `Okay` is ever written; the others are
/// reserved.
#[derive(Debug, Default, Clone, Copy, PartialEq, Eq, Structural)]
pub enum ChannelFlags {
    #[default]
    Okay,
    Busy,
    Error,
    Timeout,
}

/// The flags that a word of the `flags` field stands for; unknown values read
/// as `Error`.
pub open spec fn flags_of(value: u32) -> ChannelFlags {
    if value == 0 {
        ChannelFlags::Okay
    } else if value == 1 {
        ChannelFlags::Busy
    } else if value == 2 {
        ChannelFlags::Error
    } else if value == 3 {
        ChannelFlags::Timeout
    } else {
        ChannelFlags::Error
    }
}

/// The word that stands for a flags value in the `flags` field.
pub open spec fn flags_word(flags: ChannelFlags) -> u32 {
    match flags {
        ChannelFlags::Okay => 0,
        ChannelFlags::Busy => 1,
        ChannelFlags::Error => 2,
        ChannelFlags::Timeout => 3,
    }
}

impl ChannelFlags {
    /// The word written to the `flags` field for these flags.
    pub fn word(self) -> (r: u32)
        ensures
            r == flags_word(self),
            flags_of(r) == self,
    {
        match self {
            ChannelFlags::Okay => 0,
            ChannelFlags::Busy => 1,
            ChannelFlags::Error => 2,
            ChannelFlags::Timeout => 3,
        }
    }
}

impl From<u32> for ChannelFlags {
    fn from(value: u32) -> (r: Self)
        ensures
            r == flags_of(value),
    {
        match value {
            0 => ChannelFlags::Okay,
            1 => ChannelFlags::Busy,
            2 => ChannelFlags::Error,
            3 => ChannelFlags::Timeout,
            _ => ChannelFlags::Error,
        }
    }
}

impl vstd::std_specs::convert::FromSpecImpl<u32> for ChannelFlags {
    open spec fn obeys_from_spec() -> bool {
        true
    }

    open spec fn from_spec(v: u32) -> ChannelFlags {
        flags_of(v)
    }
}

/// Control block of a unidirectional channel, as its five header words hold it.
#[derive(Debug, Clone, Copy)]
pub struct ChannelCb {
    /// Total size of the channel, including this control block
    pub channel_size: u32,
    /// Producer sequence number - incremented when data is published
    pub producer_seq: u32,
    /// Consumer sequence number - set to the producer's when data is consumed
    pub consumer_seq: u32,
    /// Status flags
    pub flags: ChannelFlags,
    /// Size of the data payload in bytes
    pub data_size: u32,
}

impl ChannelCb {
    /// The control block of a freshly created channel of `size` bytes.
    pub fn new(size: u32) -> (r: Self)
        ensures
            r.channel_size == size,
            r.producer_seq == 0,
            r.consumer_seq == 0,
            r.flags == ChannelFlags::Okay,
            r.data_size == 0,
    {
        ChannelCb {
            channel_size: size,
            producer_seq: 0,
            consumer_seq: 0,
            flags: ChannelFlags::Okay,
            data_size: 0,
        }
    }

    pub fn channel_size_offset() -> (r: u32)
        ensures
            r == CHANNEL_SIZE_OFFSET,
    {
        CHANNEL_SIZE_OFFSET
    }

    pub fn producer_seq_offset() -> (r: u32)
        ensures
            r == PRODUCER_SEQ_OFFSET,
    {
        PRODUCER_SEQ_OFFSET
    }

    pub fn consumer_seq_offset() -> (r: u32)
        ensures
            r == CONSUMER_SEQ_OFFSET,
    {
        CONSUMER_SEQ_OFFSET
    }

    pub fn flags_offset() -> (r: u32)
        ensures
            r == FLAGS_OFFSET,
    {
        FLAGS_OFFSET
    }

    pub fn data_size_offset() -> (r: u32)
        ensures
            r == DATA_SIZE_OFFSET,
    {
        DATA_SIZE_OFFSET
    }

    /// Offset of the payload area: the size of the control block.
    pub fn data_offset() -> (r: u32)
        ensures
            r == HEADER_SIZE,
    {
        HEADER_SIZE
    }

    /// Payload capacity of a channel of this size. The size must have been
    /// validated first (see [`check_channel_size`]).
    pub fn data_capacity(&self) -> (r: usize)
        requires
            self.channel_size >= HEADER_SIZE,
        ensures
            r == self.channel_size - HEADER_SIZE,
    {
        (self.channel_size - HEADER_SIZE) as usize
    }

    /// Address of the payload area of a channel based at `base`.
    pub fn data_address(&self, base: u32) -> (r: u32)
        ensures
            r == medium::addr_at(base, HEADER_SIZE as int),
    {
        medium::offset(base, HEADER_SIZE)
    }
}

/// Smallest legal channel size, in bytes.
pub fn min_channel_size() -> (r: usize)
    ensures
        r == MIN_CHANNEL_SIZE,
{
    MIN_CHANNEL_SIZE as usize
}

/// A base address is legal when it is a multiple of four.
pub open spec fn aligned(addr: u32) -> bool {
    addr % 4 == 0
}

/// Rejects a base address that is not word aligned.
pub fn check_base_addr(addr: u32) -> (r: Result<()>)
    ensures
        r == (if aligned(addr) { Ok(()) } else { Err(Error::NotAligned) }),
{
    if addr % 4 != 0 {
        Err(Error::NotAligned)
    } else {
        Ok(())
    }
}

/// Rejects a channel size below the minimum.
pub fn check_channel_size(size: usize) -> (r: Result<()>)
    ensures
        r == (if size >= MIN_CHANNEL_SIZE { Ok(()) } else { Err(Error::BufferTooSmall) }),
{
    if size < min_channel_size() {
        Err(Error::BufferTooSmall)
    } else {
        Ok(())
    }
}

/// Rejects any role but the consumer's.
pub fn consumer_only(actor: ChannelActor) -> (r: Result<()>)
    ensures
        r == (if actor == ChannelActor::Consumer { Ok(()) } else { Err(Error::InvalidOperation) }),
{
    if actor != ChannelActor::Consumer {
        Err(Error::InvalidOperation)
    } else {
        Ok(())
    }
}

/// Rejects any role but the producer's.
pub fn producer_only(actor: ChannelActor) -> (r: Result<()>)
    ensures
        r == (if actor == ChannelActor::Producer { Ok(()) } else { Err(Error::InvalidOperation) }),
{
    if actor != ChannelActor::Producer {
        Err(Error::InvalidOperation)
    } else {
        Ok(())
    }
}

} // verus!
