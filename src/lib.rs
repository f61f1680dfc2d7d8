//! Reliable single-producer/single-consumer message channels over a shared
//! memory region ("medium") reached by two independent parties, for example a
//! debug host and a microcontroller target.
//!
//! Each channel is a control block (size, producer and consumer sequence
//! numbers, flags, payload size) followed by a payload area. The producer and
//! consumer coordinate only through single-word reads and writes of the
//! sequence numbers: a publish is announced by the final increment of
//! `producer_seq`, and a consume is acknowledged by setting `consumer_seq` to
//! the producer's value.
//!
//! - [`channel`]: the control block, the word/byte codec, the protocol engine
//!   and the synchronous [`channel::Channel`].
//! - [`client`]: configuration of the two channels that an RPC client uses.
use vstd::prelude::*;

pub mod channel;
pub mod client;

verus! {

/// Errors of channel operations.
#[derive(Debug, Clone, Copy, PartialEq, Eq, Structural)]
pub enum Error {
    /// No data available
    NoData,
    /// Channel busy
    Busy,
    /// Timeout waiting for response (reserved)
    Timeout,
    /// Invalid operation, such as a role mismatch
    InvalidOperation,
    /// Payload too large for the channel
    PayloadTooLarge,
    /// Sequence mismatch (reserved)
    SequenceMismatch,
    /// Channel size or destination buffer too small
    BufferTooSmall,
    /// The medium failed
    Io,
    /// Uninitialized channel
    Uninit,
    /// Base address not aligned to a word
    NotAligned,
}

/// Result of a channel operation.
pub type Result<T> = core::result::Result<T, Error>;

} // verus!
