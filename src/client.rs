//! Configuration of the two channels that an RPC client pairs into a call:
//! a command channel that the client produces on, and a response channel
//! that it consumes from.
use vstd::prelude::*;

verus! {

/// How to reach the command and response channels of an RPC client.
#[derive(Debug, Clone, Copy, PartialEq, Eq, Structural)]
pub enum RpcClientConfig {
    /// Create both channels, with explicit sizes.
    Direct {
        /// Address of the command channel
        cmd_ch_ptr: u32,
        /// Size of the command channel in bytes
        cmd_ch_size: usize,
        /// Address of the response channel
        rsp_ch_ptr: u32,
        /// Size of the response channel in bytes
        rsp_ch_size: usize,
    },
    /// Attach to both channels, learning their sizes from their control
    /// blocks.
    FromTarget {
        /// Address of the command channel
        cmd_ch_ptr: u32,
        /// Address of the response channel
        rsp_ch_ptr: u32,
    },
}

/// How to open one channel.
#[derive(Debug, Clone, Copy, PartialEq, Eq, Structural)]
pub enum ChannelConfig {
    /// Create the channel with an explicit size.
    Direct { ptr: u32, size: usize },
    /// Attach to the channel, reading its size from its control block.
    FromTarget { ptr: u32 },
}

/// Splits a client configuration into the command channel's and the
/// response channel's.
pub fn get_channel_configs(config: RpcClientConfig) -> (r: (ChannelConfig, ChannelConfig))
    ensures
        match config {
            RpcClientConfig::Direct { cmd_ch_ptr, cmd_ch_size, rsp_ch_ptr, rsp_ch_size } => r == (
            ChannelConfig::Direct { ptr: cmd_ch_ptr, size: cmd_ch_size },
            ChannelConfig::Direct { ptr: rsp_ch_ptr, size: rsp_ch_size },
            ),
            RpcClientConfig::FromTarget { cmd_ch_ptr, rsp_ch_ptr } => r == (
            ChannelConfig::FromTarget { ptr: cmd_ch_ptr },
            ChannelConfig::FromTarget { ptr: rsp_ch_ptr },
            ),
        },
{
    match config {
        RpcClientConfig::Direct { cmd_ch_ptr, cmd_ch_size, rsp_ch_ptr, rsp_ch_size } => (
            ChannelConfig::Direct { ptr: cmd_ch_ptr, size: cmd_ch_size },
            ChannelConfig::Direct { ptr: rsp_ch_ptr, size: rsp_ch_size },
        ),
        RpcClientConfig::FromTarget { cmd_ch_ptr, rsp_ch_ptr } => (
            ChannelConfig::FromTarget { ptr: cmd_ch_ptr },
            ChannelConfig::FromTarget { ptr: rsp_ch_ptr },
        ),
    }
}

} // verus!
