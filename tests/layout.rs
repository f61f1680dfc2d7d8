use airfrog_rpc::channel::codec::{pack_bytes, unpack_words, word_from_le_bytes};
use airfrog_rpc::channel::{
    check_base_addr, check_channel_size, consumer_only, min_channel_size, producer_only,
    ChannelActor, ChannelCb, ChannelFlags,
};
use airfrog_rpc::client::{get_channel_configs, ChannelConfig, RpcClientConfig};
use airfrog_rpc::Error;

#[test]
fn control_block_offsets() {
    assert_eq!(ChannelCb::channel_size_offset(), 0);
    assert_eq!(ChannelCb::producer_seq_offset(), 4);
    assert_eq!(ChannelCb::consumer_seq_offset(), 8);
    assert_eq!(ChannelCb::flags_offset(), 12);
    assert_eq!(ChannelCb::data_size_offset(), 16);
    assert_eq!(ChannelCb::data_offset(), 20);
    assert_eq!(min_channel_size(), 24);
}

#[test]
fn control_block_capacity_and_address() {
    let cb = ChannelCb::new(1024);
    assert_eq!(cb.channel_size, 1024);
    assert_eq!(cb.producer_seq, 0);
    assert_eq!(cb.consumer_seq, 0);
    assert_eq!(cb.flags, ChannelFlags::Okay);
    assert_eq!(cb.data_size, 0);
    assert_eq!(cb.data_capacity(), 1004);
    assert_eq!(cb.data_address(0x2000_0000), 0x2000_0014);
    assert_eq!(cb.data_address(0xFFFF_FFF0), 0x0000_0004);
}

#[test]
fn flags_from_words() {
    assert_eq!(ChannelFlags::from(0), ChannelFlags::Okay);
    assert_eq!(ChannelFlags::from(1), ChannelFlags::Busy);
    assert_eq!(ChannelFlags::from(2), ChannelFlags::Error);
    assert_eq!(ChannelFlags::from(3), ChannelFlags::Timeout);
    assert_eq!(ChannelFlags::from(77), ChannelFlags::Error);
    assert_eq!(ChannelFlags::Timeout.word(), 3);
    assert_eq!(ChannelFlags::default(), ChannelFlags::Okay);
}

#[test]
fn checks() {
    assert_eq!(check_base_addr(0x2000_0004), Ok(()));
    assert_eq!(check_base_addr(0x2000_0006), Err(Error::NotAligned));
    assert_eq!(check_channel_size(24), Ok(()));
    assert_eq!(check_channel_size(23), Err(Error::BufferTooSmall));
    assert_eq!(producer_only(ChannelActor::Producer), Ok(()));
    assert_eq!(producer_only(ChannelActor::Consumer), Err(Error::InvalidOperation));
    assert_eq!(consumer_only(ChannelActor::Consumer), Ok(()));
    assert_eq!(consumer_only(ChannelActor::Producer), Err(Error::InvalidOperation));
}

#[test]
fn packing_is_little_endian() {
    assert_eq!(word_from_le_bytes(0x01, 0x02, 0x03, 0x04), 0x0403_0201);
    assert_eq!(pack_bytes(&[]), Vec::<u32>::new());
    assert_eq!(pack_bytes(&[0xAB]), vec![0x0000_00AB]);
    assert_eq!(pack_bytes(&[1, 2, 3, 4, 5, 6, 7]), vec![0x0403_0201, 0x0007_0605]);
    assert_eq!(unpack_words(&[0x0403_0201, 0xFF]), vec![1, 2, 3, 4, 0xFF, 0, 0, 0]);
}

#[test]
fn packing_round_trips() {
    let data: Vec<u8> = (0..=255u8).collect();
    for len in 0..20 {
        let words = pack_bytes(&data[..len]);
        assert_eq!(words.len(), (len + 3) / 4);
        assert_eq!(&unpack_words(&words)[..len], &data[..len]);
    }
    let words = [0xDEAD_BEEFu32, 0x0102_0304];
    assert_eq!(pack_bytes(&unpack_words(&words)), words.to_vec());
}

#[test]
fn client_config_splits() {
    let direct = RpcClientConfig::Direct {
        cmd_ch_ptr: 0x2000_0000,
        cmd_ch_size: 1024,
        rsp_ch_ptr: 0x2000_1000,
        rsp_ch_size: 512,
    };
    assert_eq!(
        get_channel_configs(direct),
        (
            ChannelConfig::Direct { ptr: 0x2000_0000, size: 1024 },
            ChannelConfig::Direct { ptr: 0x2000_1000, size: 512 }
        )
    );
    let attach = RpcClientConfig::FromTarget { cmd_ch_ptr: 0x2000_0000, rsp_ch_ptr: 0x2000_1000 };
    assert_eq!(
        get_channel_configs(attach),
        (ChannelConfig::FromTarget { ptr: 0x2000_0000 }, ChannelConfig::FromTarget { ptr: 0x2000_1000 })
    );
}
