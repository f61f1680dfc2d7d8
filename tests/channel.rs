use airfrog_rpc::channel::{BufferIo, Channel, ChannelActor, ChannelIo};
use airfrog_rpc::Error;

const BASE: u32 = 0x2000_0000;

fn medium(size: usize) -> BufferIo {
    BufferIo::new(BASE, size / 4 + 4)
}

fn header(io: &mut BufferIo) -> [u32; 5] {
    let mut h = [0u32; 5];
    for (i, w) in h.iter_mut().enumerate() {
        *w = io.read_u32(BASE + 4 * i as u32).unwrap();
    }
    h
}

fn publish(io: &mut BufferIo, data: &[u8]) -> Result<(), Error> {
    let mut ch = Channel::from_target(io, ChannelActor::Producer, BASE)?;
    ch.publish_bytes(data)
}

fn consume(io: &mut BufferIo, room: usize) -> Result<Vec<u8>, Error> {
    let mut ch = Channel::from_target(io, ChannelActor::Consumer, BASE)?;
    let mut buf = vec![0u8; room];
    let n = ch.consume_bytes(&mut buf)?;
    buf.truncate(n);
    Ok(buf)
}

#[test]
fn create_then_attach_sees_size_and_idle() {
    let mut io = medium(64);
    {
        let ch = Channel::new(&mut io, ChannelActor::Producer, BASE, 64);
        assert!(ch.is_ok());
    }
    assert_eq!(header(&mut io), [64, 0, 0, 0, 0]);
    let mut ch = Channel::from_target(&mut io, ChannelActor::Consumer, BASE).unwrap();
    assert_eq!(ch.data_capacity(), Ok(44));
    assert_eq!(ch.data_available(), Ok(None));
    assert_eq!(ch.can_publish(), Ok(true));
}

#[test]
fn create_resets_an_existing_header() {
    let mut io = medium(64);
    for i in 0..5u32 {
        io.write_u32(BASE + 4 * i, 0xdead_0000 + i).unwrap();
    }
    assert!(Channel::new(&mut io, ChannelActor::Consumer, BASE, 48).is_ok());
    assert_eq!(header(&mut io), [48, 0, 0, 0, 0]);
}

#[test]
fn attach_to_uninitialized_channel_fails() {
    let mut io = medium(64);
    let r = Channel::from_target(&mut io, ChannelActor::Consumer, BASE);
    assert_eq!(r.err(), Some(Error::Uninit));
}

#[test]
fn attach_to_undersized_channel_fails() {
    let mut io = medium(64);
    io.write_u32(BASE, 23).unwrap();
    let r = Channel::from_target(&mut io, ChannelActor::Consumer, BASE);
    assert_eq!(r.err(), Some(Error::BufferTooSmall));
}

#[test]
fn misaligned_base_fails_for_create_and_attach() {
    let mut io = medium(64);
    let r = Channel::new(&mut io, ChannelActor::Producer, BASE + 2, 64);
    assert_eq!(r.err(), Some(Error::NotAligned));
    let r = Channel::from_target(&mut io, ChannelActor::Producer, BASE + 1);
    assert_eq!(r.err(), Some(Error::NotAligned));
    assert_eq!(header(&mut io), [0, 0, 0, 0, 0]);
}

#[test]
fn create_below_minimum_size_fails() {
    let mut io = medium(64);
    let r = Channel::new(&mut io, ChannelActor::Producer, BASE, 23);
    assert_eq!(r.err(), Some(Error::BufferTooSmall));
    assert!(Channel::new(&mut io, ChannelActor::Producer, BASE, 24).is_ok());
}

#[test]
fn create_outside_the_medium_fails_with_io() {
    let mut io = BufferIo::new(BASE, 4);
    let r = Channel::new(&mut io, ChannelActor::Producer, BASE, 64);
    assert_eq!(r.err(), Some(Error::Io));
}

#[test]
fn round_trip_of_every_edge_length() {
    let size = 64usize;
    let cap = size - 20;
    for len in [0usize, 1, 3, 4, 5, cap - 1, cap] {
        let mut io = medium(size);
        assert!(Channel::new(&mut io, ChannelActor::Producer, BASE, size).is_ok());
        let data: Vec<u8> = (0..len).map(|i| (i * 7 + 1) as u8).collect();
        assert_eq!(publish(&mut io, &data), Ok(()));
        assert_eq!(consume(&mut io, cap), Ok(data.clone()));
        assert_eq!(consume(&mut io, cap), Err(Error::NoData));
    }
}

#[test]
fn payload_over_capacity_is_rejected_without_change() {
    let mut io = medium(64);
    assert!(Channel::new(&mut io, ChannelActor::Producer, BASE, 64).is_ok());
    let before = header(&mut io);
    let data = vec![0xAAu8; 45];
    assert_eq!(publish(&mut io, &data), Err(Error::PayloadTooLarge));
    assert_eq!(header(&mut io), before);
    assert_eq!(io.read_u32(BASE + 20), Ok(0));
    let mut ch = Channel::from_target(&mut io, ChannelActor::Producer, BASE).unwrap();
    assert_eq!(ch.publish_data(&[0u32; 12]), Err(Error::PayloadTooLarge));
    assert_eq!(ch.publish_data(&[7u32; 11]), Ok(()));
}

#[test]
fn probes_repeat_their_answer() {
    let mut io = medium(64);
    assert!(Channel::new(&mut io, ChannelActor::Producer, BASE, 64).is_ok());
    {
        let mut ch = Channel::from_target(&mut io, ChannelActor::Producer, BASE).unwrap();
        for _ in 0..3 {
            assert_eq!(ch.can_publish(), Ok(true));
            assert_eq!(ch.data_available(), Ok(None));
        }
        assert_eq!(ch.publish_bytes(&[1, 2, 3]), Ok(()));
        for _ in 0..3 {
            assert_eq!(ch.can_publish(), Ok(false));
            assert_eq!(ch.data_available(), Ok(Some(3)));
        }
    }
    assert_eq!(header(&mut io), [64, 1, 0, 0, 3]);
}

#[test]
fn busy_and_idle_alternate() {
    let mut io = medium(64);
    assert!(Channel::new(&mut io, ChannelActor::Producer, BASE, 64).is_ok());
    assert_eq!(consume(&mut io, 16), Err(Error::NoData));
    assert_eq!(publish(&mut io, b"first"), Ok(()));
    assert_eq!(publish(&mut io, b"second"), Err(Error::Busy));
    assert_eq!(consume(&mut io, 16), Ok(b"first".to_vec()));
    assert_eq!(consume(&mut io, 16), Err(Error::NoData));
    assert_eq!(publish(&mut io, b"second"), Ok(()));
    assert_eq!(consume(&mut io, 16), Ok(b"second".to_vec()));
    assert_eq!(header(&mut io), [64, 2, 2, 0, 6]);
}

#[test]
fn sequence_numbers_wrap() {
    let mut io = medium(64);
    assert!(Channel::new(&mut io, ChannelActor::Producer, BASE, 64).is_ok());
    io.write_u32(BASE + 4, 0xFFFF_FFFF).unwrap();
    io.write_u32(BASE + 8, 0xFFFF_FFFF).unwrap();
    assert_eq!(publish(&mut io, &[9, 8, 7]), Ok(()));
    assert_eq!(io.read_u32(BASE + 4), Ok(0));
    {
        let mut ch = Channel::from_target(&mut io, ChannelActor::Consumer, BASE).unwrap();
        assert_eq!(ch.data_available(), Ok(Some(3)));
        assert_eq!(ch.can_publish(), Ok(false));
    }
    assert_eq!(consume(&mut io, 8), Ok(vec![9, 8, 7]));
    assert_eq!(io.read_u32(BASE + 8), Ok(0));
    let mut ch = Channel::from_target(&mut io, ChannelActor::Consumer, BASE).unwrap();
    assert_eq!(ch.data_available(), Ok(None));
}

#[test]
fn word_and_byte_publish_write_the_same_payload() {
    let words = [0x0403_0201u32, 0x0807_0605, 0xDDCC_BBAA];
    let bytes: Vec<u8> = words.iter().flat_map(|w| w.to_le_bytes()).collect();
    let mut a = medium(64);
    let mut b = medium(64);
    {
        let mut ch = Channel::new(&mut a, ChannelActor::Producer, BASE, 64).unwrap();
        assert_eq!(ch.publish_data(&words), Ok(()));
    }
    {
        let mut ch = Channel::new(&mut b, ChannelActor::Producer, BASE, 64).unwrap();
        assert_eq!(ch.publish_bytes(&bytes), Ok(()));
    }
    for i in 0..16u32 {
        assert_eq!(a.read_u32(BASE + 4 * i), b.read_u32(BASE + 4 * i));
    }
    assert_eq!(a.read_u32(BASE + 20), Ok(0x0403_0201));
    assert_eq!(a.read_u32(BASE + 16), Ok(12));
}

#[test]
fn word_and_byte_consume_agree() {
    let mut io = medium(64);
    assert!(Channel::new(&mut io, ChannelActor::Producer, BASE, 64).is_ok());
    assert_eq!(publish(&mut io, &[1, 2, 3, 4, 5]), Ok(()));
    let mut words = [0xFFFF_FFFFu32; 4];
    {
        let mut ch = Channel::from_target(&mut io, ChannelActor::Consumer, BASE).unwrap();
        assert_eq!(ch.consume_data(&mut words), Ok(2));
    }
    assert_eq!(words, [0x0403_0201, 0x0000_0005, 0xFFFF_FFFF, 0xFFFF_FFFF]);
}

#[test]
fn partial_word_leaves_high_lanes_zero() {
    let mut io = medium(64);
    assert!(Channel::new(&mut io, ChannelActor::Producer, BASE, 64).is_ok());
    io.write_u32(BASE + 24, 0xFFFF_FFFF).unwrap();
    assert_eq!(publish(&mut io, &[0x11, 0x22, 0x33, 0x44, 0x55, 0x66]), Ok(()));
    assert_eq!(io.read_u32(BASE + 20), Ok(0x4433_2211));
    assert_eq!(io.read_u32(BASE + 24), Ok(0x0000_6655));
}

#[test]
fn consume_into_small_buffer_fails() {
    let mut io = medium(64);
    assert!(Channel::new(&mut io, ChannelActor::Producer, BASE, 64).is_ok());
    assert_eq!(publish(&mut io, &[1, 2, 3, 4, 5]), Ok(()));
    assert_eq!(consume(&mut io, 4), Err(Error::BufferTooSmall));
    let mut words = [0u32; 1];
    {
        let mut ch = Channel::from_target(&mut io, ChannelActor::Consumer, BASE).unwrap();
        assert_eq!(ch.consume_data(&mut words), Err(Error::BufferTooSmall));
    }
    assert_eq!(words, [0]);
    assert_eq!(consume(&mut io, 5), Ok(vec![1, 2, 3, 4, 5]));
}

#[test]
fn consume_leaves_rest_of_buffer() {
    let mut io = medium(64);
    assert!(Channel::new(&mut io, ChannelActor::Producer, BASE, 64).is_ok());
    assert_eq!(publish(&mut io, &[1, 2]), Ok(()));
    let mut ch = Channel::from_target(&mut io, ChannelActor::Consumer, BASE).unwrap();
    let mut buf = [0xEEu8; 6];
    assert_eq!(ch.consume_bytes(&mut buf), Ok(2));
    assert_eq!(buf, [1, 2, 0xEE, 0xEE, 0xEE, 0xEE]);
}

#[test]
fn oversized_data_size_is_rejected() {
    let mut io = medium(64);
    assert!(Channel::new(&mut io, ChannelActor::Producer, BASE, 64).is_ok());
    io.write_u32(BASE + 4, 1).unwrap();
    io.write_u32(BASE + 16, 45).unwrap();
    assert_eq!(consume(&mut io, 100), Err(Error::PayloadTooLarge));
    assert_eq!(io.read_u32(BASE + 8), Ok(0));
}

#[test]
fn roles_are_enforced() {
    let mut io = medium(64);
    assert!(Channel::new(&mut io, ChannelActor::Producer, BASE, 64).is_ok());
    {
        let mut ch = Channel::from_target(&mut io, ChannelActor::Consumer, BASE).unwrap();
        assert_eq!(ch.publish_bytes(&[1]), Err(Error::InvalidOperation));
        assert_eq!(ch.publish_data(&[1]), Err(Error::InvalidOperation));
    }
    assert_eq!(publish(&mut io, &[1]), Ok(()));
    let mut ch = Channel::from_target(&mut io, ChannelActor::Producer, BASE).unwrap();
    let mut buf = [0u8; 4];
    assert_eq!(ch.consume_bytes(&mut buf), Err(Error::InvalidOperation));
    let mut words = [0u32; 4];
    assert_eq!(ch.consume_data(&mut words), Err(Error::InvalidOperation));
}

#[test]
fn smallest_channel_carries_one_word() {
    let mut io = medium(24);
    assert!(Channel::new(&mut io, ChannelActor::Producer, BASE, 24).is_ok());
    assert_eq!(publish(&mut io, &[1, 2, 3, 4, 5]), Err(Error::PayloadTooLarge));
    assert_eq!(publish(&mut io, &[1, 2, 3, 4]), Ok(()));
    assert_eq!(consume(&mut io, 4), Ok(vec![1, 2, 3, 4]));
}

#[test]
fn create_size_beyond_the_size_field_fails() {
    let mut io = medium(64);
    let r = Channel::new(&mut io, ChannelActor::Producer, BASE, u32::MAX as usize + 1);
    assert_eq!(r.err(), Some(Error::InvalidOperation));
    assert_eq!(header(&mut io), [0, 0, 0, 0, 0]);
}

#[test]
fn publish_past_the_medium_fails_with_io() {
    let mut io = BufferIo::new(BASE, 8);
    assert!(Channel::new(&mut io, ChannelActor::Producer, BASE, 64).is_ok());
    assert_eq!(publish(&mut io, &[1, 2, 3, 4]), Ok(()));
    assert_eq!(consume(&mut io, 64), Ok(vec![1, 2, 3, 4]));
    assert_eq!(publish(&mut io, &[7u8; 30]), Err(Error::Io));
    assert_eq!(io.read_u32(BASE + 4), Ok(1));
}

#[test]
fn capacity_of_a_resized_channel_is_checked() {
    let mut io = medium(64);
    let mut ch = Channel::new(&mut io, ChannelActor::Producer, BASE, 64).unwrap();
    assert_eq!(ch.data_capacity(), Ok(44));
    drop(ch);
    io.write_u32(BASE, 0).unwrap();
    let r = Channel::from_target(&mut io, ChannelActor::Producer, BASE);
    assert_eq!(r.err(), Some(Error::Uninit));
    io.write_u32(BASE, 21).unwrap();
    let r = Channel::from_target(&mut io, ChannelActor::Producer, BASE);
    assert_eq!(r.err(), Some(Error::BufferTooSmall));
}

#[test]
fn create_failing_part_way_leaves_the_channel_uninitialized() {
    let mut io = BufferIo::new(BASE, 2);
    io.write_u32(BASE, 64).unwrap();
    io.write_u32(BASE + 4, 5).unwrap();
    let r = Channel::new(&mut io, ChannelActor::Producer, BASE, 64);
    assert_eq!(r.err(), Some(Error::Io));
    assert_eq!(io.read_u32(BASE), Ok(0));
    assert_eq!(io.read_u32(BASE + 4), Ok(0));
}

#[test]
fn consume_failing_part_way_keeps_the_payload() {
    let mut io = BufferIo::new(BASE, 7);
    assert!(Channel::new(&mut io, ChannelActor::Producer, BASE, 64).is_ok());
    assert_eq!(publish(&mut io, &[1, 2, 3, 4]), Ok(()));
    io.write_u32(BASE + 16, 12).unwrap();
    assert_eq!(consume(&mut io, 16), Err(Error::Io));
    assert_eq!(io.read_u32(BASE + 8), Ok(0));
    io.write_u32(BASE + 16, 4).unwrap();
    assert_eq!(consume(&mut io, 16), Ok(vec![1, 2, 3, 4]));
}
