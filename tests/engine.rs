use airfrog_rpc::channel::{Access, BufferIo, ChannelActor, ChannelIo, Engine, Reply};
use airfrog_rpc::Error;

const BASE: u32 = 0x1000;

/// Drives an engine by hand, as a driver that awaits between accesses does,
/// and records the accesses it asked for.
fn drive(io: &mut BufferIo, mut e: Engine) -> (Result<Reply, Error>, Vec<Access>, Vec<u32>) {
    let mut log = Vec::new();
    loop {
        let a = e.next_access();
        log.push(a);
        match a {
            Access::Finished => break,
            Access::ReadWord { addr } => e.accept_word(io.read_u32(addr).unwrap()),
            Access::WriteWord { addr, value } => {
                io.write_u32(addr, value).unwrap();
                e.accept_write();
            }
            Access::ReadWords { addr, count } => {
                let mut buf = vec![0u32; count];
                io.read_bulk(addr, &mut buf).unwrap();
                e.accept_words(buf);
            }
            Access::WriteWords { addr, .. } => {
                let words = e.words().to_vec();
                io.write_bulk(addr, &words).unwrap();
                e.accept_bulk_write();
            }
        }
    }
    (e.result(), log, e.words().to_vec())
}

#[test]
fn create_writes_size_last() {
    let mut io = BufferIo::new(BASE, 16);
    let (r, log, _) = drive(&mut io, Engine::create(ChannelActor::Producer, BASE, 64));
    assert_eq!(r, Ok(Reply::Done));
    assert_eq!(
        log,
        vec![
            Access::WriteWord { addr: BASE, value: 0 },
            Access::WriteWord { addr: BASE + 4, value: 0 },
            Access::WriteWord { addr: BASE + 8, value: 0 },
            Access::WriteWord { addr: BASE + 12, value: 0 },
            Access::WriteWord { addr: BASE + 16, value: 0 },
            Access::WriteWord { addr: BASE, value: 64 },
            Access::Finished,
        ]
    );
}

#[test]
fn publish_announces_last() {
    let mut io = BufferIo::new(BASE, 16);
    drive(&mut io, Engine::create(ChannelActor::Producer, BASE, 64));
    let (r, log, _) = drive(&mut io, Engine::publish_bytes(ChannelActor::Producer, BASE, &[1, 2, 3, 4, 5]));
    assert_eq!(r, Ok(Reply::Done));
    assert_eq!(
        log,
        vec![
            Access::ReadWord { addr: BASE },
            Access::ReadWord { addr: BASE + 4 },
            Access::ReadWord { addr: BASE + 8 },
            Access::WriteWord { addr: BASE + 20, value: 0x0403_0201 },
            Access::WriteWord { addr: BASE + 24, value: 5 },
            Access::WriteWord { addr: BASE + 16, value: 5 },
            Access::WriteWord { addr: BASE + 12, value: 0 },
            Access::ReadWord { addr: BASE + 4 },
            Access::WriteWord { addr: BASE + 4, value: 1 },
            Access::Finished,
        ]
    );
}

#[test]
fn word_publish_uses_one_bulk_write() {
    let mut io = BufferIo::new(BASE, 16);
    drive(&mut io, Engine::create(ChannelActor::Producer, BASE, 64));
    let (r, log, _) = drive(&mut io, Engine::publish_words(ChannelActor::Producer, BASE, &[7, 8]));
    assert_eq!(r, Ok(Reply::Done));
    assert_eq!(log[3], Access::WriteWords { addr: BASE + 20, count: 2 });
    assert_eq!(log[4], Access::WriteWord { addr: BASE + 16, value: 8 });
    assert_eq!(io.read_u32(BASE + 24), Ok(8));
}

#[test]
fn consume_reads_then_releases() {
    let mut io = BufferIo::new(BASE, 16);
    drive(&mut io, Engine::create(ChannelActor::Producer, BASE, 64));
    drive(&mut io, Engine::publish_bytes(ChannelActor::Producer, BASE, &[1, 2, 3, 4, 5]));
    let (r, log, words) = drive(&mut io, Engine::consume_words(ChannelActor::Consumer, BASE, 8));
    assert_eq!(r, Ok(Reply::Consumed(5)));
    assert_eq!(words, vec![0x0403_0201, 5]);
    assert_eq!(
        log,
        vec![
            Access::ReadWord { addr: BASE + 4 },
            Access::ReadWord { addr: BASE + 8 },
            Access::ReadWord { addr: BASE + 16 },
            Access::ReadWord { addr: BASE },
            Access::ReadWords { addr: BASE + 20, count: 2 },
            Access::ReadWord { addr: BASE + 4 },
            Access::WriteWord { addr: BASE + 8, value: 1 },
            Access::Finished,
        ]
    );
}

#[test]
fn early_errors_touch_nothing() {
    let e = Engine::create(ChannelActor::Producer, BASE + 1, 64);
    assert_eq!(e.next_access(), Access::Finished);
    assert_eq!(e.result(), Err(Error::NotAligned));
    let e = Engine::create(ChannelActor::Producer, BASE, 23);
    assert_eq!(e.result(), Err(Error::BufferTooSmall));
    let e = Engine::publish_bytes(ChannelActor::Consumer, BASE, &[1]);
    assert_eq!(e.next_access(), Access::Finished);
    assert_eq!(e.result(), Err(Error::InvalidOperation));
    let e = Engine::consume_bytes(ChannelActor::Producer, BASE, 4);
    assert_eq!(e.result(), Err(Error::InvalidOperation));
    let e = Engine::attach(ChannelActor::Producer, BASE + 2);
    assert_eq!(e.result(), Err(Error::NotAligned));
}

#[test]
fn probes_only_read() {
    let mut io = BufferIo::new(BASE, 16);
    drive(&mut io, Engine::create(ChannelActor::Producer, BASE, 64));
    let (r, log, _) = drive(&mut io, Engine::idle(ChannelActor::Producer, BASE));
    assert_eq!(r, Ok(Reply::Idle(true)));
    assert_eq!(log.len(), 3);
    let (r, _, _) = drive(&mut io, Engine::available(ChannelActor::Consumer, BASE));
    assert_eq!(r, Ok(Reply::Available(None)));
    let (r, _, _) = drive(&mut io, Engine::capacity(ChannelActor::Consumer, BASE));
    assert_eq!(r, Ok(Reply::Capacity(44)));
    let (r, _, _) = drive(&mut io, Engine::attach(ChannelActor::Consumer, BASE));
    assert_eq!(r, Ok(Reply::Capacity(44)));
}

#[test]
fn capacity_of_uninitialized_channel_fails() {
    let mut io = BufferIo::new(BASE, 16);
    let (r, _, _) = drive(&mut io, Engine::capacity(ChannelActor::Consumer, BASE));
    assert_eq!(r, Err(Error::Uninit));
    io.write_u32(BASE, 20).unwrap();
    let (r, _, _) = drive(&mut io, Engine::capacity(ChannelActor::Consumer, BASE));
    assert_eq!(r, Err(Error::BufferTooSmall));
}
