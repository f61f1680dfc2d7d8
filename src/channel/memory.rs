//! A medium held in memory: a window of words from a base address onwards.
//! Both ends of a channel can use it in turn within one process, as a host
//! does with an in-memory image of a target's RAM.
use vstd::prelude::*;

use crate::channel::medium::{load_words, store_words, word_addr};
use crate::channel::engine::Access;
use crate::channel::sync::ChannelIo;
use crate::{Error, Result};

verus! {

/// A window of `words.len()` words at `base`, `base + 4`, ...
pub struct BufferIo {
    base: u32,
    words: Vec<u32>,
    accesses: Ghost<Seq<Access>>,
}

impl BufferIo {
    /// Whether `addr` is the address of a word of the window.
    pub closed spec fn holds(&self, addr: u32) -> bool {
        &&& addr >= self.base
        &&& (addr - self.base) % 4 == 0
        &&& (addr - self.base) / 4 < self.words@.len()
    }

    closed spec fn slot(&self, addr: u32) -> int {
        (addr - self.base) / 4
    }

    /// A window of `count` zero words at `base` onwards.
    pub fn new(base: u32, count: usize) -> (r: BufferIo)
        ensures
            r.log() == Seq::<Access>::empty(),
            forall|a: u32| #[trigger] r.medium().contains_key(a) <==> r.holds(a),
            forall|a: u32| r.holds(a) ==> #[trigger] r.medium()[a] == 0,
            forall|i: int| 0 <= i < count && base + 4 * i < 0x1_0000_0000 ==> #[trigger] r.holds(
                (base + 4 * i) as u32,
            ),
    {
        let words: Vec<u32> = vec![0u32; count];
        BufferIo { base, words, accesses: Ghost(Seq::empty()) }
    }

    /// The index of the word at `addr`, if the window holds it.
    fn index_of(&self, addr: u32) -> (r: Option<usize>)
        ensures
            r is Some == self.holds(addr),
            r is Some ==> r->Some_0 == self.slot(addr) && r->Some_0 < self.words@.len(),
    {
        if addr >= self.base && (addr - self.base) % 4 == 0 && (((addr - self.base) / 4) as usize)
            < self.words.len() {
            Some(((addr - self.base) / 4) as usize)
        } else {
            None
        }
    }
}

impl BufferIo {
    /// Writes the word at `addr` if the window holds it, without logging.
    fn store(&mut self, addr: u32, value: u32) -> (r: bool)
        ensures
            final(self).log() == old(self).log(),
            r == old(self).medium().contains_key(addr),
            r ==> final(self).medium() == old(self).medium().insert(addr, value),
            !r ==> final(self).medium() == old(self).medium(),
    {
        match self.index_of(addr) {
            Some(i) => {
                let ghost before = self.medium();
                self.words.set(i, value);
                proof {
                    assert forall|a: u32| #[trigger] self.holds(a) && a != addr implies self.slot(a)
                        != i by {}
                    assert(self.medium() =~= before.insert(addr, value));
                }
                true
            },
            None => false,
        }
    }
}

impl ChannelIo for BufferIo {
    closed spec fn medium(&self) -> Map<u32, u32> {
        Map::new(|a: u32| self.holds(a), |a: u32| self.words@[self.slot(a)])
    }

    closed spec fn log(&self) -> Seq<Access> {
        self.accesses@
    }

    fn read_u32(&mut self, addr: u32) -> (r: Result<u32>) {
        proof {
            self.accesses@ = self.accesses@.push(Access::ReadWord { addr });
        }
        match self.index_of(addr) {
            Some(i) => Ok(self.words[i]),
            None => Err(Error::Io),
        }
    }

    fn write_u32(&mut self, addr: u32, value: u32) -> (r: Result<()>) {
        proof {
            self.accesses@ = self.accesses@.push(Access::WriteWord { addr, value });
        }
        if self.store(addr, value) {
            Ok(())
        } else {
            Err(Error::Io)
        }
    }

    fn read_bulk(&mut self, addr: u32, buf: &mut [u32]) -> (r: Result<()>) {
        let n = buf.len();
        proof {
            self.accesses@ = self.accesses@.push(Access::ReadWords { addr, count: n });
        }
        let ghost log = self.log();
        let ghost mem = self.medium();
        let mut i: usize = 0;
        let mut a: u32 = addr;
        while i < n
            invariant
                a == word_addr(addr, i as int),
                n == buf@.len(),
                n == old(buf)@.len(),
                i <= n,
                self.medium() == mem,
                self.log() == log,
                log == old(self).log().push(Access::ReadWords { addr, count: n }),
                mem == old(self).medium(),
                forall|k: int| 0 <= k < i ==> #[trigger] mem.contains_key(word_addr(addr, k)),
                forall|k: int| 0 <= k < i ==> buf@[k] == mem[word_addr(addr, k)],
            decreases n - i,
        {
            match self.index_of(a) {
                Some(j) => {
                    buf[i] = self.words[j];
                },
                None => {
                    return Err(Error::Io);
                },
            }
            proof {
                crate::channel::medium::lemma_addr_add(addr, 4 * i, 4);
            }
            a = crate::channel::medium::offset(a, 4);
            i = i + 1;
        }
        assert(buf@ =~= load_words(mem, addr, n as nat));
        Ok(())
    }

    fn write_bulk(&mut self, addr: u32, data: &[u32]) -> (r: Result<()>) {
        let n = data.len();
        proof {
            self.accesses@ = self.accesses@.push(Access::WriteWords { addr, count: n });
        }
        let ghost log = self.log();
        let ghost mem = self.medium();
        let mut i: usize = 0;
        let mut a: u32 = addr;
        while i < n
            invariant
                a == word_addr(addr, i as int),
                n == data@.len(),
                i <= n,
                mem == old(self).medium(),
                self.medium() == store_words(mem, addr, data@.take(i as int)),
                self.log() == log,
                log == old(self).log().push(Access::WriteWords { addr, count: n }),
                forall|k: int| 0 <= k < i ==> #[trigger] mem.contains_key(word_addr(addr, k)),
            decreases n - i,
        {
            proof {
                crate::channel::medium::lemma_store_step(mem, addr, data@, i as int);
            }
            if !self.store(a, data[i]) {
                proof {
                    assert forall|b: u32|
                        (forall|k: int| 0 <= k < data@.len() ==> word_addr(addr, k) != b) implies (
                        #[trigger] self.medium().contains_key(b) == mem.contains_key(b)
                            && self.medium()[b] == mem[b]) by {
                        crate::channel::medium::lemma_store_other(
                            mem,
                            addr,
                            data@.take(i as int),
                            b,
                        );
                    }
                }
                return Err(Error::Io);
            }
            proof {
                if !mem.contains_key(a) {
                    crate::channel::medium::lemma_store_other(mem, addr, data@.take(i as int), a);
                }
            }
            proof {
                crate::channel::medium::lemma_addr_add(addr, 4 * i, 4);
            }
            a = crate::channel::medium::offset(a, 4);
            i = i + 1;
        }
        assert(data@.take(n as int) =~= data@);
        Ok(())
    }
}

} // verus!
