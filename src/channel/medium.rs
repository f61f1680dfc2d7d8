//! The mathematical model of a medium: a map from 32-bit addresses to the
//! words stored there. Addresses are computed modulo 2^32, as in the
//! medium's flat 32-bit address space.
use vstd::prelude::*;

verus! {

/// Number of distinct addresses.
pub open spec fn address_space() -> int {
    0x1_0000_0000
}

/// The address `off` bytes after `base`.
pub open spec fn addr_at(base: u32, off: int) -> u32 {
    ((base as int + off) % address_space()) as u32
}

/// The address of word `i` of an array of words that starts at `start`.
pub open spec fn word_addr(start: u32, i: int) -> u32 {
    addr_at(start, 4 * i)
}

/// The `n` words stored at `start` onwards.
pub open spec fn load_words(mem: Map<u32, u32>, start: u32, n: nat) -> Seq<u32> {
    Seq::new(n, |i: int| mem[word_addr(start, i)])
}

/// The medium after writing `ws` at `start` onwards, one word after the other.
pub open spec fn store_words(mem: Map<u32, u32>, start: u32, ws: Seq<u32>) -> Map<u32, u32>
    decreases ws.len(),
{
    if ws.len() == 0 {
        mem
    } else {
        store_words(mem, start, ws.drop_last()).insert(word_addr(start, ws.len() - 1), ws.last())
    }
}

/// Whether the medium holds each of the `n` words at `start` onwards.
pub open spec fn covers(mem: Map<u32, u32>, start: u32, n: nat) -> bool {
    forall|i: int| 0 <= i < n ==> #[trigger] mem.contains_key(word_addr(start, i))
}

/// The address `off` bytes after `base`, wrapping at the end of the address
/// space.
pub fn offset(base: u32, off: u32) -> (r: u32)
    ensures
        r == addr_at(base, off as int),
{
    base.wrapping_add(off)
}

/// Two offsets that differ and both lie within the address space name
/// different addresses.
pub proof fn lemma_addr_distinct(base: u32, a: int, b: int)
    requires
        0 <= a < address_space(),
        0 <= b < address_space(),
        a != b,
    ensures
        addr_at(base, a) != addr_at(base, b),
{
}

/// Offsets add up.
pub proof fn lemma_addr_add(base: u32, a: int, b: int)
    requires
        0 <= a,
        0 <= b,
    ensures
        addr_at(addr_at(base, a), b) == addr_at(base, a + b),
{
    let m = address_space();
    let x = base as int + a;
    assert((x % m + b) % m == (x + b) % m) by {
        vstd::arithmetic::div_mod::lemma_add_mod_noop(x, b, m);
        vstd::arithmetic::div_mod::lemma_mod_twice(b, m);
        vstd::arithmetic::div_mod::lemma_add_mod_noop(x % m, b, m);
        vstd::arithmetic::div_mod::lemma_mod_twice(x, m);
    }
}

/// Writing words changes no address but theirs.
pub proof fn lemma_store_other(mem: Map<u32, u32>, start: u32, ws: Seq<u32>, a: u32)
    requires
        forall|i: int| 0 <= i < ws.len() ==> word_addr(start, i) != a,
    ensures
        store_words(mem, start, ws).contains_key(a) == mem.contains_key(a),
        store_words(mem, start, ws)[a] == mem[a],
    decreases ws.len(),
{
    if ws.len() > 0 {
        lemma_store_other(mem, start, ws.drop_last(), a);
        assert(word_addr(start, ws.len() - 1) != a);
    }
}

/// Writing one more word extends the words written so far.
pub proof fn lemma_store_step(mem: Map<u32, u32>, start: u32, ws: Seq<u32>, i: int)
    requires
        0 <= i < ws.len(),
    ensures
        store_words(mem, start, ws.take(i + 1)) == store_words(mem, start, ws.take(i)).insert(
            word_addr(start, i),
            ws[i],
        ),
{
    assert(ws.take(i + 1).drop_last() =~= ws.take(i));
}

/// Words written where no two share an address read back as written.
pub proof fn lemma_load_store(mem: Map<u32, u32>, start: u32, ws: Seq<u32>)
    requires
        4 * ws.len() <= address_space(),
    ensures
        load_words(store_words(mem, start, ws), start, ws.len()) == ws,
        covers(store_words(mem, start, ws), start, ws.len()),
    decreases ws.len(),
{
    if ws.len() > 0 {
        let n = ws.len() - 1;
        let prev = ws.drop_last();
        lemma_load_store(mem, start, prev);
        let m = store_words(mem, start, ws);
        assert forall|i: int| 0 <= i < ws.len() implies #[trigger] m.contains_key(word_addr(start, i))
            && m[word_addr(start, i)] == ws[i] by {
            if i < n {
                lemma_addr_distinct(start, 4 * i, 4 * n);
                assert(store_words(mem, start, prev).contains_key(word_addr(start, i)));
                assert(load_words(store_words(mem, start, prev), start, prev.len())[i] == prev[i]);
            }
        }
        assert forall|i: int| 0 <= i < ws.len() implies load_words(m, start, ws.len())[i] == ws[i] by {
            assert(m.contains_key(word_addr(start, i)));
        }
        assert(load_words(m, start, ws.len()) =~= ws);
    }
}

} // verus!
