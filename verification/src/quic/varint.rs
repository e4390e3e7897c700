//! Integers of variable length.

use vstd::prelude::*;

verus! {

/// Number of bytes of the integer whose first byte is `first`: the two
/// highest bits say one, two, four or eight.
pub open spec fn varint_len(first: u8) -> nat {
    if first < 0x40 {
        1
    } else if first < 0x80 {
        2
    } else if first < 0xc0 {
        4
    } else {
        8
    }
}

/// The number that the bytes `s` spell, most significant byte first.
pub open spec fn be_value(s: Seq<u8>) -> nat
    decreases s.len(),
{
    if s.len() == 0 {
        0
    } else {
        be_value(s.drop_last()) * 256 + s.last() as nat
    }
}

/// The integer that `data` begins with, and its length: the bytes of the
/// integer spell its value, once the two bits of length are taken off the
/// first. `None` where `data` ends before the integer does.
pub open spec fn varint_at(data: Seq<u8>) -> Option<(nat, nat)> {
    if data.len() == 0 {
        None
    } else {
        let len = varint_len(data[0]);
        if data.len() < len {
            None
        } else {
            Some((be_value(data.take(len as int).update(0, (data[0] % 64) as u8)), len))
        }
    }
}

proof fn lemma_be_value_bound(s: Seq<u8>)
    requires
        s.len() <= 8,
        s.len() > 0 ==> s[0] < 64,
    ensures
        s.len() == 0 ==> be_value(s) == 0,
        s.len() == 1 ==> be_value(s) < 0x40,
        s.len() == 2 ==> be_value(s) < 0x4000,
        s.len() == 3 ==> be_value(s) < 0x40_0000,
        s.len() == 4 ==> be_value(s) < 0x4000_0000,
        s.len() == 5 ==> be_value(s) < 0x40_0000_0000,
        s.len() == 6 ==> be_value(s) < 0x4000_0000_0000,
        s.len() == 7 ==> be_value(s) < 0x40_0000_0000_0000,
        s.len() == 8 ==> be_value(s) < 0x4000_0000_0000_0000,
    decreases s.len(),
{
    if s.len() > 0 {
        if s.len() > 1 {
            assert(s.drop_last()[0] == s[0]);
        }
        lemma_be_value_bound(s.drop_last());
    }
}

/// An integer of variable length is below 2^62.
pub proof fn lemma_varint_bound(data: Seq<u8>)
    requires
        varint_at(data) is Some,
    ensures
        varint_at(data)->Some_0.0 < 0x4000_0000_0000_0000,
        varint_at(data)->Some_0.1 == varint_len(data[0]),
        1 <= varint_at(data)->Some_0.1 <= 8,
        varint_at(data)->Some_0.1 <= data.len(),
{
    let len = varint_len(data[0]) as int;
    let s = data.take(len).update(0, (data[0] % 64) as u8);
    lemma_be_value_bound(s);
}

/// The integer that stands at `offset` in `data`, and its length; `None`
/// where `data` ends before the integer does.
pub open spec fn varint_in(data: Seq<u8>, offset: nat) -> Option<(nat, nat)> {
    if offset > data.len() {
        None
    } else {
        varint_at(data.skip(offset as int))
    }
}

/// Reads the integer that starts at `offset` in `data`. Returns its value
/// and the offset behind it.
pub fn read_varint(data: &[u8], offset: usize) -> (r: Option<(u64, usize)>)
    ensures
        match varint_in(data@, offset as nat) {
            Some((value, len)) => r == Some((value as u64, (offset + len) as usize)) && value
                < 0x4000_0000_0000_0000 && offset + len <= data@.len(),
            None => r is None,
        },
{
    if offset >= data.len() {
        return None;
    }
    let ghost rest = data@.skip(offset as int);
    let first = data[offset];
    let len: usize = if first < 0x40 {
        1
    } else if first < 0x80 {
        2
    } else if first < 0xc0 {
        4
    } else {
        8
    };
    if data.len() - offset < len {
        return None;
    }
    let ghost s = rest.take(len as int).update(0, (first % 64) as u8);
    proof {
        lemma_varint_bound(rest);
    }
    let mut value: u64 = (first % 64) as u64;
    let mut i: usize = 1;
    proof {
        assert(s.take(1) == seq![(first % 64) as u8]);
        assert(s.take(1).drop_last() == Seq::<u8>::empty());
        reveal_with_fuel(be_value, 2);
    }
    let n = data.len();
    while i < len
        invariant
            1 <= i <= len <= 8,
            n == data@.len(),
            offset + len <= data@.len(),
            rest == data@.skip(offset as int),
            s == rest.take(len as int).update(0, (first % 64) as u8),
            first == data@[offset as int],
            value == be_value(s.take(i as int)),
            s[0] < 64,
        decreases len - i,
    {
        proof {
            let next = s.take(i as int + 1);
            assert(next.drop_last() == s.take(i as int));
            assert(next.last() == data@[offset + i]);
            assert(next[0] == s[0]);
            assert(s.take(i as int)[0] == s[0]);
            lemma_be_value_bound(next);
            lemma_be_value_bound(s.take(i as int));
            assert(value < 0x40_0000_0000_0000);
        }
        value = value * 256 + data[offset + i] as u64;
        i = i + 1;
    }
    assert(s.take(len as int) == s);
    Some((value, offset + len))
}

} // verus!
