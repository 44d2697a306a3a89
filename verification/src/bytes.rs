//! Big-endian integers in byte strings.

use vstd::prelude::*;

verus! {

/// The value of a byte string read as a big-endian number.
pub open spec fn be_value(s: Seq<u8>) -> nat
    decreases s.len(),
{
    if s.len() == 0 {
        0
    } else {
        be_value(s.drop_last()) * 256 + s.last() as nat
    }
}

/// The low `len` bytes of `n`, most significant first.
pub open spec fn be_bytes(n: nat, len: nat) -> Seq<u8>
    decreases len,
{
    if len == 0 {
        Seq::empty()
    } else {
        be_bytes(n / 256, (len - 1) as nat).push((n % 256) as u8)
    }
}

/// 256 to the power `len`.
pub open spec fn byte_range(len: nat) -> nat
    decreases len,
{
    if len == 0 {
        1
    } else {
        256 * byte_range((len - 1) as nat)
    }
}

pub proof fn lemma_be_bytes_len(n: nat, len: nat)
    ensures
        be_bytes(n, len).len() == len,
    decreases len,
{
    if len > 0 {
        lemma_be_bytes_len(n / 256, (len - 1) as nat);
    }
}

/// Writing a number in enough bytes and reading it back gives the number.
pub proof fn lemma_be_round_trip(n: nat, len: nat)
    requires
        n < byte_range(len),
    ensures
        be_value(be_bytes(n, len)) == n,
        be_bytes(n, len).len() == len,
    decreases len,
{
    if len > 0 {
        assert(n / 256 < byte_range((len - 1) as nat)) by (nonlinear_arith)
            requires
                n < 256 * byte_range((len - 1) as nat),
        ;
        lemma_be_round_trip(n / 256, (len - 1) as nat);
        assert(be_bytes(n, len).drop_last() =~= be_bytes(n / 256, (len - 1) as nat));
    }
}

/// Reading a byte string as a number and writing it back gives the byte string.
pub proof fn lemma_be_value_round_trip(s: Seq<u8>)
    ensures
        be_bytes(be_value(s), s.len()) == s,
        be_value(s) < byte_range(s.len()),
    decreases s.len(),
{
    if s.len() > 0 {
        lemma_be_value_round_trip(s.drop_last());
        let hi = be_value(s.drop_last());
        assert((hi * 256 + s.last() as nat) / 256 == hi);
        assert((hi * 256 + s.last() as nat) % 256 == s.last() as nat);
        assert(be_bytes(be_value(s), s.len()) =~= s);
    }
}

pub proof fn lemma_byte_ranges()
    ensures
        byte_range(1) == 0x100,
        byte_range(2) == 0x1_0000,
        byte_range(4) == 0x1_0000_0000,
        byte_range(8) == 0x1_0000_0000_0000_0000,
        byte_range(16) == 0x1_0000_0000_0000_0000_0000_0000_0000_0000,
{
    reveal_with_fuel(byte_range, 17);
}

/// Appends the low `len` bytes of `n`, most significant first.
pub(crate) fn push_be(buffer: &mut Vec<u8>, n: u128, len: usize)
    ensures
        final(buffer)@ == old(buffer)@ + be_bytes(n as nat, len as nat),
    decreases len,
{
    if len > 0 {
        push_be(buffer, n / 256, len - 1);
        buffer.push((n % 256) as u8);
    }
    assert(buffer@ =~= old(buffer)@ + be_bytes(n as nat, len as nat));
}

/// Reads `len` bytes at `offset` as a big-endian number.
pub(crate) fn read_be(bytes: &[u8], offset: usize, len: usize) -> (n: u128)
    requires
        offset + len <= bytes@.len(),
        len <= 16,
    ensures
        n == be_value(bytes@.subrange(offset as int, offset + len)),
        n < byte_range(len as nat),
{
    let mut n: u128 = 0;
    let mut i: usize = 0;
    let total: usize = bytes.len();
    proof {
        assert(bytes@.subrange(offset as int, offset as int).len() == 0);
    }
    while i < len
        invariant
            i <= len <= 16,
            offset + len <= total,
            total == bytes@.len(),
            n == be_value(bytes@.subrange(offset as int, offset + i)),
            n < byte_range(i as nat),
        decreases len - i,
    {
        let ghost next = bytes@.subrange(offset as int, offset + i + 1);
        proof {
            assert(next.drop_last() =~= bytes@.subrange(offset as int, offset + i));
            assert(next.last() == bytes@[offset + i]);
            lemma_byte_range_bound(i as nat);
            assert(byte_range((i + 1) as nat) == 256 * byte_range(i as nat));
        }
        n = n * 256 + bytes[offset + i] as u128;
        i = i + 1;
    }
    n
}

proof fn lemma_byte_range_bound(i: nat)
    requires
        i < 16,
    ensures
        256 * byte_range(i) <= 0x1_0000_0000_0000_0000_0000_0000_0000_0000,
{
    reveal_with_fuel(byte_range, 17);
}

/// Appends a slice.
pub(crate) fn push_all(buffer: &mut Vec<u8>, more: &[u8])
    ensures
        final(buffer)@ == old(buffer)@ + more@,
{
    let ghost start = buffer@;
    let mut i: usize = 0;
    while i < more.len()
        invariant
            i <= more@.len(),
            buffer@ == start + more@.subrange(0, i as int),
        decreases more@.len() - i,
    {
        buffer.push(more[i]);
        i = i + 1;
        assert(buffer@ =~= start + more@.subrange(0, i as int));
    }
    assert(more@.subrange(0, i as int) =~= more@);
}

/// The bytes from `from` up to `to`.
pub(crate) fn slice_of(bytes: &[u8], from: usize, to: usize) -> (v: Vec<u8>)
    requires
        from <= to <= bytes@.len(),
    ensures
        v@ == bytes@.subrange(from as int, to as int),
{
    let mut v: Vec<u8> = Vec::new();
    let mut i: usize = from;
    while i < to
        invariant
            from <= i <= to <= bytes@.len(),
            v@ == bytes@.subrange(from as int, i as int),
        decreases to - i,
    {
        v.push(bytes[i]);
        i = i + 1;
        assert(v@ =~= bytes@.subrange(from as int, i as int));
    }
    v
}

} // verus!
