//! Byte order: how fixed-width integers are laid out in wire bytes, and
//! verified readers for the two standard orders.

use vstd::prelude::*;

verus! {

/// The unsigned value of `bytes` read most-significant byte first.
pub open spec fn be_value(bytes: Seq<u8>) -> nat
    decreases bytes.len(),
{
    if bytes.len() == 0 {
        0
    } else {
        be_value(bytes.drop_last()) * 256nat + bytes.last() as nat
    }
}

/// The unsigned value of `bytes` read least-significant byte first.
pub open spec fn le_value(bytes: Seq<u8>) -> nat
    decreases bytes.len(),
{
    if bytes.len() == 0 {
        0
    } else {
        le_value(bytes.drop_first()) * 256nat + bytes.first() as nat
    }
}

/// 256 raised to `n`: the number of values `n` bytes can hold.
pub open spec fn pow256(n: nat) -> nat
    decreases n,
{
    if n == 0 {
        1
    } else {
        256 * pow256((n - 1) as nat)
    }
}

/// The concrete values of `pow256` up to eight bytes.
proof fn lemma_pow256_values()
    ensures
        pow256(0) == 1,
        pow256(1) == 0x1_00,
        pow256(2) == 0x1_00_00,
        pow256(3) == 0x1_00_00_00,
        pow256(4) == 0x1_00_00_00_00,
        pow256(5) == 0x1_00_00_00_00_00,
        pow256(6) == 0x1_00_00_00_00_00_00,
        pow256(7) == 0x1_00_00_00_00_00_00_00,
        pow256(8) == 0x1_00_00_00_00_00_00_00_00,
{
    assert(pow256(0) == 1);
    assert(pow256(1) == 256 * pow256(0));
    assert(pow256(2) == 256 * pow256(1));
    assert(pow256(3) == 256 * pow256(2));
    assert(pow256(4) == 256 * pow256(3));
    assert(pow256(5) == 256 * pow256(4));
    assert(pow256(6) == 256 * pow256(5));
    assert(pow256(7) == 256 * pow256(6));
    assert(pow256(8) == 256 * pow256(7));
}

/// `pow256` never decreases.
proof fn lemma_pow256_increases(a: nat, b: nat)
    requires
        a <= b,
    ensures
        pow256(a) <= pow256(b),
    decreases b,
{
    if a < b {
        lemma_pow256_increases(a, (b - 1) as nat);
        assert(pow256(b) == 256 * pow256((b - 1) as nat));
        lemma_pow256_positive((b - 1) as nat);
    }
}

/// `pow256` is positive.
proof fn lemma_pow256_positive(n: nat)
    ensures
        pow256(n) >= 1,
    decreases n,
{
    if n > 0 {
        lemma_pow256_positive((n - 1) as nat);
    }
}

/// The value of `bytes` is below 256 to their number.
proof fn lemma_be_bound(bytes: Seq<u8>)
    ensures
        be_value(bytes) < pow256(bytes.len()),
    decreases bytes.len(),
{
    if bytes.len() == 0 {
    } else {
        lemma_be_bound(bytes.drop_last());
        assert(be_value(bytes.drop_last()) * 256 + bytes.last() < pow256(bytes.len()))
            by (nonlinear_arith)
            requires
                be_value(bytes.drop_last()) < pow256(bytes.drop_last().len()),
                bytes.last() < 256,
                pow256(bytes.len()) == 256 * pow256(bytes.drop_last().len()),
                bytes.drop_last().len() == bytes.len() - 1,
        {
        }
        assert(pow256(bytes.len()) == 256 * pow256((bytes.len() - 1) as nat));
    }
}

/// The value of `bytes` is below 256 to their number.
proof fn lemma_le_bound(bytes: Seq<u8>)
    ensures
        le_value(bytes) < pow256(bytes.len()),
    decreases bytes.len(),
{
    if bytes.len() == 0 {
    } else {
        lemma_le_bound(bytes.drop_first());
        assert(le_value(bytes.drop_first()) * 256 + bytes.first() < pow256(bytes.len()))
            by (nonlinear_arith)
            requires
                le_value(bytes.drop_first()) < pow256(bytes.drop_first().len()),
                bytes.first() < 256,
                pow256(bytes.len()) == 256 * pow256(bytes.drop_first().len()),
                bytes.drop_first().len() == bytes.len() - 1,
        {
        }
        assert(pow256(bytes.len()) == 256 * pow256((bytes.len() - 1) as nat));
    }
}

/// `be_value` grows by one trailing byte at a time.
proof fn lemma_be_step(bytes: Seq<u8>, k: int)
    requires
        0 <= k < bytes.len(),
    ensures
        be_value(bytes.take(k + 1)) == be_value(bytes.take(k)) * 256 + bytes[k],
{
    assert(bytes.take(k + 1).drop_last() =~= bytes.take(k));
    assert(bytes.take(k + 1).last() == bytes[k]);
}

/// `le_value` grows by one leading byte at a time.
proof fn lemma_le_step(bytes: Seq<u8>, k: int)
    requires
        0 <= k < bytes.len(),
    ensures
        le_value(bytes.skip(k)) == le_value(bytes.skip(k + 1)) * 256 + bytes[k],
{
    assert(bytes.skip(k).drop_first() =~= bytes.skip(k + 1));
    assert(bytes.skip(k).first() == bytes[k]);
}

/// A byte order: how a fixed-width integer is laid out on the wire.
pub trait ByteOrder {
    /// The unsigned value of `bytes` under this byte order.
    spec fn combined(bytes: Seq<u8>) -> nat;

    /// Read a 16-bit unsigned integer from exactly two bytes.
    fn read_u16(buffer: &[u8]) -> (r: u16)
        requires
            buffer@.len() == 2,
        ensures
            r as nat == Self::combined(buffer@),
    ;

    /// Read a 32-bit unsigned integer from exactly four bytes.
    fn read_u32(buffer: &[u8]) -> (r: u32)
        requires
            buffer@.len() == 4,
        ensures
            r as nat == Self::combined(buffer@),
    ;

    /// Read a 64-bit unsigned integer from exactly eight bytes.
    fn read_u64(buffer: &[u8]) -> (r: u64)
        requires
            buffer@.len() == 8,
        ensures
            r as nat == Self::combined(buffer@),
    ;
}

/// Most-significant byte first.
pub struct BigEndian;

/// Least-significant byte first.
pub struct LittleEndian;

/// Read up to eight bytes most-significant first into an accumulator.
fn read_be(buffer: &[u8]) -> (r: u64)
    requires
        buffer@.len() <= 8,
    ensures
        r as nat == be_value(buffer@),
{
    let n = buffer.len();
    let mut r: u64 = 0;
    let mut i: usize = 0;
    proof {
        assert(buffer@.take(0) =~= Seq::<u8>::empty());
    }
    while i < n
        invariant
            i <= n,
            n == buffer@.len() <= 8,
            r as nat == be_value(buffer@.take(i as int)),
        decreases n - i,
    {
        proof {
            lemma_be_step(buffer@, i as int);
            lemma_be_bound(buffer@.take(i as int));
            lemma_pow256_increases(i as nat, 7);
            lemma_pow256_values();
        }
        r = r * 256 + (buffer[i] as u64);
        i += 1;
    }
    proof {
        assert(buffer@.take(n as int) =~= buffer@);
    }
    r
}

/// Read up to eight bytes least-significant first into an accumulator.
fn read_le(buffer: &[u8]) -> (r: u64)
    requires
        buffer@.len() <= 8,
    ensures
        r as nat == le_value(buffer@),
{
    let n = buffer.len();
    let mut r: u64 = 0;
    let mut i: usize = n;
    proof {
        assert(buffer@.skip(n as int) =~= Seq::<u8>::empty());
    }
    while i > 0
        invariant
            i <= n,
            n == buffer@.len() <= 8,
            r as nat == le_value(buffer@.skip(i as int)),
        decreases i,
    {
        i -= 1;
        proof {
            lemma_le_step(buffer@, i as int);
            lemma_le_bound(buffer@.skip(i as int + 1));
            lemma_pow256_increases((n - i - 1) as nat, 7);
            lemma_pow256_values();
        }
        r = r * 256 + (buffer[i] as u64);
    }
    proof {
        assert(buffer@.skip(0) =~= buffer@);
    }
    r
}

impl ByteOrder for BigEndian {
    open spec fn combined(bytes: Seq<u8>) -> nat {
        be_value(bytes)
    }

    fn read_u16(buffer: &[u8]) -> (r: u16) {
        let r = read_be(buffer);
        proof {
            lemma_be_bound(buffer@);
            lemma_pow256_values();
        }
        r as u16
    }

    fn read_u32(buffer: &[u8]) -> (r: u32) {
        let r = read_be(buffer);
        proof {
            lemma_be_bound(buffer@);
            lemma_pow256_values();
        }
        r as u32
    }

    fn read_u64(buffer: &[u8]) -> (r: u64) {
        read_be(buffer)
    }
}

impl ByteOrder for LittleEndian {
    open spec fn combined(bytes: Seq<u8>) -> nat {
        le_value(bytes)
    }

    fn read_u16(buffer: &[u8]) -> (r: u16) {
        let r = read_le(buffer);
        proof {
            lemma_le_bound(buffer@);
            lemma_pow256_values();
        }
        r as u16
    }

    fn read_u32(buffer: &[u8]) -> (r: u32) {
        let r = read_le(buffer);
        proof {
            lemma_le_bound(buffer@);
            lemma_pow256_values();
        }
        r as u32
    }

    fn read_u64(buffer: &[u8]) -> (r: u64) {
        read_le(buffer)
    }
}

} // verus!
