//! Variable-length encoding of 32-bit signed integers: seven data bits per
//! byte, least significant group first, the high bit set on every byte but
//! the last. A conforming encoding has between one and five bytes.
use vstd::prelude::*;

verus! {

/// The most bytes a VarInt may occupy.
pub const MAX_VARINT_LEN: usize = 5;

/// Why a VarInt could not be read.
#[derive(Clone, Copy, Debug, PartialEq, Eq, Structural)]
pub enum VarIntDecodeError {
    /// The input ended before the terminating byte; more bytes may complete it.
    Incomplete,
    /// Five bytes all carried the continuation bit: a sixth would be needed.
    TooLarge,
}

/// Groups of seven bits of `v`, least significant first, as wire bytes.
pub open spec fn groups(v: nat) -> Seq<u8>
    decreases v,
{
    if v < 128 {
        seq![v as u8]
    } else {
        seq![(v % 128 + 128) as u8] + groups(v / 128)
    }
}

/// The wire encoding of `n`: its two's-complement bits, seven at a time.
pub open spec fn varint_bytes(n: i32) -> Seq<u8> {
    groups((n as u32) as nat)
}

/// The number that the low seven bits of the bytes of `b` spell,
/// the first byte being the least significant group.
pub open spec fn low7_value(b: Seq<u8>) -> nat
    decreases b.len(),
{
    if b.len() == 0 {
        0
    } else {
        (b[0] % 128) as nat + 128 * low7_value(b.drop_first())
    }
}

/// Where a VarInt that starts at the front of `b` ends, scanning from byte `i`.
pub enum VarIntScan {
    /// The terminating byte is the last of the first `len` bytes.
    Ends { len: nat },
    Incomplete,
    TooLarge,
}

pub open spec fn scan_from(b: Seq<u8>, i: nat) -> VarIntScan
    decreases 5 - i,
{
    if i >= 5 {
        VarIntScan::TooLarge
    } else if i >= b.len() {
        VarIntScan::Incomplete
    } else if b[i as int] < 128 {
        VarIntScan::Ends { len: i + 1 }
    } else {
        scan_from(b, i + 1)
    }
}

/// The value that the first `len` bytes of a VarInt stand for, truncated to
/// 32 bits as the decoder's register holds it.
pub open spec fn value_of(b: Seq<u8>, len: nat) -> i32 {
    ((low7_value(b.take(len as int)) % 0x1_0000_0000) as u32) as i32
}

/// The outcome of reading a VarInt from the front of `b`: the value and the
/// number of bytes it took, or why none could be read.
pub open spec fn decode_spec(b: Seq<u8>) -> Result<(i32, nat), VarIntDecodeError> {
    match scan_from(b, 0) {
        VarIntScan::Ends { len } => Ok((value_of(b, len), len)),
        VarIntScan::Incomplete => Err(VarIntDecodeError::Incomplete),
        VarIntScan::TooLarge => Err(VarIntDecodeError::TooLarge),
    }
}

pub open spec fn pow128(n: nat) -> nat
    decreases n,
{
    if n == 0 {
        1
    } else {
        128 * pow128((n - 1) as nat)
    }
}

proof fn lemma_groups_len(v: nat)
    ensures
        1 <= groups(v).len(),
        v < pow128(groups((v / 128) as nat).len()) * 128 || v < 128,
        v < 0x1_0000_0000 ==> groups(v).len() <= 5,
    decreases v,
{
    reveal_with_fuel(pow128, 6);
    if v >= 128 {
        lemma_groups_len(v / 128);
    }
    if v < 0x1_0000_0000 {
        lemma_groups_len_bound(v);
    }
}

proof fn lemma_groups_len_bound(v: nat)
    requires
        v < 0x1_0000_0000,
    ensures
        groups(v).len() <= 5,
{
    let v1 = v / 128;
    let v2 = v1 / 128;
    let v3 = v2 / 128;
    let v4 = v3 / 128;
    assert(v4 < 128);
    assert(groups(v4).len() == 1);
    if v3 >= 128 {
        assert(groups(v3).len() == 1 + groups(v4).len());
    }
    if v2 >= 128 {
        assert(groups(v2).len() == 1 + groups(v3).len());
    }
    if v1 >= 128 {
        assert(groups(v1).len() == 1 + groups(v2).len());
    }
    if v >= 128 {
        assert(groups(v).len() == 1 + groups(v1).len());
    }
}

/// Every byte of `groups(v)` but the last carries the continuation bit, the
/// last does not, and their low bits spell `v`.
proof fn lemma_groups_shape(v: nat)
    ensures
        forall|i: int| 0 <= i < groups(v).len() - 1 ==> #[trigger] groups(v)[i] >= 128,
        groups(v)[groups(v).len() - 1] < 128,
        low7_value(groups(v)) == v,
    decreases v,
{
    if v < 128 {
        assert(groups(v).drop_first() =~= Seq::<u8>::empty());
        assert(low7_value(Seq::<u8>::empty()) == 0);
    } else {
        let rest = groups(v / 128);
        lemma_groups_shape(v / 128);
        lemma_groups_len(v / 128);
        let g = groups(v);
        assert(g.drop_first() =~= rest);
        assert(g[0] % 128 == v % 128);
        assert(v == 128 * (v / 128) + v % 128);
        assert forall|i: int| 0 <= i < g.len() - 1 implies #[trigger] g[i] >= 128 by {
            if i > 0 {
                assert(g[i] == rest[i - 1]);
            }
        }
    }
}

/// Scanning a sequence whose bytes from `i` up to `k` continue and whose byte
/// `k` terminates ends at `k + 1`.
proof fn lemma_scan_ends(b: Seq<u8>, i: nat, k: nat)
    requires
        i <= k < 5,
        k < b.len(),
        b[k as int] < 128,
        forall|j: int| i <= j < k ==> b[j] >= 128,
    ensures
        scan_from(b, i) == (VarIntScan::Ends { len: k + 1 }),
    decreases k - i,
{
    if i < k {
        lemma_scan_ends(b, i + 1, k);
    }
}

/// A VarInt read from the front of `b + rest` reads as it did from `b` alone,
/// once `b` holds all of it.
pub proof fn lemma_decode_extend(b: Seq<u8>, rest: Seq<u8>)
    requires
        decode_spec(b) is Ok,
    ensures
        decode_spec(b + rest) == decode_spec(b),
{
    lemma_scan_extend(b, rest, 0);
    lemma_scan_bounds(b, 0);
    let len = decode_spec(b)->Ok_0.1;
    assert((b + rest).take(len as int) =~= b.take(len as int));
}

/// Where a scan from `i` ends: past `i`, within the first five bytes and
/// within `b`; every byte it passed carries the continuation bit.
proof fn lemma_scan_bounds(b: Seq<u8>, i: nat)
    requires
        scan_from(b, i) is Ends,
    ensures
        i < scan_from(b, i)->len <= 5,
        scan_from(b, i)->len <= b.len(),
        forall|j: int| i <= j < scan_from(b, i)->len - 1 ==> b[j] >= 128,
        b[scan_from(b, i)->len - 1] < 128,
    decreases 5 - i,
{
    if i < 5 && i < b.len() && b[i as int] >= 128 {
        lemma_scan_bounds(b, i + 1);
    }
}

proof fn lemma_scan_extend(b: Seq<u8>, rest: Seq<u8>, i: nat)
    requires
        scan_from(b, i) is Ends,
    ensures
        scan_from(b + rest, i) == scan_from(b, i),
    decreases 5 - i,
{
    if i < 5 && i < b.len() && b[i as int] >= 128 {
        lemma_scan_extend(b, rest, i + 1);
    }
}

/// A VarInt that reads takes one to five bytes of its input.
pub proof fn lemma_decode_len(b: Seq<u8>)
    requires
        decode_spec(b) is Ok,
    ensures
        1 <= decode_spec(b)->Ok_0.1 <= 5,
        decode_spec(b)->Ok_0.1 <= b.len(),
{
    lemma_scan_bounds(b, 0);
}

/// A proper prefix of a complete VarInt reads as incomplete.
pub proof fn lemma_decode_prefix(b: Seq<u8>, j: nat)
    requires
        decode_spec(b) is Ok,
        j < decode_spec(b)->Ok_0.1,
    ensures
        decode_spec(b.take(j as int)) == Err::<(i32, nat), VarIntDecodeError>(
            VarIntDecodeError::Incomplete,
        ),
{
    lemma_scan_prefix(b, j, 0);
}

proof fn lemma_scan_prefix(b: Seq<u8>, j: nat, i: nat)
    requires
        scan_from(b, i) is Ends,
        i <= j,
        j < scan_from(b, i)->len,
    ensures
        scan_from(b.take(j as int), i) == VarIntScan::Incomplete,
    decreases 5 - i,
{
    lemma_scan_bounds(b, i);
    if i < j {
        assert(b.take(j as int)[i as int] == b[i as int]);
        lemma_scan_prefix(b, j, i + 1);
    }
}

/// Decoding the encoding of `n` gives back `n`, having read every byte of the
/// encoding, of which there are one to five.
pub proof fn lemma_varint_round_trip(n: i32)
    ensures
        decode_spec(varint_bytes(n)) == Ok::<(i32, nat), VarIntDecodeError>(
            (n, varint_bytes(n).len()),
        ),
        1 <= varint_bytes(n).len() <= 5,
{
    let v = (n as u32) as nat;
    let g = groups(v);
    lemma_groups_len(v);
    lemma_groups_shape(v);
    lemma_scan_ends(g, 0, (g.len() - 1) as nat);
    assert(g.take(g.len() as int) =~= g);
    assert((n as u32) as i32 == n) by (bit_vector);
    assert(low7_value(g) % 0x1_0000_0000 == v);
}

proof fn lemma_groups_five(v: nat)
    requires
        v < 0x1_0000_0000,
    ensures
        groups(v).len() == 5 <==> v >= 0x1000_0000,
{
    let v1 = v / 128;
    let v2 = v1 / 128;
    let v3 = v2 / 128;
    let v4 = v3 / 128;
    assert(v3 >= 128 <==> v >= 0x1000_0000) by (nonlinear_arith)
        requires
            v1 == v / 128,
            v2 == v1 / 128,
            v3 == v2 / 128,
    ;
    assert(v3 >= 128 ==> v2 >= 128 && v1 >= 128 && v >= 128);
    assert(v4 < 128);
    assert(groups(v4).len() == 1);
    if v3 >= 128 {
        assert(groups(v3).len() == 1 + groups(v4).len());
        assert(groups(v2).len() == 1 + groups(v3).len());
        assert(groups(v1).len() == 1 + groups(v2).len());
        assert(groups(v).len() == 1 + groups(v1).len());
    } else {
        assert(groups(v3).len() == 1);
        if v2 >= 128 {
            assert(groups(v2).len() == 1 + groups(v3).len());
        }
        if v1 >= 128 {
            assert(groups(v1).len() <= 1 + groups(v2).len());
            assert(groups(v1).len() == 1 + groups(v2).len());
        }
        if v >= 128 {
            assert(groups(v).len() == 1 + groups(v1).len());
        }
        lemma_groups_len(v1);
        lemma_groups_len(v2);
    }
}

/// The encoding of `n` takes all five bytes exactly when `n` is negative or
/// at least 2^28.
pub proof fn lemma_varint_five_bytes(n: i32)
    ensures
        varint_bytes(n).len() == 5 <==> (n < 0 || n >= 0x1000_0000),
{
    let u = n as u32;
    assert(u >= 0x1000_0000 <==> (n < 0 || n >= 0x1000_0000)) by (bit_vector)
        requires
            u == n as u32,
    ;
    lemma_groups_five(u as nat);
}

/// Five bytes that all carry the continuation bit are never read as a number.
pub proof fn lemma_sixth_byte_malformed(b: Seq<u8>)
    requires
        b.len() >= 5,
        forall|i: int| 0 <= i < 5 ==> b[i] >= 128,
    ensures
        decode_spec(b) == Err::<(i32, nat), VarIntDecodeError>(VarIntDecodeError::TooLarge),
{
    assert(b[0] >= 128 && b[1] >= 128 && b[2] >= 128 && b[3] >= 128 && b[4] >= 128);
    reveal_with_fuel(scan_from, 6);
}

/// Appends the encoding of `n` to `out`.
pub fn encode_varint(n: i32, out: &mut Vec<u8>)
    ensures
        final(out)@ == old(out)@ + varint_bytes(n),
{
    let mut v: u32 = n as u32;
    let ghost start = out@;
    while v >= 128
        invariant
            out@ + groups(v as nat) == start + varint_bytes(n),
        decreases v,
    {
        let b: u8 = (v % 128 + 128) as u8;
        let ghost before = out@;
        assert(groups(v as nat) == seq![b] + groups((v / 128) as nat));
        out.push(b);
        v = v / 128;
        assert(out@ + groups(v as nat) =~= before + (seq![b] + groups(v as nat)));
    }
    assert(groups(v as nat) == seq![v as u8]);
    out.push(v as u8);
}

proof fn lemma_pow128_small(m: nat)
    requires
        m <= 5,
    ensures
        pow128(m) <= 0x8_0000_0000,
{
    reveal_with_fuel(pow128, 6);
    if m == 0 {
    } else if m == 1 {
    } else if m == 2 {
    } else if m == 3 {
    } else if m == 4 {
    } else {
        assert(m == 5);
    }
}

/// Reads a VarInt from the front of `buf` without consuming anything: the
/// value and the number of bytes it took, `Incomplete` where the bytes end
/// before its last byte, `TooLarge` where five bytes all continue.
pub fn decode_varint(buf: &[u8]) -> (r: Result<(i32, usize), VarIntDecodeError>)
    ensures
        r is Ok <==> decode_spec(buf@) is Ok,
        r matches Ok((v, l)) ==> decode_spec(buf@) == Ok::<(i32, nat), VarIntDecodeError>((v, l as nat)),
        r matches Err(e) ==> decode_spec(buf@) == Err::<(i32, nat), VarIntDecodeError>(e),
        r matches Ok((v, l)) ==> 1 <= l <= 5 && l <= buf@.len(),
{
    let mut i: usize = 0;
    let mut end: usize = 0;
    while i < MAX_VARINT_LEN && end == 0
        invariant
            i <= 5,
            end == 0 ==> scan_from(buf@, 0) == scan_from(buf@, i as nat),
            end != 0 ==> scan_from(buf@, 0) == (VarIntScan::Ends { len: end as nat }),
        decreases 5 - i,
    {
        if i >= buf.len() {
            return Err(VarIntDecodeError::Incomplete);
        }
        if buf[i] < 128 {
            end = i + 1;
        }
        i = i + 1;
    }
    if end == 0 {
        return Err(VarIntDecodeError::TooLarge);
    }
    proof {
        lemma_scan_bounds(buf@, 0);
    }
    let mut acc: u64 = 0;
    let mut j: usize = end;
    assert(buf@.subrange(end as int, end as int) =~= Seq::<u8>::empty());
    assert(low7_value(Seq::<u8>::empty()) == 0);
    while j > 0
        invariant
            end <= 5,
            end <= buf.len(),
            j <= end,
            acc == low7_value(buf@.subrange(j as int, end as int)),
            acc < pow128((end - j) as nat),
        decreases j,
    {
        proof {
            lemma_pow128_small((end - j) as nat);
        }
        j = j - 1;
        acc = (buf[j] % 128) as u64 + 128 * acc;
        assert(buf@.subrange(j as int, end as int).drop_first() =~= buf@.subrange(
            j + 1,
            end as int,
        ));
    }
    assert(buf@.subrange(0, end as int) =~= buf@.take(end as int));
    let low: u32 = (acc % 0x1_0000_0000) as u32;
    let v: i32 = low as i32;
    Ok((v, end))
}

} // verus!
