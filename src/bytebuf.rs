//! Readers for the fields of incoming packets, each taking the packet's bytes
//! and a position and giving the value and the position after it, or `None`
//! where the bytes do not hold such a field there.
use vstd::prelude::*;
use crate::varint::{decode_spec, decode_varint};
use vstd::utf8::{decode_utf8, valid_utf8};

verus! {

/// The bytes of `b` read as a big-endian unsigned number.
pub open spec fn be_value(b: Seq<u8>) -> nat
    decreases b.len(),
{
    if b.len() == 0 {
        0
    } else {
        be_value(b.drop_last()) * 256 + b.last() as nat
    }
}

pub open spec fn pow256(n: nat) -> nat
    decreases n,
{
    if n == 0 {
        1
    } else {
        256 * pow256((n - 1) as nat)
    }
}

proof fn lemma_be_value_bound(b: Seq<u8>)
    ensures
        be_value(b) < pow256(b.len()),
    decreases b.len(),
{
    if b.len() > 0 {
        lemma_be_value_bound(b.drop_last());
        let v = be_value(b.drop_last());
        let p = pow256((b.len() - 1) as nat);
        assert(v * 256 + 255 < p * 256) by (nonlinear_arith)
            requires
                v < p,
        ;
    }
}

proof fn lemma_pow256_small(n: nat)
    requires
        n <= 8,
    ensures
        pow256(n) <= 0x1_0000_0000_0000_0000,
        n <= 7 ==> pow256(n) <= 0x100_0000_0000_0000,
{
    reveal_with_fuel(pow256, 9);
    if n == 0 {
    } else if n == 1 {
    } else if n == 2 {
    } else if n == 3 {
    } else if n == 4 {
    } else if n == 5 {
    } else if n == 6 {
    } else if n == 7 {
    } else {
        assert(n == 8);
    }
}

/// `n` bytes at `p`, read big-endian.
pub open spec fn spec_be(b: Seq<u8>, p: nat, n: nat) -> Option<(nat, nat)> {
    if p + n <= b.len() {
        Some((be_value(b.subrange(p as int, (p + n) as int)), (p + n) as nat))
    } else {
        None
    }
}

/// Reads `n` bytes at `p` as a big-endian number; `n` is at most 8.
pub fn read_be(b: &[u8], p: usize, n: usize) -> (r: Option<(u64, usize)>)
    requires
        n <= 8,
    ensures
        match spec_be(b@, p as nat, n as nat) {
            Some((v, q)) => r matches Some((w, s)) && w == v && s == q,
            None => r is None,
        },
{
    if p > b.len() || n > b.len() - p {
        return None;
    }
    let mut acc: u64 = 0;
    let mut i: usize = 0;
    assert(b@.subrange(p as int, p as int) =~= Seq::<u8>::empty());
    while i < n
        invariant
            n <= 8,
            i <= n,
            p + n <= b@.len(),
            acc == be_value(b@.subrange(p as int, p + i)),
        decreases n - i,
    {
        proof {
            lemma_be_value_bound(b@.subrange(p as int, p + i));
            lemma_pow256_small(i as nat);
            assert(b@.subrange(p as int, p + i).len() == i);
            assert(acc < 0x100_0000_0000_0000);
        }
        assert(p + i < b.len());
        acc = acc * 256 + b[p + i] as u64;
        i = i + 1;
        assert(b@.subrange(p as int, p + i).drop_last() =~= b@.subrange(p as int, p + i - 1));
    }
    proof {
        lemma_be_value_bound(b@.subrange(p as int, p + n));
        lemma_pow256_small(n as nat);
    }
    Some((acc, p + n))
}

/// A VarInt at `p`.
pub open spec fn spec_varint(b: Seq<u8>, p: nat) -> Option<(i32, nat)> {
    if p <= b.len() {
        match decode_spec(b.skip(p as int)) {
            Ok((v, k)) => Some((v, p + k)),
            Err(_) => None,
        }
    } else {
        None
    }
}

pub fn read_varint(b: &[u8], p: usize) -> (r: Option<(i32, usize)>)
    ensures
        match spec_varint(b@, p as nat) {
            Some((v, q)) => r matches Some((w, s)) && w == v && s == q && q <= b@.len(),
            None => r is None,
        },
{
    if p > b.len() {
        return None;
    }
    let (_, rest) = b.split_at(p);
    assert(rest@ =~= b@.skip(p as int));
    match decode_varint(rest) {
        Ok((v, k)) => Some((v, p + k)),
        Err(_) => None,
    }
}

/// A byte array at `p`: a VarInt length, then that many bytes.
pub open spec fn spec_byte_array(b: Seq<u8>, p: nat) -> Option<(Seq<u8>, nat)> {
    match spec_varint(b, p) {
        Some((n, q)) => if 0 <= n && q + n <= b.len() {
            Some((b.subrange(q as int, q + n), (q + n) as nat))
        } else {
            None
        },
        None => None,
    }
}

/// Copies `n` bytes of `b` from `p` on.
pub fn read_fixed(b: &[u8], p: usize, n: usize) -> (r: Option<(Vec<u8>, usize)>)
    ensures
        p + n <= b@.len() ==> (r matches Some((v, q)) && v@ == b@.subrange(p as int, p + n) && q
            == p + n),
        p + n > b@.len() ==> r is None,
{
    if p > b.len() || n > b.len() - p {
        return None;
    }
    let mut out: Vec<u8> = Vec::new();
    let mut i: usize = 0;
    while i < n
        invariant
            i <= n,
            p + n <= b@.len(),
            out@ == b@.subrange(p as int, p + i),
        decreases n - i,
    {
        assert(p + i < b.len());
        out.push(b[p + i]);
        i = i + 1;
        assert(out@ =~= b@.subrange(p as int, p + i));
    }
    Some((out, p + n))
}

pub fn read_byte_array(b: &[u8], p: usize) -> (r: Option<(Vec<u8>, usize)>)
    ensures
        match spec_byte_array(b@, p as nat) {
            Some((v, q)) => r matches Some((w, s)) && w@ == v && s == q,
            None => r is None,
        },
{
    let (n, q) = match read_varint(b, p) {
        Some(x) => x,
        None => return None,
    };
    if n < 0 {
        return None;
    }
    read_fixed(b, q, n as usize)
}

/// Relies on `String::from_utf8`, which accepts exactly the valid UTF-8
/// byte sequences and keeps their characters.
#[verifier::external_body]
pub(crate) fn string_from_utf8(b: Vec<u8>) -> (r: Option<String>)
    ensures
        r is Some <==> valid_utf8(b@),
        r matches Some(s) ==> s@ == decode_utf8(b@),
{
    String::from_utf8(b).ok()
}

/// A string at `p`: a byte array holding UTF-8 of at most `max` characters.
pub open spec fn spec_string(b: Seq<u8>, p: nat, max: nat) -> Option<(Seq<char>, nat)> {
    match spec_byte_array(b, p) {
        Some((raw, q)) => if valid_utf8(raw) && decode_utf8(raw).len() <= max {
            Some((decode_utf8(raw), q))
        } else {
            None
        },
        None => None,
    }
}

pub fn read_string(b: &[u8], p: usize, max: usize) -> (r: Option<(String, usize)>)
    ensures
        match spec_string(b@, p as nat, max as nat) {
            Some((s, q)) => r matches Some((t, u)) && t@ == s && u == q,
            None => r is None,
        },
{
    let (raw, q) = match read_byte_array(b, p) {
        Some(x) => x,
        None => return None,
    };
    let s = match string_from_utf8(raw) {
        Some(s) => s,
        None => return None,
    };
    if s.as_str().unicode_len() > max {
        return None;
    }
    Some((s, q))
}

} // verus!
