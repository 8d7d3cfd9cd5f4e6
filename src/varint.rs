use crate::error::DecodeError;
use vstd::prelude::*;

verus! {

/// Maximum number of bytes of a 32-bit VarInt.
pub const VAR_I32_MAX_BYTES: usize = 5;

/// Maximum number of bytes of a 64-bit VarLong.
pub const VAR_I64_MAX_BYTES: usize = 10;

/// 128 to the power `n`.
pub open spec fn pow128(n: nat) -> nat
    decreases n,
{
    if n == 0 {
        1
    } else {
        128 * pow128((n - 1) as nat)
    }
}

/// Seven-bit groups of `v`, least significant first, with the continuation bit set on
/// every byte but the last.
pub open spec fn varint_bytes(v: nat) -> Seq<u8>
    decreases v,
{
    if v < 128 {
        seq![v as u8]
    } else {
        seq![((v % 128) + 128) as u8] + varint_bytes(v / 128)
    }
}

/// Wire form of a 32-bit VarInt: the two's-complement bits of `n`, unsigned.
pub open spec fn var_i32_bytes(n: i32) -> Seq<u8> {
    varint_bytes(n as u32 as nat)
}

/// Wire form of a 64-bit VarLong.
pub open spec fn var_i64_bytes(n: i64) -> Seq<u8> {
    varint_bytes(n as u64 as nat)
}

/// Where a VarInt that starts at index 0 of `d` ends, scanning from index `i`:
/// `Ok(end)` after the first byte without the continuation bit, a short read if the
/// input ends first, or `VarIntTooLong` once `max` bytes carried the continuation bit.
pub open spec fn varint_scan(d: Seq<u8>, i: nat, max: nat) -> Result<nat, DecodeError>
    decreases max - i,
{
    if i >= max {
        Err(DecodeError::VarIntTooLong { max_bytes: max as usize })
    } else if i >= d.len() {
        Err(DecodeError::UnexpectedEof)
    } else if d[i as int] < 128 {
        Ok(i + 1)
    } else {
        varint_scan(d, i + 1, max)
    }
}

/// Unsigned value of a sequence of seven-bit groups, least significant first.
pub open spec fn varint_value(d: Seq<u8>) -> nat
    decreases d.len(),
{
    if d.len() == 0 {
        0
    } else {
        (d[0] % 128) as nat + 128 * varint_value(d.skip(1))
    }
}

/// Result of reading a 32-bit VarInt from the start of `d`, with the bytes consumed.
pub open spec fn parse_var_i32(d: Seq<u8>) -> Result<(i32, nat), DecodeError> {
    match varint_scan(d, 0, VAR_I32_MAX_BYTES as nat) {
        Ok(n) => Ok((((varint_value(d.take(n as int)) % 0x1_0000_0000) as u32) as i32, n)),
        Err(e) => Err(e),
    }
}

/// Result of reading a 64-bit VarLong from the start of `d`, with the bytes consumed.
pub open spec fn parse_var_i64(d: Seq<u8>) -> Result<(i64, nat), DecodeError> {
    match varint_scan(d, 0, VAR_I64_MAX_BYTES as nat) {
        Ok(n) => Ok(
            (((varint_value(d.take(n as int)) % 0x1_0000_0000_0000_0000) as u64) as i64, n),
        ),
        Err(e) => Err(e),
    }
}

pub proof fn lemma_pow128_pos(n: nat)
    ensures
        pow128(n) >= 1,
    decreases n,
{
    if n > 0 {
        lemma_pow128_pos((n - 1) as nat);
    }
}

/// The VarInt of `v` is one byte longer for every further seven-bit group.
pub proof fn lemma_varint_bytes_len(v: nat, k: nat)
    requires
        v < pow128(k),
        k >= 1,
    ensures
        1 <= varint_bytes(v).len() <= k,
    decreases v,
{
    if v >= 128 {
        if k == 1 {
            assert(pow128(1) == 128 * pow128(0));
        } else {
            assert(pow128(k) == 128 * pow128((k - 1) as nat));
            assert(v / 128 < pow128((k - 1) as nat)) by (nonlinear_arith)
                requires
                    v < 128 * pow128((k - 1) as nat),
            ;
            lemma_varint_bytes_len(v / 128, (k - 1) as nat);
        }
    }
}

/// Every byte but the last of an encoding carries the continuation bit.
pub proof fn lemma_varint_bytes_shape(v: nat)
    ensures
        varint_bytes(v).len() >= 1,
        varint_bytes(v)[varint_bytes(v).len() - 1] < 128,
        forall|j: int| 0 <= j < varint_bytes(v).len() - 1 ==> varint_bytes(v)[j] >= 128,
    decreases v,
{
    if v >= 128 {
        lemma_varint_bytes_shape(v / 128);
        let t = varint_bytes(v / 128);
        assert(varint_bytes(v) == seq![((v % 128) + 128) as u8] + t);
        assert forall|j: int| 0 <= j < varint_bytes(v).len() - 1 implies varint_bytes(v)[j]
            >= 128 by {
            if j > 0 {
                assert(varint_bytes(v)[j] == t[j - 1]);
            }
        }
    }
}

/// Decoding the groups of an encoding gives back the value.
pub proof fn lemma_varint_value_bytes(v: nat)
    ensures
        varint_value(varint_bytes(v)) == v,
    decreases v,
{
    let b = varint_bytes(v);
    if v < 128 {
        assert(b.skip(1) =~= Seq::<u8>::empty());
        assert(varint_value(b.skip(1)) == 0);
    } else {
        lemma_varint_value_bytes(v / 128);
        assert(b.len() > 0);
        assert(b.skip(1) =~= varint_bytes(v / 128));
        assert(b[0] == ((v % 128) + 128) as u8);
        assert(b[0] % 128 == v % 128);
        assert(v % 128 + 128 * (v / 128) == v);
        assert(varint_value(b) == (b[0] % 128) as nat + 128 * varint_value(b.skip(1)));
    }
}

/// The scan stops exactly at the end of an encoding placed at index `i`, when the
/// bytes before it carried the continuation bit.
pub proof fn lemma_varint_scan_bytes(d: Seq<u8>, i: nat, v: nat, max: nat)
    requires
        i + varint_bytes(v).len() <= d.len(),
        i + varint_bytes(v).len() <= max,
        d.subrange(i as int, (i + varint_bytes(v).len()) as int) == varint_bytes(v),
    ensures
        varint_scan(d, i, max) == Ok::<nat, DecodeError>(i + varint_bytes(v).len()),
    decreases v,
{
    let b = varint_bytes(v);
    assert(d[i as int] == b[0]);
    if v >= 128 {
        let t = varint_bytes(v / 128);
        assert(b == seq![((v % 128) + 128) as u8] + t);
        assert forall|k: int| 0 <= k < t.len() implies d.subrange(
            (i + 1) as int,
            (i + 1 + t.len()) as int,
        )[k] == t[k] by {
            assert(d[i + 1 + k] == d.subrange(i as int, (i + b.len()) as int)[k + 1]);
            assert(b[k + 1] == t[k]);
        }
        assert(d.subrange((i + 1) as int, (i + 1 + t.len()) as int) =~= t);
        lemma_varint_scan_bytes(d, i + 1, v / 128, max);
    }
}

/// The unsigned value of a `n`-byte group sequence stays below 128^n.
pub proof fn lemma_varint_value_bound(d: Seq<u8>)
    ensures
        varint_value(d) < pow128(d.len()),
    decreases d.len(),
{
    if d.len() > 0 {
        lemma_varint_value_bound(d.skip(1));
        let r = varint_value(d.skip(1));
        let p = pow128((d.len() - 1) as nat);
        assert(pow128(d.len()) == 128 * p);
        assert((d[0] % 128) as nat + 128 * r < 128 * p) by (nonlinear_arith)
            requires
                r < p,
                (d[0] % 128) < 128,
        ;
    }
}

/// Encodes `n` as a VarInt, appending it to `out`.
pub fn write_var_i32(n: i32, out: &mut Vec<u8>)
    ensures
        final(out)@ == old(out)@ + var_i32_bytes(n),
{
    write_varint_u64(n as u32 as u64, out);
}

/// Encodes `n` as a VarLong, appending it to `out`.
pub fn write_var_i64(n: i64, out: &mut Vec<u8>)
    ensures
        final(out)@ == old(out)@ + var_i64_bytes(n),
{
    write_varint_u64(n as u64, out);
}

fn write_varint_u64(v0: u64, out: &mut Vec<u8>)
    ensures
        final(out)@ == old(out)@ + varint_bytes(v0 as nat),
{
    let mut v: u64 = v0;
    while v >= 128
        invariant
            out@ + varint_bytes(v as nat) == old(out)@ + varint_bytes(v0 as nat),
        decreases v,
    {
        let b: u8 = ((v % 128) + 128) as u8;
        proof {
            assert(varint_bytes(v as nat) == seq![b] + varint_bytes((v / 128) as nat));
            assert(out@.push(b) + varint_bytes((v / 128) as nat) =~= out@ + varint_bytes(
                v as nat,
            ));
        }
        out.push(b);
        v = v / 128;
    }
    proof {
        assert(varint_bytes(v as nat) == seq![v as u8]);
        assert(out@.push(v as u8) =~= out@ + varint_bytes(v as nat));
    }
    out.push(v as u8);
}

/// Number of bytes of the VarInt of a length `n`.
pub fn var_len_size(n: usize) -> (r: usize)
    requires
        n <= i32::MAX,
    ensures
        r as nat == var_i32_bytes(n as i32).len(),
        1 <= r <= 5,
{
    let mut v: usize = n;
    let mut k: usize = 1;
    proof {
        assert(n as i32 as u32 as nat == n as nat) by (bit_vector)
            requires
                n <= 0x7fff_ffff,
        ;
        reveal_with_fuel(pow128, 6);
        lemma_varint_bytes_len(n as nat, 5);
    }
    while v >= 128
        invariant
            varint_bytes(n as nat).len() == k - 1 + varint_bytes(v as nat).len(),
            1 <= k <= varint_bytes(n as nat).len(),
            varint_bytes(n as nat).len() <= 5,
        decreases v,
    {
        proof {
            assert(varint_bytes(v as nat) == seq![((v % 128) + 128) as u8] + varint_bytes(
                (v / 128) as nat,
            ));
        }
        v = v / 128;
        k = k + 1;
    }
    k
}

/// Scans for the end of the VarInt that starts at `pos`, allowing `max` bytes.
fn scan_varint(d: &[u8], pos: usize, max: usize) -> (r: Result<usize, DecodeError>)
    requires
        pos <= d@.len(),
        max <= 10,
    ensures
        match varint_scan(d@.skip(pos as int), 0, max as nat) {
            Ok(n) => n <= max && r == Ok::<usize, DecodeError>(n as usize),
            Err(e) => r == Err::<usize, DecodeError>(e),
        },
        r is Ok ==> 1 <= r->Ok_0 <= max && pos + r->Ok_0 <= d@.len(),
{
    let ghost s = d@.skip(pos as int);
    let len: usize = d.len();
    let avail: usize = len - pos;
    let mut i: usize = 0;
    while i < max
        invariant
            s == d@.skip(pos as int),
            pos <= d@.len(),
            i <= max,
            max <= 10,
            varint_scan(s, 0, max as nat) == varint_scan(s, i as nat, max as nat),
            forall|j: int| 0 <= j < i ==> s[j] >= 128,
            i <= s.len(),
            avail == s.len(),
            avail + pos == d@.len(),
            len == d@.len(),
        decreases max - i,
    {
        if i >= avail {
            return Err(DecodeError::UnexpectedEof);
        }
        proof {
            assert(pos + i < d@.len());
        }
        let b = d[pos + i];
        if b < 128 {
            return Ok(i + 1);
        }
        i = i + 1;
    }
    Err(DecodeError::VarIntTooLong { max_bytes: max })
}

/// Unsigned value of the group bytes `d[pos..pos + n]`, computed from the last group.
fn group_value(d: &[u8], pos: usize, n: usize) -> (r: u128)
    requires
        pos + n <= d@.len(),
        n <= 10,
    ensures
        r as nat == varint_value(d@.subrange(pos as int, pos + n)),
{
    let len: usize = d.len();
    let mut acc: u128 = 0;
    let mut k: usize = n;
    proof {
        assert(d@.subrange(pos + n, pos + n).len() == 0);
    }
    while k > 0
        invariant
            pos + n <= d@.len(),
            n <= 10,
            k <= n,
            len == d@.len(),
            acc as nat == varint_value(d@.subrange(pos + k, pos + n)),
        decreases k,
    {
        let ghost tail = d@.subrange(pos + k, pos + n);
        let ghost whole = d@.subrange(pos + k - 1, pos + n);
        proof {
            assert(whole.skip(1) =~= tail);
            lemma_varint_value_bound(tail);
            lemma_pow128_upto(tail.len());
        }
        let b = d[pos + k - 1];
        acc = (b % 128) as u128 + 128 * acc;
        k = k - 1;
    }
    acc
}

proof fn lemma_pow128_upto(n: nat)
    requires
        n <= 10,
    ensures
        pow128(n) <= pow128(10),
        pow128(10) == 0x40_0000_0000_0000_0000,
{
    reveal_with_fuel(pow128, 11);
    if n < 10 {
        lemma_pow128_mono(n, 10);
    }
}

proof fn lemma_pow128_mono(a: nat, b: nat)
    requires
        a <= b,
    ensures
        pow128(a) <= pow128(b),
    decreases b,
{
    if a < b {
        lemma_pow128_mono(a, (b - 1) as nat);
        lemma_pow128_pos((b - 1) as nat);
    }
}

/// Reads a 32-bit VarInt at `pos`, giving the value and the index after it.
pub fn read_var_i32(d: &[u8], pos: usize) -> (r: Result<(i32, usize), DecodeError>)
    requires
        pos <= d@.len(),
    ensures
        match parse_var_i32(d@.skip(pos as int)) {
            Ok((v, n)) => pos + n <= d@.len() && r == Ok::<(i32, usize), DecodeError>(
                (v, (pos + n) as usize),
            ),
            Err(e) => r == Err::<(i32, usize), DecodeError>(e),
        },
        r is Ok ==> r->Ok_0.1 <= d@.len() && r->Ok_0.1 > pos,
{
    let _len: usize = d.len();
    match scan_varint(d, pos, VAR_I32_MAX_BYTES) {
        Ok(n) => {
            let acc = group_value(d, pos, n);
            proof {
                assert(d@.skip(pos as int).take(n as int) =~= d@.subrange(pos as int, pos + n));
            }
            let v: i32 = ((acc % 0x1_0000_0000) as u32) as i32;

            Ok((v, pos + n))
        },
        Err(e) => Err(e),
    }
}

/// Reads a 64-bit VarLong at `pos`, giving the value and the index after it.
pub fn read_var_i64(d: &[u8], pos: usize) -> (r: Result<(i64, usize), DecodeError>)
    requires
        pos <= d@.len(),
    ensures
        match parse_var_i64(d@.skip(pos as int)) {
            Ok((v, n)) => pos + n <= d@.len() && r == Ok::<(i64, usize), DecodeError>(
                (v, (pos + n) as usize),
            ),
            Err(e) => r == Err::<(i64, usize), DecodeError>(e),
        },
        r is Ok ==> r->Ok_0.1 <= d@.len() && r->Ok_0.1 > pos,
{
    let _len: usize = d.len();
    match scan_varint(d, pos, VAR_I64_MAX_BYTES) {
        Ok(n) => {
            let acc = group_value(d, pos, n);
            proof {
                assert(d@.skip(pos as int).take(n as int) =~= d@.subrange(pos as int, pos + n));
            }
            let v: i64 = ((acc % 0x1_0000_0000_0000_0000) as u64) as i64;
            Ok((v, pos + n))
        },
        Err(e) => Err(e),
    }
}

/// VarInt round trip: the encoding of every `i32` takes one to five bytes and reads back
/// as the same value, whatever follows it.
pub proof fn lemma_var_i32_round_trip(n: i32, rest: Seq<u8>)
    ensures
        1 <= var_i32_bytes(n).len() <= 5,
        parse_var_i32(var_i32_bytes(n) + rest) == Ok::<(i32, nat), DecodeError>(
            (n, var_i32_bytes(n).len()),
        ),
{
    let u = n as u32;
    let b = var_i32_bytes(n);
    let d = b + rest;
    reveal_with_fuel(pow128, 6);
    lemma_varint_bytes_len(u as nat, 5);
    assert(d.subrange(0, b.len() as int) =~= b);
    lemma_varint_scan_bytes(d, 0, u as nat, 5);
    assert(d.take(b.len() as int) =~= b);
    lemma_varint_value_bytes(u as nat);
    assert(((u as nat % 0x1_0000_0000) as u32) as i32 == n) by {
        assert((n as u32) as i32 == n) by (bit_vector);
    }
}

/// VarLong round trip: the encoding of every `i64` takes one to ten bytes and reads
/// back as the same value.
pub proof fn lemma_var_i64_round_trip(n: i64, rest: Seq<u8>)
    ensures
        1 <= var_i64_bytes(n).len() <= 10,
        parse_var_i64(var_i64_bytes(n) + rest) == Ok::<(i64, nat), DecodeError>(
            (n, var_i64_bytes(n).len()),
        ),
{
    let u = n as u64;
    let b = var_i64_bytes(n);
    let d = b + rest;
    reveal_with_fuel(pow128, 11);
    lemma_varint_bytes_len(u as nat, 10);
    assert(d.subrange(0, b.len() as int) =~= b);
    lemma_varint_scan_bytes(d, 0, u as nat, 10);
    assert(d.take(b.len() as int) =~= b);
    lemma_varint_value_bytes(u as nat);
    assert(((u as nat % 0x1_0000_0000_0000_0000) as u64) as i64 == n) by {
        assert((n as u64) as i64 == n) by (bit_vector);
    }
}

/// Five bytes that all carry the continuation bit are refused as too long, whatever
/// follows them.
pub proof fn lemma_var_i32_too_long(d: Seq<u8>)
    requires
        d.len() >= 5,
        forall|j: int| 0 <= j < 5 ==> d[j] >= 128,
    ensures
        parse_var_i32(d) == Err::<(i32, nat), DecodeError>(
            DecodeError::VarIntTooLong { max_bytes: 5 },
        ),
{
    reveal_with_fuel(varint_scan, 6);
}

proof fn lemma_varint_scan_truncated(b: Seq<u8>, k: nat, i: nat, max: nat)
    requires
        k < b.len(),
        b.len() <= max,
        i <= k,
        forall|j: int| 0 <= j < b.len() - 1 ==> b[j] >= 128,
    ensures
        varint_scan(b.take(k as int), i, max) == Err::<nat, DecodeError>(DecodeError::UnexpectedEof),
    decreases k - i,
{
    if i < k {
        lemma_varint_scan_truncated(b, k, i + 1, max);
    }
}

/// A VarInt cut short reads as a short read, so the caller can wait for more bytes.
pub proof fn lemma_var_i32_truncated(n: i32, k: nat)
    requires
        k < var_i32_bytes(n).len(),
    ensures
        parse_var_i32(var_i32_bytes(n).take(k as int)) == Err::<(i32, nat), DecodeError>(
            DecodeError::UnexpectedEof,
        ),
{
    let b = var_i32_bytes(n);
    lemma_var_i32_round_trip(n, Seq::empty());
    lemma_varint_bytes_shape(n as u32 as nat);
    lemma_varint_scan_truncated(b, k, 0, 5);
}

} // verus!
