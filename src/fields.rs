use crate::error::{DecodeError, EncodeError};
use crate::varint::{parse_var_i32, read_var_i32, var_i32_bytes, write_var_i32};
use vstd::prelude::*;
use vstd::utf8::{decode_utf8, encode_utf8, valid_utf8};
use vstd::string::{StringExecFns, StringSliceAdditionalSpecFns};
use crate::text::{hex_chars, push_hex};

verus! {

broadcast use vstd::utf8::encode_utf8_valid_utf8, vstd::utf8::encode_utf8_decode_utf8;

/// Default maximum byte length of a string field.
pub const DEFAULT_STRING_MAX: u16 = 32768;

/// Maximum byte length of a UUID written as hyphenated text.
pub const UUID_TEXT_MAX: u16 = 36;

/// 256 to the power `n`.
pub open spec fn pow256(n: nat) -> nat
    decreases n,
{
    if n == 0 {
        1
    } else {
        256 * pow256((n - 1) as nat)
    }
}

/// Unsigned big-endian value of `s`.
pub open spec fn be_value(s: Seq<u8>) -> nat
    decreases s.len(),
{
    if s.len() == 0 {
        0
    } else {
        be_value(s.drop_last()) * 256 + s.last() as nat
    }
}

/// The `k` low-order bytes of `v`, most significant first.
pub open spec fn be_bytes(v: nat, k: nat) -> Seq<u8>
    decreases k,
{
    if k == 0 {
        Seq::empty()
    } else {
        be_bytes(v / 256, (k - 1) as nat).push((v % 256) as u8)
    }
}

/// Reads a `k`-byte big-endian integer from the start of `d`.
pub open spec fn parse_be(d: Seq<u8>, k: nat) -> Result<(nat, nat), DecodeError> {
    if d.len() >= k {
        Ok((be_value(d.take(k as int)), k))
    } else {
        Err(DecodeError::UnexpectedEof)
    }
}

/// Reads a boolean byte from the start of `d`.
pub open spec fn parse_bool(d: Seq<u8>) -> Result<(bool, nat), DecodeError> {
    if d.len() == 0 {
        Err(DecodeError::UnexpectedEof)
    } else if d[0] == 0 {
        Ok((false, 1))
    } else if d[0] == 1 {
        Ok((true, 1))
    } else {
        Err(DecodeError::NonBoolValue)
    }
}

/// Reads a length-prefixed byte sequence from the start of `d`, the prefix being a
/// VarInt.
pub open spec fn parse_byte_array(d: Seq<u8>) -> Result<(Seq<u8>, nat), DecodeError> {
    match parse_var_i32(d) {
        Err(e) => Err(e),
        Ok((len, n)) => if len < 0 || d.len() < n + len {
            Err(DecodeError::UnexpectedEof)
        } else {
            Ok((d.subrange(n as int, n + len), n + len as nat))
        },
    }
}

/// Reads a string of at most `max` UTF-8 bytes from the start of `d`. The length is
/// checked before any byte of the text is looked at.
pub open spec fn parse_string(d: Seq<u8>, max: u16) -> Result<(Seq<char>, nat), DecodeError> {
    match parse_var_i32(d) {
        Err(e) => Err(e),
        Ok((len, n)) => if len < 0 || len > max {
            Err(DecodeError::StringTooLong { length: len as usize, max_length: max })
        } else if d.len() < n + len {
            Err(DecodeError::UnexpectedEof)
        } else if !valid_utf8(d.subrange(n as int, n + len)) {
            Err(DecodeError::Utf8Error)
        } else {
            Ok((decode_utf8(d.subrange(n as int, n + len)), n + len as nat))
        },
    }
}

/// What `uuid::Uuid::parse_str` makes of a text: the UUID as a 128-bit big-endian
/// number, or `None` where it refuses the text.
pub uninterp spec fn uuid_text_value(s: Seq<char>) -> Option<u128>;

/// The hyphenated lower-case text of a UUID given as a 128-bit number: its 32
/// hexadecimal digits in groups of 8, 4, 4, 4 and 12.
pub open spec fn uuid_hyphenated(v: u128) -> Seq<char> {
    let n = v as nat;
    hex_chars(n / 0x1_0000_0000_0000_0000_0000_0000, 8) + "-"@ + hex_chars(
        n / 0x1_0000_0000_0000_0000_0000 % 0x1_0000,
        4,
    ) + "-"@ + hex_chars(n / 0x1_0000_0000_0000_0000 % 0x1_0000, 4) + "-"@ + hex_chars(
        n / 0x1_0000_0000_0000 % 0x1_0000,
        4,
    ) + "-"@ + hex_chars(n % 0x1_0000_0000_0000, 12)
}

/// Wire form of a string: its UTF-8 byte length as a VarInt, then the bytes.
pub open spec fn string_bytes(s: Seq<char>) -> Seq<u8> {
    var_i32_bytes(encode_utf8(s).len() as i32) + encode_utf8(s)
}

/// Wire form of a byte array: its length as a VarInt, then the bytes.
pub open spec fn byte_array_bytes(b: Seq<u8>) -> Seq<u8> {
    var_i32_bytes(b.len() as i32) + b
}

pub proof fn lemma_pow256_pos(n: nat)
    ensures
        pow256(n) >= 1,
    decreases n,
{
    if n > 0 {
        lemma_pow256_pos((n - 1) as nat);
    }
}

proof fn lemma_be_value_bound(s: Seq<u8>)
    ensures
        be_value(s) < pow256(s.len()),
    decreases s.len(),
{
    if s.len() > 0 {
        lemma_be_value_bound(s.drop_last());
        let p = pow256((s.len() - 1) as nat);
        let r = be_value(s.drop_last());
        assert(r * 256 + (s.last() as nat) < 256 * p) by (nonlinear_arith)
            requires
                r < p,
                s.last() < 256,
        ;
    }
}

pub proof fn lemma_pow256_16()
    ensures
        pow256(16) == 0x1_0000_0000_0000_0000_0000_0000_0000_0000,
        pow256(8) == 0x1_0000_0000_0000_0000,
        pow256(4) == 0x1_0000_0000,
        pow256(2) == 0x1_0000,
        pow256(1) == 0x100,
{
    reveal_with_fuel(pow256, 17);
}

proof fn lemma_pow256_mono(a: nat, b: nat)
    requires
        a <= b,
    ensures
        pow256(a) <= pow256(b),
    decreases b,
{
    if a < b {
        lemma_pow256_mono(a, (b - 1) as nat);
        lemma_pow256_pos((b - 1) as nat);
    }
}

/// Copies `src` to the end of `out`.
pub fn append_bytes(out: &mut Vec<u8>, src: &[u8])
    ensures
        final(out)@ == old(out)@ + src@,
{
    let n: usize = src.len();
    let mut i: usize = 0;
    while i < n
        invariant
            n == src@.len(),
            i <= n,
            out@ == old(out)@ + src@.take(i as int),
        decreases n - i,
    {
        out.push(src[i]);
        i = i + 1;
        proof {
            assert(src@.take(i as int) =~= src@.take(i - 1).push(src@[i - 1]));
        }
    }
    proof {
        assert(src@.take(n as int) =~= src@);
    }
}

/// Copies `d[from..to]` into a new vector.
pub fn copy_range(d: &[u8], from: usize, to: usize) -> (r: Vec<u8>)
    requires
        from <= to <= d@.len(),
    ensures
        r@ == d@.subrange(from as int, to as int),
{
    let mut r: Vec<u8> = Vec::new();
    let mut i: usize = from;
    while i < to
        invariant
            from <= i <= to,
            to <= d@.len(),
            r@ == d@.subrange(from as int, i as int),
        decreases to - i,
    {
        r.push(d[i]);
        i = i + 1;
        proof {
            assert(d@.subrange(from as int, i as int) =~= d@.subrange(from as int, i - 1).push(
                d@[i - 1],
            ));
        }
    }
    r
}

/// Reads a `k`-byte big-endian integer at `pos`.
fn read_be(d: &[u8], pos: usize, k: usize) -> (r: Result<(u128, usize), DecodeError>)
    requires
        pos <= d@.len(),
        1 <= k <= 16,
    ensures
        match parse_be(d@.skip(pos as int), k as nat) {
            Ok((v, n)) => pos + n <= d@.len() && r == Ok::<(u128, usize), DecodeError>(
                (v as u128, (pos + n) as usize),
            ) && v < pow256(k as nat),
            Err(e) => r == Err::<(u128, usize), DecodeError>(e),
        },
{
    let len: usize = d.len();
    if len - pos < k {
        return Err(DecodeError::UnexpectedEof);
    }
    let mut acc: u128 = 0;
    let mut i: usize = 0;
    while i < k
        invariant
            len == d@.len(),
            pos + k <= len,
            i <= k <= 16,
            acc as nat == be_value(d@.subrange(pos as int, pos + i)),
        decreases k - i,
    {
        let ghost pre = d@.subrange(pos as int, pos + i);
        let ghost next = d@.subrange(pos as int, pos + i + 1);
        proof {
            assert(next.drop_last() =~= pre);
            lemma_be_value_bound(pre);
            lemma_pow256_mono(i as nat, 15);
            lemma_pow256_16();
            reveal_with_fuel(pow256, 17);
        }
        acc = acc * 256 + d[pos + i] as u128;
        i = i + 1;
    }
    proof {
        assert(d@.skip(pos as int).take(k as int) =~= d@.subrange(pos as int, pos + k));
        lemma_be_value_bound(d@.subrange(pos as int, pos + k));
    }
    Ok((acc, pos + k))
}

/// Appends the `k` low-order bytes of `v`, most significant first.
fn write_be(v: u128, k: usize, out: &mut Vec<u8>)
    requires
        k <= 16,
    ensures
        final(out)@ == old(out)@ + be_bytes(v as nat, k as nat),
    decreases k,
{
    if k == 0 {
        assert(old(out)@ + be_bytes(v as nat, 0) =~= old(out)@);
        return ;
    }
    write_be(v / 256, k - 1, out);
    out.push((v % 256) as u8);
    proof {
        assert(be_bytes(v as nat, k as nat) == be_bytes((v / 256) as nat, (k - 1) as nat).push(
            (v % 256) as u8,
        ));
        assert(final(out)@ =~= old(out)@ + be_bytes(v as nat, k as nat));
    }
}

/// Reads one unsigned byte.
pub fn read_u8(d: &[u8], pos: usize) -> (r: Result<(u8, usize), DecodeError>)
    requires
        pos <= d@.len(),
    ensures
        match parse_be(d@.skip(pos as int), 1) {
            Ok((v, n)) => pos + n <= d@.len() && r == Ok::<(u8, usize), DecodeError>((v as u8, (pos + n) as usize)),
            Err(e) => r == Err::<(u8, usize), DecodeError>(e),
        },
{
    proof {
        lemma_pow256_16();
    }
    match read_be(d, pos, 1) {
        Ok((v, p)) => Ok((v as u8, p)),
        Err(e) => Err(e),
    }
}

/// Reads a big-endian `u16`.
pub fn read_u16(d: &[u8], pos: usize) -> (r: Result<(u16, usize), DecodeError>)
    requires
        pos <= d@.len(),
    ensures
        match parse_be(d@.skip(pos as int), 2) {
            Ok((v, n)) => pos + n <= d@.len() && r == Ok::<(u16, usize), DecodeError>((v as u16, (pos + n) as usize)),
            Err(e) => r == Err::<(u16, usize), DecodeError>(e),
        },
{
    proof {
        lemma_pow256_16();
    }
    match read_be(d, pos, 2) {
        Ok((v, p)) => Ok((v as u16, p)),
        Err(e) => Err(e),
    }
}

/// Reads a big-endian `u32`.
pub fn read_u32(d: &[u8], pos: usize) -> (r: Result<(u32, usize), DecodeError>)
    requires
        pos <= d@.len(),
    ensures
        match parse_be(d@.skip(pos as int), 4) {
            Ok((v, n)) => pos + n <= d@.len() && r == Ok::<(u32, usize), DecodeError>((v as u32, (pos + n) as usize)),
            Err(e) => r == Err::<(u32, usize), DecodeError>(e),
        },
{
    proof {
        lemma_pow256_16();
    }
    match read_be(d, pos, 4) {
        Ok((v, p)) => Ok((v as u32, p)),
        Err(e) => Err(e),
    }
}

/// Reads a big-endian `u64`.
pub fn read_u64(d: &[u8], pos: usize) -> (r: Result<(u64, usize), DecodeError>)
    requires
        pos <= d@.len(),
    ensures
        match parse_be(d@.skip(pos as int), 8) {
            Ok((v, n)) => pos + n <= d@.len() && r == Ok::<(u64, usize), DecodeError>((v as u64, (pos + n) as usize)),
            Err(e) => r == Err::<(u64, usize), DecodeError>(e),
        },
{
    proof {
        lemma_pow256_16();
    }
    match read_be(d, pos, 8) {
        Ok((v, p)) => Ok((v as u64, p)),
        Err(e) => Err(e),
    }
}

/// Reads a UUID as 16 raw big-endian bytes.
pub fn read_uuid(d: &[u8], pos: usize) -> (r: Result<(u128, usize), DecodeError>)
    requires
        pos <= d@.len(),
    ensures
        match parse_be(d@.skip(pos as int), 16) {
            Ok((v, n)) => pos + n <= d@.len() && r == Ok::<(u128, usize), DecodeError>((v as u128, (pos + n) as usize)),
            Err(e) => r == Err::<(u128, usize), DecodeError>(e),
        },
{
    read_be(d, pos, 16)
}

/// Reads a boolean byte: 0 or 1, anything else refused.
pub fn read_bool(d: &[u8], pos: usize) -> (r: Result<(bool, usize), DecodeError>)
    requires
        pos <= d@.len(),
    ensures
        match parse_bool(d@.skip(pos as int)) {
            Ok((v, n)) => pos + n <= d@.len() && r == Ok::<(bool, usize), DecodeError>((v, (pos + n) as usize)),
            Err(e) => r == Err::<(bool, usize), DecodeError>(e),
        },
{
    if pos >= d.len() {
        return Err(DecodeError::UnexpectedEof);
    }
    let b = d[pos];
    if b == 0 {
        Ok((false, pos + 1))
    } else if b == 1 {
        Ok((true, pos + 1))
    } else {
        Err(DecodeError::NonBoolValue)
    }
}

/// Reads a VarInt-prefixed byte array.
pub fn read_byte_array(d: &[u8], pos: usize) -> (r: Result<(Vec<u8>, usize), DecodeError>)
    requires
        pos <= d@.len(),
    ensures
        match parse_byte_array(d@.skip(pos as int)) {
            Ok((v, n)) => r is Ok && r->Ok_0.0@ == v && r->Ok_0.1 == pos + n,
            Err(e) => r == Err::<(Vec<u8>, usize), DecodeError>(e),
        },
        r is Ok ==> r->Ok_0.1 <= d@.len(),
{
    let len: usize = d.len();
    let (n, p) = match read_var_i32(d, pos) {
        Ok(v) => v,
        Err(e) => return Err(e),
    };
    if n < 0 || len - p < n as usize {
        return Err(DecodeError::UnexpectedEof);
    }
    let end: usize = p + n as usize;
    let v = copy_range(d, p, end);
    proof {
        let s = d@.skip(pos as int);
        let k = (p - pos) as nat;
        assert(parse_var_i32(s) == Ok::<(i32, nat), DecodeError>((n, k)));
        assert(s.len() >= k + n);
        assert(s.subrange(k as int, k + n) =~= d@.subrange(p as int, end as int));
        assert(parse_byte_array(s) == Ok::<(Seq<u8>, nat), DecodeError>((v@, k + n as nat)));
    }
    Ok((v, end))
}

/// Reads all bytes from `pos` to the end of the packet.
pub fn read_rest(d: &[u8], pos: usize) -> (r: Vec<u8>)
    requires
        pos <= d@.len(),
    ensures
        r@ == d@.skip(pos as int),
{
    let v = copy_range(d, pos, d.len());
    proof {
        assert(d@.skip(pos as int) =~= d@.subrange(pos as int, d@.len() as int));
    }
    v
}

/// Relies on `String::from_utf8`: it accepts exactly the valid UTF-8 byte sequences and
/// keeps their characters.
#[verifier::external_body]
fn string_from_utf8(b: Vec<u8>) -> (r: Option<String>)
    ensures
        r is Some <==> valid_utf8(b@),
        r is Some ==> r->Some_0@ == decode_utf8(b@),
{
    String::from_utf8(b).ok()
}

/// Reads a VarInt-prefixed UTF-8 string of at most `max` bytes. The declared length is
/// checked against `max` before any buffer is allocated.
pub fn read_string(d: &[u8], pos: usize, max: u16) -> (r: Result<(String, usize), DecodeError>)
    requires
        pos <= d@.len(),
    ensures
        match parse_string(d@.skip(pos as int), max) {
            Ok((s, n)) => r is Ok && r->Ok_0.0@ == s && r->Ok_0.1 == pos + n,
            Err(e) => r == Err::<(String, usize), DecodeError>(e),
        },
        r is Ok ==> r->Ok_0.1 <= d@.len(),
{
    let len: usize = d.len();
    let (n, p) = match read_var_i32(d, pos) {
        Ok(v) => v,
        Err(e) => return Err(e),
    };
    if n < 0 || n > max as i32 {
        return Err(DecodeError::StringTooLong { length: n as usize, max_length: max });
    }
    if len - p < n as usize {
        return Err(DecodeError::UnexpectedEof);
    }
    let end: usize = p + n as usize;
    let bytes = copy_range(d, p, end);
    proof {
        assert(d@.skip(pos as int).subrange(p - pos, p - pos + n) =~= d@.subrange(
            p as int,
            end as int,
        ));
    }
    match string_from_utf8(bytes) {
        Some(s) => Ok((s, end)),
        None => Err(DecodeError::Utf8Error),
    }
}

/// Relies on `uuid::Uuid::parse_str` for the reading of a UUID text, and on
/// `Uuid::as_u128` for its big-endian number.
#[verifier::external_body]
fn parse_uuid_text(s: &str) -> (r: Option<u128>)
    ensures
        r == uuid_text_value(s@),
{
    uuid::Uuid::parse_str(s).ok().map(|u| u.as_u128())
}

/// The hyphenated text of a UUID.
pub fn uuid_text_of(v: u128) -> (r: String)
    ensures
        r@ == uuid_hyphenated(v),
{
    let mut out = String::new();
    push_hex(&mut out, v / 0x1_0000_0000_0000_0000_0000_0000, 8);
    out.append("-");
    push_hex(&mut out, v / 0x1_0000_0000_0000_0000_0000 % 0x1_0000, 4);
    out.append("-");
    push_hex(&mut out, v / 0x1_0000_0000_0000_0000 % 0x1_0000, 4);
    out.append("-");
    push_hex(&mut out, v / 0x1_0000_0000_0000 % 0x1_0000, 4);
    out.append("-");
    push_hex(&mut out, v % 0x1_0000_0000_0000, 12);
    proof {
        assert(out@ =~= uuid_hyphenated(v));
    }
    out
}

/// Reads a UUID carried as hyphenated text in a string of at most 36 bytes.
pub fn read_uuid_text(d: &[u8], pos: usize) -> (r: Result<(u128, usize), DecodeError>)
    requires
        pos <= d@.len(),
    ensures
        match parse_string(d@.skip(pos as int), UUID_TEXT_MAX) {
            Ok((s, n)) => match uuid_text_value(s) {
                Some(v) => r == Ok::<(u128, usize), DecodeError>((v, (pos + n) as usize)),
                None => r == Err::<(u128, usize), DecodeError>(DecodeError::UuidParseError),
            },
            Err(e) => r == Err::<(u128, usize), DecodeError>(e),
        },
        r is Ok ==> r->Ok_0.1 <= d@.len(),
{
    let (s, p) = match read_string(d, pos, UUID_TEXT_MAX) {
        Ok(v) => v,
        Err(e) => return Err(e),
    };
    match parse_uuid_text(s.as_str()) {
        Some(v) => Ok((v, p)),
        None => Err(DecodeError::UuidParseError),
    }
}

/// Appends one byte.
pub fn write_u8(v: u8, out: &mut Vec<u8>)
    ensures
        final(out)@ == old(out)@.push(v),
{
    out.push(v);
}

/// Appends a big-endian `u16`.
pub fn write_u16(v: u16, out: &mut Vec<u8>)
    ensures
        final(out)@ == old(out)@ + be_bytes(v as nat, 2),
{
    write_be(v as u128, 2, out);
}

/// Appends a big-endian `u32`.
pub fn write_u32(v: u32, out: &mut Vec<u8>)
    ensures
        final(out)@ == old(out)@ + be_bytes(v as nat, 4),
{
    write_be(v as u128, 4, out);
}

/// Appends a big-endian `u64`.
pub fn write_u64(v: u64, out: &mut Vec<u8>)
    ensures
        final(out)@ == old(out)@ + be_bytes(v as nat, 8),
{
    write_be(v as u128, 8, out);
}

/// Appends a UUID as 16 raw big-endian bytes.
pub fn write_uuid(v: u128, out: &mut Vec<u8>)
    ensures
        final(out)@ == old(out)@ + be_bytes(v as nat, 16),
{
    write_be(v, 16, out);
}

/// Appends a boolean as the byte 0 or 1.
pub fn write_bool(v: bool, out: &mut Vec<u8>)
    ensures
        final(out)@ == old(out)@.push(if v { 1u8 } else { 0u8 }),
{
    out.push(if v { 1u8 } else { 0u8 });
}

/// Appends a string field of at most `max` bytes; a longer string is refused and
/// nothing is written.
pub fn write_string(s: &str, max: u16, out: &mut Vec<u8>) -> (r: Result<(), EncodeError>)
    ensures
        encode_utf8(s@).len() <= max ==> r is Ok && final(out)@ == old(out)@ + string_bytes(s@),
        encode_utf8(s@).len() > max ==> r == Err::<(), EncodeError>(
            EncodeError::StringTooLong { length: encode_utf8(s@).len() as usize, max_length: max },
        ) && final(out)@ == old(out)@,
{
    let bytes = s.as_bytes();
    let n: usize = bytes.len();
    if n > max as usize {
        return Err(EncodeError::StringTooLong { length: n, max_length: max });
    }
    write_var_i32(n as i32, out);
    append_bytes(out, bytes);
    proof {
        assert(final(out)@ =~= old(out)@ + string_bytes(s@));
    }
    Ok(())
}

/// Appends a VarInt-prefixed byte array; one whose length does not fit an `i32` is
/// refused and nothing is written.
pub fn write_byte_array(b: &[u8], out: &mut Vec<u8>) -> (r: Result<(), EncodeError>)
    ensures
        b@.len() <= i32::MAX ==> r is Ok && final(out)@ == old(out)@ + byte_array_bytes(b@),
        b@.len() > i32::MAX ==> r == Err::<(), EncodeError>(EncodeError::TooLarge)
            && final(out)@ == old(out)@,
{
    let n: usize = b.len();
    if n > i32::MAX as usize {
        return Err(EncodeError::TooLarge);
    }
    write_var_i32(n as i32, out);
    append_bytes(out, b);
    proof {
        assert(final(out)@ =~= old(out)@ + byte_array_bytes(b@));
    }
    Ok(())
}

/// Appends a UUID as hyphenated text, itself a string field.
pub fn write_uuid_text(v: u128, out: &mut Vec<u8>)
    ensures
        final(out)@ == old(out)@ + string_bytes(uuid_hyphenated(v)),
{
    let s = uuid_text_of(v);
    proof {
        lemma_uuid_text_ascii(v);
        vstd::utf8::is_ascii_chars_encode_utf8(s@);
    }
    let r = write_string(s.as_str(), UUID_TEXT_MAX, out);
}

proof fn lemma_hex_chars_ascii(v: nat, k: nat)
    ensures
        hex_chars(v, k).len() == k,
        vstd::utf8::is_ascii_chars(hex_chars(v, k)),
    decreases k,
{
    if k > 0 {
        lemma_hex_chars_ascii(v / 16, (k - 1) as nat);
        let h = hex_chars(v, k);
        assert forall|i: int| 0 <= i < h.len() implies '\0' <= #[trigger] h[i] <= '\u{7f}' by {
            if i < k - 1 {
                assert(h[i] == hex_chars(v / 16, (k - 1) as nat)[i]);
            }
        }
    }
}

/// The hyphenated text of a UUID is 36 ASCII characters.
proof fn lemma_uuid_text_ascii(v: u128)
    ensures
        uuid_hyphenated(v).len() == 36,
        vstd::utf8::is_ascii_chars(uuid_hyphenated(v)),
{
    let n = v as nat;
    lemma_hex_chars_ascii(n / 0x1_0000_0000_0000_0000_0000_0000, 8);
    lemma_hex_chars_ascii(n / 0x1_0000_0000_0000_0000_0000 % 0x1_0000, 4);
    lemma_hex_chars_ascii(n / 0x1_0000_0000_0000_0000 % 0x1_0000, 4);
    lemma_hex_chars_ascii(n / 0x1_0000_0000_0000 % 0x1_0000, 4);
    lemma_hex_chars_ascii(n % 0x1_0000_0000_0000, 12);
    reveal_strlit("-");
    let u = uuid_hyphenated(v);
    assert forall|i: int| 0 <= i < u.len() implies '\0' <= #[trigger] u[i] <= '\u{7f}' by {
        vstd::utf8::is_ascii_chars_concat(u, u.take(i + 1), u.skip(i + 1));
    }
}

pub proof fn lemma_be_bytes_len(v: nat, k: nat)
    ensures
        be_bytes(v, k).len() == k,
    decreases k,
{
    if k > 0 {
        lemma_be_bytes_len(v / 256, (k - 1) as nat);
    }
}

proof fn lemma_be_value_bytes(v: nat, k: nat)
    ensures
        be_value(be_bytes(v, k)) == v % pow256(k),
    decreases k,
{
    if k == 0 {
        assert(v % 1 == 0);
    } else {
        let b = be_bytes(v, k);
        lemma_be_value_bytes(v / 256, (k - 1) as nat);
        lemma_be_bytes_len(v / 256, (k - 1) as nat);
        assert(b.drop_last() =~= be_bytes(v / 256, (k - 1) as nat));
        let p = pow256((k - 1) as nat);
        lemma_pow256_pos((k - 1) as nat);
        assert(((v / 256) % p) * 256 + v % 256 == v % (256 * p)) by (nonlinear_arith)
            requires
                p >= 1,
        {
            vstd::arithmetic::div_mod::lemma_breakdown(v as int, 256, p as int);
        }
    }
}

/// Fixed-width round trip: `k` big-endian bytes read back as the value, modulo 256^k.
pub proof fn lemma_be_round_trip(v: nat, k: nat, rest: Seq<u8>)
    ensures
        parse_be(be_bytes(v, k) + rest, k) == Ok::<(nat, nat), DecodeError>((v % pow256(k), k)),
{
    lemma_be_bytes_len(v, k);
    lemma_be_value_bytes(v, k);
    assert((be_bytes(v, k) + rest).take(k as int) =~= be_bytes(v, k));
}

/// String round trip: a string that fits its field reads back as itself.
pub proof fn lemma_string_round_trip(s: Seq<char>, max: u16, rest: Seq<u8>)
    requires
        encode_utf8(s).len() <= max,
    ensures
        parse_string(string_bytes(s) + rest, max) == Ok::<(Seq<char>, nat), DecodeError>(
            (s, string_bytes(s).len()),
        ),
{
    let b = encode_utf8(s);
    let n = b.len() as i32;
    let h = var_i32_bytes(n);
    crate::varint::lemma_var_i32_round_trip(n, b + rest);
    assert(string_bytes(s) + rest =~= h + (b + rest));
    assert((string_bytes(s) + rest).subrange(h.len() as int, h.len() + n) =~= b);
}

/// Byte array round trip: a byte array whose length fits an `i32` reads back as itself.
pub proof fn lemma_byte_array_round_trip(b: Seq<u8>, rest: Seq<u8>)
    requires
        b.len() <= i32::MAX,
    ensures
        parse_byte_array(byte_array_bytes(b) + rest) == Ok::<(Seq<u8>, nat), DecodeError>(
            (b, byte_array_bytes(b).len()),
        ),
{
    let n = b.len() as i32;
    let h = var_i32_bytes(n);
    crate::varint::lemma_var_i32_round_trip(n, b + rest);
    assert(byte_array_bytes(b) + rest =~= h + (b + rest));
    assert((byte_array_bytes(b) + rest).subrange(h.len() as int, h.len() + n) =~= b);
}

} // verus!
