//! Framing of packets on the wire: length prefix, optional zlib compression above a
//! size threshold, optional AES-128 CFB8 encryption of the whole stream.
use crate::error::{DecodeError, EncodeError};
use crate::fields::{append_bytes, copy_range};
use crate::varint::{parse_var_i32, read_var_i32, var_i32_bytes, var_len_size, write_var_i32};
use cfb8::cipher::{AsyncStreamCipher, KeyIvInit};
use std::io::Read;
use vstd::prelude::*;

verus! {

/// A 16-byte AES key; the protocol also uses it as the initial CFB8 register.
pub type CryptKey = [u8; 16];

/// What `flate2`'s zlib encoder makes of `data` at the default level; `None` where it
/// fails.
pub uninterp spec fn zlib_compressed(data: Seq<u8>) -> Option<Seq<u8>>;

/// What `flate2`'s zlib decoder makes of `data`; `None` where it is no valid stream.
pub uninterp spec fn zlib_inflated(data: Seq<u8>) -> Option<Seq<u8>>;

/// AES-128 CFB8 encryption of `data` under `key`, starting from the register `iv`.
pub uninterp spec fn cfb8_encrypted(key: Seq<u8>, iv: Seq<u8>, data: Seq<u8>) -> Seq<u8>;

/// AES-128 CFB8 decryption of `data` under `key`, starting from the register `iv`.
pub uninterp spec fn cfb8_decrypted(key: Seq<u8>, iv: Seq<u8>, data: Seq<u8>) -> Seq<u8>;

/// Relies on `flate2::read::ZlibEncoder` at the default level, read to the end; a zlib
/// decoder restores the input from its output.
#[verifier::external_body]
fn zlib_compress(data: &[u8]) -> (r: Option<Vec<u8>>)
    ensures
        match zlib_compressed(data@) {
            Some(z) => r matches Some(v) && v@ == z,
            None => r is None,
        },
        r matches Some(v) ==> zlib_inflated(v@) == Some(data@),
{
    let mut out = Vec::new();
    flate2::read::ZlibEncoder::new(data, flate2::Compression::default())
        .read_to_end(&mut out)
        .ok()
        .map(|_| out)
}

/// Relies on `flate2::read::ZlibDecoder`, read to the end.
#[verifier::external_body]
fn zlib_inflate(data: &[u8]) -> (r: Option<Vec<u8>>)
    ensures
        match zlib_inflated(data@) {
            Some(b) => r matches Some(v) && v@ == b,
            None => r is None,
        },
{
    let mut out = Vec::new();
    flate2::read::ZlibDecoder::new(data).read_to_end(&mut out).ok().map(|_| out)
}

/// Relies on `cfb8::Encryptor<aes::Aes128>` from `key` and the register `iv`, applied in
/// place: the length is kept, and a decryptor from the same key and register restores
/// the input.
#[verifier::external_body]
fn cfb8_encrypt(key: &CryptKey, iv: &[u8], data: &mut Vec<u8>)
    requires
        iv@.len() == 16,
    ensures
        final(data)@ == cfb8_encrypted(key@, iv@, old(data)@),
        final(data)@.len() == old(data)@.len(),
        cfb8_decrypted(key@, iv@, final(data)@) == old(data)@,
{
    cfb8::Encryptor::<aes::Aes128>::new(
        cfb8::cipher::generic_array::GenericArray::from_slice(key),
        cfb8::cipher::generic_array::GenericArray::from_slice(iv),
    ).encrypt(data.as_mut_slice())
}

/// Relies on `cfb8::Decryptor<aes::Aes128>` from `key` and the register `iv`, applied in
/// place: the length is kept.
#[verifier::external_body]
fn cfb8_decrypt(key: &CryptKey, iv: &[u8], data: &mut Vec<u8>)
    requires
        iv@.len() == 16,
    ensures
        final(data)@ == cfb8_decrypted(key@, iv@, old(data)@),
        final(data)@.len() == old(data)@.len(),
{
    cfb8::Decryptor::<aes::Aes128>::new(
        cfb8::cipher::generic_array::GenericArray::from_slice(key),
        cfb8::cipher::generic_array::GenericArray::from_slice(iv),
    ).decrypt(data.as_mut_slice())
}

/// The CFB8 register after `ct` went through it: the last 16 bytes of the old register
/// followed by the ciphertext.
pub open spec fn next_register(iv: Seq<u8>, ct: Seq<u8>) -> Seq<u8> {
    (iv + ct).subrange((iv + ct).len() - 16, (iv + ct).len() as int)
}

/// Outcome of looking for a frame at the start of the receive buffer.
pub enum FrameScan {
    /// More bytes are needed.
    Incomplete,
    /// The length prefix itself is malformed.
    Bad(DecodeError),
    /// A whole frame is there; its payload is `r[start..end]`.
    Whole { start: nat, end: nat },
}

/// Looks for a frame at the start of `r`.
pub open spec fn frame_scan(r: Seq<u8>) -> FrameScan {
    match parse_var_i32(r) {
        Err(DecodeError::UnexpectedEof) => FrameScan::Incomplete,
        Err(e) => FrameScan::Bad(e),
        Ok((l, h)) => if l < 0 {
            FrameScan::Bad(DecodeError::InvalidPacketLength)
        } else if r.len() < h + l {
            FrameScan::Incomplete
        } else {
            FrameScan::Whole { start: h, end: h + l as nat }
        },
    }
}

/// The packet bytes inside a frame payload: the payload itself without compression;
/// with compression, after the declared uncompressed length, either the raw bytes
/// (declared length 0) or the inflated stream, which must have the declared length.
pub open spec fn unpack_payload(p: Seq<u8>, compressed: bool) -> Result<Seq<u8>, DecodeError> {
    if !compressed {
        Ok(p)
    } else {
        match parse_var_i32(p) {
            Err(e) => Err(e),
            Ok((dl, k)) => if dl == 0 {
                Ok(p.skip(k as int))
            } else if dl < 0 {
                Err(DecodeError::InvalidPacketLength)
            } else {
                match zlib_inflated(p.skip(k as int)) {
                    None => Err(DecodeError::IOError),
                    Some(b) => if b.len() == dl {
                        Ok(b)
                    } else {
                        Err(DecodeError::InvalidPacketLength)
                    },
                }
            },
        }
    }
}

/// The frame of packet bytes `body` under a compression threshold, or `None` where a
/// length does not fit its VarInt or the compressor fails.
pub open spec fn frame_bytes(threshold: Option<usize>, body: Seq<u8>) -> Option<Seq<u8>> {
    match threshold {
        None => if body.len() <= i32::MAX {
            Some(var_i32_bytes(body.len() as i32) + body)
        } else {
            None
        },
        Some(t) => if body.len() < t {
            if body.len() + 1 <= i32::MAX {
                Some(var_i32_bytes((body.len() + 1) as i32) + seq![0u8] + body)
            } else {
                None
            }
        } else {
            match zlib_compressed(body) {
                None => None,
                Some(z) => if body.len() <= i32::MAX && z.len() + var_i32_bytes(
                    body.len() as i32,
                ).len() <= i32::MAX {
                    Some(
                        var_i32_bytes((z.len() + var_i32_bytes(body.len() as i32).len()) as i32)
                            + var_i32_bytes(body.len() as i32) + z,
                    )
                } else {
                    None
                }
            }
        },
    }
}

/// One direction's framing state: the key and the two CFB8 registers when encryption
/// is on, the compression threshold when compression is on, and the received bytes
/// (already decrypted) that no frame has consumed yet.
pub struct MinecraftCodec {
    crypt_key: Option<CryptKey>,
    encrypt_register: Vec<u8>,
    decrypt_register: Vec<u8>,
    compression: Option<usize>,
    received_buf: Vec<u8>,
}

impl MinecraftCodec {
    /// Both registers hold 16 bytes.
    pub closed spec fn wf(&self) -> bool {
        self.encrypt_register@.len() == 16 && self.decrypt_register@.len() == 16
    }

    /// The received bytes that no frame has consumed yet, decrypted.
    pub closed spec fn received(&self) -> Seq<u8> {
        self.received_buf@
    }

    /// The compression threshold, if compression is on.
    pub closed spec fn threshold(&self) -> Option<usize> {
        self.compression
    }

    /// The key, if encryption is on.
    pub closed spec fn key(&self) -> Option<Seq<u8>> {
        match self.crypt_key {
            Some(k) => Some(k@),
            None => None,
        }
    }

    /// The CFB8 register of the sending side.
    pub closed spec fn encrypt_iv(&self) -> Seq<u8> {
        self.encrypt_register@
    }

    /// The CFB8 register of the receiving side.
    pub closed spec fn decrypt_iv(&self) -> Seq<u8> {
        self.decrypt_register@
    }

    /// A codec with no compression, no encryption and nothing received.
    pub fn new() -> (r: MinecraftCodec)
        ensures
            r.wf(),
            r.received() == Seq::<u8>::empty(),
            r.threshold() is None,
            r.key() is None,
    {
        MinecraftCodec {
            crypt_key: None,
            encrypt_register: zero_register(),
            decrypt_register: zero_register(),
            compression: None,
            received_buf: Vec::new(),
        }
    }

    /// Turns encryption on with `key`, which is also the first register of both
    /// directions.
    pub fn enable_encryption(&mut self, key: CryptKey)
        ensures
            final(self).wf(),
            final(self).key() == Some(key@),
            final(self).encrypt_iv() == key@,
            final(self).decrypt_iv() == key@,
            final(self).threshold() == old(self).threshold(),
            final(self).received() == old(self).received(),
    {
        self.crypt_key = Some(key);
        self.encrypt_register = key_register(&key);
        self.decrypt_register = key_register(&key);
    }

    /// Turns compression on for packets of at least `threshold` bytes.
    pub fn enable_compression(&mut self, threshold: usize)
        requires
            old(self).wf(),
        ensures
            final(self).wf(),
            final(self).threshold() == Some(threshold),
            final(self).key() == old(self).key(),
            final(self).encrypt_iv() == old(self).encrypt_iv(),
            final(self).decrypt_iv() == old(self).decrypt_iv(),
            final(self).received() == old(self).received(),
    {
        self.compression = Some(threshold);
    }

    /// A codec with the same key, registers and threshold, and nothing received.
    pub fn clone_with_settings(&self) -> (r: MinecraftCodec)
        requires
            self.wf(),
        ensures
            r.wf(),
            r.key() == self.key(),
            r.threshold() == self.threshold(),
            r.encrypt_iv() == self.encrypt_iv(),
            r.decrypt_iv() == self.decrypt_iv(),
            r.received() == Seq::<u8>::empty(),
    {
        MinecraftCodec {
            crypt_key: self.crypt_key,
            encrypt_register: copy_range(self.encrypt_register.as_slice(), 0, 16),
            decrypt_register: copy_range(self.decrypt_register.as_slice(), 0, 16),
            compression: self.compression,
            received_buf: Vec::new(),
        }
    }

    /// Takes in bytes from the wire; with encryption on they are decrypted, and the
    /// receiving register moves past them.
    pub fn accept(&mut self, bytes: &[u8])
        requires
            old(self).wf(),
        ensures
            final(self).wf(),
            final(self).key() == old(self).key(),
            final(self).threshold() == old(self).threshold(),
            final(self).encrypt_iv() == old(self).encrypt_iv(),
            match old(self).key() {
                None => final(self).received() == old(self).received() + bytes@
                    && final(self).decrypt_iv() == old(self).decrypt_iv(),
                Some(k) => final(self).received() == old(self).received() + cfb8_decrypted(
                    k,
                    old(self).decrypt_iv(),
                    bytes@,
                ) && final(self).decrypt_iv() == next_register(old(self).decrypt_iv(), bytes@),
            },
    {
        match &self.crypt_key {
            None => append_bytes(&mut self.received_buf, bytes),
            Some(key) => {
                let mut plain = copy_range(bytes, 0, bytes.len());
                proof {
                    assert(bytes@.subrange(0, bytes@.len() as int) =~= bytes@);
                }
                cfb8_decrypt(key, self.decrypt_register.as_slice(), &mut plain);
                let next = advance_register(&self.decrypt_register, bytes);
                append_bytes(&mut self.received_buf, plain.as_slice());
                self.decrypt_register = next;
            },
        }
    }

    /// Takes the next whole frame off the receive buffer and gives its packet bytes.
    /// With too few bytes it gives `None` and leaves the buffer as it was; a malformed
    /// length prefix is an error that leaves it too. Once a whole frame is there it is
    /// consumed, whether or not its payload unpacks.
    pub fn next_packet(&mut self) -> (r: Result<Option<Vec<u8>>, DecodeError>)
        requires
            old(self).wf(),
        ensures
            final(self).wf(),
            final(self).key() == old(self).key(),
            final(self).threshold() == old(self).threshold(),
            final(self).encrypt_iv() == old(self).encrypt_iv(),
            final(self).decrypt_iv() == old(self).decrypt_iv(),
            match frame_scan(old(self).received()) {
                FrameScan::Incomplete => r == Ok::<Option<Vec<u8>>, DecodeError>(None)
                    && final(self).received() == old(self).received(),
                FrameScan::Bad(e) => r == Err::<Option<Vec<u8>>, DecodeError>(e)
                    && final(self).received() == old(self).received(),
                FrameScan::Whole { start, end } => final(self).received() == old(
                    self,
                ).received().skip(end as int) && match unpack_payload(
                    old(self).received().subrange(start as int, end as int),
                    old(self).threshold() is Some,
                ) {
                    Ok(b) => r matches Ok(Some(v)) && v@ == b,
                    Err(e) => r == Err::<Option<Vec<u8>>, DecodeError>(e),
                },
            },
    {
        let len: usize = self.received_buf.len();
        proof {
            assert(self.received_buf@.skip(0) =~= self.received_buf@);
        }
        let (l, h) = match read_var_i32(self.received_buf.as_slice(), 0) {
            Ok(v) => v,
            Err(DecodeError::UnexpectedEof) => return Ok(None),
            Err(e) => return Err(e),
        };
        if l < 0 {
            return Err(DecodeError::InvalidPacketLength);
        }
        if len - h < l as usize {
            return Ok(None);
        }
        let end: usize = h + l as usize;
        let payload = copy_range(self.received_buf.as_slice(), h, end);
        let rest = copy_range(self.received_buf.as_slice(), end, len);
        proof {
            assert(rest@ =~= self.received_buf@.skip(end as int));
        }
        self.received_buf = rest;
        let unpacked = match self.compression {
            None => Ok(payload),
            Some(_) => unpack_compressed(&payload),
        };
        match unpacked {
            Ok(b) => Ok(Some(b)),
            Err(e) => Err(e),
        }
    }

    /// Frames the packet bytes `packet` and appends the frame to `out`, encrypted when
    /// encryption is on (the sending register then moves past the ciphertext). Refused,
    /// with nothing written, where a length does not fit its VarInt or the compressor
    /// fails.
    pub fn encode(&mut self, packet: &[u8], out: &mut Vec<u8>) -> (r: Result<(), EncodeError>)
        requires
            old(self).wf(),
        ensures
            final(self).wf(),
            final(self).key() == old(self).key(),
            final(self).threshold() == old(self).threshold(),
            final(self).decrypt_iv() == old(self).decrypt_iv(),
            final(self).received() == old(self).received(),
            match frame_bytes(old(self).threshold(), packet@) {
                None => r is Err && final(out)@ == old(out)@ && final(self).encrypt_iv() == old(
                    self,
                ).encrypt_iv(),
                Some(f) => r is Ok && match old(self).key() {
                    None => final(out)@ == old(out)@ + f && final(self).encrypt_iv() == old(
                        self,
                    ).encrypt_iv(),
                    Some(k) => final(out)@ == old(out)@ + cfb8_encrypted(
                        k,
                        old(self).encrypt_iv(),
                        f,
                    ) && cfb8_decrypted(k, old(self).encrypt_iv(), cfb8_encrypted(
                        k,
                        old(self).encrypt_iv(),
                        f,
                    )) == f && final(self).encrypt_iv() == next_register(
                        old(self).encrypt_iv(),
                        cfb8_encrypted(k, old(self).encrypt_iv(), f),
                    ),
                },
            },
            (r is Ok && old(self).threshold() is Some && packet@.len() >= old(
                self,
            ).threshold()->Some_0) ==> zlib_inflated(zlib_compressed(packet@)->Some_0) == Some(
                packet@,
            ),
    {
        let mut frame = match frame_of(self.compression, packet) {
            Ok(f) => f,
            Err(e) => return Err(e),
        };
        match &self.crypt_key {
            None => {},
            Some(key) => {
                cfb8_encrypt(key, self.encrypt_register.as_slice(), &mut frame);
                let next = advance_register(&self.encrypt_register, frame.as_slice());
                self.encrypt_register = next;
            },
        }
        append_bytes(out, frame.as_slice());
        Ok(())
    }
}

/// A register of 16 zero bytes, for a codec without key.
fn zero_register() -> (r: Vec<u8>)
    ensures
        r@.len() == 16,
{
    let mut r: Vec<u8> = Vec::new();
    let mut i: usize = 0;
    while i < 16
        invariant
            i <= 16,
            r@.len() == i,
        decreases 16 - i,
    {
        r.push(0u8);
        i = i + 1;
    }
    r
}

/// The key's bytes as the first register.
fn key_register(key: &CryptKey) -> (r: Vec<u8>)
    ensures
        r@ == key@,
{
    let k: &[u8] = key.as_slice();
    let r = copy_range(k, 0, 16);
    proof {
        assert(key@.subrange(0, 16) =~= key@);
    }
    r
}

/// The register after `ct` went through it.
fn advance_register(iv: &Vec<u8>, ct: &[u8]) -> (r: Vec<u8>)
    requires
        iv@.len() == 16,
    ensures
        r@ == next_register(iv@, ct@),
        r@.len() == 16,
{
    let mut joined: Vec<u8> = Vec::new();
    append_bytes(&mut joined, iv.as_slice());
    append_bytes(&mut joined, ct);
    let n: usize = joined.len();
    let r = copy_range(joined.as_slice(), n - 16, n);
    proof {
        assert(joined@ =~= iv@ + ct@);
    }
    r
}

/// Unpacks a compressed frame's payload.
fn unpack_compressed(p: &Vec<u8>) -> (r: Result<Vec<u8>, DecodeError>)
    ensures
        match unpack_payload(p@, true) {
            Ok(b) => r matches Ok(v) && v@ == b,
            Err(e) => r == Err::<Vec<u8>, DecodeError>(e),
        },
{
    let len: usize = p.len();
    proof {
        assert(p@.skip(0) =~= p@);
    }
    let (dl, k) = match read_var_i32(p.as_slice(), 0) {
        Ok(v) => v,
        Err(e) => return Err(e),
    };
    let rest = copy_range(p.as_slice(), k, len);
    proof {
        assert(rest@ =~= p@.skip(k as int));
    }
    if dl == 0 {
        return Ok(rest);
    }
    if dl < 0 {
        return Err(DecodeError::InvalidPacketLength);
    }
    match zlib_inflate(rest.as_slice()) {
        None => Err(DecodeError::IOError),
        Some(b) => if b.len() == dl as usize {
            Ok(b)
        } else {
            Err(DecodeError::InvalidPacketLength)
        },
    }
}

/// Builds the frame of `body` under a compression threshold.
fn frame_of(threshold: Option<usize>, body: &[u8]) -> (r: Result<Vec<u8>, EncodeError>)
    ensures
        match frame_bytes(threshold, body@) {
            Some(f) => r matches Ok(v) && v@ == f,
            None => r is Err,
        },
        (r is Ok && threshold is Some && body@.len() >= threshold->Some_0) ==> zlib_inflated(
            zlib_compressed(body@)->Some_0,
        ) == Some(body@),
{
    let n: usize = body.len();
    let mut out: Vec<u8> = Vec::new();
    match threshold {
        None => {
            if n > i32::MAX as usize {
                return Err(EncodeError::TooLarge);
            }
            write_var_i32(n as i32, &mut out);
            append_bytes(&mut out, body);
        },
        Some(t) => {
            if n < t {
                if n >= i32::MAX as usize {
                    return Err(EncodeError::TooLarge);
                }
                write_var_i32((n + 1) as i32, &mut out);
                out.push(0u8);
                append_bytes(&mut out, body);
                proof {
                    assert(out@ =~= var_i32_bytes((body@.len() + 1) as i32) + seq![0u8] + body@);
                }
            } else {
                let z = match zlib_compress(body) {
                    Some(z) => z,
                    None => return Err(EncodeError::IOError),
                };
                if n > i32::MAX as usize {
                    return Err(EncodeError::TooLarge);
                }
                let dl_size = var_len_size(n);
                if z.len() > i32::MAX as usize - dl_size {
                    return Err(EncodeError::TooLarge);
                }
                write_var_i32((z.len() + dl_size) as i32, &mut out);
                write_var_i32(n as i32, &mut out);
                append_bytes(&mut out, z.as_slice());
            }
        },
    }
    Ok(out)
}

/// A length prefix followed by exactly that many bytes is one whole frame, whatever
/// follows it; every proper prefix of it is incomplete.
pub proof fn lemma_frame_scan_prefixed(payload: Seq<u8>, rest: Seq<u8>)
    requires
        payload.len() <= i32::MAX,
    ensures
        frame_scan(var_i32_bytes(payload.len() as i32) + payload + rest) == (FrameScan::Whole {
            start: var_i32_bytes(payload.len() as i32).len(),
            end: var_i32_bytes(payload.len() as i32).len() + payload.len(),
        }),
        forall|k: nat|
            k < (var_i32_bytes(payload.len() as i32) + payload).len() ==> #[trigger] frame_scan(
                (var_i32_bytes(payload.len() as i32) + payload).take(k as int),
            ) == FrameScan::Incomplete,
{
    let l = payload.len() as i32;
    let h = var_i32_bytes(l);
    let f = h + payload;
    crate::varint::lemma_var_i32_round_trip(l, payload + rest);
    assert(f + rest =~= h + (payload + rest));
    assert forall|k: nat| k < f.len() implies #[trigger] frame_scan(f.take(k as int))
        == FrameScan::Incomplete by {
        if k < h.len() {
            assert(f.take(k as int) =~= h.take(k as int));
            crate::varint::lemma_var_i32_truncated(l, k);
        } else {
            crate::varint::lemma_var_i32_round_trip(l, payload.take(k - h.len()));
            assert(f.take(k as int) =~= h + payload.take(k - h.len()));
        }
    }
}

/// Framing round trip without compression: the scan of a frame finds its packet bytes
/// exactly, and taking the frame off leaves what followed it.
pub proof fn lemma_frame_round_trip(body: Seq<u8>, rest: Seq<u8>)
    requires
        body.len() <= i32::MAX,
    ensures
        frame_bytes(None, body) matches Some(f) && frame_scan(f + rest) matches FrameScan::Whole {
            start,
            end,
        } && end == f.len() && unpack_payload((f + rest).subrange(start as int, end as int), false)
            == Ok::<Seq<u8>, DecodeError>(body) && (f + rest).skip(end as int) == rest,
{
    lemma_frame_scan_prefixed(body, rest);
    let f = var_i32_bytes(body.len() as i32) + body;
    assert((f + rest).subrange(var_i32_bytes(body.len() as i32).len() as int, f.len() as int)
        =~= body);
    assert((f + rest).skip(f.len() as int) =~= rest);
}

/// A frame cut short is incomplete under every threshold: the codec waits for the rest.
pub proof fn lemma_partial_frame(threshold: Option<usize>, body: Seq<u8>, k: nat)
    requires
        frame_bytes(threshold, body) matches Some(f) && k < f.len(),
    ensures
        frame_bytes(threshold, body) matches Some(f) && frame_scan(f.take(k as int))
            == FrameScan::Incomplete,
{
    match threshold {
        None => {
            lemma_frame_scan_prefixed(body, Seq::empty());
        },
        Some(t) => {
            if body.len() < t {
                let p = seq![0u8] + body;
                lemma_frame_scan_prefixed(p, Seq::empty());
                assert(var_i32_bytes((body.len() + 1) as i32) + seq![0u8] + body =~= var_i32_bytes(
                    p.len() as i32,
                ) + p);
            } else {
                let z = zlib_compressed(body)->Some_0;
                let p = var_i32_bytes(body.len() as i32) + z;
                lemma_frame_scan_prefixed(p, Seq::empty());
                assert(var_i32_bytes((z.len() + var_i32_bytes(body.len() as i32).len()) as i32)
                    + var_i32_bytes(body.len() as i32) + z =~= var_i32_bytes(p.len() as i32) + p);
            }
        },
    }
}

proof fn lemma_compressed_small(t: usize, body: Seq<u8>, rest: Seq<u8>)
    requires
        frame_bytes(Some(t), body) is Some,
        body.len() < t,
    ensures
        frame_bytes(Some(t), body) matches Some(f) && frame_scan(f + rest) matches FrameScan::Whole {
            start,
            end,
        } && end == f.len() && unpack_payload((f + rest).subrange(start as int, end as int), true)
            == Ok::<Seq<u8>, DecodeError>(body) && (f + rest).skip(end as int) == rest,
{
    let p = seq![0u8] + body;
    lemma_frame_scan_prefixed(p, rest);
    let f = var_i32_bytes(p.len() as i32) + p;
    assert(var_i32_bytes((body.len() + 1) as i32) + seq![0u8] + body =~= f);
    assert((f + rest).subrange(var_i32_bytes(p.len() as i32).len() as int, f.len() as int) =~= p);
    assert((f + rest).skip(f.len() as int) =~= rest);
    crate::varint::lemma_var_i32_round_trip(0, body);
    assert(var_i32_bytes(0) == seq![0u8]);
    assert(p.skip(1) =~= body);
}

proof fn lemma_compressed_large(t: usize, body: Seq<u8>, rest: Seq<u8>)
    requires
        frame_bytes(Some(t), body) is Some,
        body.len() >= t,
        body.len() >= 1,
        zlib_inflated(zlib_compressed(body)->Some_0) == Some(body),
    ensures
        frame_bytes(Some(t), body) matches Some(f) && frame_scan(f + rest) matches FrameScan::Whole {
            start,
            end,
        } && end == f.len() && unpack_payload((f + rest).subrange(start as int, end as int), true)
            == Ok::<Seq<u8>, DecodeError>(body) && (f + rest).skip(end as int) == rest,
{
    let n = body.len() as i32;
    let z = zlib_compressed(body)->Some_0;
    let p = var_i32_bytes(n) + z;
    lemma_frame_scan_prefixed(p, rest);
    let f = var_i32_bytes(p.len() as i32) + p;
    assert(var_i32_bytes((z.len() + var_i32_bytes(n).len()) as i32) + var_i32_bytes(n) + z =~= f);
    assert((f + rest).subrange(var_i32_bytes(p.len() as i32).len() as int, f.len() as int) =~= p);
    assert((f + rest).skip(f.len() as int) =~= rest);
    crate::varint::lemma_var_i32_round_trip(n, z);
    assert(p.skip(var_i32_bytes(n).len() as int) =~= z);
}

/// Framing round trip with compression on: below the threshold the payload is a zero
/// length marker and the bytes as they are; from the threshold on it is the length and a
/// zlib stream, which the decoder restores (as the compressor's contract states).
/// Packet bytes are never empty: they start with their type id.
pub proof fn lemma_compressed_frame_round_trip(t: usize, body: Seq<u8>, rest: Seq<u8>)
    requires
        frame_bytes(Some(t), body) is Some,
        body.len() >= 1,
        body.len() >= t ==> zlib_inflated(zlib_compressed(body)->Some_0) == Some(body),
    ensures
        frame_bytes(Some(t), body) matches Some(f) && frame_scan(f + rest) matches FrameScan::Whole {
            start,
            end,
        } && end == f.len() && unpack_payload((f + rest).subrange(start as int, end as int), true)
            == Ok::<Seq<u8>, DecodeError>(body) && (f + rest).skip(end as int) == rest,
{
    if body.len() < t {
        lemma_compressed_small(t, body, rest);
    } else {
        lemma_compressed_large(t, body, rest);
    }
}

/// What taking the next frame off the buffer `r` yields.
pub enum FrameOutcome {
    /// Too few bytes for a whole frame.
    NotYet,
    /// The frame (or its length prefix) is malformed.
    Failed(DecodeError),
    /// The packet bytes of the next frame.
    Packet(Seq<u8>),
}

/// What the next frame of `r` yields, with compression on or off.
pub open spec fn frame_outcome(r: Seq<u8>, compressed: bool) -> FrameOutcome {
    match frame_scan(r) {
        FrameScan::Incomplete => FrameOutcome::NotYet,
        FrameScan::Bad(e) => FrameOutcome::Failed(e),
        FrameScan::Whole { start, end } => match unpack_payload(
            r.subrange(start as int, end as int),
            compressed,
        ) {
            Ok(b) => FrameOutcome::Packet(b),
            Err(e) => FrameOutcome::Failed(e),
        },
    }
}

/// The buffer `r` once its next frame, if whole, is taken off.
pub open spec fn frame_rest(r: Seq<u8>) -> Seq<u8> {
    match frame_scan(r) {
        FrameScan::Whole { start, end } => r.skip(end as int),
        _ => r,
    }
}

impl MinecraftCodec {
    /// The receive buffer once `bytes` have been accepted.
    pub open spec fn received_after(&self, bytes: Seq<u8>) -> Seq<u8> {
        match self.key() {
            None => self.received() + bytes,
            Some(k) => self.received() + cfb8_decrypted(k, self.decrypt_iv(), bytes),
        }
    }

    /// The receiving register once `bytes` have been accepted.
    pub open spec fn decrypt_iv_after(&self, bytes: Seq<u8>) -> Seq<u8> {
        match self.key() {
            None => self.decrypt_iv(),
            Some(k) => next_register(self.decrypt_iv(), bytes),
        }
    }
}

/// The frame of packet bytes, taken whole off an otherwise empty buffer, yields those
/// bytes and leaves the buffer empty.
pub proof fn lemma_frame_outcome_round_trip(body: Seq<u8>)
    requires
        body.len() <= i32::MAX,
    ensures
        frame_bytes(None, body) matches Some(f) && frame_outcome(f, false) == FrameOutcome::Packet(
            body,
        ) && frame_rest(f) == Seq::<u8>::empty(),
{
    lemma_frame_round_trip(body, Seq::empty());
    let f = frame_bytes(None, body)->Some_0;
    assert(f + Seq::<u8>::empty() =~= f);
}

/// Encryption round trip: the ciphertext that `encode` wrote for a frame, from a sending
/// register equal to the key (as right after encryption is turned on), is decrypted by
/// a receiving codec keyed the same way back into that frame, which then yields the
/// packet bytes and leaves the buffer empty.
pub proof fn lemma_encrypted_round_trip(c: MinecraftCodec, k: Seq<u8>, body: Seq<u8>, ct: Seq<u8>)
    requires
        c.key() == Some(k),
        c.decrypt_iv() == k,
        c.received() == Seq::<u8>::empty(),
        body.len() <= i32::MAX,
        frame_bytes(None, body) matches Some(f) && ct == cfb8_encrypted(k, k, f) && cfb8_decrypted(
            k,
            k,
            ct,
        ) == f,
    ensures
        frame_bytes(None, body) matches Some(f) && c.received_after(ct) == f,
        frame_outcome(c.received_after(ct), false) == FrameOutcome::Packet(body),
        frame_rest(c.received_after(ct)) == Seq::<u8>::empty(),
{
    let f = frame_bytes(None, body)->Some_0;
    assert(Seq::<u8>::empty() + f =~= f);
    lemma_frame_outcome_round_trip(body);
}

} // verus!
