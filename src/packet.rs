//! Per-state packet catalogs: each maps a one-byte type id to a packet variant.
pub mod configuration;
pub mod game;
pub mod handshake;
pub mod login;
pub mod status;

use crate::error::DecodeError;
use crate::varint::{parse_var_i32, read_var_i32, write_var_i32, var_i32_bytes};
use vstd::prelude::*;

verus! {

/// Reads the VarInt type id that starts every packet; an id outside `0..=255` is
/// refused as a VarInt too long for one byte.
pub open spec fn parse_type_id(d: Seq<u8>) -> Result<(u8, nat), DecodeError> {
    match parse_var_i32(d) {
        Ok((v, n)) => if 0 <= v <= 255 {
            Ok((v as u8, n))
        } else {
            Err(DecodeError::VarIntTooLong { max_bytes: 1 })
        },
        Err(e) => Err(e),
    }
}

/// Reads the type id at the start of a packet, giving it and the index after it.
pub fn read_type_id(d: &[u8]) -> (r: Result<(u8, usize), DecodeError>)
    ensures
        match parse_type_id(d@) {
            Ok((id, n)) => n <= d@.len() && r == Ok::<(u8, usize), DecodeError>((id, n as usize)),
            Err(e) => r == Err::<(u8, usize), DecodeError>(e),
        },
{
    proof {
        assert(d@.skip(0) =~= d@);
    }
    match read_var_i32(d, 0) {
        Ok((v, p)) => {
            if 0 <= v && v <= 255 {
                Ok((v as u8, p))
            } else {
                Err(DecodeError::VarIntTooLong { max_bytes: 1 })
            }
        },
        Err(e) => Err(e),
    }
}

/// Appends a packet's type id as a VarInt.
pub fn write_type_id(id: u8, out: &mut Vec<u8>)
    ensures
        final(out)@ == old(out)@ + var_i32_bytes(id as i32),
{
    write_var_i32(id as i32, out);
}

/// A type id below 128 is one byte, and reads back as itself.
pub proof fn lemma_type_id_round_trip(id: u8, rest: Seq<u8>)
    requires
        id < 128,
    ensures
        var_i32_bytes(id as i32) == seq![id],
        parse_type_id(seq![id] + rest) == Ok::<(u8, nat), DecodeError>((id, 1)),
{
    assert(id as i32 as u32 as nat == id as nat);
    assert(var_i32_bytes(id as i32) == seq![id]);
    crate::varint::lemma_var_i32_round_trip(id as i32, rest);
}

/// Every type id reads back as itself from its VarInt.
pub proof fn lemma_type_id_bytes_round_trip(id: u8, rest: Seq<u8>)
    ensures
        parse_type_id(var_i32_bytes(id as i32) + rest) == Ok::<(u8, nat), DecodeError>(
            (id, var_i32_bytes(id as i32).len()),
        ),
{
    crate::varint::lemma_var_i32_round_trip(id as i32, rest);
}

} // verus!
