use crate::codec::frame_bytes;
use crate::error::EncodeError;
use crate::fields::append_bytes;
use crate::varint::{var_i32_bytes, write_var_i32};
use vstd::prelude::*;

verus! {

/// Frames packet bytes for a connection without compression or encryption: the length
/// as a VarInt, then the bytes.
pub fn encode_packet(packet: &[u8]) -> (r: Result<Vec<u8>, EncodeError>)
    ensures
        match frame_bytes(None, packet@) {
            Some(f) => r matches Ok(v) && v@ == f,
            None => r == Err::<Vec<u8>, EncodeError>(EncodeError::TooLarge),
        },
{
    let n: usize = packet.len();
    if n > i32::MAX as usize {
        return Err(EncodeError::TooLarge);
    }
    let mut out: Vec<u8> = Vec::new();
    write_var_i32(n as i32, &mut out);
    append_bytes(&mut out, packet);
    Ok(out)
}

} // verus!
