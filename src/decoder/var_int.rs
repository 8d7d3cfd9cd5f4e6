use crate::error::DecodeError;
use crate::varint::{parse_var_i32, read_var_i32};
use vstd::prelude::*;

verus! {

/// Reads a 32-bit VarInt at `pos`, giving the value and the index after it.
pub fn decode(d: &[u8], pos: usize) -> (r: Result<(i32, usize), DecodeError>)
    requires
        pos <= d@.len(),
    ensures
        match parse_var_i32(d@.skip(pos as int)) {
            Ok((v, n)) => r == Ok::<(i32, usize), DecodeError>((v, (pos + n) as usize)),
            Err(e) => r == Err::<(i32, usize), DecodeError>(e),
        },
{
    read_var_i32(d, pos)
}

} // verus!
