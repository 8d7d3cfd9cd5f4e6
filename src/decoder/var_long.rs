use crate::error::DecodeError;
use crate::varint::{parse_var_i64, read_var_i64};
use vstd::prelude::*;

verus! {

/// Reads a 64-bit VarLong at `pos`, giving the value and the index after it.
pub fn decode(d: &[u8], pos: usize) -> (r: Result<(i64, usize), DecodeError>)
    requires
        pos <= d@.len(),
    ensures
        match parse_var_i64(d@.skip(pos as int)) {
            Ok((v, n)) => r == Ok::<(i64, usize), DecodeError>((v, (pos + n) as usize)),
            Err(e) => r == Err::<(i64, usize), DecodeError>(e),
        },
{
    read_var_i64(d, pos)
}

} // verus!
