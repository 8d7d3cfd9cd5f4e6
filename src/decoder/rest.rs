use crate::fields::read_rest;
use vstd::prelude::*;

verus! {

/// Reads every byte from `pos` to the end of the packet.
pub fn decode(d: &[u8], pos: usize) -> (r: Vec<u8>)
    requires
        pos <= d@.len(),
    ensures
        r@ == d@.skip(pos as int),
{
    read_rest(d, pos)
}

} // verus!
