//! The rules the stores follow, apart from the storage itself: how an IP address is
//! stored, when a ban has lapsed, when a ban is rewritten, how the whitelist flag is
//! kept.
use crate::commands::CommandError;
use crate::fields::copy_range;
use vstd::prelude::*;
use vstd::string::StringExecFns;

verus! {

/// The key-value entry that holds the whitelist switch.
pub const WHITELIST_ENABLED_KEY: &'static str = "whitelist.enabled";

/// An IP address by its octets.
#[derive(Debug, Clone, Copy, PartialEq, Eq, Hash)]
pub enum IpAddress {
    V4([u8; 4]),
    V6([u8; 16]),
}

/// The stored form of an address: a version byte (4 or 6), then the octets.
pub open spec fn ip_bytes(ip: IpAddress) -> Seq<u8> {
    match ip {
        IpAddress::V4(o) => seq![4u8] + o@,
        IpAddress::V6(o) => seq![6u8] + o@,
    }
}

/// The address a stored form stands for, if any: five bytes after a 4, or seventeen
/// after a 6.
pub open spec fn ip_of_bytes(b: Seq<u8>) -> Option<IpAddress> {
    if b.len() == 5 && b[0] == 4 {
        Some(IpAddress::V4(choose|o: [u8; 4]| o@ == b.skip(1)))
    } else if b.len() == 17 && b[0] == 6 {
        Some(IpAddress::V6(choose|o: [u8; 16]| o@ == b.skip(1)))
    } else {
        None
    }
}

impl IpAddress {
    /// The stored form of this address.
    pub fn to_bytes(&self) -> (r: Vec<u8>)
        ensures
            r@ == ip_bytes(*self),
    {
        let mut v: Vec<u8> = Vec::new();
        match self {
            IpAddress::V4(o) => {
                v.push(4u8);
                let s: &[u8] = o.as_slice();
                crate::fields::append_bytes(&mut v, s);
            },
            IpAddress::V6(o) => {
                v.push(6u8);
                let s: &[u8] = o.as_slice();
                crate::fields::append_bytes(&mut v, s);
            },
        }
        proof {
            assert(v@ =~= ip_bytes(*self));
        }
        v
    }

    /// Reads a stored address; anything but the two stored forms is refused.
    pub fn from_bytes(b: &[u8]) -> (r: Option<IpAddress>)
        ensures
            r matches Some(ip) ==> ip_bytes(ip) == b@,
            r is Some <==> ((b@.len() == 5 && b@[0] == 4) || (b@.len() == 17 && b@[0] == 6)),
    {
        let n = b.len();
        if n == 5 && b[0] == 4 {
            let o: [u8; 4] = [b[1], b[2], b[3], b[4]];
            proof {
                assert(ip_bytes(IpAddress::V4(o)) =~= b@);
            }
            Some(IpAddress::V4(o))
        } else if n == 17 && b[0] == 6 {
            let o: [u8; 16] = [
                b[1], b[2], b[3], b[4], b[5], b[6], b[7], b[8], b[9], b[10], b[11], b[12], b[13],
                b[14], b[15], b[16],
            ];
            proof {
                assert(ip_bytes(IpAddress::V6(o)) =~= b@);
            }
            Some(IpAddress::V6(o))
        } else {
            None
        }
    }
}

/// The stored form of an address reads back as that address.
pub proof fn lemma_ip_bytes_round_trip(ip: IpAddress)
    ensures
        ip_of_bytes(ip_bytes(ip)) == Some(ip),
{
    match ip {
        IpAddress::V4(o) => {
            assert(ip_bytes(ip).skip(1) =~= o@);
            let c = choose|c: [u8; 4]| c@ == ip_bytes(ip).skip(1);
            assert(c@ == o@);
            assert(c@ =~= o@);
            assert(c == o);
        },
        IpAddress::V6(o) => {
            assert(ip_bytes(ip).skip(1) =~= o@);
            let c = choose|c: [u8; 16]| c@ == ip_bytes(ip).skip(1);
            assert(c@ =~= o@);
            assert(c == o);
        },
    }
}

/// Whether a record with this expiration (milliseconds since the epoch) has lapsed at
/// `now`: only a record with an expiration strictly before now has.
pub fn is_expired(now: i64, expiration: Option<i64>) -> (r: bool)
    ensures
        r == (expiration matches Some(e) && now > e),
{
    match expiration {
        Some(e) => now > e,
        None => false,
    }
}

/// The expiration of a ban of `duration` milliseconds made at `now`, none for a
/// permanent ban; a duration past the range of the clock is refused.
pub fn ban_expiration(now: i64, duration: Option<u64>) -> (r: Result<Option<i64>, CommandError>)
    ensures
        match duration {
            None => (r matches Ok(None)),
            Some(d) => if d <= i64::MAX && now + d <= i64::MAX {
                (r matches Ok(Some(e))) && r->Ok_0->Some_0 == now + d
            } else {
                (r matches Err(CommandError::InvalidDuration))
            },
        },
{
    match duration {
        None => Ok(None),
        Some(d) => {
            if d > i64::MAX as u64 {
                return Err(CommandError::InvalidDuration);
            }
            let di = d as i64;
            if now > i64::MAX - di {
                return Err(CommandError::InvalidDuration);
            }
            Ok(Some(now + di))
        },
    }
}

/// Whether an existing ban is rewritten by a new one: when the expiration or the
/// reason differ.
pub fn ban_needs_update(
    new_expiration: Option<i64>,
    new_reason: &Option<String>,
    old_expiration: Option<i64>,
    old_reason: &Option<String>,
) -> (r: bool)
    ensures
        r == (new_expiration != old_expiration || match (new_reason, old_reason) {
            (Some(a), Some(b)) => a@ != b@,
            (None, None) => false,
            _ => true,
        }),
{
    let same_expiration = match (new_expiration, old_expiration) {
        (Some(a), Some(b)) => a == b,
        (None, None) => true,
        _ => false,
    };
    let same_reason = match (new_reason, old_reason) {
        (Some(a), Some(b)) => *a == *b,
        (None, None) => true,
        _ => false,
    };
    !same_expiration || !same_reason
}

/// The whitelist switch as stored: on only when the stored text is `true`.
pub fn whitelist_flag(stored: &Option<String>) -> (r: bool)
    ensures
        r == (stored matches Some(s) && s@ == "true"@),
{
    match stored {
        Some(s) => {
            let t = String::from_str("true");
            *s == t
        },
        None => false,
    }
}

/// The stored text of the whitelist switch.
pub fn whitelist_flag_text(enabled: bool) -> (r: &'static str)
    ensures
        r@ == (if enabled { "true"@ } else { "false"@ }),
{
    if enabled {
        "true"
    } else {
        "false"
    }
}

/// Whether a key-value record is still there at `now`, given its expiration in
/// milliseconds.
pub fn kv_live(now: i64, expiration: Option<i64>) -> (r: bool)
    ensures
        r == !(expiration matches Some(e) && now > e),
{
    !is_expired(now, expiration)
}

} // verus!
