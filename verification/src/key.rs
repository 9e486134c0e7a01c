//! Raw public-key material and its conversion into a provider-native
//! curve point.

use vstd::prelude::*;

use crate::error::Error;
use crate::util::reversed;

verus! {

/// Wire identifier of the SM2 curve (32-byte coordinates).
pub const GROUP_ID_SM2: u32 = 3;

/// Wire identifier of the NIST P-256 curve (32-byte coordinates).
pub const GROUP_ID_PRIME256V1: u32 = 1;

/// Wire identifier of the NIST P-384 curve (48-byte coordinates).
pub const GROUP_ID_SECP384R1: u32 = 2;

/// The raw OpenSSL object identifier of the SM2 curve.
pub const NID_SM2: i32 = 1172;

/// The raw OpenSSL object identifier of the NIST P-256 curve.
pub const NID_PRIME256V1: i32 = 415;

/// The raw OpenSSL object identifier of the NIST P-384 curve.
pub const NID_SECP384R1: i32 = 715;

/// The elliptic-curve group identifier carried in raw key material.
#[derive(Clone, Copy, Debug, PartialEq, Eq, Structural)]
pub struct Group {
    /// The identifier exactly as it stands in the key record.
    pub id: u32,
}

impl Group {
    /// The natural coordinate size of a recognized group, in bytes;
    /// nothing for an identifier this library does not know.
    pub open spec fn spec_size(self) -> Option<usize> {
        if self.id == GROUP_ID_PRIME256V1 {
            Some(32usize)
        } else if self.id == GROUP_ID_SECP384R1 {
            Some(48usize)
        } else if self.id == GROUP_ID_SM2 {
            Some(32usize)
        } else {
            None
        }
    }

    /// The coordinate size of the group; `UnsupportedGroup` exactly when
    /// the identifier is unrecognized.
    pub fn size(&self) -> (r: Result<usize, Error>)
        ensures
            r matches Ok(s) ==> self.spec_size() == Some(s),
            r is Err <==> self.spec_size() is None,
            r matches Err(e) ==> e == Error::UnsupportedGroup,
    {
        if self.id == GROUP_ID_PRIME256V1 {
            Ok(32)
        } else if self.id == GROUP_ID_SECP384R1 {
            Ok(48)
        } else if self.id == GROUP_ID_SM2 {
            Ok(32)
        } else {
            Err(Error::UnsupportedGroup)
        }
    }

    /// The provider's object identifier for each recognized group, and
    /// nothing for an unrecognized one.
    pub open spec fn spec_nid(self) -> Option<i32> {
        if self.id == GROUP_ID_PRIME256V1 {
            Some(NID_PRIME256V1)
        } else if self.id == GROUP_ID_SECP384R1 {
            Some(NID_SECP384R1)
        } else if self.id == GROUP_ID_SM2 {
            Some(NID_SM2)
        } else {
            None
        }
    }

    /// The provider's identifier for a recognized group.
    fn nid_raw(&self) -> (r: Option<i32>)
        ensures
            r == self.spec_nid(),
            r is Some <==> self.spec_size() is Some,
    {
        if self.id == GROUP_ID_PRIME256V1 {
            Some(NID_PRIME256V1)
        } else if self.id == GROUP_ID_SECP384R1 {
            Some(NID_SECP384R1)
        } else if self.id == GROUP_ID_SM2 {
            Some(NID_SM2)
        } else {
            None
        }
    }
}

/// The raw form of an ECC public key: a group identifier and two
/// little-endian coordinate buffers, fixed at 72 bytes to accommodate the
/// largest supported curve.  Only the group's natural coordinate size of
/// either buffer is ever read.
#[derive(Debug, Copy, Clone)]
pub struct PubKey {
    pub g: Group,
    pub x: [u8; 72],
    pub y: [u8; 72],
}

/// Declares openssl's `EcKey` so the provider-native curve point can be
/// carried in signatures; the library never looks inside one.
#[verifier::external_type_specification]
#[verifier::external_body]
#[verifier::reject_recursive_types(T)]
pub struct ExEcKey<T>(openssl::ec::EcKey<T>);

/// Declares openssl's `Public` key-role marker for the same purpose.
#[verifier::external_type_specification]
#[verifier::external_body]
pub struct ExPublic(openssl::pkey::Public);

/// Whether the cryptographic provider accepts the big-endian coordinate
/// pair as a point on the curve named by the object identifier; a
/// function of the three arguments alone.
pub uninterp spec fn ec_accepts(nid: i32, x_be: Seq<u8>, y_be: Seq<u8>) -> bool;

/// Relies on openssl's `EcKey::from_public_key_affine_coordinates` (with
/// `EcGroup::from_curve_name` and `BigNum::from_slice` on the big-endian
/// coordinate bytes): a key comes back only when the provider accepts the
/// coordinates as a point on the named curve; nothing comes back for a
/// rejected point or an unavailable provider.  `BigNum::from_slice`
/// asserts that the slice length fits the provider's 32-bit count, so
/// coordinates beyond that machine limit are excluded here.
#[verifier::external_body]
fn ec_point_from_be(nid_raw: i32, x_be: &[u8], y_be: &[u8]) -> (r: Option<
    openssl::ec::EcKey<openssl::pkey::Public>,
>)
    requires
        x_be@.len() <= 0x7fff_ffff,
        y_be@.len() <= 0x7fff_ffff,
    ensures
        r is Some ==> ec_accepts(nid_raw, x_be@, y_be@),
{
    let nid = openssl::nid::Nid::from_raw(nid_raw);
    let group = match openssl::ec::EcGroup::from_curve_name(nid) {
        Ok(g) => g,
        Err(_) => return None,
    };
    let x = match openssl::bn::BigNum::from_slice(x_be) {
        Ok(b) => b,
        Err(_) => return None,
    };
    let y = match openssl::bn::BigNum::from_slice(y_be) {
        Ok(b) => b,
        Err(_) => return None,
    };
    openssl::ec::EcKey::from_public_key_affine_coordinates(&group, &x, &y).ok()
}

/// The coordinate bytes handed to the provider: the first `n` bytes of a
/// little-endian buffer, most-significant byte first.
pub open spec fn coord_be(buf: Seq<u8>, n: int) -> Seq<u8> {
    buf.subrange(0, n).reverse()
}

/// Reconstructs the provider-native curve point from raw key material:
/// each coordinate buffer is truncated to the group's natural size and
/// handed to the provider most-significant byte first.  Fails with
/// `UnsupportedGroup` exactly when the group identifier is unrecognized,
/// and with `InvalidPoint` when the provider rejects the coordinates; a
/// returned key is one the provider accepted on that group's own curve.
pub fn to_curve_point(value: &PubKey) -> (r: Result<
    openssl::ec::EcKey<openssl::pkey::Public>,
    Error,
>)
    ensures
        r == Err::<openssl::ec::EcKey<openssl::pkey::Public>, Error>(Error::UnsupportedGroup)
            <==> value.g.spec_size() is None,
        r matches Err(e) ==> e == Error::UnsupportedGroup || e == Error::InvalidPoint,
        r is Ok ==> (value.g.spec_size() matches Some(s) && value.g.spec_nid() matches Some(nid)
            && ec_accepts(nid, coord_be(value.x@, s as int), coord_be(value.y@, s as int))),
{
    let s = match value.g.size() {
        Ok(s) => s,
        Err(e) => {
            return Err(e);
        },
    };
    proof {
        assert(value.g.spec_size() matches Some(n) && n <= 72);
    }
    let x_be = reversed(vstd::slice::slice_subrange(value.x.as_slice(), 0, s));
    let y_be = reversed(vstd::slice::slice_subrange(value.y.as_slice(), 0, s));
    let nid = match value.g.nid_raw() {
        Some(n) => n,
        None => {
            return Err(Error::UnsupportedGroup);
        },
    };
    match ec_point_from_be(nid, x_be.as_slice(), y_be.as_slice()) {
        Some(key) => Ok(key),
        None => Err(Error::InvalidPoint),
    }
}

} // verus!
