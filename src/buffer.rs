//! The shared, immutable byte buffer of the `bytes` crate, as the library
//! uses it.

use vstd::prelude::*;
use bytes::Bytes;

verus! {

#[verifier::external_type_specification]
#[verifier::external_body]
pub struct ExBytes(Bytes);

/// The octets a buffer holds.
pub uninterp spec fn bytes_content(b: Bytes) -> Seq<u8>;

/// Relies on `Bytes::len`: the number of octets held.
pub assume_specification[ Bytes::len ](b: &Bytes) -> (r: usize)
    ensures
        r == bytes_content(*b).len(),
;

/// Relies on `Bytes`'s `Clone`: a new handle on the same octets.
pub assume_specification[ <Bytes as Clone>::clone ](b: &Bytes) -> (r: Bytes)
    ensures
        bytes_content(r) == bytes_content(*b),
;

/// Relies on `Bytes::split_to`: the first `at` octets leave `b` and come
/// back; it panics when `at` is past the end.
pub assume_specification[ Bytes::split_to ](b: &mut Bytes, at: usize) -> (r: Bytes)
    requires
        at <= bytes_content(*old(b)).len(),
    ensures
        bytes_content(r) == bytes_content(*old(b)).take(at as int),
        bytes_content(*final(b)) == bytes_content(*old(b)).skip(at as int),
;

/// Relies on `Bytes` dereferencing to its octets: the octet at `i`.
#[verifier::external_body]
pub(crate) fn byte_at(b: &Bytes, i: usize) -> (r: u8)
    requires
        i < bytes_content(*b).len(),
    ensures
        r == bytes_content(*b)[i as int],
{
    b[i]
}

/// Relies on `Bytes::from(Vec<u8>)`: the buffer holds the vector's octets.
#[verifier::external_body]
pub(crate) fn bytes_from_vec(v: Vec<u8>) -> (r: Bytes)
    ensures
        bytes_content(r) == v@,
{
    Bytes::from(v)
}

/// Appends the octets of `b` to `target`.
pub(crate) fn append_bytes(b: &Bytes, target: &mut Vec<u8>)
    ensures
        final(target)@ == old(target)@ + bytes_content(*b),
{
    let n = b.len();
    let mut i: usize = 0;
    while i < n
        invariant
            n == bytes_content(*b).len(),
            i <= n,
            target@ == old(target)@ + bytes_content(*b).take(i as int),
        decreases n - i,
    {
        target.push(byte_at(b, i));
        assert(bytes_content(*b).take(i + 1) =~= bytes_content(*b).take(i as int).push(bytes_content(*b)[i as int]));
        i = i + 1;
    }
    assert(bytes_content(*b).take(n as int) =~= bytes_content(*b));
}

} // verus!
