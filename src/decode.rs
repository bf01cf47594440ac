//! Taking values out of encoded data.

use vstd::prelude::*;
use bytes::Bytes;
use crate::buffer::{byte_at, bytes_content};
use crate::length::be_value;
use crate::tag::Tag;

verus! {

/// An error in decoding data.
#[derive(Clone, Copy, Debug, PartialEq, Eq, Structural)]
pub enum Error {
    /// The data does not follow the encoding rules.
    Malformed,
    /// The data uses a feature that is not supported.
    Unimplemented,
}

/// The content of a primitive value, not yet taken.
pub struct Primitive {
    content: Bytes,
}

impl View for Primitive {
    type V = Seq<u8>;

    closed spec fn view(&self) -> Seq<u8> {
        bytes_content(self.content)
    }
}

impl Primitive {
    /// Creates a primitive value's content from its octets.
    pub fn new(content: Bytes) -> (r: Primitive)
        ensures
            r@ == bytes_content(content),
    {
        Primitive { content }
    }

    /// Takes all remaining content octets.
    pub fn take_all(&mut self) -> (r: Bytes)
        ensures
            bytes_content(r) == old(self)@,
            final(self)@ == Seq::<u8>::empty(),
    {
        let n = self.content.len();
        let r = self.content.split_to(n);
        proof {
            assert(old(self)@.take(n as int) =~= old(self)@);
            assert(self@ =~= Seq::<u8>::empty());
        }
        r
    }
}

/// Where `s` starts with a primitive value of tag `tag` and definite
/// length, all of whose content is in `s`: the number of header octets and
/// the number of content octets. A length in more than eight octets is
/// not supported; anything else is malformed.
pub open spec fn primitive_header(s: Seq<u8>, tag: Tag) -> Result<(nat, nat), Error> {
    let t = tag.octets(false);
    let i = t.len();
    if s.len() <= i || s.take(i as int) != t {
        Err(Error::Malformed)
    } else if s[i as int] < 0x80 {
        if i + 1 + s[i as int] <= s.len() {
            Ok(((i + 1) as nat, s[i as int] as nat))
        } else {
            Err(Error::Malformed)
        }
    } else if s[i as int] == 0x80 {
        Err(Error::Malformed)
    } else if s[i as int] > 0x88 {
        Err(Error::Unimplemented)
    } else {
        let k = (s[i as int] - 0x80) as nat;
        if i + 1 + k > s.len() {
            Err(Error::Malformed)
        } else {
            let n = be_value(s.subrange((i + 1) as int, (i + 1 + k) as int));
            if i + 1 + k + n <= s.len() {
                Ok(((i + 1 + k) as nat, n))
            } else {
                Err(Error::Malformed)
            }
        }
    }
}

proof fn lemma_be_value_prefix(s: Seq<u8>, j: int)
    requires
        0 <= j <= s.len(),
    ensures
        be_value(s.take(j)) <= be_value(s),
    decreases s.len(),
{
    if j < s.len() {
        lemma_be_value_prefix(s.drop_last(), j);
        assert(s.drop_last().take(j) =~= s.take(j));
    } else {
        assert(s.take(j) =~= s);
    }
}

/// The remaining content of a constructed value of definite length: the
/// values in it, one after the other.
pub struct Constructed {
    data: Bytes,
}

impl View for Constructed {
    type V = Seq<u8>;

    closed spec fn view(&self) -> Seq<u8> {
        bytes_content(self.data)
    }
}

impl Constructed {
    /// Creates a constructed value's content from its octets.
    pub fn new(data: Bytes) -> (r: Constructed)
        ensures
            r@ == bytes_content(data),
    {
        Constructed { data }
    }

    /// Whether all content has been taken.
    pub fn is_exhausted(&self) -> (r: bool)
        ensures
            r == (self@.len() == 0),
    {
        self.data.len() == 0
    }

    /// Takes the next value, which must be primitive with tag `expected`,
    /// and returns its content. On an error nothing is taken.
    pub fn take_primitive_if(&mut self, expected: Tag) -> (r: Result<Primitive, Error>)
        ensures
            match primitive_header(old(self)@, expected) {
                Ok((h, n)) => r matches Ok(p) && p@ == old(self)@.subrange(h as int, (h + n) as int)
                    && final(self)@ == old(self)@.skip((h + n) as int),
                Err(e) => r matches Err(f) && f == e && final(self)@ == old(self)@,
            },
    {
        let ghost s = self@;
        let mut t: Vec<u8> = Vec::new();
        expected.write_encoded(false, &mut t);
        assert(t@ =~= expected.octets(false));
        let n = self.data.len();
        let tl = t.len();
        if n <= tl {
            return Err(Error::Malformed);
        }
        let mut j: usize = 0;
        while j < tl
            invariant
                s == self@,
                n == s.len(),
                tl == t@.len(),
                t@ == expected.octets(false),
                tl < n,
                j <= tl,
                s.take(j as int) == t@.take(j as int),
            decreases tl - j,
        {
            if byte_at(&self.data, j) != t[j] {
                assert(s.take(tl as int)[j as int] != t@[j as int]);
                assert(s.take(tl as int) != expected.octets(false));
                return Err(Error::Malformed);
            }
            assert(s.take(j + 1) =~= t@.take(j + 1));
            j = j + 1;
        }
        assert(t@.take(tl as int) =~= t@);
        let b = byte_at(&self.data, tl);
        let mut h: usize = tl + 1;
        let mut len: usize = 0;
        if b < 0x80 {
            len = b as usize;
            if len > n - h {
                return Err(Error::Malformed);
            }
        } else if b == 0x80 {
            return Err(Error::Malformed);
        } else if b > 0x88 {
            return Err(Error::Unimplemented);
        } else {
            let k = (b - 0x80) as usize;
            if k > n - h {
                return Err(Error::Malformed);
            }
            let ghost ls = s.subrange(h as int, (h + k) as int);
            let mut acc: u128 = 0;
            let mut q: usize = 0;
            while q < k
                invariant
                    s == self@,
                    n == s.len(),
                    h + k <= n,
                    h == tl + 1,
                    tl == expected.octets(false).len(),
                    s.take(tl as int) == expected.octets(false),
                    b == s[tl as int],
                    0x80 < b <= 0x88,
                    k == b - 0x80,
                    ls == s.subrange(h as int, (h + k) as int),
                    q <= k,
                    acc == be_value(ls.take(q as int)),
                    acc <= n,
                decreases k - q,
            {
                let d = byte_at(&self.data, h + q);
                assert(ls.take(q + 1).drop_last() =~= ls.take(q as int));
                assert(ls.take(q + 1).last() == d);
                acc = acc * 256 + d as u128;
                assert(acc == be_value(ls.take(q + 1)));
                if acc > n as u128 {
                    proof {
                        lemma_be_value_prefix(ls, q + 1);
                        assert(be_value(ls) > n);
                    }
                    return Err(Error::Malformed);
                }
                q = q + 1;
            }
            assert(ls.take(k as int) =~= ls);
            h = h + k;
            len = acc as usize;
            if len > n - h {
                return Err(Error::Malformed);
            }
        }
        let _header = self.data.split_to(h);
        let content = self.data.split_to(len);
        proof {
            assert(bytes_content(content) =~= s.subrange(h as int, (h + len) as int));
            assert(self@ =~= s.skip((h + len) as int));
        }
        Ok(Primitive::new(content))
    }
}

} // verus!
