//! BER encoded integers.

use vstd::prelude::*;
use bytes::Bytes;
use crate::buffer::{append_bytes, byte_at, bytes_content, bytes_from_vec};
use crate::decode::{self, primitive_header};
use crate::length::{be_bytes, lemma_be_bytes_len, write_be, Length};
use crate::mode::Mode;
use crate::tag::{Class, Tag};
use crate::values::{header_octets, Values};

verus! {

/// Whether `s` is the content of a well-formed INTEGER: at least one octet,
/// and no leading octet that only repeats the sign of the next one.
pub open spec fn is_canonical_integer(s: Seq<u8>) -> bool {
    &&& s.len() > 0
    &&& !(s.len() > 1 && s[0] == 0x00 && s[1] < 0x80)
    &&& !(s.len() > 1 && s[0] == 0xFF && s[1] >= 0x80)
}

/// Whether `s` is the content of a well-formed INTEGER that is not negative.
pub open spec fn is_canonical_unsigned(s: Seq<u8>) -> bool {
    is_canonical_integer(s) && s[0] < 0x80
}

/// The shortest two's complement octets of a natural number: its big-endian
/// octets, with one zero octet in front where the first would read as a
/// sign, and a single zero octet for zero.
pub open spec fn unsigned_octets(n: nat) -> Seq<u8> {
    if n == 0 {
        seq![0u8]
    } else if be_bytes(n)[0] >= 0x80 {
        seq![0u8] + be_bytes(n)
    } else {
        be_bytes(n)
    }
}

/// Checks the leading octets of INTEGER content.
fn check_integer(res: &Bytes) -> (r: bool)
    ensures
        r == is_canonical_integer(bytes_content(*res)),
{
    let n = res.len();
    if n == 0 {
        return false;
    }
    let first = byte_at(res, 0);
    if n > 1 {
        let second = byte_at(res, 1);
        if first == 0x00 && second < 0x80 {
            return false;
        }
        if first == 0xFF && second >= 0x80 {
            return false;
        }
    }
    true
}

//------------ Integer -------------------------------------------------------

/// A BER encoded integer: the content octets of an INTEGER, a big-endian
/// two's complement number of any length in its shortest form.
#[derive(Clone, Debug, PartialEq, Eq, Hash)]
pub struct Integer(Bytes);

impl View for Integer {
    type V = Seq<u8>;

    closed spec fn view(&self) -> Seq<u8> {
        bytes_content(self.0)
    }
}

impl Integer {
    /// Whether the content octets are well-formed.
    pub open spec fn wf(&self) -> bool {
        is_canonical_integer(self@)
    }

    /// Takes an INTEGER value from the content of a constructed value.
    pub fn take_from(cons: &mut decode::Constructed) -> (r: Result<Self, decode::Error>)
        ensures
            match primitive_header(old(cons)@, Tag { class: Class::Universal, number: 2 }) {
                Ok((h, n)) => {
                    let content = old(cons)@.subrange(h as int, (h + n) as int);
                    &&& final(cons)@ == old(cons)@.skip((h + n) as int)
                    &&& r is Ok <==> is_canonical_integer(content)
                    &&& r matches Ok(v) ==> v@ == content && v.wf()
                    &&& r matches Err(e) ==> e == decode::Error::Malformed
                },
                Err(e) => r matches Err(f) && f == e && final(cons)@ == old(cons)@,
            },
    {
        match cons.take_primitive_if(Tag::integer()) {
            Ok(mut prim) => Integer::take_content_from(&mut prim),
            Err(e) => Err(e),
        }
    }

    /// Takes an integer from the content octets of a primitive value.
    pub fn take_content_from(prim: &mut decode::Primitive) -> (r: Result<Self, decode::Error>)
        ensures
            final(prim)@ == Seq::<u8>::empty(),
            r is Ok <==> is_canonical_integer(old(prim)@),
            r matches Ok(v) ==> v@ == old(prim)@ && v.wf(),
            r matches Err(e) ==> e == decode::Error::Malformed,
    {
        let res = prim.take_all();
        if !check_integer(&res) {
            return Err(decode::Error::Malformed);
        }
        Ok(Integer(res))
    }

    /// The content octets.
    pub fn to_vec(&self) -> (r: Vec<u8>)
        ensures
            r@ == self@,
    {
        let mut v: Vec<u8> = Vec::new();
        append_bytes(&self.0, &mut v);
        proof {
            assert(v@ =~= self@);
        }
        v
    }
}

//------------ Unsigned ------------------------------------------------------

/// A BER encoded unsigned integer: like `Integer`, and never negative.
#[derive(Clone, Debug, PartialEq, Eq, Hash)]
pub struct Unsigned(Bytes);

impl View for Unsigned {
    type V = Seq<u8>;

    closed spec fn view(&self) -> Seq<u8> {
        bytes_content(self.0)
    }
}

impl Unsigned {
    /// Whether the content octets are well-formed and not negative.
    pub open spec fn wf(&self) -> bool {
        is_canonical_unsigned(self@)
    }

    /// Takes an INTEGER value from the content of a constructed value.
    pub fn take_from(cons: &mut decode::Constructed) -> (r: Result<Self, decode::Error>)
        ensures
            match primitive_header(old(cons)@, Tag { class: Class::Universal, number: 2 }) {
                Ok((h, n)) => {
                    let content = old(cons)@.subrange(h as int, (h + n) as int);
                    &&& final(cons)@ == old(cons)@.skip((h + n) as int)
                    &&& r is Ok <==> is_canonical_unsigned(content)
                    &&& r matches Ok(v) ==> v@ == content && v.wf()
                    &&& r matches Err(e) ==> e == decode::Error::Malformed
                },
                Err(e) => r matches Err(f) && f == e && final(cons)@ == old(cons)@,
            },
    {
        match cons.take_primitive_if(Tag::integer()) {
            Ok(mut prim) => Unsigned::take_content_from(&mut prim),
            Err(e) => Err(e),
        }
    }

    /// Takes an unsigned integer from the content octets of a primitive
    /// value.
    pub fn take_content_from(prim: &mut decode::Primitive) -> (r: Result<Self, decode::Error>)
        ensures
            final(prim)@ == Seq::<u8>::empty(),
            r is Ok <==> is_canonical_unsigned(old(prim)@),
            r matches Ok(v) ==> v@ == old(prim)@ && v.wf(),
            r matches Err(e) ==> e == decode::Error::Malformed,
    {
        let res = prim.take_all();
        if !check_integer(&res) {
            return Err(decode::Error::Malformed);
        }
        if byte_at(&res, 0) >= 0x80 {
            return Err(decode::Error::Malformed);
        }
        Ok(Unsigned(res))
    }

    /// The content octets.
    pub fn to_vec(&self) -> (r: Vec<u8>)
        ensures
            r@ == self@,
    {
        let mut v: Vec<u8> = Vec::new();
        append_bytes(&self.0, &mut v);
        proof {
            assert(v@ =~= self@);
        }
        v
    }

    /// The length of the content octets, in any mode.
    pub fn encoded_len(&self, _mode: Mode) -> (r: usize)
        ensures
            r == self@.len(),
    {
        self.0.len()
    }

    /// Appends the content octets, in any mode.
    pub fn write_encoded(&self, _mode: Mode, target: &mut Vec<u8>)
        ensures
            final(target)@ == old(target)@ + self@,
    {
        append_bytes(&self.0, target)
    }
}

/// A value encoder for an unsigned integer as one primitive value: tag,
/// definite length and content octets, the same in every mode.
pub struct UnsignedValue<'a> {
    pub tag: Tag,
    pub value: &'a Unsigned,
}

impl Unsigned {
    /// A value encoder for this integer as a universal INTEGER.
    pub fn encode(&self) -> (r: UnsignedValue<'_>)
        ensures
            r.tag == (Tag { class: Class::Universal, number: 2 }),
            r.value == self,
    {
        UnsignedValue { tag: Tag::integer(), value: self }
    }

    /// A value encoder for this integer under an implicit tag.
    pub fn encode_as(&self, tag: Tag) -> (r: UnsignedValue<'_>)
        ensures
            r.tag == tag,
            r.value == self,
    {
        UnsignedValue { tag, value: self }
    }
}

impl<'a> Values for UnsignedValue<'a> {
    open spec fn encoding(&self, mode: Mode) -> Seq<u8> {
        header_octets(self.tag, false, self.value@.len()) + self.value@
    }

    fn encoded_len(&self, mode: Mode) -> (r: usize) {
        let len = self.value.encoded_len(mode);
        self.tag.encoded_len() + Length::Definite(len).encoded_len() + len
    }

    fn write_encoded(&self, mode: Mode, target: &mut Vec<u8>) {
        let len = self.value.encoded_len(mode);
        self.tag.write_encoded(false, target);
        Length::Definite(len).write_encoded(target);
        self.value.write_encoded(mode, target);
        assert(target@ =~= old(target)@ + self.encoding(mode));
    }
}

/// The shortest content octets of a natural number are well-formed.
pub proof fn lemma_unsigned_octets_canonical(n: nat)
    requires
        n <= usize::MAX,
    ensures
        is_canonical_unsigned(unsigned_octets(n)),
{
    lemma_be_bytes_len(n);
}

impl Unsigned {
    /// The unsigned integer with the value `n`, in its shortest form.
    pub fn from_u32(n: u32) -> (r: Self)
        ensures
            r@ == unsigned_octets(n as nat),
            r.wf(),
    {
        let mut v: Vec<u8> = Vec::new();
        let m = n as usize;
        if m == 0 {
            v.push(0);
        } else {
            proof {
                lemma_be_bytes_len(m as nat);
            }
            let mut w: Vec<u8> = Vec::new();
            write_be(m, &mut w);
            if w[0] >= 0x80 {
                v.push(0);
            }
            let mut i: usize = 0;
            while i < w.len()
                invariant
                    i <= w@.len(),
                    w@ == be_bytes(m as nat),
                    v@ == (if w@[0] >= 0x80 { seq![0u8] } else { Seq::<u8>::empty() }) + w@.take(i as int),
                decreases w@.len() - i,
            {
                v.push(w[i]);
                assert(w@.take(i + 1) =~= w@.take(i as int).push(w@[i as int]));
                i = i + 1;
            }
            assert(w@.take(w@.len() as int) =~= w@);
        }
        proof {
            assert(v@ =~= unsigned_octets(n as nat));
            lemma_unsigned_octets_canonical(n as nat);
        }
        Unsigned(bytes_from_vec(v))
    }
}

impl From<u32> for Unsigned {
    fn from(n: u32) -> (r: Self)
        ensures
            r@ == unsigned_octets(n as nat),
            r.wf(),
    {
        Unsigned::from_u32(n)
    }
}

impl vstd::std_specs::convert::FromSpecImpl<u32> for Unsigned {
    open spec fn obeys_from_spec() -> bool {
        false
    }

    open spec fn from_spec(n: u32) -> Self {
        arbitrary()
    }
}

} // verus!
