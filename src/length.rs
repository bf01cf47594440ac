//! Length octets.

use vstd::prelude::*;

verus! {

/// The length of a value's content.
#[derive(Clone, Copy, Debug, PartialEq, Eq, Structural)]
pub enum Length {
    /// A length given as a byte count.
    Definite(usize),
    /// A length left open and ended by the end-of-contents octets.
    Indefinite,
}

/// The big-endian octets of `n` without leading zeros; empty for zero.
pub open spec fn be_bytes(n: nat) -> Seq<u8>
    decreases n,
{
    if n == 0 {
        seq![]
    } else {
        be_bytes(n / 256) + seq![(n % 256) as u8]
    }
}

/// The length octets of a definite length: the short form below 128, else
/// the long form with the count of octets that follow in the first one.
pub open spec fn definite_octets(n: nat) -> Seq<u8> {
    if n < 128 {
        seq![n as u8]
    } else {
        seq![(0x80 + be_bytes(n).len()) as u8] + be_bytes(n)
    }
}

/// The single octet that marks an indefinite length.
pub open spec fn indefinite_octets() -> Seq<u8> {
    seq![0x80u8]
}

impl Length {
    /// The length octets.
    pub open spec fn octets(self) -> Seq<u8> {
        match self {
            Length::Definite(n) => definite_octets(n as nat),
            Length::Indefinite => indefinite_octets(),
        }
    }

    /// The number of length octets.
    pub fn encoded_len(&self) -> (r: usize)
        ensures
            r == self.octets().len(),
            r <= 9,
    {
        match self {
            Length::Definite(n) => {
                if *n < 128 {
                    1
                } else {
                    let k = be_len(*n);
                    k + 1
                }
            },
            Length::Indefinite => 1,
        }
    }

    /// Appends the length octets.
    pub fn write_encoded(&self, target: &mut Vec<u8>)
        ensures
            final(target)@ == old(target)@ + self.octets(),
    {
        match self {
            Length::Definite(n) => {
                if *n < 128 {
                    target.push(*n as u8);
                } else {
                    let k = be_len(*n);
                    target.push(0x80 + k as u8);
                    write_be(*n, target);
                    assert(target@ =~= old(target)@ + self.octets());
                }
            },
            Length::Indefinite => {
                target.push(0x80);
                assert(target@ =~= old(target)@ + self.octets());
            },
        }
    }
}

pub proof fn lemma_be_bytes_len(n: nat)
    requires
        n <= usize::MAX,
    ensures
        be_bytes(n).len() <= 8,
        n > 0 ==> be_bytes(n).len() > 0,
        n > 0 ==> be_bytes(n)[0] > 0,
        n <= 0xFF_FFFF_FFFF_FFFF ==> be_bytes(n).len() <= 7,
        n <= 0xFFFF_FFFF_FFFF ==> be_bytes(n).len() <= 6,
        n <= 0xFF_FFFF_FFFF ==> be_bytes(n).len() <= 5,
        n <= 0xFFFF_FFFF ==> be_bytes(n).len() <= 4,
        n <= 0xFF_FFFF ==> be_bytes(n).len() <= 3,
        n <= 0xFFFF ==> be_bytes(n).len() <= 2,
        n <= 0xFF ==> be_bytes(n).len() <= 1,
    decreases n,
{
    if n > 0 {
        lemma_be_bytes_len(n / 256);
        if n / 256 == 0 {
            assert(be_bytes(n / 256) =~= seq![]);
            assert(be_bytes(n)[0] == (n % 256) as u8);
        } else {
            assert(be_bytes(n)[0] == be_bytes(n / 256)[0]);
        }
    }
}

/// The number of big-endian octets of `n` without leading zeros.
fn be_len(n: usize) -> (r: usize)
    ensures
        r == be_bytes(n as nat).len(),
        r <= 8,
    decreases n,
{
    proof {
        lemma_be_bytes_len(n as nat);
    }
    if n == 0 {
        0
    } else {
        let k = be_len(n / 256);
        k + 1
    }
}

/// Appends the big-endian octets of `n` without leading zeros.
pub fn write_be(n: usize, target: &mut Vec<u8>)
    ensures
        final(target)@ == old(target)@ + be_bytes(n as nat),
    decreases n,
{
    if n > 0 {
        write_be(n / 256, target);
        target.push((n % 256) as u8);
        assert(target@ =~= old(target)@ + be_bytes(n as nat));
    } else {
        assert(old(target)@ + be_bytes(n as nat) =~= old(target)@);
    }
}

/// The number that big-endian octets stand for.
pub open spec fn be_value(s: Seq<u8>) -> nat
    decreases s.len(),
{
    if s.len() == 0 {
        0
    } else {
        be_value(s.drop_last()) * 256 + s.last() as nat
    }
}

/// The byte count that definite length octets stand for.
pub open spec fn definite_value(s: Seq<u8>) -> nat {
    if s[0] < 0x80 {
        s[0] as nat
    } else {
        be_value(s.skip(1))
    }
}

/// Big-endian octets read back as the number they were made from.
pub proof fn lemma_be_value_of_bytes(n: nat)
    ensures
        be_value(be_bytes(n)) == n,
    decreases n,
{
    if n > 0 {
        lemma_be_value_of_bytes(n / 256);
        let s = be_bytes(n);
        assert(s.drop_last() =~= be_bytes(n / 256));
    }
}

/// Definite length octets read back as the byte count they were made from,
/// and are never the indefinite-length marker.
pub proof fn lemma_definite_round_trip(n: nat)
    requires
        n <= usize::MAX,
    ensures
        definite_value(definite_octets(n)) == n,
        definite_octets(n) != indefinite_octets(),
{
    if n >= 128 {
        lemma_be_bytes_len(n);
        lemma_be_value_of_bytes(n);
        assert(definite_octets(n).skip(1) =~= be_bytes(n));
        assert(definite_octets(n).len() > 1);
    } else {
        assert(definite_octets(n)[0] == n as u8);
    }
}

} // verus!
