//! Identifier octets.

use vstd::prelude::*;

verus! {

/// The class of a tag.
#[derive(Clone, Copy, Debug, PartialEq, Eq, Structural)]
pub enum Class {
    Universal,
    Application,
    Context,
    Private,
}

/// The tag of a value: its class and its number.
#[derive(Clone, Copy, Debug, PartialEq, Eq, Structural)]
pub struct Tag {
    pub class: Class,
    pub number: u32,
}

/// The two high bits of the first identifier octet for a class.
pub open spec fn class_bits(class: Class) -> nat {
    match class {
        Class::Universal => 0,
        Class::Application => 0x40,
        Class::Context => 0x80,
        Class::Private => 0xC0,
    }
}

/// Base-128 digits of `n` with the continuation bit set on each, most
/// significant first; empty for zero.
pub open spec fn high_digits(n: nat) -> Seq<u8>
    decreases n,
{
    if n == 0 {
        seq![]
    } else {
        high_digits(n / 128) + seq![(0x80 + n % 128) as u8]
    }
}

/// The base-128 digits of a tag number in the high-tag-number form: every
/// digit but the last has the continuation bit set.
pub open spec fn number_digits(n: nat) -> Seq<u8> {
    high_digits(n / 128) + seq![(n % 128) as u8]
}

impl Tag {
    /// The identifier octets of the tag, with the constructed bit as given.
    pub open spec fn octets(self, constructed: bool) -> Seq<u8> {
        let first = class_bits(self.class) + if constructed { 0x20nat } else { 0nat };
        if self.number < 31 {
            seq![(first + self.number) as u8]
        } else {
            seq![(first + 0x1F) as u8] + number_digits(self.number as nat)
        }
    }

    /// A tag of the universal class.
    pub fn universal(number: u32) -> (r: Tag)
        ensures
            r == (Tag { class: Class::Universal, number }),
    {
        Tag { class: Class::Universal, number }
    }

    /// A tag of the application class.
    pub fn application(number: u32) -> (r: Tag)
        ensures
            r == (Tag { class: Class::Application, number }),
    {
        Tag { class: Class::Application, number }
    }

    /// A context-specific tag.
    pub fn ctx(number: u32) -> (r: Tag)
        ensures
            r == (Tag { class: Class::Context, number }),
    {
        Tag { class: Class::Context, number }
    }

    /// A tag of the private class.
    pub fn private(number: u32) -> (r: Tag)
        ensures
            r == (Tag { class: Class::Private, number }),
    {
        Tag { class: Class::Private, number }
    }

    /// The universal tag of INTEGER.
    pub fn integer() -> (r: Tag)
        ensures
            r == (Tag { class: Class::Universal, number: 2 }),
    {
        Tag { class: Class::Universal, number: 2 }
    }

    /// The universal tag of SEQUENCE and SEQUENCE OF.
    pub fn sequence() -> (r: Tag)
        ensures
            r == (Tag { class: Class::Universal, number: 16 }),
    {
        Tag { class: Class::Universal, number: 16 }
    }

    /// The universal tag of SET and SET OF.
    pub fn set() -> (r: Tag)
        ensures
            r == (Tag { class: Class::Universal, number: 17 }),
    {
        Tag { class: Class::Universal, number: 17 }
    }

    /// The number of identifier octets.
    pub fn encoded_len(&self) -> (r: usize)
        ensures
            r == self.octets(true).len(),
            r == self.octets(false).len(),
    {
        if self.number < 31 {
            1
        } else {
            let n: usize = digit_count(self.number / 128);
            proof {
                lemma_high_digits_len(self.number as nat / 128);
            }
            n + 2
        }
    }

    /// Appends the identifier octets, with the constructed bit as given.
    pub fn write_encoded(&self, constructed: bool, target: &mut Vec<u8>)
        ensures
            final(target)@ == old(target)@ + self.octets(constructed),
    {
        let class: u8 = match self.class {
            Class::Universal => 0,
            Class::Application => 0x40,
            Class::Context => 0x80,
            Class::Private => 0xC0,
        };
        let first: u8 = if constructed { class + 0x20 } else { class };
        if self.number < 31 {
            target.push(first + self.number as u8);
        } else {
            target.push(first + 0x1F);
            write_high_digits(self.number / 128, target);
            target.push((self.number % 128) as u8);
        }
    }
}

/// The number of base-128 digits of `n`, zero for zero.
fn digit_count(n: u32) -> (r: usize)
    ensures
        r == high_digits(n as nat).len(),
        r <= 5,
    decreases n,
{
    if n == 0 {
        0
    } else {
        let k = digit_count(n / 128);
        proof {
            lemma_high_digits_len(n as nat / 128);
        }
        k + 1
    }
}

proof fn lemma_high_digits_len(n: nat)
    requires
        n < 0x1_0000_0000,
    ensures
        high_digits(n).len() <= 5,
        n < 0x200_0000 ==> high_digits(n).len() <= 4,
        n < 0x4_0000 ==> high_digits(n).len() <= 3,
        n < 0x800 ==> high_digits(n).len() <= 2,
        n < 0x10 ==> high_digits(n).len() <= 1,
    decreases n,
{
    if n > 0 {
        lemma_high_digits_len(n / 128);
    }
}

fn write_high_digits(n: u32, target: &mut Vec<u8>)
    ensures
        final(target)@ == old(target)@ + high_digits(n as nat),
    decreases n,
{
    if n > 0 {
        write_high_digits(n / 128, target);
        target.push(0x80 + (n % 128) as u8);
        assert(target@ =~= old(target)@ + high_digits(n as nat));
    } else {
        assert(old(target)@ + high_digits(n as nat) =~= old(target)@);
    }
}

} // verus!
