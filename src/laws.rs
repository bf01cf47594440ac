//! What holds of every encoding the value encoders produce.

use vstd::prelude::*;
use crate::decode::{self, primitive_header};
use crate::integer::{is_canonical_unsigned, lemma_unsigned_octets_canonical, unsigned_octets};
use crate::length::{lemma_be_bytes_len, definite_octets, definite_value, indefinite_octets, lemma_definite_round_trip};
use crate::mode::Mode;
use crate::tag::{Class, Tag};
use crate::values::{
    end_of_contents, header_octets, lemma_seq_encoding_split, seq_encoding, Choice2, Choice3, Constructed,
    Nothing, Values,
};

verus! {

/// In CER a constructed value has the single octet 0x80 as its length, the
/// content after it, and the two octets `00 00` at its end, whatever the
/// size of the content.
pub proof fn lemma_cer_framing<V: Values>(c: Constructed<V>)
    ensures
        ({
            let e = c.encoding(Mode::Cer);
            let t = c.tag.octets(true).len() as int;
            let content = c.inner.encoding(Mode::Cer);
            &&& e.len() == t + 1 + content.len() + 2
            &&& e.take(t) == c.tag.octets(true)
            &&& e[t] == 0x80
            &&& e.subrange(t + 1, e.len() - 2) == content
            &&& e.subrange(e.len() - 2, e.len() as int) == end_of_contents()
        }),
{
    let e = c.encoding(Mode::Cer);
    let t = c.tag.octets(true).len() as int;
    let content = c.inner.encoding(Mode::Cer);
    assert(e == c.tag.octets(true) + indefinite_octets() + content + end_of_contents());
    assert(e.take(t) =~= c.tag.octets(true));
    assert(e.subrange(t + 1, e.len() - 2) =~= content);
    assert(e.subrange(e.len() - 2, e.len() as int) =~= end_of_contents());
}

/// In BER and DER a constructed value has a definite length that reads back
/// as exactly the length of its content, and nothing follows the content.
pub proof fn lemma_definite_framing<V: Values>(c: Constructed<V>, mode: Mode)
    requires
        mode == Mode::Ber || mode == Mode::Der,
        c.encoding(mode).len() <= usize::MAX,
    ensures
        ({
            let e = c.encoding(mode);
            let t = c.tag.octets(true).len() as int;
            let content = c.inner.encoding(mode);
            let l = definite_octets(content.len());
            &&& e == c.tag.octets(true) + l + content
            &&& l != indefinite_octets()
            &&& definite_value(l) == content.len()
            &&& e.len() == t + l.len() + content.len()
            &&& e.skip(t + l.len()) == content
        }),
{
    let e = c.encoding(mode);
    let t = c.tag.octets(true).len() as int;
    let content = c.inner.encoding(mode);
    let l = definite_octets(content.len());
    lemma_definite_round_trip(content.len());
    assert(e.skip(t + l.len()) =~= content);
}

/// A two-way choice encodes exactly as the variant it holds.
pub proof fn lemma_choice2_delegates<L: Values, R: Values>(x: L, y: R, mode: Mode)
    ensures
        Choice2::<L, R>::One(x).encoding(mode) == x.encoding(mode),
        Choice2::<L, R>::Two(y).encoding(mode) == y.encoding(mode),
{
}

/// A three-way choice encodes exactly as the variant it holds.
pub proof fn lemma_choice3_delegates<L: Values, C: Values, R: Values>(
    x: L,
    y: C,
    z: R,
    mode: Mode,
)
    ensures
        Choice3::<L, C, R>::One(x).encoding(mode) == x.encoding(mode),
        Choice3::<L, C, R>::Two(y).encoding(mode) == y.encoding(mode),
        Choice3::<L, C, R>::Three(z).encoding(mode) == z.encoding(mode),
{
}

/// A sequence of encoders encodes as the encodings of its elements in
/// order: nothing when empty, the element itself when alone, and the
/// encoding of the front followed by that of the rest wherever it is cut.
pub proof fn lemma_sequence_concatenation<V: Values>(v: Vec<V>, mode: Mode)
    ensures
        v.encoding(mode) == seq_encoding(v@, mode),
        v@.len() == 0 ==> v.encoding(mode) == Seq::<u8>::empty(),
        v@.len() == 1 ==> v.encoding(mode) == v@[0].encoding(mode),
        forall|k: int|
            0 <= k <= v@.len() ==> #[trigger] seq_encoding(v@.take(k), mode) + seq_encoding(
                v@.skip(k),
                mode,
            ) == v.encoding(mode),
{
    if v@.len() == 1 {
        assert(v@.drop_last() =~= Seq::<V>::empty());
        assert(seq_encoding(v@.drop_last(), mode) == Seq::<u8>::empty());
        assert(v@.last() == v@[0]);
        assert(v.encoding(mode) =~= v@[0].encoding(mode));
    }
    assert forall|k: int| 0 <= k <= v@.len() implies #[trigger] seq_encoding(v@.take(k), mode)
        + seq_encoding(v@.skip(k), mode) == v.encoding(mode) by {
        lemma_seq_encoding_split(v@, k, mode);
    }
}

/// `Nothing` encodes as no octets in every mode.
pub proof fn lemma_nothing_is_empty(mode: Mode)
    ensures
        Nothing.encoding(mode) == Seq::<u8>::empty(),
        Nothing.encoding(mode).len() == 0,
{
}

/// The content octets of an unsigned number, written after an INTEGER
/// header, read back as one well-formed unsigned value with exactly that
/// content, whatever follows it.
pub proof fn lemma_unsigned_round_trip(n: u32, rest: Seq<u8>)
    ensures
        ({
            let tag = Tag { class: Class::Universal, number: 2 };
            let content = unsigned_octets(n as nat);
            let h = header_octets(tag, false, content.len());
            let s = h + content + rest;
            &&& primitive_header(s, tag) == Ok::<(nat, nat), decode::Error>((h.len(), content.len()))
            &&& s.subrange(h.len() as int, (h.len() + content.len()) as int) == content
            &&& is_canonical_unsigned(content)
        }),
{
    let tag = Tag { class: Class::Universal, number: 2 };
    let content = unsigned_octets(n as nat);
    lemma_be_bytes_len(n as nat);
    lemma_unsigned_octets_canonical(n as nat);
    assert(content.len() <= 5);
    let h = header_octets(tag, false, content.len());
    assert(h =~= seq![0x02u8, content.len() as u8]);
    let s = h + content + rest;
    assert(s.take(1) =~= tag.octets(false));
    assert(s.subrange(2, 2 + content.len() as int) =~= content);
}

} // verus!
