//! The `Values` trait and the value encoders built on it.

use vstd::prelude::*;
use crate::buffer::bytes_from_vec;
use crate::captured::Captured;
use crate::length::{definite_octets, indefinite_octets, Length};
use crate::mode::Mode;
use crate::tag::Tag;

verus! {

//------------ Values --------------------------------------------------------

/// A value encoder: something that encodes itself as one or more BER
/// values, which become the content or part of the content of a
/// constructed value.
pub trait Values {
    /// The octets this encoder produces in the given mode.
    spec fn encoding(&self, mode: Mode) -> Seq<u8>;

    /// Returns the length of the encoded values for the given mode.
    fn encoded_len(&self, mode: Mode) -> (r: usize)
        requires
            self.encoding(mode).len() <= usize::MAX,
        ensures
            r == self.encoding(mode).len(),
    ;

    /// Appends the encoded values in the given mode to `target`.
    fn write_encoded(&self, mode: Mode, target: &mut Vec<u8>)
        requires
            old(target)@.len() + self.encoding(mode).len() <= usize::MAX,
        ensures
            final(target)@ == old(target)@ + self.encoding(mode),
    ;

    /// Converts the encoder into one with an explicit tag.
    fn explicit(self, tag: Tag) -> (r: Constructed<Self>) where Self: Sized
        ensures
            r.tag == tag,
            r.inner == self,
    {
        Constructed::new(tag, self)
    }

    /// Captures the encoded values in the given mode.
    fn to_captured(&self, mode: Mode) -> (r: Captured)
        requires
            self.encoding(mode).len() <= usize::MAX,
        ensures
            r@ == self.encoding(mode),
            r.spec_mode() == mode,
    {
        let mut target: Vec<u8> = Vec::new();
        self.write_encoded(mode, &mut target);
        proof {
            assert(target@ =~= self.encoding(mode));
        }
        Captured::new(bytes_from_vec(target), mode)
    }
}

/// The concatenated encodings of a sequence of encoders, in order.
pub open spec fn seq_encoding<V: Values>(s: Seq<V>, mode: Mode) -> Seq<u8>
    decreases s.len(),
{
    if s.len() == 0 {
        seq![]
    } else {
        seq_encoding(s.drop_last(), mode) + s.last().encoding(mode)
    }
}

/// The two end-of-contents octets.
pub open spec fn end_of_contents() -> Seq<u8> {
    seq![0u8, 0u8]
}

proof fn lemma_seq_encoding_step<V: Values>(s: Seq<V>, i: int, mode: Mode)
    requires
        0 <= i < s.len(),
    ensures
        seq_encoding(s.take(i + 1), mode) == seq_encoding(s.take(i), mode) + s[i].encoding(mode),
{
    assert(s.take(i + 1).drop_last() =~= s.take(i));
}

proof fn lemma_seq_encoding_prefix<V: Values>(s: Seq<V>, k: int, mode: Mode)
    requires
        0 <= k <= s.len(),
    ensures
        seq_encoding(s.take(k), mode).len() <= seq_encoding(s, mode).len(),
    decreases s.len(),
{
    if k == s.len() {
        assert(s.take(k) =~= s);
    } else {
        lemma_seq_encoding_prefix(s.drop_last(), k, mode);
        assert(s.drop_last().take(k) =~= s.take(k));
    }
}

/// Splitting a sequence of encoders anywhere splits its encoding there.
pub proof fn lemma_seq_encoding_split<V: Values>(s: Seq<V>, k: int, mode: Mode)
    requires
        0 <= k <= s.len(),
    ensures
        seq_encoding(s, mode) == seq_encoding(s.take(k), mode) + seq_encoding(s.skip(k), mode),
    decreases s.len() - k,
{
    if k == s.len() {
        assert(s.take(k) =~= s);
        assert(s.skip(k) =~= Seq::<V>::empty());
        assert(seq_encoding(s.take(k), mode) + seq_encoding(s.skip(k), mode) =~= seq_encoding(s, mode));
    } else {
        lemma_seq_encoding_split(s, k + 1, mode);
        lemma_seq_encoding_step(s, k, mode);
        let t = s.skip(k);
        assert(t.take(1).drop_last() =~= Seq::<V>::empty());
        lemma_seq_encoding_split_front(t, mode);
        assert(t.skip(1) =~= s.skip(k + 1));
        assert(t[0] == s[k]);
        assert(seq_encoding(s, mode) =~= seq_encoding(s.take(k), mode) + seq_encoding(s.skip(k), mode));
    }
}

proof fn lemma_seq_encoding_split_front<V: Values>(t: Seq<V>, mode: Mode)
    requires
        t.len() > 0,
    ensures
        seq_encoding(t, mode) == t[0].encoding(mode) + seq_encoding(t.skip(1), mode),
    decreases t.len(),
{
    if t.len() == 1 {
        assert(t.drop_last() =~= Seq::<V>::empty());
        assert(t.skip(1) =~= Seq::<V>::empty());
        assert(seq_encoding(t, mode) =~= t[0].encoding(mode) + seq_encoding(t.skip(1), mode));
    } else {
        lemma_seq_encoding_split_front(t.drop_last(), mode);
        assert(t.drop_last().skip(1) =~= t.skip(1).drop_last());
        assert(t.skip(1).last() == t.last());
        assert(seq_encoding(t, mode) =~= t[0].encoding(mode) + seq_encoding(t.skip(1), mode));
    }
}

//------------ Restart -------------------------------------------------------

/// A collection of encoders that can be walked from its start on demand,
/// any number of times, always yielding the same items in the same order.
pub trait Restart {
    type Item: Values;

    /// The items, in the order every walk yields them.
    spec fn items(&self) -> Seq<Self::Item>;

    /// The number of items.
    fn item_count(&self) -> (r: usize)
        ensures
            r == self.items().len(),
    ;

    /// The item at position `i`.
    fn item(&self, i: usize) -> (r: &Self::Item)
        requires
            i < self.items().len(),
        ensures
            *r == self.items()[i as int],
    ;
}

impl<V: Values> Restart for Vec<V> {
    type Item = V;

    open spec fn items(&self) -> Seq<V> {
        self@
    }

    fn item_count(&self) -> (r: usize) {
        self.len()
    }

    fn item(&self, i: usize) -> (r: &V) {
        &self[i]
    }
}

impl<V: Values> Restart for [V] {
    type Item = V;

    open spec fn items(&self) -> Seq<V> {
        self@
    }

    fn item_count(&self) -> (r: usize) {
        self.len()
    }

    fn item(&self, i: usize) -> (r: &V) {
        &self[i]
    }
}

impl<'a, T: Restart + ?Sized> Restart for &'a T {
    type Item = T::Item;

    open spec fn items(&self) -> Seq<T::Item> {
        (**self).items()
    }

    fn item_count(&self) -> (r: usize) {
        (**self).item_count()
    }

    fn item(&self, i: usize) -> (r: &T::Item) {
        (**self).item(i)
    }
}

/// The total encoded length of all items of `src`.
fn items_encoded_len<T: Restart + ?Sized>(src: &T, mode: Mode) -> (r: usize)
    requires
        seq_encoding(src.items(), mode).len() <= usize::MAX,
    ensures
        r == seq_encoding(src.items(), mode).len(),
{
    let n = src.item_count();
    let mut sum: usize = 0;
    let mut i: usize = 0;
    while i < n
        invariant
            n == src.items().len(),
            i <= n,
            sum == seq_encoding(src.items().take(i as int), mode).len(),
            seq_encoding(src.items(), mode).len() <= usize::MAX,
        decreases n - i,
    {
        proof {
            lemma_seq_encoding_step(src.items(), i as int, mode);
            lemma_seq_encoding_prefix(src.items(), i + 1, mode);
        }
        let l = src.item(i).encoded_len(mode);
        sum = sum + l;
        i = i + 1;
    }
    proof {
        assert(src.items().take(n as int) =~= src.items());
    }
    sum
}

/// Appends the encodings of all items of `src`, in order.
fn write_items<T: Restart + ?Sized>(src: &T, mode: Mode, target: &mut Vec<u8>)
    requires
        old(target)@.len() + seq_encoding(src.items(), mode).len() <= usize::MAX,
    ensures
        final(target)@ == old(target)@ + seq_encoding(src.items(), mode),
{
    let n = src.item_count();
    let mut i: usize = 0;
    while i < n
        invariant
            n == src.items().len(),
            i <= n,
            target@ == old(target)@ + seq_encoding(src.items().take(i as int), mode),
            old(target)@.len() + seq_encoding(src.items(), mode).len() <= usize::MAX,
        decreases n - i,
    {
        proof {
            lemma_seq_encoding_step(src.items(), i as int, mode);
            lemma_seq_encoding_prefix(src.items(), i + 1, mode);
        }
        src.item(i).write_encoded(mode, target);
        assert(target@ =~= old(target)@ + seq_encoding(src.items().take(i + 1), mode));
        i = i + 1;
    }
    proof {
        assert(src.items().take(n as int) =~= src.items());
    }
}

//--- Blanket impls

impl<'a, T: Values + ?Sized> Values for &'a T {
    open spec fn encoding(&self, mode: Mode) -> Seq<u8> {
        (**self).encoding(mode)
    }

    fn encoded_len(&self, mode: Mode) -> (r: usize) {
        (**self).encoded_len(mode)
    }

    fn write_encoded(&self, mode: Mode, target: &mut Vec<u8>) {
        (**self).write_encoded(mode, target)
    }
}

impl<T: Values, U: Values> Values for (T, U) {
    open spec fn encoding(&self, mode: Mode) -> Seq<u8> {
        self.0.encoding(mode) + self.1.encoding(mode)
    }

    fn encoded_len(&self, mode: Mode) -> (r: usize) {
        self.0.encoded_len(mode) + self.1.encoded_len(mode)
    }

    fn write_encoded(&self, mode: Mode, target: &mut Vec<u8>) {
        self.0.write_encoded(mode, target);
        self.1.write_encoded(mode, target);
        assert(target@ =~= old(target)@ + self.encoding(mode));
    }
}

impl<R: Values, S: Values, T: Values> Values for (R, S, T) {
    open spec fn encoding(&self, mode: Mode) -> Seq<u8> {
        self.0.encoding(mode) + self.1.encoding(mode) + self.2.encoding(mode)
    }

    fn encoded_len(&self, mode: Mode) -> (r: usize) {
        self.0.encoded_len(mode) + self.1.encoded_len(mode) + self.2.encoded_len(mode)
    }

    fn write_encoded(&self, mode: Mode, target: &mut Vec<u8>) {
        self.0.write_encoded(mode, target);
        self.1.write_encoded(mode, target);
        self.2.write_encoded(mode, target);
        assert(target@ =~= old(target)@ + self.encoding(mode));
    }
}

impl<R: Values, S: Values, T: Values, U: Values> Values for (R, S, T, U) {
    open spec fn encoding(&self, mode: Mode) -> Seq<u8> {
        self.0.encoding(mode) + self.1.encoding(mode) + self.2.encoding(mode)
            + self.3.encoding(mode)
    }

    fn encoded_len(&self, mode: Mode) -> (r: usize) {
        self.0.encoded_len(mode) + self.1.encoded_len(mode) + self.2.encoded_len(mode)
            + self.3.encoded_len(mode)
    }

    fn write_encoded(&self, mode: Mode, target: &mut Vec<u8>) {
        self.0.write_encoded(mode, target);
        self.1.write_encoded(mode, target);
        self.2.write_encoded(mode, target);
        self.3.write_encoded(mode, target);
        assert(target@ =~= old(target)@ + self.encoding(mode));
    }
}

/// An optional value encodes as nothing when absent: an OPTIONAL in ASN.1.
impl<V: Values> Values for Option<V> {
    open spec fn encoding(&self, mode: Mode) -> Seq<u8> {
        match self {
            Some(v) => v.encoding(mode),
            None => seq![],
        }
    }

    fn encoded_len(&self, mode: Mode) -> (r: usize) {
        match self {
            Some(v) => v.encoded_len(mode),
            None => 0,
        }
    }

    fn write_encoded(&self, mode: Mode, target: &mut Vec<u8>) {
        match self {
            Some(v) => v.write_encoded(mode, target),
            None => {
                assert(target@ =~= old(target)@ + self.encoding(mode));
            },
        }
    }
}

/// A slice encodes as the concatenation of its elements, in order.
impl<V: Values> Values for [V] {
    open spec fn encoding(&self, mode: Mode) -> Seq<u8> {
        seq_encoding(self@, mode)
    }

    fn encoded_len(&self, mode: Mode) -> (r: usize) {
        items_encoded_len(self, mode)
    }

    fn write_encoded(&self, mode: Mode, target: &mut Vec<u8>) {
        write_items(self, mode, target)
    }
}

/// A vector encodes as the concatenation of its elements, in order.
impl<V: Values> Values for Vec<V> {
    open spec fn encoding(&self, mode: Mode) -> Seq<u8> {
        seq_encoding(self@, mode)
    }

    fn encoded_len(&self, mode: Mode) -> (r: usize) {
        items_encoded_len(self, mode)
    }

    fn write_encoded(&self, mode: Mode, target: &mut Vec<u8>) {
        write_items(self, mode, target)
    }
}

//------------ Constructed ---------------------------------------------------

/// A value encoder for a single constructed value: a tag, length octets and
/// whatever `inner` encodes to as the content.
pub struct Constructed<V> {
    /// The tag of the value.
    pub tag: Tag,
    /// A value encoder for the content of the value.
    pub inner: V,
}

impl<V> Constructed<V> {
    /// Creates a new constructed value encoder from a tag and content.
    pub fn new(tag: Tag, inner: V) -> (r: Self)
        ensures
            r.tag == tag,
            r.inner == inner,
    {
        Constructed { tag, inner }
    }
}

/// Definite length in BER and DER; in CER the indefinite length, with the
/// end-of-contents octets after the content.
impl<V: Values> Values for Constructed<V> {
    open spec fn encoding(&self, mode: Mode) -> Seq<u8> {
        let content = self.inner.encoding(mode);
        match mode {
            Mode::Ber | Mode::Der => self.tag.octets(true) + definite_octets(content.len())
                + content,
            Mode::Cer => self.tag.octets(true) + indefinite_octets() + content
                + end_of_contents(),
        }
    }

    fn encoded_len(&self, mode: Mode) -> (r: usize) {
        let len = self.inner.encoded_len(mode);
        let framing = match mode {
            Mode::Ber | Mode::Der => Length::Definite(len).encoded_len(),
            Mode::Cer => Length::Indefinite.encoded_len() + EndOfValue.encoded_len(mode),
        };
        self.tag.encoded_len() + framing + len
    }

    fn write_encoded(&self, mode: Mode, target: &mut Vec<u8>) {
        self.tag.write_encoded(true, target);
        match mode {
            Mode::Ber | Mode::Der => {
                Length::Definite(self.inner.encoded_len(mode)).write_encoded(target);
                self.inner.write_encoded(mode, target);
            },
            Mode::Cer => {
                Length::Indefinite.write_encoded(target);
                self.inner.write_encoded(mode, target);
                EndOfValue.write_encoded(mode, target);
            },
        }
        assert(target@ =~= old(target)@ + self.encoding(mode));
    }
}

//------------ Choice2 -------------------------------------------------------

/// A value encoder for a two-variant choice: it encodes as whichever
/// variant it holds, adding nothing of its own.
pub enum Choice2<L, R> {
    /// The first choice.
    One(L),
    /// The second choice.
    Two(R),
}

impl<L: Values, R: Values> Values for Choice2<L, R> {
    open spec fn encoding(&self, mode: Mode) -> Seq<u8> {
        match self {
            Choice2::One(inner) => inner.encoding(mode),
            Choice2::Two(inner) => inner.encoding(mode),
        }
    }

    fn encoded_len(&self, mode: Mode) -> (r: usize) {
        match self {
            Choice2::One(inner) => inner.encoded_len(mode),
            Choice2::Two(inner) => inner.encoded_len(mode),
        }
    }

    fn write_encoded(&self, mode: Mode, target: &mut Vec<u8>) {
        match self {
            Choice2::One(inner) => inner.write_encoded(mode, target),
            Choice2::Two(inner) => inner.write_encoded(mode, target),
        }
    }
}

//------------ Choice3 -------------------------------------------------------

/// A value encoder for a three-variant choice: it encodes as whichever
/// variant it holds, adding nothing of its own.
pub enum Choice3<L, C, R> {
    /// The first choice.
    One(L),
    /// The second choice.
    Two(C),
    /// The third choice.
    Three(R),
}

impl<L: Values, C: Values, R: Values> Values for Choice3<L, C, R> {
    open spec fn encoding(&self, mode: Mode) -> Seq<u8> {
        match self {
            Choice3::One(inner) => inner.encoding(mode),
            Choice3::Two(inner) => inner.encoding(mode),
            Choice3::Three(inner) => inner.encoding(mode),
        }
    }

    fn encoded_len(&self, mode: Mode) -> (r: usize) {
        match self {
            Choice3::One(inner) => inner.encoded_len(mode),
            Choice3::Two(inner) => inner.encoded_len(mode),
            Choice3::Three(inner) => inner.encoded_len(mode),
        }
    }

    fn write_encoded(&self, mode: Mode, target: &mut Vec<u8>) {
        match self {
            Choice3::One(inner) => inner.write_encoded(mode, target),
            Choice3::Two(inner) => inner.write_encoded(mode, target),
            Choice3::Three(inner) => inner.write_encoded(mode, target),
        }
    }
}

//------------ Iter ----------------------------------------------------------

/// A value encoder for a restartable collection of encoders: it encodes as
/// the concatenation of the items. Computing the length walks the items
/// once and writing walks them again from the start.
pub struct Iter<T>(pub T);

impl<T> Iter<T> {
    /// Creates a new encoder atop `iter`.
    pub fn new(iter: T) -> (r: Self)
        ensures
            r.0 == iter,
    {
        Iter(iter)
    }
}

impl<T: Restart> Values for Iter<T> {
    open spec fn encoding(&self, mode: Mode) -> Seq<u8> {
        seq_encoding(self.0.items(), mode)
    }

    fn encoded_len(&self, mode: Mode) -> (r: usize) {
        items_encoded_len(&self.0, mode)
    }

    fn write_encoded(&self, mode: Mode, target: &mut Vec<u8>) {
        write_items(&self.0, mode, target)
    }
}

//------------ Nothing -------------------------------------------------------

/// An encoder for nothing: zero octets in every mode.
pub struct Nothing;

impl Values for Nothing {
    open spec fn encoding(&self, mode: Mode) -> Seq<u8> {
        seq![]
    }

    fn encoded_len(&self, _mode: Mode) -> (r: usize) {
        0
    }

    fn write_encoded(&self, _mode: Mode, target: &mut Vec<u8>) {
        assert(target@ =~= old(target)@ + self.encoding(_mode));
    }
}

//============ Standard Functions ============================================

/// Returns a value encoder for a SEQUENCE containing `inner`.
pub fn sequence<V: Values>(inner: V) -> (r: Constructed<V>)
    ensures
        r.tag == (Tag { class: crate::tag::Class::Universal, number: 16 }),
        r.inner == inner,
{
    Constructed::new(Tag::sequence(), inner)
}

/// Returns a value encoder for a SEQUENCE with the given tag.
pub fn sequence_as<V: Values>(tag: Tag, inner: V) -> (r: Constructed<V>)
    ensures
        r.tag == tag,
        r.inner == inner,
{
    Constructed::new(tag, inner)
}

/// Returns a value encoder for a SET containing `inner`.
pub fn set<V: Values>(inner: V) -> (r: Constructed<V>)
    ensures
        r.tag == (Tag { class: crate::tag::Class::Universal, number: 17 }),
        r.inner == inner,
{
    Constructed::new(Tag::set(), inner)
}

/// Returns a value encoder for a SET with the given tag.
pub fn set_as<V: Values>(tag: Tag, inner: V) -> (r: Constructed<V>)
    ensures
        r.tag == tag,
        r.inner == inner,
{
    Constructed::new(tag, inner)
}

/// The octets of a value header: identifier octets and definite length.
pub open spec fn header_octets(tag: Tag, constructed: bool, content_len: nat) -> Seq<u8> {
    tag.octets(constructed) + definite_octets(content_len)
}

/// Returns the length of a value with definite length from its tag and
/// content length.
pub fn total_encoded_len(tag: Tag, content_l: usize) -> (r: usize)
    requires
        header_octets(tag, true, content_l as nat).len() + content_l <= usize::MAX,
    ensures
        r == header_octets(tag, true, content_l as nat).len() + content_l,
        r == header_octets(tag, false, content_l as nat).len() + content_l,
{
    tag.encoded_len() + Length::Definite(content_l).encoded_len() + content_l
}

/// Appends the header of a value: the identifier octets and the length
/// octets of a definite length.
pub fn write_header(target: &mut Vec<u8>, tag: Tag, constructed: bool, content_length: usize)
    ensures
        final(target)@ == old(target)@ + header_octets(tag, constructed, content_length as nat),
{
    tag.write_encoded(constructed, target);
    Length::Definite(content_length).write_encoded(target);
    assert(target@ =~= old(target)@ + header_octets(tag, constructed, content_length as nat));
}

//============ Helper Types ==================================================

/// A value encoder for the end-of-contents octets.
struct EndOfValue;

impl Values for EndOfValue {
    open spec fn encoding(&self, mode: Mode) -> Seq<u8> {
        end_of_contents()
    }

    fn encoded_len(&self, _mode: Mode) -> (r: usize) {
        2
    }

    fn write_encoded(&self, _mode: Mode, target: &mut Vec<u8>) {
        target.push(0);
        target.push(0);
        assert(target@ =~= old(target)@ + self.encoding(_mode));
    }
}

} // verus!
