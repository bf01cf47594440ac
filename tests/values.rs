use bcder::values::Restart;
use bcder::{
    sequence, sequence_as, set_as, total_encoded_len, write_header, Choice2, Choice3,
    Constructed, Iter, Length, Mode, Nothing, Tag, Values,
};

const MODES: [Mode; 3] = [Mode::Ber, Mode::Cer, Mode::Der];

fn encode<V: Values>(v: &V, mode: Mode) -> Vec<u8> {
    let mut out = Vec::new();
    v.write_encoded(mode, &mut out);
    out
}

fn consistent<V: Values>(v: &V) {
    for mode in MODES {
        assert_eq!(v.encoded_len(mode), encode(v, mode).len());
    }
}

/// An empty primitive-looking value: tag and definite length zero in BER.
fn leaf(n: u32) -> Constructed<Nothing> {
    Constructed::new(Tag::ctx(n), Nothing)
}

fn leaves(n: usize) -> Vec<Constructed<Nothing>> {
    (0..n).map(|_| leaf(1)).collect()
}

#[test]
fn length_matches_write_in_every_mode() {
    consistent(&Nothing);
    consistent(&leaf(1));
    consistent(&(leaf(1), leaf(2)));
    consistent(&(leaf(1), Nothing, leaf(40)));
    consistent(&(leaf(1), leaf(2), leaf(3), leaf(4)));
    consistent(&Some(leaf(3)));
    consistent(&None::<Nothing>);
    consistent(&vec![leaf(1), leaf(2), leaf(3)]);
    consistent(&sequence(leaves(100)));
    consistent(&Iter::new(vec![leaf(5), leaf(6)]));
    consistent(&Choice2::<Nothing, Constructed<Nothing>>::Two(leaf(7)));
    consistent(&&leaf(8));
}

#[test]
fn cer_uses_indefinite_length_and_end_of_contents() {
    let v = sequence((leaf(1), leaf(2)));
    let out = encode(&v, Mode::Cer);
    assert_eq!(out, vec![0x30, 0x80, 0xA1, 0x80, 0, 0, 0xA2, 0x80, 0, 0, 0, 0]);
    let big = sequence(leaves(200));
    let out = encode(&big, Mode::Cer);
    assert_eq!(out[1], 0x80);
    assert_eq!(&out[out.len() - 2..], &[0, 0]);
    assert_eq!(out.len(), 2 + 200 * 4 + 2);
}

#[test]
fn ber_and_der_use_definite_length() {
    let v = sequence((leaf(1), leaf(2)));
    for mode in [Mode::Ber, Mode::Der] {
        assert_eq!(encode(&v, mode), vec![0x30, 0x04, 0xA1, 0x00, 0xA2, 0x00]);
    }
    let big = sequence(leaves(100));
    let out = encode(&big, Mode::Der);
    assert_eq!(&out[..3], &[0x30, 0x81, 200]);
    assert_eq!(out.len(), 3 + 200);
    let bigger = sequence(leaves(150));
    let out = encode(&bigger, Mode::Ber);
    assert_eq!(&out[..4], &[0x30, 0x82, 0x01, 0x2C]);
    assert_eq!(out.len(), 4 + 300);
}

#[test]
fn empty_constructed_value() {
    let v = sequence(Nothing);
    assert_eq!(encode(&v, Mode::Der), vec![0x30, 0x00]);
    assert_eq!(encode(&v, Mode::Cer), vec![0x30, 0x80, 0x00, 0x00]);
}

#[test]
fn choice_encodes_as_its_variant() {
    for mode in MODES {
        let x = sequence(leaf(1));
        let c2: Choice2<Constructed<Constructed<Nothing>>, Nothing> = Choice2::One(sequence(leaf(1)));
        assert_eq!(encode(&c2, mode), encode(&x, mode));
        let c2: Choice2<Nothing, Constructed<Nothing>> = Choice2::Two(leaf(9));
        assert_eq!(encode(&c2, mode), encode(&leaf(9), mode));
        let c3: Choice3<Nothing, Constructed<Nothing>, Nothing> = Choice3::Two(leaf(4));
        assert_eq!(encode(&c3, mode), encode(&leaf(4), mode));
        let c3: Choice3<Nothing, Nothing, Constructed<Nothing>> = Choice3::Three(leaf(5));
        assert_eq!(encode(&c3, mode), encode(&leaf(5), mode));
        let c3: Choice3<Nothing, Nothing, Constructed<Nothing>> = Choice3::One(Nothing);
        assert_eq!(encode(&c3, mode), Vec::<u8>::new());
    }
}

#[test]
fn sequence_is_concatenation() {
    for mode in MODES {
        let items = vec![leaf(1), leaf(2), leaf(31)];
        let mut expected = Vec::new();
        for i in &items {
            expected.extend(encode(i, mode));
        }
        assert_eq!(encode(&items, mode), expected);
        assert_eq!(encode(&Iter::new(items), mode), expected);
        let empty: Vec<Constructed<Nothing>> = Vec::new();
        assert_eq!(encode(&empty, mode), Vec::<u8>::new());
        assert_eq!(empty.encoded_len(mode), 0);
    }
}

#[test]
fn tuples_and_options_concatenate() {
    let mode = Mode::Der;
    assert_eq!(encode(&(leaf(1), leaf(2)), mode), vec![0xA1, 0, 0xA2, 0]);
    assert_eq!(encode(&(leaf(1), leaf(2), leaf(3)), mode), vec![0xA1, 0, 0xA2, 0, 0xA3, 0]);
    assert_eq!(
        encode(&(leaf(1), None::<Nothing>, Some(leaf(3)), leaf(4)), mode),
        vec![0xA1, 0, 0xA3, 0, 0xA4, 0]
    );
}

#[test]
fn nothing_encodes_to_nothing() {
    for mode in MODES {
        assert_eq!(Nothing.encoded_len(mode), 0);
        let mut out = vec![7u8];
        Nothing.write_encoded(mode, &mut out);
        assert_eq!(out, vec![7u8]);
    }
}

#[test]
fn iter_walks_twice() {
    let it = Iter::new(vec![leaf(1), leaf(2)]);
    assert_eq!(it.0.item_count(), 2);
    assert_eq!(it.encoded_len(Mode::Der), 4);
    assert_eq!(encode(&it, Mode::Der), vec![0xA1, 0, 0xA2, 0]);
    assert_eq!(encode(&it, Mode::Der), vec![0xA1, 0, 0xA2, 0]);
}

#[test]
fn high_tag_numbers() {
    assert_eq!(encode(&leaf(30), Mode::Der), vec![0xBE, 0x00]);
    assert_eq!(encode(&leaf(31), Mode::Der), vec![0xBF, 0x1F, 0x00]);
    assert_eq!(encode(&leaf(200), Mode::Der), vec![0xBF, 0x81, 0x48, 0x00]);
    assert_eq!(Tag::ctx(200).encoded_len(), 3);
    let app = Constructed::new(Tag::application(0x4000), Nothing);
    assert_eq!(encode(&app, Mode::Der), vec![0x7F, 0x81, 0x80, 0x00, 0x00]);
    let private = Constructed::new(Tag::private(2), Nothing);
    assert_eq!(encode(&private, Mode::Der), vec![0xE2, 0x00]);
    let universal = Constructed::new(Tag::universal(4), Nothing);
    assert_eq!(encode(&universal, Mode::Der), vec![0x24, 0x00]);
}

#[test]
fn length_octets() {
    let mut out = Vec::new();
    Length::Definite(5).write_encoded(&mut out);
    Length::Definite(127).write_encoded(&mut out);
    Length::Definite(128).write_encoded(&mut out);
    Length::Definite(300).write_encoded(&mut out);
    Length::Indefinite.write_encoded(&mut out);
    assert_eq!(out, vec![0x05, 0x7F, 0x81, 0x80, 0x82, 0x01, 0x2C, 0x80]);
    assert_eq!(Length::Definite(0x1_0000).encoded_len(), 4);
    assert_eq!(Length::Definite(usize::MAX).encoded_len(), 1 + std::mem::size_of::<usize>());
}

#[test]
fn header_helpers() {
    assert_eq!(total_encoded_len(Tag::sequence(), 10), 12);
    assert_eq!(total_encoded_len(Tag::sequence(), 300), 304);
    let mut out = Vec::new();
    write_header(&mut out, Tag::integer(), false, 2);
    write_header(&mut out, Tag::sequence(), true, 300);
    assert_eq!(out, vec![0x02, 0x02, 0x30, 0x82, 0x01, 0x2C]);
}

#[test]
fn explicit_and_tagged_helpers() {
    let v = leaf(1).explicit(Tag::ctx(0));
    assert_eq!(encode(&v, Mode::Der), vec![0xA0, 0x02, 0xA1, 0x00]);
    assert_eq!(encode(&sequence_as(Tag::ctx(3), Nothing), Mode::Der), vec![0xA3, 0x00]);
    assert_eq!(encode(&set_as(Tag::ctx(4), Nothing), Mode::Der), vec![0xA4, 0x00]);
    assert_eq!(encode(&bcder::values::set(Nothing), Mode::Der), vec![0x31, 0x00]);
}

#[test]
fn captured_holds_the_encoding() {
    let v = sequence((leaf(1), leaf(2)));
    for mode in MODES {
        let c = v.to_captured(mode);
        assert_eq!(c.to_vec(), encode(&v, mode));
        assert_eq!(c.mode(), mode);
    }
}

#[test]
fn slices_and_borrowed_collections() {
    let items = vec![leaf(1), leaf(2)];
    let slice: &[Constructed<Nothing>] = &items[..];
    for mode in MODES {
        assert_eq!(encode(&slice, mode), encode(&items, mode));
        assert_eq!(slice.encoded_len(mode), items.encoded_len(mode));
        assert_eq!(encode(&Iter::new(slice), mode), encode(&items, mode));
        assert_eq!(encode(&Iter::new(&items), mode), encode(&items, mode));
    }
    let empty: &[Constructed<Nothing>] = &[];
    assert_eq!(encode(&empty, Mode::Der), Vec::<u8>::new());
}
