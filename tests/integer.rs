use bcder::decode::{Constructed, Error, Primitive};
use bcder::{Integer, Mode, Tag, Unsigned};
use bcder::write_header;
use bytes::Bytes;

fn prim(content: &[u8]) -> Primitive {
    Primitive::new(Bytes::copy_from_slice(content))
}

fn integer(content: &[u8]) -> Result<Integer, Error> {
    Integer::take_content_from(&mut prim(content))
}

fn unsigned(content: &[u8]) -> Result<Unsigned, Error> {
    Unsigned::take_content_from(&mut prim(content))
}

#[test]
fn integer_redundant_leading_zero_is_malformed() {
    assert_eq!(integer(&[0x00, 0x00]).unwrap_err(), Error::Malformed);
    assert_eq!(integer(&[0x00, 0x7F]).unwrap_err(), Error::Malformed);
}

#[test]
fn integer_redundant_leading_ff_is_malformed() {
    assert_eq!(integer(&[0xFF, 0x80]).unwrap_err(), Error::Malformed);
    assert_eq!(integer(&[0xFF, 0xFF, 0x01]).unwrap_err(), Error::Malformed);
}

#[test]
fn integer_empty_is_malformed() {
    assert_eq!(integer(&[]).unwrap_err(), Error::Malformed);
    assert_eq!(unsigned(&[]).unwrap_err(), Error::Malformed);
}

#[test]
fn integer_accepts_minimal_forms() {
    assert_eq!(integer(&[0x00]).unwrap().to_vec(), vec![0x00]);
    assert_eq!(integer(&[0x00, 0x80]).unwrap().to_vec(), vec![0x00, 0x80]);
    assert_eq!(integer(&[0xFF, 0x7F]).unwrap().to_vec(), vec![0xFF, 0x7F]);
    assert_eq!(integer(&[0xFF]).unwrap().to_vec(), vec![0xFF]);
    // Only the first two octets decide.
    assert_eq!(integer(&[0x01, 0x00, 0x00]).unwrap().to_vec(), vec![0x01, 0x00, 0x00]);
}

#[test]
fn unsigned_sign_bit_is_malformed() {
    assert_eq!(unsigned(&[0x80]).unwrap_err(), Error::Malformed);
    assert_eq!(unsigned(&[0xFF, 0x7F]).unwrap_err(), Error::Malformed);
    assert_eq!(unsigned(&[0x00, 0x00]).unwrap_err(), Error::Malformed);
}

#[test]
fn sign_bit_content_is_an_integer() {
    assert_eq!(integer(&[0x80]).unwrap().to_vec(), vec![0x80]);
}

#[test]
fn unsigned_accepts_leading_zero_before_high_bit() {
    assert_eq!(unsigned(&[0x00, 0x80]).unwrap().to_vec(), vec![0x00, 0x80]);
    assert_eq!(unsigned(&[0x7F]).unwrap().to_vec(), vec![0x7F]);
}

#[test]
fn take_content_takes_everything() {
    let mut p = prim(&[0x01, 0x02]);
    assert!(Integer::take_content_from(&mut p).is_ok());
    assert_eq!(p.take_all().len(), 0);
    let mut p = prim(&[0x00, 0x01]);
    assert!(Integer::take_content_from(&mut p).is_err());
    assert_eq!(p.take_all().len(), 0);
}

fn encode_der(u: &Unsigned) -> Vec<u8> {
    let mut out = Vec::new();
    write_header(&mut out, Tag::integer(), false, u.encoded_len(Mode::Der));
    u.write_encoded(Mode::Der, &mut out);
    out
}

#[test]
fn unsigned_300_round_trip() {
    let u = Unsigned::from(300u32);
    assert_eq!(u.to_vec(), vec![0x01, 0x2C]);
    assert_eq!(u.encoded_len(Mode::Der), 2);
    let der = encode_der(&u);
    assert_eq!(der, vec![0x02, 0x02, 0x01, 0x2C]);
    let mut cons = Constructed::new(Bytes::from(der));
    let back = Unsigned::take_from(&mut cons).unwrap();
    assert_eq!(back.to_vec(), vec![0x01, 0x2C]);
    assert!(cons.is_exhausted());
}

#[test]
fn unsigned_128_needs_leading_zero() {
    let u = Unsigned::from(128u32);
    assert_eq!(u.to_vec(), vec![0x00, 0x80]);
    assert_eq!(encode_der(&u), vec![0x02, 0x02, 0x00, 0x80]);
}

#[test]
fn unsigned_small_and_large_values() {
    assert_eq!(Unsigned::from(0u32).to_vec(), vec![0x00]);
    assert_eq!(Unsigned::from(127u32).to_vec(), vec![0x7F]);
    assert_eq!(Unsigned::from(0x8000_0000u32).to_vec(), vec![0x00, 0x80, 0x00, 0x00, 0x00]);
    assert_eq!(Unsigned::from(u32::MAX).to_vec(), vec![0x00, 0xFF, 0xFF, 0xFF, 0xFF]);
    assert_eq!(Unsigned::from_u32(65536).to_vec(), vec![0x01, 0x00, 0x00]);
}

#[test]
fn take_from_reads_one_value_and_leaves_the_rest() {
    let mut cons = Constructed::new(Bytes::from(vec![0x02, 0x01, 0x80, 0x02, 0x01, 0x05]));
    let i = Integer::take_from(&mut cons).unwrap();
    assert_eq!(i.to_vec(), vec![0x80]);
    let u = Unsigned::take_from(&mut cons).unwrap();
    assert_eq!(u.to_vec(), vec![0x05]);
    assert!(cons.is_exhausted());
}

#[test]
fn take_from_long_form_length() {
    let mut data = vec![0x02, 0x81, 0x81, 0x01];
    data.extend(std::iter::repeat(0u8).take(128));
    let mut cons = Constructed::new(Bytes::from(data));
    let i = Integer::take_from(&mut cons).unwrap();
    assert_eq!(i.to_vec().len(), 129);
    assert!(cons.is_exhausted());
}

#[test]
fn take_from_errors_leave_data_untouched() {
    // Wrong tag.
    let mut cons = Constructed::new(Bytes::from(vec![0x04, 0x01, 0x05]));
    assert_eq!(Integer::take_from(&mut cons).unwrap_err(), Error::Malformed);
    assert!(!cons.is_exhausted());
    // Constructed bit set.
    let mut cons = Constructed::new(Bytes::from(vec![0x22, 0x01, 0x05]));
    assert_eq!(Integer::take_from(&mut cons).unwrap_err(), Error::Malformed);
    // Content runs past the end.
    let mut cons = Constructed::new(Bytes::from(vec![0x02, 0x03, 0x05]));
    assert_eq!(Integer::take_from(&mut cons).unwrap_err(), Error::Malformed);
    // Indefinite length on a primitive value.
    let mut cons = Constructed::new(Bytes::from(vec![0x02, 0x80, 0x05, 0x00, 0x00]));
    assert_eq!(Integer::take_from(&mut cons).unwrap_err(), Error::Malformed);
    // Too many length octets.
    let mut cons = Constructed::new(Bytes::from(vec![0x02, 0x89, 0, 0, 0, 0, 0, 0, 0, 0, 1, 5]));
    assert_eq!(Integer::take_from(&mut cons).unwrap_err(), Error::Unimplemented);
    // Nothing at all.
    let mut cons = Constructed::new(Bytes::new());
    assert_eq!(Integer::take_from(&mut cons).unwrap_err(), Error::Malformed);
    // Well-framed but non-minimal content.
    let mut cons = Constructed::new(Bytes::from(vec![0x02, 0x02, 0x00, 0x05]));
    assert_eq!(Integer::take_from(&mut cons).unwrap_err(), Error::Malformed);
    assert!(cons.is_exhausted());
    let mut cons = Constructed::new(Bytes::from(vec![0x02, 0x01, 0x80]));
    assert_eq!(Unsigned::take_from(&mut cons).unwrap_err(), Error::Malformed);
}

#[test]
fn unsigned_value_in_a_sequence() {
    let a = Unsigned::from(300u32);
    let b = Unsigned::from(5u32);
    let seq = bcder::sequence((a.encode(), b.encode_as(Tag::ctx(0))));
    for mode in [Mode::Ber, Mode::Der] {
        let mut out = Vec::new();
        bcder::Values::write_encoded(&seq, mode, &mut out);
        assert_eq!(out, vec![0x30, 0x07, 0x02, 0x02, 0x01, 0x2C, 0x80, 0x01, 0x05]);
        assert_eq!(bcder::Values::encoded_len(&seq, mode), out.len());
    }
    let mut out = Vec::new();
    bcder::Values::write_encoded(&seq, Mode::Cer, &mut out);
    assert_eq!(out, vec![0x30, 0x80, 0x02, 0x02, 0x01, 0x2C, 0x80, 0x01, 0x05, 0x00, 0x00]);
}

#[test]
fn clones_share_content() {
    let i = integer(&[0x12, 0x34]).unwrap();
    let j = i.clone();
    assert_eq!(j.to_vec(), vec![0x12, 0x34]);
    let u = Unsigned::from(1000u32);
    assert_eq!(u.clone().to_vec(), vec![0x03, 0xE8]);
}

#[test]
fn equality_and_hash_follow_content() {
    assert_eq!(Unsigned::from(300u32), unsigned(&[0x01, 0x2C]).unwrap());
    assert_ne!(Unsigned::from(300u32), Unsigned::from(301u32));
    assert_eq!(integer(&[0x80]).unwrap(), integer(&[0x80]).unwrap());
    let mut seen = std::collections::HashSet::new();
    seen.insert(Unsigned::from(7u32));
    assert!(seen.contains(&unsigned(&[0x07]).unwrap()));
}
