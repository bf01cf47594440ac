//! Encoding and decoding of values in the ASN.1 BER family of encodings:
//! BER, CER and DER.

pub mod mode;
pub mod tag;
pub mod length;
pub mod buffer;
pub mod captured;
pub mod values;
pub mod decode;
pub mod integer;
pub mod laws;

pub use mode::Mode;
pub use tag::{Class, Tag};
pub use length::Length;
pub use captured::Captured;
pub use values::{
    sequence, sequence_as, set_as, total_encoded_len, write_header, Choice2, Choice3,
    Constructed, Iter, Nothing, Restart, Values,
};
pub use integer::{Integer, Unsigned, UnsignedValue};
