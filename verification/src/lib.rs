//! A self-describing variable-length encoding for unsigned integers of up to
//! 128 bits, with mappings for signed integers and IEEE-754 bit patterns.
//!
//! The first byte of an encoding tells how long it is. Small values take few
//! bytes; a decoder accepts every byte pattern, including encodings that are
//! longer than they need to be.
//!
//! The module `format` says which bytes stand for which number, `laws` holds
//! what is proved of the format as a whole, `lemmas` the arithmetic that the
//! proofs rest on, and the other modules hold the encoders and decoders, each
//! with a contract over `format`.

pub mod bytes;
pub mod format;
pub mod laws;
pub mod lemmas;
pub mod length;
pub mod packed;
pub mod reversed;
pub mod signed;
pub mod unsigned;

pub use crate::length::encoded_len;
pub use crate::reversed::decode_f32_bits;
pub use crate::reversed::decode_f64_bits;
pub use crate::reversed::encode_f32_bits;
pub use crate::reversed::encode_f64_bits;
pub use crate::signed::decode_i128;
pub use crate::signed::decode_i32;
pub use crate::signed::decode_i64;
pub use crate::signed::encode_i128;
pub use crate::signed::encode_i32;
pub use crate::signed::encode_i64;
pub use crate::unsigned::decode_u128;
pub use crate::unsigned::decode_u32;
pub use crate::unsigned::decode_u64;
pub use crate::unsigned::encode_u128;
pub use crate::unsigned::encode_u32;
pub use crate::unsigned::encode_u64;
