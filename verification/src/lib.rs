//! Order-preserving, variable-length encoding of 64-bit integers.
//!
//! A value is encoded in one to nine bytes: a header byte, whose top bits
//! name the category of the value, and up to eight payload bytes in
//! big-endian order. Comparing two encodings byte by byte, as unsigned
//! values, orders them as their values are ordered, so encodings can serve
//! as sort keys that need no decoding. The one exception, two values below
//! `-8256` whose payloads differ in length, is stated in
//! [`laws::order_kept`].
//!
//! The wire format is defined as mathematics in [`format`]; the encoders and
//! decoders are proved to compute exactly that, and [`laws`] holds the
//! theorems about the format itself.

pub mod bits;
pub mod bytes;
pub mod category;
pub mod error;
pub mod format;
pub mod laws;
pub mod order;
pub mod signed;
pub mod size;
pub mod unsigned;

pub use crate::category::Category;
pub use crate::error::DecodeError;
pub use crate::signed::{pack_int, unpack_int};
pub use crate::size::{size_int, size_uint};
pub use crate::unsigned::{pack_uint, unpack_uint};
