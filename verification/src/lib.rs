//! Bounded, validated strings.
//!
//! A [`BoundedStr`] holds a text whose logical length lies between two bounds,
//! whose content a format policy accepts and whose bytes fit the capacity that
//! its storage strategy allows. It is built by validation and changed only
//! through a transactional mutation, so that no caller ever reads a text that
//! breaks one of these rules.

pub mod bounded;
pub mod error;
pub mod policy;

mod compare;
mod convert;
mod hashing;
mod std_calls;

pub use bounded::{BoundedStr, FlexStr, StackStr};
pub use error::BoundedStrError;
pub use policy::{AllowAll, AsciiOnly, Bytes, Chars, FormatPolicy, LengthPolicy, TokenPolicy};
