//! Parsing, normalising, comparing and generating media types such as
//! `text/plain; charset=utf-8` under the HTTP, MIME, strict and "any" grammars.
//!
//! A media type is modelled as the byte sequence of its text together with the
//! offsets of its parts. All contracts speak of that model.
//!
//! - [`spec`] holds the grammars, [`chars`] and [`quoting`] what each of them
//!   admits byte by byte.
//! - [`parse`] finds the parts of a media type in a text.
//! - [`media_type`] keeps a media type as one text with offsets, [`typed`]
//!   together with its grammar, [`name`] and [`value`] are its parts.
//! - [`compare`] and [`equal`] compare media types, [`gen`] and [`encode`]
//!   write them.
//! - [`laws`] and [`round_trip`] state what holds of all of this together.
//!
//! # What is taken on trust
//!
//! The functions marked `external_body` call the `lut`, `quoted_string`,
//! `percent_encoding` and `media-type-impl-utils` crates and std. Their
//! contracts say what those do and
//! are not proved. That is: which bytes the lookup table marks for each class
//! ([`chars`]); how std turns a text into lower case ([`text`]); how
//! `quoted_string` compares and unquotes quoted strings ([`value`]) and quotes
//! a value ([`encode`]); how `percent_encoding` encodes a value with a set of
//! `media-type-impl-utils`, and which bytes that set holds ([`encode`]);
//! and that the scan of a quoted string depends on the grammar and the text
//! only, ends behind the first `"` that closes it, and so finds a quoted
//! string that has a content ([`parse::quoted`]). Of that scan nothing else
//! is known here: it is run with the rules of [`quoting`], which are proved
//! to be what their contracts say of the byte that each is handed
//! ([`quoting::held_byte`]), but which quoted strings it accepts under them
//! is not stated.
pub mod chars;
pub mod compare;
pub mod conversions;
pub mod encode;
pub mod equal;
pub mod error;
pub mod gen;
pub mod round_trip;
mod seal;
pub mod laws;
pub mod media_type;
pub mod name;
pub mod parse;
pub mod quoting;
pub mod spec;
pub mod text;
pub mod typed;
pub mod value;

pub use quoted_string::AsciiCaseInsensitiveEq;
pub use crate::gen::{push_param_to_buffer, push_params_to_buffer};
pub use crate::media_type::{AnyMediaType, Params};
pub use crate::name::{Name, CHARSET, MULTIPART, PLAIN, TEXT};
pub use crate::parse::ParamIndices;
pub use crate::typed::MediaType;
pub use crate::value::Value;
