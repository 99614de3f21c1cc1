//! The character encodings a transcoding reader can decode from.

use vstd::prelude::*;

verus! {

/// A named byte-level text encoding. Charset selection happens outside the
/// transcoding core; a reader is handed an already resolved `Charset`.
#[derive(Clone, Copy, PartialEq, Eq, Structural, Debug)]
pub enum Charset {
    /// The UTF-8 encoding.
    Utf8,
    /// The Windows-1252 encoding (a superset of Latin-1).
    Windows1252,
}

/// The UTF-8 charset.
pub const UTF_8: Charset = Charset::Utf8;

/// The Windows-1252 (Latin-1 superset) charset.
pub const WINDOWS_1252: Charset = Charset::Windows1252;

} // verus!
