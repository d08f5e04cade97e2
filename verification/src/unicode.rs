//! Trusted views of two Unicode computations the library leans on: case
//! folding for the ordering relation, and display width for the layout
//! engine. Each result depends on the characters of its argument alone, so
//! each gets an opaque name that the contracts speak of.

use vstd::prelude::*;

verus! {

/// The characters of a string after Unicode lowercase conversion.
pub uninterp spec fn lower_of(s: Seq<char>) -> Seq<char>;

/// The displayed width in terminal columns of a string.
pub uninterp spec fn display_width_of(s: Seq<char>) -> nat;

/// Relies on `str::to_lowercase`: Unicode default case conversion, a pure
/// function of the characters alone.
#[verifier::external_body]
pub(crate) fn lowercase(s: &str) -> (r: String)
    ensures
        r@ == lower_of(s@),
{
    s.to_lowercase()
}

/// Relies on `unicode_width::UnicodeWidthStr::width`: the displayed width of
/// a string in columns, computed from a fixed per-character table (with
/// ligature adjustments), a pure function of the characters alone.
#[verifier::external_body]
pub(crate) fn str_width(s: &str) -> (r: usize)
    ensures
        r as nat == display_width_of(s@),
{
    unicode_width::UnicodeWidthStr::width(s)
}

} // verus!
