//! Conversion of legacy private-use-area (PUA) Hangul codepoints into
//! standard combining-jamo sequences in first/middle/final (IPF) order.
//!
//! A historical font encoding packed whole precomposed syllables, archaic
//! jamo included, into unassigned Unicode slots. This library resolves one
//! such codepoint to its decomposition ([`to_ipf`]), classifies codepoints
//! by the legacy range ([`is_pua`]), converts a whole text at once without
//! allocating when nothing needs to change ([`to_ipf_string`]), and streams
//! a text's conversion one character at a time ([`IpfIterator`]).
//!
//! A legacy-range codepoint without a table entry is passed through
//! unchanged, by both the batch converter and the iterator.

use vstd::prelude::*;

mod convert;
mod stream;
mod table;

pub use convert::IpfCow;
pub use convert::convert_spec;
pub use convert::decomp_of;
pub use convert::lemma_convert_idempotent;
pub use convert::lemma_identity_on_absence;
pub use convert::to_ipf_string;
pub use stream::IntoIpfIterator;
pub use stream::IpfIterator;
pub use stream::lemma_stream_matches_batch;
pub use table::ipf_of;
pub use table::lemma_decomp_len;
pub use table::lemma_decomp_unmapped;
pub use table::lemma_mapped_in_range;
pub use table::lemma_range_not_membership;
pub use table::to_ipf;

verus! {

/// True exactly when `c` lies in the legacy PUA range `[0xE0BC, 0xF8F7]`.
pub open spec fn is_pua_spec(c: char) -> bool {
    0xE0BC <= c as u32 <= 0xF8F7
}

/// Classifies a character as a legacy PUA codepoint.
///
/// Returns `true` iff the scalar value lies in the inclusive range
/// `[0xE0BC, 0xF8F7]`. This is a coarse range test: a character may
/// satisfy it and still have no decomposition entry.
pub fn is_pua(pua: char) -> (r: bool)
    ensures
        r == is_pua_spec(pua),
{
    let v = pua as u32;
    0xE0BC <= v && v <= 0xF8F7
}

} // verus!
