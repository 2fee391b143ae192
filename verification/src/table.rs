//! The mapping table from legacy PUA codepoints to their jamo decompositions.
//!
//! The table is fixed at build time and read-only thereafter: each entry maps
//! one legacy codepoint to the ordered jamo sequence (leading consonant,
//! vowel, optional trailing consonant) that the legacy glyph stood for.

use vstd::prelude::*;
use crate::is_pua_spec;

verus! {

/// The mathematical content of the mapping table: the decomposition of a
/// legacy codepoint, or `None` for a codepoint that has no entry.
pub open spec fn ipf_of(c: char) -> Option<Seq<char>> {
    if c == '\u{E1AA}' {
        Some(seq!['\u{1100}', '\u{119E}', '\u{11AB}'])
    } else if c == '\u{E283}' {
        Some(seq!['\u{1102}', '\u{119E}'])
    } else if c == '\u{E38F}' {
        Some(seq!['\u{1103}', '\u{119E}', '\u{11AF}'])
    } else if c == '\u{E390}' {
        Some(seq!['\u{1103}', '\u{119E}', '\u{11B0}'])
    } else if c == '\u{E4CF}' {
        Some(seq!['\u{1119}', '\u{1170}'])
    } else if c == '\u{E560}' {
        Some(seq!['\u{1106}', '\u{119E}'])
    } else if c == '\u{E6D7}' {
        Some(seq!['\u{1120}', '\u{1173}'])
    } else if c == '\u{F1FC}' {
        Some(seq!['\u{110C}', '\u{119E}'])
    } else if c == '\u{F537}' {
        Some(seq!['\u{1112}', '\u{119E}'])
    } else if c == '\u{F53A}' {
        Some(seq!['\u{1112}', '\u{119E}', '\u{11AB}'])
    } else {
        None
    }
}

/// Looks a single codepoint up in the mapping table.
///
/// Returns the decomposed jamo string for a mapped legacy codepoint and
/// `None` for any codepoint, in or out of the legacy range, that has no
/// table entry.
pub fn to_ipf(pua: char) -> (r: Option<&'static str>)
    ensures
        match r {
            Some(s) => ipf_of(pua) == Some(s@),
            None => ipf_of(pua) is None,
        },
{
    proof {
        reveal_strlit("\u{1100}\u{119E}\u{11AB}");
        reveal_strlit("\u{1102}\u{119E}");
        reveal_strlit("\u{1103}\u{119E}\u{11AF}");
        reveal_strlit("\u{1103}\u{119E}\u{11B0}");
        reveal_strlit("\u{1119}\u{1170}");
        reveal_strlit("\u{1106}\u{119E}");
        reveal_strlit("\u{1120}\u{1173}");
        reveal_strlit("\u{110C}\u{119E}");
        reveal_strlit("\u{1112}\u{119E}");
        reveal_strlit("\u{1112}\u{119E}\u{11AB}");
        assert("\u{1100}\u{119E}\u{11AB}"@ =~= seq!['\u{1100}', '\u{119E}', '\u{11AB}']);
        assert("\u{1102}\u{119E}"@ =~= seq!['\u{1102}', '\u{119E}']);
        assert("\u{1103}\u{119E}\u{11AF}"@ =~= seq!['\u{1103}', '\u{119E}', '\u{11AF}']);
        assert("\u{1103}\u{119E}\u{11B0}"@ =~= seq!['\u{1103}', '\u{119E}', '\u{11B0}']);
        assert("\u{1119}\u{1170}"@ =~= seq!['\u{1119}', '\u{1170}']);
        assert("\u{1106}\u{119E}"@ =~= seq!['\u{1106}', '\u{119E}']);
        assert("\u{1120}\u{1173}"@ =~= seq!['\u{1120}', '\u{1173}']);
        assert("\u{110C}\u{119E}"@ =~= seq!['\u{110C}', '\u{119E}']);
        assert("\u{1112}\u{119E}"@ =~= seq!['\u{1112}', '\u{119E}']);
        assert("\u{1112}\u{119E}\u{11AB}"@ =~= seq!['\u{1112}', '\u{119E}', '\u{11AB}']);
    }
    match pua {
        '\u{E1AA}' => Some("\u{1100}\u{119E}\u{11AB}"),
        '\u{E283}' => Some("\u{1102}\u{119E}"),
        '\u{E38F}' => Some("\u{1103}\u{119E}\u{11AF}"),
        '\u{E390}' => Some("\u{1103}\u{119E}\u{11B0}"),
        '\u{E4CF}' => Some("\u{1119}\u{1170}"),
        '\u{E560}' => Some("\u{1106}\u{119E}"),
        '\u{E6D7}' => Some("\u{1120}\u{1173}"),
        '\u{F1FC}' => Some("\u{110C}\u{119E}"),
        '\u{F537}' => Some("\u{1112}\u{119E}"),
        '\u{F53A}' => Some("\u{1112}\u{119E}\u{11AB}"),
        _ => None,
    }
}

/// Every key of the mapping table lies in the legacy PUA range. The range
/// predicate is therefore a sound fast-path filter for the resolver.
pub proof fn lemma_mapped_in_range(c: char)
    ensures
        ipf_of(c) is Some ==> is_pua_spec(c),
{
}

/// The range predicate is coarser than the table: some codepoints lie in
/// the legacy PUA range yet have no decomposition entry, and conversion
/// leaves such codepoints unresolved rather than failing.
pub proof fn lemma_range_not_membership()
    ensures
        exists|c: char| #[trigger] is_pua_spec(c) && ipf_of(c) is None,
{
    assert(is_pua_spec('\u{E0BC}') && ipf_of('\u{E0BC}') is None);
}

/// Every table entry is a non-empty decomposition of at most three jamo.
pub proof fn lemma_decomp_len(c: char)
    ensures
        ipf_of(c) matches Some(d) ==> 1 <= d.len() <= 3,
{
}

/// No character produced by a decomposition is itself a table key: the
/// decomposed jamo all lie below the legacy PUA range.
pub proof fn lemma_decomp_unmapped(c: char)
    ensures
        ipf_of(c) matches Some(d) ==> forall|j: int|
            0 <= j < d.len() ==> ipf_of(#[trigger] d[j]) is None,
{
    if ipf_of(c) is Some {
        let d = ipf_of(c)->Some_0;
        assert forall|j: int| 0 <= j < d.len() implies ipf_of(#[trigger] d[j]) is None by {
            assert((d[j] as u32) < 0xE0BC);
            lemma_mapped_in_range(d[j]);
        }
    }
}

} // verus!
