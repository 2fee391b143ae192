use hypua::IntoIpfIterator;
use hypua::is_pua;
use hypua::to_ipf;
use hypua::to_ipf_string;

// A sentence holding eight legacy PUA codepoints among plain Hangul,
// Hanja and punctuation, and its fully decomposed form.
const SENTENCE: &str = "\u{F53A} \u{96D9}\u{3145} \u{BBCC}\u{E38F}\u{E1AA} \u{76F8}\u{5C0D}\u{F537}\u{C57C} \u{F1FC}\u{E560}\u{B77D} \u{E6D7}\u{B77D} \u{F537}\u{E283}\u{B2E4}.";
const SENTENCE_IPF: &str = "\u{1112}\u{119E}\u{11AB} \u{96D9}\u{3145} \u{BBCC}\u{1103}\u{119E}\u{11AF}\u{1100}\u{119E}\u{11AB} \u{76F8}\u{5C0D}\u{1112}\u{119E}\u{C57C} \u{110C}\u{119E}\u{1106}\u{119E}\u{B77D} \u{1120}\u{1173}\u{B77D} \u{1112}\u{119E}\u{1102}\u{119E}\u{B2E4}.";

// A sentence with no legacy PUA codepoint at all.
const PLAIN: &str = "\u{C774} \u{BB38}\u{C7A5}\u{C740} PUA \u{BB38}\u{C790}\u{B97C} \u{D3EC}\u{D568}\u{D558}\u{C9C0} \u{C54A}\u{C2B5}\u{B2C8}\u{B2E4}.";

#[test]
fn resolve_single_codepoint() {
    assert_eq!(to_ipf('\u{E4CF}'), Some("\u{1119}\u{1170}"));
}

#[test]
fn resolve_regular_syllable_is_absent() {
    // U+C0AC is an ordinary Hangul syllable outside the legacy range.
    assert_eq!(to_ipf('\u{C0AC}'), None);
}

#[test]
fn resolve_every_table_entry() {
    assert_eq!(to_ipf('\u{E1AA}'), Some("\u{1100}\u{119E}\u{11AB}"));
    assert_eq!(to_ipf('\u{E283}'), Some("\u{1102}\u{119E}"));
    assert_eq!(to_ipf('\u{E38F}'), Some("\u{1103}\u{119E}\u{11AF}"));
    assert_eq!(to_ipf('\u{E390}'), Some("\u{1103}\u{119E}\u{11B0}"));
    assert_eq!(to_ipf('\u{E4CF}'), Some("\u{1119}\u{1170}"));
    assert_eq!(to_ipf('\u{E560}'), Some("\u{1106}\u{119E}"));
    assert_eq!(to_ipf('\u{E6D7}'), Some("\u{1120}\u{1173}"));
    assert_eq!(to_ipf('\u{F1FC}'), Some("\u{110C}\u{119E}"));
    assert_eq!(to_ipf('\u{F537}'), Some("\u{1112}\u{119E}"));
    assert_eq!(to_ipf('\u{F53A}'), Some("\u{1112}\u{119E}\u{11AB}"));
}

#[test]
fn range_predicate_boundaries() {
    assert!(!is_pua('\u{E0BB}'));
    assert!(is_pua('\u{E0BC}'));
    assert!(is_pua('\u{E4CF}'));
    assert!(is_pua('\u{F8F7}'));
    assert!(!is_pua('\u{F8F8}'));
    assert!(!is_pua('a'));
    assert!(!is_pua('\u{C0AC}'));
}

#[test]
fn in_range_but_unmapped_passes_through() {
    // U+EFFF lies in the legacy range but has no table entry: conversion
    // must not fail, and the codepoint is left unchanged.
    assert!(is_pua('\u{EFFF}'));
    assert_eq!(to_ipf('\u{EFFF}'), None);
    let out = to_ipf_string("a\u{EFFF}b");
    assert_eq!(out.as_str(), "a\u{EFFF}b");
    // A legacy-range codepoint was seen, so the result is owned.
    assert!(!out.is_borrowed());
}

#[test]
fn end_to_end_sentence() {
    let out = to_ipf_string(SENTENCE);
    assert_eq!(out.as_str(), SENTENCE_IPF);
    assert!(!out.is_borrowed());
}

#[test]
fn unchanged_sentence_is_borrowed() {
    let out = to_ipf_string(PLAIN);
    assert_eq!(out.as_str(), PLAIN);
    assert!(out.is_borrowed());
}

#[test]
fn empty_input_is_borrowed() {
    let out = to_ipf_string("");
    assert_eq!(out.as_str(), "");
    assert!(out.is_borrowed());
}

#[test]
fn idempotent_on_converted_output() {
    let once = to_ipf_string(SENTENCE);
    let twice = to_ipf_string(once.as_str());
    assert_eq!(twice.as_str(), once.as_str());
    assert!(twice.is_borrowed());
}

#[test]
fn streaming_single_decomposition() {
    // One plain syllable followed by one legacy codepoint whose entry
    // decomposes into three jamo.
    let text = "\u{BB8C}\u{E390}";
    let mut it = text.ipf_iter();
    let mut got: Vec<char> = Vec::new();
    while let Some(c) = it.next() {
        got.push(c);
    }
    assert_eq!(got, vec!['\u{BB8C}', '\u{1103}', '\u{119E}', '\u{11B0}']);
}

#[test]
fn streaming_matches_batch() {
    let batch = to_ipf_string(SENTENCE);
    let mut it = SENTENCE.ipf_iter();
    let mut got = String::new();
    while let Some(c) = it.next() {
        got.push(c);
    }
    assert_eq!(got.as_str(), batch.as_str());
}

#[test]
fn streaming_stays_exhausted() {
    let mut it = "\u{E4CF}".ipf_iter();
    assert_eq!(it.next(), Some('\u{1119}'));
    assert_eq!(it.next(), Some('\u{1170}'));
    assert_eq!(it.next(), None);
    assert_eq!(it.next(), None);
}

#[test]
fn streaming_unmapped_in_range_passes_through() {
    let mut it = "\u{EFFF}".ipf_iter();
    assert_eq!(it.next(), Some('\u{EFFF}'));
    assert_eq!(it.next(), None);
}
