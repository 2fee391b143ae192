//! Whole-string conversion of legacy PUA codepoints to jamo sequences.

use vstd::prelude::*;
use vstd::string::StrSliceExecFns;
use vstd::string::StringExecFns;
use crate::is_pua;
use crate::is_pua_spec;
use crate::table::ipf_of;
use crate::table::lemma_decomp_unmapped;
use crate::table::lemma_mapped_in_range;
use crate::table::to_ipf;

verus! {

/// Relies on String::push: appends the given character to the end of the string.
pub assume_specification[ String::push ](s: &mut String, c: char)
    ensures
        final(s)@ == old(s)@.push(c),
;

/// What one input character contributes to the converted output: its table
/// decomposition if it has one, else the character itself, unchanged.
pub open spec fn decomp_of(c: char) -> Seq<char> {
    match ipf_of(c) {
        Some(d) => d,
        None => seq![c],
    }
}

/// The converted form of a whole text: each character replaced by what it
/// contributes, in input order.
pub open spec fn convert_spec(s: Seq<char>) -> Seq<char>
    decreases s.len(),
{
    if s.len() == 0 {
        Seq::empty()
    } else {
        decomp_of(s[0]) + convert_spec(s.drop_first())
    }
}

/// Conversion distributes over concatenation.
pub proof fn lemma_convert_append(a: Seq<char>, b: Seq<char>)
    ensures
        convert_spec(a + b) == convert_spec(a) + convert_spec(b),
    decreases a.len(),
{
    if a.len() == 0 {
        assert(a + b =~= b);
        assert(convert_spec(a) + convert_spec(b) =~= convert_spec(b));
    } else {
        assert((a + b).drop_first() =~= a.drop_first() + b);
        lemma_convert_append(a.drop_first(), b);
        assert(decomp_of((a + b)[0]) + (convert_spec(a.drop_first()) + convert_spec(b))
            =~= (decomp_of(a[0]) + convert_spec(a.drop_first())) + convert_spec(b));
    }
}

/// Converting one more character extends the converted prefix by exactly
/// that character's contribution.
pub proof fn lemma_convert_take_succ(s: Seq<char>, j: int)
    requires
        0 <= j < s.len(),
    ensures
        convert_spec(s.take(j + 1)) == convert_spec(s.take(j)) + decomp_of(s[j]),
{
    assert(s.take(j + 1) =~= s.take(j) + seq![s[j]]);
    lemma_convert_append(s.take(j), seq![s[j]]);
    assert(seq![s[j]].drop_first() =~= Seq::<char>::empty());
    assert(convert_spec(seq![s[j]]) =~= decomp_of(s[j]) + convert_spec(Seq::<char>::empty()));
    assert(decomp_of(s[j]) + Seq::<char>::empty() =~= decomp_of(s[j]));
}

/// A text none of whose characters has a table entry converts to itself.
pub proof fn lemma_unmapped_identity(s: Seq<char>)
    requires
        forall|i: int| 0 <= i < s.len() ==> ipf_of(#[trigger] s[i]) is None,
    ensures
        convert_spec(s) == s,
    decreases s.len(),
{
    if s.len() > 0 {
        lemma_unmapped_identity(s.drop_first());
        assert(seq![s[0]] + s.drop_first() =~= s);
    }
}

/// Identity on absence: a text with no character in the legacy PUA range
/// is left exactly as it was by conversion.
pub proof fn lemma_identity_on_absence(s: Seq<char>)
    requires
        forall|i: int| 0 <= i < s.len() ==> !is_pua_spec(#[trigger] s[i]),
    ensures
        convert_spec(s) == s,
{
    assert forall|i: int| 0 <= i < s.len() implies ipf_of(#[trigger] s[i]) is None by {
        lemma_mapped_in_range(s[i]);
    }
    lemma_unmapped_identity(s);
}

/// No character of a converted text has a table entry: decompositions
/// consist of plain jamo and unmapped characters pass through unchanged.
pub proof fn lemma_output_unmapped(s: Seq<char>)
    ensures
        forall|i: int| 0 <= i < convert_spec(s).len()
            ==> ipf_of(#[trigger] convert_spec(s)[i]) is None,
    decreases s.len(),
{
    if s.len() > 0 {
        lemma_output_unmapped(s.drop_first());
        lemma_decomp_unmapped(s[0]);
        assert forall|i: int| 0 <= i < convert_spec(s).len()
            implies ipf_of(#[trigger] convert_spec(s)[i]) is None by {
            if i < decomp_of(s[0]).len() {
                assert(convert_spec(s)[i] == decomp_of(s[0])[i]);
            } else {
                assert(convert_spec(s)[i] == convert_spec(s.drop_first())[i - decomp_of(s[0]).len()]);
            }
        }
    }
}

/// Idempotence: converting an already-converted text changes nothing.
pub proof fn lemma_convert_idempotent(s: Seq<char>)
    ensures
        convert_spec(convert_spec(s)) == convert_spec(s),
{
    lemma_output_unmapped(s);
    lemma_unmapped_identity(convert_spec(s));
}

/// The result of a whole-string conversion: either the input text itself,
/// borrowed, when it holds no legacy-range character, or a freshly built
/// owned text when at least one substitution site was found.
pub enum IpfCow<'a> {
    Borrowed(&'a str),
    Owned(String),
}

impl<'a> View for IpfCow<'a> {
    type V = Seq<char>;

    open spec fn view(&self) -> Seq<char> {
        match self {
            IpfCow::Borrowed(s) => s@,
            IpfCow::Owned(s) => s@,
        }
    }
}

impl<'a> IpfCow<'a> {
    /// The converted text as a plain string slice.
    pub fn as_str(&self) -> (r: &str)
        ensures
            r@ == self@,
    {
        match self {
            IpfCow::Borrowed(s) => s,
            IpfCow::Owned(s) => s.as_str(),
        }
    }

    /// Whether the result borrows the original input, which happens exactly
    /// when no legacy-range character was found and nothing was allocated.
    pub fn is_borrowed(&self) -> (b: bool)
        ensures
            b == (self is Borrowed),
    {
        match self {
            IpfCow::Borrowed(_) => true,
            IpfCow::Owned(_) => false,
        }
    }
}

/// Converts every legacy PUA codepoint of `pua_str` to its jamo
/// decomposition, leaving all other characters, and legacy-range
/// characters without a table entry, unchanged.
///
/// The input is returned borrowed, with no allocation, exactly when it
/// contains no character of the legacy PUA range.
pub fn to_ipf_string<'a>(pua_str: &'a str) -> (r: IpfCow<'a>)
    ensures
        r@ == convert_spec(pua_str@),
        r is Borrowed <==> (forall|i: int|
            0 <= i < pua_str@.len() ==> !is_pua_spec(#[trigger] pua_str@[i])),
{
    let n = pua_str.unicode_len();
    let mut i: usize = 0;
    while i < n && !is_pua(pua_str.get_char(i))
        invariant
            n == pua_str@.len(),
            i <= n,
            forall|k: int| 0 <= k < i ==> !is_pua_spec(#[trigger] pua_str@[k]),
        decreases n - i,
    {
        i += 1;
    }
    if i == n {
        proof {
            lemma_identity_on_absence(pua_str@);
        }
        return IpfCow::Borrowed(pua_str);
    }
    let mut buf = String::new();
    let prefix = pua_str.substring_char(0, i);
    buf.append(prefix);
    proof {
        assert(pua_str@.subrange(0, i as int) =~= pua_str@.take(i as int));
        lemma_identity_on_absence(pua_str@.take(i as int));
    }
    let mut j: usize = i;
    while j < n
        invariant
            n == pua_str@.len(),
            j <= n,
            i < n,
            is_pua_spec(pua_str@[i as int]),
            buf@ == convert_spec(pua_str@.take(j as int)),
        decreases n - j,
    {
        let c = pua_str.get_char(j);
        if is_pua(c) {
            match to_ipf(c) {
                Some(d) => {
                    buf.append(d);
                }
                None => {
                    buf.push(c);
                }
            }
        } else {
            proof {
                lemma_mapped_in_range(c);
            }
            buf.push(c);
        }
        proof {
            lemma_convert_take_succ(pua_str@, j as int);
        }
        j += 1;
    }
    proof {
        assert(pua_str@.take(n as int) =~= pua_str@);
    }
    IpfCow::Owned(buf)
}

} // verus!
