//! Streaming conversion: a character iterator that expands legacy PUA
//! codepoints one decomposed character at a time.

use vstd::prelude::*;
use vstd::string::StrSliceExecFns;
use crate::convert::IpfCow;
use crate::convert::convert_spec;
use crate::convert::decomp_of;
use crate::table::lemma_decomp_len;
use crate::table::to_ipf;

verus! {

/// A character iterator over a text that yields every character of the
/// source in order, except that each mapped legacy PUA codepoint is
/// replaced by the characters of its decomposition, yielded one at a
/// time before the source advances.
///
/// It keeps at most one pending decomposition buffered, so it needs
/// constant extra memory regardless of the input length.
pub struct IpfIterator<'a> {
    source: &'a str,
    pos: usize,
    buffer: &'static str,
    bpos: usize,
}

impl<'a> IpfIterator<'a> {
    #[verifier::type_invariant]
    spec fn wf(self) -> bool {
        &&& self.pos <= self.source@.len()
        &&& self.bpos <= self.buffer@.len()
    }

    /// The characters the iterator has yet to yield, in order: the rest of
    /// the buffered decomposition, then the conversion of the unread part
    /// of the source.
    pub closed spec fn future(&self) -> Seq<char> {
        self.buffer@.skip(self.bpos as int) + convert_spec(self.source@.skip(self.pos as int))
    }

    /// Yields the next converted character, or `None` once the source is
    /// exhausted and the last decomposition is drained.
    pub fn next(&mut self) -> (r: Option<char>)
        ensures
            old(self).future().len() > 0 ==> {
                &&& r == Some(old(self).future()[0])
                &&& final(self).future() == old(self).future().drop_first()
            },
            old(self).future().len() == 0 ==> {
                &&& r is None
                &&& final(self).future() == old(self).future()
            },
    {
        proof {
            use_type_invariant(&*self);
        }
        let blen = self.buffer.unicode_len();
        if self.bpos < blen {
            let c = self.buffer.get_char(self.bpos);
            self.bpos = self.bpos + 1;
            proof {
                assert(old(self).future()[0] == c);
                assert(final(self).future() =~= old(self).future().drop_first());
            }
            Some(c)
        } else {
            let n = self.source.unicode_len();
            proof {
                assert(self.buffer@.skip(self.bpos as int) =~= Seq::<char>::empty());
            }
            if self.pos < n {
                let c = self.source.get_char(self.pos);
                self.pos = self.pos + 1;
                proof {
                    assert(old(self).source@.skip(old(self).pos as int)[0] == c);
                    assert(old(self).source@.skip(old(self).pos as int).drop_first()
                        =~= self.source@.skip(self.pos as int));
                    assert(old(self).future()
                        =~= decomp_of(c)
                            + convert_spec(self.source@.skip(self.pos as int)));
                }
                match to_ipf(c) {
                    Some(d) => {
                        proof {
                            lemma_decomp_len(c);
                        }
                        self.bpos = 0;
                        self.buffer = d;
                        let first = self.buffer.get_char(0);
                        self.bpos = 1;
                        proof {
                            assert(old(self).future()[0] == first);
                            assert(final(self).future() =~= old(self).future().drop_first());
                        }
                        Some(first)
                    }
                    None => {
                        proof {
                            assert(decomp_of(c) =~= seq![c]);
                            assert(old(self).future()[0] == c);
                            assert(final(self).future() =~= old(self).future().drop_first());
                        }
                        Some(c)
                    }
                }
            } else {
                proof {
                    assert(self.source@.skip(self.pos as int) =~= Seq::<char>::empty());
                    assert(old(self).future() =~= Seq::<char>::empty());
                }
                None
            }
        }
    }
}

/// Order preservation: the streaming decomposer agrees with the batch
/// converter. An iterator fresh from `ipf_iter`, which is what its
/// contract describes, will yield, in order, exactly the characters of
/// `to_ipf_string`'s result for the same text.
pub proof fn lemma_stream_matches_batch<'a, 'b>(it: IpfIterator<'a>, out: IpfCow<'b>, text: Seq<char>)
    requires
        it.future() == convert_spec(text),
        out@ == convert_spec(text),
    ensures
        it.future() == out@,
{
}

/// Lends a decomposing character iterator to a text.
pub trait IntoIpfIterator<'a>: View<V = Seq<char>> {
    /// Returns an iterator over the text's characters that expands each
    /// mapped legacy PUA codepoint into its decomposition.
    ///
    /// Order preservation: concatenating everything the iterator yields
    /// gives exactly the whole-string conversion of the same text.
    fn ipf_iter(&'a self) -> (r: IpfIterator<'a>)
        ensures
            r.future() == convert_spec(self.view()),
    ;
}

impl<'a> IntoIpfIterator<'a> for str {
    fn ipf_iter(&'a self) -> (r: IpfIterator<'a>) {
        let r = IpfIterator { source: self, pos: 0, buffer: "", bpos: 0 };
        proof {
            reveal_strlit("");
            assert(self@.skip(0) == self@) by {
                assert(self@.skip(0) =~= self@);
            }
            assert(r.future() =~= convert_spec(self@));
        }
        r
    }
}

} // verus!
