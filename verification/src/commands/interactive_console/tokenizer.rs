//! Splitting a console line into tokens.

use vstd::prelude::*;

use crate::text::{chars_of, find_char, find_from, string_from_range};
use crate::utils::seq_join;

verus! {

/// The pieces of `s` between the occurrences of `sep` (as `str::split` gives them):
/// one more piece than there are separators, empty pieces included.
pub open spec fn split_text(s: Seq<char>, sep: char) -> Seq<Seq<char>>
    decreases s.len(),
{
    let k = find_from(s, sep, 0);
    if k >= s.len() {
        seq![s]
    } else {
        proof {
            lemma_find_from_ge(s, sep, 0);
        }
        seq![s.take(k)] + split_text(s.skip(k + 1), sep)
    }
}

pub proof fn lemma_find_from_ge(s: Seq<char>, sep: char, from: int)
    requires
        0 <= from <= s.len(),
    ensures
        find_from(s, sep, from) >= from,
    decreases s.len() - from,
{
    if from < s.len() && s[from] != sep {
        lemma_find_from_ge(s, sep, from + 1);
    }
}

proof fn lemma_find_from_shift(s: Seq<char>, sep: char, start: int, from: int)
    requires
        0 <= start <= from <= s.len(),
    ensures
        find_from(s.skip(start), sep, from - start) == find_from(s, sep, from) - start,
    decreases s.len() - from,
{
    if from < s.len() && s[from] != sep {
        lemma_find_from_shift(s, sep, start, from + 1);
    }
}

proof fn lemma_join_front(a: Seq<char>, t: Seq<Seq<char>>, sep: Seq<char>)
    requires
        t.len() >= 1,
    ensures
        seq_join(seq![a] + t, sep) == a + sep + seq_join(t, sep),
    decreases t.len(),
{
    let whole = seq![a] + t;
    assert(whole.len() >= 2);
    assert(seq_join(whole, sep) == seq_join(whole.drop_last(), sep) + sep + whole.last());
    if t.len() == 1 {
        assert(whole.drop_last() =~= seq![a]);
        assert(seq_join(seq![a], sep) == a);
        assert(seq_join(t, sep) == t[0]);
        assert(whole.last() == t[0]);
    } else {
        lemma_join_front(a, t.drop_last(), sep);
        assert(whole.drop_last() =~= seq![a] + t.drop_last());
        assert(whole.last() == t.last());
        assert(seq_join(t, sep) == seq_join(t.drop_last(), sep) + sep + t.last());
        assert(a + sep + seq_join(t.drop_last(), sep) + sep + t.last() =~= a + sep + (seq_join(t.drop_last(), sep) + sep + t.last()));
    }
}

proof fn lemma_split_nonempty(s: Seq<char>, sep: char)
    ensures
        split_text(s, sep).len() >= 1,
    decreases s.len(),
{
    let k = find_from(s, sep, 0);
    if k < s.len() {
        lemma_find_from_ge(s, sep, 0);
        lemma_split_nonempty(s.skip(k + 1), sep);
    }
}

/// Joining the tokens of a line with single spaces gives the line back: splitting loses nothing.
pub proof fn tokens_join_back(s: Seq<char>)
    ensures
        seq_join(split_text(s, ' '), seq![' ']) == s,
    decreases s.len(),
{
    let k = find_from(s, ' ', 0);
    crate::text::lemma_find_from_bounds(s, ' ', 0);
    if k < s.len() {
        let rest = s.skip(k + 1);
        tokens_join_back(rest);
        lemma_split_nonempty(rest, ' ');
        lemma_join_front(s.take(k), split_text(rest, ' '), seq![' ']);
        assert(s =~= s.take(k) + seq![' '] + rest);
    }
}

/// Splits a line of input at each space.
pub fn tokenize(s: &str) -> (r: Vec<String>)
    ensures
        r@.map_values(|t: String| t@) == split_text(s@, ' '),
{
    let c = chars_of(s);
    let n = c.len();
    let mut out: Vec<String> = Vec::new();
    let mut start: usize = 0;
    assert(c@.skip(0) =~= c@);
    assert(out@.map_values(|t: String| t@) =~= Seq::<Seq<char>>::empty());
    loop
        invariant
            c@ == s@,
            n == c@.len(),
            start <= n,
            out@.map_values(|t: String| t@) + split_text(c@.skip(start as int), ' ') == split_text(c@, ' '),
        decreases n - start,
    {
        let k = find_char(c.as_slice(), ' ', start);
        proof {
            lemma_find_from_shift(c@, ' ', start as int, start as int);
            assert(c@.skip(start as int).take(k - start) == c@.subrange(start as int, k as int));
        }
        let piece = string_from_range(c.as_slice(), start, k);
        let ghost before = out@;
        out.push(piece);
        proof {
            assert(out@.map_values(|t: String| t@) == before.map_values(|t: String| t@).push(piece@));
        }
        if k == n {
            proof {
                assert(split_text(c@.skip(start as int), ' ') == seq![c@.skip(start as int)]);
                assert(c@.skip(start as int) == c@.subrange(start as int, k as int));
                assert(before.map_values(|t: String| t@).push(piece@) == before.map_values(|t: String| t@) + seq![piece@]);
            }
            return out;
        }
        proof {
            let rest = c@.skip(start as int);
            assert(rest.skip(k - start + 1) == c@.skip(k + 1));
            assert(split_text(rest, ' ') == seq![rest.take(k - start)] + split_text(c@.skip(k + 1), ' '));
            assert(before.map_values(|t: String| t@).push(piece@) + split_text(c@.skip(k + 1), ' ')
                == before.map_values(|t: String| t@) + (seq![piece@] + split_text(c@.skip(k + 1), ' ')));
        }
        start = k + 1;
    }
}

/// The tokens of a console line, consumed from the front.
pub struct TokenStream {
    tokens: Vec<String>,
    pos: usize,
}

impl TokenStream {
    /// The tokens not yet consumed.
    pub closed spec fn remaining(&self) -> Seq<Seq<char>> {
        if self.pos < self.tokens@.len() {
            self.tokens@.map_values(|t: String| t@).skip(self.pos as int)
        } else {
            Seq::empty()
        }
    }

    pub closed spec fn well_formed(&self) -> bool {
        self.pos <= self.tokens@.len()
    }

    /// A stream over `tokens`.
    pub fn new(tokens: Vec<String>) -> (r: TokenStream)
        ensures
            r.remaining() == tokens@.map_values(|t: String| t@),
    {
        let r = TokenStream { tokens, pos: 0 };
        assert(tokens@.map_values(|t: String| t@).skip(0) =~= tokens@.map_values(|t: String| t@));
        r
    }

    /// Takes the next token, if there is one.
    pub fn next(&mut self) -> (r: Option<String>)
        ensures
            old(self).remaining().len() == 0 ==> r is None && final(self).remaining() == old(self).remaining(),
            old(self).remaining().len() > 0 ==> (r matches Some(t) && t@ == old(self).remaining()[0])
                && final(self).remaining() == old(self).remaining().drop_first(),
    {
        if self.pos < self.tokens.len() {
            let t = self.tokens[self.pos].clone();
            proof {
                assert(self.tokens@.map_values(|t: String| t@)[self.pos as int] == self.tokens@[self.pos as int]@);
            }
            self.pos = self.pos + 1;
            proof {
                if self.pos < self.tokens@.len() {
                    assert(self.remaining() =~= old(self).remaining().drop_first());
                } else {
                    assert(old(self).remaining().drop_first() =~= Seq::<Seq<char>>::empty());
                }
            }
            Some(t)
        } else {
            proof {
                assert(old(self).remaining().len() == 0);
            }
            None
        }
    }
}

} // verus!
