//! The words of a text that go into the dictionary.

use vstd::prelude::*;

use crate::processing::{is_whitespace, white_space};
use crate::text::{chars_of, push_char};

verus! {

/// The pieces of `s` between single spaces, as `str::split(' ')` gives them.
pub open spec fn split_spaces(s: Seq<char>) -> Seq<Seq<char>>
    decreases s.len(),
{
    if s.len() == 0 {
        seq![Seq::<char>::empty()]
    } else {
        let rest = split_spaces(s.drop_last());
        if s.last() == ' ' {
            rest.push(Seq::<char>::empty())
        } else {
            rest.update(rest.len() - 1, rest.last().push(s.last()))
        }
    }
}

pub open spec fn trim_start_ws(s: Seq<char>) -> Seq<char>
    decreases s.len(),
{
    if s.len() > 0 && white_space(s[0]) {
        trim_start_ws(s.skip(1))
    } else {
        s
    }
}

pub open spec fn trim_end_ws(s: Seq<char>) -> Seq<char>
    decreases s.len(),
{
    if s.len() > 0 && white_space(s.last()) {
        trim_end_ws(s.drop_last())
    } else {
        s
    }
}

/// `s` without white space at either end.
pub open spec fn trim_ws(s: Seq<char>) -> Seq<char> {
    trim_end_ws(trim_start_ws(s))
}

/// Whether `c` has the Unicode `Uppercase` property.
pub uninterp spec fn uppercase(c: char) -> bool;

/// Relies on `char::is_uppercase`, which answers from the Unicode `Uppercase`
/// property of the character alone.
#[verifier::external_body]
fn is_uppercase(c: char) -> (r: bool)
    ensures
        r == uppercase(c),
{
    c.is_uppercase()
}

pub open spec fn starts_upper(w: Seq<char>) -> bool {
    w.len() > 0 && uppercase(w[0])
}

/// What the piece at `i` gives: the trimmed word, where a final dot is dropped
/// when it ends a sentence (the next piece starts upper-case, or there is no
/// next piece) and a one-letter abbreviation such as `A.` gives nothing.
pub open spec fn dictionary_word(pieces: Seq<Seq<char>>, i: int) -> Option<Seq<char>> {
    let t = trim_ws(pieces[i]);
    if t.len() > 0 && t.last() == '.' {
        if t.len() == 2 && (t[0] as u32) < 128 {
            None
        } else if i + 1 < pieces.len() {
            let next = trim_ws(pieces[i + 1]);
            if (next.len() > 0 && next[0] == '\n') || starts_upper(pieces[i + 1]) {
                Some(t.drop_last())
            } else {
                Some(t)
            }
        } else {
            Some(t.drop_last())
        }
    } else {
        Some(t)
    }
}

/// The words that the first `n` pieces give, in order.
pub open spec fn dictionary_words_upto(pieces: Seq<Seq<char>>, n: int) -> Seq<Seq<char>>
    decreases n,
{
    if n <= 0 {
        Seq::empty()
    } else {
        let before = dictionary_words_upto(pieces, n - 1);
        match dictionary_word(pieces, n - 1) {
            Some(w) => before.push(w),
            None => before,
        }
    }
}

fn split_on_spaces(chars: &Vec<char>) -> (r: Vec<Vec<char>>)
    ensures
        r@.map_values(|p: Vec<char>| p@) == split_spaces(chars@),
{
    let mut pieces: Vec<Vec<char>> = Vec::new();
    pieces.push(Vec::new());
    let mut i: usize = 0;
    assert(chars@.take(0) =~= Seq::<char>::empty());
    assert(pieces@.map_values(|p: Vec<char>| p@) =~= split_spaces(Seq::<char>::empty()));
    while i < chars.len()
        invariant
            0 <= i <= chars@.len(),
            pieces@.len() > 0,
            pieces@.map_values(|p: Vec<char>| p@) == split_spaces(chars@.take(i as int)),
        decreases chars@.len() - i,
    {
        let c = chars[i];
        let ghost before = chars@.take(i as int);
        assert(chars@.take(i + 1).drop_last() =~= before);
        if c == ' ' {
            pieces.push(Vec::new());
        } else {
            let mut last = pieces.pop().unwrap();
            last.push(c);
            pieces.push(last);
        }
        i = i + 1;
        assert(pieces@.map_values(|p: Vec<char>| p@) =~= split_spaces(chars@.take(i as int)));
    }
    assert(chars@.take(chars@.len() as int) =~= chars@);
    pieces
}

fn trim(piece: &Vec<char>) -> (r: Vec<char>)
    ensures
        r@ == trim_ws(piece@),
{
    let mut start: usize = 0;
    assert(piece@.skip(0) =~= piece@);
    while start < piece.len() && is_whitespace(piece[start])
        invariant
            0 <= start <= piece@.len(),
            trim_start_ws(piece@) == trim_start_ws(piece@.skip(start as int)),
        decreases piece@.len() - start,
    {
        assert(piece@.skip(start as int).skip(1) =~= piece@.skip(start + 1));
        start = start + 1;
    }
    let mut end: usize = piece.len();
    assert(piece@.skip(start as int) =~= piece@.subrange(start as int, end as int));
    while end > start && is_whitespace(piece[end - 1])
        invariant
            start <= end <= piece@.len(),
            trim_start_ws(piece@) == piece@.skip(start as int),
            trim_ws(piece@) == trim_end_ws(piece@.subrange(start as int, end as int)),
        decreases end,
    {
        assert(piece@.subrange(start as int, end as int).drop_last() =~= piece@.subrange(
            start as int,
            end - 1,
        ));
        end = end - 1;
    }
    let mut out: Vec<char> = Vec::new();
    let mut k: usize = start;
    while k < end
        invariant
            start <= k <= end <= piece@.len(),
            out@ == piece@.subrange(start as int, k as int),
        decreases end - k,
    {
        out.push(piece[k]);
        k = k + 1;
        assert(out@ =~= piece@.subrange(start as int, k as int));
    }
    out
}

fn to_string(chars: &Vec<char>, len: usize) -> (r: String)
    requires
        len <= chars@.len(),
    ensures
        r@ == chars@.take(len as int),
{
    let mut out = String::new();
    let mut k: usize = 0;
    while k < len
        invariant
            0 <= k <= len <= chars@.len(),
            out@ == chars@.take(k as int),
        decreases len - k,
    {
        push_char(&mut out, chars[k]);
        k = k + 1;
        assert(out@ =~= chars@.take(k as int));
    }
    out
}

/// The words of `text` for the dictionary, in order.
pub fn dictionary_words(text: &str) -> (r: Vec<String>)
    ensures
        r@.map_values(|w: String| w@) == dictionary_words_upto(
            split_spaces(text@),
            split_spaces(text@).len() as int,
        ),
{
    let chars = chars_of(text);
    let pieces = split_on_spaces(&chars);
    let ghost model = pieces@.map_values(|p: Vec<char>| p@);
    let mut words: Vec<String> = Vec::new();
    let mut i: usize = 0;
    while i < pieces.len()
        invariant
            model == pieces@.map_values(|p: Vec<char>| p@),
            model == split_spaces(text@),
            0 <= i <= pieces@.len(),
            words@.map_values(|w: String| w@) == dictionary_words_upto(model, i as int),
        decreases pieces@.len() - i,
    {
        assert(model[i as int] == pieces@[i as int]@);
        let t = trim(&pieces[i]);
        let n = t.len();
        let mut word: Option<String> = None;
        if n > 0 && t[n - 1] == '.' {
            if n == 2 && (t[0] as u32) < 128 {
            } else if i + 1 < pieces.len() {
                assert(model[i + 1] == pieces@[i + 1]@);
                let next_piece = &pieces[i + 1];
                let next = trim(next_piece);
                let upper = next_piece.len() > 0 && is_uppercase(next_piece[0]);
                if (next.len() > 0 && next[0] == '\n') || upper {
                    word = Some(to_string(&t, n - 1));
                } else {
                    word = Some(to_string(&t, n));
                }
            } else {
                word = Some(to_string(&t, n - 1));
            }
        } else {
            word = Some(to_string(&t, n));
        }
        proof {
            assert(t@.take(n as int) =~= t@);
            assert(t@.take(n - 1) =~= t@.drop_last());
        }
        match word {
            Some(w) => {
                words.push(w);
            },
            None => {},
        }
        i = i + 1;
        assert(words@.map_values(|w: String| w@) =~= dictionary_words_upto(model, i as int));
    }
    words
}

} // verus!
