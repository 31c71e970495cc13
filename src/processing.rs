//! Passes over extracted text: entity decoding, white-space collapsing, word
//! stripping, and quote escaping.

use vstd::prelude::*;

use crate::text::{chars_of, push_char};

verus! {

/// A transformation of a chunk of text.
pub trait ProcessingPass {
    /// What the pass makes of `chunk`.
    spec fn process_spec(chunk: Seq<char>) -> Seq<char>;

    fn process(chunk: &str) -> (r: String)
        ensures
            r@ == Self::process_spec(chunk@),
    ;
}

/// Whether `s` begins with `p`.
pub open spec fn begins_with(s: Seq<char>, p: Seq<char>) -> bool {
    s.len() >= p.len() && s.subrange(0, p.len() as int) == p
}

/// `s` with the five predefined XML entities replaced by their characters,
/// from left to right.
pub open spec fn xml_unescaped(s: Seq<char>) -> Seq<char>
    decreases s.len(),
{
    if s.len() == 0 {
        s
    } else if begins_with(s, seq!['&', 'l', 't', ';']) {
        seq!['<'] + xml_unescaped(s.skip(4))
    } else if begins_with(s, seq!['&', 'g', 't', ';']) {
        seq!['>'] + xml_unescaped(s.skip(4))
    } else if begins_with(s, seq!['&', 'a', 'm', 'p', ';']) {
        seq!['&'] + xml_unescaped(s.skip(5))
    } else if begins_with(s, seq!['&', 'a', 'p', 'o', 's', ';']) {
        seq!['\''] + xml_unescaped(s.skip(6))
    } else if begins_with(s, seq!['&', 'q', 'u', 'o', 't', ';']) {
        seq!['"'] + xml_unescaped(s.skip(6))
    } else {
        seq![s[0]] + xml_unescaped(s.skip(1))
    }
}

/// Relies on `aho_corasick::AhoCorasick::replace_all` with the five entity
/// patterns. Each pattern starts with `&` and holds no other, so matches never
/// overlap and the standard match semantics replaces them from left to right.
#[verifier::external_body]
fn replace_entities(chunk: &str) -> (r: String)
    ensures
        r@ == xml_unescaped(chunk@),
{
    let entities = ["&lt;", "&gt;", "&amp;", "&apos;", "&quot;"];
    let patterns = aho_corasick::AhoCorasick::new(entities).unwrap();
    patterns.replace_all(chunk, &["<", ">", "&", "'", "\""])
}

/// Decodes the XML entities left in page text.
pub struct MapXMLEntities;

impl ProcessingPass for MapXMLEntities {
    open spec fn process_spec(chunk: Seq<char>) -> Seq<char> {
        xml_unescaped(chunk)
    }

    fn process(chunk: &str) -> (r: String) {
        replace_entities(chunk)
    }
}

pub open spec fn is_blank_char(c: char) -> bool {
    c == ' ' || c == '\u{00A0}'
}

/// Collapsing from the state `newlines` (the length of the current run of line
/// breaks, counted up to three) and `spaced` (a blank was already met since the
/// last other character): at most two line breaks in a row, one space for a
/// run of blanks, and no blanks at the start of a line.
pub open spec fn collapse_from(s: Seq<char>, newlines: nat, spaced: bool) -> Seq<char>
    decreases s.len(),
{
    if s.len() == 0 {
        s
    } else if s[0] == '\n' {
        let head = if newlines + 1 > 2 {
            Seq::<char>::empty()
        } else {
            seq!['\n']
        };
        head + collapse_from(s.skip(1), if newlines < 3 {
            newlines + 1
        } else {
            3
        }, false)
    } else if is_blank_char(s[0]) {
        let head = if newlines == 0 && !spaced {
            seq![' ']
        } else {
            Seq::<char>::empty()
        };
        head + collapse_from(s.skip(1), 0, true)
    } else {
        seq![s[0]] + collapse_from(s.skip(1), 0, false)
    }
}

/// Collapses runs of blanks and of line breaks.
pub struct CollapseWhitespace;

impl ProcessingPass for CollapseWhitespace {
    open spec fn process_spec(chunk: Seq<char>) -> Seq<char> {
        collapse_from(chunk, 0, false)
    }

    fn process(chunk: &str) -> (r: String) {
        let chars = chars_of(chunk);
        let mut result = String::new();
        let mut newlines: usize = 0;
        let mut spaced = false;
        let mut i: usize = 0;
        assert(chars@.skip(0) =~= chars@);
        assert(result@ + collapse_from(chars@, 0, false) =~= collapse_from(chunk@, 0, false));
        while i < chars.len()
            invariant
                chars@ == chunk@,
                0 <= i <= chars@.len(),
                newlines <= 3,
                result@ + collapse_from(chars@.skip(i as int), newlines as nat, spaced)
                    == collapse_from(chunk@, 0, false),
            decreases chars@.len() - i,
        {
            let ghost rest = chars@.skip(i as int);
            let ghost before = result@;
            let ghost nl0 = newlines as nat;
            let ghost sp0 = spaced;
            assert(rest.skip(1) =~= chars@.skip(i + 1));
            assert(rest[0] == chars@[i as int]);
            let c = chars[i];
            if c == '\n' {
                if newlines + 1 <= 2 {
                    push_char(&mut result, c);
                }
                if newlines < 3 {
                    newlines = newlines + 1;
                }
                spaced = false;
            } else if c == ' ' || c == '\u{00A0}' {
                if newlines == 0 && !spaced {
                    push_char(&mut result, ' ');
                }
                newlines = 0;
                spaced = true;
            } else {
                push_char(&mut result, c);
                newlines = 0;
                spaced = false;
            }
            i = i + 1;
            assert(result@ + collapse_from(chars@.skip(i as int), newlines as nat, spaced) =~= before
                + collapse_from(rest, nl0, sp0));
        }
        assert(chars@.skip(chars@.len() as int) =~= Seq::<char>::empty());
        result
    }
}

/// Whether `c` has the Unicode `Alphabetic` property.
pub uninterp spec fn alphabetic(c: char) -> bool;

/// Relies on `char::is_alphabetic`, which answers from the Unicode
/// `Alphabetic` property of the character alone.
#[verifier::external_body]
fn is_alphabetic(c: char) -> (r: bool)
    ensures
        r == alphabetic(c),
{
    c.is_alphabetic()
}

/// The characters with the Unicode `White_Space` property.
pub open spec fn white_space(c: char) -> bool {
    ||| '\u{0009}' <= c <= '\u{000D}'
    ||| c == '\u{0020}' || c == '\u{0085}' || c == '\u{00A0}' || c == '\u{1680}'
    ||| '\u{2000}' <= c <= '\u{200A}'
    ||| c == '\u{2028}' || c == '\u{2029}' || c == '\u{202F}' || c == '\u{205F}'
    ||| c == '\u{3000}'
}

/// Whether `c` is white space, as `char::is_whitespace` answers.
pub(crate) fn is_whitespace(c: char) -> (r: bool)
    ensures
        r == white_space(c),
{
    ('\u{0009}' <= c && c <= '\u{000D}') || c == '\u{0020}' || c == '\u{0085}' || c == '\u{00A0}'
        || c == '\u{1680}' || ('\u{2000}' <= c && c <= '\u{200A}') || c == '\u{2028}' || c
        == '\u{2029}' || c == '\u{202F}' || c == '\u{205F}' || c == '\u{3000}'
}

/// The dash punctuation characters that the word pass keeps, as `-`.
pub open spec fn is_dash(c: char) -> bool {
    ||| c == '\u{002D}' || c == '\u{058A}' || c == '\u{1806}'
    ||| '\u{2010}' <= c <= '\u{2015}'
    ||| c == '\u{FE58}' || c == '\u{FE63}' || c == '\u{FF0D}'
}

/// Keeping letters, one space for each run of white space after a word, and
/// dashes as `-`; `delimited` says that the last kept character was a space or
/// that nothing was kept yet.
pub open spec fn strip_from(s: Seq<char>, delimited: bool) -> Seq<char>
    decreases s.len(),
{
    if s.len() == 0 {
        s
    } else if alphabetic(s[0]) {
        seq![s[0]] + strip_from(s.skip(1), false)
    } else if white_space(s[0]) {
        if delimited {
            strip_from(s.skip(1), true)
        } else {
            seq![' '] + strip_from(s.skip(1), true)
        }
    } else if is_dash(s[0]) {
        seq!['-'] + strip_from(s.skip(1), delimited)
    } else {
        strip_from(s.skip(1), delimited)
    }
}

/// Keeps only the words of a text.
pub struct StripWords;

impl ProcessingPass for StripWords {
    open spec fn process_spec(chunk: Seq<char>) -> Seq<char> {
        strip_from(chunk, true)
    }

    fn process(chunk: &str) -> (r: String) {
        let chars = chars_of(chunk);
        let mut result = String::new();
        let mut delimited = true;
        let mut i: usize = 0;
        assert(chars@.skip(0) =~= chars@);
        assert(result@ + strip_from(chars@, true) =~= strip_from(chunk@, true));
        while i < chars.len()
            invariant
                chars@ == chunk@,
                0 <= i <= chars@.len(),
                result@ + strip_from(chars@.skip(i as int), delimited) == strip_from(chunk@, true),
            decreases chars@.len() - i,
        {
            let ghost rest = chars@.skip(i as int);
            let ghost before = result@;
            let ghost d0 = delimited;
            assert(rest.skip(1) =~= chars@.skip(i + 1));
            assert(rest[0] == chars@[i as int]);
            let c = chars[i];
            if is_alphabetic(c) {
                push_char(&mut result, c);
                delimited = false;
            } else if is_whitespace(c) {
                if !delimited {
                    push_char(&mut result, ' ');
                    delimited = true;
                }
            } else if c == '\u{002D}' || c == '\u{058A}' || c == '\u{1806}' || ('\u{2010}' <= c
                && c <= '\u{2015}') || c == '\u{FE58}' || c == '\u{FE63}' || c == '\u{FF0D}' {
                push_char(&mut result, '-');
            }
            i = i + 1;
            assert(result@ + strip_from(chars@.skip(i as int), delimited) =~= before + strip_from(
                rest,
                d0,
            ));
        }
        assert(chars@.skip(chars@.len() as int) =~= Seq::<char>::empty());
        result
    }
}

/// Escaping every `checked` character with a backslash. A backslash itself is
/// dropped; it marks the next character as already escaped, and an escaped
/// `checked` character is kept as it is.
pub open spec fn escaped_from(s: Seq<char>, checked: char, escaped: bool) -> Seq<char>
    decreases s.len(),
{
    if s.len() == 0 {
        s
    } else if !escaped && s[0] == checked {
        seq!['\\', s[0]] + escaped_from(s.skip(1), checked, false)
    } else if s[0] == '\\' {
        escaped_from(s.skip(1), checked, !escaped)
    } else {
        seq![s[0]] + escaped_from(s.skip(1), checked, false)
    }
}

/// `text` with each unescaped `checked` character preceded by a backslash.
pub fn sanitize_escapes(text: &str, checked: char) -> (r: String)
    ensures
        r@ == escaped_from(text@, checked, false),
{
    let chars = chars_of(text);
    let mut result = String::new();
    let mut escaped = false;
    let mut i: usize = 0;
    assert(chars@.skip(0) =~= chars@);
    assert(result@ + escaped_from(chars@, checked, false) =~= escaped_from(text@, checked, false));
    while i < chars.len()
        invariant
            chars@ == text@,
            0 <= i <= chars@.len(),
            result@ + escaped_from(chars@.skip(i as int), checked, escaped) == escaped_from(
                text@,
                checked,
                false,
            ),
        decreases chars@.len() - i,
    {
        let ghost rest = chars@.skip(i as int);
        let ghost before = result@;
        let ghost e0 = escaped;
        assert(rest.skip(1) =~= chars@.skip(i + 1));
        assert(rest[0] == chars@[i as int]);
        let c = chars[i];
        if !escaped && c == checked {
            push_char(&mut result, '\\');
            push_char(&mut result, c);
        } else if c == '\\' {
            escaped = !escaped;
        } else {
            push_char(&mut result, c);
            escaped = false;
        }
        i = i + 1;
        assert(result@ + escaped_from(chars@.skip(i as int), checked, escaped) =~= before
            + escaped_from(rest, checked, e0));
    }
    assert(chars@.skip(chars@.len() as int) =~= Seq::<char>::empty());
    result
}

} // verus!
