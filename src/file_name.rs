//! Names of dump files: extensions, names taken from URLs, and their order.

use vstd::prelude::*;
use vstd::string::StrSliceExecFns;

use crate::text::{chars_of, is_digit, owned};

verus! {

/// Whether `i` is the position of the first `c` in `s`.
pub open spec fn is_first(s: Seq<char>, c: char, i: int) -> bool {
    0 <= i < s.len() && s[i] == c && forall|j: int| 0 <= j < i ==> s[j] != c
}

/// Whether `i` is the position of the last `c` in `s`.
pub open spec fn is_last(s: Seq<char>, c: char, i: int) -> bool {
    0 <= i < s.len() && s[i] == c && forall|j: int| i < j < s.len() ==> s[j] != c
}

/// What follows the first `c` in `s`, if `s` holds one.
pub open spec fn after_first(s: Seq<char>, c: char) -> Option<Seq<char>> {
    if exists|i: int| is_first(s, c, i) {
        Some(s.skip((choose|i: int| is_first(s, c, i)) + 1))
    } else {
        None
    }
}

/// What follows the last `c` in `s`, if `s` holds one.
pub open spec fn after_last(s: Seq<char>, c: char) -> Option<Seq<char>> {
    if exists|i: int| is_last(s, c, i) {
        Some(s.skip((choose|i: int| is_last(s, c, i)) + 1))
    } else {
        None
    }
}

/// No run of ASCII digits in `s` is longer than nine characters.
pub open spec fn digit_runs_fit(s: Seq<char>) -> bool {
    forall|i: int| 0 <= i && i + 10 <= s.len() ==> !#[trigger] digit_window(s, i)
}

/// The ten characters from `i` on are all digits.
pub open spec fn digit_window(s: Seq<char>, i: int) -> bool {
    forall|k: int| i <= k < i + 10 ==> is_digit(#[trigger] s[k])
}

/// The order in which `human_sort` puts two names.
pub uninterp spec fn human_order(a: Seq<char>, b: Seq<char>) -> std::cmp::Ordering;

/// Relies on `human_sort::compare`, which orders names character by
/// character and runs of digits by their value. It sums each digit run in a
/// `u32`, so runs longer than nine digits are left out.
#[verifier::external_body]
fn human_compare(a: &str, b: &str) -> (r: std::cmp::Ordering)
    requires
        digit_runs_fit(a@),
        digit_runs_fit(b@),
    ensures
        r == human_order(a@, b@),
{
    human_sort::compare(a, b)
}

/// The position of the first (or, with `last`, the last) `c` in `s`.
fn find_char(s: &Vec<char>, c: char, last: bool) -> (r: Option<usize>)
    ensures
        r is Some <==> s@.contains(c),
        r matches Some(i) ==> i < s@.len() && if last {
            after_last(s@, c) == Some(s@.skip(i + 1))
        } else {
            after_first(s@, c) == Some(s@.skip(i + 1))
        },
        r is None ==> after_first(s@, c) is None && after_last(s@, c) is None,
{
    let mut found: Option<usize> = None;
    let mut i: usize = 0;
    while i < s.len()
        invariant
            0 <= i <= s@.len(),
            !last ==> found is None,
            found is None ==> forall|j: int| 0 <= j < i ==> s@[j] != c,
            found matches Some(k) ==> k < i && s@[k as int] == c && (!last ==> forall|j: int|
                0 <= j < k ==> s@[j] != c) && (last ==> forall|j: int| k < j < i ==> s@[j] != c),
        decreases s@.len() - i,
    {
        if s[i] == c {
            if !last {
                proof {
                    assert(is_first(s@, c, i as int));
                    let k = choose|k: int| is_first(s@, c, k);
                    assert(k == i) by {
                        if k < i {
                            assert(s@[k] != c);
                        } else if k > i {
                            assert(s@[i as int] != c);
                        }
                    }
                }
                return Some(i);
            }
            found = Some(i);
        }
        i = i + 1;
    }
    proof {
        if found is None {
            assert forall|j: int| 0 <= j < s@.len() implies s@[j] != c by {}
            assert(!exists|k: int| is_first(s@, c, k));
            assert(!exists|k: int| is_last(s@, c, k));
        } else {
            let f = found->0 as int;
            assert(s@[f] == c);
            assert(is_last(s@, c, f));
            let k = choose|k: int| is_last(s@, c, k);
            assert(k == f) by {
                if k < f {
                    assert(s@[f] != c);
                } else if k > f {
                    assert(s@[k] != c);
                }
            }
        }
    }
    found
}

/// The name of a dump file.
#[derive(Debug, Clone, PartialEq, Eq, Hash)]
pub struct FileName(pub String);

impl FileName {
    pub fn new(name: String) -> (r: FileName)
        ensures
            r.0 == name,
    {
        FileName(name)
    }

    /// The last path segment of a URL: what follows its last `/`, or all of
    /// it where it has none.
    pub fn from_url(url: &str) -> (r: FileName)
        ensures
            r.0@ == match after_last(url@, '/') {
                Some(rest) => rest,
                None => url@,
            },
    {
        let chars = chars_of(url);
        let n = chars.len();
        match find_char(&chars, '/', true) {
            Some(i) => FileName(owned(url.substring_char(i + 1, url.unicode_len()))),
            None => FileName(owned(url)),
        }
    }

    pub fn as_str(&self) -> (r: &str)
        ensures
            r@ == self.0@,
    {
        self.0.as_str()
    }

    /// Everything after the first dot.
    pub fn full_ext(&self) -> (r: Option<&str>)
        ensures
            r is Some <==> after_first(self.0@, '.') is Some,
            r is Some ==> r->0@ == after_first(self.0@, '.')->0,
    {
        let s = self.0.as_str();
        let chars = chars_of(s);
        let n = chars.len();
        match find_char(&chars, '.', false) {
            Some(i) => Some(s.substring_char(i + 1, s.unicode_len())),
            None => None,
        }
    }

    /// Everything after the last dot.
    pub fn ext(&self) -> (r: Option<&str>)
        ensures
            r is Some <==> after_last(self.0@, '.') is Some,
            r is Some ==> r->0@ == after_last(self.0@, '.')->0,
    {
        let s = self.0.as_str();
        let chars = chars_of(s);
        let n = chars.len();
        match find_char(&chars, '.', true) {
            Some(i) => Some(s.substring_char(i + 1, s.unicode_len())),
            None => None,
        }
    }

    /// The file is bzip2-compressed: its extension is `bz2`.
    pub fn is_compressed(&self) -> (r: bool)
        ensures
            r == (after_last(self.0@, '.') == Some("bz2"@)),
    {
        match self.ext() {
            Some(e) => {
                let bz2 = owned("bz2");
                let found = owned(e);
                found == bz2
            },
            None => false,
        }
    }

    /// Whether the name can be put in order: no run of digits longer than nine.
    pub fn comparable(&self) -> (r: bool)
        ensures
            r == digit_runs_fit(self.0@),
    {
        let name = self.0.as_str();
        let chars = chars_of(name);
        let mut run: usize = 0;
        let mut i: usize = 0;
        while i < chars.len()
            invariant
                chars@ == self.0@,
                0 <= i <= chars@.len(),
                run <= 9,
                run <= i,
                forall|k: int| i - run <= k < i ==> is_digit(#[trigger] chars@[k]),
                i - run > 0 ==> !is_digit(chars@[i - run - 1]),
                forall|j: int| 0 <= j && j + 10 <= i ==> !#[trigger] digit_window(chars@, j),
            decreases chars@.len() - i,
        {
            let c = chars[i];
            if '0' <= c && c <= '9' {
                if run == 9 {
                    assert(digit_window(chars@, i - 9));
                    assert(!digit_runs_fit(chars@));
                    return false;
                }
                run = run + 1;
            } else {
                run = 0;
            }
            i = i + 1;
            assert forall|j: int| 0 <= j && j + 10 <= i implies !#[trigger] digit_window(chars@, j) by {
                if j + 10 == i {
                    if run == 0 {
                        assert(!is_digit(chars@[i - 1]));
                    } else {
                        assert(!is_digit(chars@[i - run - 1]));
                    }
                }
            }
        }
        true
    }

    /// The human-friendly order of two names, with digit runs compared by value.
    pub fn compare(&self, other: &FileName) -> (r: std::cmp::Ordering)
        requires
            digit_runs_fit(self.0@),
            digit_runs_fit(other.0@),
        ensures
            r == human_order(self.0@, other.0@),
    {
        human_compare(self.0.as_str(), other.0.as_str())
    }
}

} // verus!
