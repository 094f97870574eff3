//! Telling spam from chat in a first message.
use vstd::prelude::*;

use crate::distance::chars_of;
use crate::resolver::{lower_chars, lower_seq};

verus! {

/// Whether a character has the Unicode `Alphabetic` property.
pub uninterp spec fn alphabetic(c: char) -> bool;

/// Relies on `char::is_alphabetic`, which answers from the character alone.
#[verifier::external_body]
fn is_alphabetic(c: char) -> (r: bool)
    ensures
        r == alphabetic(c),
{
    c.is_alphabetic()
}

/// A dot at `p` that starts something shaped like a domain: the piece after
/// it, up to the next dot, begins with two alphabetic characters, or is a
/// single alphabetic character that takes more than one byte.
pub open spec fn link_at(s: Seq<char>, p: int) -> bool {
    &&& 0 <= p
    &&& p + 1 < s.len()
    &&& s[p] == '.'
    &&& alphabetic(s[p + 1])
    &&& if p + 2 < s.len() && s[p + 2] != '.' {
        alphabetic(s[p + 2])
    } else {
        s[p + 1] > '\u{7f}'
    }
}

/// Whether some dot in `s` starts something shaped like a domain.
pub open spec fn has_link(s: Seq<char>) -> bool {
    exists|p: int| link_at(s, p)
}

/// Whether `w` occurs in `s` as a contiguous piece.
pub open spec fn occurs_in(s: Seq<char>, w: Seq<char>) -> bool {
    exists|i: int| 0 <= i && i + w.len() <= s.len() && #[trigger] s.subrange(i, i + w.len()) == w
}

/// How many of `words` occur in `s`.
pub open spec fn count_occurring(s: Seq<char>, words: Seq<Seq<char>>) -> nat
    decreases words.len(),
{
    if words.len() == 0 {
        0
    } else {
        count_occurring(s, words.drop_last()) + if occurs_in(s, words.last()) {
            1nat
        } else {
            0nat
        }
    }
}

/// Words that advertising bots tend to use.
pub open spec fn suspicious_words() -> Seq<Seq<char>> {
    seq![
        "cheap"@,
        "view"@,
        "streamrise"@,
        "onlyfans"@,
        "http"@,
        "promot"@,
        "activat"@,
        "free"@,
        "hosthub"@,
    ]
}

/// A first message is spam when, read in ASCII lower case, it holds a link or
/// more than one of the suspicious words.
pub open spec fn is_spam(message: Seq<char>) -> bool {
    let s = lower_seq(message);
    has_link(s) || count_occurring(s, suspicious_words()) > 1
}

/// Whether `s` holds a link.
fn link_in(s: &Vec<char>) -> (r: bool)
    ensures
        r == has_link(s@),
{
    let n = s.len();
    let mut p: usize = 0;
    while p < n
        invariant
            n == s@.len(),
            p <= n,
            forall|q: int| 0 <= q < p ==> !link_at(s@, q),
        decreases n - p,
    {
        if s[p] == '.' && p + 1 < n && is_alphabetic(s[p + 1]) {
            let second = if p + 2 < n && s[p + 2] != '.' {
                is_alphabetic(s[p + 2])
            } else {
                s[p + 1] > '\u{7f}'
            };
            if second {
                assert(link_at(s@, p as int));
                return true;
            }
        }
        p = p + 1;
    }
    assert forall|q: int| !link_at(s@, q) by {
        if 0 <= q < n {
        }
    }
    false
}

/// Whether `w` occurs in `s`.
pub(crate) fn occurs(s: &Vec<char>, w: &Vec<char>) -> (r: bool)
    ensures
        r == occurs_in(s@, w@),
{
    let n = s.len();
    let m = w.len();
    if m > n {
        return false;
    }
    let mut i: usize = 0;
    while i <= n - m
        invariant
            n == s@.len(),
            m == w@.len(),
            m <= n,
            i <= n - m + 1,
            forall|k: int| 0 <= k < i ==> #[trigger] s@.subrange(k, k + m) != w@,
        decreases n - m + 1 - i,
    {
        let mut j: usize = 0;
        let mut same = true;
        while j < m
            invariant
                n == s@.len(),
                m == w@.len(),
                i + m <= n,
                j <= m,
                same <==> forall|l: int| 0 <= l < j ==> s@[i + l] == w@[l],
            decreases m - j,
        {
            if s[i + j] != w[j] {
                same = false;
            }
            j = j + 1;
        }
        if same {
            assert(s@.subrange(i as int, i + m) == w@);
            return true;
        }
        assert(s@.subrange(i as int, i + m) != w@) by {
            let l = choose|l: int| 0 <= l < m && s@[i + l] != w@[l];
            assert(s@.subrange(i as int, i + m)[l] == s@[i + l]);
        }
        i = i + 1;
    }
    false
}

/// Whether a first message looks like an advertising bot's: a link, or more
/// than one suspicious word, ignoring ASCII case.
pub fn looks_like_spam(message: &str) -> (r: bool)
    ensures
        r == is_spam(message@),
{
    let s = lower_chars(message);
    if link_in(&s) {
        return true;
    }
    let words = [
        "cheap",
        "view",
        "streamrise",
        "onlyfans",
        "http",
        "promot",
        "activat",
        "free",
        "hosthub",
    ];
    let ghost sw = suspicious_words();
    assert(sw.len() == 9);
    let mut count: usize = 0;
    let mut i: usize = 0;
    while i < 9
        invariant
            i <= 9,
            words@.len() == 9,
            forall|k: int| 0 <= k < 9 ==> #[trigger] words@[k]@ == sw[k],
            sw == suspicious_words(),
            count == count_occurring(s@, sw.take(i as int)),
            count <= i,
        decreases 9 - i,
    {
        let w = chars_of(words[i]);
        assert(sw.take(i + 1).drop_last() == sw.take(i as int));
        if occurs(&s, &w) {
            count = count + 1;
        }
        i = i + 1;
    }
    assert(sw.take(9) == sw);
    count > 1
}

} // verus!
