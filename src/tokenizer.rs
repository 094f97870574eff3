//! Splitting a chat line into whitespace-separated tokens.
use vstd::prelude::*;

verus! {

/// The characters that `char::is_whitespace` accepts: those with the Unicode
/// `White_Space` property.
pub open spec fn is_space(c: char) -> bool {
    let u = c as u32;
    (0x09 <= u && u <= 0x0D) || u == 0x20 || u == 0x85 || u == 0xA0 || u == 0x1680 || (0x2000
        <= u && u <= 0x200A) || u == 0x2028 || u == 0x2029 || u == 0x202F || u == 0x205F || u
        == 0x3000
}

/// Whether `c` separates tokens.
pub fn is_whitespace(c: char) -> (r: bool)
    ensures
        r == is_space(c),
{
    let u = c as u32;
    (0x09 <= u && u <= 0x0D) || u == 0x20 || u == 0x85 || u == 0xA0 || u == 0x1680 || (0x2000
        <= u && u <= 0x200A) || u == 0x2028 || u == 0x2029 || u == 0x202F || u == 0x205F || u
        == 0x3000
}

/// The tokens of `s`: its maximal runs of non-whitespace characters, in order.
/// Defined by reading `s` one character at a time from the left: a space ends
/// the current token, a non-space extends the token that the previous
/// character belongs to, or starts a new one after a space or at the start.
pub open spec fn tokens(s: Seq<char>) -> Seq<Seq<char>>
    decreases s.len(),
{
    if s.len() == 0 {
        Seq::empty()
    } else {
        let prev = tokens(s.drop_last());
        let c = s.last();
        if is_space(c) {
            prev
        } else if s.len() >= 2 && !is_space(s[s.len() - 2]) {
            prev.update(prev.len() - 1, prev.last().push(c))
        } else {
            prev.push(seq![c])
        }
    }
}

/// The views of a vector of strings.
pub open spec fn string_views(v: Seq<String>) -> Seq<Seq<char>> {
    v.map_values(|t: String| t@)
}

/// A token: non-empty and free of whitespace.
pub open spec fn is_token(t: Seq<char>) -> bool {
    t.len() > 0 && forall|i: int| 0 <= i < t.len() ==> !is_space(#[trigger] t[i])
}

/// The tokens joined with one space between each two.
pub open spec fn join_spaced(ts: Seq<Seq<char>>) -> Seq<char>
    decreases ts.len(),
{
    if ts.len() == 0 {
        Seq::empty()
    } else if ts.len() == 1 {
        ts[0]
    } else {
        join_spaced(ts.drop_last()) + seq![' '] + ts.last()
    }
}

/// Whitespace-normal text: no whitespace at either end, none but single
/// spaces, and never two of them in a row.
pub open spec fn is_normalized(s: Seq<char>) -> bool {
    &&& s.len() > 0 ==> !is_space(s[0]) && !is_space(s.last())
    &&& forall|i: int| 0 <= i < s.len() && is_space(#[trigger] s[i]) ==> s[i] == ' '
    &&& forall|i: int| 0 <= i < s.len() - 1 && is_space(#[trigger] s[i]) ==> !is_space(s[i + 1])
}

/// Every token is non-empty and holds no whitespace; a text that ends in a
/// non-space has at least one token.
pub proof fn lemma_tokens_are_tokens(s: Seq<char>)
    ensures
        forall|k: int| 0 <= k < tokens(s).len() ==> is_token(#[trigger] tokens(s)[k]),
        s.len() > 0 && !is_space(s.last()) ==> tokens(s).len() > 0,
    decreases s.len(),
{
    if s.len() > 0 {
        lemma_tokens_are_tokens(s.drop_last());
        let prev = tokens(s.drop_last());
        let c = s.last();
        if !is_space(c) && s.len() >= 2 && !is_space(s[s.len() - 2]) {
            assert(s.drop_last().last() == s[s.len() - 2]);
            let t = prev.last().push(c);
            assert(is_token(prev[prev.len() - 1]));
            assert forall|i: int| 0 <= i < t.len() implies !is_space(#[trigger] t[i]) by {
                if i < t.len() - 1 {
                    assert(t[i] == prev.last()[i]);
                }
            }
            assert forall|k: int| 0 <= k < tokens(s).len() implies is_token(
                #[trigger] tokens(s)[k],
            ) by {
                if k < prev.len() - 1 {
                    assert(tokens(s)[k] == prev[k]);
                }
            }
        } else if !is_space(c) {
            assert forall|k: int| 0 <= k < tokens(s).len() implies is_token(
                #[trigger] tokens(s)[k],
            ) by {
                if k < prev.len() {
                    assert(tokens(s)[k] == prev[k]);
                }
            }
        }
    }
}

/// A text has no tokens exactly when it is all whitespace.
pub proof fn lemma_no_tokens_iff_blank(s: Seq<char>)
    ensures
        tokens(s).len() == 0 <==> forall|i: int| 0 <= i < s.len() ==> is_space(#[trigger] s[i]),
    decreases s.len(),
{
    if s.len() > 0 {
        lemma_no_tokens_iff_blank(s.drop_last());
        lemma_tokens_are_tokens(s);
        if !is_space(s.last()) {
            assert(!is_space(s[s.len() - 1]));
        } else if tokens(s).len() == 0 {
            assert forall|i: int| 0 <= i < s.len() implies is_space(#[trigger] s[i]) by {
                if i < s.len() - 1 {
                    assert(s[i] == s.drop_last()[i]);
                }
            }
        } else {
            assert(!is_space(s.drop_last()[0]) || exists|i: int| 0 <= i < s.len() - 1 && !is_space(#[trigger] s.drop_last()[i]));
            let i = choose|i: int| 0 <= i < s.len() - 1 && !is_space(#[trigger] s.drop_last()[i]);
            assert(s[i] == s.drop_last()[i]);
        }
    }
}

/// Appending a space adds no token.
proof fn lemma_tokens_push_space(p: Seq<char>)
    ensures
        tokens(p.push(' ')) == tokens(p),
{
    assert(p.push(' ').drop_last() == p);
    assert(is_space(' '));
}

/// Appending a token to text that is empty or ends in whitespace adds exactly
/// that token.
pub proof fn lemma_tokens_append_token(p: Seq<char>, t: Seq<char>)
    requires
        p.len() == 0 || is_space(p.last()),
        is_token(t),
    ensures
        tokens(p + t) == tokens(p).push(t),
    decreases t.len(),
{
    let q = p + t;
    assert(!is_space(t[t.len() - 1]));
    assert(q.last() == t.last());
    if t.len() == 1 {
        assert(q.drop_last() == p);
        assert(t == seq![t[0]]);
        if q.len() >= 2 {
            assert(q[q.len() - 2] == p.last());
        }
    } else {
        let u = t.drop_last();
        assert forall|i: int| 0 <= i < u.len() implies !is_space(#[trigger] u[i]) by {
            assert(u[i] == t[i]);
        }
        lemma_tokens_append_token(p, u);
        assert(q.drop_last() == p + u);
        assert(q[q.len() - 2] == t[t.len() - 2]);
        assert(u.push(t.last()) == t);
    }
}

/// Joined tokens tokenize back to themselves.
pub proof fn lemma_tokens_of_join(ts: Seq<Seq<char>>)
    requires
        forall|k: int| 0 <= k < ts.len() ==> is_token(#[trigger] ts[k]),
    ensures
        tokens(join_spaced(ts)) == ts,
    decreases ts.len(),
{
    if ts.len() == 1 {
        lemma_tokens_append_token(Seq::empty(), ts[0]);
        assert(Seq::<char>::empty() + ts[0] == ts[0]);
        assert(seq![ts[0]] == ts);
    } else if ts.len() > 1 {
        let init = ts.drop_last();
        assert forall|k: int| 0 <= k < init.len() implies is_token(#[trigger] init[k]) by {
            assert(init[k] == ts[k]);
        }
        lemma_tokens_of_join(init);
        let p = join_spaced(init) + seq![' '];
        assert(p == join_spaced(init).push(' '));
        lemma_tokens_push_space(join_spaced(init));
        assert(is_token(ts[ts.len() - 1]));
        lemma_tokens_append_token(p, ts.last());
        assert(init.push(ts.last()) == ts);
    }
}

/// Joined tokens are whitespace-normal.
pub proof fn lemma_join_normalized(ts: Seq<Seq<char>>)
    requires
        forall|k: int| 0 <= k < ts.len() ==> is_token(#[trigger] ts[k]),
    ensures
        is_normalized(join_spaced(ts)),
    decreases ts.len(),
{
    if ts.len() == 1 {
        assert(is_token(ts[0]));
    } else if ts.len() > 1 {
        let init = ts.drop_last();
        assert forall|k: int| 0 <= k < init.len() implies is_token(#[trigger] init[k]) by {
            assert(init[k] == ts[k]);
        }
        lemma_join_normalized(init);
        let a = join_spaced(init);
        let t = ts.last();
        assert(is_token(ts[ts.len() - 1]));
        assert(init.len() > 0);
        lemma_join_nonempty(init);
        let j = join_spaced(ts);
        assert(j == a + seq![' '] + t);
        assert(j[0] == a[0]);
        assert(j.last() == t.last());
        assert forall|i: int| 0 <= i < j.len() && is_space(#[trigger] j[i]) implies j[i] == ' ' by {
            if i < a.len() {
                assert(j[i] == a[i]);
            } else if i > a.len() {
                assert(j[i] == t[i - a.len() - 1]);
            }
        }
        assert forall|i: int| 0 <= i < j.len() - 1 && is_space(#[trigger] j[i]) implies !is_space(
            j[i + 1],
        ) by {
            if i < a.len() - 1 {
                assert(j[i] == a[i]);
                assert(j[i + 1] == a[i + 1]);
            } else if i == a.len() - 1 {
                assert(j[i] == a.last());
            } else if i == a.len() {
                assert(j[i + 1] == t[0]);
            } else {
                assert(j[i] == t[i - a.len() - 1]);
            }
        }
    }
}

proof fn lemma_join_nonempty(ts: Seq<Seq<char>>)
    requires
        ts.len() > 0,
        forall|k: int| 0 <= k < ts.len() ==> is_token(#[trigger] ts[k]),
    ensures
        join_spaced(ts).len() > 0,
    decreases ts.len(),
{
    assert(is_token(ts[ts.len() - 1]));
    assert(is_token(ts[0]));
}

/// Tokenizing and joining with single spaces gives whitespace-normal text,
/// and tokenizing that text again gives the same tokens.
pub proof fn lemma_normalize_idempotent(s: Seq<char>)
    ensures
        is_normalized(join_spaced(tokens(s))),
        tokens(join_spaced(tokens(s))) == tokens(s),
{
    lemma_tokens_are_tokens(s);
    lemma_join_normalized(tokens(s));
    lemma_tokens_of_join(tokens(s));
}

/// Splits `s` into its tokens, dropping all whitespace.
pub fn tokenize(s: &str) -> (r: Vec<String>)
    ensures
        string_views(r@) == tokens(s@),
{
    let n = s.unicode_len();
    let mut out: Vec<String> = Vec::new();
    let mut start: usize = 0;
    let mut in_token = false;
    let mut idx: usize = 0;
    for c in it: s.chars()
        invariant
            n == s@.len(),
            it.seq() == s@,
            idx == it.index(),
            start <= idx,
            in_token <==> (idx > 0 && !is_space(s@[idx - 1])),
            tokens(s@.take(idx as int)) == string_views(out@) + (if in_token {
                seq![s@.subrange(start as int, idx as int)]
            } else {
                Seq::empty()
            }),
    {
        let ghost pre = s@.take(idx as int);
        let ghost now = s@.take(idx + 1);
        assert(now.drop_last() == pre);
        assert(now.last() == c);
        if is_whitespace(c) {
            if in_token {
                let piece = s.substring_char(start, idx);
                out.push(piece.to_owned());
                assert(string_views(out@) == string_views(out@.drop_last()).push(piece@));
            }
            in_token = false;
        } else {
            if !in_token {
                start = idx;
                in_token = true;
                assert(s@.subrange(start as int, idx + 1) == seq![c]);
            } else {
                assert(s@.subrange(start as int, idx + 1) == s@.subrange(start as int, idx as int).push(c));
            }
        }
        idx = idx + 1;
    }
    assert(s@.take(idx as int) == s@);
    if in_token {
        let piece = s.substring_char(start, idx);
        out.push(piece.to_owned());
        assert(string_views(out@) == string_views(out@.drop_last()).push(piece@));
    }
    out
}

} // verus!
