//! Saving chat messages as quotes.
use vstd::prelude::*;
use vstd::string::StringExecFns;

use crate::distance::chars_of;
use crate::moderation::{occurs, occurs_in};
use crate::resolver::{lower_chars, lower_seq};

verus! {

/// Whether a message, read in ASCII lower case, asks to quote the sender's
/// previous message ("don't quote me").
pub open spec fn is_quote_request(message: Seq<char>) -> bool {
    let s = lower_seq(message);
    occurs_in(s, "don't quote"@) || occurs_in(s, "dont quote"@) || occurs_in(s, "do not quote"@)
}

/// A quote as saved: the text in double quotes, unless it already starts
/// with the quote command, followed by ` ~ ` and the author's name.
pub open spec fn quote_entry(text: Seq<char>, author: Seq<char>) -> Seq<char> {
    let body = if text.len() >= 6 && text.take(6) == "!quote"@ {
        text
    } else {
        "\""@ + text + "\""@
    };
    body + " ~ "@ + author
}

/// Whether `message` asks to quote the previous message.
pub fn asks_for_quote(message: &str) -> (r: bool)
    ensures
        r == is_quote_request(message@),
{
    let s = lower_chars(message);
    occurs(&s, &chars_of("don't quote")) || occurs(&s, &chars_of("dont quote")) || occurs(
        &s,
        &chars_of("do not quote"),
    )
}

/// The line that saves `text`, said by `author`, as a quote.
pub fn quote_line(text: &str, author: &str) -> (r: String)
    ensures
        r@ == quote_entry(text@, author@),
{
    let t = chars_of(text);
    let prefix = chars_of("!quote");
    proof {
        reveal_strlit("!quote");
    }
    let mut starts = t.len() >= 6;
    let mut i: usize = 0;
    while starts && i < 6
        invariant
            prefix@ == "!quote"@,
            prefix@.len() == 6,
            t@ == text@,
            i <= 6,
            starts ==> t@.len() >= 6,
            starts ==> forall|k: int| 0 <= k < i ==> t@[k] == prefix@[k],
            !starts ==> !(t@.len() >= 6 && t@.take(6) == prefix@),
        decreases 6 - i,
    {
        if t[i] != prefix[i] {
            starts = false;
            assert(t@.take(6)[i as int] != prefix@[i as int]);
        }
        i = i + 1;
    }
    if starts {
        assert(t@.take(6) == prefix@);
    }
    let mut line = String::new();
    if starts {
        line.append(text);
    } else {
        line.append("\"");
        line.append(text);
        line.append("\"");
    }
    line.append(" ~ ");
    line.append(author);
    line
}

} // verus!
