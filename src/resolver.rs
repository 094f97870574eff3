//! Resolving the first token of a chat line against a catalog of commands.
use vstd::prelude::*;
use vstd::utf8::is_ascii_chars;

use crate::distance::{capped_distance, chars_of, lev, levenshtein_within, DISTANCE_CAP};
use crate::tokenizer::{string_views, tokenize, tokens};

verus! {

/// A command token at this distance or closer is taken as meant.
pub const CONFIDENT_DISTANCE: u32 = 1;

/// A suggestion must be strictly closer than this.
pub const SUGGESTION_LIMIT: u32 = 3;

/// The commands that an application accepts, in the order they are scanned.
pub struct Catalog {
    /// The canonical, lower-case name of each entry; an entry is known by its
    /// position here.
    pub names: Vec<String>,
    /// Entries that are never offered as a lone suggestion.
    pub ignorable: Vec<usize>,
    /// Pairs (alias, target): an alias that ends up as the suggestion is
    /// resolved as a match of its target.
    pub aliases: Vec<(usize, usize)>,
}

/// How a command token was classified.
#[derive(PartialEq, Eq, Structural, Debug, Clone, Copy)]
pub enum Resolution {
    /// The token names this entry, exactly or with a small typo.
    Matched(usize),
    /// The token is close to this entry, but not close enough to act on.
    Suggested(usize),
    /// The token is not a command.
    NoMatch,
}

/// A classification together with the parameters that followed the command.
pub struct ResolutionResult {
    pub outcome: Resolution,
    pub parameters: Vec<String>,
}

/// The two running answers of a scan over the catalog.
#[derive(PartialEq, Eq, Structural, Debug, Clone, Copy)]
pub struct ScanState {
    /// The latest entry within `CONFIDENT_DISTANCE`.
    pub confident: Option<usize>,
    /// The closest entry found within `SUGGESTION_LIMIT` but beyond
    /// `CONFIDENT_DISTANCE`, unless a confident match came after it.
    pub suggestion: Option<usize>,
    /// The distance that a new suggestion has to beat.
    pub best: u32,
    /// Set once an exact match was found; the scan ends there.
    pub stopped: bool,
}

/// `c` in ASCII lower case: `A` to `Z` become `a` to `z`, all else stays.
pub open spec fn ascii_lower(c: char) -> char {
    if 'A' <= c && c <= 'Z' {
        ((c as u8) + 32) as u8 as char
    } else {
        c
    }
}

/// Every character of `s` in ASCII lower case.
pub open spec fn lower_seq(s: Seq<char>) -> Seq<char> {
    s.map_values(|c: char| ascii_lower(c))
}

/// The scan before any entry: nothing found, and a suggestion must beat
/// `SUGGESTION_LIMIT`.
pub open spec fn initial_scan() -> ScanState {
    ScanState { confident: None, suggestion: None, best: SUGGESTION_LIMIT, stopped: false }
}

/// The scan after looking at entry `j`, at distance `d` from the token.
pub open spec fn advance(s: ScanState, j: usize, d: u32) -> ScanState {
    if d <= CONFIDENT_DISTANCE {
        ScanState { confident: Some(j), suggestion: None, best: s.best, stopped: d == 0 }
    } else if d < s.best {
        ScanState { suggestion: Some(j), best: d, ..s }
    } else {
        s
    }
}

/// The state of the scan of `cand` over the first `k` names, in order, halting
/// at the first exact match.
pub open spec fn scan(cand: Seq<char>, names: Seq<Seq<char>>, k: int) -> ScanState
    decreases k,
{
    if k <= 0 {
        initial_scan()
    } else {
        let s = scan(cand, names, k - 1);
        if s.stopped {
            s
        } else {
            advance(s, (k - 1) as usize, capped_distance(cand, names[k - 1]) as u32)
        }
    }
}

/// The target of the first alias pair whose alias is `j`.
pub open spec fn alias_target(aliases: Seq<(usize, usize)>, j: usize) -> Option<usize>
    decreases aliases.len(),
{
    if aliases.len() == 0 {
        None
    } else {
        match alias_target(aliases.drop_last(), j) {
            Some(t) => Some(t),
            None => if aliases.last().0 == j {
                Some(aliases.last().1)
            } else {
                None
            },
        }
    }
}

impl Catalog {
    /// Well-formed: names are distinct, non-empty, ASCII, lower case and free
    /// of whitespace, and every entry that the two lists mention exists.
    pub open spec fn wf(&self) -> bool {
        let names = string_views(self.names@);
        &&& forall|i: int, j: int|
            0 <= i < names.len() && 0 <= j < names.len() && i != j ==> #[trigger] names[i]
                != #[trigger] names[j]
        &&& forall|i: int| 0 <= i < names.len() ==> canonical_name(#[trigger] names[i])
        &&& self.entries_exist()
    }

    /// Every entry that the ignorable and alias lists mention exists.
    pub open spec fn entries_exist(&self) -> bool {
        let names = string_views(self.names@);
        &&& forall|i: int|
            0 <= i < self.ignorable@.len() ==> #[trigger] self.ignorable@[i] < names.len()
        &&& forall|i: int|
            0 <= i < self.aliases@.len() ==> (#[trigger] self.aliases@[i]).0 < names.len()
                && self.aliases@[i].1 < names.len()
    }

    /// How `line` is classified against this catalog.
    pub open spec fn outcome(&self, line: Seq<char>) -> Resolution {
        outcome_in(string_views(self.names@), self.ignorable@, self.aliases@, line)
    }
}

/// The final classification from the state a scan ended in: a lone
/// suggestion of an ignorable entry is dropped, a suggested alias becomes a
/// match of its target, and a confident match beats a suggestion.
pub open spec fn settle(
    ignorable: Seq<usize>,
    aliases: Seq<(usize, usize)>,
    s: ScanState,
) -> Resolution {
    let kept = match s.suggestion {
        Some(j) => if ignorable.contains(j) {
            None
        } else {
            Some(j)
        },
        None => None,
    };
    match kept {
        Some(j) => match alias_target(aliases, j) {
            Some(t) => Resolution::Matched(t),
            None => match s.confident {
                Some(c) => Resolution::Matched(c),
                None => Resolution::Suggested(j),
            },
        },
        None => match s.confident {
            Some(c) => Resolution::Matched(c),
            None => Resolution::NoMatch,
        },
    }
}

/// How `line` is classified against the catalog with these names, ignorable
/// entries and aliases.
pub open spec fn outcome_in(
    names: Seq<Seq<char>>,
    ignorable: Seq<usize>,
    aliases: Seq<(usize, usize)>,
    line: Seq<char>,
) -> Resolution {
    let ts = tokens(line);
    if !is_ascii_chars(line) || ts.len() == 0 {
        Resolution::NoMatch
    } else {
        settle(ignorable, aliases, scan(lower_seq(ts[0]), names, names.len() as int))
    }
}

/// The entry that a resolution names, if any.
pub open spec fn named_entry(r: Resolution) -> Option<usize> {
    match r {
        Resolution::Matched(i) => Some(i),
        Resolution::Suggested(i) => Some(i),
        Resolution::NoMatch => None,
    }
}

/// A canonical name: non-empty, and made of ASCII characters that are neither
/// upper case nor whitespace.
pub open spec fn canonical_name(s: Seq<char>) -> bool {
    &&& s.len() > 0
    &&& forall|i: int|
        0 <= i < s.len() ==> #[trigger] s[i] <= '\u{7f}' && !crate::tokenizer::is_space(s[i])
            && ascii_lower(s[i]) == s[i]
}

/// The parameters of `line`: the tokens after the first, for a line that is
/// ASCII and not blank; none otherwise.
pub open spec fn parameters_of(line: Seq<char>) -> Seq<Seq<char>> {
    let ts = tokens(line);
    if !is_ascii_chars(line) || ts.len() == 0 {
        Seq::empty()
    } else {
        ts.drop_first()
    }
}

proof fn lemma_scan_stopped_stays(cand: Seq<char>, names: Seq<Seq<char>>, k: int, l: int)
    requires
        0 <= k <= l,
        scan(cand, names, k).stopped,
    ensures
        scan(cand, names, l) == scan(cand, names, k),
    decreases l - k,
{
    if l > k {
        lemma_scan_stopped_stays(cand, names, k, l - 1);
    }
}

proof fn lemma_scan_entries_exist(cand: Seq<char>, names: Seq<Seq<char>>, k: int)
    requires
        0 <= k <= names.len(),
    ensures
        match scan(cand, names, k).confident {
            Some(c) => c < k,
            None => true,
        },
        match scan(cand, names, k).suggestion {
            Some(c) => c < k,
            None => true,
        },
    decreases k,
{
    if k > 0 {
        lemma_scan_entries_exist(cand, names, k - 1);
    }
}

proof fn lemma_alias_target_exists(aliases: Seq<(usize, usize)>, j: usize, n: nat)
    requires
        forall|i: int| 0 <= i < aliases.len() ==> (#[trigger] aliases[i]).1 < n,
    ensures
        match alias_target(aliases, j) {
            Some(t) => t < n,
            None => true,
        },
    decreases aliases.len(),
{
    if aliases.len() > 0 {
        let init = aliases.drop_last();
        assert forall|i: int| 0 <= i < init.len() implies (#[trigger] init[i]).1 < n by {
            assert(init[i] == aliases[i]);
        }
        lemma_alias_target_exists(init, j, n);
        assert(aliases[aliases.len() - 1].1 < n);
    }
}

proof fn lemma_alias_target_prefix(aliases: Seq<(usize, usize)>, j: usize, k: int)
    requires
        0 <= k <= aliases.len(),
        alias_target(aliases.take(k), j) is Some,
    ensures
        alias_target(aliases, j) == alias_target(aliases.take(k), j),
    decreases aliases.len() - k,
{
    if k < aliases.len() {
        assert(aliases.take(k + 1).drop_last() == aliases.take(k));
        lemma_alias_target_prefix(aliases, j, k + 1);
    } else {
        assert(aliases.take(k) == aliases);
    }
}

proof fn lemma_lev_zero_equal(a: Seq<char>, b: Seq<char>)
    requires
        lev(a, b) == 0,
    ensures
        a == b,
    decreases a.len() + b.len(),
{
    if a.len() > 0 && b.len() > 0 {
        lemma_lev_zero_equal(a.drop_last(), b.drop_last());
        assert(a == a.drop_last().push(a.last()));
        assert(b == b.drop_last().push(b.last()));
    }
}

/// A scan that has stopped holds a confident match and no suggestion, and a
/// confident match, once found, stays found.
proof fn lemma_scan_confident_kept(cand: Seq<char>, names: Seq<Seq<char>>, k: int, l: int)
    requires
        0 <= k <= l <= names.len(),
    ensures
        scan(cand, names, k).stopped ==> scan(cand, names, k).confident is Some
            && scan(cand, names, k).suggestion is None,
        scan(cand, names, k).confident is Some ==> scan(cand, names, l).confident is Some,
    decreases l - k, k,
{
    if k > 0 {
        lemma_scan_confident_kept(cand, names, k - 1, k - 1);
    }
    if l > k {
        lemma_scan_confident_kept(cand, names, k, l - 1);
    }
}

/// Scanning up to an entry within `CONFIDENT_DISTANCE` leaves a confident match.
proof fn lemma_scan_close_entry(cand: Seq<char>, names: Seq<Seq<char>>, j: int)
    requires
        0 <= j < names.len(),
        lev(cand, names[j]) <= 1,
    ensures
        scan(cand, names, names.len() as int).confident is Some,
{
    lemma_scan_confident_kept(cand, names, j, j);
    lemma_scan_confident_kept(cand, names, j + 1, names.len() as int);
}

/// Before the first entry within distance zero, the scan has not stopped.
proof fn lemma_scan_not_stopped(cand: Seq<char>, names: Seq<Seq<char>>, k: int)
    requires
        0 <= k <= names.len(),
        forall|i: int| 0 <= i < k ==> lev(cand, #[trigger] names[i]) != 0,
    ensures
        !scan(cand, names, k).stopped,
    decreases k,
{
    if k > 0 {
        lemma_scan_not_stopped(cand, names, k - 1);
    }
}

/// While every entry is further than `SUGGESTION_LIMIT - 1`, the scan keeps
/// its initial state.
proof fn lemma_scan_far_prefix(cand: Seq<char>, names: Seq<Seq<char>>, k: int)
    requires
        0 <= k <= names.len(),
        forall|i: int| 0 <= i < k ==> lev(cand, #[trigger] names[i]) > 2,
    ensures
        scan(cand, names, k) == initial_scan(),
    decreases k,
{
    if k > 0 {
        lemma_scan_far_prefix(cand, names, k - 1);
    }
}

/// After a lone suggestion at entry `j`, entries further than
/// `CONFIDENT_DISTANCE` change nothing.
proof fn lemma_scan_keeps_suggestion(cand: Seq<char>, names: Seq<Seq<char>>, j: int, k: int)
    requires
        0 <= j < k <= names.len(),
        forall|i: int| 0 <= i < j ==> lev(cand, #[trigger] names[i]) > 2,
        lev(cand, names[j]) == 2,
        forall|i: int| j < i < names.len() ==> lev(cand, #[trigger] names[i]) > 1,
    ensures
        scan(cand, names, k) == (ScanState {
            confident: None,
            suggestion: Some(j as usize),
            best: 2,
            stopped: false,
        }),
    decreases k,
{
    if k == j + 1 {
        lemma_scan_far_prefix(cand, names, j);
    } else {
        lemma_scan_keeps_suggestion(cand, names, j, k - 1);
    }
}

/// After a confident match at entry `j`, entries further than
/// `SUGGESTION_LIMIT - 1` change nothing.
proof fn lemma_scan_keeps_confident(cand: Seq<char>, names: Seq<Seq<char>>, j: int, k: int)
    requires
        0 <= j < k <= names.len(),
        lev(cand, names[j]) <= 1,
        forall|i: int| 0 <= i < names.len() && i != j ==> lev(cand, #[trigger] names[i]) > 2,
    ensures
        scan(cand, names, k) == (ScanState {
            confident: Some(j as usize),
            suggestion: None,
            best: SUGGESTION_LIMIT,
            stopped: lev(cand, names[j]) == 0,
        }),
    decreases k,
{
    if k == j + 1 {
        lemma_scan_far_prefix(cand, names, j);
    } else {
        lemma_scan_keeps_confident(cand, names, j, k - 1);
    }
}

/// A blank line, the empty line among them, is no command and has no
/// parameters.
pub proof fn lemma_blank_line_no_match(catalog: &Catalog, line: Seq<char>)
    requires
        forall|i: int| 0 <= i < line.len() ==> crate::tokenizer::is_space(#[trigger] line[i]),
    ensures
        catalog.outcome(line) == Resolution::NoMatch,
        parameters_of(line) == Seq::<Seq<char>>::empty(),
{
    crate::tokenizer::lemma_no_tokens_iff_blank(line);
}

/// A line with a non-ASCII character is no command and has no parameters.
pub proof fn lemma_non_ascii_no_match(catalog: &Catalog, line: Seq<char>)
    requires
        !is_ascii_chars(line),
    ensures
        catalog.outcome(line) == Resolution::NoMatch,
        parameters_of(line) == Seq::<Seq<char>>::empty(),
{
}

/// A line that is a catalog name, in any mix of cases, matches that entry
/// and has no parameters.
pub proof fn lemma_exact_name_matches(catalog: &Catalog, line: Seq<char>, j: int)
    requires
        catalog.wf(),
        0 <= j < catalog.names@.len(),
        lower_seq(line) == catalog.names@[j]@,
    ensures
        catalog.outcome(line) == Resolution::Matched(j as usize),
        parameters_of(line) == Seq::<Seq<char>>::empty(),
{
    let names = string_views(catalog.names@);
    let name = names[j];
    assert(name == catalog.names@[j]@);
    assert(canonical_name(name));
    assert forall|i: int| 0 <= i < line.len() implies !crate::tokenizer::is_space(
        #[trigger] line[i],
    ) && '\0' <= line[i] <= '\u{7f}' by {
        assert(lower_seq(line)[i] == ascii_lower(line[i]));
        assert(name[i] <= '\u{7f}' && !crate::tokenizer::is_space(name[i]));
    }
    assert(is_ascii_chars(line));
    crate::tokenizer::lemma_tokens_append_token(Seq::empty(), line);
    assert(Seq::<char>::empty() + line == line);
    let ts = tokens(line);
    assert(ts == seq![line]);
    let cand = lower_seq(line);
    assert forall|i: int| 0 <= i < j implies lev(cand, #[trigger] names[i]) != 0 by {
        if lev(cand, names[i]) == 0 {
            lemma_lev_zero_equal(cand, names[i]);
        }
    }
    lemma_scan_not_stopped(cand, names, j);
    crate::distance::lemma_lev_identity(cand);
    assert(scan(cand, names, j + 1).stopped);
    lemma_scan_stopped_stays(cand, names, j + 1, names.len() as int);
    assert(ts.drop_first() == Seq::<Seq<char>>::empty());
}

/// A command token within `CONFIDENT_DISTANCE` of some catalog name is a
/// match; of that name, when no other name is within distance 2.
pub proof fn lemma_close_name_matches(catalog: &Catalog, line: Seq<char>, j: int)
    requires
        is_ascii_chars(line),
        tokens(line).len() > 0,
        0 <= j < catalog.names@.len(),
        lev(lower_seq(tokens(line)[0]), catalog.names@[j]@) <= 1,
    ensures
        catalog.outcome(line) is Matched,
        (forall|i: int|
            0 <= i < catalog.names@.len() && i != j ==> lev(
                lower_seq(tokens(line)[0]),
                #[trigger] catalog.names@[i]@,
            ) > 2) ==> catalog.outcome(line) == Resolution::Matched(j as usize),
{
    let names = string_views(catalog.names@);
    let cand = lower_seq(tokens(line)[0]);
    assert(names[j] == catalog.names@[j]@);
    lemma_scan_close_entry(cand, names, j);
    if forall|i: int|
        0 <= i < catalog.names@.len() && i != j ==> lev(cand, #[trigger] catalog.names@[i]@) > 2 {
        assert forall|i: int| 0 <= i < names.len() && i != j implies lev(
            cand,
            #[trigger] names[i],
        ) > 2 by {
            assert(names[i] == catalog.names@[i]@);
        }
        lemma_scan_keeps_confident(cand, names, j, names.len() as int);
    }
}

/// A command token with no name within `CONFIDENT_DISTANCE`, whose first name
/// at distance 2 is neither ignorable nor an alias, is a suggestion of that name.
pub proof fn lemma_near_name_suggested(catalog: &Catalog, line: Seq<char>, j: int)
    requires
        is_ascii_chars(line),
        tokens(line).len() > 0,
        0 <= j < catalog.names@.len(),
        forall|i: int|
            0 <= i < catalog.names@.len() ==> lev(
                lower_seq(tokens(line)[0]),
                #[trigger] catalog.names@[i]@,
            ) > 1,
        forall|i: int|
            0 <= i < j ==> lev(lower_seq(tokens(line)[0]), #[trigger] catalog.names@[i]@) > 2,
        lev(lower_seq(tokens(line)[0]), catalog.names@[j]@) == 2,
        !catalog.ignorable@.contains(j as usize),
        alias_target(catalog.aliases@, j as usize) is None,
    ensures
        catalog.outcome(line) == Resolution::Suggested(j as usize),
{
    let names = string_views(catalog.names@);
    let cand = lower_seq(tokens(line)[0]);
    assert forall|i: int| 0 <= i < names.len() implies #[trigger] names[i] == catalog.names@[i]@ by {}
    assert forall|i: int| 0 <= i < j implies lev(cand, #[trigger] names[i]) > 2 by {
        assert(names[i] == catalog.names@[i]@);
    }
    assert forall|i: int| j < i < names.len() implies lev(cand, #[trigger] names[i]) > 1 by {
        assert(names[i] == catalog.names@[i]@);
    }
    lemma_scan_keeps_suggestion(cand, names, j, names.len() as int);
}

/// A command token whose only name within distance 2 is an ignorable entry,
/// at distance 2, is no command.
pub proof fn lemma_ignorable_suggestion_dropped(catalog: &Catalog, line: Seq<char>, j: int)
    requires
        is_ascii_chars(line),
        tokens(line).len() > 0,
        0 <= j < catalog.names@.len(),
        forall|i: int|
            0 <= i < catalog.names@.len() && i != j ==> lev(
                lower_seq(tokens(line)[0]),
                #[trigger] catalog.names@[i]@,
            ) > 2,
        lev(lower_seq(tokens(line)[0]), catalog.names@[j]@) == 2,
        catalog.ignorable@.contains(j as usize),
    ensures
        catalog.outcome(line) == Resolution::NoMatch,
{
    let names = string_views(catalog.names@);
    let cand = lower_seq(tokens(line)[0]);
    assert(names[j] == catalog.names@[j]@);
    assert forall|i: int| 0 <= i < j implies lev(cand, #[trigger] names[i]) > 2 by {
        assert(names[i] == catalog.names@[i]@);
    }
    assert forall|i: int| j < i < names.len() implies lev(cand, #[trigger] names[i]) > 1 by {
        assert(names[i] == catalog.names@[i]@);
    }
    lemma_scan_keeps_suggestion(cand, names, j, names.len() as int);
}

/// A command token whose suggestion would be an alias, at distance 2, matches
/// the alias's target instead.
pub proof fn lemma_alias_promoted(catalog: &Catalog, line: Seq<char>, j: int, t: usize)
    requires
        is_ascii_chars(line),
        tokens(line).len() > 0,
        0 <= j < catalog.names@.len(),
        forall|i: int|
            0 <= i < j ==> lev(lower_seq(tokens(line)[0]), #[trigger] catalog.names@[i]@) > 2,
        lev(lower_seq(tokens(line)[0]), catalog.names@[j]@) == 2,
        forall|i: int|
            j < i < catalog.names@.len() ==> lev(
                lower_seq(tokens(line)[0]),
                #[trigger] catalog.names@[i]@,
            ) > 1,
        !catalog.ignorable@.contains(j as usize),
        alias_target(catalog.aliases@, j as usize) == Some(t),
    ensures
        catalog.outcome(line) == Resolution::Matched(t),
{
    let names = string_views(catalog.names@);
    let cand = lower_seq(tokens(line)[0]);
    assert(names[j] == catalog.names@[j]@);
    assert forall|i: int| 0 <= i < j implies lev(cand, #[trigger] names[i]) > 2 by {
        assert(names[i] == catalog.names@[i]@);
    }
    assert forall|i: int| j < i < names.len() implies lev(cand, #[trigger] names[i]) > 1 by {
        assert(names[i] == catalog.names@[i]@);
    }
    lemma_scan_keeps_suggestion(cand, names, j, names.len() as int);
}

/// The parameters of an ASCII line are its tokens after the first, as they
/// stand in the line; the catalog plays no part in them.
pub proof fn lemma_parameters_follow_command(line: Seq<char>)
    requires
        is_ascii_chars(line),
        tokens(line).len() > 0,
    ensures
        parameters_of(line) == tokens(line).subrange(1, tokens(line).len() as int),
{
}

/// The lower-cased characters of `s`.
pub(crate) fn lower_chars(s: &str) -> (r: Vec<char>)
    ensures
        r@ == lower_seq(s@),
{
    let mut out: Vec<char> = Vec::new();
    for c in it: s.chars()
        invariant
            it.seq() == s@,
            out@ == lower_seq(s@.take(it.index())),
    {
        let l = if 'A' <= c && c <= 'Z' {
            ((c as u8) + 32) as char
        } else {
            c
        };
        out.push(l);
        assert(lower_seq(s@.take(it.index() + 1)) == lower_seq(s@.take(it.index())).push(l));
    }
    assert(s@.take(s@.len() as int) == s@);
    out
}

/// Whether `v` holds `x`.
fn contains_index(v: &Vec<usize>, x: usize) -> (r: bool)
    ensures
        r == v@.contains(x),
{
    let mut i: usize = 0;
    while i < v.len()
        invariant
            i <= v@.len(),
            forall|l: int| 0 <= l < i ==> v@[l] != x,
        decreases v@.len() - i,
    {
        if v[i] == x {
            return true;
        }
        i = i + 1;
    }
    false
}

/// The target of the first alias pair for `j`.
fn find_alias(aliases: &Vec<(usize, usize)>, j: usize) -> (r: Option<usize>)
    ensures
        r == alias_target(aliases@, j),
{
    let mut i: usize = 0;
    while i < aliases.len()
        invariant
            i <= aliases@.len(),
            alias_target(aliases@.take(i as int), j) is None,
        decreases aliases@.len() - i,
    {
        assert(aliases@.take(i + 1).drop_last() == aliases@.take(i as int));
        if aliases[i].0 == j {
            proof {
                lemma_alias_target_prefix(aliases@, j, i + 1);
            }
            return Some(aliases[i].1);
        }
        i = i + 1;
    }
    assert(aliases@.take(i as int) == aliases@);
    None
}

impl Catalog {
    /// Settles a finished scan into a classification.
    fn settle_scan(&self, s: ScanState) -> (r: Resolution)
        ensures
            r == settle(self.ignorable@, self.aliases@, s),
    {
        let kept = match s.suggestion {
            Some(j) => if contains_index(&self.ignorable, j) {
                None
            } else {
                Some(j)
            },
            None => None,
        };
        match kept {
            Some(j) => match find_alias(&self.aliases, j) {
                Some(t) => Resolution::Matched(t),
                None => match s.confident {
                    Some(c) => Resolution::Matched(c),
                    None => Resolution::Suggested(j),
                },
            },
            None => match s.confident {
                Some(c) => Resolution::Matched(c),
                None => Resolution::NoMatch,
            },
        }
    }

    /// Scans the catalog for `cand`, which is already lower case.
    fn scan_names(&self, cand: &Vec<char>) -> (r: ScanState)
        ensures
            r == scan(cand@, string_views(self.names@), self.names@.len() as int),
    {
        let ghost names = string_views(self.names@);
        let mut state = ScanState {
            confident: None,
            suggestion: None,
            best: SUGGESTION_LIMIT,
            stopped: false,
        };
        let mut j: usize = 0;
        while j < self.names.len()
            invariant
                j <= self.names@.len(),
                names == string_views(self.names@),
                state == scan(cand@, names, j as int),
                !state.stopped,
            decreases self.names@.len() - j,
        {
            let name = chars_of(self.names[j].as_str());
            let d = levenshtein_within(cand, &name, DISTANCE_CAP + 1);
            assert(d as nat == capped_distance(cand@, names[j as int]));
            if d <= CONFIDENT_DISTANCE {
                state = ScanState { confident: Some(j), suggestion: None, best: state.best, stopped: d == 0 };
            } else if d < state.best {
                state = ScanState { suggestion: Some(j), best: d, ..state };
            }
            if state.stopped {
                proof {
                    lemma_scan_stopped_stays(cand@, names, j + 1, names.len() as int);
                }
                return state;
            }
            j = j + 1;
        }
        state
    }
}

/// Classifies `line` against `catalog`. The first token, lower-cased, is
/// compared with every catalog name; the remaining tokens are returned as
/// they stand. A blank line, or one with any non-ASCII character, is no
/// command and has no parameters.
pub fn resolve(line: &str, catalog: &Catalog) -> (r: ResolutionResult)
    ensures
        r.outcome == catalog.outcome(line@),
        string_views(r.parameters@) == parameters_of(line@),
        catalog.entries_exist() ==> match named_entry(r.outcome) {
            Some(i) => i < catalog.names@.len(),
            None => true,
        },
{
    let toks = tokenize(line);
    if !line.is_ascii() || toks.len() == 0 {
        return ResolutionResult { outcome: Resolution::NoMatch, parameters: Vec::new() };
    }
    assert(toks@[0]@ == string_views(toks@)[0]);
    let cand = lower_chars(toks[0].as_str());
    let mut parameters: Vec<String> = Vec::new();
    let mut i: usize = 1;
    while i < toks.len()
        invariant
            1 <= i <= toks@.len(),
            string_views(parameters@) == string_views(toks@).subrange(1, i as int),
        decreases toks@.len() - i,
    {
        parameters.push(toks[i].clone());
        assert(string_views(parameters@) == string_views(parameters@.drop_last()).push(toks@[i as int]@));
        assert(string_views(toks@).subrange(1, i + 1) == string_views(toks@).subrange(1, i as int).push(toks@[i as int]@));
        i = i + 1;
    }
    assert(string_views(toks@).subrange(1, toks@.len() as int) == string_views(toks@).drop_first());
    let state = catalog.scan_names(&cand);
    proof {
        lemma_scan_entries_exist(cand@, string_views(catalog.names@), catalog.names@.len() as int);
        if catalog.entries_exist() {
            if let Some(j) = state.suggestion {
                lemma_alias_target_exists(catalog.aliases@, j, catalog.names@.len());
            }
        }
    }
    ResolutionResult { outcome: catalog.settle_scan(state), parameters }
}

} // verus!
