//! Character-level text primitives: whitespace, ASCII case folding, scanning,
//! trimming and substring search over sequences of `char`.
//!
//! Every function here is stated over `Seq<char>`, the view of `str`, so that
//! the parsers built on top can speak of strings without any byte offsets.

use vstd::prelude::*;
use vstd::string::*;

verus! {

/// The characters that separate tokens: Unicode's `White_Space` set.
pub open spec fn is_whitespace(c: char) -> bool {
    let n = c as u32;
    ||| 0x09 <= n <= 0x0D
    ||| n == 0x20
    ||| n == 0x85
    ||| n == 0xA0
    ||| n == 0x1680
    ||| 0x2000 <= n <= 0x200A
    ||| n == 0x2028
    ||| n == 0x2029
    ||| n == 0x202F
    ||| n == 0x205F
    ||| n == 0x3000
}

/// Tells whether `c` separates tokens.
pub fn whitespace(c: char) -> (b: bool)
    ensures
        b == is_whitespace(c),
{
    let n: u32 = c as u32;
    (0x09 <= n && n <= 0x0D) || n == 0x20 || n == 0x85 || n == 0xA0 || n == 0x1680 || (0x2000 <= n
        && n <= 0x200A) || n == 0x2028 || n == 0x2029 || n == 0x202F || n == 0x205F || n == 0x3000
}

/// ASCII case folding: `A`..`Z` map to `a`..`z`, every other character to itself.
pub open spec fn fold(c: char) -> char {
    if 'A' <= c <= 'Z' {
        ((c as u8) + 32) as char
    } else {
        c
    }
}

/// Folds one character to lower case.
pub fn fold_char(c: char) -> (r: char)
    ensures
        r == fold(c),
{
    if 'A' <= c && c <= 'Z' {
        ((c as u8) + 32) as char
    } else {
        c
    }
}

/// Two characters agree, exactly or up to ASCII case.
pub open spec fn same_char(a: char, b: char, ignore_case: bool) -> bool {
    if ignore_case {
        fold(a) == fold(b)
    } else {
        a == b
    }
}

/// Two texts of one length that agree character by character up to ASCII case.
pub open spec fn same_folded(a: Seq<char>, b: Seq<char>) -> bool {
    &&& a.len() == b.len()
    &&& forall|i: int| 0 <= i < a.len() ==> fold(#[trigger] a[i]) == fold(b[i])
}

/// The characters of a string, in order.
pub fn chars_of(s: &str) -> (v: Vec<char>)
    ensures
        v@ == s@,
{
    let mut v: Vec<char> = Vec::new();
    for c in it: s.chars()
        invariant
            v.len() == it.index(),
            it.seq() == s@,
            forall|i: int| 0 <= i < v.len() ==> v@[i] == it.seq()[i],
    {
        v.push(c);
    }
    v
}

/// What a scan looks for.
#[derive(Clone, Copy, Debug)]
pub enum Stop {
    /// A token separator.
    Whitespace,
    /// A character that belongs to a token.
    NonWhitespace,
    /// A line feed.
    Newline,
}

/// Whether a scan for `stop` ends at `c`.
pub open spec fn stops_at(c: char, stop: Stop) -> bool {
    match stop {
        Stop::Whitespace => is_whitespace(c),
        Stop::NonWhitespace => !is_whitespace(c),
        Stop::Newline => c == '\n',
    }
}

/// The first index at or after `from` that holds a `stop` character, or the
/// length of `s` where there is none.
pub open spec fn scan(s: Seq<char>, from: int, stop: Stop) -> int
    decreases s.len() - from,
{
    if 0 <= from < s.len() && !stops_at(s[from], stop) {
        scan(s, from + 1, stop)
    } else {
        from
    }
}

/// `scan` returns the least index at or after `from` that ends the run.
pub proof fn lemma_scan_bounds(s: Seq<char>, from: int, stop: Stop)
    requires
        0 <= from <= s.len(),
    ensures
        from <= scan(s, from, stop) <= s.len(),
        forall|k: int| from <= k < scan(s, from, stop) ==> !stops_at(#[trigger] s[k], stop),
        scan(s, from, stop) < s.len() ==> stops_at(s[scan(s, from, stop)], stop),
    decreases s.len() - from,
{
    if from < s.len() && !stops_at(s[from], stop) {
        lemma_scan_bounds(s, from + 1, stop);
    }
}

fn stops_here(c: char, stop: Stop) -> (b: bool)
    ensures
        b == stops_at(c, stop),
{
    match stop {
        Stop::Whitespace => whitespace(c),
        Stop::NonWhitespace => !whitespace(c),
        Stop::Newline => c == '\n',
    }
}

/// Walks from `from` to the first `stop` character.
pub fn scan_to(s: &[char], from: usize, stop: Stop) -> (end: usize)
    requires
        from <= s@.len(),
    ensures
        end == scan(s@, from as int, stop),
        from <= end <= s@.len(),
{
    let mut i: usize = from;
    while i < s.len() && !stops_here(s[i], stop)
        invariant
            from <= i <= s@.len(),
            scan(s@, from as int, stop) == scan(s@, i as int, stop),
        decreases s@.len() - i,
    {
        i = i + 1;
    }
    i
}

/// One past the last token character before `upto`, or 0 where all of
/// `s[..upto]` is whitespace.
pub open spec fn content_end(s: Seq<char>, upto: int) -> int
    decreases upto,
{
    if 0 < upto <= s.len() && is_whitespace(s[upto - 1]) {
        content_end(s, upto - 1)
    } else {
        upto
    }
}

/// `s` without its leading and trailing whitespace.
pub open spec fn trimmed(s: Seq<char>) -> Seq<char> {
    let from = scan(s, 0, Stop::NonWhitespace);
    let to = content_end(s, s.len() as int);
    if from < to {
        s.subrange(from, to)
    } else {
        Seq::empty()
    }
}

/// `content_end` returns the greatest index up to `upto` that follows a token
/// character, or 0.
pub proof fn lemma_content_end_bounds(s: Seq<char>, upto: int)
    requires
        0 <= upto <= s.len(),
    ensures
        0 <= content_end(s, upto) <= upto,
        forall|k: int| content_end(s, upto) <= k < upto ==> is_whitespace(#[trigger] s[k]),
        content_end(s, upto) > 0 ==> !is_whitespace(s[content_end(s, upto) - 1]),
    decreases upto,
{
    if 0 < upto && is_whitespace(s[upto - 1]) {
        lemma_content_end_bounds(s, upto - 1);
    }
}

/// What trimming leaves is empty or begins and ends with a token character,
/// and what it removes is whitespace.
pub proof fn lemma_trimmed_shape(s: Seq<char>)
    ensures
        trimmed(s).len() > 0 ==> !is_whitespace(trimmed(s).first()) && !is_whitespace(
            trimmed(s).last(),
        ),
        trimmed(s).len() == 0 ==> forall|k: int| 0 <= k < s.len() ==> is_whitespace(#[trigger] s[k]),
        exists|from: int, to: int|
            {
                &&& 0 <= from <= to <= s.len()
                &&& #[trigger] s.subrange(from, to) == trimmed(s)
                &&& forall|k: int| 0 <= k < from ==> is_whitespace(#[trigger] s[k])
                &&& forall|k: int| to <= k < s.len() ==> is_whitespace(#[trigger] s[k])
            },
{
    let from = scan(s, 0, Stop::NonWhitespace);
    let to = content_end(s, s.len() as int);
    lemma_scan_bounds(s, 0, Stop::NonWhitespace);
    lemma_content_end_bounds(s, s.len() as int);
    assert forall|k: int| 0 <= k < from implies is_whitespace(#[trigger] s[k]) by {
        assert(!stops_at(s[k], Stop::NonWhitespace));
    }
    if from >= to {
        // a token character at `from` would put `to` beyond it
        assert(s.subrange(from, from) =~= trimmed(s));
        assert(from == s.len());
    }
}

/// The bounds of `trimmed(s)` within `s`: `(from, to)` with `from <= to`, and
/// `from == to` where nothing is left.
pub fn trim_bounds(s: &[char]) -> (r: (usize, usize))
    ensures
        r.0 <= r.1 <= s@.len(),
        s@.subrange(r.0 as int, r.1 as int) == trimmed(s@),
{
    let from = scan_to(s, 0, Stop::NonWhitespace);
    let mut to: usize = s.len();
    while to > 0 && whitespace(s[to - 1])
        invariant
            to <= s@.len(),
            content_end(s@, s@.len() as int) == content_end(s@, to as int),
        decreases to,
    {
        to = to - 1;
    }
    if from < to {
        (from, to)
    } else {
        (from, from)
    }
}

/// `needle` stands in `hay` at index `at`, exactly or up to ASCII case.
pub open spec fn occurs_at(hay: Seq<char>, needle: Seq<char>, at: int, ignore_case: bool) -> bool {
    &&& 0 <= at
    &&& at + needle.len() <= hay.len()
    &&& forall|k: int|
        0 <= k < needle.len() ==> same_char(hay[at + k], #[trigger] needle[k], ignore_case)
}

/// `needle` stands somewhere in `hay`.
pub open spec fn contains(hay: Seq<char>, needle: Seq<char>, ignore_case: bool) -> bool {
    exists|at: int| occurs_at(hay, needle, at, ignore_case)
}

/// `at` is the leftmost place where `needle` stands in `hay`.
pub open spec fn is_first_occurrence(
    hay: Seq<char>,
    needle: Seq<char>,
    at: int,
    ignore_case: bool,
) -> bool {
    &&& occurs_at(hay, needle, at, ignore_case)
    &&& forall|j: int| 0 <= j < at ==> !occurs_at(hay, needle, j, ignore_case)
}

/// The leftmost place where `needle` stands in `hay`, if there is one.
pub open spec fn first_occurrence(hay: Seq<char>, needle: Seq<char>, ignore_case: bool) -> Option<
    int,
> {
    if contains(hay, needle, ignore_case) {
        Some(choose|at: int| is_first_occurrence(hay, needle, at, ignore_case))
    } else {
        None
    }
}

/// A leftmost occurrence is the one that `first_occurrence` names.
pub proof fn lemma_first_occurrence_unique(
    hay: Seq<char>,
    needle: Seq<char>,
    at: int,
    ignore_case: bool,
)
    requires
        is_first_occurrence(hay, needle, at, ignore_case),
    ensures
        first_occurrence(hay, needle, ignore_case) == Some(at),
{
    // the chosen place is a leftmost occurrence too: neither lies before the other
    let chosen = choose|c: int| is_first_occurrence(hay, needle, c, ignore_case);
    assert(is_first_occurrence(hay, needle, chosen, ignore_case));
}

fn same(a: char, b: char, ignore_case: bool) -> (r: bool)
    ensures
        r == same_char(a, b, ignore_case),
{
    if ignore_case {
        fold_char(a) == fold_char(b)
    } else {
        a == b
    }
}

fn occurs_here(hay: &[char], needle: &[char], at: usize, ignore_case: bool) -> (r: bool)
    requires
        at + needle@.len() <= hay@.len(),
    ensures
        r == occurs_at(hay@, needle@, at as int, ignore_case),
{
    let mut k: usize = 0;
    let size: usize = hay.len();
    while k < needle.len()
        invariant
            k <= needle@.len(),
            at + needle@.len() <= hay@.len() == size,
            forall|j: int|
                0 <= j < k ==> same_char(hay@[at + j], #[trigger] needle@[j], ignore_case),
        decreases needle@.len() - k,
    {
        if !same(hay[at + k], needle[k], ignore_case) {
            return false;
        }
        k = k + 1;
    }
    true
}

/// Searches `hay` for `needle` from the left.
pub fn find(hay: &[char], needle: &[char], ignore_case: bool) -> (r: Option<usize>)
    ensures
        match r {
            Some(at) => first_occurrence(hay@, needle@, ignore_case) == Some(at as int)
                && is_first_occurrence(hay@, needle@, at as int, ignore_case),
            None => first_occurrence(hay@, needle@, ignore_case) is None && !contains(
                hay@,
                needle@,
                ignore_case,
            ),
        },
        r matches Some(at) ==> at + needle.len() <= hay.len(),
{
    let size: usize = hay.len();
    let width: usize = needle.len();
    if width > size {
        assert forall|at: int| !occurs_at(hay@, needle@, at, ignore_case) by {}
        return None;
    }
    let mut at: usize = 0;
    while at <= size - width
        invariant
            size == hay@.len(),
            width == needle@.len(),
            width <= size,
            at <= size - width + 1,
            forall|j: int| 0 <= j < at ==> !occurs_at(hay@, needle@, j, ignore_case),
        decreases size - width + 1 - at,
    {
        if occurs_here(hay, needle, at, ignore_case) {
            proof {
                lemma_first_occurrence_unique(hay@, needle@, at as int, ignore_case);
            }
            return Some(at);
        }
        // an empty needle stands everywhere, so there is a character to step over
        assert(width > 0);
        at = at + 1;
    }
    assert forall|j: int| !occurs_at(hay@, needle@, j, ignore_case) by {}
    None
}

} // verus!
