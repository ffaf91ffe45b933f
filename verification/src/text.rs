//! Character-level text operations: searching, stripping and conversion between
//! strings and character sequences.
//!
//! All specifications are stated over `Seq<char>`, the view of `str` and `String`.
use vstd::prelude::*;
use vstd::slice::slice_subrange;

verus! {

/// Whether `c` carries the Unicode `White_Space` property.
pub open spec fn is_whitespace(c: char) -> bool {
    ||| '\u{9}' <= c <= '\u{d}'
    ||| c == ' '
    ||| c == '\u{85}'
    ||| c == '\u{a0}'
    ||| c == '\u{1680}'
    ||| '\u{2000}' <= c <= '\u{200a}'
    ||| c == '\u{2028}'
    ||| c == '\u{2029}'
    ||| c == '\u{202f}'
    ||| c == '\u{205f}'
    ||| c == '\u{3000}'
}

/// A class of characters to look for or to strip away.
#[derive(Clone, Copy, Debug)]
pub enum Pattern {
    /// Any character with the Unicode `White_Space` property.
    Whitespace,
    /// Exactly the given character.
    Char(char),
}

impl Pattern {
    /// Whether `c` belongs to this class.
    pub open spec fn admits(self, c: char) -> bool {
        match self {
            Pattern::Whitespace => is_whitespace(c),
            Pattern::Char(wanted) => c == wanted,
        }
    }

    /// Tests whether `c` belongs to this class.
    pub fn test(&self, c: char) -> (hit: bool)
        ensures
            hit == self.admits(c),
    {
        match self {
            Pattern::Whitespace => {
                ('\u{9}' <= c && c <= '\u{d}') || c == ' ' || c == '\u{85}' || c == '\u{a0}' || c
                    == '\u{1680}' || ('\u{2000}' <= c && c <= '\u{200a}') || c == '\u{2028}' || c
                    == '\u{2029}' || c == '\u{202f}' || c == '\u{205f}' || c == '\u{3000}'
            },
            Pattern::Char(wanted) => c == *wanted,
        }
    }
}

/// The first position at or after `from` whose character `p` admits, or `s.len()`
/// when there is none.
pub open spec fn first_match(s: Seq<char>, p: Pattern, from: int) -> int
    recommends
        0 <= from,
    decreases s.len() - from,
{
    if from >= s.len() {
        s.len() as int
    } else if p.admits(s[from]) {
        from
    } else {
        first_match(s, p, from + 1)
    }
}

/// Whether some character of `s` is admitted by `p`.
pub open spec fn has_match(s: Seq<char>, p: Pattern) -> bool {
    exists|i: int| 0 <= i < s.len() && p.admits(#[trigger] s[i])
}

/// `s` without its longest prefix of characters that `p` admits.
pub open spec fn stripped_start(s: Seq<char>, p: Pattern) -> Seq<char>
    decreases s.len(),
{
    if s.len() > 0 && p.admits(s[0]) {
        stripped_start(s.drop_first(), p)
    } else {
        s
    }
}

/// `s` without its longest suffix of characters that `p` admits.
pub open spec fn stripped_end(s: Seq<char>, p: Pattern) -> Seq<char>
    decreases s.len(),
{
    if s.len() > 0 && p.admits(s.last()) {
        stripped_end(s.drop_last(), p)
    } else {
        s
    }
}

/// `s` with the characters that `p` admits removed from both ends.
pub open spec fn stripped(s: Seq<char>, p: Pattern) -> Seq<char> {
    stripped_end(stripped_start(s, p), p)
}

/// `s` without leading and trailing whitespace.
pub open spec fn trimmed(s: Seq<char>) -> Seq<char> {
    stripped(s, Pattern::Whitespace)
}

/// `first_match` is the least matching position at or after `from`.
pub proof fn lemma_first_match(s: Seq<char>, p: Pattern, from: int)
    requires
        0 <= from <= s.len(),
    ensures
        from <= first_match(s, p, from) <= s.len(),
        forall|i: int| from <= i < first_match(s, p, from) ==> !p.admits(#[trigger] s[i]),
        first_match(s, p, from) < s.len() ==> p.admits(s[first_match(s, p, from)]),
    decreases s.len() - from,
{
    if from < s.len() && !p.admits(s[from]) {
        lemma_first_match(s, p, from + 1);
    }
}

/// Searching a suffix of `s` is searching `s` from where the suffix starts.
pub proof fn lemma_first_match_skip(s: Seq<char>, p: Pattern, from: int, k: int)
    requires
        0 <= from,
        0 <= k,
        from + k <= s.len(),
    ensures
        first_match(s.skip(from), p, k) == first_match(s, p, from + k) - from,
    decreases s.len() - from - k,
{
    if from + k < s.len() && !p.admits(s[from + k]) {
        lemma_first_match_skip(s, p, from, k + 1);
    }
}

/// A match exists exactly when `first_match` from the start stays inside `s`.
pub proof fn lemma_has_match(s: Seq<char>, p: Pattern)
    ensures
        has_match(s, p) <==> first_match(s, p, 0) < s.len(),
{
    lemma_first_match(s, p, 0);
}

/// Finds the first character at or after `from` that `p` admits; gives the
/// length of `s` where there is none.
pub fn find(s: &[char], p: Pattern, from: usize) -> (at: usize)
    requires
        from <= s@.len(),
    ensures
        at == first_match(s@, p, from as int),
        from <= at <= s@.len(),
        forall|i: int| from <= i < at ==> !p.admits(#[trigger] s@[i]),
        at < s@.len() ==> p.admits(s@[at as int]),
{
    proof {
        lemma_first_match(s@, p, from as int);
    }
    let mut at: usize = from;
    while at < s.len() && !p.test(s[at])
        invariant
            from <= at <= s@.len(),
            first_match(s@, p, at as int) == first_match(s@, p, from as int),
        decreases s@.len() - at,
    {
        at += 1;
    }
    at
}

/// Removes the leading characters that `p` admits.
pub fn strip_start<'a>(s: &'a [char], p: Pattern) -> (rest: &'a [char])
    ensures
        rest@ == stripped_start(s@, p),
{
    let mut lo: usize = 0;
    assert(s@.skip(0) == s@);
    while lo < s.len() && p.test(s[lo])
        invariant
            lo <= s@.len(),
            stripped_start(s@.skip(lo as int), p) == stripped_start(s@, p),
        decreases s@.len() - lo,
    {
        assert(s@.skip(lo as int).drop_first() == s@.skip(lo + 1));
        lo += 1;
    }
    slice_subrange(s, lo, s.len())
}

/// Removes the trailing characters that `p` admits.
pub fn strip_end<'a>(s: &'a [char], p: Pattern) -> (rest: &'a [char])
    ensures
        rest@ == stripped_end(s@, p),
{
    let mut hi: usize = s.len();
    assert(s@.take(s@.len() as int) == s@);
    while hi > 0 && p.test(s[hi - 1])
        invariant
            hi <= s@.len(),
            stripped_end(s@.take(hi as int), p) == stripped_end(s@, p),
        decreases hi,
    {
        assert(s@.take(hi as int).drop_last() == s@.take(hi - 1));
        hi -= 1;
    }
    slice_subrange(s, 0, hi)
}

/// Removes the characters that `p` admits from both ends.
pub fn strip<'a>(s: &'a [char], p: Pattern) -> (rest: &'a [char])
    ensures
        rest@ == stripped(s@, p),
{
    strip_end(strip_start(s, p), p)
}

/// Removes leading and trailing whitespace.
pub fn trim<'a>(s: &'a [char]) -> (rest: &'a [char])
    ensures
        rest@ == trimmed(s@),
{
    strip(s, Pattern::Whitespace)
}

/// Tells whether `s` spells exactly `word`.
pub fn spells(s: &[char], word: &str) -> (same: bool)
    ensures
        same == (s@ == word@),
{
    let mut count: usize = 0;
    let mut same = true;
    for c in it: word.chars()
        invariant
            it.seq() == word@,
            count <= s@.len(),
            same ==> count == it.index(),
            same ==> forall|j: int| 0 <= j < count ==> s@[j] == word@[j],
            !same ==> s@ != word@,
    {
        if same {
            if count < s.len() && s[count] == c {
                count += 1;
            } else {
                same = false;
            }
        }
    }
    if same && count == s.len() {
        assert(s@ =~= word@);
        true
    } else {
        false
    }
}

/// Collects the characters of `s`.
pub fn to_chars(s: &str) -> (chars: Vec<char>)
    ensures
        chars@ == s@,
{
    let mut chars: Vec<char> = Vec::new();
    for c in it: s.chars()
        invariant
            chars@ == it.seq().take(it.index() as int),
    {
        chars.push(c);
    }
    chars
}

/// Appends `chars` to `out`.
pub fn append(out: &mut Vec<char>, chars: &[char])
    ensures
        final(out)@ == old(out)@ + chars@,
{
    let mut done: usize = 0;
    while done < chars.len()
        invariant
            done <= chars@.len(),
            out@ == old(out)@ + chars@.take(done as int),
        decreases chars@.len() - done,
    {
        out.push(chars[done]);
        done += 1;
    }
}

/// Appends `c` to the end of `text`. The body is `String::push` of the standard
/// library, which is taken on trust: the contract states what that function's
/// documentation says of it.
#[verifier::external_body]
fn push_char(text: &mut String, c: char)
    ensures
        final(text)@ == old(text)@.push(c),
{
    text.push(c);
}

/// Builds the string that spells `chars`.
pub fn to_string(chars: &[char]) -> (text: String)
    ensures
        text@ == chars@,
{
    let mut text = String::new();
    let mut done: usize = 0;
    while done < chars.len()
        invariant
            done <= chars@.len(),
            text@ == chars@.take(done as int),
        decreases chars@.len() - done,
    {
        push_char(&mut text, chars[done]);
        done += 1;
    }
    text
}

} // verus!
