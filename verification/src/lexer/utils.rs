//! Character classes and the scanning helpers built on them.
use super::source::SourceLexer;
use vstd::prelude::*;

verus! {

/// ASCII letters.
pub open spec fn is_alpha(c: char) -> bool {
    ('a' <= c && c <= 'z') || ('A' <= c && c <= 'Z')
}

/// ASCII decimal digits.
pub open spec fn is_dec_digit(c: char) -> bool {
    '0' <= c && c <= '9'
}

/// ASCII letters and decimal digits.
pub open spec fn is_alphanum(c: char) -> bool {
    is_alpha(c) || is_dec_digit(c)
}

/// Blanks within a line: space and tab.
pub open spec fn is_space(c: char) -> bool {
    c == ' ' || c == '\t'
}

/// Characters that may start an identifier or keyword.
pub open spec fn is_ident_start(c: char) -> bool {
    is_alpha(c) || c == '_'
}

/// Characters that may continue an identifier or keyword.
pub open spec fn is_ident_part(c: char) -> bool {
    is_alphanum(c) || c == '_'
}

/// Characters that may stand inside a string literal.
pub open spec fn is_string_part(c: char) -> bool {
    c != '"'
}

/// Calls `winnow::stream::AsChar::is_alpha` on a `char`, which holds exactly
/// for the ASCII letters `A` to `Z` and `a` to `z`.
#[verifier::external_body]
pub(crate) fn char_is_alpha(c: char) -> (r: bool)
    ensures
        r == is_alpha(c),
{
    winnow::stream::AsChar::is_alpha(c)
}

/// Calls `winnow::stream::AsChar::is_dec_digit` on a `char`, which holds
/// exactly for the ASCII digits `0` to `9`.
#[verifier::external_body]
pub(crate) fn char_is_dec_digit(c: char) -> (r: bool)
    ensures
        r == is_dec_digit(c),
{
    winnow::stream::AsChar::is_dec_digit(c)
}

/// Calls `winnow::stream::AsChar::is_alphanum` on a `char`, which holds
/// exactly for the ASCII letters and the ASCII digits.
#[verifier::external_body]
pub(crate) fn char_is_alphanum(c: char) -> (r: bool)
    ensures
        r == is_alphanum(c),
{
    winnow::stream::AsChar::is_alphanum(c)
}

/// Calls `winnow::stream::AsChar::is_space` on a `char`, which holds exactly
/// for the space and the horizontal tab.
#[verifier::external_body]
pub(crate) fn char_is_space(c: char) -> (r: bool)
    ensures
        r == is_space(c),
{
    winnow::stream::AsChar::is_space(c)
}

/// Where the longest run of characters of `class` that starts at `from` ends.
pub open spec fn scan_while(s: Seq<char>, from: int, class: spec_fn(char) -> bool) -> int
    decreases s.len() - from,
{
    if 0 <= from < s.len() && class(s[from]) {
        scan_while(s, from + 1, class)
    } else {
        from
    }
}

/// The run that `scan_while` measures lies inside the text, holds only
/// characters of the class, and cannot be extended.
pub proof fn lemma_scan_while(s: Seq<char>, from: int, class: spec_fn(char) -> bool)
    requires
        0 <= from <= s.len(),
    ensures
        from <= scan_while(s, from, class) <= s.len(),
        forall|i: int| from <= i < scan_while(s, from, class) ==> class(#[trigger] s[i]),
        scan_while(s, from, class) < s.len() ==> !class(s[scan_while(s, from, class)]),
    decreases s.len() - from,
{
    if from < s.len() && class(s[from]) {
        lemma_scan_while(s, from + 1, class);
    }
}

/// A position up to which every character is of the class, and which holds
/// the end of the text or a character outside the class, is where the run
/// ends.
pub proof fn lemma_scan_while_unique(
    s: Seq<char>,
    from: int,
    end: int,
    class: spec_fn(char) -> bool,
)
    requires
        0 <= from <= end <= s.len(),
        forall|i: int| from <= i < end ==> class(#[trigger] s[i]),
        end < s.len() ==> !class(s[end]),
    ensures
        scan_while(s, from, class) == end,
    decreases end - from,
{
    if from < end {
        lemma_scan_while_unique(s, from + 1, end, class);
    }
}

/// The position after the blanks that start at `from`.
pub open spec fn skip_spaces(s: Seq<char>, from: int) -> int {
    scan_while(s, from, |c: char| is_space(c))
}

/// Moves the cursor past spaces and tabs.
pub fn eat_spaces(input: &mut SourceLexer)
    requires
        old(input).wf(),
    ensures
        final(input).wf(),
        final(input).chars == old(input).chars,
        final(input).offset == skip_spaces(old(input).chars@, old(input).offset as int),
{
    let ghost s = input.chars@;
    let ghost start = input.offset as int;
    while input.offset < input.chars.len() && char_is_space(input.chars[input.offset])
        invariant
            input.wf(),
            input.chars@ == s,
            input.chars == old(input).chars,
            start <= input.offset,
            forall|i: int| start <= i < input.offset ==> is_space(#[trigger] s[i]),
        decreases input.chars.len() - input.offset,
    {
        input.offset += 1;
    }
    proof {
        lemma_scan_while_unique(s, start, input.offset as int, |c: char| is_space(c));
    }
}

} // verus!
