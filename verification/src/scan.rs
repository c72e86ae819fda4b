//! Character classification and the specification-level scanner: which token
//! starts at a given position of the input, and where the scan leaves the
//! cursor afterwards.

use vstd::prelude::*;
use vstd::string::StrSliceExecFns;

verus! {

/// The only whitespace the scanner skips is the ASCII space character.
pub open spec fn is_space_char(c: char) -> bool {
    c == ' '
}

/// Alphabetic. The input is one character per byte, so only characters up
/// to U+00FF can appear, and on that range this is exactly the Unicode
/// Alphabetic property: the ASCII letters and the Latin-1 letters (the
/// ordinal indicators, the micro sign, and the accented letters, with the
/// multiplication and division signs excluded).
pub open spec fn is_alpha_char(c: char) -> bool {
    ||| ('a' <= c && c <= 'z')
    ||| ('A' <= c && c <= 'Z')
    ||| c == '\u{aa}'
    ||| c == '\u{b5}'
    ||| c == '\u{ba}'
    ||| ('\u{c0}' <= c && c <= '\u{d6}')
    ||| ('\u{d8}' <= c && c <= '\u{f6}')
    ||| ('\u{f8}' <= c && c <= '\u{ff}')
}

/// Numeric. On the characters up to U+00FF this is exactly the Unicode
/// Numeric property: the ASCII digits, the superscript digits, and the
/// vulgar fractions.
pub open spec fn is_digit_char(c: char) -> bool {
    ||| ('0' <= c && c <= '9')
    ||| c == '\u{b2}'
    ||| c == '\u{b3}'
    ||| c == '\u{b9}'
    ||| ('\u{bc}' <= c && c <= '\u{be}')
}

/// An ASCII decimal digit: the only digits strict numeric parsing accepts.
pub open spec fn is_ascii_digit_char(c: char) -> bool {
    '0' <= c && c <= '9'
}

/// Letters and digits continue an identifier.
pub open spec fn is_alnum_char(c: char) -> bool {
    is_alpha_char(c) || is_digit_char(c)
}

/// Digits and the dot make up the body of a numeric literal.
pub open spec fn is_numlike_char(c: char) -> bool {
    is_digit_char(c) || c == '.'
}

/// Executable mirror of `is_alpha_char`.
pub fn alpha_char(c: char) -> (r: bool)
    ensures
        r == is_alpha_char(c),
{
    ('a' <= c && c <= 'z') || ('A' <= c && c <= 'Z') || c == '\u{aa}' || c == '\u{b5}' || c
        == '\u{ba}' || ('\u{c0}' <= c && c <= '\u{d6}') || ('\u{d8}' <= c && c <= '\u{f6}') || (
    '\u{f8}' <= c && c <= '\u{ff}')
}

/// Executable mirror of `is_digit_char`.
pub fn digit_char(c: char) -> (r: bool)
    ensures
        r == is_digit_char(c),
{
    ('0' <= c && c <= '9') || c == '\u{b2}' || c == '\u{b3}' || c == '\u{b9}' || ('\u{bc}' <= c
        && c <= '\u{be}')
}

/// Executable mirror of `is_ascii_digit_char`.
pub fn ascii_digit_char(c: char) -> (r: bool)
    ensures
        r == is_ascii_digit_char(c),
{
    '0' <= c && c <= '9'
}

/// Executable mirror of `is_alnum_char`.
pub fn alnum_char(c: char) -> (r: bool)
    ensures
        r == is_alnum_char(c),
{
    alpha_char(c) || digit_char(c)
}

/// Executable mirror of `is_numlike_char`.
pub fn numlike_char(c: char) -> (r: bool)
    ensures
        r == is_numlike_char(c),
{
    digit_char(c) || c == '.'
}

/// Index of the first non-space character at or after `i`, or the length of
/// the input when only spaces remain.
pub open spec fn skip_spaces(s: Seq<char>, i: int) -> int
    decreases s.len() - i,
{
    if i >= s.len() {
        s.len() as int
    } else if is_space_char(s[i]) {
        skip_spaces(s, i + 1)
    } else {
        i
    }
}

/// End of the run of characters satisfying `p` that starts at `i`: the first
/// index at or after `i` whose character fails `p`, or the length of the
/// input when the run reaches the end.
pub open spec fn run_end(s: Seq<char>, i: int, p: spec_fn(char) -> bool) -> int
    decreases s.len() - i,
{
    if i >= s.len() {
        s.len() as int
    } else if p(s[i]) {
        run_end(s, i + 1, p)
    } else {
        i
    }
}

/// Predicate for the characters that continue an identifier run.
pub open spec fn alnum_pred() -> spec_fn(char) -> bool {
    |c: char| is_alnum_char(c)
}

/// Predicate for the characters that continue a numeric run.
pub open spec fn numlike_pred() -> spec_fn(char) -> bool {
    |c: char| is_numlike_char(c)
}

/// Predicate for the characters a comment consumes before its newline.
pub open spec fn line_pred() -> spec_fn(char) -> bool {
    |c: char| c != '\n'
}

/// Classification of a completed identifier buffer: the two keywords, or an
/// identifier carrying the exact text.
pub open spec fn classify_word(w: Seq<char>) -> crate::token::TokenView {
    if w == "def"@ {
        crate::token::TokenView::Def
    } else if w == "extern"@ {
        crate::token::TokenView::Extern
    } else {
        crate::token::TokenView::Identifier(w)
    }
}

/// Token produced by a scan whose cursor stands at `j`, with no spaces left
/// to skip at `j`.
pub open spec fn scan_token(s: Seq<char>, j: int) -> crate::token::TokenView {
    if j >= s.len() {
        crate::token::TokenView::Eof
    } else if is_alpha_char(s[j]) {
        classify_word(s.subrange(j, run_end(s, j, alnum_pred())))
    } else if is_numlike_char(s[j]) {
        crate::token::TokenView::Number(s.subrange(j, run_end(s, j, numlike_pred())))
    } else if s[j] == '#' {
        crate::token::TokenView::Comment
    } else {
        crate::token::TokenView::Char(s[j])
    }
}

/// Cursor position after the scan that starts (spaces already skipped) at
/// `j`: one past the consumed text. A comment consumes through the end of
/// the line, newline included.
pub open spec fn scan_cursor(s: Seq<char>, j: int) -> int {
    if j >= s.len() {
        s.len() as int
    } else if is_alpha_char(s[j]) {
        run_end(s, j, alnum_pred())
    } else if is_numlike_char(s[j]) {
        run_end(s, j, numlike_pred())
    } else if s[j] == '#' {
        let e = run_end(s, j, line_pred());
        if e < s.len() {
            e + 1
        } else {
            e
        }
    } else {
        j + 1
    }
}

/// The token that a scan starting at cursor position `i` produces: skip
/// spaces, then scan.
pub open spec fn token_at(s: Seq<char>, i: int) -> crate::token::TokenView {
    scan_token(s, skip_spaces(s, i))
}

/// The cursor position after the scan starting at `i`.
pub open spec fn cursor_after(s: Seq<char>, i: int) -> int {
    scan_cursor(s, skip_spaces(s, i))
}

/// The run that starts at `i` stays inside the input, satisfies `p`
/// throughout, and is maximal.
pub proof fn lemma_run_end_bounds(s: Seq<char>, i: int, p: spec_fn(char) -> bool)
    requires
        0 <= i <= s.len(),
    ensures
        i <= run_end(s, i, p) <= s.len(),
        forall|k: int| i <= k < run_end(s, i, p) ==> #[trigger] p(s[k]),
        run_end(s, i, p) < s.len() ==> !p(s[run_end(s, i, p)]),
    decreases s.len() - i,
{
    if i < s.len() && p(s[i]) {
        lemma_run_end_bounds(s, i + 1, p);
    }
}

/// A stretch `[i, e)` that satisfies `p` throughout and cannot be extended
/// is exactly the run that starts at `i`.
pub proof fn lemma_run_end_is(s: Seq<char>, i: int, p: spec_fn(char) -> bool, e: int)
    requires
        0 <= i <= e <= s.len(),
        forall|k: int| i <= k < e ==> #[trigger] p(s[k]),
        e == s.len() || !p(s[e]),
    ensures
        run_end(s, i, p) == e,
    decreases e - i,
{
    if i < e {
        lemma_run_end_is(s, i + 1, p, e);
    }
}

/// Extending a consumed stretch by the character that stands at its end.
pub proof fn lemma_subrange_push(s: Seq<char>, j: int, cur: int, w: Seq<char>, d: char)
    requires
        0 <= j <= cur < s.len(),
        w == s.subrange(j, cur).push(d),
        s[cur] == d,
    ensures
        w == s.subrange(j, cur + 1),
{
    assert(w =~= s.subrange(j, cur + 1));
}

/// Skipping spaces stays inside the input, passes only spaces, and stops at
/// the first non-space character.
pub proof fn lemma_skip_spaces_bounds(s: Seq<char>, i: int)
    requires
        0 <= i <= s.len(),
    ensures
        i <= skip_spaces(s, i) <= s.len(),
        forall|k: int| i <= k < skip_spaces(s, i) ==> #[trigger] is_space_char(s[k]),
        skip_spaces(s, i) < s.len() ==> !is_space_char(s[skip_spaces(s, i)]),
    decreases s.len() - i,
{
    if i < s.len() && is_space_char(s[i]) {
        lemma_skip_spaces_bounds(s, i + 1);
    }
}

/// A position holding a non-space character, or the end of the input, has no
/// spaces to skip.
pub proof fn lemma_skip_spaces_fixed(s: Seq<char>, i: int)
    requires
        0 <= i <= s.len(),
        i == s.len() || !is_space_char(s[i]),
    ensures
        skip_spaces(s, i) == i,
{
}

/// A scan stays inside the input and, except at the very end, consumes at
/// least one character; an end-of-input token leaves the cursor at the end.
pub proof fn lemma_cursor_after_bounds(s: Seq<char>, i: int)
    requires
        0 <= i <= s.len(),
    ensures
        i <= cursor_after(s, i) <= s.len(),
        i < s.len() ==> i < cursor_after(s, i),
        token_at(s, i) is Eof ==> cursor_after(s, i) == s.len(),
{
    let j = skip_spaces(s, i);
    lemma_skip_spaces_bounds(s, i);
    if j < s.len() {
        if is_alpha_char(s[j]) {
            assert(alnum_pred()(s[j]));
            assert(run_end(s, j, alnum_pred()) == run_end(s, j + 1, alnum_pred()));
            lemma_run_end_bounds(s, j + 1, alnum_pred());
        } else if is_numlike_char(s[j]) {
            assert(numlike_pred()(s[j]));
            assert(run_end(s, j, numlike_pred()) == run_end(s, j + 1, numlike_pred()));
            lemma_run_end_bounds(s, j + 1, numlike_pred());
        } else if s[j] == '#' {
            assert(line_pred()(s[j]));
            assert(run_end(s, j, line_pred()) == run_end(s, j + 1, line_pred()));
            lemma_run_end_bounds(s, j + 1, line_pred());
        }
    }
}

/// How many dots the text holds.
pub open spec fn dots_in(w: Seq<char>) -> int
    decreases w.len(),
{
    if w.len() == 0 {
        0
    } else {
        dots_in(w.drop_last()) + if w.last() == '.' {
            1int
        } else {
            0int
        }
    }
}

/// Whether the raw text of a Number token carries a value: the scan is
/// permissive (any mix of digit-class characters and dots), strict parsing
/// accepts exactly the texts of ASCII digits and dots with at most one dot
/// and at least one digit.
pub open spec fn is_valid_number_text(w: Seq<char>) -> bool {
    &&& forall|k: int|
        0 <= k < w.len() ==> (#[trigger] is_ascii_digit_char(w[k]) || w[k] == '.')
    &&& dots_in(w) <= 1
    &&& exists|k: int| 0 <= k < w.len() && #[trigger] is_ascii_digit_char(w[k])
}

/// Decides `is_valid_number_text` for the scanned text of a Number token.
pub fn number_text_valid(text: &str) -> (r: bool)
    ensures
        r == is_valid_number_text(text@),
{
    let n = text.unicode_len();
    let mut i: usize = 0;
    let mut dots: usize = 0;
    let mut saw_digit: bool = false;
    let mut plain: bool = true;
    while i < n
        invariant
            0 <= i <= n,
            n == text@.len(),
            dots <= i,
            dots == dots_in(text@.subrange(0, i as int)),
            saw_digit == exists|k: int| 0 <= k < i && #[trigger] is_ascii_digit_char(text@[k]),
            plain == forall|k: int|
                0 <= k < i ==> (#[trigger] is_ascii_digit_char(text@[k]) || text@[k] == '.'),
        decreases n - i,
    {
        let c = text.get_char(i);
        proof {
            let w = text@.subrange(0, i + 1);
            assert(w.drop_last() =~= text@.subrange(0, i as int));
            assert(w.last() == text@[i as int]);
        }
        if c == '.' {
            dots = dots + 1;
        } else if ascii_digit_char(c) {
            saw_digit = true;
        } else {
            plain = false;
        }
        i = i + 1;
    }
    proof {
        assert(text@.subrange(0, n as int) =~= text@);
    }
    plain && dots <= 1 && saw_digit
}

} // verus!
