//! The laws the scanner obeys, stated and proved once and for all inputs;
//! each holds of `Lexer::get_token` through its contract over `token_at`
//! and `cursor_after`.

use vstd::prelude::*;

use crate::scan::{
    alnum_pred, cursor_after, is_alnum_char, is_alpha_char, is_numlike_char, is_space_char,
    lemma_cursor_after_bounds, lemma_run_end_is, lemma_skip_spaces_bounds,
    lemma_skip_spaces_fixed, numlike_pred, skip_spaces, token_at,
};
use crate::token::TokenView;

verus! {

/// The whole sequence of tokens a scan starting at `i` produces, in order,
/// the final end-of-input token not included: the manual enumeration of the
/// input's tokens.
pub open spec fn token_seq(s: Seq<char>, i: int) -> Seq<TokenView>
    decreases s.len() - i
        when 0 <= i <= s.len()
        via token_seq_decreases
{
    if token_at(s, i) is Eof {
        Seq::empty()
    } else {
        seq![token_at(s, i)] + token_seq(s, cursor_after(s, i))
    }
}

#[via_fn]
proof fn token_seq_decreases(s: Seq<char>, i: int) {
    if !(token_at(s, i) is Eof) {
        lemma_skip_spaces_fixed(s, s.len() as int);
        lemma_cursor_after_bounds(s, i);
    }
}

/// Law: one scan takes exactly the head of the token stream, and the next
/// scan resumes at the position whose stream is the rest; so repeated
/// scanning reproduces, in order, exactly the enumerated tokens, none
/// dropped and none duplicated, and ends with end-of-input exactly when the
/// stream is exhausted.
pub proof fn lemma_scan_enumerates(s: Seq<char>, i: int)
    requires
        0 <= i <= s.len(),
    ensures
        token_seq(s, i).len() == 0 <==> token_at(s, i) is Eof,
        token_seq(s, i).len() > 0 ==> token_seq(s, i)[0] == token_at(s, i),
        token_seq(s, i).len() > 0 ==> token_seq(s, cursor_after(s, i)) == token_seq(
            s,
            i,
        ).drop_first(),
{
    if !(token_at(s, i) is Eof) {
        lemma_cursor_after_bounds(s, i);
        assert(token_seq(s, i).drop_first() =~= token_seq(s, cursor_after(s, i)));
    }
}

/// Law: an input consisting only of space characters (the empty input
/// included) scans to the end-of-input token at once, leaving the cursor at
/// the end, so every later scan returns end-of-input as well.
pub proof fn lemma_all_spaces_eof(s: Seq<char>, i: int)
    requires
        0 <= i <= s.len(),
        forall|k: int| 0 <= k < s.len() ==> s[k] == ' ',
    ensures
        token_at(s, i) is Eof,
        cursor_after(s, i) == s.len(),
        token_seq(s, i) == Seq::<TokenView>::empty(),
{
    lemma_skip_spaces_bounds(s, i);
    let j = skip_spaces(s, i);
    if j < s.len() {
        assert(is_space_char(s[j]));
    }
}

/// Law: at the end of the input, scanning is idempotent: it returns the
/// end-of-input token and does not move the cursor.
pub proof fn lemma_eof_idempotent(s: Seq<char>)
    ensures
        token_at(s, s.len() as int) is Eof,
        cursor_after(s, s.len() as int) == s.len(),
{
    lemma_skip_spaces_fixed(s, s.len() as int);
}

/// Law: a maximal alphanumeric run `[i, e)` that starts with a letter scans
/// as exactly one token carrying exactly that run: `def` gives the Def
/// keyword, `extern` the Extern keyword, and any other run an Identifier
/// holding that very text; the scan stops exactly at the end of the run.
pub proof fn lemma_word_token(s: Seq<char>, i: int, e: int)
    requires
        0 <= i < s.len(),
        is_alpha_char(s[i]),
        i < e <= s.len(),
        forall|k: int| i <= k < e ==> #[trigger] is_alnum_char(s[k]),
        e == s.len() || !is_alnum_char(s[e]),
    ensures
        cursor_after(s, i) == e,
        s.subrange(i, e) == "def"@ ==> token_at(s, i) is Def,
        s.subrange(i, e) == "extern"@ ==> token_at(s, i) is Extern,
        s.subrange(i, e) != "def"@ && s.subrange(i, e) != "extern"@ ==> token_at(s, i)
            == TokenView::Identifier(s.subrange(i, e)),
{
    broadcast use vstd::string::group_string_axioms;

    reveal_strlit("def");
    reveal_strlit("extern");
    assert("def"@.len() == 3);
    assert("extern"@.len() == 6);
    lemma_skip_spaces_fixed(s, i);
    lemma_run_end_is(s, i, alnum_pred(), e);
}

/// Law: a maximal digits-and-dots run `[i, e)` scans as exactly one Number
/// token whose payload is exactly that text, and the scan stops exactly at
/// the end of the run.
pub proof fn lemma_number_token(s: Seq<char>, i: int, e: int)
    requires
        0 <= i < s.len(),
        is_numlike_char(s[i]),
        i < e <= s.len(),
        forall|k: int| i <= k < e ==> #[trigger] is_numlike_char(s[k]),
        e == s.len() || !is_numlike_char(s[e]),
    ensures
        token_at(s, i) == TokenView::Number(s.subrange(i, e)),
        cursor_after(s, i) == e,
{
    lemma_skip_spaces_fixed(s, i);
    lemma_run_end_is(s, i, numlike_pred(), e);
    assert(!is_alpha_char(s[i]));
}

/// Law: a leading space changes nothing: the token scanned after it, its
/// payload, and the position the scan ends at are those of the input with
/// the space already consumed.
pub proof fn lemma_space_skipped(s: Seq<char>, i: int)
    requires
        0 <= i < s.len(),
        s[i] == ' ',
    ensures
        token_at(s, i) == token_at(s, i + 1),
        cursor_after(s, i) == cursor_after(s, i + 1),
{
    assert(skip_spaces(s, i) == skip_spaces(s, i + 1));
}

} // verus!
