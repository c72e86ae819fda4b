//! The lexer: a byte source read strictly forward, one character of
//! lookahead, and the scanning state machine that turns characters into
//! tokens.

use vstd::prelude::*;

use crate::scan::{
    alnum_char, alnum_pred, alpha_char, cursor_after, is_alnum_char, is_numlike_char,
    is_space_char, lemma_run_end_is, lemma_skip_spaces_fixed, lemma_subrange_push, line_pred,
    numlike_char, numlike_pred, scan_cursor, scan_token, skip_spaces, token_at,
};
use crate::token::{push_char, CharState, Token};

verus! {

/// Tokenizer over an in-memory byte source. Each byte is widened to one
/// character. The source is read strictly forward; `last_char` is the one
/// character of lookahead, and `cur_tok` the most recently produced token.
#[derive(Debug)]
pub struct Lexer {
    pub source: Vec<u8>,
    pub pos: usize,
    pub last_char: CharState,
    pub cur_tok: Option<Token>,
}

impl Lexer {
    /// The input as a sequence of characters, one per byte.
    pub open spec fn stream(self) -> Seq<char> {
        Seq::new(self.source@.len(), |i: int| self.source@[i] as char)
    }

    /// Index of the character the scan stands on: everything before it is
    /// consumed. `Uninitialized` stands before the first character, `Eof`
    /// past the last.
    pub open spec fn cursor(self) -> int {
        match self.last_char {
            CharState::Uninitialized => 0,
            CharState::Char(_) => self.pos - 1,
            CharState::Eof => self.stream().len() as int,
        }
    }

    /// The position and the lookahead agree with the source: the lookahead
    /// is the last character read, and `Eof` is reached only at the end.
    pub open spec fn wf(self) -> bool {
        &&& self.pos <= self.source@.len()
        &&& match self.last_char {
            CharState::Uninitialized => self.pos == 0,
            CharState::Char(c) => self.pos >= 1 && c == self.stream()[self.pos - 1],
            CharState::Eof => self.pos == self.source@.len(),
        }
    }

    /// A lexer that has not yet read a character: its cursor still stands
    /// before the first character of the source.
    pub open spec fn fresh(self) -> bool {
        self.last_char is Uninitialized
    }

    /// Decreases with every successful read; grounds termination of the
    /// scanning loops.
    pub open spec fn scan_measure(self) -> int {
        self.stream().len() - self.pos + match self.last_char {
            CharState::Uninitialized => 2int,
            CharState::Char(_) => 1int,
            CharState::Eof => 0int,
        }
    }

    /// A fresh lexer over the given byte source.
    pub fn new(source: Vec<u8>) -> (l: Lexer)
        ensures
            l.wf(),
            l.fresh(),
            l.source@ == source@,
            l.cur_tok is None,
    {
        Lexer { source, pos: 0, last_char: CharState::Uninitialized, cur_tok: None }
    }

    /// Reads exactly one character: the next byte of the source, or `Eof`
    /// once the source is exhausted.
    pub fn get_char(&mut self)
        requires
            old(self).wf(),
        ensures
            final(self).wf(),
            final(self).source@ == old(self).source@,
            final(self).cur_tok == old(self).cur_tok,
            old(self).pos < old(self).source@.len() ==> final(self).pos == old(self).pos + 1
                && final(self).last_char == CharState::Char(
                old(self).stream()[old(self).pos as int],
            ),
            old(self).pos == old(self).source@.len() ==> final(self).pos == old(self).pos
                && final(self).last_char == CharState::Eof,
    {
        if self.pos < self.source.len() {
            let b = self.source[self.pos];
            self.last_char = CharState::Char(b as char);
            self.pos = self.pos + 1;
        } else {
            self.last_char = CharState::Eof;
        }
    }

    /// Scans one token: skips spaces, then classifies and consumes the text
    /// of the token that starts at the cursor, leaving the first unconsumed
    /// character as lookahead.
    pub fn get_token(&mut self) -> (t: Token)
        requires
            old(self).wf(),
        ensures
            final(self).wf(),
            final(self).source@ == old(self).source@,
            final(self).cur_tok == old(self).cur_tok,
            t@ == token_at(old(self).stream(), old(self).cursor()),
            final(self).cursor() == cursor_after(old(self).stream(), old(self).cursor()),
            !(final(self).last_char is Uninitialized),
    {
        let ghost s = self.stream();
        let ghost i0 = self.cursor();
        let ghost src0 = self.source@;
        let ghost ct0 = self.cur_tok;

        // Skip spaces; an unread cursor needs priming exactly once.
        loop
            invariant
                self.wf(),
                self.stream() == s,
                self.source@ == src0,
                self.cur_tok == ct0,
                0 <= self.cursor() <= s.len(),
                skip_spaces(s, self.cursor()) == skip_spaces(s, i0),
            ensures
                self.wf(),
                self.stream() == s,
                self.source@ == src0,
                self.cur_tok == ct0,
                !(self.last_char is Uninitialized),
                self.last_char matches CharState::Char(c) ==> !is_space_char(c),
                skip_spaces(s, self.cursor()) == skip_spaces(s, i0),
            decreases self.scan_measure(),
        {
            match self.last_char {
                CharState::Uninitialized => {},
                CharState::Char(c) => {
                    if c != ' ' {
                        break;
                    }
                },
                CharState::Eof => {
                    break;
                },
            }
            proof {
                match self.last_char {
                    CharState::Char(c) => {
                        assert(s[self.cursor()] == c);
                        assert(skip_spaces(s, self.cursor()) == skip_spaces(
                            s,
                            self.cursor() + 1,
                        ));
                    },
                    _ => {},
                }
            }
            self.get_char();
        }

        let ghost j = self.cursor();
        proof {
            lemma_skip_spaces_fixed(s, j);
            assert(j == skip_spaces(s, i0));
        }

        match self.last_char {
            CharState::Eof => {
                assert(token_at(s, i0) == scan_token(s, j));
                Token::Eof
            },
            CharState::Char(c) => {
                proof {
                    assert(s[j] == c);
                }
                if alpha_char(c) {
                    // Identifier or keyword: accumulate the alphanumeric run.
                    let mut word = String::new();
                    push_char(&mut word, c);
                    self.get_char();
                    proof {
                        assert(word@ =~= s.subrange(j, j + 1));
                    }
                    self.scan_run_alnum(Ghost(s), Ghost(j), &mut word);
                    proof {
                        lemma_run_end_is(s, j, alnum_pred(), self.cursor());
                    }
                    let kw_def: String = "def".to_owned();
                    let kw_extern: String = "extern".to_owned();
                    if word == kw_def {
                        Token::Def
                    } else if word == kw_extern {
                        Token::Extern
                    } else {
                        Token::Identifier(word)
                    }
                } else if numlike_char(c) {
                    // Numeric literal: accumulate digits and dots; the text
                    // is kept raw, strict parsing is the consumer's concern.
                    let mut text = String::new();
                    push_char(&mut text, c);
                    self.get_char();
                    proof {
                        assert(text@ =~= s.subrange(j, j + 1));
                    }
                    self.scan_run_numlike(Ghost(s), Ghost(j), &mut text);
                    proof {
                        lemma_run_end_is(s, j, numlike_pred(), self.cursor());
                    }
                    Token::Number(text)
                } else if c == '#' {
                    // Comment: consume through the end of the line.
                    self.skip_comment(Ghost(s), Ghost(j));
                    Token::Comment
                } else {
                    self.get_char();
                    Token::Char(c)
                }
            },
            CharState::Uninitialized => unreached(),
        }
    }

    /// Consumes the rest of an alphanumeric run into `word`, leaving the
    /// first character past the run as lookahead.
    fn scan_run_alnum(
        &mut self,
        Ghost(s): Ghost<Seq<char>>,
        Ghost(j): Ghost<int>,
        word: &mut String,
    )
        requires
            old(self).wf(),
            old(self).stream() == s,
            0 <= j < s.len(),
            old(self).cursor() == j + 1,
            old(word)@ == s.subrange(j, j + 1),
            is_alnum_char(s[j]),
            !(old(self).last_char is Uninitialized),
        ensures
            final(self).wf(),
            final(self).stream() == s,
            final(self).source@ == old(self).source@,
            final(self).cur_tok == old(self).cur_tok,
            !(final(self).last_char is Uninitialized),
            j < final(self).cursor() <= s.len(),
            forall|k: int| j <= k < final(self).cursor() ==> #[trigger] is_alnum_char(s[k]),
            final(self).cursor() == s.len() || !is_alnum_char(s[final(self).cursor()]),
            final(word)@ == s.subrange(j, final(self).cursor()),
    {
        let ghost src0 = self.source@;
        let ghost ct0 = self.cur_tok;
        loop
            invariant
                self.wf(),
                self.stream() == s,
                self.source@ == src0,
                self.cur_tok == ct0,
                !(self.last_char is Uninitialized),
                0 <= j < s.len(),
                j < self.cursor() <= s.len(),
                forall|k: int| j <= k < self.cursor() ==> #[trigger] is_alnum_char(s[k]),
                word@ == s.subrange(j, self.cursor()),
            ensures
                self.wf(),
                self.stream() == s,
                self.source@ == src0,
                self.cur_tok == ct0,
                !(self.last_char is Uninitialized),
                j < self.cursor() <= s.len(),
                forall|k: int| j <= k < self.cursor() ==> #[trigger] is_alnum_char(s[k]),
                self.cursor() == s.len() || !is_alnum_char(s[self.cursor()]),
                word@ == s.subrange(j, self.cursor()),
            decreases self.scan_measure(),
        {
            match self.last_char {
                CharState::Char(d) => {
                    if alnum_char(d) {
                        let ghost cur = self.cursor();
                        proof {
                            assert(s[cur] == d);
                        }
                        push_char(word, d);
                        proof {
                            lemma_subrange_push(s, j, cur, word@, d);
                        }
                        self.get_char();
                    } else {
                        proof {
                            assert(s[self.cursor()] == d);
                        }
                        break;
                    }
                },
                CharState::Eof => {
                    break;
                },
                CharState::Uninitialized => {
                    break;
                },
            }
        }
    }

    /// Consumes the rest of a digits-and-dots run into `text`, leaving the
    /// first character past the run as lookahead.
    fn scan_run_numlike(
        &mut self,
        Ghost(s): Ghost<Seq<char>>,
        Ghost(j): Ghost<int>,
        text: &mut String,
    )
        requires
            old(self).wf(),
            old(self).stream() == s,
            0 <= j < s.len(),
            old(self).cursor() == j + 1,
            old(text)@ == s.subrange(j, j + 1),
            is_numlike_char(s[j]),
            !(old(self).last_char is Uninitialized),
        ensures
            final(self).wf(),
            final(self).stream() == s,
            final(self).source@ == old(self).source@,
            final(self).cur_tok == old(self).cur_tok,
            !(final(self).last_char is Uninitialized),
            j < final(self).cursor() <= s.len(),
            forall|k: int| j <= k < final(self).cursor() ==> #[trigger] is_numlike_char(s[k]),
            final(self).cursor() == s.len() || !is_numlike_char(s[final(self).cursor()]),
            final(text)@ == s.subrange(j, final(self).cursor()),
    {
        let ghost src0 = self.source@;
        let ghost ct0 = self.cur_tok;
        loop
            invariant
                self.wf(),
                self.stream() == s,
                self.source@ == src0,
                self.cur_tok == ct0,
                !(self.last_char is Uninitialized),
                0 <= j < s.len(),
                j < self.cursor() <= s.len(),
                forall|k: int| j <= k < self.cursor() ==> #[trigger] is_numlike_char(s[k]),
                text@ == s.subrange(j, self.cursor()),
            ensures
                self.wf(),
                self.stream() == s,
                self.source@ == src0,
                self.cur_tok == ct0,
                !(self.last_char is Uninitialized),
                j < self.cursor() <= s.len(),
                forall|k: int| j <= k < self.cursor() ==> #[trigger] is_numlike_char(s[k]),
                self.cursor() == s.len() || !is_numlike_char(s[self.cursor()]),
                text@ == s.subrange(j, self.cursor()),
            decreases self.scan_measure(),
        {
            match self.last_char {
                CharState::Char(d) => {
                    if numlike_char(d) {
                        let ghost cur = self.cursor();
                        proof {
                            assert(s[cur] == d);
                        }
                        push_char(text, d);
                        proof {
                            lemma_subrange_push(s, j, cur, text@, d);
                        }
                        self.get_char();
                    } else {
                        proof {
                            assert(s[self.cursor()] == d);
                        }
                        break;
                    }
                },
                CharState::Eof => {
                    break;
                },
                CharState::Uninitialized => {
                    break;
                },
            }
        }
    }

    /// Consumes a `#` comment through the end of its line, newline included.
    fn skip_comment(&mut self, Ghost(s): Ghost<Seq<char>>, Ghost(j): Ghost<int>)
        requires
            old(self).wf(),
            old(self).stream() == s,
            0 <= j < s.len(),
            old(self).cursor() == j,
            s[j] == '#',
            !(old(self).last_char is Uninitialized),
        ensures
            final(self).wf(),
            final(self).stream() == s,
            final(self).source@ == old(self).source@,
            final(self).cur_tok == old(self).cur_tok,
            !(final(self).last_char is Uninitialized),
            final(self).cursor() == scan_cursor(s, j),
    {
        let ghost src0 = self.source@;
        let ghost ct0 = self.cur_tok;
        loop
            invariant
                self.wf(),
                self.stream() == s,
                self.source@ == src0,
                self.cur_tok == ct0,
                !(self.last_char is Uninitialized),
                0 <= j < s.len(),
                j <= self.cursor() <= s.len(),
                forall|k: int| j <= k < self.cursor() ==> #[trigger] (s[k]) != '\n',
            ensures
                self.wf(),
                self.stream() == s,
                self.source@ == src0,
                self.cur_tok == ct0,
                !(self.last_char is Uninitialized),
                j <= self.cursor() <= s.len(),
                forall|k: int| j <= k < self.cursor() ==> #[trigger] (s[k]) != '\n',
                self.cursor() == s.len() || s[self.cursor()] == '\n',
            decreases self.scan_measure(),
        {
            match self.last_char {
                CharState::Char(d) => {
                    if d != '\n' {
                        proof {
                            assert(s[self.cursor()] == d);
                        }
                        self.get_char();
                    } else {
                        proof {
                            assert(s[self.cursor()] == d);
                        }
                        break;
                    }
                },
                CharState::Eof => {
                    break;
                },
                CharState::Uninitialized => {
                    break;
                },
            }
        }
        proof {
            lemma_run_end_is(s, j, line_pred(), self.cursor());
        }
        let ghost e = self.cursor();
        match self.last_char {
            CharState::Char(_) => {
                // The lookahead is the newline itself: consume it too.
                self.get_char();
                proof {
                    assert(e < s.len());
                    assert(self.cursor() == e + 1);
                }
            },
            _ => {},
        }
    }

    /// Scans one token and records it as the current token.
    pub fn update_token(&mut self) -> (t: Token)
        requires
            old(self).wf(),
        ensures
            final(self).wf(),
            final(self).source@ == old(self).source@,
            t@ == token_at(old(self).stream(), old(self).cursor()),
            final(self).cursor() == cursor_after(old(self).stream(), old(self).cursor()),
            final(self).cur_tok matches Some(ct) && ct@ == t@,
            !(final(self).last_char is Uninitialized),
    {
        let t = self.get_token();
        self.cur_tok = Some(t.dup());
        t
    }
}

} // verus!
