//! Tokens and the character-cursor state of the lexer.

use vstd::prelude::*;
use vstd::string::StringExecFns;

verus! {

/// Relies on String::push: appends the given character to the end of the
/// string.
#[verifier::external_body]
pub(crate) fn push_char(s: &mut String, c: char)
    ensures
        final(s)@ == old(s)@.push(c),
{
    s.push(c);
}

/// Classified unit of source text. Identifier and Number carry their payload
/// directly: the identifier text, and the raw scanned text of the numeric
/// literal (which may still fail strict numeric parsing, e.g. `"1.2.3"`).
#[derive(Debug)]
pub enum Token {
    Eof,
    Def,
    Extern,
    Identifier(String),
    Number(String),
    Char(char),
    Comment,
}

/// Specification-level model of a token: payload text as a sequence of
/// characters.
pub enum TokenView {
    Eof,
    Def,
    Extern,
    Identifier(Seq<char>),
    Number(Seq<char>),
    Char(char),
    Comment,
}

impl View for Token {
    type V = TokenView;

    open spec fn view(&self) -> TokenView {
        match self {
            Token::Eof => TokenView::Eof,
            Token::Def => TokenView::Def,
            Token::Extern => TokenView::Extern,
            Token::Identifier(s) => TokenView::Identifier(s@),
            Token::Number(s) => TokenView::Number(s@),
            Token::Char(c) => TokenView::Char(*c),
            Token::Comment => TokenView::Comment,
        }
    }
}

impl Token {
    /// The token's rendering in error messages: the variant's name, a Char
    /// token showing its character.
    pub open spec fn spec_describe(&self) -> Seq<char> {
        match self {
            Token::Eof => "Eof"@,
            Token::Def => "Def"@,
            Token::Extern => "Extern"@,
            Token::Identifier(_) => "Identifier"@,
            Token::Number(_) => "Number"@,
            Token::Char(c) => "Char('"@ + seq![*c] + "')"@,
            Token::Comment => "Comment"@,
        }
    }

    /// Renders the token as `spec_describe` says.
    pub fn describe(&self) -> (r: String)
        ensures
            r@ == self.spec_describe(),
    {
        match self {
            Token::Eof => "Eof".to_owned(),
            Token::Def => "Def".to_owned(),
            Token::Extern => "Extern".to_owned(),
            Token::Identifier(_) => "Identifier".to_owned(),
            Token::Number(_) => "Number".to_owned(),
            Token::Char(c) => {
                let mut s: String = "Char('".to_owned();
                push_char(&mut s, *c);
                proof {
                    assert(s@ =~= "Char('"@ + seq![*c]);
                }
                s.append("')");
                proof {
                    assert(s@ =~= "Char('"@ + seq![*c] + "')"@);
                }
                s
            },
            Token::Comment => "Comment".to_owned(),
        }
    }

    /// A copy of the token, payload included.
    pub fn dup(&self) -> (t: Token)
        ensures
            t@ == self@,
    {
        match self {
            Token::Eof => Token::Eof,
            Token::Def => Token::Def,
            Token::Extern => Token::Extern,
            Token::Identifier(s) => Token::Identifier(s.clone()),
            Token::Number(s) => Token::Number(s.clone()),
            Token::Char(c) => Token::Char(*c),
            Token::Comment => Token::Comment,
        }
    }
}

/// Tri-state character cursor of the lexer: nothing read yet, the last
/// character read, or the source exhausted.
#[derive(Clone, Copy, Debug, PartialEq, Eq, Structural)]
pub enum CharState {
    Uninitialized,
    Char(char),
    Eof,
}

impl CharState {
    /// Whether the cursor holds an alphabetic character.
    pub fn is_alphabetic(&self) -> (r: bool)
        ensures
            r == (self matches CharState::Char(c) && crate::scan::is_alpha_char(*c)),
    {
        match self {
            CharState::Char(c) => crate::scan::alpha_char(*c),
            _ => false,
        }
    }
}

} // verus!
