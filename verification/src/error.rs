//! Parse errors as values: the parser never unwinds, it returns an error
//! node carrying one of these.

use vstd::prelude::*;
use vstd::string::StringExecFns;

use crate::token::Token;

verus! {

/// The failure taxonomy of the front end. `LexerError` stands for a token
/// whose payload is malformed after a syntactically accepted scan,
/// `SyntaxError` for a grammar violation, `UnexpectedToken` for a lookahead
/// that does not match the current rule, `GeneralError` for the rest.
#[derive(Debug)]
pub enum ParseError {
    LexerError(String),
    SyntaxError(String),
    UnexpectedToken(Token, &'static str),
    GeneralError(String),
}

impl ParseError {
    /// A readable description of the error.
    pub fn message(&self) -> (r: String)
        ensures
            match self {
                ParseError::LexerError(m) => r@ == "Lexer error:"@ + m@,
                ParseError::SyntaxError(m) => r@ == "Syntax error:"@ + m@,
                ParseError::UnexpectedToken(tok, expected) => r@ == "unexpected token:"@
                    + tok.spec_describe() + ", expected "@ + expected@,
                ParseError::GeneralError(m) => r@ == "error:"@ + m@,
            },
    {
        match self {
            ParseError::LexerError(m) => String::from_str("Lexer error:").concat(m.as_str()),
            ParseError::SyntaxError(m) => String::from_str("Syntax error:").concat(m.as_str()),
            ParseError::UnexpectedToken(tok, expected) => {
                let rendered = tok.describe();
                let r = String::from_str("unexpected token:").concat(rendered.as_str()).concat(
                    ", expected ",
                ).concat(expected);
                proof {
                    assert(r@ =~= "unexpected token:"@ + tok.spec_describe() + ", expected "@
                        + expected@);
                }
                r
            },
            ParseError::GeneralError(m) => String::from_str("error:").concat(m.as_str()),
        }
    }
}

/// A grammar violation, as the error side of a result.
pub fn syntax_error<T>(msg: &str) -> (r: Result<T, ParseError>)
    ensures
        r matches Err(e) && e matches ParseError::SyntaxError(m) && m@ == msg@,
{
    Err(ParseError::SyntaxError(msg.to_owned()))
}

/// A lookahead that does not match the current grammar rule, as the error
/// side of a result.
pub fn unexpected_token<T>(tok: Token, expected: &'static str) -> (r: Result<T, ParseError>)
    ensures
        r matches Err(e) && e matches ParseError::UnexpectedToken(t, x) && t@ == tok@ && x@
            == expected@,
{
    Err(ParseError::UnexpectedToken(tok, expected))
}

} // verus!
