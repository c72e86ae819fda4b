//! The parser: a token-driven builder of AST nodes over one token of
//! lookahead. Failures are returned as error nodes, never thrown.

use vstd::prelude::*;

use crate::ast::{
    BinaryExprAST, CallExprAST, EmptyExprAST, ErrorAST, ExprNode, FunctionAST, NumberExprAST,
    PrototypeAST, VariableExprAST,
};
use crate::error::ParseError;
use crate::lexer::Lexer;
use crate::scan::{
    cursor_after, is_valid_number_text, lemma_cursor_after_bounds, number_text_valid, token_at,
};
use crate::token::{Token, TokenView};

verus! {

/// Recursive-descent parser. It exclusively owns its lexer, whose current
/// token is the parser's one-token lookahead; `ast` is the most recently
/// built top-level node, the empty sentinel until parsing starts.
#[derive(Debug)]
pub struct ASTParser {
    pub lexer: Lexer,
    pub ast: ExprNode,
}

impl ASTParser {
    /// The lexer's bookkeeping is sound.
    pub open spec fn wf(self) -> bool {
        self.lexer.wf()
    }

    /// The input as a sequence of characters.
    pub open spec fn stream(self) -> Seq<char> {
        self.lexer.stream()
    }

    /// The current lookahead token, if one has been produced.
    pub open spec fn lookahead(self) -> Option<TokenView> {
        match self.lexer.cur_tok {
            Some(t) => Some(t@),
            None => None,
        }
    }

    /// Unconsumed input: characters past the cursor, plus the pending
    /// lookahead token. Strictly shrinks whenever a token is consumed, which
    /// grounds termination of the mutually recursive grammar rules.
    pub open spec fn parse_measure(self) -> int {
        self.stream().len() - self.lexer.cursor() + match self.lexer.cur_tok {
            Some(t) => if t@ is Eof {
                0int
            } else {
                1int
            },
            None => 1int,
        }
    }

    /// Attaches a parser to a fresh lexer. A lexer that has already read a
    /// character is rejected: its token alignment is unknown.
    pub fn new(lexer: Lexer) -> (r: Result<ASTParser, ParseError>)
        ensures
            lexer.fresh() ==> (r matches Ok(p) && p.lexer == lexer && p.ast matches ExprNode::Empty(
                _,
            )),
            !lexer.fresh() ==> (r matches Err(e) && e matches ParseError::GeneralError(_)),
    {
        match lexer.last_char {
            crate::token::CharState::Uninitialized => Ok(
                ASTParser { lexer, ast: ExprNode::Empty(EmptyExprAST) },
            ),
            _ => Err(ParseError::GeneralError("lexer has been used".to_owned())),
        }
    }

    /// Makes the next token current: the lookahead moves one token forward.
    pub fn advance(&mut self)
        requires
            old(self).wf(),
        ensures
            final(self).wf(),
            final(self).stream() == old(self).stream(),
            final(self).ast == old(self).ast,
            final(self).lookahead() == Some(
                token_at(old(self).stream(), old(self).lexer.cursor()),
            ),
            final(self).lexer.cursor() == cursor_after(
                old(self).stream(),
                old(self).lexer.cursor(),
            ),
            final(self).parse_measure() <= old(self).parse_measure(),
            !(old(self).lookahead() matches Some(t) && t is Eof) ==> final(self).parse_measure()
                < old(self).parse_measure(),
    {
        proof {
            lemma_cursor_after_bounds(self.stream(), self.lexer.cursor());
        }
        self.lexer.update_token();
    }

    /// Whether the lookahead is a Number token.
    fn lookahead_is_number(&self) -> (r: bool)
        ensures
            r == (self.lookahead() matches Some(t) && t is Number),
    {
        match &self.lexer.cur_tok {
            Some(Token::Number(_)) => true,
            _ => false,
        }
    }

    /// Whether the lookahead is an Identifier token.
    fn lookahead_is_identifier(&self) -> (r: bool)
        ensures
            r == (self.lookahead() matches Some(t) && t is Identifier),
    {
        match &self.lexer.cur_tok {
            Some(Token::Identifier(_)) => true,
            _ => false,
        }
    }

    /// Whether the lookahead is the single-character token `c`.
    fn lookahead_is_char(&self, c: char) -> (r: bool)
        ensures
            r == (self.lookahead() matches Some(TokenView::Char(d)) && d == c),
    {
        match &self.lexer.cur_tok {
            Some(Token::Char(d)) => *d == c,
            _ => false,
        }
    }

    /// A copy of the lookahead token, to be reported as the found token of
    /// an unexpected-token error.
    fn dup_lookahead(&self) -> (t: Token)
        requires
            self.lookahead() is Some,
        ensures
            self.lookahead() matches Some(v) && t@ == v,
    {
        match &self.lexer.cur_tok {
            Some(t) => t.dup(),
            None => unreached(),
        }
    }

    /// Builds the node for a numeric literal, the lookahead being a Number
    /// token. When the scanned text carries a value, the token is consumed
    /// and a number node holding the text is returned; when it does not
    /// (e.g. two dots), an error node wrapping a lexer error is returned and
    /// the malformed token stays current for the caller to report.
    pub fn parse_number_expr(&mut self) -> (r: ExprNode)
        requires
            old(self).wf(),
            old(self).lookahead() matches Some(t) && t is Number,
        ensures
            final(self).wf(),
            final(self).stream() == old(self).stream(),
            match old(self).lookahead() {
                Some(TokenView::Number(text)) => {
                    if crate::scan::is_valid_number_text(text) {
                        &&& r matches ExprNode::Number(n)
                        &&& n.val@ == text
                        &&& final(self).lookahead() == Some(
                            token_at(old(self).stream(), old(self).lexer.cursor()),
                        )
                        &&& final(self).lexer.cursor() == cursor_after(
                            old(self).stream(),
                            old(self).lexer.cursor(),
                        )
                        &&& final(self).ast == old(self).ast
                        &&& final(self).parse_measure() < old(self).parse_measure()
                    } else {
                        &&& r matches ExprNode::Error(e)
                        &&& e.error matches ParseError::LexerError(_)
                        &&& *final(self) == *old(self)
                    }
                },
                _ => false,
            },
    {
        let text = match &self.lexer.cur_tok {
            Some(Token::Number(t)) => t.clone(),
            _ => unreached(),
        };
        if number_text_valid(text.as_str()) {
            self.advance();
            ExprNode::Number(NumberExprAST::new(text))
        } else {
            ExprNode::Error(
                ErrorAST::new(
                    ParseError::LexerError(
                        "the number token's text holds no parsable value".to_owned(),
                    ),
                ),
            )
        }
    }

    /// Whether the lookahead is a binary operator that binds at least as
    /// tightly as `min_prec`.
    pub open spec fn spec_op_at_least(self, min_prec: u32) -> bool {
        match self.lookahead() {
            Some(TokenView::Char(c)) => match spec_op_precedence(c) {
                Some(p) => p >= min_prec,
                None => false,
            },
            _ => false,
        }
    }

    /// Executable mirror of `spec_op_at_least`.
    fn op_at_least(&self, min_prec: u32) -> (r: bool)
        ensures
            r == self.spec_op_at_least(min_prec),
    {
        match self.peek_prec() {
            Some(p) => p >= min_prec,
            None => false,
        }
    }

    /// Precedence of the lookahead, when it is a binary operator.
    fn peek_prec(&self) -> (r: Option<u32>)
        ensures
            r == (match self.lookahead() {
                Some(TokenView::Char(c)) => spec_op_precedence(c),
                _ => None::<u32>,
            }),
    {
        match &self.lexer.cur_tok {
            Some(Token::Char(c)) => op_precedence(*c),
            _ => None,
        }
    }

    /// Parses a primary expression, dispatching on the kind of the
    /// lookahead: a numeric literal, an identifier or call, or a
    /// parenthesized subexpression; any other token is reported as
    /// unexpected, with the state left unchanged.
    pub fn parse_primary(&mut self) -> (r: ExprNode)
        requires
            old(self).wf(),
            old(self).lookahead() is Some,
        ensures
            final(self).wf(),
            final(self).stream() == old(self).stream(),
            final(self).lookahead() is Some,
            final(self).parse_measure() <= old(self).parse_measure(),
            r.is_expr(),
            !(r is Error) ==> final(self).parse_measure() < old(self).parse_measure(),
            !(old(self).lookahead() matches Some(t) && (t is Number || t is Identifier
                || t == TokenView::Char('('))) ==> (r matches ExprNode::Error(e)
                && e.error matches ParseError::UnexpectedToken(found, _) && Some(found@) == old(
                self,
            ).lookahead() && *final(self) == *old(self)),
            old(self).lookahead() matches Some(TokenView::Number(text)) ==> (if
            is_valid_number_text(text) {
                r matches ExprNode::Number(n) && n.val@ == text && final(self).lookahead() == Some(
                    token_at(old(self).stream(), old(self).lexer.cursor()),
                ) && final(self).lexer.cursor() == cursor_after(
                    old(self).stream(),
                    old(self).lexer.cursor(),
                )
            } else {
                r is Error && *final(self) == *old(self)
            }),
            old(self).lookahead() matches Some(TokenView::Identifier(nm)) ==> (r matches
            ExprNode::Variable(v) ==> v.name@ == nm),
            old(self).lookahead() matches Some(TokenView::Identifier(nm)) ==> (r matches
            ExprNode::Call(c) ==> c.callee@ == nm),
            old(self).lookahead() matches Some(TokenView::Identifier(nm)) ==> ((token_at(
                old(self).stream(),
                old(self).lexer.cursor(),
            ) != TokenView::Char('(')) ==> (r matches ExprNode::Variable(v)
                && final(self).lookahead() == Some(
                token_at(old(self).stream(), old(self).lexer.cursor()),
            ) && final(self).lexer.cursor() == cursor_after(
                old(self).stream(),
                old(self).lexer.cursor(),
            ))),
            ({
                let s0 = old(self).stream();
                let c0 = old(self).lexer.cursor();
                let c_i = cursor_after(s0, c0);
                (old(self).lookahead() == Some(TokenView::Char('(')) && is_atom(
                    s0,
                    token_at(s0, c0),
                    c_i,
                )) ==> (match tail_end(s0, token_at(s0, c_i), cursor_after(s0, c_i), 0) {
                    Some((la2, c2)) => la2 == TokenView::Char(')') ==> ({
                        &&& !(r is Error)
                        &&& final(self).lookahead() == Some(token_at(s0, c2))
                        &&& final(self).lexer.cursor() == cursor_after(s0, c2)
                    }),
                    None => true,
                })
            }),
        decreases old(self).parse_measure(), 1int,
    {
        let ghost s0 = self.stream();
        let ghost c0 = self.lexer.cursor();
        if self.lookahead_is_number() {
            self.parse_number_expr()
        } else if self.lookahead_is_identifier() {
            self.parse_identifier_expr()
        } else if self.lookahead_is_char('(') {
            self.advance();
            proof {
                lemma_cursor_after_bounds(s0, c0);
                lemma_cursor_after_bounds(s0, cursor_after(s0, c0));
            }
            let inner = self.parse_expression();
            match inner {
                ExprNode::Error(_) => inner,
                _ => {
                    if self.lookahead_is_char(')') {
                        self.advance();
                        inner
                    } else {
                        ExprNode::Error(
                            ErrorAST::new(
                                ParseError::SyntaxError(
                                    "expected ')' closing the subexpression".to_owned(),
                                ),
                            ),
                        )
                    }
                },
            }
        } else {
            ExprNode::Error(
                ErrorAST::new(ParseError::UnexpectedToken(self.dup_lookahead(), "an expression")),
            )
        }
    }

    /// Parses an expression that starts with an identifier: a plain
    /// variable reference, or, when a `(` follows, a call with a
    /// comma-separated, parenthesized argument list.
    pub fn parse_identifier_expr(&mut self) -> (r: ExprNode)
        requires
            old(self).wf(),
            old(self).lookahead() matches Some(t) && t is Identifier,
        ensures
            final(self).wf(),
            final(self).stream() == old(self).stream(),
            final(self).lookahead() is Some,
            final(self).parse_measure() <= old(self).parse_measure(),
            r.is_expr(),
            !(r is Error) ==> final(self).parse_measure() < old(self).parse_measure(),
            (r matches ExprNode::Variable(v) || r matches ExprNode::Call(v)) ==> (old(
                self,
            ).lookahead() matches Some(TokenView::Identifier(nm)) && spec_node_name(r)@ == nm),
            token_at(old(self).stream(), old(self).lexer.cursor()) != TokenView::Char('(') ==> (
            r matches ExprNode::Variable(v) && final(self).lookahead() == Some(
                token_at(old(self).stream(), old(self).lexer.cursor()),
            ) && final(self).lexer.cursor() == cursor_after(
                old(self).stream(),
                old(self).lexer.cursor(),
            )),
            r matches ExprNode::Call(c) ==> forall|k: int|
                0 <= k < c.args@.len() ==> (#[trigger] c.args@[k]).is_expr() && !(c.args@[k]
                    is Error),
            ({
                let s0 = old(self).stream();
                let c0 = old(self).lexer.cursor();
                let c1 = cursor_after(s0, c0);
                let c2 = cursor_after(s0, c1);
                (token_at(s0, c0) == TokenView::Char('(') && token_at(s0, c1) == TokenView::Char(
                    ')',
                )) ==> ({
                    &&& r matches ExprNode::Call(c)
                    &&& c.args@ == Seq::<ExprNode>::empty()
                    &&& final(self).lookahead() == Some(token_at(s0, c2))
                    &&& final(self).lexer.cursor() == cursor_after(s0, c2)
                })
            }),
        decreases old(self).parse_measure(), 0int,
    {
        let ghost m0 = self.parse_measure();
        let name = match &self.lexer.cur_tok {
            Some(Token::Identifier(s)) => s.clone(),
            _ => unreached(),
        };
        self.advance();
        if !self.lookahead_is_char('(') {
            return ExprNode::Variable(VariableExprAST::new(name));
        }
        self.advance();
        let mut args: Vec<ExprNode> = Vec::new();
        if self.lookahead_is_char(')') {
            self.advance();
            proof {
                assert(args@ =~= Seq::<ExprNode>::empty());
            }
            return ExprNode::Call(CallExprAST::new(name, args));
        }
        loop
            invariant
                self.wf(),
                self.stream() == old(self).stream(),
                self.lookahead() is Some,
                self.parse_measure() < m0,
                m0 == old(self).parse_measure(),
                old(self).lookahead() matches Some(TokenView::Identifier(nm)) && name@ == nm,
                token_at(old(self).stream(), old(self).lexer.cursor()) == TokenView::Char('('),
                token_at(
                    old(self).stream(),
                    cursor_after(old(self).stream(), old(self).lexer.cursor()),
                ) != TokenView::Char(')'),
                forall|k: int|
                    0 <= k < args@.len() ==> (#[trigger] args@[k]).is_expr() && !(args@[k]
                        is Error),
            decreases self.parse_measure(),
        {
            let arg = self.parse_expression();
            match arg {
                ExprNode::Error(_) => {
                    return arg;
                },
                _ => {},
            }
            args.push(arg);
            if self.lookahead_is_char(')') {
                self.advance();
                return ExprNode::Call(CallExprAST::new(name, args));
            }
            if self.lookahead_is_char(',') {
                self.advance();
            } else {
                return ExprNode::Error(
                    ErrorAST::new(
                        ParseError::SyntaxError(
                            "expected ')' or ',' in the argument list".to_owned(),
                        ),
                    ),
                );
            }
        }
    }

    /// Parses a full expression: a primary followed by any binary-operator
    /// tail; an error in either position is propagated as the result.
    pub fn parse_expression(&mut self) -> (r: ExprNode)
        requires
            old(self).wf(),
            old(self).lookahead() is Some,
        ensures
            final(self).wf(),
            final(self).stream() == old(self).stream(),
            final(self).lookahead() is Some,
            final(self).parse_measure() <= old(self).parse_measure(),
            r.is_expr(),
            !(r is Error) ==> final(self).parse_measure() < old(self).parse_measure(),
            !(r is Error) ==> !final(self).spec_op_at_least(0),
            old(self).lookahead() matches Some(TokenView::Number(text)) ==> ((is_valid_number_text(
                text,
            ) && !is_operator_tok(token_at(old(self).stream(), old(self).lexer.cursor()))) ==> (
            r matches ExprNode::Number(n) && n.val@ == text && final(self).lookahead() == Some(
                token_at(old(self).stream(), old(self).lexer.cursor()),
            ) && final(self).lexer.cursor() == cursor_after(
                old(self).stream(),
                old(self).lexer.cursor(),
            ))),
            old(self).lookahead() matches Some(TokenView::Identifier(nm)) ==> ((token_at(
                old(self).stream(),
                old(self).lexer.cursor(),
            ) != TokenView::Char('(') && !is_operator_tok(
                token_at(old(self).stream(), old(self).lexer.cursor()),
            )) ==> (r matches ExprNode::Variable(v) && v.name@ == nm && final(self).lookahead()
                == Some(token_at(old(self).stream(), old(self).lexer.cursor()))
                && final(self).lexer.cursor() == cursor_after(
                old(self).stream(),
                old(self).lexer.cursor(),
            ))),
            old(self).lookahead() matches Some(la) ==> (if is_atom(
                old(self).stream(),
                la,
                old(self).lexer.cursor(),
            ) {
                match tail_end(
                    old(self).stream(),
                    token_at(old(self).stream(), old(self).lexer.cursor()),
                    cursor_after(old(self).stream(), old(self).lexer.cursor()),
                    0,
                ) {
                    Some((la_end, c_end)) => {
                        &&& !(r is Error)
                        &&& final(self).lookahead() == Some(la_end)
                        &&& final(self).lexer.cursor() == c_end
                    },
                    None => true,
                }
            } else {
                true
            }),
        decreases old(self).parse_measure(), 2int,
    {
        let ghost s0 = self.stream();
        let ghost c0 = self.lexer.cursor();
        proof {
            lemma_cursor_after_bounds(s0, c0);
        }
        let lhs = self.parse_primary();
        match lhs {
            ExprNode::Error(_) => lhs,
            _ => self.parse_bin_op_rhs(0, lhs),
        }
    }

    /// Parses the operator tail after `lhs`: while the lookahead is a
    /// binary operator of at least `min_prec`, consumes it and its right
    /// operand, folding left-associatively and giving tighter operators to
    /// the right operand first.
    pub fn parse_bin_op_rhs(&mut self, min_prec: u32, lhs: ExprNode) -> (r: ExprNode)
        requires
            old(self).wf(),
            old(self).lookahead() is Some,
            lhs.is_expr(),
            !(lhs is Error),
        ensures
            final(self).wf(),
            final(self).stream() == old(self).stream(),
            final(self).lookahead() is Some,
            final(self).parse_measure() <= old(self).parse_measure(),
            r.is_expr(),
            !(r is Error) ==> (r == lhs || r matches ExprNode::Binary(_)),
            !(r is Error) ==> !final(self).spec_op_at_least(min_prec),
            !old(self).spec_op_at_least(min_prec) ==> (r == lhs && *final(self) == *old(self)),
            ({
                let s0 = old(self).stream();
                let c0 = old(self).lexer.cursor();
                let c1 = cursor_after(s0, c0);
                match old(self).lookahead() {
                    Some(TokenView::Char(op)) => match spec_op_precedence(op) {
                        Some(pr) => if pr >= min_prec {
                            match token_at(s0, c0) {
                                TokenView::Number(text) => (is_valid_number_text(text)
                                    && !is_operator_tok(token_at(s0, c1))) ==> ({
                                    &&& r matches ExprNode::Binary(b)
                                    &&& b.op == op
                                    &&& b.lhs == lhs
                                    &&& (*b.rhs) matches ExprNode::Number(n)
                                    &&& n.val@ == text
                                    &&& final(self).lookahead() == Some(token_at(s0, c1))
                                    &&& final(self).lexer.cursor() == cursor_after(s0, c1)
                                }),
                                _ => true,
                            }
                        } else {
                            true
                        },
                        None => true,
                    },
                    _ => true,
                }
            }),
            old(self).lookahead() matches Some(la) ==> (match tail_end(
                old(self).stream(),
                la,
                old(self).lexer.cursor(),
                min_prec,
            ) {
                Some((la_end, c_end)) => {
                    &&& !(r is Error)
                    &&& final(self).lookahead() == Some(la_end)
                    &&& final(self).lexer.cursor() == c_end
                },
                None => true,
            }),
        decreases old(self).parse_measure(), 0int,
    {
        let ghost s0 = self.stream();
        let ghost c0 = self.lexer.cursor();
        let ghost la0 = self.lookahead();
        if !self.op_at_least(min_prec) {
            return lhs;
        }
        let p = match self.peek_prec() {
            Some(p) => p,
            None => unreached(),
        };
        let op = match &self.lexer.cur_tok {
            Some(Token::Char(c)) => *c,
            _ => unreached(),
        };
        self.advance();
        let mut rhs = self.parse_primary();
        proof {
            match la0 {
                Some(l) => {
                    if tail_end(s0, l, c0, min_prec) is Some {
                        lemma_cursor_after_bounds(s0, c0);
                        let c_a = cursor_after(s0, c0);
                        lemma_cursor_after_bounds(s0, c_a);
                        lemma_tail_end_split(
                            s0,
                            token_at(s0, c_a),
                            cursor_after(s0, c_a),
                            min_prec,
                            (p + 1) as u32,
                        );
                    }
                },
                None => {},
            }
        }
        match rhs {
            ExprNode::Error(_) => {
                return rhs;
            },
            _ => {},
        }
        // A tighter operator after the operand binds it to the right first.
        if self.op_at_least(p + 1) {
            rhs = self.parse_bin_op_rhs(p + 1, rhs);
            match rhs {
                ExprNode::Error(_) => {
                    return rhs;
                },
                _ => {},
            }
        }
        let folded = ExprNode::Binary(BinaryExprAST::new(op, Box::new(lhs), Box::new(rhs)));
        self.parse_bin_op_rhs(min_prec, folded)
    }

    /// Parses a prototype: a function name, then a parenthesized,
    /// comma-separated list of parameter names.
    pub fn parse_prototype(&mut self) -> (r: Result<PrototypeAST, ParseError>)
        requires
            old(self).wf(),
            old(self).lookahead() is Some,
        ensures
            final(self).wf(),
            final(self).stream() == old(self).stream(),
            final(self).lookahead() is Some,
            final(self).parse_measure() <= old(self).parse_measure(),
            r matches Ok(_) ==> final(self).parse_measure() < old(self).parse_measure(),
            r matches Ok(p) ==> (old(self).lookahead() matches Some(TokenView::Identifier(nm))
                && p.name@ == nm),
            !(old(self).lookahead() matches Some(t) && t is Identifier) ==> (r matches Err(e)
                && e matches ParseError::UnexpectedToken(found, _) && Some(found@) == old(
                self,
            ).lookahead() && *final(self) == *old(self)),
            old(self).lookahead() matches Some(la0) ==> (match proto_result(
                old(self).stream(),
                la0,
                old(self).lexer.cursor(),
            ) {
                Some((nm, ps, la_end, c_end)) => {
                    &&& r matches Ok(p)
                    &&& p.name@ == nm
                    &&& view_of_params(p.args@) == ps
                    &&& final(self).lookahead() == Some(la_end)
                    &&& final(self).lexer.cursor() == c_end
                },
                None => true,
            }),
    {
        let name = match &self.lexer.cur_tok {
            Some(Token::Identifier(s)) => s.clone(),
            Some(_) => {
                return Err(
                    ParseError::UnexpectedToken(self.dup_lookahead(), "a function name"),
                );
            },
            None => unreached(),
        };
        self.advance();
        if !self.lookahead_is_char('(') {
            return Err(
                ParseError::UnexpectedToken(self.dup_lookahead(), "'(' opening the parameter list"),
            );
        }
        self.advance();
        let mut params: Vec<String> = Vec::new();
        if self.lookahead_is_char(')') {
            self.advance();
            proof {
                assert(view_of_params(params@) =~= Seq::<Seq<char>>::empty());
            }
            return Ok(PrototypeAST::new(name, params));
        }
        match self.parse_params(&mut params) {
            Ok(_) => Ok(PrototypeAST::new(name, params)),
            Err(e) => Err(e),
        }
    }

    /// Consumes a non-empty, comma-separated parameter-name list and its
    /// closing parenthesis, appending the names to `params`.
    fn parse_params(&mut self, params: &mut Vec<String>) -> (r: Result<(), ParseError>)
        requires
            old(self).wf(),
            old(self).lookahead() is Some,
        ensures
            final(self).wf(),
            final(self).stream() == old(self).stream(),
            final(self).lookahead() is Some,
            final(self).parse_measure() <= old(self).parse_measure(),
            r matches Ok(_) ==> final(self).parse_measure() < old(self).parse_measure(),
            old(self).lookahead() matches Some(la) ==> (match params_result(
                old(self).stream(),
                la,
                old(self).lexer.cursor(),
            ) {
                Some((ps, la_end, c_end)) => {
                    &&& r matches Ok(_)
                    &&& view_of_params(final(params)@) == view_of_params(old(params)@) + ps
                    &&& final(self).lookahead() == Some(la_end)
                    &&& final(self).lexer.cursor() == c_end
                },
                None => true,
            }),
        decreases old(self).parse_measure(),
    {
        let ghost ps0 = params@;
        let a = match &self.lexer.cur_tok {
            Some(Token::Identifier(s)) => s.clone(),
            _ => {
                return Err(ParseError::UnexpectedToken(self.dup_lookahead(), "a parameter name"));
            },
        };
        let ghost ax = a;
        self.advance();
        params.push(a);
        proof {
            lemma_view_of_params_push(ps0, ax);
        }
        if self.lookahead_is_char(')') {
            self.advance();
            proof {
                assert(view_of_params(ps0).push(ax@) =~= view_of_params(ps0) + seq![ax@]);
            }
            return Ok(());
        }
        if self.lookahead_is_char(',') {
            self.advance();
            let r = self.parse_params(params);
            proof {
                assert forall|rest: Seq<Seq<char>>|
                    true implies view_of_params(ps0).push(ax@) + rest == view_of_params(ps0) + (
                    seq![ax@] + rest) by {
                    assert(view_of_params(ps0).push(ax@) + rest =~= view_of_params(ps0) + (seq![
                        ax@,
                    ] + rest));
                }
            }
            r
        } else {
            Err(
                ParseError::UnexpectedToken(
                    self.dup_lookahead(),
                    "')' or ',' in the parameter list",
                ),
            )
        }
    }

    /// Parses a definition: the `def` keyword, a prototype, and a body
    /// expression, bound together into a function node; an error in either
    /// part is propagated.
    pub fn parse_definition(&mut self) -> (r: ExprNode)
        requires
            old(self).wf(),
            old(self).lookahead() matches Some(t) && t is Def,
        ensures
            final(self).wf(),
            final(self).stream() == old(self).stream(),
            final(self).lookahead() is Some,
            final(self).parse_measure() <= old(self).parse_measure(),
            r matches ExprNode::Function(_) || r matches ExprNode::Error(_),
            !(r is Error) ==> final(self).parse_measure() < old(self).parse_measure(),
            r matches ExprNode::Function(f) ==> (token_at(
                old(self).stream(),
                old(self).lexer.cursor(),
            ) matches TokenView::Identifier(nm) && f.proto.name@ == nm),
            ({
                let s0 = old(self).stream();
                let c0 = old(self).lexer.cursor();
                match proto_result(s0, token_at(s0, c0), cursor_after(s0, c0)) {
                    Some((nm, ps, la_end, c_end)) => match la_end {
                        TokenView::Number(text) => (is_valid_number_text(text) && !is_operator_tok(
                            token_at(s0, c_end),
                        )) ==> ({
                            &&& r matches ExprNode::Function(f)
                            &&& f.proto.name@ == nm
                            &&& view_of_params(f.proto.args@) == ps
                            &&& (*f.body) matches ExprNode::Number(n)
                            &&& n.val@ == text
                            &&& final(self).lookahead() == Some(token_at(s0, c_end))
                            &&& final(self).lexer.cursor() == cursor_after(s0, c_end)
                        }),
                        _ => true,
                    },
                    None => true,
                }
            }),
            ({
                let s0 = old(self).stream();
                let c0 = old(self).lexer.cursor();
                match proto_result(s0, token_at(s0, c0), cursor_after(s0, c0)) {
                    Some((nm, ps, la_end, c_end)) => (if is_atom(s0, la_end, c_end) {
                        match tail_end(s0, token_at(s0, c_end), cursor_after(s0, c_end), 0) {
                            Some((la2, c2)) => {
                                &&& r matches ExprNode::Function(f)
                                &&& f.proto.name@ == nm
                                &&& view_of_params(f.proto.args@) == ps
                                &&& final(self).lookahead() == Some(la2)
                                &&& final(self).lexer.cursor() == c2
                            },
                            None => true,
                        }
                    } else {
                        true
                    }),
                    None => true,
                }
            }),
    {
        let ghost s0 = self.stream();
        self.advance();
        let proto = match self.parse_prototype() {
            Ok(p) => p,
            Err(e) => {
                return ExprNode::Error(ErrorAST::new(e));
            },
        };
        proof {
            lemma_cursor_after_bounds(s0, self.lexer.cursor());
        }
        let body = self.parse_expression();
        match body {
            ExprNode::Error(_) => body,
            _ => ExprNode::Function(FunctionAST::new(Box::new(proto), Box::new(body))),
        }
    }

    /// Parses an extern declaration: the `extern` keyword followed by a
    /// prototype.
    pub fn parse_extern(&mut self) -> (r: ExprNode)
        requires
            old(self).wf(),
            old(self).lookahead() matches Some(t) && t is Extern,
        ensures
            final(self).wf(),
            final(self).stream() == old(self).stream(),
            final(self).lookahead() is Some,
            final(self).parse_measure() <= old(self).parse_measure(),
            r matches ExprNode::Prototype(_) || r matches ExprNode::Error(_),
            !(r is Error) ==> final(self).parse_measure() < old(self).parse_measure(),
            r matches ExprNode::Prototype(p) ==> (token_at(
                old(self).stream(),
                old(self).lexer.cursor(),
            ) matches TokenView::Identifier(nm) && p.name@ == nm),
            ({
                let s0 = old(self).stream();
                let c0 = old(self).lexer.cursor();
                match proto_result(s0, token_at(s0, c0), cursor_after(s0, c0)) {
                    Some((nm, ps, la_end, c_end)) => {
                        &&& r matches ExprNode::Prototype(p)
                        &&& p.name@ == nm
                        &&& view_of_params(p.args@) == ps
                        &&& final(self).lookahead() == Some(la_end)
                        &&& final(self).lexer.cursor() == c_end
                    },
                    None => true,
                }
            }),
    {
        self.advance();
        match self.parse_prototype() {
            Ok(p) => ExprNode::Prototype(p),
            Err(e) => ExprNode::Error(ErrorAST::new(e)),
        }
    }
}

/// The name a variable or call node carries.
pub open spec fn spec_node_name(r: ExprNode) -> String {
    match r {
        ExprNode::Variable(v) => v.name,
        ExprNode::Call(c) => c.callee,
        _ => arbitrary(),
    }
}

/// Precedence table of the binary operators, left-associative, higher binds
/// tighter.
pub open spec fn spec_op_precedence(c: char) -> Option<u32> {
    if c == '<' {
        Some(10u32)
    } else if c == '+' {
        Some(20u32)
    } else if c == '-' {
        Some(20u32)
    } else if c == '*' {
        Some(40u32)
    } else {
        None
    }
}

/// Whether a token is a binary operator of the precedence table.
pub open spec fn is_operator_tok(t: TokenView) -> bool {
    match t {
        TokenView::Char(c) => spec_op_precedence(c) is Some,
        _ => false,
    }
}

/// The views of a list of parameter names.
pub open spec fn view_of_params(v: Seq<String>) -> Seq<Seq<char>> {
    v.map_values(|a: String| a@)
}

/// Appending one name to a list appends its view.
pub proof fn lemma_view_of_params_push(q: Seq<String>, x: String)
    ensures
        view_of_params(q.push(x)) == view_of_params(q).push(x@),
{
    assert(view_of_params(q.push(x)) =~= view_of_params(q).push(x@));
}

/// Reading of a non-empty, comma-separated parameter-name list from the
/// state whose lookahead is its first name (the opening parenthesis already
/// consumed): the names in order, and the lookahead and cursor after the
/// closing parenthesis; nothing where the list is malformed.
pub open spec fn params_result(s: Seq<char>, la: TokenView, cur: int) -> Option<
    (Seq<Seq<char>>, TokenView, int),
>
    decreases s.len() - cur
        when 0 <= cur <= s.len()
        via params_result_decreases
{
    match la {
        TokenView::Identifier(a) => {
            let la1 = token_at(s, cur);
            let c1 = cursor_after(s, cur);
            if la1 == TokenView::Char(')') {
                Some((seq![a], token_at(s, c1), cursor_after(s, c1)))
            } else if la1 == TokenView::Char(',') {
                match params_result(s, token_at(s, c1), cursor_after(s, c1)) {
                    Some((rest, la2, c2)) => Some((seq![a] + rest, la2, c2)),
                    None => None,
                }
            } else {
                None
            }
        },
        _ => None,
    }
}

#[via_fn]
proof fn params_result_decreases(s: Seq<char>, la: TokenView, cur: int) {
    crate::scan::lemma_skip_spaces_fixed(s, s.len() as int);
    assert(token_at(s, s.len() as int) is Eof);
    crate::scan::lemma_cursor_after_bounds(s, cur);
    crate::scan::lemma_cursor_after_bounds(s, cursor_after(s, cur));
}

/// An atom of the operator grammar: a numeric literal carrying a value, or
/// a plain variable reference (an identifier not opening a call).
pub open spec fn is_atom(s: Seq<char>, la: TokenView, cur: int) -> bool {
    match la {
        TokenView::Number(text) => is_valid_number_text(text),
        TokenView::Identifier(_) => token_at(s, cur) != TokenView::Char('('),
        _ => false,
    }
}

/// End state of the operator tail that starts at the given state: while the
/// lookahead is an operator of precedence at least `min` followed by an
/// atom, operator and atom are consumed; the first token that no longer
/// qualifies, with its cursor, is the result. Nothing where an operand is
/// not an atom.
pub open spec fn tail_end(s: Seq<char>, la: TokenView, cur: int, min: u32) -> Option<
    (TokenView, int),
>
    decreases s.len() - cur
        when 0 <= cur <= s.len()
        via tail_end_decreases
{
    match la {
        TokenView::Char(c) => match spec_op_precedence(c) {
            Some(pr) => if pr >= min {
                let la_a = token_at(s, cur);
                let c_a = cursor_after(s, cur);
                if is_atom(s, la_a, c_a) {
                    tail_end(s, token_at(s, c_a), cursor_after(s, c_a), min)
                } else {
                    None
                }
            } else {
                Some((la, cur))
            },
            None => Some((la, cur)),
        },
        _ => Some((la, cur)),
    }
}

#[via_fn]
proof fn tail_end_decreases(s: Seq<char>, la: TokenView, cur: int, min: u32) {
    crate::scan::lemma_skip_spaces_fixed(s, s.len() as int);
    assert(token_at(s, s.len() as int) is Eof);
    crate::scan::lemma_cursor_after_bounds(s, cur);
    crate::scan::lemma_cursor_after_bounds(s, cursor_after(s, cur));
}

/// Splitting an operator tail: raising the threshold consumes a prefix of
/// the same tail, and from that prefix's end the original threshold
/// consumes the rest, to the same end.
pub proof fn lemma_tail_end_split(s: Seq<char>, la: TokenView, cur: int, min: u32, mid: u32)
    requires
        0 <= cur <= s.len(),
        min <= mid,
        tail_end(s, la, cur, min) is Some,
    ensures
        tail_end(s, la, cur, mid) matches Some((la2, c2)) && 0 <= c2 <= s.len() && tail_end(
            s,
            la2,
            c2,
            min,
        ) == tail_end(s, la, cur, min),
    decreases s.len() - cur,
{
    crate::scan::lemma_skip_spaces_fixed(s, s.len() as int);
    crate::scan::lemma_cursor_after_bounds(s, cur);
    match la {
        TokenView::Char(c) => match spec_op_precedence(c) {
            Some(pr) => {
                if pr >= mid {
                    let la_a = token_at(s, cur);
                    let c_a = cursor_after(s, cur);
                    crate::scan::lemma_cursor_after_bounds(s, c_a);
                    if is_atom(s, la_a, c_a) {
                        lemma_tail_end_split(s, token_at(s, c_a), cursor_after(s, c_a), min, mid);
                    } else {
                        assert(tail_end(s, la, cur, min) is None);
                    }
                }
            },
            None => {},
        },
        _ => {},
    }
}
/// function's name: the name, the parameter names in order, and the
/// lookahead and cursor after the closing parenthesis; nothing where the
/// prototype is malformed.
pub open spec fn proto_result(s: Seq<char>, la: TokenView, cur: int) -> Option<
    (Seq<char>, Seq<Seq<char>>, TokenView, int),
> {
    match la {
        TokenView::Identifier(nm) => {
            let la1 = token_at(s, cur);
            let c1 = cursor_after(s, cur);
            if la1 == TokenView::Char('(') {
                let la2 = token_at(s, c1);
                let c2 = cursor_after(s, c1);
                if la2 == TokenView::Char(')') {
                    Some((nm, Seq::empty(), token_at(s, c2), cursor_after(s, c2)))
                } else {
                    match params_result(s, la2, c2) {
                        Some((ps, la3, c3)) => Some((nm, ps, la3, c3)),
                        None => None,
                    }
                }
            } else {
                None
            }
        },
        _ => None,
    }
}

/// Executable mirror of `spec_op_precedence`.
pub fn op_precedence(c: char) -> (r: Option<u32>)
    ensures
        r == spec_op_precedence(c),
        r matches Some(p) ==> p <= 40,
{
    if c == '<' {
        Some(10)
    } else if c == '+' {
        Some(20)
    } else if c == '-' {
        Some(20)
    } else if c == '*' {
        Some(40)
    } else {
        None
    }
}

} // verus!
