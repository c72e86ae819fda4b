use kaleido::ast::{ExprAST, ExprASTKind, ExprNode};
use kaleido::error::ParseError;
use kaleido::lexer::Lexer;
use kaleido::parser::ASTParser;
use kaleido::token::Token;

fn create_lexer(input: &str) -> Lexer {
    Lexer::new(input.as_bytes().to_vec())
}

fn create_parser(input: &str) -> ASTParser {
    let mut parser = ASTParser::new(create_lexer(input)).unwrap();
    parser.lexer.update_token();
    parser
}

#[test]
fn test_parse_number_expr() {
    let lexer1 = create_lexer("123");
    let mut astparser1 = ASTParser::new(lexer1).unwrap();
    astparser1.lexer.update_token();
    let ast1 = astparser1.parse_number_expr();
    match ast1 {
        ExprNode::Number(n) => assert_eq!(n.val.parse::<f64>().unwrap(), 123.0),
        other => panic!("expected a number literal node, got {:?}", other),
    }
}

#[test]
fn parse_number_advances_lookahead() {
    let mut parser = create_parser("1.234 rest");
    let ast = parser.parse_number_expr();
    match ast {
        ExprNode::Number(n) => assert_eq!(n.val.parse::<f64>().unwrap(), 1.234),
        other => panic!("expected a number literal node, got {:?}", other),
    }
    match &parser.lexer.cur_tok {
        Some(Token::Identifier(text)) => assert_eq!(text, "rest"),
        other => panic!("expected the identifier lookahead, got {:?}", other),
    }
    let mut parser = create_parser("42");
    let ast = parser.parse_number_expr();
    match ast {
        ExprNode::Number(n) => assert_eq!(n.val.parse::<f64>().unwrap(), 42.0),
        other => panic!("expected a number literal node, got {:?}", other),
    }
    assert!(matches!(parser.lexer.cur_tok, Some(Token::Eof)));
}

#[test]
fn parse_number_malformed_payload() {
    let mut parser = create_parser("1.2.3");
    let ast = parser.parse_number_expr();
    match &ast {
        ExprNode::Error(e) => {
            assert!(matches!(e.get_error(), ParseError::LexerError(_)));
            assert_eq!(e.kind(), ExprASTKind::Error);
        },
        other => panic!("expected an error node, got {:?}", other),
    }
    // The malformed token stays current for the caller to report.
    assert!(matches!(parser.lexer.cur_tok, Some(Token::Number(_))));
}

#[test]
fn unicode_numeric_payload_is_lexer_error() {
    // 0xB2 widens to a superscript digit: it joins the number run, but the
    // text fails strict parsing, so the parser returns a lexer error and
    // keeps the malformed token current.
    let mut parser = ASTParser::new(Lexer::new(vec![b'1', 0xB2])).unwrap();
    parser.lexer.update_token();
    let ast = parser.parse_number_expr();
    match &ast {
        ExprNode::Error(e) => assert!(matches!(e.get_error(), ParseError::LexerError(_))),
        other => panic!("expected an error node, got {:?}", other),
    }
    assert!(matches!(parser.lexer.cur_tok, Some(Token::Number(_))));
}

#[test]
fn parser_rejects_used_lexer() {
    let mut lexer = create_lexer("1 2");
    lexer.update_token();
    let r = ASTParser::new(lexer);
    match r {
        Err(ParseError::GeneralError(_)) => {},
        _ => panic!("expected construction to be rejected"),
    }
    // Even one character read is enough to reject.
    let mut lexer = create_lexer("abc");
    lexer.get_char();
    assert!(ASTParser::new(lexer).is_err());
    // A fresh lexer is accepted.
    assert!(ASTParser::new(create_lexer("abc")).is_ok());
}

#[test]
fn parse_variable_expression() {
    let mut parser = create_parser("x + 1");
    let ast = parser.parse_primary();
    match ast {
        ExprNode::Variable(v) => assert_eq!(v.name, "x"),
        other => panic!("expected a variable node, got {:?}", other),
    }
    assert!(matches!(parser.lexer.cur_tok, Some(Token::Char('+'))));
}

#[test]
fn parse_binary_precedence() {
    let mut parser = create_parser("a+b*c");
    let ast = parser.parse_expression();
    match ast {
        ExprNode::Binary(top) => {
            assert_eq!(top.op, '+');
            match *top.lhs {
                ExprNode::Variable(ref v) => assert_eq!(v.name, "a"),
                ref other => panic!("expected a variable node, got {:?}", other),
            }
            match *top.rhs {
                ExprNode::Binary(ref mul) => {
                    assert_eq!(mul.op, '*');
                    match *mul.lhs {
                        ExprNode::Variable(ref v) => assert_eq!(v.name, "b"),
                        ref other => panic!("expected a variable node, got {:?}", other),
                    }
                    match *mul.rhs {
                        ExprNode::Variable(ref v) => assert_eq!(v.name, "c"),
                        ref other => panic!("expected a variable node, got {:?}", other),
                    }
                },
                ref other => panic!("expected a binary node, got {:?}", other),
            }
        },
        other => panic!("expected a binary node, got {:?}", other),
    }
}

#[test]
fn parse_binary_left_associative() {
    let mut parser = create_parser("a-b-c");
    let ast = parser.parse_expression();
    match ast {
        ExprNode::Binary(top) => {
            assert_eq!(top.op, '-');
            assert!(matches!(*top.lhs, ExprNode::Binary(_)));
            match *top.rhs {
                ExprNode::Variable(ref v) => assert_eq!(v.name, "c"),
                ref other => panic!("expected a variable node, got {:?}", other),
            }
        },
        other => panic!("expected a binary node, got {:?}", other),
    }
}

#[test]
fn parse_call_with_arguments() {
    let mut parser = create_parser("f(x, 1.5)");
    let ast = parser.parse_expression();
    match ast {
        ExprNode::Call(c) => {
            assert_eq!(c.callee, "f");
            assert_eq!(c.args.len(), 2);
            match &c.args[0] {
                ExprNode::Variable(v) => assert_eq!(v.name, "x"),
                other => panic!("expected a variable node, got {:?}", other),
            }
            match &c.args[1] {
                ExprNode::Number(n) => assert_eq!(n.val.parse::<f64>().unwrap(), 1.5),
                other => panic!("expected a number literal node, got {:?}", other),
            }
        },
        other => panic!("expected a call node, got {:?}", other),
    }
}

#[test]
fn parse_parenthesized_subexpression() {
    let mut parser = create_parser("(a+b)*c");
    let ast = parser.parse_expression();
    match ast {
        ExprNode::Binary(top) => {
            assert_eq!(top.op, '*');
            assert!(matches!(*top.lhs, ExprNode::Binary(_)));
        },
        other => panic!("expected a binary node, got {:?}", other),
    }
}

#[test]
fn parse_definition_builds_function() {
    let mut parser = create_parser("def foo(x, y) x+y");
    let ast = parser.parse_definition();
    match ast {
        ExprNode::Function(f) => {
            assert_eq!(f.proto.name, "foo");
            assert_eq!(f.proto.args, vec!["x".to_string(), "y".to_string()]);
            assert!(matches!(*f.body, ExprNode::Binary(_)));
        },
        other => panic!("expected a function node, got {:?}", other),
    }
    assert!(matches!(parser.lexer.cur_tok, Some(Token::Eof)));
}

#[test]
fn parse_extern_builds_prototype() {
    let mut parser = create_parser("extern sin(x)");
    let ast = parser.parse_extern();
    match ast {
        ExprNode::Prototype(p) => {
            assert_eq!(p.name, "sin");
            assert_eq!(p.args, vec!["x".to_string()]);
        },
        other => panic!("expected a prototype node, got {:?}", other),
    }
}

#[test]
fn unmatched_delimiter_is_syntax_error() {
    let mut parser = create_parser("(a+b");
    let ast = parser.parse_expression();
    match ast {
        ExprNode::Error(e) => assert!(matches!(e.get_error(), ParseError::SyntaxError(_))),
        other => panic!("expected an error node, got {:?}", other),
    }
    let mut parser = create_parser("f(x y)");
    let ast = parser.parse_expression();
    match ast {
        ExprNode::Error(e) => assert!(matches!(e.get_error(), ParseError::SyntaxError(_))),
        other => panic!("expected an error node, got {:?}", other),
    }
}

#[test]
fn non_expression_is_unexpected_token() {
    let mut parser = create_parser("+");
    let ast = parser.parse_primary();
    match ast {
        ExprNode::Error(e) => match e.get_error() {
            ParseError::UnexpectedToken(found, _) => {
                assert!(matches!(found, Token::Char('+')))
            },
            other => panic!("expected an unexpected-token error, got {:?}", other),
        },
        other => panic!("expected an error node, got {:?}", other),
    }
}

#[test]
fn error_in_argument_position_is_contagious() {
    let mut parser = create_parser("f(1.2.3)");
    let ast = parser.parse_expression();
    match ast {
        ExprNode::Error(e) => assert!(matches!(e.get_error(), ParseError::LexerError(_))),
        other => panic!("expected an error node, got {:?}", other),
    }
}
