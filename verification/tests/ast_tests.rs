use kaleido::ast::{
    BinaryExprAST, CallExprAST, EmptyExprAST, ErrorAST, ExprAST, ExprASTKind, ExprNode,
    FunctionAST, NumberExprAST, PrototypeAST, VariableExprAST,
};
use kaleido::error::{syntax_error, unexpected_token, ParseError};
use kaleido::parser::op_precedence;
use kaleido::token::Token;

#[test]
fn node_kinds() {
    assert_eq!(NumberExprAST::new("1.0".to_string()).kind(), ExprASTKind::Number);
    assert_eq!(VariableExprAST::new("x".to_string()).kind(), ExprASTKind::Variable);
    let lhs = Box::new(ExprNode::Variable(VariableExprAST::new("a".to_string())));
    let rhs = Box::new(ExprNode::Number(NumberExprAST::new("2".to_string())));
    let bin = BinaryExprAST::new('+', lhs, rhs);
    assert_eq!(bin.kind(), ExprASTKind::Binary);
    assert_eq!(bin.op, '+');
    let call = CallExprAST::new("f".to_string(), Vec::new());
    assert_eq!(call.kind(), ExprASTKind::Call);
    let proto = PrototypeAST::new("f".to_string(), vec!["x".to_string()]);
    assert_eq!(proto.kind(), ExprASTKind::Prototype);
    let func = FunctionAST::new(
        Box::new(PrototypeAST::new("f".to_string(), Vec::new())),
        Box::new(ExprNode::Number(NumberExprAST::new("1".to_string()))),
    );
    assert_eq!(func.kind(), ExprASTKind::Function);
    let err = ErrorAST::new(ParseError::GeneralError("boom".to_string()));
    assert_eq!(err.kind(), ExprASTKind::Error);
    assert_eq!(EmptyExprAST.kind(), ExprASTKind::Empty);
    assert_eq!(
        ExprNode::Empty(EmptyExprAST).kind(),
        ExprASTKind::Empty
    );
}

#[test]
fn error_node_exposes_error() {
    let err = ErrorAST::new(ParseError::SyntaxError("bad".to_string()));
    match err.get_error() {
        ParseError::SyntaxError(m) => assert_eq!(m, "bad"),
        other => panic!("expected a syntax error, got {:?}", other),
    }
}

#[test]
fn error_helpers() {
    let r: Result<(), ParseError> = syntax_error("missing thing");
    match r {
        Err(ParseError::SyntaxError(m)) => assert_eq!(m, "missing thing"),
        _ => panic!("expected a syntax error"),
    }
    let r: Result<(), ParseError> = unexpected_token(Token::Char('+'), "an expression");
    match r {
        Err(ParseError::UnexpectedToken(Token::Char('+'), exp)) => {
            assert_eq!(exp, "an expression")
        },
        _ => panic!("expected an unexpected-token error"),
    }
}

#[test]
fn error_messages() {
    assert_eq!(
        ParseError::LexerError("no value".to_string()).message(),
        "Lexer error:no value"
    );
    assert_eq!(
        ParseError::SyntaxError("unmatched".to_string()).message(),
        "Syntax error:unmatched"
    );
    assert_eq!(
        ParseError::UnexpectedToken(Token::Eof, "an expression").message(),
        "unexpected token:Eof, expected an expression"
    );
    assert_eq!(
        ParseError::UnexpectedToken(Token::Char('+'), "an expression").message(),
        "unexpected token:Char('+'), expected an expression"
    );
    assert_eq!(
        ParseError::UnexpectedToken(Token::Identifier("x".to_string()), "')'").message(),
        "unexpected token:Identifier, expected ')'"
    );
    assert_eq!(ParseError::GeneralError("oops".to_string()).message(), "error:oops");
}

#[test]
fn operator_precedence_table() {
    assert_eq!(op_precedence('<'), Some(10));
    assert_eq!(op_precedence('+'), Some(20));
    assert_eq!(op_precedence('-'), Some(20));
    assert_eq!(op_precedence('*'), Some(40));
    assert_eq!(op_precedence('/'), None);
    assert_eq!(op_precedence('('), None);
}
