use minicc::lexer::{Lexer, Token};
use minicc::parser::{BinaryOperator, Parser, UnaryOperator, AST};

fn parse_source(source: &str) -> Option<AST> {
    let tokens = Lexer::new(source).lex().expect("lexing never fails");
    Parser::new(&tokens).parse()
}

fn constant(n: u64) -> Box<AST> {
    Box::new(AST::IntConstant(n))
}

fn binary(op: BinaryOperator, l: Box<AST>, r: Box<AST>) -> Box<AST> {
    Box::new(AST::BinaryOp(op, l, r))
}

fn program_returning(expr: Box<AST>) -> AST {
    AST::Program(Box::new(AST::Function(
        "main".to_string(),
        Box::new(AST::Return(expr)),
    )))
}

#[test]
fn parses_precedence_of_multiplication() {
    let ast = parse_source("int main(){return 2+3*4;}").expect("parse");
    let expected = program_returning(binary(
        BinaryOperator::Plus,
        constant(2),
        binary(BinaryOperator::Times, constant(3), constant(4)),
    ));
    assert_eq!(ast, expected);
}

#[test]
fn parenthesization_changes_grouping() {
    let grouped = parse_source("int main(){return (1+2)*3;}").expect("parse");
    let expected_grouped = program_returning(binary(
        BinaryOperator::Times,
        binary(BinaryOperator::Plus, constant(1), constant(2)),
        constant(3),
    ));
    assert_eq!(grouped, expected_grouped);

    let plain = parse_source("int main(){return 1+2*3;}").expect("parse");
    let expected_plain = program_returning(binary(
        BinaryOperator::Plus,
        constant(1),
        binary(BinaryOperator::Times, constant(2), constant(3)),
    ));
    assert_eq!(plain, expected_plain);
}

#[test]
fn subtraction_is_left_associative() {
    let ast = parse_source("int main(){return 8-3-2;}").expect("parse");
    let expected = program_returning(binary(
        BinaryOperator::Minus,
        binary(BinaryOperator::Minus, constant(8), constant(3)),
        constant(2),
    ));
    let wrong = program_returning(binary(
        BinaryOperator::Minus,
        constant(8),
        binary(BinaryOperator::Minus, constant(3), constant(2)),
    ));
    assert_eq!(ast, expected);
    assert_ne!(ast, wrong);
}

#[test]
fn division_is_left_associative() {
    let ast = parse_source("int main(){return 100/5/2;}").expect("parse");
    let expected = program_returning(binary(
        BinaryOperator::Divide,
        binary(BinaryOperator::Divide, constant(100), constant(5)),
        constant(2),
    ));
    assert_eq!(ast, expected);
}

#[test]
fn unary_operators_stack_and_bind_tightly() {
    let ast = parse_source("int main(){return !~-3+1;}").expect("parse");
    let expected = program_returning(binary(
        BinaryOperator::Plus,
        Box::new(AST::UnaryOp(
            UnaryOperator::Bang,
            Box::new(AST::UnaryOp(
                UnaryOperator::Tilde,
                Box::new(AST::UnaryOp(UnaryOperator::Minus, constant(3))),
            )),
        )),
        constant(1),
    ));
    assert_eq!(ast, expected);
}

#[test]
fn function_name_is_carried() {
    let ast = parse_source("int foo(){return 0;}").expect("parse");
    let expected = AST::Program(Box::new(AST::Function(
        "foo".to_string(),
        Box::new(AST::Return(constant(0))),
    )));
    assert_eq!(ast, expected);
}

#[test]
fn missing_semicolon_fails_cleanly() {
    assert!(parse_source("int main(){return 2}").is_none());
}

#[test]
fn missing_closing_brace_fails_cleanly() {
    assert!(parse_source("int main(){return 2;").is_none());
}

#[test]
fn empty_token_sequence_fails_cleanly() {
    let tokens: Vec<Token> = Vec::new();
    assert!(Parser::new(&tokens).parse().is_none());
}

#[test]
fn unclosed_parenthesis_fails_cleanly() {
    assert!(parse_source("int main(){return (1+2;}").is_none());
}

#[test]
fn missing_return_fails_cleanly() {
    assert!(parse_source("int main(){2;}").is_none());
}

#[test]
fn truncated_header_fails_cleanly() {
    assert!(parse_source("int main(").is_none());
    assert!(parse_source("int main(){}").is_none());
}

#[test]
fn operator_without_operand_fails_cleanly() {
    assert!(parse_source("int main(){return 1+;}").is_none());
}
