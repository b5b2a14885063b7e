use easyjs::lexer::lex::Lex;
use easyjs::lexer::token;
use easyjs::parser::ast::{Expression, Program, Statement};
use easyjs::parser::par::Parser;

fn parse(src: &str) -> (Program, Vec<String>) {
    let mut p = Parser::new(Lex::new(src.to_string()));
    let program = p.parse_program();
    (program, p.errors.clone())
}

fn only_expression(src: &str) -> Expression {
    let (program, errors) = parse(src);
    assert!(errors.is_empty(), "{:?}", errors);
    assert_eq!(program.statements.len(), 1);
    match program.statements.into_iter().next().unwrap() {
        Statement::ExpressionStatement(_, e) => *e,
        _ => panic!("not an expression statement"),
    }
}

fn is_int(e: &Expression, v: i64) -> bool {
    matches!(e, Expression::IntegerLiteral(_, x) if *x == v)
}

fn is_ident(e: &Expression, name: &str) -> bool {
    matches!(e, Expression::Identifier(_, n) if n == name)
}

#[test]
fn variable_statement() {
    let (program, errors) = parse("x = 5");
    assert!(errors.is_empty());
    assert_eq!(program.statements.len(), 1);
    match &program.statements[0] {
        Statement::VariableStatement(tk, name, ty, value) => {
            assert_eq!(tk.typ, token::IDENT);
            assert!(is_ident(name, "x"));
            assert!(matches!(ty.as_ref(), Expression::Type(_, t) if t == "none"));
            assert!(is_int(value, 5));
        }
        _ => panic!("expected a variable statement"),
    }
}

#[test]
fn constant_and_typed_variables() {
    let (program, errors) = parse("x := 5\ny: int = 3\nz: string");
    assert!(errors.is_empty(), "{:?}", errors);
    assert_eq!(program.statements.len(), 3);
    assert!(matches!(&program.statements[0], Statement::ConstVariableStatement(_, n, _, v) if is_ident(n, "x") && is_int(v, 5)));
    match &program.statements[1] {
        Statement::VariableStatement(_, n, ty, v) => {
            assert!(is_ident(n, "y"));
            assert!(matches!(ty.as_ref(), Expression::Type(_, t) if t == "int"));
            assert!(is_int(v, 3));
        }
        _ => panic!("expected a variable statement"),
    }
    assert!(matches!(&program.statements[2], Statement::VariableStatement(_, _, ty, v)
        if matches!(ty.as_ref(), Expression::Type(_, t) if t == "string") && matches!(v.as_ref(), Expression::EmptyExpression)));
}

#[test]
fn infix_precedence() {
    match only_expression("1 + 2 * 3") {
        Expression::InfixExpression(_, left, op, right) => {
            assert_eq!(op, "+");
            assert!(is_int(&left, 1));
            match *right {
                Expression::InfixExpression(_, l2, op2, r2) => {
                    assert_eq!(op2, "*");
                    assert!(is_int(&l2, 2));
                    assert!(is_int(&r2, 3));
                }
                _ => panic!("expected 2 * 3"),
            }
        }
        _ => panic!("expected an infix expression"),
    }
}

#[test]
fn call_expression() {
    match only_expression("add(1, 2)") {
        Expression::CallExpression(_, f, args) => {
            assert!(is_ident(&f, "add"));
            assert_eq!(args.len(), 2);
            assert!(is_int(&args[0], 1));
            assert!(is_int(&args[1], 2));
        }
        _ => panic!("expected a call"),
    }
}

#[test]
fn function_literal() {
    match only_expression("fn(a, b) { return a }") {
        Expression::Function(_, params, ty, body) => {
            assert_eq!(params.len(), 2);
            assert!(is_ident(&params[0], "a"));
            assert!(is_ident(&params[1], "b"));
            assert!(matches!(ty.as_ref(), Expression::Type(_, t) if t == "dyn"));
            match body {
                Statement::BlockStatement(_, stmts) => {
                    assert_eq!(stmts.len(), 1);
                    assert!(matches!(&stmts[0], Statement::ReturnStatement(_, v) if is_ident(v, "a")));
                }
                _ => panic!("expected a block"),
            }
        }
        _ => panic!("expected a function"),
    }
}

#[test]
fn if_else_expression() {
    match only_expression("if x { 1 } else { 2 }") {
        Expression::IfExpression(_, cond, cons, elif, alt) => {
            assert!(is_ident(&cond, "x"));
            assert!(matches!(cons.as_ref(), Statement::BlockStatement(_, s) if s.len() == 1));
            assert!(matches!(elif.as_ref(), Expression::EmptyExpression));
            assert!(matches!(alt.as_ref(), Statement::BlockStatement(_, s) if s.len() == 1));
        }
        _ => panic!("expected an if expression"),
    }
}

#[test]
fn else_if_chains() {
    match only_expression("if a { 1 } else if b { 2 }") {
        Expression::IfExpression(_, _, _, elif, alt) => {
            assert!(matches!(elif.as_ref(), Expression::IfExpression(_, c, _, _, _) if is_ident(c, "b")));
            assert!(matches!(alt.as_ref(), Statement::EmptyStatement));
        }
        _ => panic!("expected an if expression"),
    }
}

#[test]
fn arrays_indexes_and_dots() {
    match only_expression("[1, 2, 3]") {
        Expression::ArrayLiteral(_, items) => assert_eq!(items.len(), 3),
        _ => panic!("expected an array"),
    }
    assert!(matches!(only_expression("a[0]"), Expression::IndexExpression(_, l, i) if is_ident(&l, "a") && is_int(&i, 0)));
    assert!(matches!(only_expression("a.b"), Expression::DotExpression(_, l, r) if is_ident(&l, "a") && is_ident(&r, "b")));
}

#[test]
fn prefix_and_not() {
    assert!(matches!(only_expression("-5"), Expression::PrefixExpression(_, op, e) if op == "-" && is_int(&e, 5)));
    assert!(matches!(only_expression("not true"), Expression::NotExpression(_, e) if matches!(e.as_ref(), Expression::Boolean(_, true))));
}

#[test]
fn float_literals_keep_their_text() {
    let (program, errors) = parse("x = 1.5");
    assert!(errors.is_empty());
    assert!(matches!(&program.statements[0], Statement::VariableStatement(_, _, _, v)
        if matches!(v.as_ref(), Expression::FloatLiteral(_, t) if t == "1.5")));
}

#[test]
fn statements_of_other_kinds() {
    let (program, errors) = parse("break\ncontinue\npub x = 1\nmatch x { 1: { y } }");
    assert!(errors.is_empty(), "{:?}", errors);
    assert_eq!(program.statements.len(), 4);
    assert!(matches!(&program.statements[0], Statement::BreakStatement(_)));
    assert!(matches!(&program.statements[1], Statement::ContinueStatement(_)));
    assert!(matches!(&program.statements[2], Statement::ExportStatement(_, s) if matches!(s.as_ref(), Statement::VariableStatement(..))));
    match &program.statements[3] {
        Statement::MatchStatement(_, e, cases) => {
            assert!(is_ident(e, "x"));
            assert_eq!(cases.len(), 1);
            assert!(is_int(&cases[0].0, 1));
        }
        _ => panic!("expected a match statement"),
    }
}

#[test]
fn integer_overflow_is_an_error() {
    let (program, errors) = parse("x = 99999999999999999999");
    assert_eq!(errors.len(), 1);
    assert!(errors[0].contains("Epected type INT got 99999999999999999999 instead"), "{}", errors[0]);
    assert!(errors[0].starts_with("File:  Line "));
    assert!(matches!(&program.statements[0], Statement::VariableStatement(_, _, _, v) if matches!(v.as_ref(), Expression::EmptyExpression)));
}

#[test]
fn unexpected_token_is_an_error() {
    let (program, errors) = parse("match 5");
    assert_eq!(errors.len(), 1);
    assert!(errors[0].ends_with("Expected next token to be IDENT but got INT instead."), "{}", errors[0]);
    assert_eq!(program.statements.len(), 1);
    assert!(matches!(&program.statements[0], Statement::ExpressionStatement(_, e) if is_int(e, 5)));
}

#[test]
fn empty_input_gives_an_empty_program() {
    let (program, errors) = parse("");
    assert!(program.statements.is_empty());
    assert!(errors.is_empty());
}

#[test]
fn parsing_twice_gives_nothing_more() {
    let mut p = Parser::new(Lex::new("a\nb".to_string()));
    let first = p.parse_program();
    assert_eq!(first.statements.len(), 2);
    let second = p.parse_program();
    assert!(second.statements.is_empty());
}

#[test]
fn no_statement_is_empty() {
    let (program, _) = parse("match 5; ) ) x = 1");
    assert!(program.statements.iter().all(|s| !s.is_empty()));
}

#[test]
fn final_statement_of_a_block() {
    match only_expression("fn() { a\n b }") {
        Expression::Function(_, _, _, body) => {
            let last = body.get_final_stmt();
            assert!(matches!(last, Statement::ExpressionStatement(_, e) if is_ident(e, "b")));
        }
        _ => panic!("expected a function"),
    }
}

#[test]
fn statement_and_expression_helpers() {
    let (program, _) = parse("x = 1\nbreak");
    let first = &program.statements[0];
    assert_eq!(first.get_token().literal, "x");
    assert_eq!(first.variant_type(), "VariableStatement");
    assert!(first.eq(Statement::VariableStatement(
        token::new_token(token::IDENT, "y", "", 0, 0),
        Box::new(Expression::EmptyExpression),
        Box::new(Expression::EmptyExpression),
        Box::new(Expression::EmptyExpression),
    )));
    assert!(!program.statements[1].eq(Statement::EmptyStatement));
    assert!(Statement::EmptyStatement.is_empty());
    let e = Expression::Identifier(token::new_token(token::IDENT, "a", "", 0, 0), "a".to_string());
    assert_eq!(e.variant_type(), "Identifier");
    assert_eq!(e.get_token().typ, token::IDENT);
    assert!(!e.is_empty());
    assert!(Expression::EmptyExpression.is_empty());
}

#[test]
fn annotations_wrap_the_next_statement() {
    let (program, errors) = parse("@test x = 1");
    assert!(errors.is_empty(), "{:?}", errors);
    assert_eq!(program.statements.len(), 1);
    assert!(matches!(&program.statements[0], Statement::AnnotationStatement(_, a, s)
        if a == "@" && matches!(s.as_ref(), Statement::VariableStatement(..))));
}

#[test]
fn float_that_does_not_read_is_an_error() {
    let (program, errors) = parse("x = ½.5");
    assert_eq!(errors.len(), 1, "{:?}", errors);
    assert!(errors[0].contains("Epected type FLOAT got ½.5 instead"), "{}", errors[0]);
    assert!(matches!(&program.statements[0], Statement::VariableStatement(_, _, _, v) if matches!(v.as_ref(), Expression::EmptyExpression)));
}

#[test]
fn comments_become_comment_expressions() {
    let mut p = Parser::new(Lex::new("x = 1 // note".to_string()));
    let program = p.parse_program();
    assert!(p.get_errors().is_empty());
    assert_eq!(program.statements.len(), 2);
    assert!(matches!(&program.statements[1], Statement::ExpressionStatement(_, e)
        if matches!(e.as_ref(), Expression::CommentExpression(_, c) if c == "// note")));
}

#[test]
fn a_lone_integer_is_a_statement() {
    assert!(is_int(&only_expression("42"), 42));
    let (program, errors) = parse("7;");
    assert!(errors.is_empty());
    assert_eq!(program.statements.len(), 1);
    assert!(matches!(&program.statements[0], Statement::ExpressionStatement(_, e) if is_int(e, 7)));
}
