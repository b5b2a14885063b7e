use easyjs::compiler::import::import_file;
use easyjs::compiler::macros::{Macro, MacroOutput};
use easyjs::compiler::runes::RuneParser;
use easyjs::compiler::transpile::string_interpolation;
use easyjs::errors;
use easyjs::lexer::token;
use easyjs::parser::ast::Statement;
use easyjs::parser::numbers::{is_float_syntax, parse_i64};
use easyjs::stdlib::load_std;
use easyjs::text::{before_char, replace, trim};
use easyjs::typechecker::{
    get_param_type_by_named_expression, get_param_type_by_string, get_param_type_by_string_ej,
    get_string_rep_of_type, get_name_from_ident, EJType,
};
use easyjs::parser::ast::Expression;

fn text_of(out: MacroOutput) -> String {
    match out {
        MacroOutput::Text(t) => t,
        MacroOutput::Evaluate(_, _) => panic!("expected text"),
    }
}

#[test]
fn macro_replaces_marked_parameters() {
    let m = Macro::new(
        "twice".to_string(),
        vec!["x".to_string(), "...rest".to_string(), "y=1".to_string()],
        Statement::EmptyStatement,
        false,
    );
    let out = m.compile(
        vec!["a".to_string(), "b, c".to_string()],
        "#x + #x; f(#rest); #y; x".to_string(),
    );
    assert_eq!(text_of(out), "a + a; f(b, c); ; x");
}

#[test]
fn macro_without_arguments_or_parameters_keeps_its_body() {
    let m = Macro::new("m".to_string(), vec!["x".to_string()], Statement::EmptyStatement, true);
    assert_eq!(text_of(m.compile(vec![], "#x".to_string())), "#x");
    let n = Macro::new("n".to_string(), vec![], Statement::EmptyStatement, true);
    assert_eq!(text_of(n.compile(vec!["1".to_string()], "#x".to_string())), "#x");
}

#[test]
fn hygienic_macro_is_evaluated() {
    let m = Macro::new("sq".to_string(), vec![" v ".to_string()], Statement::EmptyStatement, true);
    match m.compile(vec!["3".to_string()], "#v * #v".to_string()) {
        MacroOutput::Evaluate(script, name) => {
            assert_eq!(script, "3 * 3");
            assert_eq!(name, "<sq>");
        }
        MacroOutput::Text(_) => panic!("expected a script to evaluate"),
    }
}

#[test]
fn macro_body_without_marks_is_unchanged() {
    let m = Macro::new("m".to_string(), vec!["x".to_string()], Statement::EmptyStatement, false);
    assert_eq!(text_of(m.compile(vec!["1".to_string()], "x + x".to_string())), "x + x");
}

#[test]
fn imports_prefer_custom_libraries() {
    let libs = vec![("std".to_string(), "custom".to_string())];
    assert_eq!(import_file("std", &libs), Some("custom".to_string()));
    assert_eq!(import_file("math", &libs), Some(load_std("math")));
    assert_eq!(import_file("some/file.ej", &libs), None);
    assert_eq!(import_file("some/file.ej", &vec![]), None);
}

#[test]
fn standard_libraries() {
    assert!(load_std("std").contains("Get the last element of an array"));
    assert!(!load_std("html").is_empty());
    assert_eq!(load_std("nope"), "");
    assert_eq!(load_std("nat/strings"), "");
}

#[test]
fn runes_are_collected() {
    let rp = RuneParser::new("hi ${name} and ${a + {b}} but not \\${x}".to_string());
    assert_eq!(rp.expressions, vec!["name".to_string(), "a + {b}".to_string()]);
    let mut adjacent = RuneParser::new("${a}${b}".to_string());
    assert_eq!(adjacent.get_expressions(), &vec!["a".to_string(), "b".to_string()]);
    adjacent.parse();
    assert_eq!(adjacent.get_expressions(), &vec!["a".to_string(), "b".to_string()]);
    let none = RuneParser::new("plain $text".to_string());
    assert!(none.expressions.is_empty());
}

#[test]
fn interpolation_wraps_names() {
    assert_eq!(string_interpolation("hello $name!"), "hello ${name}!");
    assert_eq!(string_interpolation("$a$b"), "${a}${b}");
    assert_eq!(string_interpolation("cost \\$5"), "cost \\$5");
    assert_eq!(string_interpolation("${x}"), "${x}");
    assert_eq!(string_interpolation("no dollar here"), "no dollar here");
    assert_eq!(string_interpolation("cost $"), "cost ${}");
}

#[test]
fn integer_literals() {
    assert_eq!(parse_i64("42"), Some(42));
    assert_eq!(parse_i64("+7"), Some(7));
    assert_eq!(parse_i64("-9223372036854775808"), Some(i64::MIN));
    assert_eq!(parse_i64("9223372036854775807"), Some(i64::MAX));
    assert_eq!(parse_i64("9223372036854775808"), None);
    assert_eq!(parse_i64(""), None);
    assert_eq!(parse_i64("-"), None);
    assert_eq!(parse_i64("12a"), None);
    assert_eq!(parse_i64(" 1"), None);
    for s in ["0", "-0", "123", "-123", "+99", "x", "1_000", "٣"] {
        assert_eq!(parse_i64(s), s.parse::<i64>().ok(), "{}", s);
    }
}

#[test]
fn float_literals() {
    for s in [
        "1.5", ".5", "5.", ".", "1e10", "1e", "inf", "-Infinity", "NaN", "1.2.3", "", "+.5e-3",
        "e5", "1E+7", "infinit", "٣.٣", " 1.0",
    ] {
        assert_eq!(is_float_syntax(s), s.parse::<f64>().is_ok(), "{}", s);
    }
}

#[test]
fn text_helpers() {
    assert_eq!(trim("  a b \t\n"), "a b");
    assert_eq!(trim(" \u{3000}x\u{2003}"), "x");
    assert_eq!(trim(""), "");
    assert_eq!(before_char("key=value=x", '='), "key");
    assert_eq!(before_char("novalue", '='), "novalue");
    assert_eq!(replace("aaa", "aa", "b"), "ba");
    assert_eq!(replace("abcabc", "bc", ""), "aa");
    assert_eq!(replace("xyz", "q", "r"), "xyz");
}

#[test]
fn type_names() {
    assert_eq!(get_param_type_by_string("int"), EJType::Int);
    assert_eq!(get_param_type_by_string("nonsense"), EJType::NotSupported);
    assert_ne!(get_param_type_by_string_ej("nonsense"), EJType::NotSupported);
    assert_eq!(get_param_type_by_string_ej("dyn"), EJType::Dynamic);
    assert_eq!(get_param_type_by_string_ej("nonsense"), EJType::NoneType);
    assert_eq!(get_string_rep_of_type(&EJType::Int), "int");
    let tk = token::new_token(token::IDENT, "x", "", 1, 1);
    let ty = Expression::Type(tk.clone(), "int".to_string());
    assert_eq!(get_param_type_by_named_expression(Expression::Type(tk.clone(), "int".to_string())), EJType::Int);
    let typed = Expression::IdentifierWithType(tk.clone(), "x".to_string(), Box::new(ty));
    assert_eq!(get_param_type_by_named_expression(typed), EJType::Int);
    assert_eq!(
        get_param_type_by_named_expression(Expression::EmptyExpression),
        EJType::NotSupported
    );
    let ident = Expression::Identifier(tk, "x".to_string());
    assert_eq!(get_name_from_ident(&ident), Ok("x".to_string()));
    assert_eq!(get_name_from_ident(&Expression::EmptyExpression), Err("Not an identifier"));
}

#[test]
fn native_error_messages() {
    let tk = token::new_token(token::IDENT, "x", "main.ej", 3, 7);
    assert_eq!(
        errors::make_native_error(&tk, "boom"),
        "File: main.ej at line: 3 and col: 7. ERROR Native: boom. Token details: type: IDENT, literal: x"
    );
    assert_eq!(
        errors::native_unsupported_statement(&tk),
        "File: main.ej at line: 3 and col: 7. ERROR Native: Unsupported statement. Token details: type: IDENT, literal: x"
    );
}

#[test]
fn one_plain_rune_is_found() {
    let rp = RuneParser::new("${a + b}".to_string());
    assert_eq!(rp.expressions, vec!["a + b".to_string()]);
    let none = RuneParser::new("no runes at all".to_string());
    assert!(none.get_expressions().is_empty());
}

#[test]
fn macro_values_from_the_runtime() {
    let text = MacroOutput::Text("a + b".to_string());
    assert_eq!(text.value(-1, None), "a + b");
    let failed = MacroOutput::Evaluate("1 +".to_string(), "<m>".to_string());
    assert_eq!(failed.value(-1, None), "");
    let ok = MacroOutput::Evaluate("1 + 1".to_string(), "<m>".to_string());
    assert_eq!(ok.value(3, Some("2".to_string())), "2");
}
