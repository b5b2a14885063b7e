use easyjs::lexer::lex::Lex;
use easyjs::parser::par::Parser;

#[test]
fn test_objects() {
    let src = r#"
assert := import("testing").assert

Person := class {
  name: string
  age: int
}

p := Person('Jordan', 24)
assert(p.name == 'Jordan')
assert(p.age == 24)
assert(Person.name == "")
assert(Person.age == 0)
        "#;
    let _ = src;
}

#[test]
fn objects_source_parses_into_statements() {
    let src = r#"
assert := import("testing").assert

Person := class {
  name: string
  age: int
}

p := Person('Jordan', 24)
assert(p.name == 'Jordan')
"#;
    let mut p = Parser::new(Lex::new(src.to_string()));
    let program = p.parse_program();
    assert!(program.statements.len() >= 4);
    assert!(p.errors.is_empty(), "{:?}", p.errors);
}
