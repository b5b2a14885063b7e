use easyjs::lexer::lex::{read_all_tokens, Lex};
use easyjs::lexer::token;

fn types(input: &str) -> Vec<String> {
    read_all_tokens(input.to_string()).into_iter().map(|t| t.typ).collect()
}

#[test]
fn lexes_numbers_and_operators() {
    let tokens = read_all_tokens("1 2.5 + - * / == != <= >= ..".to_string());
    let kinds: Vec<&str> = tokens.iter().map(|t| t.typ.as_str()).collect();
    assert_eq!(
        kinds,
        vec![
            token::INT,
            token::FLOAT,
            token::PLUS,
            token::MINUS,
            token::ASTERISK,
            token::SLASH,
            token::EQ,
            token::NOT_EQ,
            token::LT_OR_EQ,
            token::GT_OR_EQ,
            token::DOTDOT
        ]
    );
    assert_eq!(tokens[1].literal, "2.5");
}

#[test]
fn lexes_keywords_and_identifiers() {
    let tokens = read_all_tokens("fn if else return for async await not break continue null name".to_string());
    let kinds: Vec<&str> = tokens.iter().map(|t| t.typ.as_str()).collect();
    assert_eq!(
        kinds,
        vec![
            token::FUNCTION,
            token::IF,
            token::ELSE,
            token::RETURN,
            token::FOR,
            token::ASYNC,
            token::AWAIT,
            token::NOT,
            token::BREAK,
            token::CONTINUE,
            token::NULL,
            token::IDENT
        ]
    );
    assert_eq!(tokens[11].literal, "name");
}

#[test]
fn lexes_strings_and_colon_assignments() {
    let tokens = read_all_tokens("x := 'hi' y: int \"a\\\"b\"".to_string());
    let kinds: Vec<&str> = tokens.iter().map(|t| t.typ.as_str()).collect();
    assert_eq!(
        kinds,
        vec![token::IDENT, token::TYPE_ASSIGNMENT, token::STRING, token::IDENT, token::COLON, token::IDENT, token::STRING]
    );
    assert_eq!(tokens[2].literal, "hi");
    assert_eq!(tokens[6].literal, "a\\\"b");
}

#[test]
fn comments_are_tokens() {
    let tokens = read_all_tokens("//this is a comment\nfn".to_string());
    assert_eq!(tokens.len(), 2);
    assert_eq!((tokens[0].typ.as_str(), tokens[0].literal.as_str()), ("//", "//this is a comment"));
    assert_eq!((tokens[1].typ.as_str(), tokens[1].literal.as_str()), ("FUNCTION", "fn"));
    assert_eq!(
        types("a // a comment\nb"),
        vec![token::IDENT.to_string(), token::COMMENT.to_string(), token::IDENT.to_string()]
    );
    let doc = read_all_tokens("/// docs".to_string());
    assert_eq!((doc[0].typ.as_str(), doc[0].literal.as_str()), ("///", " docs"));
}

#[test]
fn file_name_changes_only_the_file_of_tokens() {
    let src = "x := fn(a) { return a + 1 } // done\n javascript{ y }";
    let plain = read_all_tokens(src.to_string());
    let mut l = Lex::new_with_file(src.to_string(), "lib.ej".to_string());
    for t in &plain {
        let u = l.next_token();
        assert_eq!(u.file_name, "lib.ej");
        assert_eq!(t.file_name, "");
        assert_eq!((&u.typ, &u.literal, u.line_number, u.col_number), (&t.typ, &t.literal, t.line_number, t.col_number));
    }
}

#[test]
fn javascript_blocks_keep_their_body() {
    let tokens = read_all_tokens("javascript{ let a = {}; }".to_string());
    assert_eq!(tokens.len(), 1);
    assert_eq!(tokens[0].typ, token::JAVASCRIPT);
    assert_eq!(tokens[0].literal, "let a = {}; ");
}

#[test]
fn eof_is_stable() {
    let mut l = Lex::new("x".to_string());
    let t = l.next_token();
    assert_eq!(t.typ, token::IDENT);
    for _ in 0..3 {
        let e = l.next_token();
        assert_eq!(e.typ, token::EOF);
        assert_eq!(e.literal, "\0");
    }
}

#[test]
fn tokens_carry_the_file_name() {
    let mut l = Lex::new_with_file("a = 1".to_string(), "main.ej".to_string());
    for _ in 0..4 {
        let t = l.next_token();
        assert_eq!(t.file_name, "main.ej");
    }
}

#[test]
fn token_positions_count_lines() {
    let tokens = read_all_tokens("a\nb".to_string());
    assert_eq!(tokens.len(), 2);
    assert_eq!(tokens[0].line_number, 1);
    assert!(tokens[1].line_number > 1);
}

#[test]
fn keyword_lookup() {
    assert_eq!(token::lookup_ident("fn"), token::FUNCTION);
    assert_eq!(token::lookup_ident("match"), token::MATCH);
    assert_eq!(token::lookup_ident("and"), token::AND_SYMBOL);
    assert_eq!(token::lookup_ident("hello"), token::IDENT);
    assert_eq!(token::lookup_colon_special(":="), token::TYPE_ASSIGNMENT);
    assert_eq!(token::lookup_colon_special(":x"), token::COLON);
}

#[test]
fn new_token_keeps_its_fields() {
    let t = token::new_token(token::INT, "5", "f.ej", 3, 4);
    assert_eq!(t.typ, "INT");
    assert_eq!(t.literal, "5");
    assert_eq!(t.file_name, "f.ej");
    assert_eq!((t.line_number, t.col_number), (3, 4));
}

#[test]
fn illegal_characters() {
    let tokens = read_all_tokens("~".to_string());
    assert_eq!(tokens.len(), 1);
    assert_eq!(tokens[0].typ, token::ILLEGAL);
}

#[test]
fn string_literal_is_the_text_between_quotes() {
    let tokens = read_all_tokens("\"a b $c\"".to_string());
    assert_eq!(tokens.len(), 1);
    assert_eq!(tokens[0].typ, token::STRING);
    assert_eq!(tokens[0].literal, "a b $c");
}
