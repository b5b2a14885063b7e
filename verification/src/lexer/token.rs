//! easyjs tokens: their types, and the keyword tables.
use vstd::prelude::*;
use crate::text::str_eq;

verus! {

/// An easyjs compiler token.
#[derive(Debug, Clone)]
pub struct Token {
    /// The type of token (in string)
    pub typ: String,
    /// The token literal
    pub literal: String,
    /// The file name this token is in.
    pub file_name: String,
    /// The line number of the token.
    pub line_number: i32,
    /// The col number the token starts
    pub col_number: i32,
}

/// The mathematical content of a token.
pub struct TokenView {
    pub typ: Seq<char>,
    pub literal: Seq<char>,
    pub file_name: Seq<char>,
    pub line_number: int,
    pub col_number: int,
}

impl View for Token {
    type V = TokenView;

    open spec fn view(&self) -> TokenView {
        TokenView {
            typ: self.typ@,
            literal: self.literal@,
            file_name: self.file_name@,
            line_number: self.line_number as int,
            col_number: self.col_number as int,
        }
    }
}

impl Token {
    /// A copy of the token with the same content.
    pub fn copy_token(&self) -> (r: Token)
        ensures
            r@ == self@,
    {
        Token {
            typ: self.typ.clone(),
            literal: self.literal.clone(),
            file_name: self.file_name.clone(),
            line_number: self.line_number,
            col_number: self.col_number,
        }
    }
}

/// Create a new token on the fly
pub fn new_token(typ: &str, literal: &str, file_name: &str, line_number: i32, col_number: i32) -> (r: Token)
    ensures
        r@ == (TokenView {
            typ: typ@,
            literal: literal@,
            file_name: file_name@,
            line_number: line_number as int,
            col_number: col_number as int,
        }),
{
    Token {
        typ: typ.to_owned(),
        literal: literal.to_owned(),
        file_name: file_name.to_owned(),
        line_number,
        col_number,
    }
}
// Token types
pub const ILLEGAL: &'static str = "ILLEGAL";
pub const EOF: &'static str = "EOF";

// Identifiers and literals
pub const IDENT: &'static str = "IDENT";
pub const INT: &'static str = "INT";
pub const STRING: &'static str = "STRING";
pub const ARRAY: &'static str = "ARRAY";
pub const BOOLEAN: &'static str = "BOOLEAN";
pub const FLOAT: &'static str = "FLOAT";

// Operators
pub const ASSIGN: &'static str = "=";
pub const COLON: &'static str = ":";
pub const PLUS: &'static str = "+";
pub const MINUS: &'static str = "-";
pub const BANG: &'static str = "!";
pub const ASTERISK: &'static str = "*";
pub const SLASH: &'static str = "/";
pub const LT: &'static str = "<";
pub const GT: &'static str = ">";
pub const EQ: &'static str = "==";
pub const NOT_EQ: &'static str = "!=";
pub const GT_OR_EQ: &'static str = ">=";
pub const LT_OR_EQ: &'static str = "<=";
pub const DOT: &'static str = ".";
pub const DOTDOT: &'static str = "..";
pub const BITWISE_AND: &'static str = "&";
pub const BITWISE_OR: &'static str = "|";
pub const AND_SYMBOL: &'static str = "&&";
pub const OR_SYMBOL: &'static str = "||";
pub const QUESTION_MARK: &'static str = "?";
pub const DOUBLE_QUESTION_MARK: &'static str = "??";
pub const MODULUS: &'static str = "%";
pub const PLUS_EQUALS: &'static str = "+=";
pub const MINUS_EQUALS: &'static str = "-=";
pub const SLASH_EQUALS: &'static str = "/=";
pub const ASTERISK_EQUALS: &'static str = "*=";
pub const SPREAD: &'static str = "...";

// Delimiters
pub const COMMA: &'static str = ",";
pub const SEMICOLON: &'static str = ";";
pub const EOL: &'static str = "EOL";

// Specials
pub const TYPE_ASSIGNMENT: &'static str = "TYPE_ASSIGNMENT";

// Comments
pub const COMMENT: &'static str = "//";
pub const DOC_COMMENT: &'static str = "///";

// Brackets
pub const L_PAREN: &'static str = "(";
pub const R_PAREN: &'static str = ")";
pub const L_BRACE: &'static str = "{";
pub const R_BRACE: &'static str = "}";
pub const L_BRACKET: &'static str = "[";
pub const R_BRACKET: &'static str = "]";

// Annotations
pub const MACRO_SYMBOL: &'static str = "MACRO_SYMBOL";

// Keywords
pub const FUNCTION: &'static str = "FUNCTION";
pub const STRUCT: &'static str = "STRUCT";
pub const TRUE: &'static str = "TRUE";
pub const FALSE: &'static str = "FALSE";
pub const IF: &'static str = "IF";
pub const ELSE: &'static str = "ELSE";
pub const ELIF: &'static str = "ELIF";
pub const RETURN: &'static str = "RETURN";
pub const AS: &'static str = "AS";
pub const JAVASCRIPT: &'static str = "JAVASCRIPT";
pub const FOR: &'static str = "FOR";
pub const IN: &'static str = "IN";
pub const OF: &'static str = "OF";
pub const ASYNC: &'static str = "ASYNC";
pub const AWAIT: &'static str = "AWAIT";
pub const NOT: &'static str = "NOT";
pub const SELF: &'static str = "SELF";
pub const NATIVE: &'static str = "NATIVE";
pub const MACRO: &'static str = "MACRO";
pub const NEW: &'static str = "NEW";
pub const IS: &'static str = "IS";
pub const PUB: &'static str = "PUB";
pub const MATCH: &'static str = "MATCH";
pub const WITH: &'static str = "WITH";
pub const IMPORT: &'static str = "IMPORT";
pub const ENUM: &'static str = "ENUM";
pub const BREAK: &'static str = "BREAK";
pub const CONTINUE: &'static str = "CONTINUE";
pub const NULL: &'static str = "NULL";
pub const CLASS: &'static str = "CLASS";
pub const THIS: &'static str = "THIS";
pub const RETURN_TYPE: &'static str = "RETURN_TYPE";

// Builtin methods
pub const BUILTIN: &'static str = "BUILTIN";

/// The `:=` token: a constant (and typed) assignment.
pub const CONSTANT_ASSIGNMENT: &'static str = TYPE_ASSIGNMENT;

/// The `@` token that starts an annotation.
pub const ANNOTATOR: &'static str = MACRO_SYMBOL;

/// The token type of a word: the keyword's type, or `IDENT` for any other word.
pub open spec fn spec_lookup_ident(ident: Seq<char>) -> Seq<char> {
    if ident == "fn"@ {
        FUNCTION@
    } else if ident == "struct"@ {
        STRUCT@
    } else if ident == "true"@ {
        TRUE@
    } else if ident == "false"@ {
        FALSE@
    } else if ident == "if"@ {
        IF@
    } else if ident == "else"@ {
        ELSE@
    } else if ident == "elif"@ {
        ELIF@
    } else if ident == "return"@ {
        RETURN@
    } else {
        spec_lookup_words_b(ident)
    }
}

/// Continuation of the keyword table.
pub open spec fn spec_lookup_words_b(ident: Seq<char>) -> Seq<char> {
    if ident == "as"@ {
        AS@
    } else if ident == "javascript"@ {
        JAVASCRIPT@
    } else if ident == "in"@ {
        IN@
    } else if ident == "for"@ {
        FOR@
    } else if ident == "of"@ {
        OF@
    } else if ident == "async"@ {
        ASYNC@
    } else if ident == "await"@ {
        AWAIT@
    } else if ident == "not"@ {
        NOT@
    } else {
        spec_lookup_words_c(ident)
    }
}

/// Continuation of the keyword table.
pub open spec fn spec_lookup_words_c(ident: Seq<char>) -> Seq<char> {
    if ident == "enum"@ {
        ENUM@
    } else if ident == "self"@ {
        SELF@
    } else if ident == "native"@ {
        NATIVE@
    } else if ident == "macro"@ {
        MACRO@
    } else if ident == "and"@ {
        AND_SYMBOL@
    } else if ident == "or"@ {
        OR_SYMBOL@
    } else if ident == "new"@ {
        NEW@
    } else if ident == "pub"@ {
        PUB@
    } else {
        spec_lookup_words_d(ident)
    }
}

/// Continuation of the keyword table.
pub open spec fn spec_lookup_words_d(ident: Seq<char>) -> Seq<char> {
    if ident == "is"@ {
        IS@
    } else if ident == "import"@ {
        IMPORT@
    } else if ident == "match"@ {
        MATCH@
    } else if ident == "with"@ {
        WITH@
    } else if ident == "break"@ {
        BREAK@
    } else if ident == "continue"@ {
        CONTINUE@
    } else if ident == "null"@ {
        NULL@
    } else if ident == "class"@ {
        CLASS@
    } else {
        IDENT@
    }
}

/// Lookup the ident based on a string
pub fn lookup_ident(ident: &str) -> (r: &'static str)
    ensures
        r@ == spec_lookup_ident(ident@),
{
    if str_eq(ident, "fn") {
        FUNCTION
    } else if str_eq(ident, "struct") {
        STRUCT
    } else if str_eq(ident, "true") {
        TRUE
    } else if str_eq(ident, "false") {
        FALSE
    } else if str_eq(ident, "if") {
        IF
    } else if str_eq(ident, "else") {
        ELSE
    } else if str_eq(ident, "elif") {
        ELIF
    } else if str_eq(ident, "return") {
        RETURN
    } else {
        lookup_words_b(ident)
    }
}

fn lookup_words_b(ident: &str) -> (r: &'static str)
    ensures
        r@ == spec_lookup_words_b(ident@),
{
    if str_eq(ident, "as") {
        AS
    } else if str_eq(ident, "javascript") {
        JAVASCRIPT
    } else if str_eq(ident, "in") {
        IN
    } else if str_eq(ident, "for") {
        FOR
    } else if str_eq(ident, "of") {
        OF
    } else if str_eq(ident, "async") {
        ASYNC
    } else if str_eq(ident, "await") {
        AWAIT
    } else if str_eq(ident, "not") {
        NOT
    } else {
        lookup_words_c(ident)
    }
}

fn lookup_words_c(ident: &str) -> (r: &'static str)
    ensures
        r@ == spec_lookup_words_c(ident@),
{
    if str_eq(ident, "enum") {
        ENUM
    } else if str_eq(ident, "self") {
        SELF
    } else if str_eq(ident, "native") {
        NATIVE
    } else if str_eq(ident, "macro") {
        MACRO
    } else if str_eq(ident, "and") {
        AND_SYMBOL
    } else if str_eq(ident, "or") {
        OR_SYMBOL
    } else if str_eq(ident, "new") {
        NEW
    } else if str_eq(ident, "pub") {
        PUB
    } else {
        lookup_words_d(ident)
    }
}

fn lookup_words_d(ident: &str) -> (r: &'static str)
    ensures
        r@ == spec_lookup_words_d(ident@),
{
    if str_eq(ident, "is") {
        IS
    } else if str_eq(ident, "import") {
        IMPORT
    } else if str_eq(ident, "match") {
        MATCH
    } else if str_eq(ident, "with") {
        WITH
    } else if str_eq(ident, "break") {
        BREAK
    } else if str_eq(ident, "continue") {
        CONTINUE
    } else if str_eq(ident, "null") {
        NULL
    } else if str_eq(ident, "class") {
        CLASS
    } else {
        IDENT
    }
}

/// The token type of a two-character sequence that starts with `:`.
pub open spec fn spec_lookup_colon_special(cs: Seq<char>) -> Seq<char> {
    if cs == ":="@ {
        TYPE_ASSIGNMENT@
    } else {
        COLON@
    }
}

/// Lookup the colon special if any.
pub fn lookup_colon_special(cs: &str) -> (r: &'static str)
    ensures
        r@ == spec_lookup_colon_special(cs@),
{
    if str_eq(cs, ":=") {
        TYPE_ASSIGNMENT
    } else {
        COLON
    }
}

/// The type `EOF` differs from every other token type.
pub proof fn lemma_eof_is_distinct()
    ensures
        ILLEGAL@ != EOF@,
        IDENT@ != EOF@,
        INT@ != EOF@,
        STRING@ != EOF@,
        ARRAY@ != EOF@,
        BOOLEAN@ != EOF@,
        FLOAT@ != EOF@,
        ASSIGN@ != EOF@,
        COLON@ != EOF@,
        PLUS@ != EOF@,
        MINUS@ != EOF@,
        BANG@ != EOF@,
        ASTERISK@ != EOF@,
        SLASH@ != EOF@,
        LT@ != EOF@,
        GT@ != EOF@,
        EQ@ != EOF@,
        NOT_EQ@ != EOF@,
        GT_OR_EQ@ != EOF@,
        LT_OR_EQ@ != EOF@,
        DOT@ != EOF@,
        DOTDOT@ != EOF@,
        BITWISE_AND@ != EOF@,
        BITWISE_OR@ != EOF@,
        AND_SYMBOL@ != EOF@,
        OR_SYMBOL@ != EOF@,
        QUESTION_MARK@ != EOF@,
        DOUBLE_QUESTION_MARK@ != EOF@,
        MODULUS@ != EOF@,
        PLUS_EQUALS@ != EOF@,
        MINUS_EQUALS@ != EOF@,
        SLASH_EQUALS@ != EOF@,
        ASTERISK_EQUALS@ != EOF@,
        SPREAD@ != EOF@,
        COMMA@ != EOF@,
        SEMICOLON@ != EOF@,
        EOL@ != EOF@,
        TYPE_ASSIGNMENT@ != EOF@,
        COMMENT@ != EOF@,
        DOC_COMMENT@ != EOF@,
        L_PAREN@ != EOF@,
        R_PAREN@ != EOF@,
        L_BRACE@ != EOF@,
        R_BRACE@ != EOF@,
        L_BRACKET@ != EOF@,
        R_BRACKET@ != EOF@,
        MACRO_SYMBOL@ != EOF@,
        FUNCTION@ != EOF@,
        STRUCT@ != EOF@,
        TRUE@ != EOF@,
        FALSE@ != EOF@,
        IF@ != EOF@,
        ELSE@ != EOF@,
        ELIF@ != EOF@,
        RETURN@ != EOF@,
        AS@ != EOF@,
        JAVASCRIPT@ != EOF@,
        FOR@ != EOF@,
        IN@ != EOF@,
        OF@ != EOF@,
        ASYNC@ != EOF@,
        AWAIT@ != EOF@,
        NOT@ != EOF@,
        SELF@ != EOF@,
        NATIVE@ != EOF@,
        MACRO@ != EOF@,
        NEW@ != EOF@,
        IS@ != EOF@,
        PUB@ != EOF@,
        MATCH@ != EOF@,
        WITH@ != EOF@,
        IMPORT@ != EOF@,
        ENUM@ != EOF@,
        BREAK@ != EOF@,
        CONTINUE@ != EOF@,
        NULL@ != EOF@,
        CLASS@ != EOF@,
        THIS@ != EOF@,
        RETURN_TYPE@ != EOF@,
        BUILTIN@ != EOF@,
        COMMENT@ != EOF@,
        JAVASCRIPT@ != COMMENT@,
{
    reveal_strlit("EOF");
    assert(EOF@.len() == 3);
    reveal_strlit("ILLEGAL");
    assert(ILLEGAL@.len() == 7);
    reveal_strlit("IDENT");
    assert(IDENT@.len() == 5);
    reveal_strlit("INT");
    assert(INT@.len() == 3);
    assert(INT@[0] != EOF@[0]);
    reveal_strlit("STRING");
    assert(STRING@.len() == 6);
    reveal_strlit("ARRAY");
    assert(ARRAY@.len() == 5);
    reveal_strlit("BOOLEAN");
    assert(BOOLEAN@.len() == 7);
    reveal_strlit("FLOAT");
    assert(FLOAT@.len() == 5);
    reveal_strlit("=");
    assert(ASSIGN@.len() == 1);
    reveal_strlit(":");
    assert(COLON@.len() == 1);
    reveal_strlit("+");
    assert(PLUS@.len() == 1);
    reveal_strlit("-");
    assert(MINUS@.len() == 1);
    reveal_strlit("!");
    assert(BANG@.len() == 1);
    reveal_strlit("*");
    assert(ASTERISK@.len() == 1);
    reveal_strlit("/");
    assert(SLASH@.len() == 1);
    reveal_strlit("<");
    assert(LT@.len() == 1);
    reveal_strlit(">");
    assert(GT@.len() == 1);
    reveal_strlit("==");
    assert(EQ@.len() == 2);
    reveal_strlit("!=");
    assert(NOT_EQ@.len() == 2);
    reveal_strlit(">=");
    assert(GT_OR_EQ@.len() == 2);
    reveal_strlit("<=");
    assert(LT_OR_EQ@.len() == 2);
    reveal_strlit(".");
    assert(DOT@.len() == 1);
    reveal_strlit("..");
    assert(DOTDOT@.len() == 2);
    reveal_strlit("&");
    assert(BITWISE_AND@.len() == 1);
    reveal_strlit("|");
    assert(BITWISE_OR@.len() == 1);
    reveal_strlit("&&");
    assert(AND_SYMBOL@.len() == 2);
    reveal_strlit("||");
    assert(OR_SYMBOL@.len() == 2);
    reveal_strlit("?");
    assert(QUESTION_MARK@.len() == 1);
    reveal_strlit("??");
    assert(DOUBLE_QUESTION_MARK@.len() == 2);
    reveal_strlit("%");
    assert(MODULUS@.len() == 1);
    reveal_strlit("+=");
    assert(PLUS_EQUALS@.len() == 2);
    reveal_strlit("-=");
    assert(MINUS_EQUALS@.len() == 2);
    reveal_strlit("/=");
    assert(SLASH_EQUALS@.len() == 2);
    reveal_strlit("*=");
    assert(ASTERISK_EQUALS@.len() == 2);
    reveal_strlit("...");
    assert(SPREAD@.len() == 3);
    assert(SPREAD@[0] != EOF@[0]);
    reveal_strlit(",");
    assert(COMMA@.len() == 1);
    reveal_strlit(";");
    assert(SEMICOLON@.len() == 1);
    reveal_strlit("EOL");
    assert(EOL@.len() == 3);
    assert(EOL@[2] != EOF@[2]);
    reveal_strlit("TYPE_ASSIGNMENT");
    assert(TYPE_ASSIGNMENT@.len() == 15);
    reveal_strlit("//");
    assert(COMMENT@.len() == 2);
    reveal_strlit("///");
    assert(DOC_COMMENT@.len() == 3);
    assert(DOC_COMMENT@[0] != EOF@[0]);
    reveal_strlit("(");
    assert(L_PAREN@.len() == 1);
    reveal_strlit(")");
    assert(R_PAREN@.len() == 1);
    reveal_strlit("{");
    assert(L_BRACE@.len() == 1);
    reveal_strlit("}");
    assert(R_BRACE@.len() == 1);
    reveal_strlit("[");
    assert(L_BRACKET@.len() == 1);
    reveal_strlit("]");
    assert(R_BRACKET@.len() == 1);
    reveal_strlit("MACRO_SYMBOL");
    assert(MACRO_SYMBOL@.len() == 12);
    reveal_strlit("FUNCTION");
    assert(FUNCTION@.len() == 8);
    reveal_strlit("STRUCT");
    assert(STRUCT@.len() == 6);
    reveal_strlit("TRUE");
    assert(TRUE@.len() == 4);
    reveal_strlit("FALSE");
    assert(FALSE@.len() == 5);
    reveal_strlit("IF");
    assert(IF@.len() == 2);
    reveal_strlit("ELSE");
    assert(ELSE@.len() == 4);
    reveal_strlit("ELIF");
    assert(ELIF@.len() == 4);
    reveal_strlit("RETURN");
    assert(RETURN@.len() == 6);
    reveal_strlit("AS");
    assert(AS@.len() == 2);
    reveal_strlit("JAVASCRIPT");
    assert(JAVASCRIPT@.len() == 10);
    reveal_strlit("FOR");
    assert(FOR@.len() == 3);
    assert(FOR@[0] != EOF@[0]);
    reveal_strlit("IN");
    assert(IN@.len() == 2);
    reveal_strlit("OF");
    assert(OF@.len() == 2);
    reveal_strlit("ASYNC");
    assert(ASYNC@.len() == 5);
    reveal_strlit("AWAIT");
    assert(AWAIT@.len() == 5);
    reveal_strlit("NOT");
    assert(NOT@.len() == 3);
    assert(NOT@[0] != EOF@[0]);
    reveal_strlit("SELF");
    assert(SELF@.len() == 4);
    reveal_strlit("NATIVE");
    assert(NATIVE@.len() == 6);
    reveal_strlit("MACRO");
    assert(MACRO@.len() == 5);
    reveal_strlit("NEW");
    assert(NEW@.len() == 3);
    assert(NEW@[0] != EOF@[0]);
    reveal_strlit("IS");
    assert(IS@.len() == 2);
    reveal_strlit("PUB");
    assert(PUB@.len() == 3);
    assert(PUB@[0] != EOF@[0]);
    reveal_strlit("MATCH");
    assert(MATCH@.len() == 5);
    reveal_strlit("WITH");
    assert(WITH@.len() == 4);
    reveal_strlit("IMPORT");
    assert(IMPORT@.len() == 6);
    reveal_strlit("ENUM");
    assert(ENUM@.len() == 4);
    reveal_strlit("BREAK");
    assert(BREAK@.len() == 5);
    reveal_strlit("CONTINUE");
    assert(CONTINUE@.len() == 8);
    reveal_strlit("NULL");
    assert(NULL@.len() == 4);
    reveal_strlit("CLASS");
    assert(CLASS@.len() == 5);
    reveal_strlit("THIS");
    assert(THIS@.len() == 4);
    reveal_strlit("RETURN_TYPE");
    assert(RETURN_TYPE@.len() == 11);
    reveal_strlit("BUILTIN");
    assert(BUILTIN@.len() == 7);
}

/// A word never lexes as `EOF`.
pub proof fn lemma_lookup_not_eof(ident: Seq<char>)
    ensures
        spec_lookup_ident(ident) != EOF@,
        spec_lookup_colon_special(ident) != EOF@,
{
    lemma_eof_is_distinct();
}


/// The keywords of easyjs: each keyword gives its own token type, and every other word is an
/// identifier.
pub proof fn lemma_keywords(word: Seq<char>)
    ensures
        spec_lookup_ident("fn"@) == FUNCTION@,
        spec_lookup_ident("struct"@) == STRUCT@,
        spec_lookup_ident("true"@) == TRUE@,
        spec_lookup_ident("false"@) == FALSE@,
        spec_lookup_ident("if"@) == IF@,
        spec_lookup_ident("else"@) == ELSE@,
        spec_lookup_ident("elif"@) == ELIF@,
        spec_lookup_ident("return"@) == RETURN@,
        spec_lookup_ident("as"@) == AS@,
        spec_lookup_ident("javascript"@) == JAVASCRIPT@,
        spec_lookup_ident("in"@) == IN@,
        spec_lookup_ident("for"@) == FOR@,
        spec_lookup_ident("of"@) == OF@,
        spec_lookup_ident("async"@) == ASYNC@,
        spec_lookup_ident("await"@) == AWAIT@,
        spec_lookup_ident("not"@) == NOT@,
        spec_lookup_ident("enum"@) == ENUM@,
        spec_lookup_ident("self"@) == SELF@,
        spec_lookup_ident("native"@) == NATIVE@,
        spec_lookup_ident("macro"@) == MACRO@,
        spec_lookup_ident("and"@) == AND_SYMBOL@,
        spec_lookup_ident("or"@) == OR_SYMBOL@,
        spec_lookup_ident("new"@) == NEW@,
        spec_lookup_ident("pub"@) == PUB@,
        spec_lookup_ident("is"@) == IS@,
        spec_lookup_ident("import"@) == IMPORT@,
        spec_lookup_ident("match"@) == MATCH@,
        spec_lookup_ident("with"@) == WITH@,
        spec_lookup_ident("break"@) == BREAK@,
        spec_lookup_ident("continue"@) == CONTINUE@,
        spec_lookup_ident("null"@) == NULL@,
        spec_lookup_ident("class"@) == CLASS@,
        word != "fn"@ && word != "struct"@ && word != "true"@ && word != "false"@ && word != "if"@ && word != "else"@ && word != "elif"@ && word != "return"@ && word != "as"@ && word != "javascript"@ && word != "in"@ && word != "for"@ && word != "of"@ && word != "async"@ && word != "await"@ && word != "not"@ && word != "enum"@ && word != "self"@ && word != "native"@ && word != "macro"@ && word != "and"@ && word != "or"@ && word != "new"@ && word != "pub"@ && word != "is"@ && word != "import"@ && word != "match"@ && word != "with"@ && word != "break"@ && word != "continue"@ && word != "null"@ && word != "class"@ ==> spec_lookup_ident(word) == IDENT@,
        spec_lookup_colon_special(":="@) == TYPE_ASSIGNMENT@,
        word != ":="@ ==> spec_lookup_colon_special(word) == COLON@,
{
    reveal_strlit("fn");
    reveal_strlit("struct");
    reveal_strlit("true");
    reveal_strlit("false");
    reveal_strlit("if");
    reveal_strlit("else");
    reveal_strlit("elif");
    reveal_strlit("return");
    reveal_strlit("as");
    reveal_strlit("javascript");
    reveal_strlit("in");
    reveal_strlit("for");
    reveal_strlit("of");
    reveal_strlit("async");
    reveal_strlit("await");
    reveal_strlit("not");
    reveal_strlit("enum");
    reveal_strlit("self");
    reveal_strlit("native");
    reveal_strlit("macro");
    reveal_strlit("and");
    reveal_strlit("or");
    reveal_strlit("new");
    reveal_strlit("pub");
    reveal_strlit("is");
    reveal_strlit("import");
    reveal_strlit("match");
    reveal_strlit("with");
    reveal_strlit("break");
    reveal_strlit("continue");
    reveal_strlit("null");
    reveal_strlit("class");
    assert("fn"@.len() == 2);
    assert("struct"@.len() == 6);
    assert("true"@.len() == 4);
    assert("false"@.len() == 5);
    assert("if"@.len() == 2);
    assert("else"@.len() == 4);
    assert("elif"@.len() == 4);
    assert("return"@.len() == 6);
    assert("as"@.len() == 2);
    assert("javascript"@.len() == 10);
    assert("in"@.len() == 2);
    assert("for"@.len() == 3);
    assert("of"@.len() == 2);
    assert("async"@.len() == 5);
    assert("await"@.len() == 5);
    assert("not"@.len() == 3);
    assert("enum"@.len() == 4);
    assert("self"@.len() == 4);
    assert("native"@.len() == 6);
    assert("macro"@.len() == 5);
    assert("and"@.len() == 3);
    assert("or"@.len() == 2);
    assert("new"@.len() == 3);
    assert("pub"@.len() == 3);
    assert("is"@.len() == 2);
    assert("import"@.len() == 6);
    assert("match"@.len() == 5);
    assert("with"@.len() == 4);
    assert("break"@.len() == 5);
    assert("continue"@.len() == 8);
    assert("null"@.len() == 4);
    assert("class"@.len() == 5);
    assert("if"@[0] != "fn"@[0]);
    assert("else"@[0] != "true"@[0]);
    assert("elif"@[0] != "true"@[0]);
    assert("elif"@[2] != "else"@[2]);
    assert("return"@[0] != "struct"@[0]);
    assert("as"@[0] != "fn"@[0]);
    assert("as"@[0] != "if"@[0]);
    assert("in"@[0] != "fn"@[0]);
    assert("in"@[1] != "if"@[1]);
    assert("in"@[0] != "as"@[0]);
    assert("of"@[0] != "fn"@[0]);
    assert("of"@[0] != "if"@[0]);
    assert("of"@[0] != "as"@[0]);
    assert("of"@[0] != "in"@[0]);
    assert("async"@[0] != "false"@[0]);
    assert("await"@[0] != "false"@[0]);
    assert("await"@[1] != "async"@[1]);
    assert("not"@[0] != "for"@[0]);
    assert("enum"@[0] != "true"@[0]);
    assert("enum"@[1] != "else"@[1]);
    assert("enum"@[1] != "elif"@[1]);
    assert("self"@[0] != "true"@[0]);
    assert("self"@[0] != "else"@[0]);
    assert("self"@[0] != "elif"@[0]);
    assert("self"@[0] != "enum"@[0]);
    assert("native"@[0] != "struct"@[0]);
    assert("native"@[0] != "return"@[0]);
    assert("macro"@[0] != "false"@[0]);
    assert("macro"@[0] != "async"@[0]);
    assert("macro"@[0] != "await"@[0]);
    assert("and"@[0] != "for"@[0]);
    assert("and"@[0] != "not"@[0]);
    assert("or"@[0] != "fn"@[0]);
    assert("or"@[0] != "if"@[0]);
    assert("or"@[0] != "as"@[0]);
    assert("or"@[0] != "in"@[0]);
    assert("or"@[1] != "of"@[1]);
    assert("new"@[0] != "for"@[0]);
    assert("new"@[1] != "not"@[1]);
    assert("new"@[0] != "and"@[0]);
    assert("pub"@[0] != "for"@[0]);
    assert("pub"@[0] != "not"@[0]);
    assert("pub"@[0] != "and"@[0]);
    assert("pub"@[0] != "new"@[0]);
    assert("is"@[0] != "fn"@[0]);
    assert("is"@[1] != "if"@[1]);
    assert("is"@[0] != "as"@[0]);
    assert("is"@[1] != "in"@[1]);
    assert("is"@[0] != "of"@[0]);
    assert("is"@[0] != "or"@[0]);
    assert("import"@[0] != "struct"@[0]);
    assert("import"@[0] != "return"@[0]);
    assert("import"@[0] != "native"@[0]);
    assert("match"@[0] != "false"@[0]);
    assert("match"@[0] != "async"@[0]);
    assert("match"@[0] != "await"@[0]);
    assert("match"@[2] != "macro"@[2]);
    assert("with"@[0] != "true"@[0]);
    assert("with"@[0] != "else"@[0]);
    assert("with"@[0] != "elif"@[0]);
    assert("with"@[0] != "enum"@[0]);
    assert("with"@[0] != "self"@[0]);
    assert("break"@[0] != "false"@[0]);
    assert("break"@[0] != "async"@[0]);
    assert("break"@[0] != "await"@[0]);
    assert("break"@[0] != "macro"@[0]);
    assert("break"@[0] != "match"@[0]);
    assert("null"@[0] != "true"@[0]);
    assert("null"@[0] != "else"@[0]);
    assert("null"@[0] != "elif"@[0]);
    assert("null"@[0] != "enum"@[0]);
    assert("null"@[0] != "self"@[0]);
    assert("null"@[0] != "with"@[0]);
    assert("class"@[0] != "false"@[0]);
    assert("class"@[0] != "async"@[0]);
    assert("class"@[0] != "await"@[0]);
    assert("class"@[0] != "macro"@[0]);
    assert("class"@[0] != "match"@[0]);
    assert("class"@[0] != "break"@[0]);
}

} // verus!
