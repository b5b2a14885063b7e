//! The mathematical model of the lexer: its state, and what each step of it does.
use vstd::prelude::*;
use crate::lexer::token::{self, TokenView, spec_lookup_colon_special, spec_lookup_ident};
use crate::text::{spec_is_alphabetic, spec_is_numeric};

verus! {

/// The character at index `i`, or `'\0'` past either end.
pub open spec fn char_at(s: Seq<char>, i: int) -> char {
    if 0 <= i < s.len() {
        s[i]
    } else {
        '\0'
    }
}

/// The characters that the lexer skips between tokens.
pub open spec fn is_whitespace_char(c: char) -> bool {
    c == ' ' || c == '\r' || c == '\t' || c == '\n'
}

/// The characters of `ALLOWED_IN_IDENT`: digits, `_` and `#`.
pub open spec fn is_allowed_in_ident(c: char) -> bool {
    ('0' <= c && c <= '9') || c == '_' || c == '#'
}

/// Characters that continue an identifier.
pub open spec fn is_ident_char(c: char) -> bool {
    spec_is_alphabetic(c) || is_allowed_in_ident(c)
}

/// Characters that start an identifier.
pub open spec fn is_ident_start(c: char) -> bool {
    spec_is_alphabetic(c) || c == '_' || c == '#'
}

/// The largest value the line and column counters may reach.
pub open spec fn counter_limit() -> int {
    0x7fff_fff0
}

/// The state of the lexer.
pub struct LexView {
    /// The input, as characters.
    pub chars: Seq<char>,
    /// Index of the current character.
    pub position: int,
    /// Index of the next character to read.
    pub read_position: int,
    /// The current character (`'\0'` at the end of the input).
    pub current: char,
    /// Line counter.
    pub line: int,
    /// Column counter.
    pub col: int,
    /// The file name given to tokens.
    pub file: Seq<char>,
}

impl LexView {
    /// A measure of the input that is left: it never grows when a character is read.
    pub open spec fn fuel(self) -> nat {
        let rest: int = self.chars.len() + 1 - self.read_position;
        (if rest > 0 { 2 * rest } else { 0 }) as nat + (if self.current != '\0' { 1nat } else { 0nat })
    }

    /// How many more characters may still be read, counted twice.
    pub open spec fn budget(self) -> int {
        2 * (self.chars.len() + 8 - self.read_position)
    }

    /// The lexer has stopped: every further token is `EOF`.
    pub open spec fn is_eof(self) -> bool {
        self.current == '\0'
    }

    /// The shapes a state can take between two characters.
    pub open spec fn shape_ok(self) -> bool {
        ||| (self.read_position == self.position + 1 && self.current == char_at(self.chars, self.position))
        ||| (self.read_position == 0 && self.position == 0 && self.current == ' ')
    }

    /// The read position is one past the current character.
    pub open spec fn moved(self) -> bool {
        self.read_position == self.position + 1 && self.current == char_at(self.chars, self.position)
    }

    /// The potential of the line counter: never grows when a character is read.
    pub open spec fn line_room(self) -> int {
        self.line + self.budget()
    }

    /// The potential of the column counter: never grows when a character is read.
    pub open spec fn col_room(self) -> int {
        self.col + self.budget()
    }

    /// The state in which a token starts: a character other than `'\0'` is current.
    pub open spec fn ready(self) -> bool {
        &&& self.lwf()
        &&& self.moved()
        &&& self.current != '\0'
        &&& self.line_room() < counter_limit()
        &&& self.col_room() < counter_limit()
    }

    /// Well-formed state, as it is between two tokens.
    pub open spec fn wf(self) -> bool {
        &&& self.chars.len() < 0x3FFF_FF00
        &&& 0 <= self.position
        &&& self.read_position <= self.chars.len() + 4
        &&& self.shape_ok()
        &&& self.line + self.budget() < counter_limit()
        &&& self.col + self.budget() < counter_limit()
    }

    /// Well-formed state, as it may be inside a token: the read position may have
    /// been set back onto the current character.
    pub open spec fn lwf(self) -> bool {
        &&& self.chars.len() < 0x3FFF_FF00
        &&& 0 <= self.position
        &&& self.read_position <= self.chars.len() + 8
        &&& (self.shape_ok() || (self.read_position == self.position && self.current == char_at(
            self.chars,
            self.position,
        )))
        &&& self.line + self.budget() <= counter_limit()
        &&& self.col + self.budget() <= counter_limit()
    }

    /// What scanning one token from this state to `s` keeps: `done` tells whether the
    /// final read was already made.
    pub open spec fn scanned(self, s: LexView, done: bool) -> bool {
        &&& s.lwf()
        &&& s.chars == self.chars
        &&& s.file == self.file
        &&& !done ==> s.read_position <= s.chars.len() + 3 && s.fuel() <= self.fuel() && (s.fuel()
            < self.fuel() || s.read_position <= s.chars.len())
        &&& done ==> s.wf() && s.fuel() < self.fuel()
    }

    /// Read the next character.
    pub open spec fn read_char(self) -> LexView {
        LexView {
            line: if self.current == '\n' { self.line + 1 } else { self.line },
            col: if self.current == '\n' { 1 } else { self.col + 1 },
            current: char_at(self.chars, self.read_position),
            position: self.read_position,
            read_position: self.read_position + 1,
            ..self
        }
    }

    /// The next character, without moving.
    pub open spec fn peek(self) -> char {
        char_at(self.chars, self.read_position)
    }

    /// A token of the given type and literal, at the current line and column.
    pub open spec fn make_token(self, typ: Seq<char>, literal: Seq<char>) -> TokenView {
        TokenView {
            typ,
            literal,
            file_name: self.file,
            line_number: self.line,
            col_number: self.col,
        }
    }

    /// Skip spaces, tabs, carriage returns and newlines.
    pub open spec fn skip_whitespace(self) -> LexView
        decreases self.fuel(),
    {
        if is_whitespace_char(self.current) && self.current != '\0' {
            self.read_char().skip_whitespace()
        } else {
            self
        }
    }

    /// The current and the next character; moves one character on.
    pub open spec fn cc_pp(self) -> (Seq<char>, LexView) {
        (seq![self.current, self.peek()], self.read_char())
    }

    /// The body of a string literal, up to the closing quote `cs` or the end of input.
    /// A backslash before a quote is kept along with the quote.
    pub open spec fn string_loop(self, cs: char, acc: Seq<char>) -> (Seq<char>, LexView)
        decreases self.fuel(),
    {
        if self.current != cs && !self.is_eof() {
            if self.current == '\\' && (self.peek() == '"' || self.peek() == '\'') {
                let s1 = self.read_char();
                s1.read_char().string_loop(cs, acc.push(self.current).push(s1.current))
            } else {
                self.read_char().string_loop(cs, acc.push(self.current))
            }
        } else {
            (acc, self)
        }
    }

    /// Read a string literal whose opening quote `cs` is the current character.
    pub open spec fn read_string(self, cs: char) -> (Seq<char>, LexView) {
        self.read_char().string_loop(cs, seq![])
    }

    /// The characters of an identifier.
    pub open spec fn ident_loop(self, acc: Seq<char>) -> (Seq<char>, LexView)
        decreases self.fuel(),
    {
        if is_ident_char(self.current) && !self.is_eof() {
            self.read_char().ident_loop(acc.push(self.current))
        } else {
            (acc, self)
        }
    }

    /// Read an identifier; afterwards the read position is set back onto the
    /// character that ended it.
    pub open spec fn read_identifier(self) -> (Seq<char>, LexView) {
        let (id, s) = self.ident_loop(seq![]);
        (id, LexView { read_position: s.position, ..s })
    }

    /// The characters of a number: digits, and dots that a digit follows.
    pub open spec fn number_loop(self, acc: Seq<char>) -> (Seq<char>, LexView)
        decreases self.fuel(),
    {
        if (spec_is_numeric(self.current) || self.current == '.') && !self.is_eof() {
            if self.current == '.' {
                if spec_is_numeric(self.peek()) {
                    let s1 = self.read_char();
                    s1.read_char().number_loop(acc.push('.').push(s1.current))
                } else {
                    (acc, self)
                }
            } else {
                self.read_char().number_loop(acc.push(self.current))
            }
        } else {
            (acc, self)
        }
    }

    /// Read a number; afterwards the read position is set back onto the character
    /// that ended it.
    pub open spec fn read_number(self) -> (Seq<char>, LexView) {
        let (num, s) = self.number_loop(seq![]);
        (num, LexView { read_position: s.position, ..s })
    }

    /// The body of a `javascript{ ... }` block, with `braces` braces open.
    pub open spec fn js_loop(self, braces: int, acc: Seq<char>) -> (Seq<char>, LexView)
        decreases self.fuel(),
    {
        if !self.is_eof() {
            if self.current == '{' {
                self.read_char().js_loop(braces + 1, acc.push(self.current))
            } else if self.current == '}' {
                if braces - 1 == 0 {
                    (acc, self.read_char())
                } else {
                    self.read_char().js_loop(braces - 1, acc.push(self.current))
                }
            } else {
                self.read_char().js_loop(braces, acc.push(self.current))
            }
        } else {
            (acc, self)
        }
    }

    /// Read the body of a `javascript{ ... }` block; the current character is the one
    /// that ended the word `javascript`.
    pub open spec fn read_javascript(self) -> (Seq<char>, LexView) {
        self.read_char().read_char().read_char().js_loop(1, seq![])
    }

    /// The text of a comment, up to the end of the line.
    pub open spec fn comment_loop(self, acc: Seq<char>) -> (Seq<char>, LexView)
        decreases self.fuel(),
    {
        if self.current != '\n' && !self.is_eof() {
            self.read_char().comment_loop(acc.push(self.current))
        } else {
            (acc, self)
        }
    }

    /// A token that is one character, or two when `second` follows:
    /// (`short`, `long`) are the types of the two cases.
    pub open spec fn one_or_two(self, second: char, short: Seq<char>, long: Seq<char>) -> (
        TokenView,
        LexView,
        bool,
    ) {
        if self.peek() == second {
            let (cc, s1) = self.cc_pp();
            (s1.make_token(long, cc), s1, false)
        } else {
            (self.make_token(short, seq![self.current]), self, false)
        }
    }

    /// A token of one character.
    pub open spec fn single(self, typ: Seq<char>) -> (TokenView, LexView, bool) {
        (self.make_token(typ, seq![self.current]), self, false)
    }

    /// Scan a token that starts with `=`, `.`, `+`, `-` or `*`.
    /// The result holds the token, the state before the final read, and whether
    /// that read was already made.
    pub open spec fn scan_a(self) -> (TokenView, LexView, bool) {
        let c = self.current;
        if c == '=' {
            self.one_or_two('=', token::ASSIGN@, token::EQ@)
        } else if c == '.' {
            if self.peek() == '.' {
                let (cc, s1) = self.cc_pp();
                if s1.peek() == '.' {
                    let s2 = s1.read_char();
                    (s2.make_token(token::SPREAD@, cc.push(s2.current)), s2, false)
                } else {
                    (s1.make_token(token::DOTDOT@, cc), s1, false)
                }
            } else {
                self.single(token::DOT@)
            }
        } else if c == '+' {
            self.one_or_two('=', token::PLUS@, token::PLUS_EQUALS@)
        } else if c == '-' {
            self.one_or_two('=', token::MINUS@, token::MINUS_EQUALS@)
        } else if c == '*' {
            self.one_or_two('=', token::ASTERISK@, token::ASTERISK_EQUALS@)
        } else {
            self.scan_b()
        }
    }

    /// Scan a token of one bracket or delimiter character.
    pub open spec fn scan_b(self) -> (TokenView, LexView, bool) {
        let c = self.current;
        if c == '{' {
            self.single(token::L_BRACE@)
        } else if c == '}' {
            self.single(token::R_BRACE@)
        } else if c == '(' {
            self.single(token::L_PAREN@)
        } else if c == ')' {
            self.single(token::R_PAREN@)
        } else if c == ',' {
            self.single(token::COMMA@)
        } else if c == ';' {
            self.single(token::SEMICOLON@)
        } else if c == '\n' {
            self.single(token::EOL@)
        } else if c == '[' {
            self.single(token::L_BRACKET@)
        } else if c == ']' {
            self.single(token::R_BRACKET@)
        } else if c == '%' {
            self.single(token::MODULUS@)
        } else {
            self.scan_c()
        }
    }

    /// Scan a comment that starts at the current `/`, up to the end of the line: a `//`
    /// comment keeps its `//`, a `///` doc comment gives the text after it.
    pub open spec fn scan_comment(self) -> (TokenView, LexView, bool) {
        let s1 = self.read_char().read_char();
        let is_doc = s1.current == '/';
        let s2 = if is_doc {
            s1.read_char()
        } else {
            s1
        };
        let (res, s3) = s2.comment_loop(seq![]);
        if is_doc {
            (s3.make_token(token::DOC_COMMENT@, res), s3, false)
        } else {
            (s3.make_token(token::COMMENT@, seq!['/', '/'] + res), s3, false)
        }
    }

    /// Scan a token that starts with `!`, `>`, `<`, `:` or `/`.
    pub open spec fn scan_c(self) -> (TokenView, LexView, bool) {
        let c = self.current;
        if c == '!' {
            self.one_or_two('=', token::BANG@, token::NOT_EQ@)
        } else if c == '>' {
            self.one_or_two('=', token::GT@, token::GT_OR_EQ@)
        } else if c == '<' {
            self.one_or_two('=', token::LT@, token::LT_OR_EQ@)
        } else if c == ':' {
            let token_type = spec_lookup_colon_special(seq![c, self.peek()]);
            if token_type != token::COLON@ {
                let (cc, s1) = self.cc_pp();
                (s1.make_token(token_type, cc), s1, false)
            } else {
                (self.make_token(token_type, seq![c]), self, false)
            }
        } else if c == '/' {
            if self.peek() == '/' {
                self.scan_comment()
            } else if self.peek() == '=' {
                let (cc, s1) = self.cc_pp();
                (s1.make_token(token::SLASH_EQUALS@, cc), s1, false)
            } else {
                self.single(token::SLASH@)
            }
        } else {
            self.scan_d()
        }
    }

    /// Scan a string literal, or a token that starts with `|`, `&`, `?` or `@`.
    pub open spec fn scan_d(self) -> (TokenView, LexView, bool) {
        let c = self.current;
        if c == '"' || c == '\'' {
            let (string, s1) = self.read_string(c);
            (s1.make_token(token::STRING@, string), s1, false)
        } else if c == '|' {
            self.one_or_two('|', token::BITWISE_OR@, token::OR_SYMBOL@)
        } else if c == '&' {
            self.one_or_two('&', token::BITWISE_AND@, token::AND_SYMBOL@)
        } else if c == '?' {
            self.one_or_two('?', token::QUESTION_MARK@, token::DOUBLE_QUESTION_MARK@)
        } else if c == '@' {
            self.single(token::MACRO_SYMBOL@)
        } else {
            self.scan_word()
        }
    }

    /// Scan an identifier, keyword, `javascript{ ... }` block or number, or an
    /// illegal character.
    pub open spec fn scan_word(self) -> (TokenView, LexView, bool) {
        let c = self.current;
        if is_ident_start(c) {
            let (literal, s1) = self.read_identifier();
            let ident = spec_lookup_ident(literal);
            if ident == token::JAVASCRIPT@ {
                let (js, s2) = s1.read_javascript();
                (s2.make_token(token::JAVASCRIPT@, js), s2.read_char(), true)
            } else {
                (s1.make_token(ident, literal), s1, false)
            }
        } else if spec_is_numeric(c) {
            let (num, s1) = self.read_number();
            if num.contains('.') {
                (s1.make_token(token::FLOAT@, num), s1, false)
            } else {
                (s1.make_token(token::INT@, num), s1, false)
            }
        } else {
            self.single(token::ILLEGAL@)
        }
    }

    /// The next token, and the state after it.
    pub open spec fn next_token(self) -> (TokenView, LexView) {
        let s = self.skip_whitespace();
        if s.is_eof() {
            (s.make_token(token::EOF@, seq![s.current]), s)
        } else {
            let (token, s1, done) = s.scan_a();
            if done {
                (token, s1)
            } else {
                (token, s1.read_char())
            }
        }
    }
}

impl LexView {
    /// The same state, reading for the file `f`.
    pub open spec fn with_file(self, f: Seq<char>) -> LexView {
        LexView { file: f, ..self }
    }
}

/// A token as it reads in the file `f`.
pub open spec fn token_in_file(t: TokenView, f: Seq<char>) -> TokenView {
    TokenView { file_name: f, ..t }
}

proof fn lemma_skip_whitespace_file(s: LexView, f: Seq<char>)
    ensures
        s.with_file(f).skip_whitespace() == s.skip_whitespace().with_file(f),
    decreases s.fuel(),
{
    if is_whitespace_char(s.current) && s.current != '\0' {
        assert(s.with_file(f).read_char() == s.read_char().with_file(f));
        lemma_skip_whitespace_file(s.read_char(), f);
    }
}

proof fn lemma_string_loop_file(s: LexView, f: Seq<char>, cs: char, acc: Seq<char>)
    ensures
        s.with_file(f).string_loop(cs, acc) == (
            s.string_loop(cs, acc).0,
            s.string_loop(cs, acc).1.with_file(f),
        ),
    decreases s.fuel(),
{
    if s.current != cs && !s.is_eof() {
        let s1 = s.read_char();
        assert(s.with_file(f).read_char() == s1.with_file(f));
        assert(s1.with_file(f).read_char() == s1.read_char().with_file(f));
        if s.current == '\\' && (s.peek() == '"' || s.peek() == '\'') {
            lemma_string_loop_file(s1.read_char(), f, cs, acc.push(s.current).push(s1.current));
        } else {
            lemma_string_loop_file(s1, f, cs, acc.push(s.current));
        }
    }
}

proof fn lemma_ident_loop_file(s: LexView, f: Seq<char>, acc: Seq<char>)
    ensures
        s.with_file(f).ident_loop(acc) == (s.ident_loop(acc).0, s.ident_loop(acc).1.with_file(f)),
    decreases s.fuel(),
{
    if is_ident_char(s.current) && !s.is_eof() {
        assert(s.with_file(f).read_char() == s.read_char().with_file(f));
        lemma_ident_loop_file(s.read_char(), f, acc.push(s.current));
    }
}

proof fn lemma_number_loop_file(s: LexView, f: Seq<char>, acc: Seq<char>)
    ensures
        s.with_file(f).number_loop(acc) == (s.number_loop(acc).0, s.number_loop(acc).1.with_file(
            f,
        )),
    decreases s.fuel(),
{
    if (spec_is_numeric(s.current) || s.current == '.') && !s.is_eof() {
        let s1 = s.read_char();
        assert(s.with_file(f).read_char() == s1.with_file(f));
        assert(s1.with_file(f).read_char() == s1.read_char().with_file(f));
        if s.current == '.' {
            if spec_is_numeric(s.peek()) {
                lemma_number_loop_file(s1.read_char(), f, acc.push('.').push(s1.current));
            }
        } else {
            lemma_number_loop_file(s1, f, acc.push(s.current));
        }
    }
}

proof fn lemma_js_loop_file(s: LexView, f: Seq<char>, braces: int, acc: Seq<char>)
    ensures
        s.with_file(f).js_loop(braces, acc) == (
            s.js_loop(braces, acc).0,
            s.js_loop(braces, acc).1.with_file(f),
        ),
    decreases s.fuel(),
{
    if !s.is_eof() {
        assert(s.with_file(f).read_char() == s.read_char().with_file(f));
        if s.current == '{' {
            lemma_js_loop_file(s.read_char(), f, braces + 1, acc.push(s.current));
        } else if s.current == '}' {
            if braces - 1 != 0 {
                lemma_js_loop_file(s.read_char(), f, braces - 1, acc.push(s.current));
            }
        } else {
            lemma_js_loop_file(s.read_char(), f, braces, acc.push(s.current));
        }
    }
}

proof fn lemma_comment_loop_file(s: LexView, f: Seq<char>, acc: Seq<char>)
    ensures
        s.with_file(f).comment_loop(acc) == (
            s.comment_loop(acc).0,
            s.comment_loop(acc).1.with_file(f),
        ),
    decreases s.fuel(),
{
    if s.current != '\n' && !s.is_eof() {
        assert(s.with_file(f).read_char() == s.read_char().with_file(f));
        lemma_comment_loop_file(s.read_char(), f, acc.push(s.current));
    }
}

proof fn lemma_scan_word_file(s: LexView, f: Seq<char>)
    ensures
        s.with_file(f).scan_word() == (
            token_in_file(s.scan_word().0, f),
            s.scan_word().1.with_file(f),
            s.scan_word().2,
        ),
{
    assert(s.with_file(f).read_char() == s.read_char().with_file(f));
    lemma_ident_loop_file(s, f, seq![]);
    lemma_number_loop_file(s, f, seq![]);
    let (lit, si) = s.read_identifier();
    let a1 = si.read_char();
    let a2 = a1.read_char();
    let a3 = a2.read_char();
    assert(si.with_file(f).read_char() == a1.with_file(f));
    assert(a1.with_file(f).read_char() == a2.with_file(f));
    assert(a2.with_file(f).read_char() == a3.with_file(f));
    lemma_js_loop_file(a3, f, 1, seq![]);
    let (js, sj) = si.read_javascript();
    assert(sj.with_file(f).read_char() == sj.read_char().with_file(f));
}

proof fn lemma_scan_d_file(s: LexView, f: Seq<char>)
    ensures
        s.with_file(f).scan_d() == (
            token_in_file(s.scan_d().0, f),
            s.scan_d().1.with_file(f),
            s.scan_d().2,
        ),
{
    assert(s.with_file(f).read_char() == s.read_char().with_file(f));
    lemma_string_loop_file(s.read_char(), f, s.current, seq![]);
    lemma_scan_word_file(s, f);
}

proof fn lemma_scan_comment_file(s: LexView, f: Seq<char>)
    ensures
        s.with_file(f).scan_comment() == (
            token_in_file(s.scan_comment().0, f),
            s.scan_comment().1.with_file(f),
            s.scan_comment().2,
        ),
{
    assert(s.with_file(f).read_char() == s.read_char().with_file(f));
    assert(s.read_char().with_file(f).read_char() == s.read_char().read_char().with_file(f));
    let r2 = s.read_char().read_char();
    assert(r2.with_file(f).read_char() == r2.read_char().with_file(f));
    lemma_comment_loop_file(r2, f, seq![]);
    lemma_comment_loop_file(r2.read_char(), f, seq![]);
}

proof fn lemma_scan_c_file(s: LexView, f: Seq<char>)
    ensures
        s.with_file(f).scan_c() == (
            token_in_file(s.scan_c().0, f),
            s.scan_c().1.with_file(f),
            s.scan_c().2,
        ),
{
    assert(s.with_file(f).read_char() == s.read_char().with_file(f));
    lemma_scan_comment_file(s, f);
    lemma_scan_d_file(s, f);
}

proof fn lemma_scan_b_file(s: LexView, f: Seq<char>)
    ensures
        s.with_file(f).scan_b() == (
            token_in_file(s.scan_b().0, f),
            s.scan_b().1.with_file(f),
            s.scan_b().2,
        ),
{
    lemma_scan_c_file(s, f);
}

proof fn lemma_scan_a_file(s: LexView, f: Seq<char>)
    ensures
        s.with_file(f).scan_a() == (
            token_in_file(s.scan_a().0, f),
            s.scan_a().1.with_file(f),
            s.scan_a().2,
        ),
{
    assert(s.with_file(f).read_char() == s.read_char().with_file(f));
    assert(s.read_char().with_file(f).read_char() == s.read_char().read_char().with_file(f));
    lemma_scan_b_file(s, f);
}

/// The file a lexer reads for only names the file of its tokens: from the same state in
/// another file, the next token is the same but for its file name, and the state after it
/// is the same but for its file.
pub proof fn lemma_next_token_file(l: LexView, f: Seq<char>)
    ensures
        l.with_file(f).next_token() == (
            token_in_file(l.next_token().0, f),
            l.next_token().1.with_file(f),
        ),
{
    lemma_skip_whitespace_file(l, f);
    let s = l.skip_whitespace();
    lemma_scan_a_file(s, f);
    let (t, s1, done) = s.scan_a();
    assert(s1.with_file(f).read_char() == s1.read_char().with_file(f));
}

/// The end of the input is absorbing: a finished lexer gives `EOF` and stays where it is.
pub proof fn lemma_eof_absorbing(l: LexView)
    requires
        l.is_eof(),
    ensures
        l.next_token() == (l.make_token(token::EOF@, seq!['\0']), l),
{
    assert(l.skip_whitespace() == l);
}

/// Characters that a string literal may hold without ending or escaping anything.
pub open spec fn plain_string_char(c: char) -> bool {
    c != '"' && c != '\\' && c != '\0'
}

proof fn lemma_string_loop_plain(t: LexView, k: int, acc: Seq<char>)
    requires
        t.moved(),
        0 <= t.position <= k < t.chars.len(),
        t.chars[k] == '"',
        forall|i: int| t.position <= i < k ==> plain_string_char(#[trigger] t.chars[i]),
    ensures
        t.string_loop('"', acc).0 == acc + t.chars.subrange(t.position, k),
    decreases k - t.position,
{
    if t.position < k {
        assert(plain_string_char(t.chars[t.position]));
        let t1 = t.read_char();
        lemma_string_loop_plain(t1, k, acc.push(t.current));
        assert(acc.push(t.current) + t.chars.subrange(t.position + 1, k) =~= acc + t.chars.subrange(
            t.position,
            k,
        ));
    } else {
        assert(t.chars.subrange(t.position, k) =~= Seq::<char>::empty());
        assert(acc + Seq::<char>::empty() =~= acc);
    }
}

/// A string literal is read as the text between its quotes: when the current character
/// is a `"` and the next `"` comes before any backslash, the next token is a `STRING`
/// whose literal is the input text between the two quotes.
pub proof fn lemma_string_token(s: LexView, k: int)
    requires
        s.moved(),
        s.current == '"',
        s.position < k < s.chars.len(),
        s.chars[k] == '"',
        forall|i: int| s.position < i < k ==> plain_string_char(#[trigger] s.chars[i]),
    ensures
        s.next_token().0.typ == token::STRING@,
        s.next_token().0.literal == s.chars.subrange(s.position + 1, k),
{
    assert(s.skip_whitespace() == s);
    lemma_string_loop_plain(s.read_char(), k, seq![]);
    assert(seq![] + s.chars.subrange(s.position + 1, k) =~= s.chars.subrange(s.position + 1, k));
}

/// An operator followed by `=` is one token of the two characters: `+=`, `-=`, `*=`, `/=`
/// and `==`; not followed by `=`, it is a token of its own character.
pub proof fn lemma_operator_tokens(s: LexView)
    requires
        s.current == '+' || s.current == '-' || s.current == '*' || s.current == '/' || s.current
            == '=',
    ensures
        s.peek() == '=' ==> s.next_token().0.literal == seq![s.current, '='],
        s.peek() == '=' && s.current == '+' ==> s.next_token().0.typ == token::PLUS_EQUALS@,
        s.peek() == '=' && s.current == '-' ==> s.next_token().0.typ == token::MINUS_EQUALS@,
        s.peek() == '=' && s.current == '*' ==> s.next_token().0.typ == token::ASTERISK_EQUALS@,
        s.peek() == '=' && s.current == '/' ==> s.next_token().0.typ == token::SLASH_EQUALS@,
        s.peek() == '=' && s.current == '=' ==> s.next_token().0.typ == token::EQ@,
        s.peek() != '=' && s.current != '/' ==> s.next_token().0.literal == seq![s.current],
        s.peek() != '=' && s.current == '+' ==> s.next_token().0.typ == token::PLUS@,
        s.peek() != '=' && s.current == '-' ==> s.next_token().0.typ == token::MINUS@,
        s.peek() != '=' && s.current == '*' ==> s.next_token().0.typ == token::ASTERISK@,
        s.peek() != '=' && s.current == '=' ==> s.next_token().0.typ == token::ASSIGN@,
{
    assert(s.skip_whitespace() == s);
}


/// The punctuation of easyjs: each delimiter is a token of its own character; `!`, `>`
/// and `<` followed by `=`, `|`, `&` and `?` doubled, and `:=` are tokens of two characters;
/// dots make `.`, `..` or `...`.
pub proof fn lemma_punctuation_tokens(s: LexView)
    ensures
        s.current == '{' ==> s.next_token().0.typ == token::L_BRACE@ && s.next_token().0.literal == seq!['{'],
        s.current == '}' ==> s.next_token().0.typ == token::R_BRACE@ && s.next_token().0.literal == seq!['}'],
        s.current == '(' ==> s.next_token().0.typ == token::L_PAREN@ && s.next_token().0.literal == seq!['('],
        s.current == ')' ==> s.next_token().0.typ == token::R_PAREN@ && s.next_token().0.literal == seq![')'],
        s.current == ',' ==> s.next_token().0.typ == token::COMMA@ && s.next_token().0.literal == seq![','],
        s.current == ';' ==> s.next_token().0.typ == token::SEMICOLON@ && s.next_token().0.literal == seq![';'],
        s.current == '[' ==> s.next_token().0.typ == token::L_BRACKET@ && s.next_token().0.literal == seq!['['],
        s.current == ']' ==> s.next_token().0.typ == token::R_BRACKET@ && s.next_token().0.literal == seq![']'],
        s.current == '%' ==> s.next_token().0.typ == token::MODULUS@ && s.next_token().0.literal == seq!['%'],
        s.current == '@' ==> s.next_token().0.typ == token::MACRO_SYMBOL@ && s.next_token().0.literal == seq!['@'],
        s.current == '!' && s.peek() == '=' ==> s.next_token().0.typ == token::NOT_EQ@ && s.next_token().0.literal == seq!['!', '='],
        s.current == '!' && s.peek() != '=' ==> s.next_token().0.typ == token::BANG@ && s.next_token().0.literal == seq!['!'],
        s.current == '>' && s.peek() == '=' ==> s.next_token().0.typ == token::GT_OR_EQ@ && s.next_token().0.literal == seq!['>', '='],
        s.current == '>' && s.peek() != '=' ==> s.next_token().0.typ == token::GT@ && s.next_token().0.literal == seq!['>'],
        s.current == '<' && s.peek() == '=' ==> s.next_token().0.typ == token::LT_OR_EQ@ && s.next_token().0.literal == seq!['<', '='],
        s.current == '<' && s.peek() != '=' ==> s.next_token().0.typ == token::LT@ && s.next_token().0.literal == seq!['<'],
        s.current == '|' && s.peek() == '|' ==> s.next_token().0.typ == token::OR_SYMBOL@ && s.next_token().0.literal == seq!['|', '|'],
        s.current == '|' && s.peek() != '|' ==> s.next_token().0.typ == token::BITWISE_OR@ && s.next_token().0.literal == seq!['|'],
        s.current == '&' && s.peek() == '&' ==> s.next_token().0.typ == token::AND_SYMBOL@ && s.next_token().0.literal == seq!['&', '&'],
        s.current == '&' && s.peek() != '&' ==> s.next_token().0.typ == token::BITWISE_AND@ && s.next_token().0.literal == seq!['&'],
        s.current == '?' && s.peek() == '?' ==> s.next_token().0.typ == token::DOUBLE_QUESTION_MARK@ && s.next_token().0.literal == seq!['?', '?'],
        s.current == '?' && s.peek() != '?' ==> s.next_token().0.typ == token::QUESTION_MARK@ && s.next_token().0.literal == seq!['?'],
        s.current == ':' && s.peek() == '=' ==> s.next_token().0.typ == token::TYPE_ASSIGNMENT@ && s.next_token().0.literal == seq![':', '='],
        s.current == ':' && s.peek() != '=' ==> s.next_token().0.typ == token::COLON@ && s.next_token().0.literal == seq![':'],
        s.current == '.' && s.peek() != '.' ==> s.next_token().0.typ == token::DOT@ && s.next_token().0.literal == seq!['.'],
        s.current == '.' && s.peek() == '.' && s.read_char().peek() != '.' ==> s.next_token().0.typ == token::DOTDOT@ && s.next_token().0.literal == seq!['.', '.'],
        s.current == '.' && s.peek() == '.' && s.read_char().peek() == '.' ==> s.next_token().0.typ == token::SPREAD@ && s.next_token().0.literal == seq!['.', '.', '.'],
{
    reveal_strlit(":=");
    reveal_strlit(":");
    reveal_strlit("TYPE_ASSIGNMENT");
    if s.current == ':' {
        assert(s.skip_whitespace() == s);
        let pair = seq![':', s.peek()];
        assert(":="@.len() == 2 && ":="@[0] == ':' && ":="@[1] == '=');
        if s.peek() == '=' {
            assert(pair =~= ":="@);
        } else {
            assert(pair[1] != ":="@[1]);
            assert(pair != ":="@);
        }
        assert(token::TYPE_ASSIGNMENT@.len() != token::COLON@.len());
    }
}

/// The characters that a run of an identifier may hold: those that continue one, other than
/// the end-of-input mark.
pub open spec fn word_char(c: char) -> bool {
    is_ident_char(c) && c != '\0'
}

proof fn lemma_ident_run(t: LexView, end: int, acc: Seq<char>)
    requires
        t.moved(),
        0 <= t.position <= end <= t.chars.len(),
        forall|i: int| t.position <= i < end ==> word_char(#[trigger] t.chars[i]),
        !word_char(char_at(t.chars, end)),
    ensures
        t.ident_loop(acc).0 == acc + t.chars.subrange(t.position, end),
        t.ident_loop(acc).1.moved(),
        t.ident_loop(acc).1.position == end,
        t.ident_loop(acc).1.chars == t.chars,
    decreases end - t.position,
{
    if t.position < end {
        assert(word_char(t.chars[t.position]));
        let t1 = t.read_char();
        lemma_ident_run(t1, end, acc.push(t.current));
        assert(acc.push(t.current) + t.chars.subrange(t.position + 1, end) =~= acc
            + t.chars.subrange(t.position, end));
    } else {
        assert(t.chars.subrange(t.position, end) =~= Seq::<char>::empty());
        assert(acc + Seq::<char>::empty() =~= acc);
    }
}

/// A word is read whole: when the current character is a letter, `_` or `#`, the
/// characters from it up to `end` all continue an identifier, and the character at `end`
/// does not, the next token's literal is exactly that word, its type is what the word looks
/// up to (a keyword's own type, or `IDENT`), and the lexer goes on at `end`. The word
/// `javascript`, which opens a block, is left out.
pub proof fn lemma_identifier_token(s: LexView, end: int)
    requires
        s.moved(),
        0 <= s.position < end <= s.chars.len(),
        ('a' <= s.current <= 'z') || ('A' <= s.current <= 'Z') || s.current == '_' || s.current
            == '#',
        forall|i: int| s.position <= i < end ==> word_char(#[trigger] s.chars[i]),
        !word_char(char_at(s.chars, end)),
        spec_lookup_ident(s.chars.subrange(s.position, end)) != token::JAVASCRIPT@,
    ensures
        s.next_token().0.literal == s.chars.subrange(s.position, end),
        s.next_token().0.typ == spec_lookup_ident(s.chars.subrange(s.position, end)),
        s.next_token().1.position == end,
        s.next_token().1.current == char_at(s.chars, end),
{
    assert(s.skip_whitespace() == s);
    assert(word_char(s.chars[s.position]));
    assert(is_ident_start(s.current));
    lemma_ident_run(s, end, seq![]);
    assert(seq![] + s.chars.subrange(s.position, end) =~= s.chars.subrange(s.position, end));
}

/// A decimal digit that reads as numeric.
pub open spec fn digit_char(c: char) -> bool {
    '0' <= c <= '9' && spec_is_numeric(c)
}

/// A character that ends a number: the end of the input, or one that is neither numeric
/// nor a `.` followed by a numeric character.
pub open spec fn ends_number(c: char, next: char) -> bool {
    c == '\0' || (!spec_is_numeric(c) && !(c == '.' && spec_is_numeric(next)))
}

proof fn lemma_digit_run(t: LexView, end: int, acc: Seq<char>)
    requires
        t.moved(),
        0 <= t.position <= end <= t.chars.len(),
        forall|i: int| t.position <= i < end ==> digit_char(#[trigger] t.chars[i]),
        ends_number(char_at(t.chars, end), char_at(t.chars, end + 1)),
    ensures
        t.number_loop(acc).0 == acc + t.chars.subrange(t.position, end),
        t.number_loop(acc).1.moved(),
        t.number_loop(acc).1.position == end,
        t.number_loop(acc).1.chars == t.chars,
    decreases end - t.position,
{
    if t.position < end {
        assert(digit_char(t.chars[t.position]));
        let t1 = t.read_char();
        lemma_digit_run(t1, end, acc.push(t.current));
        assert(acc.push(t.current) + t.chars.subrange(t.position + 1, end) =~= acc
            + t.chars.subrange(t.position, end));
    } else {
        assert(t.chars.subrange(t.position, end) =~= Seq::<char>::empty());
        assert(acc + Seq::<char>::empty() =~= acc);
    }
}

/// A run of digits is one `INT` token: when the characters from the current one up to
/// `end` are decimal digits, the first is not alphabetic, and the character at `end` ends a
/// number, the next token is an `INT` whose literal is exactly those digits, and the lexer
/// goes on at `end`.
pub proof fn lemma_integer_token(s: LexView, end: int)
    requires
        s.moved(),
        0 <= s.position < end <= s.chars.len(),
        !spec_is_alphabetic(s.current),
        forall|i: int| s.position <= i < end ==> digit_char(#[trigger] s.chars[i]),
        ends_number(char_at(s.chars, end), char_at(s.chars, end + 1)),
    ensures
        s.next_token().0.typ == token::INT@,
        s.next_token().0.literal == s.chars.subrange(s.position, end),
        s.next_token().1.position == end,
        s.next_token().1.current == char_at(s.chars, end),
{
    assert(s.skip_whitespace() == s);
    assert(digit_char(s.chars[s.position]));
    assert(!is_ident_start(s.current));
    lemma_digit_run(s, end, seq![]);
    let num = s.chars.subrange(s.position, end);
    assert(seq![] + num =~= num);
    assert(!num.contains('.')) by {
        if num.contains('.') {
            let j = choose|j: int| 0 <= j < num.len() && num[j] == '.';
            assert(digit_char(s.chars[s.position + j]));
        }
    }
}

proof fn lemma_comment_run(t: LexView, end: int, acc: Seq<char>)
    requires
        t.moved(),
        0 <= t.position <= end <= t.chars.len(),
        forall|i: int| t.position <= i < end ==> #[trigger] t.chars[i] != '\n' && t.chars[i] != '\0',
        end == t.chars.len() || t.chars[end] == '\n',
    ensures
        t.comment_loop(acc).0 == acc + t.chars.subrange(t.position, end),
    decreases end - t.position,
{
    if t.position < end {
        assert(t.chars[t.position] != '\n' && t.chars[t.position] != '\0');
        lemma_comment_run(t.read_char(), end, acc.push(t.current));
        assert(acc.push(t.current) + t.chars.subrange(t.position + 1, end) =~= acc
            + t.chars.subrange(t.position, end));
    } else {
        assert(t.chars.subrange(t.position, end) =~= Seq::<char>::empty());
        assert(acc + Seq::<char>::empty() =~= acc);
    }
}

/// A comment runs to the end of its line: after `//` the token is a `COMMENT` whose literal
/// is `//` and the rest of the line; after `///` it is a `DOC_COMMENT` whose literal is the
/// rest of the line after the three slashes. `end` is where the line ends (a newline, or the
/// end of the input).
pub proof fn lemma_comment_token(s: LexView, end: int)
    requires
        s.moved(),
        0 <= s.position,
        s.position + 2 <= end <= s.chars.len(),
        s.current == '/',
        s.chars[s.position + 1] == '/',
        forall|i: int| s.position + 2 <= i < end ==> #[trigger] s.chars[i] != '\n' && s.chars[i] != '\0',
        end == s.chars.len() || s.chars[end] == '\n',
    ensures
        end > s.position + 2 && s.chars[s.position + 2] == '/' ==> s.next_token().0.typ
            == token::DOC_COMMENT@ && s.next_token().0.literal == s.chars.subrange(s.position + 3, end),
        !(end > s.position + 2 && s.chars[s.position + 2] == '/') ==> s.next_token().0.typ
            == token::COMMENT@ && s.next_token().0.literal == seq!['/', '/'] + s.chars.subrange(
            s.position + 2,
            end,
        ),
{
    assert(s.skip_whitespace() == s);
    assert(s.peek() == '/');
    let s1 = s.read_char().read_char();
    assert(s1.position == s.position + 2 && s1.moved());
    if end > s.position + 2 && s.chars[s.position + 2] == '/' {
        lemma_comment_run(s1.read_char(), end, seq![]);
        assert(seq![] + s.chars.subrange(s.position + 3, end) =~= s.chars.subrange(s.position + 3, end));
    } else {
        if end == s.position + 2 {
            assert(s1.current != '/');
        }
        lemma_comment_run(s1, end, seq![]);
        assert(seq![] + s.chars.subrange(s.position + 2, end) =~= s.chars.subrange(s.position + 2, end));
    }
}

} // verus!

