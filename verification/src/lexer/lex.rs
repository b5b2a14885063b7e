//! The easyjs lexer: turns source text into tokens.
use vstd::prelude::*;
use crate::lexer::model::{LexView, lemma_next_token_file, token_in_file, char_at, counter_limit, is_ident_char, is_ident_start, is_whitespace_char};
use crate::lexer::token::{self, Token, TokenView, spec_lookup_ident, spec_lookup_colon_special};
use crate::text::{self, push_char, push_str, is_alphabetic, is_numeric, spec_is_numeric, str_eq};

verus! {

/// Allowed chars in ident (other than letters of course)
pub const ALLOWED_IN_IDENT: &'static str = "0123456789_#";

/// Our Lexer structure.
pub struct Lex {
    /// The input, as characters.
    input_chars: Vec<char>,
    /// Current position of the Lexer in input
    position: usize,
    /// Current ReadPosition, i.e., one after where the position is at
    read_position: usize,
    /// Current char being read
    current_char: char,
    /// The current line our lexer is on.
    pub current_line: i32,
    /// The exact column number.
    pub current_col: i32,
    /// The file being parsed.
    pub current_file: String,
}

impl View for Lex {
    type V = LexView;

    closed spec fn view(&self) -> LexView {
        LexView {
            chars: self.input_chars@,
            position: self.position as int,
            read_position: self.read_position as int,
            current: self.current_char,
            line: self.current_line as int,
            col: self.current_col as int,
            file: self.current_file@,
        }
    }
}

/// Whether `c` is one of the characters of `ALLOWED_IN_IDENT`.
pub fn allowed_in_ident(c: char) -> (r: bool)
    ensures
        r == crate::lexer::model::is_allowed_in_ident(c),
{
    ('0' <= c && c <= '9') || c == '_' || c == '#'
}

/// The state in which a fresh lexer starts.
pub open spec fn initial_state(input: Seq<char>, file: Seq<char>) -> LexView {
    LexView { chars: input, position: 0, read_position: 0, current: ' ', line: 1, col: 1, file }
}

impl Lex {
    /// Create a new Lex instance. The input is bounded so that the `i32` line and column
    /// counters cannot overflow: a character can be read twice (reading an identifier or a
    /// number sets the read position back onto the character that ended it), so each
    /// character may add two to a counter.
    pub fn new(input: String) -> (r: Lex)
        requires
            input@.len() < 0x3FFF_FF00,
        ensures
            r@ == initial_state(input@, Seq::empty()),
            r@.wf(),
    {
        let input_chars = text::chars_of(input.as_str());
        Lex {
            input_chars,
            position: 0,
            read_position: 0,
            current_char: ' ',
            current_line: 1,
            current_col: 1,
            current_file: String::new(),
        }
    }

    /// Create a new lex instance and send in file name.
    pub fn new_with_file(input: String, file: String) -> (r: Lex)
        requires
            input@.len() < 0x3FFF_FF00,
        ensures
            r@ == initial_state(input@, file@),
            r@.wf(),
    {
        let mut l = Lex::new(input);
        l.current_file = file;
        l
    }

    /// The line the lexer is on.
    pub fn line(&self) -> (r: i32)
        ensures
            r as int == self@.line,
    {
        self.current_line
    }

    /// The column the lexer is on.
    pub fn col(&self) -> (r: i32)
        ensures
            r as int == self@.col,
    {
        self.current_col
    }

    /// The file being read.
    pub fn file(&self) -> (r: &String)
        ensures
            r@ == self@.file,
    {
        &self.current_file
    }

    /// checks if at the end of the file.
    fn is_eof(&self) -> (r: bool)
        ensures
            r == self@.is_eof(),
    {
        self.current_char == '\0'
    }

    /// Read the current Input[ReadPosition] character.
    /// Will update `position` and `read_position`.
    fn read_char(&mut self)
        requires
            old(self)@.lwf(),
            old(self)@.read_position <= old(self)@.chars.len() + 7,
        ensures
            final(self)@ == old(self)@.read_char(),
            final(self)@.lwf(),
            final(self)@.moved(),
    {
        proof {
            reveal_view(self);
        }
        if self.current_char == '\n' {
            self.current_line = self.current_line + 1;
            self.current_col = 1;
        } else {
            self.current_col = self.current_col + 1;
        }
        if self.read_position >= self.input_chars.len() {
            self.current_char = '\0';
        } else {
            self.current_char = self.input_chars[self.read_position];
        }
        self.position = self.read_position;
        self.read_position = self.read_position + 1;
    }

    /// Skip the whitespace in input.
    fn skip_whitespace(&mut self)
        requires
            old(self)@.lwf(),
            old(self)@.read_position <= old(self)@.chars.len() + 4,
        ensures
            final(self)@ == old(self)@.skip_whitespace(),
            final(self)@.lwf(),
            final(self)@.chars == old(self)@.chars,
            final(self)@.file == old(self)@.file,
            final(self)@ == old(self)@ || final(self)@.moved(),
            !(is_whitespace_char(final(self)@.current) && final(self)@.current != '\0'),
            final(self)@.read_position <= old(self)@.read_position
                || final(self)@.read_position <= final(self)@.chars.len() + 1,
            final(self)@.fuel() <= old(self)@.fuel(),
            final(self)@ == old(self)@ || final(self)@.fuel() < old(self)@.fuel(),
            final(self)@.line_room() <= old(self)@.line_room(),
            final(self)@.col_room() <= old(self)@.col_room() || final(self)@.col_room() < counter_limit() - 1,
    {
        let ghost target = self@.skip_whitespace();
        let ghost start = self@;
        while (self.current_char == ' ' || self.current_char == '\r' || self.current_char == '\t'
            || self.current_char == '\n') && self.current_char != '\0'
            invariant
                self@.lwf(),
                self@.skip_whitespace() == target,
                self@.chars == start.chars,
                self@.file == start.file,
                self@ == start || self@.moved(),
                self@.read_position <= start.read_position || self@.read_position <= self@.chars.len() + 1,
                self@.read_position <= self@.chars.len() + 4,
                self@.fuel() <= start.fuel(),
                self@ == start || self@.fuel() < start.fuel(),
                self@.line_room() <= start.line_room(),
                self@.col_room() <= start.col_room() || self@.col_room() < counter_limit() - 1,
            decreases self@.fuel(),
        {
            self.read_char();
        }
    }

    /// Create a String object with the current and peek char.
    fn cc_pp(&mut self) -> (r: String)
        requires
            old(self)@.lwf(),
            old(self)@.read_position <= old(self)@.chars.len() + 7,
        ensures
            (r@, final(self)@) == old(self)@.cc_pp(),
            final(self)@.lwf(),
            final(self)@.moved(),
    {
        let mut s = text::char_to_string(self.current_char);
        let p = self.peek_char();
        push_char(&mut s, p);
        assert(s@ =~= seq![old(self)@.current, old(self)@.peek()]);
        self.read_char();
        s
    }

    /// Get the current char as a String
    fn current_char_str(&self) -> (r: String)
        ensures
            r@ == seq![self@.current],
    {
        text::char_to_string(self.current_char)
    }

    /// Create a new token with type, literal, file name, line number, column number.
    fn create_new_token(&self, token_type: &str, token_literal: &str) -> (r: Token)
        ensures
            r@ == self@.make_token(token_type@, token_literal@),
    {
        token::new_token(token_type, token_literal, self.current_file.as_str(), self.current_line, self.current_col)
    }

    /// Read a string from '' to ""
    fn read_string(&mut self, cs: char) -> (r: String)
        requires
            old(self)@.ready(),
        ensures
            (r@, final(self)@) == old(self)@.read_string(cs),
            final(self)@.lwf(),
            final(self)@.moved(),
            final(self)@.chars == old(self)@.chars,
            final(self)@.file == old(self)@.file,
            final(self)@.read_position <= final(self)@.chars.len() + 1,
            final(self)@.fuel() < old(self)@.fuel(),
            final(self)@.line_room() < old(self)@.line_room(),
            final(self)@.col_room() < counter_limit() - 1,
    {
        let ghost target = self@.read_string(cs);
        let ghost start = self@;
        // Go to next char to not be stuck in the "
        self.read_char();
        let mut result = String::new();
        assert(result@ =~= Seq::<char>::empty());
        // go until end of statement.
        while self.current_char != cs && !self.is_eof()
            invariant
                self@.lwf(),
                self@.moved(),
                self@.string_loop(cs, result@) == target,
                self@.chars == start.chars,
                self@.file == start.file,
                self@.read_position <= self@.chars.len() + 1,
                self@.fuel() < start.fuel(),
                self@.line_room() < start.line_room(),
                self@.col_room() < counter_limit() - 1,
            decreases self@.fuel(),
        {
            // check for an escaped quote.
            let p = self.peek_char();
            if self.current_char == '\\' && (p == '"' || p == '\'') {
                push_char(&mut result, self.current_char);
                // move pass the backslash
                self.read_char();
            }
            // add the current character to the result string
            push_char(&mut result, self.current_char);
            self.read_char();
        }
        result
    }

    /// read the identifier
    fn read_identifier(&mut self) -> (r: String)
        requires
            old(self)@.ready(),
            is_ident_char(old(self)@.current),
        ensures
            (r@, final(self)@) == old(self)@.read_identifier(),
            final(self)@.lwf(),
            final(self)@.read_position == final(self)@.position,
            final(self)@.current == char_at(final(self)@.chars, final(self)@.position),
            final(self)@.chars == old(self)@.chars,
            final(self)@.file == old(self)@.file,
            final(self)@.read_position <= final(self)@.chars.len(),
            final(self)@.fuel() <= old(self)@.fuel(),
            final(self)@.line_room() <= old(self)@.line_room() + 1,
            final(self)@.col_room() <= counter_limit(),
            r@.len() > 0,
    {
        let ghost start = self@;
        let ghost target = self@.ident_loop(seq![]);
        let mut ident = String::new();
        assert(ident@ =~= Seq::<char>::empty());
        loop
            invariant
                start.ready(),
                is_ident_char(start.current),
                self@.lwf(),
                self@.moved(),
                self@.ident_loop(ident@) == target,
                self@.chars == start.chars,
                self@.file == start.file,
                self@.read_position <= self@.chars.len() + 1,
                ident@.len() == 0 ==> self@ == start,
                ident@.len() > 0 ==> self@.read_position > start.read_position && self@.line_room()
                    < start.line_room() && self@.col_room() <= counter_limit() - 2,
            ensures
                (ident@, self@) == target,
                self@.lwf(),
                self@.moved(),
                self@.chars == start.chars,
                self@.file == start.file,
                self@.read_position <= self@.chars.len() + 1,
                ident@.len() > 0,
                self@.read_position > start.read_position,
                self@.line_room() < start.line_room(),
                self@.col_room() <= counter_limit() - 2,
            decreases self@.fuel(),
        {
            let c = self.current_char;
            let ok = (is_alphabetic(c) || allowed_in_ident(c)) && !self.is_eof();
            if !ok {
                break;
            }
            // read the ident
            push_char(&mut ident, c);
            self.read_char();
        }
        self.read_position = self.position;
        ident
    }

    /// Get the full number.
    fn read_number(&mut self) -> (r: String)
        requires
            old(self)@.ready(),
            spec_is_numeric(old(self)@.current),
        ensures
            (r@, final(self)@) == old(self)@.read_number(),
            final(self)@.lwf(),
            final(self)@.read_position == final(self)@.position,
            final(self)@.current == char_at(final(self)@.chars, final(self)@.position),
            final(self)@.chars == old(self)@.chars,
            final(self)@.file == old(self)@.file,
            final(self)@.read_position <= final(self)@.chars.len() + 1,
            final(self)@.fuel() <= old(self)@.fuel(),
            final(self)@.fuel() < old(self)@.fuel() || final(self)@.read_position <= final(self)@.chars.len(),
            final(self)@.line_room() <= old(self)@.line_room() + 1,
            final(self)@.col_room() <= counter_limit(),
    {
        let ghost start = self@;
        let ghost target = self@.number_loop(seq![]);
        let mut number = String::new();
        assert(number@ =~= Seq::<char>::empty());
        loop
            invariant
                start.ready(),
                spec_is_numeric(start.current),
                self@.lwf(),
                self@.moved(),
                self@.number_loop(number@) == target,
                self@.chars == start.chars,
                self@.file == start.file,
                self@.read_position <= self@.chars.len() + 2,
                number@.len() == 0 ==> self@ == start,
                number@.len() > 0 ==> self@.read_position > start.read_position && self@.line_room()
                    < start.line_room() && self@.col_room() <= counter_limit() - 2,
            ensures
                (number@, self@) == target,
                self@.lwf(),
                self@.moved(),
                self@.chars == start.chars,
                self@.file == start.file,
                self@.read_position <= self@.chars.len() + 2,
                number@.len() > 0,
                self@.read_position > start.read_position,
                self@.line_room() < start.line_room(),
                self@.col_room() <= counter_limit() - 2,
            decreases self@.fuel(),
        {
            let c = self.current_char;
            let ok = (is_numeric(c) || c == '.') && !self.is_eof();
            if !ok {
                break;
            }
            if c == '.' {
                let p = self.peek_char();
                if is_numeric(p) {
                    push_char(&mut number, c);
                    self.read_char();
                } else {
                    break;
                }
            }
            push_char(&mut number, self.current_char);
            self.read_char();
        }
        self.read_position = self.position;
        number
    }

    /// Read the javascript token.
    fn read_javascript(&mut self) -> (r: String)
        requires
            old(self)@.lwf(),
            old(self)@.read_position == old(self)@.position,
            old(self)@.current == char_at(old(self)@.chars, old(self)@.position),
            old(self)@.read_position <= old(self)@.chars.len(),
        ensures
            (r@, final(self)@) == old(self)@.read_javascript(),
            final(self)@.lwf(),
            final(self)@.moved(),
            final(self)@.chars == old(self)@.chars,
            final(self)@.file == old(self)@.file,
            final(self)@.read_position <= final(self)@.chars.len() + 3,
            final(self)@.fuel() < old(self)@.fuel(),
    {
        let ghost start = self@;
        let ghost target = self@.read_javascript();
        let mut javascript = String::new();
        // move pass the javascript and the first {
        self.read_char();
        self.read_char();
        self.read_char();
        let mut braces: i32 = 1;
        assert(javascript@ =~= Seq::<char>::empty());
        while !self.is_eof()
            invariant_except_break
                self@.js_loop(braces as int, javascript@) == target,
                1 <= braces <= self@.position + 1,
            invariant
                self@.lwf(),
                self@.moved(),
                self@.chars == start.chars,
                self@.file == start.file,
                self@.read_position <= self@.chars.len() + 3,
                self@.fuel() < start.fuel(),
            ensures
                (javascript@, self@) == target,
                self@.lwf(),
                self@.moved(),
                self@.chars == start.chars,
                self@.file == start.file,
                self@.read_position <= self@.chars.len() + 3,
                self@.fuel() < start.fuel(),
            decreases self@.fuel(),
        {
            if self.current_char == '{' {
                braces = braces + 1;
            } else if self.current_char == '}' {
                braces = braces - 1;
                if braces == 0 {
                    // consume it as the literal.
                    self.read_char();
                    break;
                }
            }
            push_char(&mut javascript, self.current_char);
            self.read_char();
        }
        javascript
    }

    /// Scan a comment: the current character is `/` and so is the next one.
    fn scan_comment(&mut self) -> (r: (Token, bool))
        requires
            old(self)@.ready(),
            old(self)@.current == '/',
            old(self)@.peek() == '/',
        ensures
            (r.0@, final(self)@, r.1) == old(self)@.scan_comment(),
            final(self)@.lwf(),
            final(self)@.moved(),
            final(self)@.chars == old(self)@.chars,
            final(self)@.file == old(self)@.file,
            final(self)@.read_position <= final(self)@.chars.len() + 1,
            final(self)@.fuel() < old(self)@.fuel(),
            r.0@.file_name == old(self)@.file,
    {
        let ghost start = self@;
        // go next to not get stuck in the /
        self.read_char();
        self.read_char();
        let is_doc = self.current_char == '/';
        if is_doc {
            self.read_char();
        }
        let ghost target = self@.comment_loop(seq![]);
        let ghost mid = self@;
        let mut res = String::new();
        assert(res@ =~= Seq::<char>::empty());
        while self.current_char != '\n' && !self.is_eof()
            invariant
                self@.lwf(),
                self@.moved(),
                self@.comment_loop(res@) == target,
                self@.chars == start.chars,
                self@.file == start.file,
                self@.read_position <= self@.chars.len() + 1,
                self@.fuel() < start.fuel(),
            decreases self@.fuel(),
        {
            push_char(&mut res, self.current_char);
            self.read_char();
        }
        if is_doc {
            (self.create_new_token(token::DOC_COMMENT, res.as_str()), false)
        } else {
            let mut lit = String::new();
            push_str(&mut lit, "//");
            push_str(&mut lit, res.as_str());
            proof {
                reveal_strlit("//");
            }
            assert(lit@ =~= seq!['/', '/'] + res@);
            (self.create_new_token(token::COMMENT, lit.as_str()), false)
        }
    }

    /// A token of the current character alone.
    fn single(&mut self, typ: &str) -> (r: (Token, bool))
        requires
            old(self)@.ready(),
        ensures
            (r.0@, final(self)@, r.1) == old(self)@.single(typ@),
            old(self)@.scanned(final(self)@, r.1),
            r.0@.file_name == old(self)@.file,
    {
        let s = self.current_char_str();
        (self.create_new_token(typ, s.as_str()), false)
    }

    /// A token of the current character, or of it and the next when the next is `second`.
    fn one_or_two(&mut self, second: char, short: &str, long: &str) -> (r: (Token, bool))
        requires
            old(self)@.ready(),
        ensures
            (r.0@, final(self)@, r.1) == old(self)@.one_or_two(second, short@, long@),
            old(self)@.scanned(final(self)@, r.1),
            r.0@.file_name == old(self)@.file,
    {
        if self.peek_char() == second {
            let ccpp = self.cc_pp();
            (self.create_new_token(long, ccpp.as_str()), false)
        } else {
            self.single(short)
        }
    }

    /// Scan an identifier, keyword, `javascript{ ... }` block or number, or an illegal character.
    fn scan_word(&mut self) -> (r: (Token, bool))
        requires
            old(self)@.ready(),
        ensures
            (r.0@, final(self)@, r.1) == old(self)@.scan_word(),
            old(self)@.scanned(final(self)@, r.1),
            r.0@.file_name == old(self)@.file,
    {
        let c = self.current_char;
        if is_alphabetic(c) || c == '_' || c == '#' {
            let literal = self.read_identifier();
            // probably a identifier
            let ident = token::lookup_ident(literal.as_str());
            // if this a JS?
            if str_eq(ident, token::JAVASCRIPT) {
                let js_literal = self.read_javascript();
                let t = self.create_new_token(token::JAVASCRIPT, js_literal.as_str());
                self.read_char();
                return (t, true);
            }
            // return the identifier
            (self.create_new_token(ident, literal.as_str()), false)
        } else if is_numeric(c) {
            // probably a integer
            let number = self.read_number();
            if text::contains_char(number.as_str(), '.') {
                (self.create_new_token(token::FLOAT, number.as_str()), false)
            } else {
                (self.create_new_token(token::INT, number.as_str()), false)
            }
        } else {
            self.single(token::ILLEGAL)
        }
    }

    /// Scan a string literal, or a token that starts with `|`, `&`, `?` or `@`.
    fn scan_d(&mut self) -> (r: (Token, bool))
        requires
            old(self)@.ready(),
        ensures
            (r.0@, final(self)@, r.1) == old(self)@.scan_d(),
            old(self)@.scanned(final(self)@, r.1),
            r.0@.file_name == old(self)@.file,
    {
        let c = self.current_char;
        if c == '"' || c == '\'' {
            let string = self.read_string(c);
            (self.create_new_token(token::STRING, string.as_str()), false)
        } else if c == '|' {
            self.one_or_two('|', token::BITWISE_OR, token::OR_SYMBOL)
        } else if c == '&' {
            self.one_or_two('&', token::BITWISE_AND, token::AND_SYMBOL)
        } else if c == '?' {
            self.one_or_two('?', token::QUESTION_MARK, token::DOUBLE_QUESTION_MARK)
        } else if c == '@' {
            self.single(token::MACRO_SYMBOL)
        } else {
            self.scan_word()
        }
    }

    /// Scan a token that starts with `!`, `>`, `<`, `:` or `/`.
    fn scan_c(&mut self) -> (r: (Token, bool))
        requires
            old(self)@.ready(),
        ensures
            (r.0@, final(self)@, r.1) == old(self)@.scan_c(),
            old(self)@.scanned(final(self)@, r.1),
            r.0@.file_name == old(self)@.file,
    {
        let c = self.current_char;
        if c == '!' {
            self.one_or_two('=', token::BANG, token::NOT_EQ)
        } else if c == '>' {
            self.one_or_two('=', token::GT, token::GT_OR_EQ)
        } else if c == '<' {
            self.one_or_two('=', token::LT, token::LT_OR_EQ)
        } else if c == ':' {
            let next_char = self.peek_char();
            let mut pair = text::char_to_string(c);
            push_char(&mut pair, next_char);
            assert(pair@ =~= seq![c, next_char]);
            let token_type = token::lookup_colon_special(pair.as_str());
            if !str_eq(token_type, token::COLON) {
                let ccpp = self.cc_pp();
                (self.create_new_token(token_type, ccpp.as_str()), false)
            } else {
                let s = self.current_char_str();
                (self.create_new_token(token_type, s.as_str()), false)
            }
        } else if c == '/' {
            let p = self.peek_char();
            if p == '/' {
                self.scan_comment()
            } else if p == '=' {
                let ccpp = self.cc_pp();
                (self.create_new_token(token::SLASH_EQUALS, ccpp.as_str()), false)
            } else {
                self.single(token::SLASH)
            }
        } else {
            self.scan_d()
        }
    }

    /// Scan a token of one bracket or delimiter character.
    fn scan_b(&mut self) -> (r: (Token, bool))
        requires
            old(self)@.ready(),
        ensures
            (r.0@, final(self)@, r.1) == old(self)@.scan_b(),
            old(self)@.scanned(final(self)@, r.1),
            r.0@.file_name == old(self)@.file,
    {
        let c = self.current_char;
        if c == '{' {
            self.single(token::L_BRACE)
        } else if c == '}' {
            self.single(token::R_BRACE)
        } else if c == '(' {
            self.single(token::L_PAREN)
        } else if c == ')' {
            self.single(token::R_PAREN)
        } else if c == ',' {
            self.single(token::COMMA)
        } else if c == ';' {
            self.single(token::SEMICOLON)
        } else if c == '\n' {
            self.single(token::EOL)
        } else if c == '[' {
            self.single(token::L_BRACKET)
        } else if c == ']' {
            self.single(token::R_BRACKET)
        } else if c == '%' {
            self.single(token::MODULUS)
        } else {
            self.scan_c()
        }
    }

    /// Scan a token that starts with `=`, `.`, `+`, `-` or `*`, or any other token.
    fn scan_a(&mut self) -> (r: (Token, bool))
        requires
            old(self)@.ready(),
        ensures
            (r.0@, final(self)@, r.1) == old(self)@.scan_a(),
            old(self)@.scanned(final(self)@, r.1),
            r.0@.file_name == old(self)@.file,
    {
        let c = self.current_char;
        if c == '=' {
            self.one_or_two('=', token::ASSIGN, token::EQ)
        } else if c == '.' {
            if self.peek_char() == '.' {
                let ccpp = self.cc_pp();
                // Check again
                if self.peek_char() == '.' {
                    // We got a spread
                    self.read_char();
                    let mut lit = ccpp;
                    push_char(&mut lit, self.current_char);
                    (self.create_new_token(token::SPREAD, lit.as_str()), false)
                } else {
                    (self.create_new_token(token::DOTDOT, ccpp.as_str()), false)
                }
            } else {
                self.single(token::DOT)
            }
        } else if c == '+' {
            self.one_or_two('=', token::PLUS, token::PLUS_EQUALS)
        } else if c == '-' {
            self.one_or_two('=', token::MINUS, token::MINUS_EQUALS)
        } else if c == '*' {
            self.one_or_two('=', token::ASTERISK, token::ASTERISK_EQUALS)
        } else {
            self.scan_b()
        }
    }

    /// Read the next token via the lexer.
    pub fn next_token(&mut self) -> (r: Token)
        requires
            old(self)@.wf(),
        ensures
            (r@, final(self)@) == old(self)@.next_token(),
            final(self)@.wf(),
            final(self)@.chars == old(self)@.chars,
            final(self)@.file == old(self)@.file,
            old(self)@.is_eof() ==> final(self)@ == old(self)@ && r@.typ == token::EOF@,
            !old(self)@.is_eof() ==> final(self)@.fuel() < old(self)@.fuel(),
            r@.typ == token::EOF@ ==> final(self)@.is_eof() && r@ == final(self)@.make_token(
                token::EOF@,
                seq!['\0'],
            ),
            r@.file_name == old(self)@.file,
    {
        proof {
            token::lemma_eof_is_distinct();
        }
        self.skip_whitespace();
        if self.is_eof() {
            let s = self.current_char_str();
            return self.create_new_token(token::EOF, s.as_str());
        }
        let (tok, done) = self.scan_a();
        if done {
            return tok;
        }
        // read next char!
        self.read_char();
        // return the token
        tok
    }

    /// peek the next character without changing position
    fn peek_char(&self) -> (r: char)
        requires
            self@.lwf(),
        ensures
            r == self@.peek(),
    {
        if self.read_position >= self.input_chars.len() {
            '\0'
        } else {
            self.input_chars[self.read_position]
        }
    }
}

/// The view of a lexer is made of its fields.
proof fn reveal_view(l: &Lex)
    ensures
        l@.chars == l.input_chars@,
        l@.position == l.position as int,
        l@.read_position == l.read_position as int,
        l@.current == l.current_char,
        l@.line == l.current_line as int,
        l@.col == l.current_col as int,
        l@.file == l.current_file@,
{
}

/// The tokens of a well-formed state, up to the point where the lexer stops.
pub open spec fn all_tokens(s: LexView) -> Seq<TokenView>
    decreases s.fuel(),
{
    if s.is_eof() {
        Seq::empty()
    } else {
        let (t, s2) = s.next_token();
        if s2.fuel() < s.fuel() {
            seq![t] + all_tokens(s2)
        } else {
            seq![t]
        }
    }
}

/// The tokens of a state in another file: the same tokens, named with that file.
pub proof fn lemma_all_tokens_file(l: LexView, f: Seq<char>)
    ensures
        all_tokens(l.with_file(f)) == all_tokens(l).map_values(|t: TokenView| token_in_file(t, f)),
    decreases l.fuel(),
{
    lemma_next_token_file(l, f);
    if !l.is_eof() {
        let (t, l2) = l.next_token();
        if l2.fuel() < l.fuel() {
            lemma_all_tokens_file(l2, f);
            assert(all_tokens(l).map_values(|t: TokenView| token_in_file(t, f)) =~= seq![
                token_in_file(t, f),
            ] + all_tokens(l2).map_values(|t: TokenView| token_in_file(t, f)));
        } else {
            assert(all_tokens(l).map_values(|t: TokenView| token_in_file(t, f)) =~= seq![
                token_in_file(t, f),
            ]);
        }
    } else {
        assert(all_tokens(l).map_values(|t: TokenView| token_in_file(t, f)) =~= Seq::<
            TokenView,
        >::empty());
    }
}

/// A lexer made with a file name gives the tokens of one made without it, each named with
/// that file.
pub proof fn lemma_new_with_file_tokens(input: Seq<char>, f: Seq<char>)
    ensures
        all_tokens(initial_state(input, f)) == all_tokens(initial_state(input, Seq::empty())).map_values(
            |t: TokenView| token_in_file(t, f),
        ),
{
    assert(initial_state(input, f) == initial_state(input, Seq::empty()).with_file(f));
    lemma_all_tokens_file(initial_state(input, Seq::empty()), f);
}

/// Used for testing only.
pub fn read_all_tokens(input: String) -> (r: Vec<Token>)
    requires
        input@.len() < 0x3FFF_FF00,
    ensures
        r@.map_values(|t: Token| t@) == all_tokens(initial_state(input@, Seq::empty())),
{
    let mut tokens: Vec<Token> = vec![];
    let mut lexer = Lex::new(input);
    let ghost target = all_tokens(lexer@);
    while !lexer.is_eof()
        invariant
            lexer@.wf(),
            tokens@.map_values(|t: Token| t@) + all_tokens(lexer@) == target,
        decreases lexer@.fuel(),
    {
        let ghost before = lexer@;
        let t = lexer.next_token();
        proof {
            assert(tokens@.push(t).map_values(|t: Token| t@) =~= tokens@.map_values(|t: Token| t@).push(t@));
        }
        tokens.push(t);
        assert(tokens@.map_values(|t: Token| t@) + all_tokens(lexer@) =~= target);
    }
    assert(tokens@.map_values(|t: Token| t@) + all_tokens(lexer@) =~= tokens@.map_values(|t: Token| t@));
    tokens
}

} // verus!
