//! The mathematical model of the parser: its state, and what each parsing step does.
//!
//! The parsing functions below are mutually recursive. Each recursive call is made
//! either from the same state to a function of lower rank, or from a state whose measure
//! `mu` is smaller; the conditions `s1.mu() < s.mu()` that guard the latter calls always
//! hold for well-formed states (the parser's functions prove it as they run), and only
//! serve to show that the definitions terminate.
use vstd::prelude::*;
use crate::lexer::model::LexView;
use crate::lexer::token::{self, TokenView};
use crate::parser::ast::{ExprV, StmtV};
use crate::text::decimal;
use crate::parser::numbers::{float_syntax, spec_parse_i64};

verus! {

/// The state of the parser.
pub struct PView {
    /// The lexer.
    pub lex: LexView,
    /// The current token.
    pub cur: TokenView,
    /// The next token.
    pub peek: TokenView,
    /// The errors found so far.
    pub errors: Seq<Seq<char>>,
}

/// The precedence of a token type.
pub open spec fn precedence_of(tk: Seq<char>) -> i64 {
    if tk == token::EQ@ || tk == token::NOT_EQ@ {
        EQUALS
    } else if tk == token::LT@ || tk == token::GT@ || tk == token::LT_OR_EQ@ || tk == token::GT_OR_EQ@ {
        LESSGREATER
    } else if tk == token::PLUS@ || tk == token::MINUS@ {
        SUM
    } else if tk == token::SLASH@ || tk == token::ASTERISK@ || tk == token::MODULUS@ {
        PRODUCT
    } else if tk == token::L_PAREN@ {
        CALL
    } else if tk == token::DOT@ || tk == token::SPREAD@ {
        DOT
    } else if tk == token::L_BRACKET@ {
        BRACKET
    } else if tk == token::L_BRACE@ {
        BRACE
    } else if tk == token::DOTDOT@ {
        DOTDOT
    } else if tk == token::IN@ || tk == token::IS@ {
        IN
    } else if tk == token::AWAIT@ {
        AWAIT
    } else if tk == token::ASSIGN@ || tk == token::PLUS_EQUALS@ || tk == token::MINUS_EQUALS@
        || tk == token::SLASH_EQUALS@ || tk == token::ASTERISK_EQUALS@ {
        ASSIGN
    } else if tk == token::AS@ {
        AS
    } else if tk == token::DOC_COMMENT@ {
        DOC_COMMENT
    } else if tk == token::BITWISE_OR@ || tk == token::OR_SYMBOL@ {
        OR
    } else if tk == token::BITWISE_AND@ || tk == token::AND_SYMBOL@ {
        AND
    } else if tk == token::DOUBLE_QUESTION_MARK@ {
        DOUBLE_QUESTION_MARK
    } else {
        LOWEST
    }
}

pub const LOWEST: i64 = 1;
pub const EQUALS: i64 = 2;
pub const LESSGREATER: i64 = 3;
pub const SUM: i64 = 4;
pub const PRODUCT: i64 = 5;
pub const DOT: i64 = 6;
pub const CALL: i64 = 7;
pub const BRACKET: i64 = 10;
pub const BRACE: i64 = 11;
pub const DOTDOT: i64 = 12;
pub const IN: i64 = 13;
pub const AWAIT: i64 = 15;
pub const ASSIGN: i64 = 16;
pub const AS: i64 = 18;
pub const DOC_COMMENT: i64 = 20;
pub const AND: i64 = 22;
pub const OR: i64 = 23;
pub const DOUBLE_QUESTION_MARK: i64 = 25;

/// The parsing function that starts an expression at a token.
pub enum PrefixKind {
    Identifier,
    IntegerLiteral,
    FloatLiteral,
    Prefix,
    Not,
    Boolean,
    Null,
    Group,
    If,
    FunctionLiteral,
    StringLiteral,
    Comment,
    ArrayLiteral,
    Async,
    As,
    Await,
    Spread,
    DocComment,
    Class,
    Import,
}

/// The parsing function that continues an expression at an operator.
pub enum InfixKind {
    Infix,
    Call,
    Dot,
    Index,
    Range,
    In,
    Assign,
    And,
    Or,
    DefaultIfNull,
    Is,
}

/// The prefix parsing function of a token type, if it has one.
pub open spec fn prefix_kind(t: Seq<char>) -> Option<PrefixKind> {
    if t == token::IDENT@ || t == token::THIS@ {
        Some(PrefixKind::Identifier)
    } else if t == token::INT@ {
        Some(PrefixKind::IntegerLiteral)
    } else if t == token::FLOAT@ {
        Some(PrefixKind::FloatLiteral)
    } else if t == token::BANG@ || t == token::MINUS@ {
        Some(PrefixKind::Prefix)
    } else if t == token::NOT@ {
        Some(PrefixKind::Not)
    } else if t == token::TRUE@ || t == token::FALSE@ {
        Some(PrefixKind::Boolean)
    } else if t == token::NULL@ {
        Some(PrefixKind::Null)
    } else if t == token::L_PAREN@ {
        Some(PrefixKind::Group)
    } else if t == token::IF@ {
        Some(PrefixKind::If)
    } else if t == token::FUNCTION@ {
        Some(PrefixKind::FunctionLiteral)
    } else if t == token::STRING@ {
        Some(PrefixKind::StringLiteral)
    } else if t == token::COMMENT@ {
        Some(PrefixKind::Comment)
    } else if t == token::L_BRACKET@ {
        Some(PrefixKind::ArrayLiteral)
    } else if t == token::ASYNC@ {
        Some(PrefixKind::Async)
    } else if t == token::AS@ {
        Some(PrefixKind::As)
    } else if t == token::AWAIT@ {
        Some(PrefixKind::Await)
    } else if t == token::SPREAD@ {
        Some(PrefixKind::Spread)
    } else if t == token::DOC_COMMENT@ {
        Some(PrefixKind::DocComment)
    } else if t == token::CLASS@ {
        Some(PrefixKind::Class)
    } else if t == token::IMPORT@ {
        Some(PrefixKind::Import)
    } else {
        None
    }
}

/// The infix parsing function of a token type, if it has one.
pub open spec fn infix_kind(t: Seq<char>) -> Option<InfixKind> {
    if t == token::PLUS@ || t == token::MINUS@ || t == token::SLASH@ || t == token::ASTERISK@ || t
        == token::EQ@ || t == token::NOT_EQ@ || t == token::LT@ || t == token::GT@ || t
        == token::LT_OR_EQ@ || t == token::GT_OR_EQ@ || t == token::JAVASCRIPT@ || t
        == token::BITWISE_AND@ || t == token::BITWISE_OR@ || t == token::MODULUS@ || t
        == token::PLUS_EQUALS@ || t == token::MINUS_EQUALS@ || t == token::SLASH_EQUALS@ || t
        == token::ASTERISK_EQUALS@ {
        Some(InfixKind::Infix)
    } else if t == token::L_PAREN@ {
        Some(InfixKind::Call)
    } else if t == token::DOT@ {
        Some(InfixKind::Dot)
    } else if t == token::L_BRACKET@ {
        Some(InfixKind::Index)
    } else if t == token::DOTDOT@ {
        Some(InfixKind::Range)
    } else if t == token::IN@ {
        Some(InfixKind::In)
    } else if t == token::ASSIGN@ {
        Some(InfixKind::Assign)
    } else if t == token::AND_SYMBOL@ {
        Some(InfixKind::And)
    } else if t == token::OR_SYMBOL@ {
        Some(InfixKind::Or)
    } else if t == token::DOUBLE_QUESTION_MARK@ {
        Some(InfixKind::DefaultIfNull)
    } else if t == token::IS@ {
        Some(InfixKind::Is)
    } else {
        None
    }
}

impl PView {
    /// A measure that every parsing step keeps or lowers, and that reading a token
    /// lowers unless the current token is already `EOF`.
    pub open spec fn mu(self) -> nat {
        3 * self.lex.fuel() + (if self.cur.typ != token::EOF@ { 1nat } else { 0nat }) + (if self.peek.typ
            != token::EOF@ { 1nat } else { 0nat })
    }

    /// Well-formed parser state: after an `EOF` token, only `EOF` follows.
    pub open spec fn inv(self) -> bool {
        &&& self.lex.wf()
        &&& self.peek.typ == token::EOF@ ==> self.lex.is_eof() && self.peek == self.lex.make_token(
            token::EOF@,
            seq!['\0'],
        )
        &&& self.cur.typ == token::EOF@ ==> self.cur == self.peek
    }

    /// The two states are at the same place in the input.
    pub open spec fn same_pos(self, other: PView) -> bool {
        self.lex == other.lex && self.cur == other.cur && self.peek == other.peek
    }

    /// What every parsing step keeps: the state stays well formed, the measure never
    /// grows and shrinks unless the step read nothing, and errors are only added.
    pub open spec fn stepped_to(self, s: PView) -> bool {
        &&& s.inv()
        &&& s.mu() <= self.mu()
        &&& s.mu() < self.mu() || s.same_pos(self)
        &&& self.errors.is_prefix_of(s.errors)
    }

    /// Move forward in the token hierachy
    pub open spec fn next(self) -> PView {
        let (t, l) = self.lex.next_token();
        PView { cur: self.peek, peek: t, lex: l, ..self }
    }

    pub open spec fn cur_is(self, t: Seq<char>) -> bool {
        self.cur.typ == t
    }

    pub open spec fn peek_is(self, t: Seq<char>) -> bool {
        self.peek.typ == t
    }

    pub open spec fn cur_is_eos(self) -> bool {
        self.cur_is(token::SEMICOLON@) || self.cur_is(token::EOL@)
    }

    pub open spec fn peek_is_eos(self) -> bool {
        self.peek_is(token::SEMICOLON@) || self.peek_is(token::EOL@)
    }

    pub open spec fn peek_is_or_eof(self, t: Seq<char>) -> bool {
        self.peek_is(t) || self.peek_is(token::EOF@)
    }

    /// The text of an error, with the lexer's file, line and column.
    pub open spec fn error_text(self, msg: Seq<char>) -> Seq<char> {
        "File: "@ + self.lex.file + " Line "@ + decimal(self.lex.line) + "."@ + decimal(self.lex.col)
            + ": "@ + msg
    }

    /// Add an error
    pub open spec fn add_error(self, msg: Seq<char>) -> PView {
        PView { errors: self.errors.push(self.error_text(msg)), ..self }
    }

    /// Expect the peek token to be of type, writes error if failed.
    pub open spec fn expect_peek(self, t: Seq<char>) -> (bool, PView) {
        if self.peek_is(t) {
            (true, self.next())
        } else {
            (
                false,
                self.add_error(
                    "Expected next token to be "@ + t + " but got "@ + self.peek.typ + " instead."@,
                ),
            )
        }
    }

    /// Expect peek token to be eos
    pub open spec fn expect_peek_eos(self) -> (bool, PView) {
        if !self.peek_is_eos() {
            (false, self.add_error("Expected EOS but got: "@ + self.peek.typ + " instead"@))
        } else {
            (true, self.next())
        }
    }
}

/// Parse an identifier
pub open spec fn p_identifier(s: PView) -> (ExprV, PView) {
    (ExprV::Identifier(s.cur, s.cur.literal), s)
}

/// Parse a type: the current token is followed by `:` and a name.
pub open spec fn p_type(s: PView) -> (ExprV, PView) {
    let token = s.cur;
    let s1 = s.next();
    let (ok, s2) = s1.expect_peek(token::IDENT@);
    if !ok {
        (ExprV::EmptyExpression, s2)
    } else {
        (ExprV::Type(token, s2.cur.literal), s2)
    }
}

/// The type `none`.
pub open spec fn none_type(tk: TokenView) -> ExprV {
    ExprV::Type(tk, "none"@)
}

/// The type `dyn`.
pub open spec fn dyn_type(tk: TokenView) -> ExprV {
    ExprV::Type(tk, "dyn"@)
}

/// parse an integer literal, returns EmptyExpression if not valid.
pub open spec fn p_integer_literal(s: PView) -> (ExprV, PView) {
    match spec_parse_i64(s.cur.literal) {
        Some(v) => (ExprV::IntegerLiteral(s.cur, v), s),
        None => (
            ExprV::EmptyExpression,
            s.add_error("Epected type INT got "@ + s.cur.literal + " instead"@),
        ),
    }
}

/// parse a float literal: its text is kept when `str::parse::<f64>` accepts it.
pub open spec fn p_float_literal(s: PView) -> (ExprV, PView) {
    if float_syntax(s.cur.literal) {
        (ExprV::FloatLiteral(s.cur, s.cur.literal), s)
    } else {
        (ExprV::EmptyExpression, s.add_error("Epected type FLOAT got "@ + s.cur.literal + " instead"@))
    }
}

/// parse a boolean
pub open spec fn p_boolean(s: PView) -> (ExprV, PView) {
    (ExprV::Boolean(s.cur, s.cur_is(token::TRUE@)), s)
}

pub open spec fn p_null(s: PView) -> (ExprV, PView) {
    (ExprV::NullExpression(s.cur), s)
}

pub open spec fn p_string_literal(s: PView) -> (ExprV, PView) {
    (ExprV::StringLiteral(s.cur, s.cur.literal), s)
}

pub open spec fn p_comment(s: PView) -> (ExprV, PView) {
    (ExprV::CommentExpression(s.cur, s.cur.literal), s)
}

/// The doc comments that follow, one per line.
pub open spec fn doc_loop(s: PView, comments: Seq<Seq<char>>) -> (Seq<Seq<char>>, PView)
    decreases s.mu(),
{
    if s.peek_is(token::DOC_COMMENT@) {
        let s1 = s.next();
        if s1.mu() < s.mu() {
            doc_loop(s1, comments.push(s1.cur.literal))
        } else {
            (comments.push(s1.cur.literal), s1)
        }
    } else {
        (comments, s)
    }
}

pub open spec fn p_doc_comment(s: PView) -> (ExprV, PView) {
    let (comments, s1) = doc_loop(s, seq![s.cur.literal]);
    (ExprV::DocCommentExpression(s.cur, comments), s1)
}

pub open spec fn p_import(s: PView) -> (ExprV, PView) {
    let token = s.cur;
    let (ok, s1) = s.expect_peek(token::L_PAREN@);
    if !ok {
        (ExprV::EmptyExpression, s1)
    } else {
        let (ok2, s2) = s1.expect_peek(token::STRING@);
        if !ok2 {
            (ExprV::EmptyExpression, s2)
        } else {
            let (path, s3) = p_string_literal(s2);
            (ExprV::Import(token, Box::new(path)), s3)
        }
    }
}

/// Parse a statement, returns EmptyStatement on error.
pub open spec fn p_statement(s: PView) -> (StmtV, PView)
    decreases s.mu(), 40nat,
{
    let t = s.cur.typ;
    let (stmt, s1) = if t == token::IDENT@ {
        if s.peek_is(token::ASSIGN@) || s.peek_is(token::COLON@) || s.peek_is(
            token::CONSTANT_ASSIGNMENT@,
        ) {
            p_var_statement(s)
        } else {
            p_expression_statement(s)
        }
    } else if t == token::RETURN@ {
        p_return_statement(s)
    } else if t == token::JAVASCRIPT@ {
        (StmtV::JavaScriptStatement(s.cur, s.cur.literal), s)
    } else if t == token::FOR@ {
        p_for_statement(s)
    } else if t == token::PUB@ {
        p_export_statement(s)
    } else if t == token::ASYNC@ {
        p_async_block_statement(s)
    } else if t == token::MATCH@ {
        p_match_statement(s)
    } else if t == token::BREAK@ {
        (StmtV::BreakStatement(s.cur), s)
    } else if t == token::CONTINUE@ {
        (StmtV::ContinueStatement(s.cur), s)
    } else if t == token::ANNOTATOR@ {
        p_annotation_statement(s)
    } else {
        p_expression_statement(s)
    };
    // if next token is a ';'
    if s1.peek_is(token::SEMICOLON@) {
        (stmt, s1.next())
    } else {
        (stmt, s1)
    }
}

pub open spec fn p_var_statement(s: PView) -> (StmtV, PView)
    decreases s.mu(), 30nat,
{
    let token = s.cur;
    let (name, s1) = p_identifier(s);
    let (var_type, s2) = if s1.peek_is(token::COLON@) {
        p_type(s1)
    } else {
        (none_type(token), s1)
    };
    if !s2.peek_is(token::ASSIGN@) && !s2.peek_is(token::CONSTANT_ASSIGNMENT@) {
        (
            StmtV::VariableStatement(
                token,
                Box::new(name),
                Box::new(var_type),
                Box::new(ExprV::EmptyExpression),
            ),
            s2,
        )
    } else {
        let is_const = s2.peek_is(token::CONSTANT_ASSIGNMENT@);
        let s3 = s2.next().next();
        if s3.mu() < s.mu() {
            let (value, s4) = p_expression(s3, LOWEST);
            if is_const {
                (
                    StmtV::ConstVariableStatement(
                        token,
                        Box::new(name),
                        Box::new(var_type),
                        Box::new(value),
                    ),
                    s4,
                )
            } else {
                (
                    StmtV::VariableStatement(token, Box::new(name), Box::new(var_type), Box::new(value)),
                    s4,
                )
            }
        } else {
            (StmtV::EmptyStatement, s3)
        }
    }
}

pub open spec fn p_return_statement(s: PView) -> (StmtV, PView)
    decreases s.mu(), 30nat,
{
    let token = s.cur;
    if s.peek_is(token::R_BRACE@) {
        (StmtV::ReturnStatement(token, Box::new(ExprV::EmptyExpression)), s)
    } else {
        let s1 = s.next();
        if s1.mu() < s.mu() {
            let (value, s2) = p_expression(s1, LOWEST);
            (StmtV::ReturnStatement(token, Box::new(value)), s2)
        } else {
            (StmtV::EmptyStatement, s1)
        }
    }
}

pub open spec fn p_expression_statement(s: PView) -> (StmtV, PView)
    decreases s.mu(), 25nat,
{
    let token = s.cur;
    let (expression, s1) = p_expression(s, LOWEST);
    if expression is EmptyExpression {
        (StmtV::EmptyStatement, s1)
    } else {
        (StmtV::ExpressionStatement(token, Box::new(expression)), s1)
    }
}

/// The statements of a block, up to `}` or the end of input.
pub open spec fn block_loop(s: PView, stmts: Seq<StmtV>) -> (Seq<StmtV>, PView)
    decreases s.mu(), 45nat,
{
    if !s.cur_is(token::R_BRACE@) && !s.cur_is(token::EOF@) {
        let (stmt, s1) = p_statement(s);
        let stmts1 = if stmt is EmptyStatement {
            stmts
        } else {
            stmts.push(stmt)
        };
        let s2 = s1.next();
        if s2.mu() < s.mu() {
            block_loop(s2, stmts1)
        } else {
            (stmts1, s2)
        }
    } else {
        (stmts, s)
    }
}

pub open spec fn p_block_statement(s: PView) -> (StmtV, PView)
    decreases s.mu(), 22nat,
{
    let token = s.cur;
    let s1 = s.next();
    if s1.mu() < s.mu() {
        let (stmts, s2) = block_loop(s1, Seq::empty());
        (StmtV::BlockStatement(token, stmts), s2)
    } else {
        (StmtV::BlockStatement(token, Seq::empty()), s1)
    }
}

pub open spec fn p_for_statement(s: PView) -> (StmtV, PView)
    decreases s.mu(), 30nat,
{
    let token = s.cur;
    let has_paren = s.peek_is(token::L_PAREN@);
    let s1 = if has_paren {
        s.next()
    } else {
        s
    };
    let s2 = s1.next();
    if s2.mu() < s.mu() {
        let (condition, s3) = p_expression(s2, LOWEST);
        if condition is EmptyExpression {
            (StmtV::EmptyStatement, s3)
        } else {
            let (ok, s4) = if has_paren {
                s3.expect_peek(token::R_PAREN@)
            } else {
                (true, s3)
            };
            if !ok {
                (StmtV::EmptyStatement, s4)
            } else {
                let (ok2, s5) = s4.expect_peek(token::L_BRACE@);
                if !ok2 {
                    (StmtV::EmptyStatement, s5)
                } else if s5.mu() < s.mu() {
                    let (body, s6) = p_block_statement(s5);
                    (StmtV::ForStatement(token, Box::new(condition), Box::new(body)), s6)
                } else {
                    (StmtV::EmptyStatement, s5)
                }
            }
        }
    } else {
        (StmtV::EmptyStatement, s2)
    }
}

pub open spec fn p_export_statement(s: PView) -> (StmtV, PView)
    decreases s.mu(), 30nat,
{
    let token = s.cur;
    let s1 = s.next();
    if s1.mu() < s.mu() {
        let (stmt, s2) = p_statement(s1);
        (StmtV::ExportStatement(token, Box::new(stmt)), s2)
    } else {
        (StmtV::EmptyStatement, s1)
    }
}

pub open spec fn p_async_block_statement(s: PView) -> (StmtV, PView)
    decreases s.mu(), 35nat,
{
    let token = s.cur;
    if !s.peek_is(token::L_BRACE@) {
        p_expression_statement(s)
    } else {
        let s1 = s.next();
        if s1.mu() < s.mu() {
            let (block, s2) = p_block_statement(s1);
            (StmtV::AsyncBlockStatement(token, Box::new(block)), s2)
        } else {
            (StmtV::EmptyStatement, s1)
        }
    }
}

/// The cases of a match statement, up to the closing `}`; `None` when one is malformed.
pub open spec fn match_loop(s: PView, conditions: Seq<(ExprV, StmtV)>) -> (
    Option<Seq<(ExprV, StmtV)>>,
    PView,
)
    decreases s.mu(), 30nat,
{
    if !s.peek_is(token::R_BRACE@) {
        let s1 = s.next();
        if s1.mu() <= s.mu() {
            let (left_condition, s2) = p_expression(s1, LOWEST);
            let (ok, s3) = s2.expect_peek(token::COLON@);
            if !ok {
                (None, s3)
            } else {
                let s4 = s3.next();
                if s4.mu() < s.mu() {
                    let (right_block, s5) = p_block_statement(s4);
                    if s5.mu() < s.mu() {
                        match_loop(s5, conditions.push((left_condition, right_block)))
                    } else {
                        (None, s5)
                    }
                } else {
                    (None, s4)
                }
            }
        } else {
            (None, s1)
        }
    } else {
        (Some(conditions), s)
    }
}

pub open spec fn p_match_statement(s: PView) -> (StmtV, PView)
    decreases s.mu(), 30nat,
{
    let token = s.cur;
    let (ok, s1) = s.expect_peek(token::IDENT@);
    if !ok {
        (StmtV::EmptyStatement, s1)
    } else if s1.mu() < s.mu() {
        let (expr, s2) = p_expression(s1, LOWEST);
        let (ok2, s3) = s2.expect_peek(token::L_BRACE@);
        if !ok2 {
            (StmtV::EmptyStatement, s3)
        } else if s3.peek_is(token::R_BRACE@) {
            (StmtV::MatchStatement(token, Box::new(expr), Seq::empty()), s3.next())
        } else if s3.mu() < s.mu() {
            let (conditions, s4) = match_loop(s3, Seq::empty());
            match conditions {
                None => (StmtV::EmptyStatement, s4),
                Some(cs) => {
                    let (ok3, s5) = s4.expect_peek(token::R_BRACE@);
                    if !ok3 {
                        (StmtV::EmptyStatement, s5)
                    } else {
                        (StmtV::MatchStatement(token, Box::new(expr), cs), s5)
                    }
                },
            }
        } else {
            (StmtV::EmptyStatement, s3)
        }
    } else {
        (StmtV::EmptyStatement, s1)
    }
}

pub open spec fn p_annotation_statement(s: PView) -> (StmtV, PView)
    decreases s.mu(), 30nat,
{
    let token = s.cur;
    let (ok, s1) = s.expect_peek(token::IDENT@);
    if !ok {
        (StmtV::EmptyStatement, s1)
    } else {
        let annotation = token.literal;
        let s2 = s1.next();
        if s2.mu() < s.mu() {
            let (stmt, s3) = p_statement(s2);
            (StmtV::AnnotationStatement(token, annotation, Box::new(stmt)), s3)
        } else {
            (StmtV::EmptyStatement, s2)
        }
    }
}

/// Parse an expression whose operators bind tighter than `precedence`.
pub open spec fn p_expression(s: PView, precedence: i64) -> (ExprV, PView)
    decreases s.mu(), 10nat,
{
    match prefix_kind(s.cur.typ) {
        None => (ExprV::EmptyExpression, s),
        Some(kind) => {
            let (left, s1) = p_prefix(s, kind);
            if s1.mu() <= s.mu() {
                expression_loop(s1, precedence, left)
            } else {
                (left, s1)
            }
        },
    }
}

/// The infix operators that continue an expression, while they bind tighter than
/// `precedence`; each is parsed by the function that its token type selects.
pub open spec fn expression_loop(s: PView, precedence: i64, left: ExprV) -> (ExprV, PView)
    decreases s.mu(), 9nat,
{
    if !(s.peek_is_eos() || s.peek_is(token::EOF@)) && precedence < precedence_of(s.peek.typ) {
        match infix_kind(s.peek.typ) {
            Some(kind) => {
                let s1 = s.next();
                if s1.mu() < s.mu() {
                    let (left1, s2) = p_infix(s1, kind, left);
                    if s2.mu() < s.mu() {
                        expression_loop(s2, precedence, left1)
                    } else {
                        (left1, s2)
                    }
                } else {
                    (left, s1)
                }
            },
            None => (left, s),
        }
    } else {
        (left, s)
    }
}

/// Call the prefix parsing function.
pub open spec fn p_prefix(s: PView, kind: PrefixKind) -> (ExprV, PView)
    decreases s.mu(), 5nat,
{
    match kind {
        PrefixKind::Identifier => p_identifier(s),
        PrefixKind::IntegerLiteral => p_integer_literal(s),
        PrefixKind::FloatLiteral => p_float_literal(s),
        PrefixKind::Prefix => p_prefix_expression(s),
        PrefixKind::Not => p_not_expression(s),
        PrefixKind::Boolean => p_boolean(s),
        PrefixKind::Null => p_null(s),
        PrefixKind::Group => p_group_expression(s),
        PrefixKind::If => p_if_expression(s),
        PrefixKind::FunctionLiteral => p_function_literal(s),
        PrefixKind::StringLiteral => p_string_literal(s),
        PrefixKind::Comment => p_comment(s),
        PrefixKind::ArrayLiteral => p_array_literal(s),
        PrefixKind::Async => p_async_expression(s),
        PrefixKind::As => p_as_expression(s),
        PrefixKind::Await => p_await_expression(s),
        PrefixKind::Spread => p_spread_expression(s),
        PrefixKind::DocComment => p_doc_comment(s),
        PrefixKind::Class => p_class_expression(s),
        PrefixKind::Import => p_import(s),
    }
}

/// Call the infix parsing function, with the left operand already parsed.
pub open spec fn p_infix(s: PView, kind: InfixKind, left: ExprV) -> (ExprV, PView)
    decreases s.mu(), 5nat,
{
    match kind {
        InfixKind::Infix => p_infix_expression(s, left),
        InfixKind::Call => p_call_expression(s, left),
        InfixKind::Dot => p_dot_expression(s, left),
        InfixKind::Index => p_index_expression(s, left),
        InfixKind::Range => p_range_expression(s, left),
        InfixKind::In => p_in_expression(s, left),
        InfixKind::Assign => p_assign_expression(s, left),
        InfixKind::And => p_binary(s, left, 0),
        InfixKind::Or => p_binary(s, left, 1),
        InfixKind::DefaultIfNull => p_binary(s, left, 2),
        InfixKind::Is => p_binary(s, left, 3),
    }
}

/// An operator followed by one operand parsed at the lowest precedence; the result is built
/// by `node` from the operator's token and the operand.
pub open spec fn p_unary(s: PView, node: spec_fn(TokenView, ExprV) -> ExprV, drop_empty: bool) -> (
    ExprV,
    PView,
)
    decreases s.mu(), 3nat,
{
    let token = s.cur;
    let s1 = s.next();
    if s1.mu() < s.mu() {
        let (e, s2) = p_expression(s1, LOWEST);
        if drop_empty && e is EmptyExpression {
            (ExprV::EmptyExpression, s2)
        } else {
            (node(token, e), s2)
        }
    } else {
        (ExprV::EmptyExpression, s1)
    }
}

pub open spec fn p_prefix_expression(s: PView) -> (ExprV, PView)
    decreases s.mu(), 4nat,
{
    let operator = s.cur.literal;
    p_unary(s, |t: TokenView, e: ExprV| ExprV::PrefixExpression(t, operator, Box::new(e)), false)
}

pub open spec fn p_not_expression(s: PView) -> (ExprV, PView)
    decreases s.mu(), 4nat,
{
    p_unary(s, |t: TokenView, e: ExprV| ExprV::NotExpression(t, Box::new(e)), true)
}

pub open spec fn p_await_expression(s: PView) -> (ExprV, PView)
    decreases s.mu(), 4nat,
{
    p_unary(s, |t: TokenView, e: ExprV| ExprV::AwaitExpression(t, Box::new(e)), true)
}

pub open spec fn p_group_expression(s: PView) -> (ExprV, PView)
    decreases s.mu(), 4nat,
{
    let token = s.cur;
    let s1 = s.next();
    if s1.mu() < s.mu() {
        let (exp, s2) = p_expression(s1, LOWEST);
        let (ok, s3) = s2.expect_peek(token::R_PAREN@);
        if !ok {
            (ExprV::EmptyExpression, s3)
        } else {
            (ExprV::GroupedExpression(token, Box::new(exp)), s3)
        }
    } else {
        (ExprV::EmptyExpression, s1)
    }
}

pub open spec fn p_if_expression(s: PView) -> (ExprV, PView)
    decreases s.mu(), 4nat,
{
    let token = s.cur;
    let has_par = s.peek_is(token::L_PAREN@);
    let s1 = if has_par {
        s.next()
    } else {
        s
    };
    let s2 = s1.next();
    if s2.mu() < s.mu() {
        let (condition, s3) = p_expression(s2, LOWEST);
        if condition is EmptyExpression {
            (ExprV::EmptyExpression, s3)
        } else {
            let (ok, s4) = if has_par {
                s3.expect_peek(token::R_PAREN@)
            } else {
                (true, s3)
            };
            if !ok {
                (ExprV::EmptyExpression, s4)
            } else {
                let (ok2, s5) = s4.expect_peek(token::L_BRACE@);
                if !ok2 {
                    (ExprV::EmptyExpression, s5)
                } else if s5.mu() < s.mu() {
                    let (consequence, s6) = p_block_statement(s5);
                    if s6.peek_is(token::ELSE@) {
                        let s7 = s6.next();
                        if s7.peek_is(token::IF@) {
                            let s8 = s7.next();
                            if s8.mu() < s.mu() {
                                let (elseif, s9) = p_if_expression(s8);
                                (
                                    ExprV::IfExpression(
                                        token,
                                        Box::new(condition),
                                        Box::new(consequence),
                                        Box::new(elseif),
                                        Box::new(StmtV::EmptyStatement),
                                    ),
                                    s9,
                                )
                            } else {
                                (ExprV::EmptyExpression, s8)
                            }
                        } else {
                            let (ok3, s8) = s7.expect_peek(token::L_BRACE@);
                            if !ok3 {
                                (ExprV::EmptyExpression, s8)
                            } else if s8.mu() < s.mu() {
                                let (else_, s9) = p_block_statement(s8);
                                (
                                    ExprV::IfExpression(
                                        token,
                                        Box::new(condition),
                                        Box::new(consequence),
                                        Box::new(ExprV::EmptyExpression),
                                        Box::new(else_),
                                    ),
                                    s9,
                                )
                            } else {
                                (ExprV::EmptyExpression, s8)
                            }
                        }
                    } else {
                        (
                            ExprV::IfExpression(
                                token,
                                Box::new(condition),
                                Box::new(consequence),
                                Box::new(ExprV::EmptyExpression),
                                Box::new(StmtV::EmptyStatement),
                            ),
                            s6,
                        )
                    }
                } else {
                    (ExprV::EmptyExpression, s5)
                }
            }
        }
    } else {
        (ExprV::EmptyExpression, s2)
    }
}

pub open spec fn p_function_literal(s: PView) -> (ExprV, PView)
    decreases s.mu(), 4nat,
{
    let token = s.cur;
    if s.peek_is(token::L_BRACE@) {
        p_iife_literal(s)
    } else {
        let (ok, s1) = s.expect_peek(token::L_PAREN@);
        if !ok {
            (ExprV::EmptyExpression, s1)
        } else if s1.mu() < s.mu() {
            let (parameters, s2) = p_function_parameters(s1);
            let (var_type, s3) = if s2.peek_is(token::RETURN_TYPE@) {
                p_type(s2)
            } else {
                (dyn_type(s2.cur), s2)
            };
            let (ok2, s4) = s3.expect_peek(token::L_BRACE@);
            if !ok2 {
                (ExprV::EmptyExpression, s4)
            } else if s4.mu() < s.mu() {
                let (body, s5) = p_block_statement(s4);
                if body is EmptyStatement {
                    (ExprV::EmptyExpression, s5)
                } else {
                    (ExprV::Function(token, parameters, Box::new(var_type), Box::new(body)), s5)
                }
            } else {
                (ExprV::EmptyExpression, s4)
            }
        } else {
            (ExprV::EmptyExpression, s1)
        }
    }
}

/// The parameters of a function, separated by commas.
pub open spec fn params_loop(s: PView, idents: Seq<ExprV>) -> (Seq<ExprV>, PView)
    decreases s.mu(), 11nat,
{
    let (e, s1) = p_expression(s, LOWEST);
    let idents1 = idents.push(e);
    if !s1.peek_is(token::COMMA@) {
        (idents1, s1)
    } else {
        let s2 = s1.next().next();
        if s2.mu() < s.mu() {
            params_loop(s2, idents1)
        } else {
            (idents1, s2)
        }
    }
}

pub open spec fn p_function_parameters(s: PView) -> (Seq<ExprV>, PView)
    decreases s.mu(), 4nat,
{
    if s.peek_is(token::R_PAREN@) {
        (Seq::empty(), s.next())
    } else {
        let s1 = s.next();
        if s1.mu() < s.mu() {
            let (idents, s2) = params_loop(s1, Seq::empty());
            let (ok, s3) = s2.expect_peek(token::R_PAREN@);
            if !ok {
                (seq![ExprV::EmptyExpression], s3)
            } else {
                (idents, s3)
            }
        } else {
            (Seq::empty(), s1)
        }
    }
}

pub open spec fn p_iife_literal(s: PView) -> (ExprV, PView)
    decreases s.mu(), 3nat,
{
    let token = s.cur;
    let (ok, s1) = s.expect_peek(token::L_BRACE@);
    if !ok {
        (ExprV::EmptyExpression, s1)
    } else if s1.mu() < s.mu() {
        let (block, s2) = p_block_statement(s1);
        if block is EmptyStatement {
            (ExprV::EmptyExpression, s2)
        } else {
            (ExprV::IIFE(token, Box::new(block)), s2)
        }
    } else {
        (ExprV::EmptyExpression, s1)
    }
}

pub open spec fn p_array_literal(s: PView) -> (ExprV, PView)
    decreases s.mu(), 4nat,
{
    let token = s.cur;
    let (elements, s1) = p_array_arguments(s);
    (ExprV::ArrayLiteral(token, elements), s1)
}

/// The elements after the first one, each after a comma; empty ones are dropped.
pub open spec fn array_loop(s: PView, args: Seq<ExprV>) -> (Seq<ExprV>, PView)
    decreases s.mu(), 3nat,
{
    if s.peek_is(token::COMMA@) {
        let s1 = s.next().next();
        if s1.mu() < s.mu() {
            let (el, s2) = p_expression(s1, LOWEST);
            let args1 = if el is EmptyExpression {
                args
            } else {
                args.push(el)
            };
            if s2.mu() < s.mu() {
                array_loop(s2, args1)
            } else {
                (args1, s2)
            }
        } else {
            (args, s1)
        }
    } else {
        (args, s)
    }
}

pub open spec fn p_array_arguments(s: PView) -> (Seq<ExprV>, PView)
    decreases s.mu(), 3nat,
{
    if s.peek_is(token::R_BRACKET@) {
        (Seq::empty(), s.next())
    } else {
        let s1 = s.next();
        if s1.mu() < s.mu() {
            let (first, s2) = p_expression(s1, LOWEST);
            if s2.mu() < s.mu() {
                let (args, s3) = array_loop(s2, seq![first]);
                let (ok, s4) = s3.expect_peek(token::R_BRACKET@);
                if !ok {
                    (Seq::empty(), s4)
                } else {
                    (args, s4)
                }
            } else {
                (Seq::empty(), s2)
            }
        } else {
            (Seq::empty(), s1)
        }
    }
}

pub open spec fn p_async_expression(s: PView) -> (ExprV, PView)
    decreases s.mu(), 4nat,
{
    let token = s.cur;
    let (ok, s1) = s.expect_peek(token::FUNCTION@);
    if !ok {
        (ExprV::EmptyExpression, s1)
    } else if s1.mu() < s.mu() {
        let (f, s2) = p_function_literal(s1);
        (ExprV::AsyncExpression(token, Box::new(f)), s2)
    } else {
        (ExprV::EmptyExpression, s1)
    }
}

pub open spec fn p_as_expression(s: PView) -> (ExprV, PView)
    decreases s.mu(), 4nat,
{
    let token = s.cur;
    let (ok, s1) = s.expect_peek(token::IDENT@);
    if !ok {
        (ExprV::EmptyExpression, s1)
    } else if s1.mu() < s.mu() {
        let (right, s2) = p_expression(s1, LOWEST);
        (ExprV::AsExpression(token, Box::new(right)), s2)
    } else {
        (ExprV::EmptyExpression, s1)
    }
}

pub open spec fn p_spread_expression(s: PView) -> (ExprV, PView)
    decreases s.mu(), 4nat,
{
    let token = s.cur;
    let (ok, s1) = s.expect_peek(token::IDENT@);
    if !ok {
        (
            ExprV::EmptyExpression,
            s1.add_error("Expected a identifer after the ... got "@ + s1.peek.literal + " instead"@),
        )
    } else if s1.mu() < s.mu() {
        let (ident, s2) = p_expression(s1, LOWEST);
        (ExprV::SpreadExpression(token, Box::new(ident)), s2)
    } else {
        (ExprV::EmptyExpression, s1)
    }
}

/// The statements of a class body.
pub open spec fn class_loop(s: PView, stmts: Seq<StmtV>) -> (Seq<StmtV>, PView)
    decreases s.mu(), 4nat,
{
    if !s.peek_is_or_eof(token::R_BRACE@) {
        let s1 = s.next();
        if s1.mu() < s.mu() {
            let (stmt, s2) = p_statement(s1);
            if s2.mu() < s.mu() {
                class_loop(s2, stmts.push(stmt))
            } else {
                (stmts.push(stmt), s2)
            }
        } else {
            (stmts, s1)
        }
    } else {
        (stmts, s)
    }
}

pub open spec fn p_class_expression(s: PView) -> (ExprV, PView)
    decreases s.mu(), 4nat,
{
    let token = s.cur;
    let (ok, s1) = s.expect_peek(token::L_BRACE@);
    if !ok {
        (ExprV::EmptyExpression, s1)
    } else if s1.mu() < s.mu() {
        let (stmts, s2) = class_loop(s1, Seq::empty());
        let (ok2, s3) = s2.expect_peek(token::R_BRACE@);
        if !ok2 {
            (ExprV::EmptyExpression, s3)
        } else {
            (ExprV::Class(token, stmts), s3)
        }
    } else {
        (ExprV::EmptyExpression, s1)
    }
}

pub open spec fn p_infix_expression(s: PView, left: ExprV) -> (ExprV, PView)
    decreases s.mu(), 4nat,
{
    let token = s.cur;
    let operator = s.cur.literal;
    let prec = precedence_of(s.cur.typ);
    let s1 = s.next();
    if s1.mu() < s.mu() {
        let (right, s2) = p_expression(s1, prec);
        (ExprV::InfixExpression(token, Box::new(left), operator, Box::new(right)), s2)
    } else {
        (ExprV::EmptyExpression, s1)
    }
}

pub open spec fn p_call_expression(s: PView, left: ExprV) -> (ExprV, PView)
    decreases s.mu(), 4nat,
{
    let token = s.cur;
    let (arguments, s1) = p_call_arguments(s);
    (ExprV::CallExpression(token, Box::new(left), arguments), s1)
}

/// The arguments after the first one, each after a comma.
pub open spec fn call_loop(s: PView, args: Seq<ExprV>) -> (Seq<ExprV>, PView)
    decreases s.mu(), 3nat,
{
    if s.peek_is(token::COMMA@) {
        let s1 = s.next().next();
        if s1.mu() < s.mu() {
            let (el, s2) = p_expression(s1, LOWEST);
            if s2.mu() < s.mu() {
                call_loop(s2, args.push(el))
            } else {
                (args.push(el), s2)
            }
        } else {
            (args, s1)
        }
    } else {
        (args, s)
    }
}

pub open spec fn p_call_arguments(s: PView) -> (Seq<ExprV>, PView)
    decreases s.mu(), 3nat,
{
    if s.peek_is(token::R_PAREN@) {
        (Seq::empty(), s.next())
    } else {
        let s1 = s.next();
        if s1.mu() < s.mu() {
            let (first, s2) = p_expression(s1, LOWEST);
            if s2.mu() < s.mu() {
                let (args, s3) = call_loop(s2, seq![first]);
                let (ok, s4) = s3.expect_peek(token::R_PAREN@);
                if !ok {
                    (Seq::empty(), s4)
                } else {
                    (args, s4)
                }
            } else {
                (Seq::empty(), s2)
            }
        } else {
            (Seq::empty(), s1)
        }
    }
}

pub open spec fn p_dot_expression(s: PView, left: ExprV) -> (ExprV, PView)
    decreases s.mu(), 4nat,
{
    let token = s.cur;
    let (ok, s1) = s.expect_peek(token::IDENT@);
    if !ok {
        (ExprV::EmptyExpression, s1)
    } else if s1.mu() < s.mu() {
        let (right, s2) = p_expression(s1, LOWEST);
        if right is EmptyExpression {
            (ExprV::EmptyExpression, s2)
        } else {
            match right {
                ExprV::InExpression(tk, in_left, in_right) => (
                    ExprV::InExpression(
                        tk,
                        Box::new(ExprV::DotExpression(token, Box::new(left), in_left)),
                        in_right,
                    ),
                    s2,
                ),
                _ => (ExprV::DotExpression(token, Box::new(left), Box::new(right)), s2),
            }
        }
    } else {
        (ExprV::EmptyExpression, s1)
    }
}

pub open spec fn p_index_expression(s: PView, left: ExprV) -> (ExprV, PView)
    decreases s.mu(), 4nat,
{
    let token = s.cur;
    if s.peek_is(token::R_BRACKET@) {
        (ExprV::EmptyExpression, s)
    } else {
        let s1 = s.next();
        if s1.mu() < s.mu() {
            let (index, s2) = p_expression(s1, LOWEST);
            if index is EmptyExpression {
                (ExprV::EmptyExpression, s2)
            } else {
                let (ok, s3) = s2.expect_peek(token::R_BRACKET@);
                if !ok {
                    (ExprV::EmptyExpression, s3)
                } else {
                    (ExprV::IndexExpression(token, Box::new(left), Box::new(index)), s3)
                }
            }
        } else {
            (ExprV::EmptyExpression, s1)
        }
    }
}

pub open spec fn p_range_expression(s: PView, left: ExprV) -> (ExprV, PView)
    decreases s.mu(), 4nat,
{
    let token = s.cur;
    if s.peek_is(token::R_BRACKET@) {
        (ExprV::RangeExpression(token, Box::new(left), Box::new(ExprV::EmptyExpression)), s)
    } else {
        let s1 = s.next();
        if s1.mu() < s.mu() {
            let (right, s2) = p_expression(s1, LOWEST);
            (ExprV::RangeExpression(token, Box::new(left), Box::new(right)), s2)
        } else {
            (ExprV::EmptyExpression, s1)
        }
    }
}

pub open spec fn p_in_expression(s: PView, left: ExprV) -> (ExprV, PView)
    decreases s.mu(), 4nat,
{
    let token = s.cur;
    let s1 = s.next();
    if s1.mu() < s.mu() {
        let (right, s2) = p_expression(s1, LOWEST);
        if right is EmptyExpression {
            (ExprV::EmptyExpression, s2)
        } else {
            (ExprV::InExpression(token, Box::new(left), Box::new(right)), s2)
        }
    } else {
        (ExprV::EmptyExpression, s1)
    }
}

pub open spec fn p_assign_expression(s: PView, left: ExprV) -> (ExprV, PView)
    decreases s.mu(), 4nat,
{
    let token = s.cur;
    let s1 = s.next();
    if s1.mu() < s.mu() {
        let (right, s2) = p_expression(s1, LOWEST);
        (ExprV::AssignExpression(token, Box::new(left), Box::new(right)), s2)
    } else {
        (ExprV::EmptyExpression, s1)
    }
}

/// `and` (0), `or` (1), `??` (2) and `is` (3): the operator, then the right operand.
pub open spec fn p_binary(s: PView, left: ExprV, which: int) -> (ExprV, PView)
    decreases s.mu(), 4nat,
{
    let token = s.cur;
    let s1 = s.next();
    if s1.mu() < s.mu() {
        let (right, s2) = p_expression(s1, LOWEST);
        (
            if which == 0 {
                ExprV::AndExpression(token, Box::new(left), Box::new(right))
            } else if which == 1 {
                ExprV::OrExpression(token, Box::new(left), Box::new(right))
            } else if which == 2 {
                ExprV::DefaultIfNullExpression(token, Box::new(left), Box::new(right))
            } else {
                ExprV::IsExpression(token, Box::new(left), Box::new(right))
            },
            s2,
        )
    } else {
        (ExprV::EmptyExpression, s1)
    }
}

/// The statements of a program, up to the end of input; empty statements are dropped.
pub open spec fn program_loop(s: PView, stmts: Seq<StmtV>) -> (Seq<StmtV>, PView)
    decreases s.mu(),
{
    if !s.cur_is(token::EOF@) {
        let (stmt, s1) = p_statement(s);
        let stmts1 = if stmt is EmptyStatement {
            stmts
        } else {
            stmts.push(stmt)
        };
        let s2 = s1.next();
        if s2.mu() < s.mu() {
            program_loop(s2, stmts1)
        } else {
            (stmts1, s2)
        }
    } else {
        (stmts, s)
    }
}

/// Every well-formed state steps to itself.
pub proof fn lemma_step_refl(s: PView)
    requires
        s.inv(),
    ensures
        s.stepped_to(s),
{
    assert(s.errors =~= s.errors.subrange(0, s.errors.len() as int));
}

/// Steps compose.
pub proof fn lemma_step_trans(a: PView, b: PView, c: PView)
    requires
        a.stepped_to(b),
        b.stepped_to(c),
    ensures
        a.stepped_to(c),
{
    assert(a.errors =~= c.errors.subrange(0, a.errors.len() as int)) by {
        assert(a.errors =~= b.errors.subrange(0, a.errors.len() as int));
        assert(b.errors =~= c.errors.subrange(0, b.errors.len() as int));
        assert forall|i: int| 0 <= i < a.errors.len() implies a.errors[i] == c.errors[i] by {
            assert(a.errors[i] == b.errors[i]);
            assert(b.errors[i] == c.errors[i]);
        }
    }
}

/// Adding an error is a step that reads nothing.
pub proof fn lemma_add_error_step(s: PView, msg: Seq<char>)
    requires
        s.inv(),
    ensures
        s.add_error(msg).inv(),
        s.add_error(msg).same_pos(s),
        s.stepped_to(s.add_error(msg)),
{
    assert(s.errors =~= s.add_error(msg).errors.subrange(0, s.errors.len() as int));
}

/// Once the current token is `EOF`, reading a token changes nothing.
pub proof fn lemma_next_at_end(s: PView)
    requires
        s.inv(),
        s.cur.typ == token::EOF@,
    ensures
        s.next() == s,
{
    let l = s.lex;
    assert(l.skip_whitespace() == l);
    assert(l.next_token() == (l.make_token(token::EOF@, seq!['\0']), l));
}

/// Once the current token is `EOF`, parsing a program reads no statement.
pub proof fn lemma_program_at_end(s: PView, stmts: Seq<StmtV>)
    requires
        s.inv(),
        s.cur.typ == token::EOF@,
    ensures
        program_loop(s, stmts) == (stmts, s),
{
}

/// An integer literal followed by no operator is a statement of its own: when the current
/// token is an `INT` whose text reads as an `i64`, and the next token is neither `;` nor an
/// operator that binds, the statement is that literal and no token is read.
pub proof fn lemma_integer_statement(s: PView)
    requires
        s.cur.typ == token::INT@,
        spec_parse_i64(s.cur.literal) is Some,
        precedence_of(s.peek.typ) == LOWEST,
        !s.peek_is(token::SEMICOLON@),
    ensures
        p_statement(s) == (
            StmtV::ExpressionStatement(
                s.cur,
                Box::new(ExprV::IntegerLiteral(s.cur, spec_parse_i64(s.cur.literal)->0)),
            ),
            s,
        ),
{
    reveal_strlit("INT");
    reveal_strlit("IDENT");
    reveal_strlit("THIS");
    reveal_strlit("RETURN");
    reveal_strlit("JAVASCRIPT");
    reveal_strlit("FOR");
    reveal_strlit("PUB");
    reveal_strlit("ASYNC");
    reveal_strlit("MATCH");
    reveal_strlit("BREAK");
    reveal_strlit("CONTINUE");
    reveal_strlit("MACRO_SYMBOL");
    assert(token::INT@.len() == 3 && token::IDENT@.len() == 5 && token::THIS@.len() == 4);
    assert(token::RETURN@.len() == 6 && token::JAVASCRIPT@.len() == 10);
    assert(token::ASYNC@.len() == 5 && token::MATCH@.len() == 5 && token::BREAK@.len() == 5);
    assert(token::CONTINUE@.len() == 8 && token::MACRO_SYMBOL@.len() == 12);
    assert(token::FOR@.len() == 3 && token::PUB@.len() == 3);
    assert(token::INT@ != token::IDENT@ && token::INT@ != token::THIS@);
    assert(token::INT@ != token::RETURN@ && token::INT@ != token::JAVASCRIPT@);
    assert(token::INT@[0] != token::FOR@[0] && token::INT@[0] != token::PUB@[0]);
    assert(token::INT@ != token::FOR@ && token::INT@ != token::PUB@);
    assert(token::INT@ != token::ASYNC@ && token::INT@ != token::MATCH@);
    assert(token::INT@ != token::BREAK@ && token::INT@ != token::CONTINUE@);
    assert(token::INT@ != token::ANNOTATOR@);
    assert(prefix_kind(token::INT@) == Some(PrefixKind::IntegerLiteral));
    let e = ExprV::IntegerLiteral(s.cur, spec_parse_i64(s.cur.literal)->0);
    assert(p_expression(s, LOWEST) == (e, s));
    assert(p_expression_statement(s) == (StmtV::ExpressionStatement(s.cur, Box::new(e)), s));
}

/// The additive operators `+` and `-`.
pub open spec fn is_additive(t: Seq<char>) -> bool {
    t == token::PLUS@ || t == token::MINUS@
}

/// The multiplicative operators `*`, `/` and `%`.
pub open spec fn is_multiplicative(t: Seq<char>) -> bool {
    t == token::ASTERISK@ || t == token::SLASH@ || t == token::MODULUS@
}

proof fn lemma_operator_types()
    ensures
        forall|t: Seq<char>|
            is_additive(t) || is_multiplicative(t) ==> {
                &&& t != token::SEMICOLON@ && t != token::EOL@ && t != token::EOF@
                &&& t != token::EQ@ && t != token::NOT_EQ@ && t != token::LT@ && t != token::GT@
                &&& t != token::LT_OR_EQ@ && t != token::GT_OR_EQ@
                &&& infix_kind(t) == Some(InfixKind::Infix)
            },
        forall|t: Seq<char>| is_additive(t) ==> precedence_of(t) == SUM,
        forall|t: Seq<char>| is_multiplicative(t) ==> precedence_of(t) == PRODUCT,
        token::IDENT@ != token::SEMICOLON@ && token::IDENT@ != token::EOL@,
        prefix_kind(token::IDENT@) == Some(PrefixKind::Identifier),
{
    reveal_strlit("+");
    reveal_strlit("-");
    reveal_strlit("*");
    reveal_strlit("/");
    reveal_strlit("%");
    reveal_strlit("==");
    reveal_strlit("!=");
    reveal_strlit("<");
    reveal_strlit(">");
    reveal_strlit("<=");
    reveal_strlit(">=");
    reveal_strlit(";");
    reveal_strlit("EOL");
    reveal_strlit("EOF");
    reveal_strlit("IDENT");
    assert(token::PLUS@.len() == 1 && token::MINUS@.len() == 1 && token::ASTERISK@.len() == 1);
    assert(token::SLASH@.len() == 1 && token::MODULUS@.len() == 1 && token::SEMICOLON@.len() == 1);
    assert(token::LT@.len() == 1 && token::GT@.len() == 1 && token::EQ@.len() == 2);
    assert(token::NOT_EQ@.len() == 2 && token::LT_OR_EQ@.len() == 2 && token::GT_OR_EQ@.len() == 2);
    assert(token::EOL@.len() == 3 && token::EOF@.len() == 3 && token::IDENT@.len() == 5);
    let ops = seq![token::PLUS@, token::MINUS@, token::ASTERISK@, token::SLASH@, token::MODULUS@];
    let others = seq![token::SEMICOLON@, token::LT@, token::GT@];
    assert forall|a: int, b: int| 0 <= a < 5 && 0 <= b < 3 implies ops[a] != others[b] by {
        assert(ops[a][0] != others[b][0]);
    }
    assert(token::PLUS@[0] != token::MINUS@[0]);
    assert forall|a: int| 2 <= a < 5 implies ops[a] != token::PLUS@ && ops[a] != token::MINUS@ by {
        assert(ops[a][0] != token::PLUS@[0]);
        assert(ops[a][0] != token::MINUS@[0]);
    }
}

/// `*`, `/` and `%` bind tighter than `+` and `-`: in `a op1 b op2 c`, with `op1` additive
/// and `op2` multiplicative, the expression is `a op1 (b op2 c)`. The tokens are read from
/// the parser's state: `s0` holds `a` with `op1` next, and each further token comes from
/// reading one more (each read moves the parser on).
pub proof fn lemma_product_binds_tighter(s0: PView)
    requires
        s0.cur.typ == token::IDENT@,
        is_additive(s0.peek.typ),
        s0.next().peek.typ == token::IDENT@,
        is_multiplicative(s0.next().next().peek.typ),
        s0.next().next().next().peek.typ == token::IDENT@,
        s0.next().next().next().next().peek.typ == token::EOF@,
        s0.next().mu() < s0.mu(),
        s0.next().next().mu() < s0.next().mu(),
        s0.next().next().next().mu() < s0.next().next().mu(),
        s0.next().next().next().next().mu() < s0.next().next().next().mu(),
    ensures
        ({
            let s1 = s0.next();
            let s2 = s1.next();
            let s3 = s2.next();
            let s4 = s3.next();
            p_expression(s0, LOWEST) == (
                ExprV::InfixExpression(
                    s1.cur,
                    Box::new(ExprV::Identifier(s0.cur, s0.cur.literal)),
                    s1.cur.literal,
                    Box::new(
                        ExprV::InfixExpression(
                            s3.cur,
                            Box::new(ExprV::Identifier(s2.cur, s2.cur.literal)),
                            s3.cur.literal,
                            Box::new(ExprV::Identifier(s4.cur, s4.cur.literal)),
                        ),
                    ),
                ),
                s4,
            )
        }),
{
    lemma_operator_types();
    let s1 = s0.next();
    let s2 = s1.next();
    let s3 = s2.next();
    let s4 = s3.next();
    let a = ExprV::Identifier(s0.cur, s0.cur.literal);
    let b = ExprV::Identifier(s2.cur, s2.cur.literal);
    let c = ExprV::Identifier(s4.cur, s4.cur.literal);
    let bc = ExprV::InfixExpression(s3.cur, Box::new(b), s3.cur.literal, Box::new(c));
    let abc = ExprV::InfixExpression(s1.cur, Box::new(a), s1.cur.literal, Box::new(bc));
    assert(s1.cur == s0.peek && s3.cur == s2.peek && s2.cur == s1.peek && s4.cur == s3.peek);
    assert(precedence_of(s3.cur.typ) == PRODUCT);
    assert(precedence_of(s1.cur.typ) == SUM);
    assert(expression_loop(s4, PRODUCT, c) == (c, s4));
    assert(p_expression(s4, PRODUCT) == (c, s4));
    assert(p_infix_expression(s3, b) == (bc, s4));
    assert(p_infix(s3, InfixKind::Infix, b) == (bc, s4));
    assert(expression_loop(s4, SUM, bc) == (bc, s4));
    assert(expression_loop(s2, SUM, b) == (bc, s4));
    assert(p_expression(s2, SUM) == (bc, s4));
    assert(p_infix_expression(s1, a) == (abc, s4));
    assert(p_infix(s1, InfixKind::Infix, a) == (abc, s4));
    assert(expression_loop(s4, LOWEST, abc) == (abc, s4));
    assert(expression_loop(s0, LOWEST, a) == (abc, s4));
}


/// The comparison operators `==`, `!=`, `<`, `>`, `<=` and `>=`.
pub open spec fn is_comparison(t: Seq<char>) -> bool {
    t == token::EQ@ || t == token::NOT_EQ@ || t == token::LT@ || t == token::GT@
        || t == token::LT_OR_EQ@ || t == token::GT_OR_EQ@
}

/// The binary operators of arithmetic and comparison.
pub open spec fn is_binary_operator(t: Seq<char>) -> bool {
    is_additive(t) || is_multiplicative(t) || is_comparison(t)
}

proof fn lemma_binary_operator_types()
    ensures
        forall|t: Seq<char>|
            is_binary_operator(t) ==> {
                &&& t != token::SEMICOLON@ && t != token::EOL@ && t != token::EOF@
                &&& infix_kind(t) == Some(InfixKind::Infix)
                &&& LOWEST < precedence_of(t)
            },
        prefix_kind(token::IDENT@) == Some(PrefixKind::Identifier),
{
    lemma_operator_types();
    reveal_strlit("==");
    reveal_strlit("!=");
    reveal_strlit("<");
    reveal_strlit(">");
    reveal_strlit("<=");
    reveal_strlit(">=");
    reveal_strlit(";");
    reveal_strlit("EOL");
    reveal_strlit("EOF");
    assert(token::LT@.len() == 1 && token::GT@.len() == 1 && token::EQ@.len() == 2);
    assert(token::NOT_EQ@.len() == 2 && token::LT_OR_EQ@.len() == 2 && token::GT_OR_EQ@.len() == 2);
    assert(token::EOL@.len() == 3 && token::EOF@.len() == 3 && token::SEMICOLON@.len() == 1);
    assert(token::LT@[0] != token::SEMICOLON@[0] && token::GT@[0] != token::SEMICOLON@[0]);
    assert(token::EQ@[0] != token::NOT_EQ@[0]);
    assert(token::LT@[0] != token::GT@[0]);
    assert(token::LT_OR_EQ@[0] != token::GT_OR_EQ@[0]);
    assert(token::LT_OR_EQ@[0] != token::EQ@[0] && token::LT_OR_EQ@[0] != token::NOT_EQ@[0]);
    assert(token::GT_OR_EQ@[0] != token::EQ@[0] && token::GT_OR_EQ@[0] != token::NOT_EQ@[0]);
}

/// An operator binds its right operand as far as the operators there bind tighter: in
/// `a op1 b op2 c`, with binary operators `op1` and `op2` where `op2` binds tighter than
/// `op1`, the expression is `a op1 (b op2 c)`. The tokens are read from the parser's state:
/// `s0` holds `a` with `op1` next, and each further token comes from reading one more (each
/// read moves the parser on).
pub proof fn lemma_tighter_operator_first(s0: PView)
    requires
        s0.cur.typ == token::IDENT@,
        is_binary_operator(s0.peek.typ),
        s0.next().peek.typ == token::IDENT@,
        is_binary_operator(s0.next().next().peek.typ),
        precedence_of(s0.peek.typ) < precedence_of(s0.next().next().peek.typ),
        s0.next().next().next().peek.typ == token::IDENT@,
        s0.next().next().next().next().peek.typ == token::EOF@,
        s0.next().mu() < s0.mu(),
        s0.next().next().mu() < s0.next().mu(),
        s0.next().next().next().mu() < s0.next().next().mu(),
        s0.next().next().next().next().mu() < s0.next().next().next().mu(),
    ensures
        ({
            let s1 = s0.next();
            let s2 = s1.next();
            let s3 = s2.next();
            let s4 = s3.next();
            p_expression(s0, LOWEST) == (
                ExprV::InfixExpression(
                    s1.cur,
                    Box::new(ExprV::Identifier(s0.cur, s0.cur.literal)),
                    s1.cur.literal,
                    Box::new(
                        ExprV::InfixExpression(
                            s3.cur,
                            Box::new(ExprV::Identifier(s2.cur, s2.cur.literal)),
                            s3.cur.literal,
                            Box::new(ExprV::Identifier(s4.cur, s4.cur.literal)),
                        ),
                    ),
                ),
                s4,
            )
        }),
{
    lemma_binary_operator_types();
    let s1 = s0.next();
    let s2 = s1.next();
    let s3 = s2.next();
    let s4 = s3.next();
    let p1 = precedence_of(s1.cur.typ);
    let p2 = precedence_of(s3.cur.typ);
    let a = ExprV::Identifier(s0.cur, s0.cur.literal);
    let b = ExprV::Identifier(s2.cur, s2.cur.literal);
    let c = ExprV::Identifier(s4.cur, s4.cur.literal);
    let bc = ExprV::InfixExpression(s3.cur, Box::new(b), s3.cur.literal, Box::new(c));
    let abc = ExprV::InfixExpression(s1.cur, Box::new(a), s1.cur.literal, Box::new(bc));
    assert(s1.cur == s0.peek && s3.cur == s2.peek && s2.cur == s1.peek && s4.cur == s3.peek);
    assert(expression_loop(s4, p2, c) == (c, s4));
    assert(p_expression(s4, p2) == (c, s4));
    assert(p_infix_expression(s3, b) == (bc, s4));
    assert(p_infix(s3, InfixKind::Infix, b) == (bc, s4));
    assert(expression_loop(s4, p1, bc) == (bc, s4));
    assert(expression_loop(s2, p1, b) == (bc, s4));
    assert(p_expression(s2, p1) == (bc, s4));
    assert(p_infix_expression(s1, a) == (abc, s4));
    assert(p_infix(s1, InfixKind::Infix, a) == (abc, s4));
    assert(expression_loop(s4, LOWEST, abc) == (abc, s4));
    assert(expression_loop(s0, LOWEST, a) == (abc, s4));
}

/// Operators that bind alike group to the left, and a looser operator takes what stands
/// before it whole: in `a op1 b op2 c`, with binary operators `op1` and `op2` where `op2`
/// binds no tighter than `op1`, the expression is `(a op1 b) op2 c`. The tokens are read
/// from the parser's state as in `lemma_tighter_operator_first`.
pub proof fn lemma_left_grouping(s0: PView)
    requires
        s0.cur.typ == token::IDENT@,
        is_binary_operator(s0.peek.typ),
        s0.next().peek.typ == token::IDENT@,
        is_binary_operator(s0.next().next().peek.typ),
        precedence_of(s0.next().next().peek.typ) <= precedence_of(s0.peek.typ),
        s0.next().next().next().peek.typ == token::IDENT@,
        s0.next().next().next().next().peek.typ == token::EOF@,
        s0.next().mu() < s0.mu(),
        s0.next().next().mu() < s0.next().mu(),
        s0.next().next().next().mu() < s0.next().next().mu(),
        s0.next().next().next().next().mu() < s0.next().next().next().mu(),
    ensures
        ({
            let s1 = s0.next();
            let s2 = s1.next();
            let s3 = s2.next();
            let s4 = s3.next();
            p_expression(s0, LOWEST) == (
                ExprV::InfixExpression(
                    s3.cur,
                    Box::new(
                        ExprV::InfixExpression(
                            s1.cur,
                            Box::new(ExprV::Identifier(s0.cur, s0.cur.literal)),
                            s1.cur.literal,
                            Box::new(ExprV::Identifier(s2.cur, s2.cur.literal)),
                        ),
                    ),
                    s3.cur.literal,
                    Box::new(ExprV::Identifier(s4.cur, s4.cur.literal)),
                ),
                s4,
            )
        }),
{
    lemma_binary_operator_types();
    let s1 = s0.next();
    let s2 = s1.next();
    let s3 = s2.next();
    let s4 = s3.next();
    let p1 = precedence_of(s1.cur.typ);
    let p2 = precedence_of(s3.cur.typ);
    let a = ExprV::Identifier(s0.cur, s0.cur.literal);
    let b = ExprV::Identifier(s2.cur, s2.cur.literal);
    let c = ExprV::Identifier(s4.cur, s4.cur.literal);
    let ab = ExprV::InfixExpression(s1.cur, Box::new(a), s1.cur.literal, Box::new(b));
    let abc = ExprV::InfixExpression(s3.cur, Box::new(ab), s3.cur.literal, Box::new(c));
    assert(s1.cur == s0.peek && s3.cur == s2.peek && s2.cur == s1.peek && s4.cur == s3.peek);
    assert(expression_loop(s2, p1, b) == (b, s2));
    assert(p_expression(s2, p1) == (b, s2));
    assert(p_infix_expression(s1, a) == (ab, s2));
    assert(p_infix(s1, InfixKind::Infix, a) == (ab, s2));
    assert(expression_loop(s4, p2, c) == (c, s4));
    assert(p_expression(s4, p2) == (c, s4));
    assert(p_infix_expression(s3, ab) == (abc, s4));
    assert(p_infix(s3, InfixKind::Infix, ab) == (abc, s4));
    assert(expression_loop(s4, LOWEST, abc) == (abc, s4));
    assert(expression_loop(s2, LOWEST, ab) == (abc, s4));
    assert(expression_loop(s0, LOWEST, a) == (abc, s4));
}

/// How tightly the operators bind, from loosest to tightest: `==` and `!=`; `<`, `>`, `<=`
/// and `>=`; `+` and `-`; `*`, `/` and `%`; `.` and `...`; a call `(`; an index `[`; `{`;
/// `..`; `in` and `is`; `await`; `=`, `+=`, `-=`, `/=` and `*=`; `as`; `///`; `&&` and `&`;
/// `||` and `|`; `??`. Operators of one group bind alike, every one of them tighter than the
/// lowest level, and every other token type stands at the lowest level.
pub proof fn lemma_precedence_order()
    ensures
        LOWEST < precedence_of(token::EQ@),
        precedence_of(token::EQ@) == precedence_of(token::NOT_EQ@),
        precedence_of(token::NOT_EQ@) < precedence_of(token::LT@),
        precedence_of(token::LT@) == precedence_of(token::GT@),
        precedence_of(token::LT@) == precedence_of(token::LT_OR_EQ@),
        precedence_of(token::LT@) == precedence_of(token::GT_OR_EQ@),
        precedence_of(token::GT_OR_EQ@) < precedence_of(token::PLUS@),
        precedence_of(token::PLUS@) == precedence_of(token::MINUS@),
        precedence_of(token::MINUS@) < precedence_of(token::ASTERISK@),
        precedence_of(token::ASTERISK@) == precedence_of(token::SLASH@),
        precedence_of(token::ASTERISK@) == precedence_of(token::MODULUS@),
        precedence_of(token::MODULUS@) < precedence_of(token::DOT@),
        precedence_of(token::DOT@) == precedence_of(token::SPREAD@),
        precedence_of(token::SPREAD@) < precedence_of(token::L_PAREN@),
        precedence_of(token::L_PAREN@) < precedence_of(token::L_BRACKET@),
        precedence_of(token::L_BRACKET@) < precedence_of(token::L_BRACE@),
        precedence_of(token::L_BRACE@) < precedence_of(token::DOTDOT@),
        precedence_of(token::DOTDOT@) < precedence_of(token::IN@),
        precedence_of(token::IN@) == precedence_of(token::IS@),
        precedence_of(token::IS@) < precedence_of(token::AWAIT@),
        precedence_of(token::AWAIT@) < precedence_of(token::ASSIGN@),
        precedence_of(token::ASSIGN@) == precedence_of(token::PLUS_EQUALS@),
        precedence_of(token::ASSIGN@) == precedence_of(token::MINUS_EQUALS@),
        precedence_of(token::ASSIGN@) == precedence_of(token::SLASH_EQUALS@),
        precedence_of(token::ASSIGN@) == precedence_of(token::ASTERISK_EQUALS@),
        precedence_of(token::ASTERISK_EQUALS@) < precedence_of(token::AS@),
        precedence_of(token::AS@) < precedence_of(token::DOC_COMMENT@),
        precedence_of(token::DOC_COMMENT@) < precedence_of(token::AND_SYMBOL@),
        precedence_of(token::AND_SYMBOL@) == precedence_of(token::BITWISE_AND@),
        precedence_of(token::BITWISE_AND@) < precedence_of(token::OR_SYMBOL@),
        precedence_of(token::OR_SYMBOL@) == precedence_of(token::BITWISE_OR@),
        precedence_of(token::BITWISE_OR@) < precedence_of(token::DOUBLE_QUESTION_MARK@),
        forall|t: Seq<char>| t != token::EQ@ && t != token::NOT_EQ@ && t != token::LT@ && t != token::GT@ && t != token::LT_OR_EQ@ && t != token::GT_OR_EQ@ && t != token::PLUS@ && t != token::MINUS@ && t != token::ASTERISK@ && t != token::SLASH@ && t != token::MODULUS@ && t != token::DOT@ && t != token::SPREAD@ && t != token::L_PAREN@ && t != token::L_BRACKET@ && t != token::L_BRACE@ && t != token::DOTDOT@ && t != token::IN@ && t != token::IS@ && t != token::AWAIT@ && t != token::ASSIGN@ && t != token::PLUS_EQUALS@ && t != token::MINUS_EQUALS@ && t != token::SLASH_EQUALS@ && t != token::ASTERISK_EQUALS@ && t != token::AS@ && t != token::DOC_COMMENT@ && t != token::AND_SYMBOL@ && t != token::BITWISE_AND@ && t != token::OR_SYMBOL@ && t != token::BITWISE_OR@ && t != token::DOUBLE_QUESTION_MARK@ ==> precedence_of(t) == LOWEST,
{
    reveal_strlit("==");
    reveal_strlit("!=");
    reveal_strlit("<");
    reveal_strlit(">");
    reveal_strlit("<=");
    reveal_strlit(">=");
    reveal_strlit("+");
    reveal_strlit("-");
    reveal_strlit("/");
    reveal_strlit("*");
    reveal_strlit("%");
    reveal_strlit("(");
    reveal_strlit(".");
    reveal_strlit("...");
    reveal_strlit("[");
    reveal_strlit("{");
    reveal_strlit("..");
    reveal_strlit("IN");
    reveal_strlit("IS");
    reveal_strlit("AWAIT");
    reveal_strlit("=");
    reveal_strlit("+=");
    reveal_strlit("-=");
    reveal_strlit("/=");
    reveal_strlit("*=");
    reveal_strlit("AS");
    reveal_strlit("///");
    reveal_strlit("|");
    reveal_strlit("||");
    reveal_strlit("&");
    reveal_strlit("&&");
    reveal_strlit("??");
    assert(token::EQ@.len() == 2 && token::EQ@[0] == '=');
    assert(token::NOT_EQ@.len() == 2 && token::NOT_EQ@[0] == '!');
    assert(token::LT@.len() == 1 && token::LT@[0] == '<');
    assert(token::GT@.len() == 1 && token::GT@[0] == '>');
    assert(token::LT_OR_EQ@.len() == 2 && token::LT_OR_EQ@[0] == '<');
    assert(token::GT_OR_EQ@.len() == 2 && token::GT_OR_EQ@[0] == '>');
    assert(token::PLUS@.len() == 1 && token::PLUS@[0] == '+');
    assert(token::MINUS@.len() == 1 && token::MINUS@[0] == '-');
    assert(token::SLASH@.len() == 1 && token::SLASH@[0] == '/');
    assert(token::ASTERISK@.len() == 1 && token::ASTERISK@[0] == '*');
    assert(token::MODULUS@.len() == 1 && token::MODULUS@[0] == '%');
    assert(token::L_PAREN@.len() == 1 && token::L_PAREN@[0] == '(');
    assert(token::DOT@.len() == 1 && token::DOT@[0] == '.');
    assert(token::SPREAD@.len() == 3 && token::SPREAD@[0] == '.');
    assert(token::L_BRACKET@.len() == 1 && token::L_BRACKET@[0] == '[');
    assert(token::L_BRACE@.len() == 1 && token::L_BRACE@[0] == '{');
    assert(token::DOTDOT@.len() == 2 && token::DOTDOT@[0] == '.');
    assert(token::IN@.len() == 2 && token::IN@[0] == 'I');
    assert(token::IS@.len() == 2 && token::IS@[0] == 'I');
    assert(token::AWAIT@.len() == 5 && token::AWAIT@[0] == 'A');
    assert(token::ASSIGN@.len() == 1 && token::ASSIGN@[0] == '=');
    assert(token::PLUS_EQUALS@.len() == 2 && token::PLUS_EQUALS@[0] == '+');
    assert(token::MINUS_EQUALS@.len() == 2 && token::MINUS_EQUALS@[0] == '-');
    assert(token::SLASH_EQUALS@.len() == 2 && token::SLASH_EQUALS@[0] == '/');
    assert(token::ASTERISK_EQUALS@.len() == 2 && token::ASTERISK_EQUALS@[0] == '*');
    assert(token::AS@.len() == 2 && token::AS@[0] == 'A');
    assert(token::DOC_COMMENT@.len() == 3 && token::DOC_COMMENT@[0] == '/');
    assert(token::BITWISE_OR@.len() == 1 && token::BITWISE_OR@[0] == '|');
    assert(token::OR_SYMBOL@.len() == 2 && token::OR_SYMBOL@[0] == '|');
    assert(token::BITWISE_AND@.len() == 1 && token::BITWISE_AND@[0] == '&');
    assert(token::AND_SYMBOL@.len() == 2 && token::AND_SYMBOL@[0] == '&');
    assert(token::DOUBLE_QUESTION_MARK@.len() == 2 && token::DOUBLE_QUESTION_MARK@[0] == '?');
}

/// A variable statement binds the name before `=` (or `:=`, a constant) to the expression
/// after it: in `x = y` the statement is a variable `x`, of type `none`, with value `y`; in
/// `x := y` it is the constant `x` with value `y`. The tokens are read from the parser's
/// state: `s` holds `x` with the assignment next, and each further token comes from reading
/// one more (each read moves the parser on).
pub proof fn lemma_variable_statement(s: PView)
    requires
        s.cur.typ == token::IDENT@,
        s.peek.typ == token::ASSIGN@ || s.peek.typ == token::CONSTANT_ASSIGNMENT@,
        s.next().peek.typ == token::IDENT@,
        s.next().next().peek.typ == token::EOF@,
        s.next().mu() < s.mu(),
        s.next().next().mu() < s.next().mu(),
    ensures
        ({
            let v = s.next().next();
            let name = Box::new(ExprV::Identifier(s.cur, s.cur.literal));
            let value = Box::new(ExprV::Identifier(v.cur, v.cur.literal));
            &&& s.peek.typ == token::ASSIGN@ ==> p_statement(s) == (
                StmtV::VariableStatement(s.cur, name, Box::new(none_type(s.cur)), value),
                v,
            )
            &&& s.peek.typ == token::CONSTANT_ASSIGNMENT@ ==> p_statement(s) == (
                StmtV::ConstVariableStatement(s.cur, name, Box::new(none_type(s.cur)), value),
                v,
            )
        }),
{
    lemma_binary_operator_types();
    reveal_strlit("=");
    reveal_strlit(":");
    reveal_strlit("TYPE_ASSIGNMENT");
    reveal_strlit("EOF");
    reveal_strlit(";");
    assert(token::ASSIGN@.len() == 1 && token::COLON@.len() == 1 && token::ASSIGN@[0] != token::COLON@[0]);
    assert(token::CONSTANT_ASSIGNMENT@.len() == 15);
    assert(token::EOF@.len() == 3 && token::SEMICOLON@.len() == 1);
    let v = s.next().next();
    assert(v.cur == s.next().peek);
    let value = ExprV::Identifier(v.cur, v.cur.literal);
    assert(expression_loop(v, LOWEST, value) == (value, v));
    assert(p_expression(v, LOWEST) == (value, v));
}

/// A prefix operator applies to the expression after it: `-a` and `!a` are the prefix
/// expression of the operator's text and `a`. The tokens are read from the parser's state:
/// `s` holds the operator with `a` next, and `a` is the last token.
pub proof fn lemma_prefix_operator(s: PView)
    requires
        s.cur.typ == token::MINUS@ || s.cur.typ == token::BANG@,
        s.peek.typ == token::IDENT@,
        s.next().peek.typ == token::EOF@,
        s.next().mu() < s.mu(),
    ensures
        p_expression(s, LOWEST) == (
            ExprV::PrefixExpression(
                s.cur,
                s.cur.literal,
                Box::new(ExprV::Identifier(s.next().cur, s.next().cur.literal)),
            ),
            s.next(),
        ),
{
    lemma_binary_operator_types();
    reveal_strlit("-");
    reveal_strlit("!");
    reveal_strlit("IDENT");
    reveal_strlit("THIS");
    reveal_strlit("INT");
    reveal_strlit("FLOAT");
    reveal_strlit("EOF");
    assert(token::MINUS@.len() == 1 && token::BANG@.len() == 1);
    assert(token::IDENT@.len() == 5 && token::THIS@.len() == 4 && token::INT@.len() == 3);
    assert(token::FLOAT@.len() == 5 && token::EOF@.len() == 3);
    assert(prefix_kind(s.cur.typ) == Some(PrefixKind::Prefix));
    let s1 = s.next();
    assert(s1.cur == s.peek);
    let a = ExprV::Identifier(s1.cur, s1.cur.literal);
    assert(expression_loop(s1, LOWEST, a) == (a, s1));
    assert(p_expression(s1, LOWEST) == (a, s1));
    let e = ExprV::PrefixExpression(s.cur, s.cur.literal, Box::new(a));
    assert(p_prefix_expression(s) == (e, s1));
    assert(expression_loop(s1, LOWEST, e) == (e, s1));
}

} // verus!

