//! The easyjs parser: turns the lexer's tokens into a syntax tree.
//!
//! Every parsing function is proved to do exactly what its counterpart in
//! `parser::model` says, and to keep the parser well formed.
use vstd::prelude::*;
use crate::lexer::lex::Lex;
use crate::lexer::model::LexView;
use crate::lexer::token::{self, Token, TokenView};
use crate::parser::ast::{
    self, Expression, ExprV, Program, Statement, StmtV, expr_view, stmt_view,
};
use crate::parser::model::{
    InfixKind, PView, PrefixKind, infix_kind, lemma_add_error_step, lemma_step_refl,
    lemma_step_trans, precedence_of, prefix_kind, AND, AS, ASSIGN, AWAIT, BRACE, BRACKET, CALL,
    DOC_COMMENT, DOT, DOTDOT, DOUBLE_QUESTION_MARK, EQUALS, IN, LESSGREATER, LOWEST, OR, PRODUCT,
    SUM,
};
use crate::parser::model;
use crate::parser::numbers::{is_float_syntax, parse_i64};
use crate::text::{i32_to_string, push_str, str_eq};

verus! {

/// The views of a sequence of expressions.
pub open spec fn exprs_view(v: Seq<Expression>) -> Seq<ExprV> {
    Seq::new(v.len(), |i: int| expr_view(v[i]))
}

/// The views of a sequence of statements.
pub open spec fn stmts_view(v: Seq<Statement>) -> Seq<StmtV> {
    Seq::new(v.len(), |i: int| stmt_view(v[i]))
}

/// The views of the cases of a match statement.
pub open spec fn conds_view(v: Seq<(Expression, Statement)>) -> Seq<(ExprV, StmtV)> {
    Seq::new(v.len(), |i: int| (expr_view(v[i].0), stmt_view(v[i].1)))
}

/// The views of a sequence of strings.
pub open spec fn strings_view(v: Seq<String>) -> Seq<Seq<char>> {
    v.map_values(|x: String| x@)
}

/// The token a parser holds before it has read anything.
pub open spec fn blank_token() -> TokenView {
    TokenView { typ: ""@, literal: ""@, file_name: ""@, line_number: -1, col_number: -1 }
}

/// The state of a parser made from a lexer in state `l`: two tokens have been read.
pub open spec fn start_state(l: LexView) -> PView {
    PView { lex: l, cur: blank_token(), peek: blank_token(), errors: Seq::empty() }.next().next()
}

/// Our AST parser.
pub struct Parser {
    /// Access to the lexer.
    l: Lex,
    /// The current token we are parsing
    c_token: Token,
    /// The next token we are parsing
    peek_token: Token,
    /// parsing errors
    pub errors: Vec<String>,
}

impl View for Parser {
    type V = PView;

    closed spec fn view(&self) -> PView {
        PView {
            lex: self.l@,
            cur: self.c_token@,
            peek: self.peek_token@,
            errors: strings_view(self.errors@),
        }
    }
}

proof fn lemma_block_view(t: Token, v: Vec<Statement>)
    ensures
        stmt_view(Statement::BlockStatement(t, Box::new(v))) == StmtV::BlockStatement(
            t@,
            stmts_view(v@),
        ),
{
    let ss = stmt_view(Statement::BlockStatement(t, Box::new(v)))->BlockStatement_1;
    assert forall|i: int| 0 <= i < ss.len() implies ss[i] == stmts_view(v@)[i] by {}
    assert(ss =~= stmts_view(v@));
}

proof fn lemma_match_view(t: Token, e: Expression, v: Vec<(Expression, Statement)>)
    ensures
        stmt_view(Statement::MatchStatement(t, Box::new(e), Box::new(v))) == StmtV::MatchStatement(
            t@,
            Box::new(expr_view(e)),
            conds_view(v@),
        ),
{
    let ss = stmt_view(Statement::MatchStatement(t, Box::new(e), Box::new(v)))->MatchStatement_2;
    assert forall|i: int| 0 <= i < ss.len() implies ss[i] == conds_view(v@)[i] by {}
    assert(ss =~= conds_view(v@));
}

proof fn lemma_function_view(t: Token, params: Vec<Expression>, ty: Expression, body: Statement)
    ensures
        expr_view(Expression::Function(t, Box::new(params), Box::new(ty), body)) == ExprV::Function(
            t@,
            exprs_view(params@),
            Box::new(expr_view(ty)),
            Box::new(stmt_view(body)),
        ),
{
    let ss = expr_view(Expression::Function(t, Box::new(params), Box::new(ty), body))->Function_1;
    assert forall|i: int| 0 <= i < ss.len() implies ss[i] == exprs_view(params@)[i] by {}
    assert(ss =~= exprs_view(params@));
}

proof fn lemma_call_view(t: Token, left: Expression, args: Vec<Expression>)
    ensures
        expr_view(Expression::CallExpression(t, Box::new(left), Box::new(args)))
            == ExprV::CallExpression(t@, Box::new(expr_view(left)), exprs_view(args@)),
{
    let ss = expr_view(Expression::CallExpression(t, Box::new(left), Box::new(args)))->CallExpression_2;
    assert forall|i: int| 0 <= i < ss.len() implies ss[i] == exprs_view(args@)[i] by {}
    assert(ss =~= exprs_view(args@));
}

proof fn lemma_array_view(t: Token, v: Vec<Expression>)
    ensures
        expr_view(Expression::ArrayLiteral(t, Box::new(v))) == ExprV::ArrayLiteral(
            t@,
            exprs_view(v@),
        ),
{
    let ss = expr_view(Expression::ArrayLiteral(t, Box::new(v)))->ArrayLiteral_1;
    assert forall|i: int| 0 <= i < ss.len() implies ss[i] == exprs_view(v@)[i] by {}
    assert(ss =~= exprs_view(v@));
}

proof fn lemma_class_view(t: Token, v: Vec<Statement>)
    ensures
        expr_view(Expression::Class(t, v)) == ExprV::Class(t@, stmts_view(v@)),
{
    let ss = expr_view(Expression::Class(t, v))->Class_1;
    assert forall|i: int| 0 <= i < ss.len() implies ss[i] == stmts_view(v@)[i] by {}
    assert(ss =~= stmts_view(v@));
}

/// A copy of a string.
fn copy_string(s: &String) -> (r: String)
    ensures
        r@ == s@,
{
    s.as_str().to_owned()
}

/// Find the precedence of a token.
fn precedences(tk: &str) -> (r: i64)
    ensures
        r == precedence_of(tk@),
{
    if str_eq(tk, token::EQ) || str_eq(tk, token::NOT_EQ) {
        EQUALS
    } else if str_eq(tk, token::LT) || str_eq(tk, token::GT) || str_eq(tk, token::LT_OR_EQ)
        || str_eq(tk, token::GT_OR_EQ) {
        LESSGREATER
    } else if str_eq(tk, token::PLUS) || str_eq(tk, token::MINUS) {
        SUM
    } else if str_eq(tk, token::SLASH) || str_eq(tk, token::ASTERISK) || str_eq(tk, token::MODULUS) {
        PRODUCT
    } else if str_eq(tk, token::L_PAREN) {
        CALL
    } else if str_eq(tk, token::DOT) || str_eq(tk, token::SPREAD) {
        DOT
    } else if str_eq(tk, token::L_BRACKET) {
        BRACKET
    } else if str_eq(tk, token::L_BRACE) {
        BRACE
    } else if str_eq(tk, token::DOTDOT) {
        DOTDOT
    } else if str_eq(tk, token::IN) || str_eq(tk, token::IS) {
        IN
    } else if str_eq(tk, token::AWAIT) {
        AWAIT
    } else if str_eq(tk, token::ASSIGN) || str_eq(tk, token::PLUS_EQUALS) || str_eq(
        tk,
        token::MINUS_EQUALS,
    ) || str_eq(tk, token::SLASH_EQUALS) || str_eq(tk, token::ASTERISK_EQUALS) {
        ASSIGN
    } else if str_eq(tk, token::AS) {
        AS
    } else if str_eq(tk, token::DOC_COMMENT) {
        DOC_COMMENT
    } else if str_eq(tk, token::BITWISE_OR) || str_eq(tk, token::OR_SYMBOL) {
        OR
    } else if str_eq(tk, token::BITWISE_AND) || str_eq(tk, token::AND_SYMBOL) {
        AND
    } else if str_eq(tk, token::DOUBLE_QUESTION_MARK) {
        DOUBLE_QUESTION_MARK
    } else {
        LOWEST
    }
}

impl Parser {
    pub fn new(l: Lex) -> (r: Parser)
        requires
            l@.wf(),
        ensures
            r@ == start_state(l@),
            r@.inv(),
    {
        let mut p = Parser {
            l,
            c_token: token::new_token("", "", "", -1, -1),
            peek_token: token::new_token("", "", "", -1, -1),
            errors: Vec::new(),
        };
        proof {
            reveal_strlit("");
            reveal_strlit("EOF");
            assert(p@.errors =~= Seq::<Seq<char>>::empty());
            assert(token::EOF@.len() == 3);
            assert(p@.cur == blank_token());
            assert(p@.peek == blank_token());
        }
        p.next_token();
        p.next_token();
        p
    }

    /// The errors found so far, in the order they were found.
    pub fn get_errors(&self) -> (r: &Vec<String>)
        ensures
            strings_view(r@) == self@.errors,
    {
        &self.errors
    }

    /// peek the precedence
    fn peek_precedence(&self) -> (r: i64)
        ensures
            r == precedence_of(self@.peek.typ),
    {
        precedences(self.peek_token.typ.as_str())
    }

    /// the current precedence
    fn cur_precedence(&self) -> (r: i64)
        ensures
            r == precedence_of(self@.cur.typ),
    {
        precedences(self.c_token.typ.as_str())
    }

    /// Returns the prefix parsing function of a token type, if it has one.
    fn prefix_fns(&self, token_type: &str) -> (r: Option<PrefixKind>)
        ensures
            r == prefix_kind(token_type@),
    {
        let t = token_type;
        if str_eq(t, token::IDENT) || str_eq(t, token::THIS) {
            Some(PrefixKind::Identifier)
        } else if str_eq(t, token::INT) {
            Some(PrefixKind::IntegerLiteral)
        } else if str_eq(t, token::FLOAT) {
            Some(PrefixKind::FloatLiteral)
        } else if str_eq(t, token::BANG) || str_eq(t, token::MINUS) {
            Some(PrefixKind::Prefix)
        } else if str_eq(t, token::NOT) {
            Some(PrefixKind::Not)
        } else if str_eq(t, token::TRUE) || str_eq(t, token::FALSE) {
            Some(PrefixKind::Boolean)
        } else if str_eq(t, token::NULL) {
            Some(PrefixKind::Null)
        } else if str_eq(t, token::L_PAREN) {
            Some(PrefixKind::Group)
        } else if str_eq(t, token::IF) {
            Some(PrefixKind::If)
        } else if str_eq(t, token::FUNCTION) {
            Some(PrefixKind::FunctionLiteral)
        } else if str_eq(t, token::STRING) {
            Some(PrefixKind::StringLiteral)
        } else if str_eq(t, token::COMMENT) {
            Some(PrefixKind::Comment)
        } else if str_eq(t, token::L_BRACKET) {
            Some(PrefixKind::ArrayLiteral)
        } else if str_eq(t, token::ASYNC) {
            Some(PrefixKind::Async)
        } else if str_eq(t, token::AS) {
            Some(PrefixKind::As)
        } else if str_eq(t, token::AWAIT) {
            Some(PrefixKind::Await)
        } else if str_eq(t, token::SPREAD) {
            Some(PrefixKind::Spread)
        } else if str_eq(t, token::DOC_COMMENT) {
            Some(PrefixKind::DocComment)
        } else if str_eq(t, token::CLASS) {
            Some(PrefixKind::Class)
        } else if str_eq(t, token::IMPORT) {
            Some(PrefixKind::Import)
        } else {
            None
        }
    }

    /// Returns the infix parsing function of a token type, if it has one.
    fn infix_fns(&self, token_type: &str) -> (r: Option<InfixKind>)
        ensures
            r == infix_kind(token_type@),
    {
        let t = token_type;
        if str_eq(t, token::PLUS) || str_eq(t, token::MINUS) || str_eq(t, token::SLASH) || str_eq(
            t,
            token::ASTERISK,
        ) || str_eq(t, token::EQ) || str_eq(t, token::NOT_EQ) || str_eq(t, token::LT) || str_eq(
            t,
            token::GT,
        ) || str_eq(t, token::LT_OR_EQ) || str_eq(t, token::GT_OR_EQ) || str_eq(t, token::JAVASCRIPT)
            || str_eq(t, token::BITWISE_AND) || str_eq(t, token::BITWISE_OR) || str_eq(
            t,
            token::MODULUS,
        ) || str_eq(t, token::PLUS_EQUALS) || str_eq(t, token::MINUS_EQUALS) || str_eq(
            t,
            token::SLASH_EQUALS,
        ) || str_eq(t, token::ASTERISK_EQUALS) {
            Some(InfixKind::Infix)
        } else if str_eq(t, token::L_PAREN) {
            Some(InfixKind::Call)
        } else if str_eq(t, token::DOT) {
            Some(InfixKind::Dot)
        } else if str_eq(t, token::L_BRACKET) {
            Some(InfixKind::Index)
        } else if str_eq(t, token::DOTDOT) {
            Some(InfixKind::Range)
        } else if str_eq(t, token::IN) {
            Some(InfixKind::In)
        } else if str_eq(t, token::ASSIGN) {
            Some(InfixKind::Assign)
        } else if str_eq(t, token::AND_SYMBOL) {
            Some(InfixKind::And)
        } else if str_eq(t, token::OR_SYMBOL) {
            Some(InfixKind::Or)
        } else if str_eq(t, token::DOUBLE_QUESTION_MARK) {
            Some(InfixKind::DefaultIfNull)
        } else if str_eq(t, token::IS) {
            Some(InfixKind::Is)
        } else {
            None
        }
    }

    /// Add an error
    fn add_error(&mut self, error: &str)
        requires
            old(self)@.inv(),
        ensures
            final(self)@ == old(self)@.add_error(error@),
            old(self)@.stepped_to(final(self)@),
            final(self)@.same_pos(old(self)@),
    {
        proof {
            lemma_add_error_step(self@, error@);
        }
        let mut e = String::new();
        push_str(&mut e, "File: ");
        push_str(&mut e, self.l.file().as_str());
        push_str(&mut e, " Line ");
        let line = i32_to_string(self.l.line());
        push_str(&mut e, line.as_str());
        push_str(&mut e, ".");
        let col = i32_to_string(self.l.col());
        push_str(&mut e, col.as_str());
        push_str(&mut e, ": ");
        push_str(&mut e, error);
        let ghost before = self@;
        assert(e@ =~= before.error_text(error@));
        self.errors.push(e);
        assert(strings_view(self.errors@) =~= before.errors.push(e@));
    }

    /// Is the current token this type?
    fn cur_token_is(&self, token_type: &str) -> (r: bool)
        ensures
            r == self@.cur_is(token_type@),
    {
        str_eq(self.c_token.typ.as_str(), token_type)
    }

    /// is the peek token this type?
    fn peek_token_is(&self, token_type: &str) -> (r: bool)
        ensures
            r == self@.peek_is(token_type@),
    {
        str_eq(self.peek_token.typ.as_str(), token_type)
    }

    /// Expect the peek token to be of type, writes error if failed.
    fn expect_peek(&mut self, token_type: &str) -> (r: bool)
        requires
            old(self)@.inv(),
        ensures
            (r, final(self)@) == old(self)@.expect_peek(token_type@),
            old(self)@.stepped_to(final(self)@),
            r && token_type@ != token::EOF@ ==> final(self)@.mu() < old(self)@.mu(),
    {
        if self.peek_token_is(token_type) {
            self.next_token();
            return true;
        }
        let mut msg = String::new();
        push_str(&mut msg, "Expected next token to be ");
        push_str(&mut msg, token_type);
        push_str(&mut msg, " but got ");
        push_str(&mut msg, self.peek_token.typ.as_str());
        push_str(&mut msg, " instead.");
        assert(msg@ =~= "Expected next token to be "@ + token_type@ + " but got "@ + self@.peek.typ
            + " instead."@);
        self.add_error(msg.as_str());
        false
    }

    /// Move forward in the token hierachy
    fn next_token(&mut self)
        requires
            old(self)@.inv(),
        ensures
            final(self)@ == old(self)@.next(),
            final(self)@.inv(),
            old(self)@.stepped_to(final(self)@),
            old(self)@.cur.typ != token::EOF@ ==> final(self)@.mu() < old(self)@.mu(),
            old(self)@.cur.typ == token::EOF@ ==> final(self)@ == old(self)@,
    {
        let ghost s = self@;
        self.c_token = self.peek_token.copy_token();
        self.peek_token = self.l.next_token();
        proof {
            lemma_step_refl(s);
            assert(self@.errors == s.errors);
            if s.cur.typ == token::EOF@ {
                assert(self@.cur == s.cur);
                assert(self@.peek == s.peek);
                assert(self@ == s);
            }
        }
    }

    /// Expect peek token to be eos
    fn expect_peek_eos(&mut self) -> (r: bool)
        requires
            old(self)@.inv(),
        ensures
            (r, final(self)@) == old(self)@.expect_peek_eos(),
            old(self)@.stepped_to(final(self)@),
    {
        if !self.peek_token_is_eos() {
            let mut msg = String::new();
            push_str(&mut msg, "Expected EOS but got: ");
            push_str(&mut msg, self.peek_token.typ.as_str());
            push_str(&mut msg, " instead");
            assert(msg@ =~= "Expected EOS but got: "@ + self@.peek.typ + " instead"@);
            self.add_error(msg.as_str());
            return false;
        }
        self.next_token();
        true
    }

    /// is our current token and eos.
    fn cur_token_is_eos(&self) -> (r: bool)
        ensures
            r == self@.cur_is_eos(),
    {
        self.cur_token_is(token::SEMICOLON) || self.cur_token_is(token::EOL)
    }

    /// is the peek token an eos.
    fn peek_token_is_eos(&self) -> (r: bool)
        ensures
            r == self@.peek_is_eos(),
    {
        self.peek_token_is(token::SEMICOLON) || self.peek_token_is(token::EOL)
    }

    /// Is (token) or EOF
    fn peek_token_is_or_eof(&self, token_type: &str) -> (r: bool)
        ensures
            r == self@.peek_is_or_eof(token_type@),
    {
        self.peek_token_is(token_type) || self.peek_token_is(token::EOF)
    }
}


/// Parse a statement, returns EmptyStatement on error.
fn parse_statement(p: &mut Parser) -> (r: Statement)
    requires
        old(p)@.inv(),
    ensures
        (stmt_view(r), final(p)@) == model::p_statement(old(p)@),
        old(p)@.stepped_to(final(p)@),
    decreases old(p)@.mu(), 40nat,
{
    proof {
        token::lemma_eof_is_distinct();
    }
    let ghost s0 = p@;
    let stmt = if p.cur_token_is(token::IDENT) {
        if p.peek_token_is(token::ASSIGN) || p.peek_token_is(token::COLON) || p.peek_token_is(
            token::CONSTANT_ASSIGNMENT,
        ) {
            parse_var_statement(p)
        } else {
            parse_expression_statement(p)
        }
    } else if p.cur_token_is(token::RETURN) {
        parse_return_statement(p)
    } else if p.cur_token_is(token::JAVASCRIPT) {
        proof {
            lemma_step_refl(s0);
        }
        Statement::JavaScriptStatement(p.c_token.copy_token(), copy_string(&p.c_token.literal))
    } else if p.cur_token_is(token::FOR) {
        parse_for_statement(p)
    } else if p.cur_token_is(token::PUB) {
        parse_export_statement(p)
    } else if p.cur_token_is(token::ASYNC) {
        parse_async_block_statement(p)
    } else if p.cur_token_is(token::MATCH) {
        parse_match_statement(p)
    } else if p.cur_token_is(token::BREAK) {
        proof {
            lemma_step_refl(s0);
        }
        parse_break_statement(p)
    } else if p.cur_token_is(token::CONTINUE) {
        proof {
            lemma_step_refl(s0);
        }
        parse_continue_statement(p)
    } else if p.cur_token_is(token::ANNOTATOR) {
        parse_annotation_statement(p)
    } else {
        parse_expression_statement(p)
    };
    // if next token is a ';'
    if p.peek_token_is(token::SEMICOLON) {
        let ghost s1 = p@;
        p.next_token();
        proof {
            lemma_step_trans(s0, s1, p@);
        }
    }
    stmt
}

fn parse_break_statement(p: &Parser) -> (r: Statement)
    ensures
        stmt_view(r) == StmtV::BreakStatement(p@.cur),
{
    let token = p.c_token.copy_token();
    Statement::BreakStatement(token)
}

fn parse_continue_statement(p: &Parser) -> (r: Statement)
    ensures
        stmt_view(r) == StmtV::ContinueStatement(p@.cur),
{
    Statement::ContinueStatement(p.c_token.copy_token())
}

fn parse_var_statement(p: &mut Parser) -> (r: Statement)
    requires
        old(p)@.inv(),
    ensures
        (stmt_view(r), final(p)@) == model::p_var_statement(old(p)@),
        old(p)@.stepped_to(final(p)@),
    decreases old(p)@.mu(), 30nat,
{
    proof {
        token::lemma_eof_is_distinct();
    }
    let ghost s0 = p@;
    let token = p.c_token.copy_token();  // identifier
    let name = parse_identifier(p);
    let var_type = if p.peek_token_is(token::COLON) {
        parse_type(p)
    } else {
        proof {
            lemma_step_refl(s0);
        }
        none_type(token.copy_token())
    };
    let ghost s2 = p@;
    // A non initialized variable
    if !p.peek_token_is(token::ASSIGN) && !p.peek_token_is(token::CONSTANT_ASSIGNMENT) {
        return Statement::VariableStatement(
            token,
            Box::new(name),
            Box::new(var_type),
            Box::new(ast::empty_expression()),
        );
    }
    let is_const = p.peek_token_is(token::CONSTANT_ASSIGNMENT);
    p.next_token();
    let ghost s2a = p@;
    p.next_token();
    let ghost s3 = p@;
    proof {
        lemma_step_trans(s0, s2, s2a);
        lemma_step_trans(s0, s2a, s3);
    }
    let value = parse_expression(p, LOWEST);
    proof {
        lemma_step_trans(s0, s3, p@);
    }
    if is_const {
        Statement::ConstVariableStatement(token, Box::new(name), Box::new(var_type), Box::new(value))
    } else {
        Statement::VariableStatement(token, Box::new(name), Box::new(var_type), Box::new(value))
    }
}

fn parse_return_statement(p: &mut Parser) -> (r: Statement)
    requires
        old(p)@.inv(),
        old(p)@.cur.typ != token::EOF@,
    ensures
        (stmt_view(r), final(p)@) == model::p_return_statement(old(p)@),
        old(p)@.stepped_to(final(p)@),
    decreases old(p)@.mu(), 30nat,
{
    let ghost s0 = p@;
    let token = p.c_token.copy_token();
    // Sometimes the return is empty
    if p.peek_token_is(token::R_BRACE) {
        proof {
            lemma_step_refl(s0);
        }
        return Statement::ReturnStatement(token, Box::new(ast::empty_expression()));
    }
    p.next_token();
    let ghost s1 = p@;
    let value = parse_expression(p, LOWEST);
    proof {
        lemma_step_trans(s0, s1, p@);
    }
    Statement::ReturnStatement(token, Box::new(value))
}

fn parse_expression_statement(p: &mut Parser) -> (r: Statement)
    requires
        old(p)@.inv(),
    ensures
        (stmt_view(r), final(p)@) == model::p_expression_statement(old(p)@),
        old(p)@.stepped_to(final(p)@),
    decreases old(p)@.mu(), 25nat,
{
    let token = p.c_token.copy_token();
    let expression = parse_expression(p, LOWEST);
    if expression.is_empty() {
        return Statement::EmptyStatement;
    }
    Statement::ExpressionStatement(token, Box::new(expression))
}

#[verifier::loop_isolation(false)]
fn parse_block_statement(p: &mut Parser) -> (r: Statement)
    requires
        old(p)@.inv(),
    ensures
        (stmt_view(r), final(p)@) == model::p_block_statement(old(p)@),
        old(p)@.stepped_to(final(p)@),
    decreases old(p)@.mu(), 22nat,
{
    let ghost s0 = p@;
    let token = p.c_token.copy_token();
    let mut staments: Vec<Statement> = Vec::new();
    p.next_token();  // consume the {
    let ghost s1 = p@;
    let ghost target = model::block_loop(s1, Seq::empty());
    assert(stmts_view(staments@) =~= Seq::<StmtV>::empty());
    while !p.cur_token_is(token::R_BRACE) && !p.cur_token_is(token::EOF)
        invariant
            p@.inv(),
            s0.stepped_to(p@),
            p@.cur.typ != token::EOF@ ==> p@.mu() < s0.mu(),
            model::block_loop(p@, stmts_view(staments@)) == target,
        decreases p@.mu(),
    {
        let ghost si = p@;
        let stmt = parse_statement(p);
        let ghost sj = p@;
        let ghost acc = stmts_view(staments@);
        if !stmt.is_empty() {
            staments.push(stmt);
            assert(stmts_view(staments@) =~= acc.push(stmt_view(stmt)));
        }
        p.next_token();
        proof {
            lemma_step_trans(si, sj, p@);
            lemma_step_trans(s0, si, p@);
        }
    }
    proof {
        lemma_block_view(token, staments);
    }
    let r = Statement::BlockStatement(token, Box::new(staments));
    r
}

fn parse_for_statement(p: &mut Parser) -> (r: Statement)
    requires
        old(p)@.inv(),
        old(p)@.cur.typ != token::EOF@,
    ensures
        (stmt_view(r), final(p)@) == model::p_for_statement(old(p)@),
        old(p)@.stepped_to(final(p)@),
    decreases old(p)@.mu(), 30nat,
{
    proof {
        token::lemma_eof_is_distinct();
    }
    let ghost s0 = p@;
    let token = p.c_token.copy_token();  // for
    let has_paren = p.peek_token_is(token::L_PAREN);
    if has_paren {
        p.next_token();  // (
    }
    let ghost s1 = p@;
    // go to expression
    p.next_token();
    let ghost s2 = p@;
    let condition = parse_expression(p, LOWEST);
    let ghost s3 = p@;
    proof {
        if !has_paren {
            lemma_step_refl(s0);
        }
        lemma_step_trans(s0, s1, s2);
        lemma_step_trans(s0, s2, s3);
    }
    if condition.is_empty() {
        return ast::empty_statement();
    }
    if has_paren && !p.expect_peek(token::R_PAREN) {
        return ast::empty_statement();
    }
    let ghost s4 = p@;
    proof {
        if !has_paren {
            lemma_step_refl(s3);
        }
        lemma_step_trans(s0, s3, s4);
    }
    if !p.expect_peek(token::L_BRACE) {
        return ast::empty_statement();
    }
    let ghost s5 = p@;
    proof {
        lemma_step_trans(s0, s4, s5);
    }
    let body = parse_block_statement(p);
    proof {
        lemma_step_trans(s0, s5, p@);
    }
    Statement::ForStatement(token, Box::new(condition), Box::new(body))
}

fn parse_export_statement(p: &mut Parser) -> (r: Statement)
    requires
        old(p)@.inv(),
        old(p)@.cur.typ != token::EOF@,
    ensures
        (stmt_view(r), final(p)@) == model::p_export_statement(old(p)@),
        old(p)@.stepped_to(final(p)@),
    decreases old(p)@.mu(), 30nat,
{
    let ghost s0 = p@;
    let token = p.c_token.copy_token();  // pub
    p.next_token();  // get stmt
    let ghost s1 = p@;
    let stmt = parse_statement(p);
    proof {
        lemma_step_trans(s0, s1, p@);
    }
    Statement::ExportStatement(token, Box::new(stmt))
}

fn parse_async_block_statement(p: &mut Parser) -> (r: Statement)
    requires
        old(p)@.inv(),
    ensures
        (stmt_view(r), final(p)@) == model::p_async_block_statement(old(p)@),
        old(p)@.stepped_to(final(p)@),
    decreases old(p)@.mu(), 35nat,
{
    proof {
        token::lemma_eof_is_distinct();
    }
    let ghost s0 = p@;
    let token = p.c_token.copy_token();
    if !p.peek_token_is(token::L_BRACE) {
        return parse_expression_statement(p);
    }
    p.next_token();  // {
    let ghost s1 = p@;
    let block = parse_block_statement(p);
    proof {
        lemma_step_trans(s0, s1, p@);
    }
    Statement::AsyncBlockStatement(token, Box::new(block))
}

#[verifier::loop_isolation(false)]
fn parse_match_statement(p: &mut Parser) -> (r: Statement)
    requires
        old(p)@.inv(),
        old(p)@.cur.typ != token::EOF@,
    ensures
        (stmt_view(r), final(p)@) == model::p_match_statement(old(p)@),
        old(p)@.stepped_to(final(p)@),
    decreases old(p)@.mu(), 30nat,
{
    proof {
        token::lemma_eof_is_distinct();
    }
    let ghost s0 = p@;
    let token = p.c_token.copy_token();  // match
    if !p.expect_peek(token::IDENT) {
        return ast::empty_statement();
    }
    let ghost s1 = p@;
    let expr = parse_expression(p, LOWEST);
    let ghost s2 = p@;
    proof {
        lemma_step_trans(s0, s1, s2);
    }
    if !p.expect_peek(token::L_BRACE) {
        proof {
            lemma_step_trans(s0, s2, p@);
        }
        return ast::empty_statement();
    }
    let ghost s3 = p@;
    proof {
        lemma_step_trans(s0, s2, s3);
    }
    // a default block will be provided in the case that one is not set
    let mut conditions: Vec<(Expression, Statement)> = Vec::new();
    if p.peek_token_is(token::R_BRACE) {
        p.next_token();  // consume it and continue
        proof {
            lemma_step_trans(s0, s3, p@);
        }
        proof {
            lemma_match_view(token, expr, conditions);
            assert(conds_view(conditions@) =~= Seq::<(ExprV, StmtV)>::empty());
        }
        return Statement::MatchStatement(token, Box::new(expr), Box::new(conditions));
    }
    let ghost target = model::match_loop(s3, Seq::empty());
    assert(conds_view(conditions@) =~= Seq::<(ExprV, StmtV)>::empty());
    while !p.peek_token_is(token::R_BRACE)
        invariant
            p@.inv(),
            s0.stepped_to(p@),
            p@.mu() < s0.mu(),
            model::match_loop(p@, conds_view(conditions@)) == target,
        decreases p@.mu(),
    {
        let ghost si = p@;
        p.next_token();  // go to the condition.
        let ghost sa = p@;
        let left_condition = parse_expression(p, LOWEST);
        let ghost sb = p@;
        proof {
            lemma_step_trans(si, sa, sb);
        }
        if !p.expect_peek(token::COLON) {
            proof {
                lemma_step_trans(si, sb, p@);
                lemma_step_trans(s0, si, p@);
            }
            return ast::empty_statement();
        }
        let ghost sc = p@;
        p.next_token();
        let ghost sd = p@;
        let right_block = parse_block_statement(p);
        proof {
            lemma_step_trans(si, sb, sc);
            lemma_step_trans(si, sc, sd);
            lemma_step_trans(si, sd, p@);
            lemma_step_trans(s0, si, p@);
        }
        let ghost acc = conds_view(conditions@);
        conditions.push((left_condition, right_block));
        assert(conds_view(conditions@) =~= acc.push(
            (expr_view(conditions@.last().0), stmt_view(conditions@.last().1)),
        ));
    }
    // expect a ending brace
    let ghost s4 = p@;
    if !p.expect_peek(token::R_BRACE) {
        proof {
            lemma_step_trans(s0, s4, p@);
        }
        return ast::empty_statement();
    }
    proof {
        lemma_step_trans(s0, s4, p@);
    }
    proof {
        lemma_match_view(token, expr, conditions);
    }
    let r = Statement::MatchStatement(token, Box::new(expr), Box::new(conditions));
    r
}

fn parse_annotation_statement(p: &mut Parser) -> (r: Statement)
    requires
        old(p)@.inv(),
    ensures
        (stmt_view(r), final(p)@) == model::p_annotation_statement(old(p)@),
        old(p)@.stepped_to(final(p)@),
    decreases old(p)@.mu(), 30nat,
{
    proof {
        token::lemma_eof_is_distinct();
    }
    let ghost s0 = p@;
    let token = p.c_token.copy_token();
    if !p.expect_peek(token::IDENT) {
        return ast::empty_statement();
    }
    let ghost s1 = p@;
    let annotation = copy_string(&token.literal);
    // Parse following statement
    p.next_token();
    let ghost s2 = p@;
    let stmt = parse_statement(p);
    proof {
        lemma_step_trans(s0, s1, s2);
        lemma_step_trans(s0, s2, p@);
    }
    Statement::AnnotationStatement(token, annotation, Box::new(stmt))
}

/// Parse an expression whose operators bind tighter than `precedence`.
#[verifier::loop_isolation(false)]
fn parse_expression(p: &mut Parser, precedence: i64) -> (r: Expression)
    requires
        old(p)@.inv(),
    ensures
        (expr_view(r), final(p)@) == model::p_expression(old(p)@, precedence),
        old(p)@.stepped_to(final(p)@),
    decreases old(p)@.mu(), 10nat,
{
    proof {
        token::lemma_eof_is_distinct();
    }
    let ghost s0 = p@;
    let kind = match p.prefix_fns(p.c_token.typ.as_str()) {
        Some(k) => k,
        None => {
            proof {
                lemma_step_refl(s0);
            }
            return Expression::EmptyExpression;
        },
    };
    let mut left_exp = parse_prefix(p, kind);
    let ghost s1 = p@;
    let ghost target = model::expression_loop(s1, precedence, expr_view(left_exp));
    loop
        invariant
            p@.inv(),
            s0.stepped_to(p@),
            p@.mu() <= s0.mu(),
            model::expression_loop(p@, precedence, expr_view(left_exp)) == target,
        decreases p@.mu(),
    {
        if p.peek_token_is_eos() || p.peek_token_is(token::EOF) || !(precedence
            < p.peek_precedence()) {
            break ;
        }
        let k = match p.infix_fns(p.peek_token.typ.as_str()) {
            Some(k) => k,
            None => {
                break ;
            },
        };
        let ghost si = p@;
        p.next_token();
        let ghost sa = p@;
        left_exp = parse_infix(p, k, left_exp);
        proof {
            lemma_step_trans(si, sa, p@);
            lemma_step_trans(s0, si, p@);
        }
    }
    left_exp
}

/// Call the prefix parsing function.
fn parse_prefix(p: &mut Parser, kind: PrefixKind) -> (r: Expression)
    requires
        old(p)@.inv(),
        old(p)@.cur.typ != token::EOF@,
    ensures
        (expr_view(r), final(p)@) == model::p_prefix(old(p)@, kind),
        old(p)@.stepped_to(final(p)@),
    decreases old(p)@.mu(), 5nat,
{
    proof {
        lemma_step_refl(p@);
    }
    match kind {
        PrefixKind::Identifier => parse_identifier(p),
        PrefixKind::IntegerLiteral => parse_integer_literal(p),
        PrefixKind::FloatLiteral => parse_float_literal(p),
        PrefixKind::Prefix => parse_prefix_expression(p),
        PrefixKind::Not => parse_not_expression(p),
        PrefixKind::Boolean => parse_boolean(p),
        PrefixKind::Null => parse_null(p),
        PrefixKind::Group => parse_group_expression(p),
        PrefixKind::If => parse_if_expression(p),
        PrefixKind::FunctionLiteral => parse_function_literal(p),
        PrefixKind::StringLiteral => parse_string_literal(p),
        PrefixKind::Comment => parse_comment(p),
        PrefixKind::ArrayLiteral => parse_array_literal(p),
        PrefixKind::Async => parse_async_expressoin(p),
        PrefixKind::As => parse_as_expression(p),
        PrefixKind::Await => parse_await_expression(p),
        PrefixKind::Spread => parse_spread_expression(p),
        PrefixKind::DocComment => parse_doc_comment_expression(p),
        PrefixKind::Class => parse_class_expression(p),
        PrefixKind::Import => parse_import_expression(p),
    }
}

/// Call the infix parsing function, with the left operand already parsed.
fn parse_infix(p: &mut Parser, kind: InfixKind, left: Expression) -> (r: Expression)
    requires
        old(p)@.inv(),
        old(p)@.cur.typ != token::EOF@,
    ensures
        (expr_view(r), final(p)@) == model::p_infix(old(p)@, kind, expr_view(left)),
        old(p)@.stepped_to(final(p)@),
    decreases old(p)@.mu(), 5nat,
{
    match kind {
        InfixKind::Infix => parse_infix_expression(p, left),
        InfixKind::Call => parse_call_expression(p, left),
        InfixKind::Dot => parse_dot_expression(p, left),
        InfixKind::Index => parse_index_expression(p, left),
        InfixKind::Range => parse_range_expression(p, left),
        InfixKind::In => parse_in_expression(p, left),
        InfixKind::Assign => parse_assign_expression(p, left),
        InfixKind::And => parse_and_expression(p, left),
        InfixKind::Or => parse_or_expression(p, left),
        InfixKind::DefaultIfNull => parse_double_question_mark_expression(p, left),
        InfixKind::Is => parse_is_expression(p, left),
    }
}


/// Parse an identifier
fn parse_identifier(parser: &Parser) -> (r: Expression)
    ensures
        expr_view(r) == model::p_identifier(parser@).0,
{
    let token = parser.c_token.copy_token();
    let lit = copy_string(&token.literal);
    Expression::Identifier(token, lit)
}

/// Parse a type
fn parse_type(p: &mut Parser) -> (r: Expression)
    requires
        old(p)@.inv(),
    ensures
        (expr_view(r), final(p)@) == model::p_type(old(p)@),
        old(p)@.stepped_to(final(p)@),
{
    let ghost s0 = p@;
    let token = p.c_token.copy_token();
    // consume the :
    p.next_token();
    let ghost s1 = p@;
    // and go to the identifer
    let ok = p.expect_peek(token::IDENT);
    proof {
        lemma_step_trans(s0, s1, p@);
    }
    if !ok {
        return Expression::EmptyExpression;
    }
    Expression::Type(token, copy_string(&p.c_token.literal))
}

/// parse an integer literal, returns EmptyExpression if not valid.
fn parse_integer_literal(parser: &mut Parser) -> (r: Expression)
    requires
        old(parser)@.inv(),
    ensures
        (expr_view(r), final(parser)@) == model::p_integer_literal(old(parser)@),
        old(parser)@.stepped_to(final(parser)@),
{
    proof {
        lemma_step_refl(parser@);
    }
    let tk = parser.c_token.copy_token();
    // check is number
    match parse_i64(parser.c_token.literal.as_str()) {
        Some(integer) => Expression::IntegerLiteral(tk, integer),
        None => {
            let mut msg = String::new();
            push_str(&mut msg, "Epected type INT got ");
            push_str(&mut msg, tk.literal.as_str());
            push_str(&mut msg, " instead");
            assert(msg@ =~= "Epected type INT got "@ + tk.literal@ + " instead"@);
            parser.add_error(msg.as_str());
            Expression::EmptyExpression
        },
    }
}

/// parse a float literal: its text is kept when it reads as a floating-point number.
fn parse_float_literal(p: &mut Parser) -> (r: Expression)
    requires
        old(p)@.inv(),
    ensures
        (expr_view(r), final(p)@) == model::p_float_literal(old(p)@),
        old(p)@.stepped_to(final(p)@),
{
    proof {
        lemma_step_refl(p@);
    }
    let token = p.c_token.copy_token();  // 1.0
    // check is float
    if !is_float_syntax(p.c_token.literal.as_str()) {
        let mut msg = String::new();
        push_str(&mut msg, "Epected type FLOAT got ");
        push_str(&mut msg, token.literal.as_str());
        push_str(&mut msg, " instead");
        assert(msg@ =~= "Epected type FLOAT got "@ + token.literal@ + " instead"@);
        p.add_error(msg.as_str());
        return ast::empty_expression();
    }
    let float = copy_string(&p.c_token.literal);
    Expression::FloatLiteral(token, float)
}

/// parse a boolean
fn parse_boolean(p: &Parser) -> (r: Expression)
    ensures
        expr_view(r) == model::p_boolean(p@).0,
{
    Expression::Boolean(p.c_token.copy_token(), p.cur_token_is(token::TRUE))
}

fn parse_null(p: &Parser) -> (r: Expression)
    ensures
        expr_view(r) == model::p_null(p@).0,
{
    let token = p.c_token.copy_token();
    Expression::NullExpression(token)
}

fn parse_string_literal(p: &Parser) -> (r: Expression)
    ensures
        expr_view(r) == model::p_string_literal(p@).0,
{
    Expression::StringLiteral(p.c_token.copy_token(), copy_string(&p.c_token.literal))
}

fn parse_comment(p: &Parser) -> (r: Expression)
    ensures
        expr_view(r) == model::p_comment(p@).0,
{
    Expression::CommentExpression(p.c_token.copy_token(), copy_string(&p.c_token.literal))
}

#[verifier::loop_isolation(false)]
fn parse_doc_comment_expression(p: &mut Parser) -> (r: Expression)
    requires
        old(p)@.inv(),
    ensures
        (expr_view(r), final(p)@) == model::p_doc_comment(old(p)@),
        old(p)@.stepped_to(final(p)@),
{
    proof {
        token::lemma_eof_is_distinct();
        lemma_step_refl(p@);
    }
    let ghost s0 = p@;
    let token = p.c_token.copy_token();  // ///
    let mut comments: Vec<String> = Vec::new();
    // add first comment
    comments.push(copy_string(&p.c_token.literal));
    let ghost target = model::doc_loop(s0, seq![s0.cur.literal]);
    assert(strings_view(comments@) =~= seq![s0.cur.literal]);
    while p.peek_token_is(token::DOC_COMMENT)
        invariant
            p@.inv(),
            s0.stepped_to(p@),
            model::doc_loop(p@, strings_view(comments@)) == target,
        decreases p@.mu(),
    {
        let ghost si = p@;
        let ghost acc = strings_view(comments@);
        p.next_token();
        proof {
            lemma_step_trans(s0, si, p@);
        }
        comments.push(copy_string(&p.c_token.literal));
        assert(strings_view(comments@) =~= acc.push(p@.cur.literal));
    }
    Expression::DocCommentExpression(token, comments)
}

fn parse_import_expression(p: &mut Parser) -> (r: Expression)
    requires
        old(p)@.inv(),
    ensures
        (expr_view(r), final(p)@) == model::p_import(old(p)@),
        old(p)@.stepped_to(final(p)@),
{
    let ghost s0 = p@;
    let token = p.c_token.copy_token();
    if !p.expect_peek(token::L_PAREN) {
        return ast::empty_expression();
    }
    let ghost s1 = p@;
    let ok = p.expect_peek(token::STRING);
    proof {
        lemma_step_trans(s0, s1, p@);
    }
    if !ok {
        return ast::empty_expression();
    }
    let path = parse_string_literal(p);
    Expression::Import(token, Box::new(path))
}

/// Helper for a none type
fn none_type(tk: Token) -> (r: Expression)
    ensures
        expr_view(r) == model::none_type(tk@),
{
    Expression::Type(tk, String::from_str("none"))
}

/// Helper for a dyn type
fn dyn_type(tk: Token) -> (r: Expression)
    ensures
        expr_view(r) == model::dyn_type(tk@),
{
    Expression::Type(tk, String::from_str("dyn"))
}

fn parse_prefix_expression(p: &mut Parser) -> (r: Expression)
    requires
        old(p)@.inv(),
        old(p)@.cur.typ != token::EOF@,
    ensures
        (expr_view(r), final(p)@) == model::p_prefix_expression(old(p)@),
        old(p)@.stepped_to(final(p)@),
    decreases old(p)@.mu(), 4nat,
{
    let ghost s0 = p@;
    let token = p.c_token.copy_token();
    let operator = copy_string(&p.c_token.literal);
    p.next_token();
    let ghost s1 = p@;
    let right = parse_expression(p, LOWEST);
    proof {
        lemma_step_trans(s0, s1, p@);
    }
    Expression::PrefixExpression(token, operator, Box::new(right))
}

fn parse_not_expression(p: &mut Parser) -> (r: Expression)
    requires
        old(p)@.inv(),
        old(p)@.cur.typ != token::EOF@,
    ensures
        (expr_view(r), final(p)@) == model::p_not_expression(old(p)@),
        old(p)@.stepped_to(final(p)@),
    decreases old(p)@.mu(), 4nat,
{
    let ghost s0 = p@;
    let token = p.c_token.copy_token();  // not
    p.next_token();
    let ghost s1 = p@;
    let expression = parse_expression(p, LOWEST);
    proof {
        lemma_step_trans(s0, s1, p@);
    }
    if expression.is_empty() {
        return ast::empty_expression();
    }
    Expression::NotExpression(token, Box::new(expression))
}

fn parse_await_expression(p: &mut Parser) -> (r: Expression)
    requires
        old(p)@.inv(),
        old(p)@.cur.typ != token::EOF@,
    ensures
        (expr_view(r), final(p)@) == model::p_await_expression(old(p)@),
        old(p)@.stepped_to(final(p)@),
    decreases old(p)@.mu(), 4nat,
{
    let ghost s0 = p@;
    let token = p.c_token.copy_token();
    p.next_token();  // consome keyword
    let ghost s1 = p@;
    let value = parse_expression(p, LOWEST);
    proof {
        lemma_step_trans(s0, s1, p@);
    }
    if value.is_empty() {
        return value;
    }
    Expression::AwaitExpression(token, Box::new(value))
}

fn parse_group_expression(p: &mut Parser) -> (r: Expression)
    requires
        old(p)@.inv(),
        old(p)@.cur.typ != token::EOF@,
    ensures
        (expr_view(r), final(p)@) == model::p_group_expression(old(p)@),
        old(p)@.stepped_to(final(p)@),
    decreases old(p)@.mu(), 4nat,
{
    let ghost s0 = p@;
    let token = p.c_token.copy_token();
    p.next_token();
    let ghost s1 = p@;
    let exp = parse_expression(p, LOWEST);
    let ghost s2 = p@;
    let ok = p.expect_peek(token::R_PAREN);
    proof {
        lemma_step_trans(s0, s1, s2);
        lemma_step_trans(s0, s2, p@);
    }
    if !ok {
        return Expression::EmptyExpression;
    }
    Expression::GroupedExpression(token, Box::new(exp))
}

fn parse_if_expression(p: &mut Parser) -> (r: Expression)
    requires
        old(p)@.inv(),
        old(p)@.cur.typ != token::EOF@,
    ensures
        (expr_view(r), final(p)@) == model::p_if_expression(old(p)@),
        old(p)@.stepped_to(final(p)@),
    decreases old(p)@.mu(), 4nat,
{
    proof {
        token::lemma_eof_is_distinct();
        lemma_step_refl(p@);
    }
    let ghost s0 = p@;
    let token = p.c_token.copy_token();
    let mut elseif = ast::empty_expression();
    let mut else_ = ast::empty_statement();
    let mut has_par = false;
    // check for a (
    if p.peek_token_is(token::L_PAREN) {
        // consume it
        has_par = true;
        p.next_token();  // (
    }
    let ghost s1 = p@;
    // update tokens
    p.next_token();  // get to first param
    let ghost s2 = p@;
    let condition = parse_expression(p, LOWEST);
    let ghost s3 = p@;
    proof {
        lemma_step_trans(s0, s1, s2);
        lemma_step_trans(s0, s2, s3);
    }
    if condition.is_empty() {
        return Expression::EmptyExpression;
    }
    // consume ) if any
    if has_par && !p.expect_peek(token::R_PAREN) {
        proof {
            lemma_step_trans(s0, s3, p@);
        }
        return Expression::EmptyExpression;
    }
    let ghost s4 = p@;
    proof {
        if !has_par {
            lemma_step_refl(s3);
        }
        lemma_step_trans(s0, s3, s4);
    }
    if !p.expect_peek(token::L_BRACE) {
        proof {
            lemma_step_trans(s0, s4, p@);
        }
        return Expression::EmptyExpression;
    }
    let ghost s5 = p@;
    proof {
        lemma_step_trans(s0, s4, s5);
    }
    // parse block
    let consequence = parse_block_statement(p);
    let ghost s6 = p@;
    proof {
        lemma_step_trans(s0, s5, s6);
    }
    // check for elseif or else
    if p.peek_token_is(token::ELSE) {
        let mut is_elif = false;
        p.next_token();  // consume else
        let ghost s7 = p@;
        proof {
            lemma_step_trans(s0, s6, s7);
        }
        if p.peek_token_is(token::IF) {
            is_elif = true;
            p.next_token();
            let ghost s8 = p@;
            proof {
                lemma_step_trans(s0, s7, s8);
            }
            elseif = parse_if_expression(p);
            proof {
                lemma_step_trans(s0, s8, p@);
            }
        }
        if !is_elif {
            if !p.expect_peek(token::L_BRACE) {
                proof {
                    lemma_step_trans(s0, s7, p@);
                }
                return Expression::EmptyExpression;
            }
            let ghost s8 = p@;
            proof {
                lemma_step_trans(s0, s7, s8);
            }
            // we got em
            else_ = parse_block_statement(p);
            proof {
                lemma_step_trans(s0, s8, p@);
            }
        }
    }
    Expression::IfExpression(
        token,
        Box::new(condition),
        Box::new(consequence),
        Box::new(elseif),
        Box::new(else_),
    )
}

fn parse_function_literal(p: &mut Parser) -> (r: Expression)
    requires
        old(p)@.inv(),
        old(p)@.cur.typ != token::EOF@,
    ensures
        (expr_view(r), final(p)@) == model::p_function_literal(old(p)@),
        old(p)@.stepped_to(final(p)@),
    decreases old(p)@.mu(), 4nat,
{
    proof {
        token::lemma_eof_is_distinct();
    }
    let ghost s0 = p@;
    let token = p.c_token.copy_token();
    if p.peek_token_is(token::L_BRACE) {
        // this is a IIFE.
        return parse_iife_literal(p);
    }
    if !p.expect_peek(token::L_PAREN) {
        return ast::empty_expression();
    }
    let ghost s1 = p@;
    // params
    let parameters = parse_function_paramaters(p);
    let ghost s2 = p@;
    proof {
        lemma_step_trans(s0, s1, s2);
    }
    let var_type = if p.peek_token_is(token::RETURN_TYPE) {
        parse_type(p)
    } else {
        proof {
            lemma_step_refl(s2);
        }
        dyn_type(p.c_token.copy_token())
    };
    let ghost s3 = p@;
    proof {
        lemma_step_trans(s0, s2, s3);
    }
    if !p.expect_peek(token::L_BRACE) {
        proof {
            lemma_step_trans(s0, s3, p@);
        }
        return Expression::EmptyExpression;
    }
    let ghost s4 = p@;
    proof {
        lemma_step_trans(s0, s3, s4);
    }
    let body = parse_block_statement(p);
    proof {
        lemma_step_trans(s0, s4, p@);
    }
    if body.is_empty() {
        return Expression::EmptyExpression;
    }
    proof {
        lemma_function_view(token, parameters, var_type, body);
    }
    let r = Expression::Function(token, Box::new(parameters), Box::new(var_type), body);
    r
}

#[verifier::loop_isolation(false)]
fn parse_function_paramaters(p: &mut Parser) -> (r: Vec<Expression>)
    requires
        old(p)@.inv(),
        old(p)@.cur.typ != token::EOF@,
    ensures
        (exprs_view(r@), final(p)@) == model::p_function_parameters(old(p)@),
        old(p)@.stepped_to(final(p)@),
    decreases old(p)@.mu(), 4nat,
{
    proof {
        token::lemma_eof_is_distinct();
    }
    let ghost s0 = p@;
    // starts at (
    let mut idents: Vec<Expression> = Vec::new();
    // if we got no params
    if p.peek_token_is(token::R_PAREN) {
        p.next_token();  // consume the )
        assert(exprs_view(idents@) =~= Seq::<ExprV>::empty());
        return idents;
    }
    // go to first identifier
    p.next_token();
    let ghost s1 = p@;
    let ghost target = model::params_loop(s1, Seq::empty());
    assert(exprs_view(idents@) =~= Seq::<ExprV>::empty());
    loop
        invariant
            p@.inv(),
            s0.stepped_to(p@),
            p@.mu() < s0.mu(),
            model::params_loop(p@, exprs_view(idents@)) == target,
        decreases p@.mu(),
    {
        let ghost si = p@;
        let ghost acc = exprs_view(idents@);
        let e = parse_expression(p, LOWEST);
        let ghost sa = p@;
        idents.push(e);
        assert(exprs_view(idents@) =~= acc.push(expr_view(e)));
        proof {
            lemma_step_trans(s0, si, sa);
        }
        // Leave the loop dog!
        if !p.peek_token_is(token::COMMA) {
            break ;
        } else {
            p.next_token();  // Comma
            let ghost sb = p@;
            p.next_token();  // get to expression
            proof {
                lemma_step_trans(sa, sb, p@);
                lemma_step_trans(s0, sa, p@);
            }
        }
    }
    let ghost s2 = p@;
    let ok = p.expect_peek(token::R_PAREN);
    proof {
        lemma_step_trans(s0, s2, p@);
    }
    if !ok {
        let v = vec![Expression::EmptyExpression];
        assert(exprs_view(v@) =~= seq![ExprV::EmptyExpression]);
        return v;
    }
    idents
}

#[verifier::spinoff_prover]
#[verifier::rlimit(90)]
fn parse_iife_literal(p: &mut Parser) -> (r: Expression)
    requires
        old(p)@.inv(),
        old(p)@.cur.typ != token::EOF@,
    ensures
        (expr_view(r), final(p)@) == model::p_iife_literal(old(p)@),
        old(p)@.stepped_to(final(p)@),
    decreases old(p)@.mu(), 3nat,
{
    proof {
        assert(token::L_BRACE@ != token::EOF@) by {
            token::lemma_eof_is_distinct();
        }
    }
    let ghost s0 = p@;
    let token = p.c_token.copy_token();
    if !p.expect_peek(token::L_BRACE) {
        return Expression::EmptyExpression;
    }
    let ghost s1 = p@;
    // parse block
    let block = parse_block_statement(p);
    proof {
        lemma_step_trans(s0, s1, p@);
    }
    if block.is_empty() {
        return Expression::EmptyExpression;
    }
    Expression::IIFE(token, Box::new(block))
}

fn parse_array_literal(p: &mut Parser) -> (r: Expression)
    requires
        old(p)@.inv(),
        old(p)@.cur.typ != token::EOF@,
    ensures
        (expr_view(r), final(p)@) == model::p_array_literal(old(p)@),
        old(p)@.stepped_to(final(p)@),
    decreases old(p)@.mu(), 4nat,
{
    let token = p.c_token.copy_token();
    let elements = parse_array_arguments(p);
    proof {
        lemma_array_view(token, elements);
    }
    let r = Expression::ArrayLiteral(token, Box::new(elements));
    r
}

#[verifier::loop_isolation(false)]
fn parse_array_arguments(p: &mut Parser) -> (r: Vec<Expression>)
    requires
        old(p)@.inv(),
        old(p)@.cur.typ != token::EOF@,
    ensures
        (exprs_view(r@), final(p)@) == model::p_array_arguments(old(p)@),
        old(p)@.stepped_to(final(p)@),
    decreases old(p)@.mu(), 3nat,
{
    proof {
        token::lemma_eof_is_distinct();
    }
    let ghost s0 = p@;
    let mut args: Vec<Expression> = Vec::new();
    if p.peek_token_is(token::R_BRACKET) {
        // consume
        p.next_token();
        assert(exprs_view(args@) =~= Seq::<ExprV>::empty());
        return args;
    }
    p.next_token();
    let ghost s1 = p@;
    let first = parse_expression(p, LOWEST);
    let ghost s2 = p@;
    proof {
        lemma_step_trans(s0, s1, s2);
    }
    args.push(first);
    let ghost target = model::array_loop(s2, seq![expr_view(first)]);
    assert(exprs_view(args@) =~= seq![expr_view(first)]);
    while p.peek_token_is(token::COMMA)
        invariant
            p@.inv(),
            s0.stepped_to(p@),
            p@.mu() < s0.mu(),
            model::array_loop(p@, exprs_view(args@)) == target,
        decreases p@.mu(),
    {
        let ghost si = p@;
        p.next_token();
        let ghost sa = p@;
        p.next_token();
        let ghost sb = p@;
        proof {
            lemma_step_trans(si, sa, sb);
        }
        let el = parse_expression(p, LOWEST);
        proof {
            lemma_step_trans(si, sb, p@);
            lemma_step_trans(s0, si, p@);
        }
        if el.is_empty() {
            continue ;
        }
        let ghost acc = exprs_view(args@);
        args.push(el);
        assert(exprs_view(args@) =~= acc.push(expr_view(el)));
    }
    let ghost s3 = p@;
    let ok = p.expect_peek(token::R_BRACKET);
    proof {
        lemma_step_trans(s0, s3, p@);
    }
    if !ok {
        let v: Vec<Expression> = Vec::new();
        assert(exprs_view(v@) =~= Seq::<ExprV>::empty());
        return v;
    }
    args
}

fn parse_async_expressoin(p: &mut Parser) -> (r: Expression)
    requires
        old(p)@.inv(),
        old(p)@.cur.typ != token::EOF@,
    ensures
        (expr_view(r), final(p)@) == model::p_async_expression(old(p)@),
        old(p)@.stepped_to(final(p)@),
    decreases old(p)@.mu(), 4nat,
{
    proof {
        token::lemma_eof_is_distinct();
    }
    let ghost s0 = p@;
    let token = p.c_token.copy_token();
    if !p.expect_peek(token::FUNCTION) {
        return Expression::EmptyExpression;
    }
    let ghost s1 = p@;
    let f = parse_function_literal(p);
    proof {
        lemma_step_trans(s0, s1, p@);
    }
    Expression::AsyncExpression(token, Box::new(f))
}

fn parse_as_expression(p: &mut Parser) -> (r: Expression)
    requires
        old(p)@.inv(),
        old(p)@.cur.typ != token::EOF@,
    ensures
        (expr_view(r), final(p)@) == model::p_as_expression(old(p)@),
        old(p)@.stepped_to(final(p)@),
    decreases old(p)@.mu(), 4nat,
{
    proof {
        token::lemma_eof_is_distinct();
    }
    let ghost s0 = p@;
    let token = p.c_token.copy_token();  // as
    if !p.expect_peek(token::IDENT) {
        return ast::empty_expression();
    }
    let ghost s1 = p@;
    let right = parse_expression(p, LOWEST);
    proof {
        lemma_step_trans(s0, s1, p@);
    }
    Expression::AsExpression(token, Box::new(right))
}

fn parse_spread_expression(p: &mut Parser) -> (r: Expression)
    requires
        old(p)@.inv(),
        old(p)@.cur.typ != token::EOF@,
    ensures
        (expr_view(r), final(p)@) == model::p_spread_expression(old(p)@),
        old(p)@.stepped_to(final(p)@),
    decreases old(p)@.mu(), 4nat,
{
    proof {
        token::lemma_eof_is_distinct();
    }
    let ghost s0 = p@;
    let token = p.c_token.copy_token();  // ...
    if !p.expect_peek(token::IDENT) {
        let ghost s1 = p@;
        let mut msg = String::new();
        push_str(&mut msg, "Expected a identifer after the ... got ");
        push_str(&mut msg, p.peek_token.literal.as_str());
        push_str(&mut msg, " instead");
        assert(msg@ =~= "Expected a identifer after the ... got "@ + s1.peek.literal + " instead"@);
        p.add_error(msg.as_str());
        proof {
            lemma_step_trans(s0, s1, p@);
        }
        return ast::empty_expression();
    }
    let ghost s1 = p@;
    let ident = parse_expression(p, LOWEST);
    proof {
        lemma_step_trans(s0, s1, p@);
    }
    Expression::SpreadExpression(token, Box::new(ident))
}

#[verifier::loop_isolation(false)]
fn parse_class_expression(p: &mut Parser) -> (r: Expression)
    requires
        old(p)@.inv(),
        old(p)@.cur.typ != token::EOF@,
    ensures
        (expr_view(r), final(p)@) == model::p_class_expression(old(p)@),
        old(p)@.stepped_to(final(p)@),
    decreases old(p)@.mu(), 4nat,
{
    proof {
        token::lemma_eof_is_distinct();
    }
    let ghost s0 = p@;
    let token = p.c_token.copy_token();
    if !p.expect_peek(token::L_BRACE) {
        return ast::empty_expression();
    }
    let ghost s1 = p@;
    let mut stmts: Vec<Statement> = Vec::new();
    let ghost target = model::class_loop(s1, Seq::empty());
    assert(stmts_view(stmts@) =~= Seq::<StmtV>::empty());
    while !p.peek_token_is_or_eof(token::R_BRACE)
        invariant
            p@.inv(),
            s0.stepped_to(p@),
            p@.mu() < s0.mu(),
            model::class_loop(p@, stmts_view(stmts@)) == target,
        decreases p@.mu(),
    {
        let ghost si = p@;
        p.next_token();
        let ghost sa = p@;
        let stmt = parse_statement(p);
        proof {
            lemma_step_trans(si, sa, p@);
            lemma_step_trans(s0, si, p@);
        }
        let ghost acc = stmts_view(stmts@);
        stmts.push(stmt);
        assert(stmts_view(stmts@) =~= acc.push(stmt_view(stmt)));
    }
    let ghost s2 = p@;
    let ok = p.expect_peek(token::R_BRACE);
    proof {
        lemma_step_trans(s0, s2, p@);
    }
    if !ok {
        return ast::empty_expression();
    }
    proof {
        lemma_class_view(token, stmts);
    }
    let r = Expression::Class(token, stmts);
    r
}


fn parse_infix_expression(p: &mut Parser, left: Expression) -> (r: Expression)
    requires
        old(p)@.inv(),
        old(p)@.cur.typ != token::EOF@,
    ensures
        (expr_view(r), final(p)@) == model::p_infix_expression(old(p)@, expr_view(left)),
        old(p)@.stepped_to(final(p)@),
    decreases old(p)@.mu(), 4nat,
{
    let ghost s0 = p@;
    let token = p.c_token.copy_token();
    let operator = copy_string(&p.c_token.literal);
    let precedence = p.cur_precedence();
    p.next_token();
    let ghost s1 = p@;
    let right = parse_expression(p, precedence);
    proof {
        lemma_step_trans(s0, s1, p@);
    }
    Expression::InfixExpression(token, Box::new(left), operator, Box::new(right))
}

fn parse_call_expression(p: &mut Parser, left: Expression) -> (r: Expression)
    requires
        old(p)@.inv(),
        old(p)@.cur.typ != token::EOF@,
    ensures
        (expr_view(r), final(p)@) == model::p_call_expression(old(p)@, expr_view(left)),
        old(p)@.stepped_to(final(p)@),
    decreases old(p)@.mu(), 4nat,
{
    let token = p.c_token.copy_token();
    let arguments = parse_call_arguments(p);
    proof {
        lemma_call_view(token, left, arguments);
    }
    let r = Expression::CallExpression(token, Box::new(left), Box::new(arguments));
    r
}

#[verifier::loop_isolation(false)]
fn parse_call_arguments(p: &mut Parser) -> (r: Vec<Expression>)
    requires
        old(p)@.inv(),
        old(p)@.cur.typ != token::EOF@,
    ensures
        (exprs_view(r@), final(p)@) == model::p_call_arguments(old(p)@),
        old(p)@.stepped_to(final(p)@),
    decreases old(p)@.mu(), 3nat,
{
    proof {
        token::lemma_eof_is_distinct();
    }
    let ghost s0 = p@;
    let mut args: Vec<Expression> = Vec::new();
    if p.peek_token_is(token::R_PAREN) {
        p.next_token();
        assert(exprs_view(args@) =~= Seq::<ExprV>::empty());
        return args;
    }
    p.next_token();
    let ghost s1 = p@;
    let first = parse_expression(p, LOWEST);
    let ghost s2 = p@;
    proof {
        lemma_step_trans(s0, s1, s2);
    }
    args.push(first);
    let ghost target = model::call_loop(s2, seq![expr_view(first)]);
    assert(exprs_view(args@) =~= seq![expr_view(first)]);
    while p.peek_token_is(token::COMMA)
        invariant
            p@.inv(),
            s0.stepped_to(p@),
            p@.mu() < s0.mu(),
            model::call_loop(p@, exprs_view(args@)) == target,
        decreases p@.mu(),
    {
        let ghost si = p@;
        p.next_token();
        let ghost sa = p@;
        p.next_token();
        let ghost sb = p@;
        proof {
            lemma_step_trans(si, sa, sb);
        }
        let el = parse_expression(p, LOWEST);
        proof {
            lemma_step_trans(si, sb, p@);
            lemma_step_trans(s0, si, p@);
        }
        let ghost acc = exprs_view(args@);
        args.push(el);
        assert(exprs_view(args@) =~= acc.push(expr_view(el)));
    }
    let ghost s3 = p@;
    let ok = p.expect_peek(token::R_PAREN);
    proof {
        lemma_step_trans(s0, s3, p@);
    }
    if !ok {
        let v: Vec<Expression> = Vec::new();
        assert(exprs_view(v@) =~= Seq::<ExprV>::empty());
        return v;
    }
    args
}

fn parse_dot_expression(p: &mut Parser, left: Expression) -> (r: Expression)
    requires
        old(p)@.inv(),
        old(p)@.cur.typ != token::EOF@,
    ensures
        (expr_view(r), final(p)@) == model::p_dot_expression(old(p)@, expr_view(left)),
        old(p)@.stepped_to(final(p)@),
    decreases old(p)@.mu(), 4nat,
{
    proof {
        token::lemma_eof_is_distinct();
    }
    let ghost s0 = p@;
    let token = p.c_token.copy_token();
    if !p.expect_peek(token::IDENT) {
        return ast::empty_expression();
    }
    let ghost s1 = p@;
    let right = parse_expression(p, LOWEST);
    proof {
        lemma_step_trans(s0, s1, p@);
    }
    if right.is_empty() {
        return Expression::EmptyExpression;
    }
    // If right side is a in expression we have to grab it correctly
    let ghost rv = expr_view(right);
    let ghost lv = expr_view(left);
    match right {
        Expression::InExpression(tk, in_left, in_right) => {
            assert(rv == ExprV::InExpression(
                tk@,
                Box::new(expr_view(*in_left)),
                Box::new(expr_view(*in_right)),
            ));
            let dot = Expression::DotExpression(token, Box::new(left), in_left);
            assert(expr_view(dot) == ExprV::DotExpression(
                s0.cur,
                Box::new(lv),
                Box::new(expr_view(*in_left)),
            ));
            return Expression::InExpression(tk, Box::new(dot), in_right);
        },
        _ => {},
    }
    Expression::DotExpression(token, Box::new(left), Box::new(right))
}

/// A `.` followed by `if`: no expression is made of it.
fn parse_dot_if_expression(_p: &mut Parser, _left: Expression) -> (r: Expression)
    ensures
        expr_view(r) == ExprV::EmptyExpression,
{
    Expression::EmptyExpression
}

fn parse_index_expression(p: &mut Parser, left: Expression) -> (r: Expression)
    requires
        old(p)@.inv(),
        old(p)@.cur.typ != token::EOF@,
    ensures
        (expr_view(r), final(p)@) == model::p_index_expression(old(p)@, expr_view(left)),
        old(p)@.stepped_to(final(p)@),
    decreases old(p)@.mu(), 4nat,
{
    let ghost s0 = p@;
    let token = p.c_token.copy_token();
    if p.peek_token_is(token::R_BRACKET) {
        proof {
            lemma_step_refl(s0);
        }
        return Expression::EmptyExpression;
    }
    p.next_token();
    let ghost s1 = p@;
    let index = parse_expression(p, LOWEST);
    let ghost s2 = p@;
    proof {
        lemma_step_trans(s0, s1, s2);
    }
    if index.is_empty() {
        return Expression::EmptyExpression;
    }
    let ok = p.expect_peek(token::R_BRACKET);
    proof {
        lemma_step_trans(s0, s2, p@);
    }
    if !ok {
        return Expression::EmptyExpression;
    }
    Expression::IndexExpression(token, Box::new(left), Box::new(index))
}

fn parse_range_expression(p: &mut Parser, left: Expression) -> (r: Expression)
    requires
        old(p)@.inv(),
        old(p)@.cur.typ != token::EOF@,
    ensures
        (expr_view(r), final(p)@) == model::p_range_expression(old(p)@, expr_view(left)),
        old(p)@.stepped_to(final(p)@),
    decreases old(p)@.mu(), 4nat,
{
    let ghost s0 = p@;
    let token = p.c_token.copy_token();
    let right = if p.peek_token_is(token::R_BRACKET) {
        proof {
            lemma_step_refl(s0);
        }
        ast::empty_expression()
    } else {
        p.next_token();
        let ghost s1 = p@;
        let e = parse_expression(p, LOWEST);
        proof {
            lemma_step_trans(s0, s1, p@);
        }
        e
    };
    Expression::RangeExpression(token, Box::new(left), Box::new(right))
}

fn parse_in_expression(p: &mut Parser, left: Expression) -> (r: Expression)
    requires
        old(p)@.inv(),
        old(p)@.cur.typ != token::EOF@,
    ensures
        (expr_view(r), final(p)@) == model::p_in_expression(old(p)@, expr_view(left)),
        old(p)@.stepped_to(final(p)@),
    decreases old(p)@.mu(), 4nat,
{
    let ghost s0 = p@;
    let token = p.c_token.copy_token();  // in
    p.next_token();
    let ghost s1 = p@;
    let right = parse_expression(p, LOWEST);
    proof {
        lemma_step_trans(s0, s1, p@);
    }
    if right.is_empty() {
        return Expression::EmptyExpression;
    }
    Expression::InExpression(token, Box::new(left), Box::new(right))
}

fn parse_assign_expression(p: &mut Parser, left: Expression) -> (r: Expression)
    requires
        old(p)@.inv(),
        old(p)@.cur.typ != token::EOF@,
    ensures
        (expr_view(r), final(p)@) == model::p_assign_expression(old(p)@, expr_view(left)),
        old(p)@.stepped_to(final(p)@),
    decreases old(p)@.mu(), 4nat,
{
    let ghost s0 = p@;
    let token = p.c_token.copy_token();  // =
    p.next_token();
    let ghost s1 = p@;
    let right = parse_expression(p, LOWEST);
    proof {
        lemma_step_trans(s0, s1, p@);
    }
    Expression::AssignExpression(token, Box::new(left), Box::new(right))
}

fn parse_and_expression(p: &mut Parser, left: Expression) -> (r: Expression)
    requires
        old(p)@.inv(),
        old(p)@.cur.typ != token::EOF@,
    ensures
        (expr_view(r), final(p)@) == model::p_binary(old(p)@, expr_view(left), 0),
        old(p)@.stepped_to(final(p)@),
    decreases old(p)@.mu(), 4nat,
{
    let ghost s0 = p@;
    let token = p.c_token.copy_token();  // &&
    p.next_token();
    let ghost s1 = p@;
    let right = parse_expression(p, LOWEST);
    proof {
        lemma_step_trans(s0, s1, p@);
    }
    Expression::AndExpression(token, Box::new(left), Box::new(right))
}

fn parse_or_expression(p: &mut Parser, left: Expression) -> (r: Expression)
    requires
        old(p)@.inv(),
        old(p)@.cur.typ != token::EOF@,
    ensures
        (expr_view(r), final(p)@) == model::p_binary(old(p)@, expr_view(left), 1),
        old(p)@.stepped_to(final(p)@),
    decreases old(p)@.mu(), 4nat,
{
    let ghost s0 = p@;
    let token = p.c_token.copy_token();  // ||
    p.next_token();
    let ghost s1 = p@;
    let right = parse_expression(p, LOWEST);
    proof {
        lemma_step_trans(s0, s1, p@);
    }
    Expression::OrExpression(token, Box::new(left), Box::new(right))
}

fn parse_double_question_mark_expression(p: &mut Parser, left: Expression) -> (r: Expression)
    requires
        old(p)@.inv(),
        old(p)@.cur.typ != token::EOF@,
    ensures
        (expr_view(r), final(p)@) == model::p_binary(old(p)@, expr_view(left), 2),
        old(p)@.stepped_to(final(p)@),
    decreases old(p)@.mu(), 4nat,
{
    let ghost s0 = p@;
    let token = p.c_token.copy_token();  // ??
    p.next_token();
    let ghost s1 = p@;
    let right = parse_expression(p, LOWEST);
    proof {
        lemma_step_trans(s0, s1, p@);
    }
    Expression::DefaultIfNullExpression(token, Box::new(left), Box::new(right))
}

fn parse_is_expression(p: &mut Parser, left: Expression) -> (r: Expression)
    requires
        old(p)@.inv(),
        old(p)@.cur.typ != token::EOF@,
    ensures
        (expr_view(r), final(p)@) == model::p_binary(old(p)@, expr_view(left), 3),
        old(p)@.stepped_to(final(p)@),
    decreases old(p)@.mu(), 4nat,
{
    let ghost s0 = p@;
    let token = p.c_token.copy_token();  // is
    p.next_token();
    let ghost s1 = p@;
    let right = parse_expression(p, LOWEST);
    proof {
        lemma_step_trans(s0, s1, p@);
    }
    Expression::IsExpression(token, Box::new(left), Box::new(right))
}

impl Parser {
    /// Parse a program
    #[verifier::loop_isolation(false)]
    pub fn parse_program(&mut self) -> (r: Program)
        requires
            old(self)@.inv(),
        ensures
            (stmts_view(r.statements@), final(self)@) == model::program_loop(old(self)@, Seq::empty()),
            old(self)@.stepped_to(final(self)@),
            final(self)@.cur.typ == token::EOF@,
            forall|i: int|
                0 <= i < r.statements@.len() ==> !(#[trigger] r.statements@[i] is EmptyStatement),
    {
        let ghost s0 = self@;
        let mut program = Program { statements: Vec::new() };
        let ghost target = model::program_loop(s0, Seq::empty());
        assert(stmts_view(program.statements@) =~= Seq::<StmtV>::empty());
        proof {
            lemma_step_refl(s0);
        }
        // parse until EOF token
        while !self.cur_token_is(token::EOF)
            invariant
                self@.inv(),
                s0.stepped_to(self@),
                model::program_loop(self@, stmts_view(program.statements@)) == target,
                forall|i: int|
                    0 <= i < program.statements@.len() ==> !(
                    #[trigger] program.statements@[i] is EmptyStatement),
            decreases self@.mu(),
        {
            let ghost si = self@;
            let stmt = parse_statement(self);
            let ghost sa = self@;
            let ghost acc = stmts_view(program.statements@);
            if !stmt.is_empty() {
                // we got one!
                program.statements.push(stmt);
                assert(stmts_view(program.statements@) =~= acc.push(stmt_view(stmt)));
            }
            // go to the next token
            self.next_token();
            proof {
                lemma_step_trans(si, sa, self@);
                lemma_step_trans(s0, si, self@);
            }
        }
        program
    }
}

} // verus!
