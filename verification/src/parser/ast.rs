//! The abstract syntax tree of easyjs programs, and its mathematical view.
use vstd::prelude::*;
use crate::lexer::token::{Token, TokenView};

verus! {

/// The two kinds of node.
pub enum NodeType {
    Statement,
    Expression,
}

/// A statement.
#[derive(Debug)]
pub enum Statement {
    /// there was an issue
    EmptyStatement,
    /// name : string = "Jordan" (token, ident, type, value)
    VariableStatement(Token, Box<Expression>, Box<Expression>, Box<Expression>),
    /// name := "Jordan" (token, ident, expected type, value)
    ConstVariableStatement(Token, Box<Expression>, Box<Expression>, Box<Expression>),
    /// return expression
    ReturnStatement(Token, Box<Expression>),
    /// token expression
    ExpressionStatement(Token, Box<Expression>),
    /// { statements }
    BlockStatement(Token, Box<Vec<Statement>>),
    /// for condition { body }
    ForStatement(Token, Box<Expression>, Box<Statement>),
    /// javascript{}
    JavaScriptStatement(Token, String),
    /// pub fn, pub struct, pub var, pub const
    ExportStatement(Token, Box<Statement>),
    /// Async block statement: async { ... }
    AsyncBlockStatement(Token, Box<Statement>),
    /// Match Statement
    MatchStatement(Token, Box<Expression>, Box<Vec<(Expression, Statement)>>),
    /// A break statement
    BreakStatement(Token),
    /// A continue statement
    ContinueStatement(Token),
    /// @annoatation
    AnnotationStatement(Token, String, Box<Statement>),
}

/// An expression.
#[derive(Debug)]
pub enum Expression {
    /// there was an issue
    EmptyExpression,
    /// token value
    Identifier(Token, String),
    /// token operator expression
    PrefixExpression(Token, String, Box<Expression>),
    /// token value(i64)
    IntegerLiteral(Token, i64),
    /// token value(String)
    StringLiteral(Token, String),
    /// token value(String)
    CommentExpression(Token, String),
    /// token left operator right
    InfixExpression(Token, Box<Expression>, String, Box<Expression>),
    /// token <- boolean
    Boolean(Token, bool),
    /// if (condition) { block statement } |elseif (condition) {  }|else {}|
    IfExpression(Token, Box<Expression>, Box<Statement>, Box<Expression>, Box<Statement>),
    /// async expression
    AsyncExpression(Token, Box<Expression>),
    /// await expression
    AwaitExpression(Token, Box<Expression>),
    /// Function expression (token, paramaters, return type, body)
    Function(Token, Box<Vec<Expression>>, Box<Expression>, Statement),
    /// name()params
    CallExpression(Token, Box<Expression>, Box<Vec<Expression>>),
    /// left in right
    InExpression(Token, Box<Expression>, Box<Expression>),
    /// i64(left)..i64(right)
    RangeExpression(Token, Box<Expression>, Box<Expression>),
    /// left.right
    DotExpression(Token, Box<Expression>, Box<Expression>),
    /// []
    ArrayLiteral(Token, Box<Vec<Expression>>),
    /// [i]
    IndexExpression(Token, Box<Expression>, Box<Expression>),
    /// = something else
    AssignExpression(Token, Box<Expression>, Box<Expression>),
    /// not expression
    NotExpression(Token, Box<Expression>),
    /// left as right
    AsExpression(Token, Box<Expression>),
    /// And expression
    AndExpression(Token, Box<Expression>, Box<Expression>),
    /// Or expression
    OrExpression(Token, Box<Expression>, Box<Expression>),
    /// Null Expression ?
    NullExpression(Token),
    /// Default if null exp ??
    DefaultIfNullExpression(Token, Box<Expression>, Box<Expression>),
    /// Float literal 0.0 (its text, as written)
    FloatLiteral(Token, String),
    /// Grouped Expression ()
    GroupedExpression(Token, Box<Expression>),
    /// left is right (typeof(left) == right)
    IsExpression(Token, Box<Expression>, Box<Expression>),
    /// Identifier with type
    IdentifierWithType(Token, String, Box<Expression>),
    /// Type expression
    Type(Token, String),
    /// IIFE: a = fn { return 1 } // a = 1
    IIFE(Token, Box<Statement>),
    /// ...variable
    SpreadExpression(Token, Box<Expression>),
    /// Doc comment '///'
    DocCommentExpression(Token, Vec<String>),
    /// a = class { stmts go here }
    Class(Token, Vec<Statement>),
    /// a = import('module/path')
    Import(Token, Box<Expression>),
}

/// The mathematical view of a statement.
pub enum StmtV {
    EmptyStatement,
    VariableStatement(TokenView, Box<ExprV>, Box<ExprV>, Box<ExprV>),
    ConstVariableStatement(TokenView, Box<ExprV>, Box<ExprV>, Box<ExprV>),
    ReturnStatement(TokenView, Box<ExprV>),
    ExpressionStatement(TokenView, Box<ExprV>),
    BlockStatement(TokenView, Seq<StmtV>),
    ForStatement(TokenView, Box<ExprV>, Box<StmtV>),
    JavaScriptStatement(TokenView, Seq<char>),
    ExportStatement(TokenView, Box<StmtV>),
    AsyncBlockStatement(TokenView, Box<StmtV>),
    MatchStatement(TokenView, Box<ExprV>, Seq<(ExprV, StmtV)>),
    BreakStatement(TokenView),
    ContinueStatement(TokenView),
    AnnotationStatement(TokenView, Seq<char>, Box<StmtV>),
}

/// The mathematical view of an expression.
pub enum ExprV {
    EmptyExpression,
    Identifier(TokenView, Seq<char>),
    PrefixExpression(TokenView, Seq<char>, Box<ExprV>),
    IntegerLiteral(TokenView, i64),
    StringLiteral(TokenView, Seq<char>),
    CommentExpression(TokenView, Seq<char>),
    InfixExpression(TokenView, Box<ExprV>, Seq<char>, Box<ExprV>),
    Boolean(TokenView, bool),
    IfExpression(TokenView, Box<ExprV>, Box<StmtV>, Box<ExprV>, Box<StmtV>),
    AsyncExpression(TokenView, Box<ExprV>),
    AwaitExpression(TokenView, Box<ExprV>),
    Function(TokenView, Seq<ExprV>, Box<ExprV>, Box<StmtV>),
    CallExpression(TokenView, Box<ExprV>, Seq<ExprV>),
    InExpression(TokenView, Box<ExprV>, Box<ExprV>),
    RangeExpression(TokenView, Box<ExprV>, Box<ExprV>),
    DotExpression(TokenView, Box<ExprV>, Box<ExprV>),
    ArrayLiteral(TokenView, Seq<ExprV>),
    IndexExpression(TokenView, Box<ExprV>, Box<ExprV>),
    AssignExpression(TokenView, Box<ExprV>, Box<ExprV>),
    NotExpression(TokenView, Box<ExprV>),
    AsExpression(TokenView, Box<ExprV>),
    AndExpression(TokenView, Box<ExprV>, Box<ExprV>),
    OrExpression(TokenView, Box<ExprV>, Box<ExprV>),
    NullExpression(TokenView),
    DefaultIfNullExpression(TokenView, Box<ExprV>, Box<ExprV>),
    FloatLiteral(TokenView, Seq<char>),
    GroupedExpression(TokenView, Box<ExprV>),
    IsExpression(TokenView, Box<ExprV>, Box<ExprV>),
    IdentifierWithType(TokenView, Seq<char>, Box<ExprV>),
    Type(TokenView, Seq<char>),
    IIFE(TokenView, Box<StmtV>),
    SpreadExpression(TokenView, Box<ExprV>),
    DocCommentExpression(TokenView, Seq<Seq<char>>),
    Class(TokenView, Seq<StmtV>),
    Import(TokenView, Box<ExprV>),
}

/// The view of a statement.
pub open spec fn stmt_view(x: Statement) -> StmtV
    decreases x,
{
    match x {
        Statement::EmptyStatement => StmtV::EmptyStatement,
        Statement::VariableStatement(a0, a1, a2, a3) => StmtV::VariableStatement(a0@, Box::new(expr_view(*a1)), Box::new(expr_view(*a2)), Box::new(expr_view(*a3))),
        Statement::ConstVariableStatement(a0, a1, a2, a3) => StmtV::ConstVariableStatement(a0@, Box::new(expr_view(*a1)), Box::new(expr_view(*a2)), Box::new(expr_view(*a3))),
        Statement::ReturnStatement(a0, a1) => StmtV::ReturnStatement(a0@, Box::new(expr_view(*a1))),
        Statement::ExpressionStatement(a0, a1) => StmtV::ExpressionStatement(a0@, Box::new(expr_view(*a1))),
        Statement::BlockStatement(a0, a1) => StmtV::BlockStatement(a0@, Seq::new(a1@.len(), |i: int| if 0 <= i < a1@.len() { stmt_view(a1@[i]) } else { StmtV::EmptyStatement })),
        Statement::ForStatement(a0, a1, a2) => StmtV::ForStatement(a0@, Box::new(expr_view(*a1)), Box::new(stmt_view(*a2))),
        Statement::JavaScriptStatement(a0, a1) => StmtV::JavaScriptStatement(a0@, a1@),
        Statement::ExportStatement(a0, a1) => StmtV::ExportStatement(a0@, Box::new(stmt_view(*a1))),
        Statement::AsyncBlockStatement(a0, a1) => StmtV::AsyncBlockStatement(a0@, Box::new(stmt_view(*a1))),
        Statement::MatchStatement(a0, a1, a2) => StmtV::MatchStatement(a0@, Box::new(expr_view(*a1)), Seq::new(a2@.len(), |i: int| if 0 <= i < a2@.len() { (expr_view(a2@[i].0), stmt_view(a2@[i].1)) } else { (ExprV::EmptyExpression, StmtV::EmptyStatement) })),
        Statement::BreakStatement(a0) => StmtV::BreakStatement(a0@),
        Statement::ContinueStatement(a0) => StmtV::ContinueStatement(a0@),
        Statement::AnnotationStatement(a0, a1, a2) => StmtV::AnnotationStatement(a0@, a1@, Box::new(stmt_view(*a2))),
    }
}

/// The view of an expression.
pub open spec fn expr_view(x: Expression) -> ExprV
    decreases x,
{
    match x {
        Expression::EmptyExpression => ExprV::EmptyExpression,
        Expression::Identifier(a0, a1) => ExprV::Identifier(a0@, a1@),
        Expression::PrefixExpression(a0, a1, a2) => ExprV::PrefixExpression(a0@, a1@, Box::new(expr_view(*a2))),
        Expression::IntegerLiteral(a0, a1) => ExprV::IntegerLiteral(a0@, a1),
        Expression::StringLiteral(a0, a1) => ExprV::StringLiteral(a0@, a1@),
        Expression::CommentExpression(a0, a1) => ExprV::CommentExpression(a0@, a1@),
        Expression::InfixExpression(a0, a1, a2, a3) => ExprV::InfixExpression(a0@, Box::new(expr_view(*a1)), a2@, Box::new(expr_view(*a3))),
        Expression::Boolean(a0, a1) => ExprV::Boolean(a0@, a1),
        Expression::IfExpression(a0, a1, a2, a3, a4) => ExprV::IfExpression(a0@, Box::new(expr_view(*a1)), Box::new(stmt_view(*a2)), Box::new(expr_view(*a3)), Box::new(stmt_view(*a4))),
        Expression::AsyncExpression(a0, a1) => ExprV::AsyncExpression(a0@, Box::new(expr_view(*a1))),
        Expression::AwaitExpression(a0, a1) => ExprV::AwaitExpression(a0@, Box::new(expr_view(*a1))),
        Expression::Function(a0, a1, a2, a3) => ExprV::Function(a0@, Seq::new(a1@.len(), |i: int| if 0 <= i < a1@.len() { expr_view(a1@[i]) } else { ExprV::EmptyExpression }), Box::new(expr_view(*a2)), Box::new(stmt_view(a3))),
        Expression::CallExpression(a0, a1, a2) => ExprV::CallExpression(a0@, Box::new(expr_view(*a1)), Seq::new(a2@.len(), |i: int| if 0 <= i < a2@.len() { expr_view(a2@[i]) } else { ExprV::EmptyExpression })),
        Expression::InExpression(a0, a1, a2) => ExprV::InExpression(a0@, Box::new(expr_view(*a1)), Box::new(expr_view(*a2))),
        Expression::RangeExpression(a0, a1, a2) => ExprV::RangeExpression(a0@, Box::new(expr_view(*a1)), Box::new(expr_view(*a2))),
        Expression::DotExpression(a0, a1, a2) => ExprV::DotExpression(a0@, Box::new(expr_view(*a1)), Box::new(expr_view(*a2))),
        Expression::ArrayLiteral(a0, a1) => ExprV::ArrayLiteral(a0@, Seq::new(a1@.len(), |i: int| if 0 <= i < a1@.len() { expr_view(a1@[i]) } else { ExprV::EmptyExpression })),
        Expression::IndexExpression(a0, a1, a2) => ExprV::IndexExpression(a0@, Box::new(expr_view(*a1)), Box::new(expr_view(*a2))),
        Expression::AssignExpression(a0, a1, a2) => ExprV::AssignExpression(a0@, Box::new(expr_view(*a1)), Box::new(expr_view(*a2))),
        Expression::NotExpression(a0, a1) => ExprV::NotExpression(a0@, Box::new(expr_view(*a1))),
        Expression::AsExpression(a0, a1) => ExprV::AsExpression(a0@, Box::new(expr_view(*a1))),
        Expression::AndExpression(a0, a1, a2) => ExprV::AndExpression(a0@, Box::new(expr_view(*a1)), Box::new(expr_view(*a2))),
        Expression::OrExpression(a0, a1, a2) => ExprV::OrExpression(a0@, Box::new(expr_view(*a1)), Box::new(expr_view(*a2))),
        Expression::NullExpression(a0) => ExprV::NullExpression(a0@),
        Expression::DefaultIfNullExpression(a0, a1, a2) => ExprV::DefaultIfNullExpression(a0@, Box::new(expr_view(*a1)), Box::new(expr_view(*a2))),
        Expression::FloatLiteral(a0, a1) => ExprV::FloatLiteral(a0@, a1@),
        Expression::GroupedExpression(a0, a1) => ExprV::GroupedExpression(a0@, Box::new(expr_view(*a1))),
        Expression::IsExpression(a0, a1, a2) => ExprV::IsExpression(a0@, Box::new(expr_view(*a1)), Box::new(expr_view(*a2))),
        Expression::IdentifierWithType(a0, a1, a2) => ExprV::IdentifierWithType(a0@, a1@, Box::new(expr_view(*a2))),
        Expression::Type(a0, a1) => ExprV::Type(a0@, a1@),
        Expression::IIFE(a0, a1) => ExprV::IIFE(a0@, Box::new(stmt_view(*a1))),
        Expression::SpreadExpression(a0, a1) => ExprV::SpreadExpression(a0@, Box::new(expr_view(*a1))),
        Expression::DocCommentExpression(a0, a1) => ExprV::DocCommentExpression(a0@, a1@.map_values(|x: String| x@)),
        Expression::Class(a0, a1) => ExprV::Class(a0@, Seq::new(a1@.len(), |i: int| if 0 <= i < a1@.len() { stmt_view(a1@[i]) } else { StmtV::EmptyStatement })),
        Expression::Import(a0, a1) => ExprV::Import(a0@, Box::new(expr_view(*a1))),
    }
}

/// The name of the variant.
pub open spec fn stmt_variant_name(x: StmtV) -> Seq<char> {
    match x {
        StmtV::EmptyStatement => "EmptyStatement"@,
        StmtV::VariableStatement(..) => "VariableStatement"@,
        StmtV::ConstVariableStatement(..) => "ConstVariableStatement"@,
        StmtV::ReturnStatement(..) => "ReturnStatement"@,
        StmtV::ExpressionStatement(..) => "ExpressionStatement"@,
        StmtV::BlockStatement(..) => "BlockStatement"@,
        StmtV::ForStatement(..) => "ForStatement"@,
        StmtV::JavaScriptStatement(..) => "JavaScriptStatement"@,
        StmtV::ExportStatement(..) => "ExportStatement"@,
        StmtV::AsyncBlockStatement(..) => "AsyncBlockStatement"@,
        StmtV::MatchStatement(..) => "MatchStatement"@,
        StmtV::BreakStatement(..) => "BreakStatement"@,
        StmtV::ContinueStatement(..) => "ContinueStatement"@,
        StmtV::AnnotationStatement(..) => "AnnotationStatement"@,
    }
}

/// The name of the variant.
pub open spec fn expr_variant_name(x: ExprV) -> Seq<char> {
    match x {
        ExprV::EmptyExpression => "EmptyExpression"@,
        ExprV::Identifier(..) => "Identifier"@,
        ExprV::PrefixExpression(..) => "PrefixExpression"@,
        ExprV::IntegerLiteral(..) => "IntegerLiteral"@,
        ExprV::StringLiteral(..) => "StringLiteral"@,
        ExprV::CommentExpression(..) => "CommentExpression"@,
        ExprV::InfixExpression(..) => "InfixExpression"@,
        ExprV::Boolean(..) => "Boolean"@,
        ExprV::IfExpression(..) => "IfExpression"@,
        ExprV::AsyncExpression(..) => "AsyncExpression"@,
        ExprV::AwaitExpression(..) => "AwaitExpression"@,
        ExprV::Function(..) => "Function"@,
        ExprV::CallExpression(..) => "CallExpression"@,
        ExprV::InExpression(..) => "InExpression"@,
        ExprV::RangeExpression(..) => "RangeExpression"@,
        ExprV::DotExpression(..) => "DotExpression"@,
        ExprV::ArrayLiteral(..) => "ArrayLiteral"@,
        ExprV::IndexExpression(..) => "IndexExpression"@,
        ExprV::AssignExpression(..) => "AssignExpression"@,
        ExprV::NotExpression(..) => "NotExpression"@,
        ExprV::AsExpression(..) => "AsExpression"@,
        ExprV::AndExpression(..) => "AndExpression"@,
        ExprV::OrExpression(..) => "OrExpression"@,
        ExprV::NullExpression(..) => "NullExpression"@,
        ExprV::DefaultIfNullExpression(..) => "DefaultIfNullExpression"@,
        ExprV::FloatLiteral(..) => "FloatLiteral"@,
        ExprV::GroupedExpression(..) => "GroupedExpression"@,
        ExprV::IsExpression(..) => "IsExpression"@,
        ExprV::IdentifierWithType(..) => "IdentifierWithType"@,
        ExprV::Type(..) => "Type"@,
        ExprV::IIFE(..) => "IIFE"@,
        ExprV::SpreadExpression(..) => "SpreadExpression"@,
        ExprV::DocCommentExpression(..) => "DocCommentExpression"@,
        ExprV::Class(..) => "Class"@,
        ExprV::Import(..) => "Import"@,
    }
}

/// The token of a node (none for the empty one).
pub open spec fn stmt_token(x: StmtV) -> TokenView
    recommends
        !(x is EmptyStatement),
{
    match x {
        StmtV::EmptyStatement => arbitrary(),
        StmtV::VariableStatement(t, ..) => t,
        StmtV::ConstVariableStatement(t, ..) => t,
        StmtV::ReturnStatement(t, ..) => t,
        StmtV::ExpressionStatement(t, ..) => t,
        StmtV::BlockStatement(t, ..) => t,
        StmtV::ForStatement(t, ..) => t,
        StmtV::JavaScriptStatement(t, ..) => t,
        StmtV::ExportStatement(t, ..) => t,
        StmtV::AsyncBlockStatement(t, ..) => t,
        StmtV::MatchStatement(t, ..) => t,
        StmtV::BreakStatement(t, ..) => t,
        StmtV::ContinueStatement(t, ..) => t,
        StmtV::AnnotationStatement(t, ..) => t,
    }
}

/// The token of a node (none for the empty one).
pub open spec fn expr_token(x: ExprV) -> TokenView
    recommends
        !(x is EmptyExpression),
{
    match x {
        ExprV::EmptyExpression => arbitrary(),
        ExprV::Identifier(t, ..) => t,
        ExprV::PrefixExpression(t, ..) => t,
        ExprV::IntegerLiteral(t, ..) => t,
        ExprV::StringLiteral(t, ..) => t,
        ExprV::CommentExpression(t, ..) => t,
        ExprV::InfixExpression(t, ..) => t,
        ExprV::Boolean(t, ..) => t,
        ExprV::IfExpression(t, ..) => t,
        ExprV::AsyncExpression(t, ..) => t,
        ExprV::AwaitExpression(t, ..) => t,
        ExprV::Function(t, ..) => t,
        ExprV::CallExpression(t, ..) => t,
        ExprV::InExpression(t, ..) => t,
        ExprV::RangeExpression(t, ..) => t,
        ExprV::DotExpression(t, ..) => t,
        ExprV::ArrayLiteral(t, ..) => t,
        ExprV::IndexExpression(t, ..) => t,
        ExprV::AssignExpression(t, ..) => t,
        ExprV::NotExpression(t, ..) => t,
        ExprV::AsExpression(t, ..) => t,
        ExprV::AndExpression(t, ..) => t,
        ExprV::OrExpression(t, ..) => t,
        ExprV::NullExpression(t, ..) => t,
        ExprV::DefaultIfNullExpression(t, ..) => t,
        ExprV::FloatLiteral(t, ..) => t,
        ExprV::GroupedExpression(t, ..) => t,
        ExprV::IsExpression(t, ..) => t,
        ExprV::IdentifierWithType(t, ..) => t,
        ExprV::Type(t, ..) => t,
        ExprV::IIFE(t, ..) => t,
        ExprV::SpreadExpression(t, ..) => t,
        ExprV::DocCommentExpression(t, ..) => t,
        ExprV::Class(t, ..) => t,
        ExprV::Import(t, ..) => t,
    }
}

/// Only the empty variants carry the empty variants' names.
pub proof fn lemma_empty_names()
    ensures
        forall|x: StmtV| #[trigger] stmt_variant_name(x) == "EmptyStatement"@ ==> x is EmptyStatement,
        forall|x: ExprV| #[trigger] expr_variant_name(x) == "EmptyExpression"@ ==> x is EmptyExpression,
{
    reveal_strlit("EmptyStatement");
    reveal_strlit("EmptyExpression");
    reveal_strlit("VariableStatement");
    reveal_strlit("ConstVariableStatement");
    reveal_strlit("ReturnStatement");
    reveal_strlit("ExpressionStatement");
    reveal_strlit("BlockStatement");
    reveal_strlit("ForStatement");
    reveal_strlit("JavaScriptStatement");
    reveal_strlit("ExportStatement");
    reveal_strlit("AsyncBlockStatement");
    reveal_strlit("MatchStatement");
    reveal_strlit("BreakStatement");
    reveal_strlit("ContinueStatement");
    reveal_strlit("AnnotationStatement");
    reveal_strlit("Identifier");
    reveal_strlit("PrefixExpression");
    reveal_strlit("IntegerLiteral");
    reveal_strlit("StringLiteral");
    reveal_strlit("CommentExpression");
    reveal_strlit("InfixExpression");
    reveal_strlit("Boolean");
    reveal_strlit("IfExpression");
    reveal_strlit("AsyncExpression");
    reveal_strlit("AwaitExpression");
    reveal_strlit("Function");
    reveal_strlit("CallExpression");
    reveal_strlit("InExpression");
    reveal_strlit("RangeExpression");
    reveal_strlit("DotExpression");
    reveal_strlit("ArrayLiteral");
    reveal_strlit("IndexExpression");
    reveal_strlit("AssignExpression");
    reveal_strlit("NotExpression");
    reveal_strlit("AsExpression");
    reveal_strlit("AndExpression");
    reveal_strlit("OrExpression");
    reveal_strlit("NullExpression");
    reveal_strlit("DefaultIfNullExpression");
    reveal_strlit("FloatLiteral");
    reveal_strlit("GroupedExpression");
    reveal_strlit("IsExpression");
    reveal_strlit("IdentifierWithType");
    reveal_strlit("Type");
    reveal_strlit("IIFE");
    reveal_strlit("SpreadExpression");
    reveal_strlit("DocCommentExpression");
    reveal_strlit("Class");
    reveal_strlit("Import");
    assert forall|x: StmtV| #[trigger] stmt_variant_name(x) == "EmptyStatement"@ implies x is EmptyStatement by {
        match x {
            StmtV::VariableStatement(..) => { assert("VariableStatement"@.len() == 17); }
            StmtV::ConstVariableStatement(..) => { assert("ConstVariableStatement"@.len() == 22); }
            StmtV::ReturnStatement(..) => { assert("ReturnStatement"@.len() == 15); }
            StmtV::ExpressionStatement(..) => { assert("ExpressionStatement"@.len() == 19); }
            StmtV::BlockStatement(..) => { assert("BlockStatement"@[0] != "EmptyStatement"@[0]); }
            StmtV::ForStatement(..) => { assert("ForStatement"@.len() == 12); }
            StmtV::JavaScriptStatement(..) => { assert("JavaScriptStatement"@.len() == 19); }
            StmtV::ExportStatement(..) => { assert("ExportStatement"@.len() == 15); }
            StmtV::AsyncBlockStatement(..) => { assert("AsyncBlockStatement"@.len() == 19); }
            StmtV::MatchStatement(..) => { assert("MatchStatement"@[0] != "EmptyStatement"@[0]); }
            StmtV::BreakStatement(..) => { assert("BreakStatement"@[0] != "EmptyStatement"@[0]); }
            StmtV::ContinueStatement(..) => { assert("ContinueStatement"@.len() == 17); }
            StmtV::AnnotationStatement(..) => { assert("AnnotationStatement"@.len() == 19); }
            _ => {}
        }
    }
    assert forall|x: ExprV| #[trigger] expr_variant_name(x) == "EmptyExpression"@ implies x is EmptyExpression by {
        match x {
            ExprV::Identifier(..) => { assert("Identifier"@.len() == 10); }
            ExprV::PrefixExpression(..) => { assert("PrefixExpression"@.len() == 16); }
            ExprV::IntegerLiteral(..) => { assert("IntegerLiteral"@.len() == 14); }
            ExprV::StringLiteral(..) => { assert("StringLiteral"@.len() == 13); }
            ExprV::CommentExpression(..) => { assert("CommentExpression"@.len() == 17); }
            ExprV::InfixExpression(..) => { assert("InfixExpression"@[0] != "EmptyExpression"@[0]); }
            ExprV::Boolean(..) => { assert("Boolean"@.len() == 7); }
            ExprV::IfExpression(..) => { assert("IfExpression"@.len() == 12); }
            ExprV::AsyncExpression(..) => { assert("AsyncExpression"@[0] != "EmptyExpression"@[0]); }
            ExprV::AwaitExpression(..) => { assert("AwaitExpression"@[0] != "EmptyExpression"@[0]); }
            ExprV::Function(..) => { assert("Function"@.len() == 8); }
            ExprV::CallExpression(..) => { assert("CallExpression"@.len() == 14); }
            ExprV::InExpression(..) => { assert("InExpression"@.len() == 12); }
            ExprV::RangeExpression(..) => { assert("RangeExpression"@[0] != "EmptyExpression"@[0]); }
            ExprV::DotExpression(..) => { assert("DotExpression"@.len() == 13); }
            ExprV::ArrayLiteral(..) => { assert("ArrayLiteral"@.len() == 12); }
            ExprV::IndexExpression(..) => { assert("IndexExpression"@[0] != "EmptyExpression"@[0]); }
            ExprV::AssignExpression(..) => { assert("AssignExpression"@.len() == 16); }
            ExprV::NotExpression(..) => { assert("NotExpression"@.len() == 13); }
            ExprV::AsExpression(..) => { assert("AsExpression"@.len() == 12); }
            ExprV::AndExpression(..) => { assert("AndExpression"@.len() == 13); }
            ExprV::OrExpression(..) => { assert("OrExpression"@.len() == 12); }
            ExprV::NullExpression(..) => { assert("NullExpression"@.len() == 14); }
            ExprV::DefaultIfNullExpression(..) => { assert("DefaultIfNullExpression"@.len() == 23); }
            ExprV::FloatLiteral(..) => { assert("FloatLiteral"@.len() == 12); }
            ExprV::GroupedExpression(..) => { assert("GroupedExpression"@.len() == 17); }
            ExprV::IsExpression(..) => { assert("IsExpression"@.len() == 12); }
            ExprV::IdentifierWithType(..) => { assert("IdentifierWithType"@.len() == 18); }
            ExprV::Type(..) => { assert("Type"@.len() == 4); }
            ExprV::IIFE(..) => { assert("IIFE"@.len() == 4); }
            ExprV::SpreadExpression(..) => { assert("SpreadExpression"@.len() == 16); }
            ExprV::DocCommentExpression(..) => { assert("DocCommentExpression"@.len() == 20); }
            ExprV::Class(..) => { assert("Class"@.len() == 5); }
            ExprV::Import(..) => { assert("Import"@.len() == 6); }
            _ => {}
        }
    }
}

impl Statement {
    /// Get the token of the `Statement`; the empty statement has none.
    pub fn get_token(&self) -> (r: &Token)
        requires
            !(*self is EmptyStatement),
        ensures
            r@ == stmt_token(stmt_view(*self)),
    {
        match self {
            Statement::VariableStatement(token, ..) => token,
            Statement::ConstVariableStatement(token, ..) => token,
            Statement::ReturnStatement(token, ..) => token,
            Statement::ExpressionStatement(token, ..) => token,
            Statement::BlockStatement(token, ..) => token,
            Statement::ForStatement(token, ..) => token,
            Statement::JavaScriptStatement(token, ..) => token,
            Statement::ExportStatement(token, ..) => token,
            Statement::AsyncBlockStatement(token, ..) => token,
            Statement::MatchStatement(token, ..) => token,
            Statement::BreakStatement(token, ..) => token,
            Statement::ContinueStatement(token, ..) => token,
            Statement::AnnotationStatement(token, ..) => token,
            Statement::EmptyStatement => {
                vstd::pervasive::unreached()
            },
        }
    }

    /// The name of the variant.
    pub fn variant_type(&self) -> (r: String)
        ensures
            r@ == stmt_variant_name(stmt_view(*self)),
    {
        let s: &str = match self {
            Statement::EmptyStatement => "EmptyStatement",
            Statement::VariableStatement(..) => "VariableStatement",
            Statement::ConstVariableStatement(..) => "ConstVariableStatement",
            Statement::ReturnStatement(..) => "ReturnStatement",
            Statement::ExpressionStatement(..) => "ExpressionStatement",
            Statement::BlockStatement(..) => "BlockStatement",
            Statement::ForStatement(..) => "ForStatement",
            Statement::JavaScriptStatement(..) => "JavaScriptStatement",
            Statement::ExportStatement(..) => "ExportStatement",
            Statement::AsyncBlockStatement(..) => "AsyncBlockStatement",
            Statement::MatchStatement(..) => "MatchStatement",
            Statement::BreakStatement(..) => "BreakStatement",
            Statement::ContinueStatement(..) => "ContinueStatement",
            Statement::AnnotationStatement(..) => "AnnotationStatement",
        };
        s.to_owned()
    }

    /// Whether the two statements are of the same variant.
    pub fn eq(&self, other: Statement) -> (r: bool)
        ensures
            r == (stmt_variant_name(stmt_view(*self)) == stmt_variant_name(stmt_view(other))),
    {
        let a = self.variant_type();
        let b = other.variant_type();
        a == b
    }

    /// Whether this is the empty statement.
    pub fn is_empty(&self) -> (r: bool)
        ensures
            r == (*self is EmptyStatement),
            r == (stmt_view(*self) is EmptyStatement),
    {
        proof {
            lemma_empty_names();
            reveal_strlit("EmptyStatement");
        }
        self.eq(Statement::EmptyStatement)
    }
}

impl Expression {
    /// Get the token of the `Expression`; the empty expression has none.
    pub fn get_token(&self) -> (r: &Token)
        requires
            !(*self is EmptyExpression),
        ensures
            r@ == expr_token(expr_view(*self)),
    {
        match self {
            Expression::Identifier(token, ..) => token,
            Expression::PrefixExpression(token, ..) => token,
            Expression::IntegerLiteral(token, ..) => token,
            Expression::StringLiteral(token, ..) => token,
            Expression::CommentExpression(token, ..) => token,
            Expression::InfixExpression(token, ..) => token,
            Expression::Boolean(token, ..) => token,
            Expression::IfExpression(token, ..) => token,
            Expression::AsyncExpression(token, ..) => token,
            Expression::AwaitExpression(token, ..) => token,
            Expression::Function(token, ..) => token,
            Expression::CallExpression(token, ..) => token,
            Expression::InExpression(token, ..) => token,
            Expression::RangeExpression(token, ..) => token,
            Expression::DotExpression(token, ..) => token,
            Expression::ArrayLiteral(token, ..) => token,
            Expression::IndexExpression(token, ..) => token,
            Expression::AssignExpression(token, ..) => token,
            Expression::NotExpression(token, ..) => token,
            Expression::AsExpression(token, ..) => token,
            Expression::AndExpression(token, ..) => token,
            Expression::OrExpression(token, ..) => token,
            Expression::NullExpression(token, ..) => token,
            Expression::DefaultIfNullExpression(token, ..) => token,
            Expression::FloatLiteral(token, ..) => token,
            Expression::GroupedExpression(token, ..) => token,
            Expression::IsExpression(token, ..) => token,
            Expression::IdentifierWithType(token, ..) => token,
            Expression::Type(token, ..) => token,
            Expression::IIFE(token, ..) => token,
            Expression::SpreadExpression(token, ..) => token,
            Expression::DocCommentExpression(token, ..) => token,
            Expression::Class(token, ..) => token,
            Expression::Import(token, ..) => token,
            Expression::EmptyExpression => {
                vstd::pervasive::unreached()
            },
        }
    }

    /// Returns a unique identifier for each variant
    pub fn variant_type(&self) -> (r: &'static str)
        ensures
            r@ == expr_variant_name(expr_view(*self)),
    {
        match self {
            Expression::EmptyExpression => "EmptyExpression",
            Expression::Identifier(..) => "Identifier",
            Expression::PrefixExpression(..) => "PrefixExpression",
            Expression::IntegerLiteral(..) => "IntegerLiteral",
            Expression::StringLiteral(..) => "StringLiteral",
            Expression::CommentExpression(..) => "CommentExpression",
            Expression::InfixExpression(..) => "InfixExpression",
            Expression::Boolean(..) => "Boolean",
            Expression::IfExpression(..) => "IfExpression",
            Expression::AsyncExpression(..) => "AsyncExpression",
            Expression::AwaitExpression(..) => "AwaitExpression",
            Expression::Function(..) => "Function",
            Expression::CallExpression(..) => "CallExpression",
            Expression::InExpression(..) => "InExpression",
            Expression::RangeExpression(..) => "RangeExpression",
            Expression::DotExpression(..) => "DotExpression",
            Expression::ArrayLiteral(..) => "ArrayLiteral",
            Expression::IndexExpression(..) => "IndexExpression",
            Expression::AssignExpression(..) => "AssignExpression",
            Expression::NotExpression(..) => "NotExpression",
            Expression::AsExpression(..) => "AsExpression",
            Expression::AndExpression(..) => "AndExpression",
            Expression::OrExpression(..) => "OrExpression",
            Expression::NullExpression(..) => "NullExpression",
            Expression::DefaultIfNullExpression(..) => "DefaultIfNullExpression",
            Expression::FloatLiteral(..) => "FloatLiteral",
            Expression::GroupedExpression(..) => "GroupedExpression",
            Expression::IsExpression(..) => "IsExpression",
            Expression::IdentifierWithType(..) => "IdentifierWithType",
            Expression::Type(..) => "Type",
            Expression::IIFE(..) => "IIFE",
            Expression::SpreadExpression(..) => "SpreadExpression",
            Expression::DocCommentExpression(..) => "DocCommentExpression",
            Expression::Class(..) => "Class",
            Expression::Import(..) => "Import",
        }
    }

    /// Whether the two expressions are of the same variant.
    pub fn eq(&self, other: Expression) -> (r: bool)
        ensures
            r == (expr_variant_name(expr_view(*self)) == expr_variant_name(expr_view(other))),
    {
        crate::text::str_eq(self.variant_type(), other.variant_type())
    }

    /// Whether this is the empty expression.
    pub fn is_empty(&self) -> (r: bool)
        ensures
            r == (*self is EmptyExpression),
            r == (expr_view(*self) is EmptyExpression),
    {
        proof {
            lemma_empty_names();
            reveal_strlit("EmptyExpression");
        }
        self.eq(Expression::EmptyExpression)
    }
}

/// Whether the final statement of `s` exists: a block, and each last statement of a
/// block within it, holds at least one statement.
pub open spec fn has_final_stmt(s: StmtV) -> bool
    decreases s,
{
    match s {
        StmtV::BlockStatement(_, v) => v.len() > 0 && has_final_stmt(v[v.len() - 1]),
        _ => true,
    }
}

/// The final statement of `s`: through a block, the final statement of its last statement;
/// any other statement is its own final statement.
pub open spec fn final_stmt(s: StmtV) -> StmtV
    decreases s,
{
    match s {
        StmtV::BlockStatement(_, v) => if v.len() > 0 {
            final_stmt(v[v.len() - 1])
        } else {
            s
        },
        _ => s,
    }
}

impl Statement {
    /// The final statement: for a block, that of its last statement.
    pub fn get_final_stmt(&self) -> (r: &Statement)
        requires
            has_final_stmt(stmt_view(*self)),
        ensures
            stmt_view(*r) == final_stmt(stmt_view(*self)),
        decreases self,
    {
        match self {
            Statement::BlockStatement(_token, statements) => {
                let n = statements.len();
                assert(stmt_view(statements@[n - 1]) == stmt_view(*self)->BlockStatement_1[n - 1]);
                statements[n - 1].get_final_stmt()
            },
            _ => self,
        }
    }
}

/// A program: its statements, in order.
#[derive(Debug)]
pub struct Program {
    pub statements: Vec<Statement>,
}

/// The empty expression.
pub fn empty_expression() -> (r: Expression)
    ensures
        r is EmptyExpression,
        expr_view(r) == ExprV::EmptyExpression,
{
    Expression::EmptyExpression
}

/// The empty statement.
pub fn empty_statement() -> (r: Statement)
    ensures
        r is EmptyStatement,
        stmt_view(r) == StmtV::EmptyStatement,
{
    Statement::EmptyStatement
}

/// The empty expression, boxed.
pub fn empty_box_exp() -> (r: Box<Expression>)
    ensures
        *r is EmptyExpression,
{
    Box::new(empty_expression())
}

} // verus!
