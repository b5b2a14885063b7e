//! Error messages of the compiler, each tied to the token where it arose.
use vstd::prelude::*;
use crate::lexer::token::{Token, TokenView};
use crate::text::{decimal, i32_to_string, push_str, concat};

verus! {

/// The text of an error at `token`.
pub open spec fn spec_make_error(token: TokenView, error_msg: Seq<char>) -> Seq<char> {
    "File: "@ + token.file_name + " at line: "@ + decimal(token.line_number) + " and col: "@
        + decimal(token.col_number) + ". ERROR "@ + error_msg + ". Token details: type: "@
        + token.typ + ", literal: "@ + token.literal
}

/// The text of an error of the native compiler at `token`.
pub open spec fn spec_native_error(token: TokenView, error_msg: Seq<char>) -> Seq<char> {
    spec_make_error(token, "Native: "@ + error_msg)
}

fn make_error(token: &Token, error_msg: &str) -> (r: String)
    ensures
        r@ == spec_make_error(token@, error_msg@),
{
    let mut s = String::new();
    push_str(&mut s, "File: ");
    push_str(&mut s, token.file_name.as_str());
    push_str(&mut s, " at line: ");
    let line = i32_to_string(token.line_number);
    push_str(&mut s, line.as_str());
    push_str(&mut s, " and col: ");
    let col = i32_to_string(token.col_number);
    push_str(&mut s, col.as_str());
    push_str(&mut s, ". ERROR ");
    push_str(&mut s, error_msg);
    push_str(&mut s, ". Token details: type: ");
    push_str(&mut s, token.typ.as_str());
    push_str(&mut s, ", literal: ");
    push_str(&mut s, token.literal.as_str());
    assert(s@ =~= spec_make_error(token@, error_msg@));
    s
}

/// The error of the native compiler: `Native: {error_msg}` at `token`.
pub fn make_native_error(token: &Token, error_msg: &str) -> (r: String)
    ensures
        r@ == spec_native_error(token@, error_msg@),
{
    let msg = concat("Native: ", error_msg);
    make_error(token, msg.as_str())
}

/// Native ERROR: the raw expression can not be compiled.
pub fn native_can_not_compile_raw_expression(token: &Token) -> (r: String)
    ensures
        r@ == spec_native_error(token@, "Can not compile raw expression."@),
{
    make_native_error(token, "Can not compile raw expression.")
}

/// Native ERROR: no value can be taken from the expression.
pub fn native_can_not_get_value_from_expression(token: &Token) -> (r: String)
    ensures
        r@ == spec_native_error(token@, "Can not get value from expression."@),
{
    make_native_error(token, "Can not get value from expression.")
}

/// Native ERROR: Could not parse function {function_name}
pub fn native_could_not_parse_function(token: &Token, function_name: &str) -> (r: String)
    ensures
        r@ == spec_native_error(token@, "Could not parse function "@ + function_name@),
{
    let msg = concat("Could not parse function ", function_name);
    make_native_error(token, msg.as_str())
}

/// Native ERROR: Unsupported Operator: {operator}
pub fn native_unsupported_operator(token: &Token, operator: &str) -> (r: String)
    ensures
        r@ == spec_native_error(token@, "Unsupported operator: "@ + operator@),
{
    let msg = concat("Unsupported operator: ", operator);
    make_native_error(token, msg.as_str())
}

/// Native ERROR: Error compiling identifier: {ident}
pub fn native_error_compiling_identifier(token: &Token, identifier: &str) -> (r: String)
    ensures
        r@ == spec_native_error(token@, "Error compiling identifier: "@ + identifier@),
{
    let msg = concat("Error compiling identifier: ", identifier);
    make_native_error(token, msg.as_str())
}

/// Native ERROR: Unsupported expression as value for global variable
pub fn native_unsupported_expression_as_value_for_global_variable(token: &Token) -> (r: String)
    ensures
        r@ == spec_native_error(token@, "Unsupported expression as value for global variable"@),
{
    make_native_error(token, "Unsupported expression as value for global variable")
}

/// Native ERROR: Unsupported statement
pub fn native_unsupported_statement(token: &Token) -> (r: String)
    ensures
        r@ == spec_native_error(token@, "Unsupported statement"@),
{
    make_native_error(token, "Unsupported statement")
}

/// ERROR Native: Unsupported builtin call
pub fn native_unsupported_builtin_call(token: &Token) -> (r: String)
    ensures
        r@ == spec_native_error(token@, "Unsupported builtin call:"@),
{
    make_native_error(token, "Unsupported builtin call:")
}

/// ERROR Native: if expressions must go within functions.
pub fn native_if_expression_must_go_within_functions(token: &Token) -> (r: String)
    ensures
        r@ == spec_native_error(token@, "If expression must go within a function"@),
{
    make_native_error(token, "If expression must go within a function")
}

/// ERROR Native: No function provided for variable scope.
pub fn native_no_function_provided_for_variable_scope(token: &Token) -> (r: String)
    ensures
        r@ == spec_native_error(token@, "No function provided for variable scope"@),
{
    make_native_error(token, "No function provided for variable scope")
}

/// ERROR Native: return value does not match function return type
pub fn native_return_value_does_not_match_function(token: &Token) -> (r: String)
    ensures
        r@ == spec_native_error(token@, "return value does not match function return type"@),
{
    make_native_error(token, "return value does not match function return type")
}

/// Native ERROR: Unsupported operation: {left} {operation} {right}
pub fn native_unsupported_operation(token: &Token, left: &str, operation: &str, right: &str) -> (r: String)
    ensures
        r@ == spec_native_error(token@, "Unsupported operation: "@ + left@ + " "@ + operation@ + " "@ + right@),
{
    let mut msg = concat("Unsupported operation: ", left);
    push_str(&mut msg, " ");
    push_str(&mut msg, operation);
    push_str(&mut msg, " ");
    push_str(&mut msg, right);
    assert(msg@ =~= "Unsupported operation: "@ + left@ + " "@ + operation@ + " "@ + right@);
    make_native_error(token, msg.as_str())
}

/// Native ERROR: Unsupported index expression for the token's type and literal.
pub fn native_unsupported_index_expression(token: &Token) -> (r: String)
    ensures
        r@ == spec_native_error(token@, "Unsupported index expression for: "@ + token@.typ + " "@ + token@.literal),
{
    let mut msg = concat("Unsupported index expression for: ", token.typ.as_str());
    push_str(&mut msg, " ");
    push_str(&mut msg, token.literal.as_str());
    assert(msg@ =~= "Unsupported index expression for: "@ + token@.typ + " "@ + token@.literal);
    make_native_error(token, msg.as_str())
}

/// ERROR Native: Unsupported prefix {prefix}.
pub fn native_unsupported_prefix_expression(token: &Token, prefix: &str) -> (r: String)
    ensures
        r@ == spec_native_error(token@, "Unsupported prefix "@ + prefix@),
{
    let msg = concat("Unsupported prefix ", prefix);
    make_native_error(token, msg.as_str())
}

} // verus!
