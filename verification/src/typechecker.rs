//! Types of easyjs values, and their names.
use vstd::prelude::*;
use crate::text::str_eq;
use crate::parser::ast::{Expression, ExprV, expr_view};

verus! {

/// = Native::i32
pub const I32_TYPE_IDX: i32 = 0;
/// = Native::f32
pub const F32_TYPE_IDX: i32 = 1;
/// = Native::String
pub const STRING_TYPE_IDX: i32 = 2;
/// = Native::Array
pub const ARRAY_TYPE_IDX: i32 = 3;

/// A Type Value.
#[derive(Debug, Clone, Copy, PartialEq, Eq, Structural, Hash)]
pub enum EJType {
    /// void
    NoneType,
    /// js: Number, wasm: i32
    Int,
    /// js: Number, wasm: f32
    Float,
    /// js: bool, wasm: i32
    Bool,
    /// Custom schema type. TODO
    Custom,
    /// A type that is not supported (an error is raised for it).
    NotSupported,
    /// js: string, wasm: i32 (pointer to string in memory)
    String,
    /// js: Array, wasm: i32 (pointer to array in memory)
    Array,
    /// js: dynamic, wasm: i32. This is also the default type.
    Dynamic,
}

/// The name of a type; the types without a name give the empty string.
pub open spec fn spec_string_rep_of_type(strong: EJType) -> Seq<char> {
    match strong {
        EJType::Bool => "bool"@,
        EJType::Float => "float"@,
        EJType::String => "string"@,
        EJType::Int => "int"@,
        EJType::Array => "array"@,
        _ => ""@,
    }
}

/// String representation of type
///
/// This is most useful for Native. I don't see a reason to use this in non native?
pub fn get_string_rep_of_type(strong: &EJType) -> (r: String)
    ensures
        r@ == spec_string_rep_of_type(*strong),
{
    let s: &str = match strong {
        EJType::Bool => "bool",
        EJType::Float => "float",
        EJType::String => "string",
        EJType::Int => "int",
        EJType::Array => "array",
        _ => "",
    };
    s.to_owned()
}

/// The type that a name denotes in a native context.
pub open spec fn spec_param_type_by_string(string: Seq<char>) -> EJType {
    if string == "int"@ {
        EJType::Int
    } else if string == "bool"@ {
        EJType::Bool
    } else if string == "float"@ {
        EJType::Float
    } else if string == "string"@ {
        EJType::String
    } else if string == "array"@ {
        EJType::Array
    } else if string == ""@ {
        EJType::NoneType
    } else if string == "none"@ {
        EJType::NoneType
    } else {
        EJType::NotSupported
    }
}

/// Get the param type for native context.
pub fn get_param_type_by_string(string: &str) -> (r: EJType)
    ensures
        r == spec_param_type_by_string(string@),
{
    if str_eq(string, "int") {
        EJType::Int
    } else if str_eq(string, "bool") {
        EJType::Bool
    } else if str_eq(string, "float") {
        EJType::Float
    } else if str_eq(string, "string") {
        EJType::String
    } else if str_eq(string, "array") {
        EJType::Array
    } else if str_eq(string, "") {
        EJType::NoneType
    } else if str_eq(string, "none") {
        EJType::NoneType
    } else {
        EJType::NotSupported
    }
}

/// The type that a name denotes in an easyjs context: `dyn` denotes the dynamic type,
/// other unknown names denote `None`.
pub open spec fn spec_param_type_by_string_ej(string: Seq<char>) -> EJType {
    let result = spec_param_type_by_string(string);
    if string == "dyn"@ {
        EJType::Dynamic
    } else if result == EJType::NotSupported {
        EJType::NoneType
    } else {
        result
    }
}

/// Get the param type for easyjs context.
pub fn get_param_type_by_string_ej(string: &str) -> (r: EJType)
    ensures
        r == spec_param_type_by_string_ej(string@),
        r != EJType::NotSupported,
{
    let result = get_param_type_by_string(string);
    if str_eq(string, "dyn") {
        EJType::Dynamic
    } else if result == EJType::NotSupported {
        EJType::NoneType
    } else {
        result
    }
}

/// The type that a parameter declares: that of a type expression, or of the type that
/// a typed identifier carries.
pub open spec fn spec_param_type_by_named_expression(param: ExprV) -> EJType
    decreases param,
{
    match param {
        ExprV::Type(_, name) => spec_param_type_by_string(name),
        ExprV::IdentifierWithType(_, _, var_type) => spec_param_type_by_named_expression(*var_type),
        _ => EJType::NotSupported,
    }
}

/// Get a param type by named expression
pub fn get_param_type_by_named_expression(param: Expression) -> (r: EJType)
    ensures
        r == spec_param_type_by_named_expression(expr_view(param)),
    decreases param,
{
    match param {
        Expression::Type(_tk, name) => get_param_type_by_string(name.as_str()),
        Expression::IdentifierWithType(_tk, _, var_type) => get_param_type_by_named_expression(
            *var_type,
        ),
        _ => EJType::NotSupported,
    }
}

/// Get the name of a variable from a ident expression
pub fn get_name_from_ident(ident: &Expression) -> (r: Result<String, &'static str>)
    ensures
        match expr_view(*ident) {
            ExprV::Identifier(_, name) => r matches Ok(s) && s@ == name,
            _ => r matches Err(e) && e@ == "Not an identifier"@,
        },
{
    match ident {
        Expression::Identifier(_, name) => Ok(name.as_str().to_owned()),
        _ => Err("Not an identifier"),
    }
}


/// The name of a type names it back: every type that has a name is the type its name
/// denotes, and a type has a name exactly when it is one of `bool`, `float`, `string`,
/// `int` and `array`.
pub proof fn lemma_type_names_round_trip(t: EJType)
    ensures
        spec_string_rep_of_type(t) != ""@ ==> spec_param_type_by_string(spec_string_rep_of_type(t))
            == t,
        spec_string_rep_of_type(t) != ""@ <==> (t == EJType::Bool || t == EJType::Float || t
            == EJType::String || t == EJType::Int || t == EJType::Array),
{
    reveal_strlit("int");
    reveal_strlit("bool");
    reveal_strlit("float");
    reveal_strlit("string");
    reveal_strlit("array");
    reveal_strlit("");
    assert("int"@.len() == 3 && "bool"@.len() == 4 && "float"@.len() == 5);
    assert("string"@.len() == 6 && "array"@.len() == 5 && ""@.len() == 0);
    assert("float"@[0] != "array"@[0]);
}

/// Each name of a type denotes that type, and the type's name is that name again.
pub proof fn lemma_type_names_denote(name: Seq<char>)
    requires
        name == "int"@ || name == "bool"@ || name == "float"@ || name == "string"@ || name
            == "array"@,
    ensures
        spec_string_rep_of_type(spec_param_type_by_string(name)) == name,
{
    reveal_strlit("int");
    reveal_strlit("bool");
    reveal_strlit("float");
    reveal_strlit("string");
    reveal_strlit("array");
    assert("int"@.len() == 3 && "bool"@.len() == 4 && "float"@.len() == 5);
    assert("string"@.len() == 6 && "array"@.len() == 5);
    assert("float"@[0] != "array"@[0]);
}

/// Outside a native context a type name reads as in one, but `dyn` names the dynamic type
/// and a name that denotes no type reads as `None`: every named type is read back from its
/// name, `""` and `none` denote `None` in both contexts, and a name other than these, the
/// type names and `dyn` is not supported natively and is `None` otherwise.
pub proof fn lemma_easyjs_type_names(t: EJType, name: Seq<char>)
    ensures
        spec_string_rep_of_type(t) != ""@ ==> spec_param_type_by_string_ej(
            spec_string_rep_of_type(t),
        ) == t,
        spec_param_type_by_string_ej("dyn"@) == EJType::Dynamic,
        spec_param_type_by_string(""@) == EJType::NoneType,
        spec_param_type_by_string("none"@) == EJType::NoneType,
        spec_param_type_by_string_ej(""@) == EJType::NoneType,
        spec_param_type_by_string_ej("none"@) == EJType::NoneType,
        name != "int"@ && name != "bool"@ && name != "float"@ && name != "string"@ && name
            != "array"@ && name != ""@ && name != "none"@ ==> spec_param_type_by_string(name)
            == EJType::NotSupported,
        name != "int"@ && name != "bool"@ && name != "float"@ && name != "string"@ && name
            != "array"@ && name != ""@ && name != "none"@ && name != "dyn"@
            ==> spec_param_type_by_string_ej(name) == EJType::NoneType,
{
    reveal_strlit("int");
    reveal_strlit("bool");
    reveal_strlit("float");
    reveal_strlit("string");
    reveal_strlit("array");
    reveal_strlit("none");
    reveal_strlit("dyn");
    reveal_strlit("");
    assert("int"@.len() == 3 && "bool"@.len() == 4 && "float"@.len() == 5);
    assert("string"@.len() == 6 && "array"@.len() == 5 && ""@.len() == 0);
    assert("none"@.len() == 4 && "dyn"@.len() == 3);
    assert("float"@[0] != "array"@[0]);
    assert("int"@[0] != "dyn"@[0] && "bool"@[0] != "none"@[0]);
}

} // verus!
