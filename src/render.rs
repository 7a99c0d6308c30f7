//! The mapper: from a type tree to target type syntax.
use vstd::prelude::*;
use crate::normalize::{GenericType, TypeTree};

verus! {

/// How a constructor name is rendered.
#[derive(Debug, Clone, Copy, PartialEq, Eq)]
pub enum TypeClass {
    /// Rendered as `string`.
    Text,
    /// Rendered as `number`.
    Number,
    /// Rendered as `boolean`.
    Boolean,
    /// Rendered as the argument followed by `[]`.
    List,
    /// Rendered as the argument, unchanged.
    Wrapper,
    /// Rendered as `null`.
    Unit,
    /// Rendered as the argument followed by ` | null`.
    Optional,
    /// Not in the table.
    Unmapped,
}

/// The table entry of a constructor name.
pub open spec fn class_of(name: Seq<char>) -> TypeClass {
    if name == "List"@ || name == "Vec"@ {
        TypeClass::List
    } else if name == "Unit"@ {
        TypeClass::Unit
    } else if name == "String"@ || name == "str"@ {
        TypeClass::Text
    } else if name == "i16"@ || name == "i32"@ || name == "u16"@ || name == "u32"@
        || name == "f32"@ || name == "f64"@ {
        TypeClass::Number
    } else if name == "bool"@ {
        TypeClass::Boolean
    } else if name == "Box"@ {
        TypeClass::Wrapper
    } else if name == "Option"@ {
        TypeClass::Optional
    } else {
        TypeClass::Unmapped
    }
}

/// What rendering `t` yields: the target syntax, or the first constructor
/// name that the table does not map. A constructor that needs an argument
/// and has none is not mapped.
pub open spec fn rendered(t: TypeTree) -> Result<Seq<char>, Seq<char>>
    decreases t,
{
    match class_of(t.name) {
        TypeClass::Text => Ok("string"@),
        TypeClass::Number => Ok("number"@),
        TypeClass::Boolean => Ok("boolean"@),
        TypeClass::Unit => Ok("null"@),
        TypeClass::Unmapped => Err(t.name),
        TypeClass::List | TypeClass::Wrapper | TypeClass::Optional => match t.argument {
            None => Err(t.name),
            Some(a) => match rendered(*a) {
                Err(e) => Err(e),
                Ok(s) => match class_of(t.name) {
                    TypeClass::List => Ok(s + "[]"@),
                    TypeClass::Optional => Ok(s + " | null"@),
                    _ => Ok(s),
                },
            },
        },
    }
}

/// The view of a mapper result.
pub open spec fn rendered_view(r: Result<String, String>) -> Result<Seq<char>, Seq<char>> {
    match r {
        Ok(s) => Ok(s@),
        Err(e) => Err(e@),
    }
}

fn is_named(name: &String, candidate: &str) -> (r: bool)
    ensures
        r == (name@ == candidate@),
{
    *name == String::from_str(candidate)
}

/// Looks a constructor name up in the table.
pub fn classify(name: &String) -> (c: TypeClass)
    ensures
        c == class_of(name@),
{
    if is_named(name, "List") || is_named(name, "Vec") {
        TypeClass::List
    } else if is_named(name, "Unit") {
        TypeClass::Unit
    } else if is_named(name, "String") || is_named(name, "str") {
        TypeClass::Text
    } else if is_named(name, "i16") || is_named(name, "i32") || is_named(name, "u16")
        || is_named(name, "u32") || is_named(name, "f32") || is_named(name, "f64") {
        TypeClass::Number
    } else if is_named(name, "bool") {
        TypeClass::Boolean
    } else if is_named(name, "Box") {
        TypeClass::Wrapper
    } else if is_named(name, "Option") {
        TypeClass::Optional
    } else {
        TypeClass::Unmapped
    }
}

/// Renders a type tree as target type syntax, or fails with the first
/// constructor name that has no table entry.
pub fn render(ty: &GenericType) -> (r: Result<String, String>)
    ensures
        rendered_view(r) == rendered(ty@),
    decreases ty,
{
    let class = classify(&ty.name);
    match class {
        TypeClass::Text => Ok(String::from_str("string")),
        TypeClass::Number => Ok(String::from_str("number")),
        TypeClass::Boolean => Ok(String::from_str("boolean")),
        TypeClass::Unit => Ok(String::from_str("null")),
        TypeClass::Unmapped => Err(ty.name.clone()),
        TypeClass::List | TypeClass::Wrapper | TypeClass::Optional => match &ty.argument {
            None => Err(ty.name.clone()),
            Some(a) => match render(a) {
                Err(e) => Err(e),
                Ok(mut s) => {
                    match class {
                        TypeClass::List => s.append("[]"),
                        TypeClass::Optional => s.append(" | null"),
                        _ => {},
                    }
                    Ok(s)
                },
            },
        },
    }
}

} // verus!
