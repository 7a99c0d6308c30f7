//! The normalizer: from a raw type expression to a canonical type tree.
use vstd::prelude::*;

verus! {

/// A type expression as it stands in a field declaration.
#[derive(Debug, PartialEq, Eq)]
pub enum RawType {
    /// A reference `&T` or `&mut T`.
    Reference(Box<RawType>),
    /// A named path: its identifier and its generic arguments (empty when it has none).
    Path { ident: String, args: Vec<RawType> },
    /// A slice or array of the inner type.
    Slice(Box<RawType>),
    /// A tuple and its elements.
    Tuple(Vec<RawType>),
    /// Any other construct (function type, trait object, ...), with its source text.
    Unsupported(String),
}

/// The canonical tree of a type: a constructor name and at most one argument.
#[derive(Debug, PartialEq, Eq)]
pub struct GenericType {
    pub name: String,
    pub argument: Option<Box<GenericType>>,
}

/// The mathematical value of a [`GenericType`].
pub struct TypeTree {
    pub name: Seq<char>,
    pub argument: Option<Box<TypeTree>>,
}

impl View for GenericType {
    type V = TypeTree;

    open spec fn view(&self) -> TypeTree
        decreases self,
    {
        TypeTree {
            name: self.name@,
            argument: match self.argument {
                Some(a) => Some(Box::new((*a).view())),
                None => None,
            },
        }
    }
}

/// The constructor name given to slices and arrays.
pub open spec fn list_name() -> Seq<char> {
    "List"@
}

/// The constructor name given to the empty tuple.
pub open spec fn unit_name() -> Seq<char> {
    "Unit"@
}

/// What normalizing `t` yields: the tree, or the text of the first construct
/// that has no normal form.
pub open spec fn normal_form(t: RawType) -> Result<TypeTree, Seq<char>>
    decreases t,
{
    match t {
        RawType::Reference(inner) => normal_form(*inner),
        RawType::Path { ident, args } => {
            if args.len() == 0 {
                Ok(TypeTree { name: ident@, argument: None })
            } else {
                match normal_form(args[0]) {
                    Ok(a) => Ok(TypeTree { name: ident@, argument: Some(Box::new(a)) }),
                    Err(e) => Err(e),
                }
            }
        },
        RawType::Slice(inner) => match normal_form(*inner) {
            Ok(a) => Ok(TypeTree { name: list_name(), argument: Some(Box::new(a)) }),
            Err(e) => Err(e),
        },
        RawType::Tuple(elems) => {
            if elems.len() == 0 {
                Ok(TypeTree { name: unit_name(), argument: None })
            } else {
                normal_form(elems[0])
            }
        },
        RawType::Unsupported(text) => Err(text@),
    }
}

/// The view of a normalizer result.
pub open spec fn normalized_view(r: Result<GenericType, String>) -> Result<TypeTree, Seq<char>> {
    match r {
        Ok(g) => Ok(g@),
        Err(e) => Err(e@),
    }
}

/// Normalizes a type expression. References are transparent, a path keeps
/// only its first generic argument, a slice becomes a `List`, a tuple stands
/// for its first element (the empty tuple for `Unit`). Any other construct
/// fails with its source text.
pub fn normalize(ty: &RawType) -> (r: Result<GenericType, String>)
    ensures
        normalized_view(r) == normal_form(*ty),
    decreases ty,
{
    match ty {
        RawType::Reference(inner) => normalize(inner),
        RawType::Path { ident, args } => {
            if args.len() == 0 {
                Ok(GenericType { name: ident.clone(), argument: None })
            } else {
                match normalize(&args[0]) {
                    Ok(a) => Ok(GenericType { name: ident.clone(), argument: Some(Box::new(a)) }),
                    Err(e) => Err(e),
                }
            }
        },
        RawType::Slice(inner) => match normalize(inner) {
            Ok(a) => Ok(GenericType { name: String::from_str("List"), argument: Some(Box::new(a)) }),
            Err(e) => Err(e),
        },
        RawType::Tuple(elems) => {
            if elems.len() == 0 {
                Ok(GenericType { name: String::from_str("Unit"), argument: None })
            } else {
                normalize(&elems[0])
            }
        },
        RawType::Unsupported(text) => Err(text.clone()),
    }
}

} // verus!
