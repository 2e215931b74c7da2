//! A plain model of type expressions and the two wrapper queries on it.
use vstd::prelude::*;

verus! {

/// One generic argument inside angle brackets.
#[derive(Debug, PartialEq)]
pub enum GenericArg {
    /// A type argument.
    Type(TypeExpr),
    /// A lifetime, a constant or a binding.
    Other,
}

/// The arguments attached to one path segment.
#[derive(Debug, PartialEq)]
pub enum PathArgs {
    /// No arguments: `Foo`.
    Plain,
    /// Angle-bracketed arguments: `Foo<A, B>`.
    Angle(Vec<GenericArg>),
    /// Parenthesized arguments: `Fn(A) -> B`.
    Paren,
}

/// One segment of a path type.
#[derive(Debug, PartialEq)]
pub struct PathSegment {
    pub name: String,
    pub args: PathArgs,
}

/// A type expression, reduced to what the wrapper queries read.
#[derive(Debug, PartialEq)]
pub enum TypeExpr {
    /// A named path type with its segments.
    Path(Vec<PathSegment>),
    /// Any other shape: references, tuples, arrays, slices and so on.
    Other,
}

/// The characters of the optional-wrapper's name.
pub open spec fn option_name() -> Seq<char> {
    seq!['O', 'p', 't', 'i', 'o', 'n']
}

/// The sole type argument of a single-segment path type with exactly one
/// angle-bracketed argument, whatever the segment's name.
pub open spec fn single_arg(ty: TypeExpr) -> Option<TypeExpr> {
    match ty {
        TypeExpr::Path(segs) => {
            if segs@.len() == 1 {
                match segs@[0].args {
                    PathArgs::Angle(args) => {
                        if args@.len() == 1 {
                            match args@[0] {
                                GenericArg::Type(t) => Some(t),
                                GenericArg::Other => None,
                            }
                        } else {
                            None
                        }
                    },
                    _ => None,
                }
            } else {
                None
            }
        },
        TypeExpr::Other => None,
    }
}

/// Whether the path type has a single segment whose name is the optional wrapper's.
pub open spec fn named_option(ty: TypeExpr) -> bool {
    match ty {
        TypeExpr::Path(segs) => segs@.len() == 1 && segs@[0].name@ == option_name(),
        TypeExpr::Other => false,
    }
}

/// The inner type of `Option<T>`.
pub open spec fn option_inner(ty: TypeExpr) -> Option<TypeExpr> {
    if named_option(ty) {
        single_arg(ty)
    } else {
        None
    }
}

/// The element type of a single-argument wrapper, with no check on its name.
pub open spec fn sequence_inner(ty: TypeExpr) -> Option<TypeExpr> {
    single_arg(ty)
}

fn first_arg(ty: &TypeExpr) -> (r: Option<&TypeExpr>)
    ensures
        r matches Some(t) ==> single_arg(*ty) == Some(*t),
        r is None ==> single_arg(*ty) is None,
{
    match ty {
        TypeExpr::Path(segs) => {
            if segs.len() != 1 {
                return None;
            }
            match &segs[0].args {
                PathArgs::Angle(args) => {
                    if args.len() != 1 {
                        return None;
                    }
                    match &args[0] {
                        GenericArg::Type(t) => Some(t),
                        GenericArg::Other => None,
                    }
                },
                _ => None,
            }
        },
        TypeExpr::Other => None,
    }
}

/// Returns the inner type when `ty` is `Option<T>`.
pub fn option_type(ty: &TypeExpr) -> (r: Option<&TypeExpr>)
    ensures
        r matches Some(t) ==> option_inner(*ty) == Some(*t),
        r is None ==> option_inner(*ty) is None,
{
    match ty {
        TypeExpr::Path(segs) => {
            if segs.len() != 1 {
                return None;
            }
            let expected = String::from_str("Option");
            proof {
                reveal_strlit("Option");
                assert(expected@ =~= option_name());
            }
            if segs[0].name != expected {
                return None;
            }
            first_arg(ty)
        },
        TypeExpr::Other => None,
    }
}

/// Returns the element type when `ty` is any single-argument wrapper `W<T>`.
pub fn vec_type(ty: &TypeExpr) -> (r: Option<&TypeExpr>)
    ensures
        r matches Some(t) ==> sequence_inner(*ty) == Some(*t),
        r is None ==> sequence_inner(*ty) is None,
{
    first_arg(ty)
}

/// The type that remains once one optional wrapper is removed, if there is one.
pub open spec fn unwrap_option(ty: TypeExpr) -> TypeExpr {
    match option_inner(ty) {
        Some(t) => t,
        None => ty,
    }
}

/// Takes `ty` apart when it is `Option<T>` and hands back `T`; otherwise
/// hands back `ty` itself.
pub fn strip_option(ty: TypeExpr) -> (r: TypeExpr)
    ensures
        r == unwrap_option(ty),
{
    if option_type(&ty).is_none() {
        return ty;
    }
    match ty {
        TypeExpr::Path(mut segs) => {
            let seg = segs.pop().unwrap();
            match seg.args {
                PathArgs::Angle(mut args) => {
                    let arg = args.pop().unwrap();
                    match arg {
                        GenericArg::Type(t) => t,
                        GenericArg::Other => TypeExpr::Other,
                    }
                },
                _ => TypeExpr::Other,
            }
        },
        TypeExpr::Other => TypeExpr::Other,
    }
}

} // verus!
