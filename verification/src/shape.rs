//! The shape classifier: whether a declared type is a wrapper around one
//! inner type, told by the wrapper's name alone. No alias is resolved and
//! nothing beyond the outermost wrapper is interpreted.
use vstd::prelude::*;
use crate::schema::{TypeExpr, TypeExprView};
use crate::text::{option_view, same_text};

verus! {

/// The name of the wrapper of a field that may be left out.
pub const OPTIONAL: &'static str = "Optional";

/// The name of the wrapper of a field that holds a sequence of elements.
pub const SEQUENCE: &'static str = "Sequence";

/// The name of the wrapper of a field that only marks a generic parameter.
pub const PHANTOM: &'static str = "PhantomData";

/// The wrapper of a field that may be left out.
pub open spec fn optional_wrapper() -> Seq<char> {
    OPTIONAL@
}

/// The wrapper of a field that holds a sequence of elements.
pub open spec fn sequence_wrapper() -> Seq<char> {
    SEQUENCE@
}

/// The wrapper of a field that only marks a generic parameter.
pub open spec fn phantom_wrapper() -> Seq<char> {
    PHANTOM@
}

/// The inner type of `ty` if `ty` is `wrapper` applied to one type.
pub open spec fn inner_of(ty: TypeExprView, wrapper: Seq<char>) -> Option<TypeExprView> {
    match ty {
        TypeExprView::Applied(outer, inner) => if outer == wrapper {
            Some(*inner)
        } else {
            None
        },
        TypeExprView::Named(_) => None,
    }
}

/// The inner type of `ty` if its outer identifier is textually
/// `expected_ident`, and nothing otherwise.
pub fn extract_inner_type<'t>(ty: &'t TypeExpr, expected_ident: &str) -> (r: Option<&'t TypeExpr>)
    ensures
        option_view(r) == inner_of(ty@, expected_ident@),
{
    match ty {
        TypeExpr::Applied(outer, inner) => {
            if same_text(outer.as_str(), expected_ident) {
                Some(&**inner)
            } else {
                None
            }
        },
        TypeExpr::Named(_) => None,
    }
}

/// The shape of a declared type, with the type that the shape is about.
#[derive(Debug, PartialEq, Eq)]
pub enum ShapeClass {
    Plain(TypeExpr),
    OptionalOf(TypeExpr),
    SequenceOf(TypeExpr),
}

/// The mathematical model of a [`ShapeClass`].
pub enum ShapeView {
    Plain(TypeExprView),
    OptionalOf(TypeExprView),
    SequenceOf(TypeExprView),
}

impl View for ShapeClass {
    type V = ShapeView;

    open spec fn view(&self) -> ShapeView {
        match self {
            ShapeClass::Plain(ty) => ShapeView::Plain(ty@),
            ShapeClass::OptionalOf(inner) => ShapeView::OptionalOf(inner@),
            ShapeClass::SequenceOf(inner) => ShapeView::SequenceOf(inner@),
        }
    }
}

/// The shape of a declared type: optional or sequence with the inner type,
/// or plain with the type itself.
pub open spec fn shape_of(ty: TypeExprView) -> ShapeView {
    if let Some(inner) = inner_of(ty, optional_wrapper()) {
        ShapeView::OptionalOf(inner)
    } else if let Some(inner) = inner_of(ty, sequence_wrapper()) {
        ShapeView::SequenceOf(inner)
    } else {
        ShapeView::Plain(ty)
    }
}

/// Classifies a declared type by its outermost wrapper.
pub fn classify(ty: &TypeExpr) -> (r: ShapeClass)
    ensures
        r@ == shape_of(ty@),
{
    if let Some(inner) = extract_inner_type(ty, OPTIONAL) {
        ShapeClass::OptionalOf(inner.clone())
    } else if let Some(inner) = extract_inner_type(ty, SEQUENCE) {
        ShapeClass::SequenceOf(inner.clone())
    } else {
        ShapeClass::Plain(ty.clone())
    }
}

} // verus!
