//! Errors of the codec.

use vstd::prelude::*;

verus! {

/// Why a decode or an encode failed. Each call stops at the first failure.
#[derive(Clone, Debug, PartialEq, Eq)]
pub enum Error {
    /// A wire node has no variant set; `name` renders the node.
    EmptyExpression { name: String },
    /// A required child of a wire node is absent; `field` names it.
    MissingField { field: String },
    /// A binary operator token is outside the vocabulary.
    UnsupportedOperator { op: String },
    /// A tree node has no wire form; `name` renders the node.
    UnsupportedExpression { name: String },
    /// The decoded parts break an invariant of the tree node they make up.
    VariantConstruction { reason: String },
}

/// The mathematical value of an [`Error`].
pub enum ErrorView {
    EmptyExpression { name: Seq<char> },
    MissingField { field: Seq<char> },
    UnsupportedOperator { op: Seq<char> },
    UnsupportedExpression { name: Seq<char> },
    VariantConstruction { reason: Seq<char> },
}

impl View for Error {
    type V = ErrorView;

    open spec fn view(&self) -> ErrorView {
        match self {
            Error::EmptyExpression { name } => ErrorView::EmptyExpression { name: name@ },
            Error::MissingField { field } => ErrorView::MissingField { field: field@ },
            Error::UnsupportedOperator { op } => ErrorView::UnsupportedOperator { op: op@ },
            Error::UnsupportedExpression { name } => ErrorView::UnsupportedExpression {
                name: name@,
            },
            Error::VariantConstruction { reason } => ErrorView::VariantConstruction {
                reason: reason@,
            },
        }
    }
}

} // verus!
