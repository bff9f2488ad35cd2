//! The in-process expression tree and its mathematical view.

use vstd::prelude::*;

use crate::error::Error;
use crate::operator::Operator;

verus! {

/// An evaluable physical expression. Each node owns its children.
#[derive(Debug, PartialEq, Eq)]
pub enum PhysicalExpr {
    /// The column at zero-based position `index` of the row batch, named `name`.
    Column { name: String, index: usize },
    IsNull { arg: Box<PhysicalExpr> },
    IsNotNull { arg: Box<PhysicalExpr> },
    Not { arg: Box<PhysicalExpr> },
    Binary { left: Box<PhysicalExpr>, op: Operator, right: Box<PhysicalExpr> },
    /// A conditional: with a base, the first branch whose `when` equals the base
    /// gives the value; without one, the first whose `when` holds. Branch order
    /// matters.
    Case {
        expr: Option<Box<PhysicalExpr>>,
        when_then_expr: Vec<(PhysicalExpr, PhysicalExpr)>,
        else_expr: Option<Box<PhysicalExpr>>,
    },
    /// An expression kind of the engine that has no wire form; `name` renders it.
    Other { name: String },
}

/// The mathematical value of a [`PhysicalExpr`].
pub enum ExprModel {
    Column { name: Seq<char>, index: nat },
    IsNull { arg: Box<ExprModel> },
    IsNotNull { arg: Box<ExprModel> },
    Not { arg: Box<ExprModel> },
    Binary { left: Box<ExprModel>, op: Operator, right: Box<ExprModel> },
    Case {
        base: Option<Box<ExprModel>>,
        branches: Seq<(ExprModel, ExprModel)>,
        otherwise: Option<Box<ExprModel>>,
    },
    Other { name: Seq<char> },
}

/// The view of an optional boxed child.
pub open spec fn opt_expr_model(c: Option<Box<PhysicalExpr>>) -> Option<Box<ExprModel>>
    decreases c,
{
    match c {
        Some(e) => Some(Box::new(expr_model(*e))),
        None => None,
    }
}

/// The view of a tree.
pub open spec fn expr_model(e: PhysicalExpr) -> ExprModel
    decreases e,
{
    match e {
        PhysicalExpr::Column { name, index } => ExprModel::Column { name: name@, index: index as nat },
        PhysicalExpr::IsNull { arg } => ExprModel::IsNull { arg: Box::new(expr_model(*arg)) },
        PhysicalExpr::IsNotNull { arg } => ExprModel::IsNotNull { arg: Box::new(expr_model(*arg)) },
        PhysicalExpr::Not { arg } => ExprModel::Not { arg: Box::new(expr_model(*arg)) },
        PhysicalExpr::Binary { left, op, right } => ExprModel::Binary {
            left: Box::new(expr_model(*left)),
            op,
            right: Box::new(expr_model(*right)),
        },
        PhysicalExpr::Case { expr, when_then_expr, else_expr } => ExprModel::Case {
            base: opt_expr_model(expr),
            branches: pairs_model(when_then_expr@),
            otherwise: opt_expr_model(else_expr),
        },
        PhysicalExpr::Other { name } => ExprModel::Other { name: name@ },
    }
}

/// The view of a sequence of branches, in order.
pub open spec fn pairs_model(s: Seq<(PhysicalExpr, PhysicalExpr)>) -> Seq<(ExprModel, ExprModel)>
    decreases s,
{
    if s.len() == 0 {
        Seq::empty()
    } else {
        let last = s[s.len() - 1];
        pairs_model(s.subrange(0, s.len() - 1)).push((expr_model(last.0), expr_model(last.1)))
    }
}

impl View for PhysicalExpr {
    type V = ExprModel;

    open spec fn view(&self) -> ExprModel {
        expr_model(*self)
    }
}

/// Branches whose trees are all supported.
pub open spec fn supported_branches(s: Seq<(ExprModel, ExprModel)>) -> bool
    decreases s,
{
    if s.len() == 0 {
        true
    } else {
        let last = s[s.len() - 1];
        &&& supported_branches(s.subrange(0, s.len() - 1))
        &&& supported(last.0)
        &&& supported(last.1)
    }
}

/// An optional child that is absent or supported.
pub open spec fn supported_opt(c: Option<Box<ExprModel>>) -> bool
    decreases c,
{
    match c {
        Some(e) => supported(*e),
        None => true,
    }
}

/// A tree that the wire can carry and that a decode can build again: no node
/// without a wire form, at least one branch in each conditional, and each
/// column position within the machine's range.
pub open spec fn supported(m: ExprModel) -> bool
    decreases m,
{
    match m {
        ExprModel::Column { index, .. } => index <= usize::MAX,
        ExprModel::IsNull { arg } => supported(*arg),
        ExprModel::IsNotNull { arg } => supported(*arg),
        ExprModel::Not { arg } => supported(*arg),
        ExprModel::Binary { left, right, .. } => supported(*left) && supported(*right),
        ExprModel::Case { base, branches, otherwise } => {
            &&& supported_opt(base)
            &&& branches.len() > 0
            &&& supported_branches(branches)
            &&& supported_opt(otherwise)
        },
        ExprModel::Other { .. } => false,
    }
}

/// The reason that a conditional without branches is refused.
pub open spec fn no_branch_reason() -> Seq<char> {
    "There must be at least one WHEN clause"@
}

impl PhysicalExpr {
    /// Builds a conditional; one without branches is a `VariantConstruction`
    /// error.
    pub fn try_new_case(
        expr: Option<Box<PhysicalExpr>>,
        when_then_expr: Vec<(PhysicalExpr, PhysicalExpr)>,
        else_expr: Option<Box<PhysicalExpr>>,
    ) -> (r: Result<PhysicalExpr, Error>)
        ensures
            when_then_expr.len() == 0 ==> (r matches Err(Error::VariantConstruction { reason })
                && reason@ == no_branch_reason()),
            when_then_expr.len() > 0 ==> r == Ok::<PhysicalExpr, Error>(
                PhysicalExpr::Case { expr, when_then_expr, else_expr },
            ),
    {
        if when_then_expr.len() == 0 {
            Err(Error::VariantConstruction { reason: "There must be at least one WHEN clause".to_owned() })
        } else {
            Ok(PhysicalExpr::Case { expr, when_then_expr, else_expr })
        }
    }
}

} // verus!
