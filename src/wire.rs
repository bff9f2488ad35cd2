//! The wire message: a tagged union of expression nodes, as shipped between
//! query nodes, and its mathematical view.

use vstd::prelude::*;

verus! {

/// One wire node; `expr_type` is `None` where no variant is set.
#[derive(Debug, PartialEq, Eq)]
pub struct PhysicalExprNode {
    pub expr_type: Option<ExprType>,
}

/// The variants of a wire node.
#[derive(Debug, PartialEq, Eq)]
pub enum ExprType {
    Column(PhysicalColumn),
    IsNullExpr(Box<PhysicalIsNull>),
    IsNotNullExpr(Box<PhysicalIsNotNull>),
    NotExpr(Box<PhysicalNot>),
    BinaryExpr(Box<PhysicalBinaryExprNode>),
    Case(Box<PhysicalCaseNode>),
}

#[derive(Debug, PartialEq, Eq)]
pub struct PhysicalColumn {
    pub name: String,
    pub index: u64,
}

#[derive(Debug, PartialEq, Eq)]
pub struct PhysicalIsNull {
    pub expr: Option<Box<PhysicalExprNode>>,
}

#[derive(Debug, PartialEq, Eq)]
pub struct PhysicalIsNotNull {
    pub expr: Option<Box<PhysicalExprNode>>,
}

#[derive(Debug, PartialEq, Eq)]
pub struct PhysicalNot {
    pub expr: Option<Box<PhysicalExprNode>>,
}

#[derive(Debug, PartialEq, Eq)]
pub struct PhysicalBinaryExprNode {
    pub l: Option<Box<PhysicalExprNode>>,
    pub r: Option<Box<PhysicalExprNode>>,
    pub op: String,
}

/// One branch of a conditional: when `when_expr` holds, the value is `then_expr`.
#[derive(Debug, PartialEq, Eq)]
pub struct PhysicalWhenThen {
    pub when_expr: Option<PhysicalExprNode>,
    pub then_expr: Option<PhysicalExprNode>,
}

/// A conditional: an optional base, its branches in order, an optional else.
#[derive(Debug, PartialEq, Eq)]
pub struct PhysicalCaseNode {
    pub expr: Option<Box<PhysicalExprNode>>,
    pub when_then_expr: Vec<PhysicalWhenThen>,
    pub else_expr: Option<Box<PhysicalExprNode>>,
}

/// The mathematical value of a wire node.
pub enum WireModel {
    Empty,
    Column { name: Seq<char>, index: nat },
    IsNull { arg: Option<Box<WireModel>> },
    IsNotNull { arg: Option<Box<WireModel>> },
    Not { arg: Option<Box<WireModel>> },
    Binary { left: Option<Box<WireModel>>, right: Option<Box<WireModel>>, op: Seq<char> },
    Case {
        base: Option<Box<WireModel>>,
        branches: Seq<(Option<WireModel>, Option<WireModel>)>,
        otherwise: Option<Box<WireModel>>,
    },
}

/// The view of an optional boxed child.
pub open spec fn child_model(c: Option<Box<PhysicalExprNode>>) -> Option<Box<WireModel>>
    decreases c,
{
    match c {
        Some(n) => Some(Box::new(wire_model(*n))),
        None => None,
    }
}

/// The view of an optional child held by value.
pub open spec fn opt_model(c: Option<PhysicalExprNode>) -> Option<WireModel>
    decreases c,
{
    match c {
        Some(n) => Some(wire_model(n)),
        None => None,
    }
}

/// The view of a wire node.
pub open spec fn wire_model(n: PhysicalExprNode) -> WireModel
    decreases n,
{
    match n.expr_type {
        None => WireModel::Empty,
        Some(t) => match t {
            ExprType::Column(c) => WireModel::Column { name: c.name@, index: c.index as nat },
            ExprType::IsNullExpr(e) => WireModel::IsNull { arg: child_model(e.expr) },
            ExprType::IsNotNullExpr(e) => WireModel::IsNotNull { arg: child_model(e.expr) },
            ExprType::NotExpr(e) => WireModel::Not { arg: child_model(e.expr) },
            ExprType::BinaryExpr(e) => WireModel::Binary {
                left: child_model(e.l),
                right: child_model(e.r),
                op: e.op@,
            },
            ExprType::Case(e) => WireModel::Case {
                base: child_model(e.expr),
                branches: when_thens_model(e.when_then_expr@),
                otherwise: child_model(e.else_expr),
            },
        },
    }
}

/// The view of a sequence of branches, in order.
pub open spec fn when_thens_model(s: Seq<PhysicalWhenThen>) -> Seq<
    (Option<WireModel>, Option<WireModel>),
>
    decreases s,
{
    if s.len() == 0 {
        Seq::empty()
    } else {
        let last = s[s.len() - 1];
        when_thens_model(s.subrange(0, s.len() - 1)).push(
            (opt_model(last.when_expr), opt_model(last.then_expr)),
        )
    }
}

impl View for PhysicalExprNode {
    type V = WireModel;

    open spec fn view(&self) -> WireModel {
        wire_model(*self)
    }
}

} // verus!
