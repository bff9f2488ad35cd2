//! Decoding wire nodes into trees and encoding trees into wire nodes.

use vstd::prelude::*;

use crate::error::{Error, ErrorView};
use crate::expr::{
    expr_model, no_branch_reason, opt_expr_model, pairs_model, supported, supported_branches,
    supported_opt, ExprModel, PhysicalExpr,
};
use crate::operator::{
    from_proto_binary_op, lemma_operator_closure, op_of_token, op_token, to_proto_binary_op,
};
use crate::wire::{
    child_model, opt_model, when_thens_model, ExprType, PhysicalBinaryExprNode,
    PhysicalCaseNode, PhysicalColumn, PhysicalExprNode, PhysicalIsNotNull, PhysicalIsNull,
    PhysicalNot, PhysicalWhenThen, WireModel,
};

verus! {

/// How a wire node without a variant renders in an `EmptyExpression` error.
pub open spec fn empty_node_text() -> Seq<char> {
    "PhysicalExprNode { expr_type: None }"@
}

/// Why a column position that the machine cannot address is refused.
pub open spec fn index_range_reason() -> Seq<char> {
    "column index out of range"@
}

/// Decodes a required child; an absent one is a `MissingField` error naming `field`.
pub open spec fn decode_required(c: Option<Box<WireModel>>, field: Seq<char>) -> Result<
    ExprModel,
    ErrorView,
>
    decreases c,
{
    match c {
        Some(w) => decode_spec(*w),
        None => Err(ErrorView::MissingField { field }),
    }
}

/// Decodes an optional child; an absent one stays absent.
pub open spec fn decode_optional(c: Option<Box<WireModel>>) -> Result<
    Option<Box<ExprModel>>,
    ErrorView,
>
    decreases c,
{
    match c {
        Some(w) => match decode_spec(*w) {
            Ok(e) => Ok(Some(Box::new(e))),
            Err(e) => Err(e),
        },
        None => Ok(None),
    }
}

/// Decodes one branch: first its `when_expr`, then its `then_expr`.
pub open spec fn decode_branch(b: (Option<WireModel>, Option<WireModel>)) -> Result<
    (ExprModel, ExprModel),
    ErrorView,
>
    decreases b,
{
    match b.0 {
        None => Err(ErrorView::MissingField { field: "when_expr"@ }),
        Some(w) => match decode_spec(w) {
            Err(e) => Err(e),
            Ok(x) => match b.1 {
                None => Err(ErrorView::MissingField { field: "then_expr"@ }),
                Some(t) => match decode_spec(t) {
                    Err(e) => Err(e),
                    Ok(y) => Ok((x, y)),
                },
            },
        },
    }
}

/// Decodes branches in order, stopping at the first failure.
pub open spec fn decode_branches(s: Seq<(Option<WireModel>, Option<WireModel>)>) -> Result<
    Seq<(ExprModel, ExprModel)>,
    ErrorView,
>
    decreases s,
{
    if s.len() == 0 {
        Ok(Seq::empty())
    } else {
        match decode_branches(s.subrange(0, s.len() - 1)) {
            Err(e) => Err(e),
            Ok(p) => match decode_branch(s[s.len() - 1]) {
                Err(e) => Err(e),
                Ok(b) => Ok(p.push(b)),
            },
        }
    }
}

/// What decoding a wire node gives: the tree, or the first failure met in a
/// walk that takes children in field order.
pub open spec fn decode_spec(w: WireModel) -> Result<ExprModel, ErrorView>
    decreases w,
{
    match w {
        WireModel::Empty => Err(ErrorView::EmptyExpression { name: empty_node_text() }),
        WireModel::Column { name, index } => if index <= usize::MAX {
            Ok(ExprModel::Column { name, index })
        } else {
            Err(ErrorView::VariantConstruction { reason: index_range_reason() })
        },
        WireModel::IsNull { arg } => match decode_required(arg, "expr"@) {
            Ok(a) => Ok(ExprModel::IsNull { arg: Box::new(a) }),
            Err(e) => Err(e),
        },
        WireModel::IsNotNull { arg } => match decode_required(arg, "expr"@) {
            Ok(a) => Ok(ExprModel::IsNotNull { arg: Box::new(a) }),
            Err(e) => Err(e),
        },
        WireModel::Not { arg } => match decode_required(arg, "expr"@) {
            Ok(a) => Ok(ExprModel::Not { arg: Box::new(a) }),
            Err(e) => Err(e),
        },
        WireModel::Binary { left, right, op } => match decode_required(left, "l"@) {
            Err(e) => Err(e),
            Ok(l) => match decode_required(right, "r"@) {
                Err(e) => Err(e),
                Ok(r) => match op_of_token(op) {
                    None => Err(ErrorView::UnsupportedOperator { op }),
                    Some(o) => Ok(ExprModel::Binary { left: Box::new(l), op: o, right: Box::new(r) }),
                },
            },
        },
        WireModel::Case { base, branches, otherwise } => match decode_optional(base) {
            Err(e) => Err(e),
            Ok(b) => match decode_branches(branches) {
                Err(e) => Err(e),
                Ok(bs) => match decode_optional(otherwise) {
                    Err(e) => Err(e),
                    Ok(o) => if bs.len() == 0 {
                        Err(ErrorView::VariantConstruction { reason: no_branch_reason() })
                    } else {
                        Ok(ExprModel::Case { base: b, branches: bs, otherwise: o })
                    },
                },
            },
        },
    }
}

/// Encodes an optional child; an absent one stays absent.
pub open spec fn encode_optional(c: Option<Box<ExprModel>>) -> Result<
    Option<Box<WireModel>>,
    ErrorView,
>
    decreases c,
{
    match c {
        Some(e) => match encode_spec(*e) {
            Ok(w) => Ok(Some(Box::new(w))),
            Err(e) => Err(e),
        },
        None => Ok(None),
    }
}

/// Encodes one branch: first its condition, then its value.
pub open spec fn encode_branch(b: (ExprModel, ExprModel)) -> Result<
    (Option<WireModel>, Option<WireModel>),
    ErrorView,
>
    decreases b,
{
    match encode_spec(b.0) {
        Err(e) => Err(e),
        Ok(x) => match encode_spec(b.1) {
            Err(e) => Err(e),
            Ok(y) => Ok((Some(x), Some(y))),
        },
    }
}

/// Encodes branches in order, stopping at the first failure.
pub open spec fn encode_branches(s: Seq<(ExprModel, ExprModel)>) -> Result<
    Seq<(Option<WireModel>, Option<WireModel>)>,
    ErrorView,
>
    decreases s,
{
    if s.len() == 0 {
        Ok(Seq::empty())
    } else {
        match encode_branches(s.subrange(0, s.len() - 1)) {
            Err(e) => Err(e),
            Ok(p) => match encode_branch(s[s.len() - 1]) {
                Err(e) => Err(e),
                Ok(b) => Ok(p.push(b)),
            },
        }
    }
}

/// What encoding a tree gives: the wire node, or the first node met without a
/// wire form, in a walk that takes children in field order.
pub open spec fn encode_spec(m: ExprModel) -> Result<WireModel, ErrorView>
    decreases m,
{
    match m {
        ExprModel::Column { name, index } => Ok(WireModel::Column { name, index }),
        ExprModel::IsNull { arg } => match encode_spec(*arg) {
            Ok(a) => Ok(WireModel::IsNull { arg: Some(Box::new(a)) }),
            Err(e) => Err(e),
        },
        ExprModel::IsNotNull { arg } => match encode_spec(*arg) {
            Ok(a) => Ok(WireModel::IsNotNull { arg: Some(Box::new(a)) }),
            Err(e) => Err(e),
        },
        ExprModel::Not { arg } => match encode_spec(*arg) {
            Ok(a) => Ok(WireModel::Not { arg: Some(Box::new(a)) }),
            Err(e) => Err(e),
        },
        ExprModel::Binary { left, op, right } => match encode_spec(*left) {
            Err(e) => Err(e),
            Ok(l) => match encode_spec(*right) {
                Err(e) => Err(e),
                Ok(r) => Ok(
                    WireModel::Binary {
                        left: Some(Box::new(l)),
                        right: Some(Box::new(r)),
                        op: op_token(op),
                    },
                ),
            },
        },
        ExprModel::Case { base, branches, otherwise } => match encode_optional(base) {
            Err(e) => Err(e),
            Ok(b) => match encode_branches(branches) {
                Err(e) => Err(e),
                Ok(bs) => match encode_optional(otherwise) {
                    Err(e) => Err(e),
                    Ok(o) => Ok(WireModel::Case { base: b, branches: bs, otherwise: o }),
                },
            },
        },
        ExprModel::Other { name } => Err(ErrorView::UnsupportedExpression { name }),
    }
}

/// `r` is the executable form of the decode result `s`.
pub open spec fn tree_result_is(r: Result<PhysicalExpr, Error>, s: Result<ExprModel, ErrorView>) -> bool {
    match r {
        Ok(t) => s == Ok::<ExprModel, ErrorView>(t@),
        Err(e) => s == Err::<ExprModel, ErrorView>(e@),
    }
}

proof fn lemma_when_thens_len(s: Seq<PhysicalWhenThen>)
    ensures
        when_thens_model(s).len() == s.len(),
    decreases s.len(),
{
    if s.len() > 0 {
        lemma_when_thens_len(s.subrange(0, s.len() - 1));
    }
}

proof fn lemma_when_thens_prefix(s: Seq<PhysicalWhenThen>, i: int)
    requires
        0 <= i < s.len(),
    ensures
        when_thens_model(s.subrange(0, i + 1)) == when_thens_model(s.subrange(0, i)).push(
            (opt_model(s[i].when_expr), opt_model(s[i].then_expr)),
        ),
{
    assert(s.subrange(0, i + 1).subrange(0, i) =~= s.subrange(0, i));
}

proof fn lemma_decode_branches_push(
    s: Seq<(Option<WireModel>, Option<WireModel>)>,
    b: (Option<WireModel>, Option<WireModel>),
)
    ensures
        decode_branches(s.push(b)) == match decode_branches(s) {
            Err(e) => Err(e),
            Ok(p) => match decode_branch(b) {
                Err(e) => Err(e),
                Ok(x) => Ok(p.push(x)),
            },
        },
{
    assert(s.push(b).subrange(0, s.len() as int) =~= s);
}

/// Once a prefix of the branches fails to decode, all of them fail alike.
proof fn lemma_decode_branches_err(v: Seq<PhysicalWhenThen>, k: int)
    requires
        0 <= k <= v.len(),
        decode_branches(when_thens_model(v.subrange(0, k))) is Err,
    ensures
        decode_branches(when_thens_model(v)) == decode_branches(when_thens_model(v.subrange(0, k))),
    decreases v.len(),
{
    if k == v.len() {
        assert(v.subrange(0, k) =~= v);
    } else {
        let p = v.subrange(0, v.len() - 1);
        assert(p.subrange(0, k) =~= v.subrange(0, k));
        lemma_decode_branches_err(p, k);
        lemma_when_thens_len(p);
        assert(v.subrange(0, v.len() - 1) =~= p);
        lemma_decode_branches_push(
            when_thens_model(p),
            (opt_model(v[v.len() - 1].when_expr), opt_model(v[v.len() - 1].then_expr)),
        );
    }
}

/// Decodes a wire node into a tree.
pub fn parse_grpc_physical_expr(proto: &PhysicalExprNode) -> (r: Result<PhysicalExpr, Error>)
    ensures
        tree_result_is(r, decode_spec(proto@)),
    decreases proto,
{
    match &proto.expr_type {
        None => Err(Error::EmptyExpression { name: "PhysicalExprNode { expr_type: None }".to_owned() }),
        Some(ExprType::Column(c)) => {
            if c.index <= usize::MAX as u64 {
                Ok(PhysicalExpr::Column { name: c.name.clone(), index: c.index as usize })
            } else {
                Err(Error::VariantConstruction { reason: "column index out of range".to_owned() })
            }
        },
        Some(ExprType::IsNullExpr(e)) => match parse_required_physical_box_expr(&e.expr, "expr") {
            Ok(a) => Ok(PhysicalExpr::IsNull { arg: Box::new(a) }),
            Err(err) => Err(err),
        },
        Some(ExprType::IsNotNullExpr(e)) => match parse_required_physical_box_expr(&e.expr, "expr") {
            Ok(a) => Ok(PhysicalExpr::IsNotNull { arg: Box::new(a) }),
            Err(err) => Err(err),
        },
        Some(ExprType::NotExpr(e)) => match parse_required_physical_box_expr(&e.expr, "expr") {
            Ok(a) => Ok(PhysicalExpr::Not { arg: Box::new(a) }),
            Err(err) => Err(err),
        },
        Some(ExprType::BinaryExpr(e)) => {
            let l = match parse_required_physical_box_expr(&e.l, "l") {
                Ok(l) => l,
                Err(err) => return Err(err),
            };
            let r = match parse_required_physical_box_expr(&e.r, "r") {
                Ok(r) => r,
                Err(err) => return Err(err),
            };
            match from_proto_binary_op(e.op.as_str()) {
                Ok(op) => Ok(PhysicalExpr::Binary { left: Box::new(l), op, right: Box::new(r) }),
                Err(err) => Err(err),
            }
        },
        Some(ExprType::Case(e)) => {
            let base = match parse_optional_physical_expr(&e.expr) {
                Ok(b) => b,
                Err(err) => return Err(err),
            };
            let when_then_expr = match parse_when_then_exprs(&e.when_then_expr) {
                Ok(w) => w,
                Err(err) => return Err(err),
            };
            let else_expr = match parse_optional_physical_expr(&e.else_expr) {
                Ok(o) => o,
                Err(err) => return Err(err),
            };
            PhysicalExpr::try_new_case(base, when_then_expr, else_expr)
        },
    }
}

/// Decodes a required boxed child; an absent one is a `MissingField` error
/// naming `field`.
fn parse_required_physical_box_expr(
    expr: &Option<Box<PhysicalExprNode>>,
    field: &str,
) -> (r: Result<PhysicalExpr, Error>)
    ensures
        tree_result_is(r, decode_required(child_model(*expr), field@)),
    decreases expr,
{
    match expr {
        Some(e) => parse_grpc_physical_expr(e),
        None => Err(Error::MissingField { field: field.to_owned() }),
    }
}

/// Decodes a required child held by value; an absent one is a `MissingField`
/// error naming `field`.
fn parse_required_physical_expr(
    expr: &Option<PhysicalExprNode>,
    field: &str,
) -> (r: Result<PhysicalExpr, Error>)
    ensures
        match *expr {
            Some(n) => tree_result_is(r, decode_spec(n@)),
            None => tree_result_is(r, Err(ErrorView::MissingField { field: field@ })),
        },
    decreases expr,
{
    match expr {
        Some(e) => parse_grpc_physical_expr(e),
        None => Err(Error::MissingField { field: field.to_owned() }),
    }
}

/// Decodes an optional child; an absent one stays absent.
fn parse_optional_physical_expr(expr: &Option<Box<PhysicalExprNode>>) -> (r: Result<
    Option<Box<PhysicalExpr>>,
    Error,
>)
    ensures
        match r {
            Ok(o) => decode_optional(child_model(*expr)) == Ok::<
                Option<Box<ExprModel>>,
                ErrorView,
            >(opt_expr_model(o)),
            Err(e) => decode_optional(child_model(*expr)) == Err::<
                Option<Box<ExprModel>>,
                ErrorView,
            >(e@),
        },
    decreases expr,
{
    match expr {
        Some(e) => match parse_grpc_physical_expr(e) {
            Ok(t) => Ok(Some(Box::new(t))),
            Err(err) => Err(err),
        },
        None => Ok(None),
    }
}

/// Decodes the branches of a conditional in order, stopping at the first failure.
fn parse_when_then_exprs(v: &Vec<PhysicalWhenThen>) -> (r: Result<
    Vec<(PhysicalExpr, PhysicalExpr)>,
    Error,
>)
    ensures
        match r {
            Ok(out) => decode_branches(when_thens_model(v@)) == Ok::<
                Seq<(ExprModel, ExprModel)>,
                ErrorView,
            >(pairs_model(out@)),
            Err(e) => decode_branches(when_thens_model(v@)) == Err::<
                Seq<(ExprModel, ExprModel)>,
                ErrorView,
            >(e@),
        },
    decreases v,
{
    let mut out: Vec<(PhysicalExpr, PhysicalExpr)> = Vec::new();
    let mut i: usize = 0;
    assert(v@.subrange(0, 0) =~= Seq::<PhysicalWhenThen>::empty());
    assert(out@ =~= Seq::<(PhysicalExpr, PhysicalExpr)>::empty());
    while i < v.len()
        invariant
            i <= v.len(),
            decode_branches(when_thens_model(v@.subrange(0, i as int))) == Ok::<
                Seq<(ExprModel, ExprModel)>,
                ErrorView,
            >(pairs_model(out@)),
        decreases v.len() - i,
    {
        let b = &v[i];
        proof {
            lemma_when_thens_prefix(v@, i as int);
            lemma_decode_branches_push(
                when_thens_model(v@.subrange(0, i as int)),
                (opt_model(b.when_expr), opt_model(b.then_expr)),
            );
        }
        let w = match parse_required_physical_expr(&b.when_expr, "when_expr") {
            Ok(w) => w,
            Err(err) => {
                proof {
                    lemma_decode_branches_err(v@, i + 1);
                }
                return Err(err);
            },
        };
        let t = match parse_required_physical_expr(&b.then_expr, "then_expr") {
            Ok(t) => t,
            Err(err) => {
                proof {
                    lemma_decode_branches_err(v@, i + 1);
                }
                return Err(err);
            },
        };
        let ghost before = out@;
        out.push((w, t));
        proof {
            assert(out@.subrange(0, out@.len() - 1) =~= before);
        }
        i = i + 1;
    }
    assert(v@.subrange(0, v.len() as int) =~= v@);
    Ok(out)
}

/// `r` is the executable form of the encode result `s`.
pub open spec fn wire_result_is(r: Result<PhysicalExprNode, Error>, s: Result<WireModel, ErrorView>) -> bool {
    match r {
        Ok(n) => s == Ok::<WireModel, ErrorView>(n@),
        Err(e) => s == Err::<WireModel, ErrorView>(e@),
    }
}

proof fn lemma_pairs_len(s: Seq<(PhysicalExpr, PhysicalExpr)>)
    ensures
        pairs_model(s).len() == s.len(),
    decreases s.len(),
{
    if s.len() > 0 {
        lemma_pairs_len(s.subrange(0, s.len() - 1));
    }
}

proof fn lemma_pairs_prefix(s: Seq<(PhysicalExpr, PhysicalExpr)>, i: int)
    requires
        0 <= i < s.len(),
    ensures
        pairs_model(s.subrange(0, i + 1)) == pairs_model(s.subrange(0, i)).push(
            (expr_model(s[i].0), expr_model(s[i].1)),
        ),
{
    assert(s.subrange(0, i + 1).subrange(0, i) =~= s.subrange(0, i));
}

proof fn lemma_encode_branches_push(s: Seq<(ExprModel, ExprModel)>, b: (ExprModel, ExprModel))
    ensures
        encode_branches(s.push(b)) == match encode_branches(s) {
            Err(e) => Err(e),
            Ok(p) => match encode_branch(b) {
                Err(e) => Err(e),
                Ok(x) => Ok(p.push(x)),
            },
        },
{
    assert(s.push(b).subrange(0, s.len() as int) =~= s);
}

/// Once a prefix of the branches fails to encode, all of them fail alike.
proof fn lemma_encode_branches_err(v: Seq<(PhysicalExpr, PhysicalExpr)>, k: int)
    requires
        0 <= k <= v.len(),
        encode_branches(pairs_model(v.subrange(0, k))) is Err,
    ensures
        encode_branches(pairs_model(v)) == encode_branches(pairs_model(v.subrange(0, k))),
    decreases v.len(),
{
    if k == v.len() {
        assert(v.subrange(0, k) =~= v);
    } else {
        let p = v.subrange(0, v.len() - 1);
        assert(p.subrange(0, k) =~= v.subrange(0, k));
        lemma_encode_branches_err(p, k);
        lemma_pairs_len(p);
        assert(v.subrange(0, v.len() - 1) =~= p);
        lemma_encode_branches_push(
            pairs_model(p),
            (expr_model(v[v.len() - 1].0), expr_model(v[v.len() - 1].1)),
        );
    }
}

/// Encodes a tree into a wire node; a node without a wire form is an
/// `UnsupportedExpression` error that renders it.
pub fn parse_df_physical_expr(df_expr: &PhysicalExpr) -> (r: Result<PhysicalExprNode, Error>)
    ensures
        wire_result_is(r, encode_spec(df_expr@)),
    decreases df_expr,
{
    match df_expr {
        PhysicalExpr::Column { name, index } => Ok(
            PhysicalExprNode {
                expr_type: Some(
                    ExprType::Column(PhysicalColumn { name: name.clone(), index: *index as u64 }),
                ),
            },
        ),
        PhysicalExpr::IsNull { arg } => match parse_df_physical_expr(arg) {
            Ok(node) => Ok(
                PhysicalExprNode {
                    expr_type: Some(
                        ExprType::IsNullExpr(Box::new(PhysicalIsNull { expr: Some(Box::new(node)) })),
                    ),
                },
            ),
            Err(err) => Err(err),
        },
        PhysicalExpr::IsNotNull { arg } => match parse_df_physical_expr(arg) {
            Ok(node) => Ok(
                PhysicalExprNode {
                    expr_type: Some(
                        ExprType::IsNotNullExpr(
                            Box::new(PhysicalIsNotNull { expr: Some(Box::new(node)) }),
                        ),
                    ),
                },
            ),
            Err(err) => Err(err),
        },
        PhysicalExpr::Not { arg } => match parse_df_physical_expr(arg) {
            Ok(node) => Ok(
                PhysicalExprNode {
                    expr_type: Some(
                        ExprType::NotExpr(Box::new(PhysicalNot { expr: Some(Box::new(node)) })),
                    ),
                },
            ),
            Err(err) => Err(err),
        },
        PhysicalExpr::Binary { left, op, right } => {
            let l = match parse_df_physical_expr(left) {
                Ok(l) => l,
                Err(err) => return Err(err),
            };
            let r = match parse_df_physical_expr(right) {
                Ok(r) => r,
                Err(err) => return Err(err),
            };
            Ok(
                PhysicalExprNode {
                    expr_type: Some(
                        ExprType::BinaryExpr(
                            Box::new(
                                PhysicalBinaryExprNode {
                                    l: Some(Box::new(l)),
                                    r: Some(Box::new(r)),
                                    op: to_proto_binary_op(*op),
                                },
                            ),
                        ),
                    ),
                },
            )
        },
        PhysicalExpr::Case { expr, when_then_expr, else_expr } => {
            let base = match encode_optional_expr(expr) {
                Ok(b) => b,
                Err(err) => return Err(err),
            };
            let branches = match encode_when_then_exprs(when_then_expr) {
                Ok(w) => w,
                Err(err) => return Err(err),
            };
            let otherwise = match encode_optional_expr(else_expr) {
                Ok(o) => o,
                Err(err) => return Err(err),
            };
            Ok(
                PhysicalExprNode {
                    expr_type: Some(
                        ExprType::Case(
                            Box::new(
                                PhysicalCaseNode {
                                    expr: base,
                                    when_then_expr: branches,
                                    else_expr: otherwise,
                                },
                            ),
                        ),
                    ),
                },
            )
        },
        PhysicalExpr::Other { name } => Err(Error::UnsupportedExpression { name: name.clone() }),
    }
}

/// Encodes an optional child; an absent one stays absent.
fn encode_optional_expr(expr: &Option<Box<PhysicalExpr>>) -> (r: Result<
    Option<Box<PhysicalExprNode>>,
    Error,
>)
    ensures
        match r {
            Ok(o) => encode_optional(opt_expr_model(*expr)) == Ok::<
                Option<Box<WireModel>>,
                ErrorView,
            >(child_model(o)),
            Err(e) => encode_optional(opt_expr_model(*expr)) == Err::<
                Option<Box<WireModel>>,
                ErrorView,
            >(e@),
        },
    decreases expr,
{
    match expr {
        Some(e) => match parse_df_physical_expr(e) {
            Ok(n) => Ok(Some(Box::new(n))),
            Err(err) => Err(err),
        },
        None => Ok(None),
    }
}

/// Encodes the branches of a conditional in order, stopping at the first failure.
fn encode_when_then_exprs(v: &Vec<(PhysicalExpr, PhysicalExpr)>) -> (r: Result<
    Vec<PhysicalWhenThen>,
    Error,
>)
    ensures
        match r {
            Ok(out) => encode_branches(pairs_model(v@)) == Ok::<
                Seq<(Option<WireModel>, Option<WireModel>)>,
                ErrorView,
            >(when_thens_model(out@)),
            Err(e) => encode_branches(pairs_model(v@)) == Err::<
                Seq<(Option<WireModel>, Option<WireModel>)>,
                ErrorView,
            >(e@),
        },
    decreases v,
{
    let mut out: Vec<PhysicalWhenThen> = Vec::with_capacity(v.len());
    let mut i: usize = 0;
    assert(v@.subrange(0, 0) =~= Seq::<(PhysicalExpr, PhysicalExpr)>::empty());
    assert(out@ =~= Seq::<PhysicalWhenThen>::empty());
    while i < v.len()
        invariant
            i <= v.len(),
            encode_branches(pairs_model(v@.subrange(0, i as int))) == Ok::<
                Seq<(Option<WireModel>, Option<WireModel>)>,
                ErrorView,
            >(when_thens_model(out@)),
        decreases v.len() - i,
    {
        let b = &v[i];
        proof {
            lemma_pairs_prefix(v@, i as int);
            lemma_encode_branches_push(
                pairs_model(v@.subrange(0, i as int)),
                (expr_model(b.0), expr_model(b.1)),
            );
        }
        let w = match parse_df_physical_expr(&b.0) {
            Ok(w) => w,
            Err(err) => {
                proof {
                    lemma_encode_branches_err(v@, i + 1);
                }
                return Err(err);
            },
        };
        let t = match parse_df_physical_expr(&b.1) {
            Ok(t) => t,
            Err(err) => {
                proof {
                    lemma_encode_branches_err(v@, i + 1);
                }
                return Err(err);
            },
        };
        let ghost before = out@;
        let ghost pair = (Some(w@), Some(t@));
        out.push(PhysicalWhenThen { when_expr: Some(w), then_expr: Some(t) });
        proof {
            assert(out@.subrange(0, out@.len() - 1) =~= before);
            let last = out@[out@.len() - 1];
            assert(opt_model(last.when_expr) == pair.0);
            assert(opt_model(last.then_expr) == pair.1);
            assert(when_thens_model(out@) == when_thens_model(before).push(pair));
        }
        i = i + 1;
    }
    assert(v@.subrange(0, v.len() as int) =~= v@);
    Ok(out)
}

proof fn lemma_branches_round_trip(s: Seq<(ExprModel, ExprModel)>)
    requires
        supported_branches(s),
    ensures
        encode_branches(s) is Ok,
        decode_branches(encode_branches(s)->Ok_0) == Ok::<Seq<(ExprModel, ExprModel)>, ErrorView>(
            s,
        ),
    decreases s,
{
    if s.len() > 0 {
        let p = s.subrange(0, s.len() - 1);
        let last = s[s.len() - 1];
        lemma_branches_round_trip(p);
        lemma_model_round_trip(last.0);
        lemma_model_round_trip(last.1);
        let x = encode_spec(last.0)->Ok_0;
        let y = encode_spec(last.1)->Ok_0;
        assert(encode_branch(last) == Ok::<(Option<WireModel>, Option<WireModel>), ErrorView>(
            (Some(x), Some(y)),
        ));
        assert(decode_branch((Some(x), Some(y))) == Ok::<(ExprModel, ExprModel), ErrorView>(last));
        let ep = encode_branches(p)->Ok_0;
        assert(s.subrange(0, s.len() - 1) == p);
        assert(encode_branches(s) == Ok::<Seq<(Option<WireModel>, Option<WireModel>)>, ErrorView>(
            ep.push((Some(x), Some(y))),
        ));
        lemma_decode_branches_push(ep, (Some(x), Some(y)));
        assert(p.push(last) =~= s);
    } else {
        assert(s =~= Seq::<(ExprModel, ExprModel)>::empty());
    }
}

proof fn lemma_model_round_trip(m: ExprModel)
    requires
        supported(m),
    ensures
        encode_spec(m) is Ok,
        decode_spec(encode_spec(m)->Ok_0) == Ok::<ExprModel, ErrorView>(m),
    decreases m,
{
    match m {
        ExprModel::Column { .. } => {},
        ExprModel::IsNull { arg } => lemma_model_round_trip(*arg),
        ExprModel::IsNotNull { arg } => lemma_model_round_trip(*arg),
        ExprModel::Not { arg } => lemma_model_round_trip(*arg),
        ExprModel::Binary { left, op, right } => {
            lemma_model_round_trip(*left);
            lemma_model_round_trip(*right);
            lemma_operator_closure(op);
        },
        ExprModel::Case { base, branches, otherwise } => {
            assert(supported_opt(base) && supported_opt(otherwise));
            if let Some(b) = base {
                lemma_model_round_trip(*b);
            }
            lemma_branches_round_trip(branches);
            if let Some(o) = otherwise {
                lemma_model_round_trip(*o);
            }
            assert(encode_optional(base) is Ok);
            assert(decode_optional(encode_optional(base)->Ok_0) == Ok::<
                Option<Box<ExprModel>>,
                ErrorView,
            >(base));
            assert(encode_optional(otherwise) is Ok);
            assert(decode_optional(encode_optional(otherwise)->Ok_0) == Ok::<
                Option<Box<ExprModel>>,
                ErrorView,
            >(otherwise));
        },
        ExprModel::Other { .. } => {},
    }
}

/// Encoding a supported tree succeeds, and decoding the result gives back the
/// same tree: the same variants, fields, children and branch order.
pub proof fn lemma_round_trip(t: PhysicalExpr)
    requires
        supported(t@),
    ensures
        encode_spec(t@) is Ok,
        decode_spec(encode_spec(t@)->Ok_0) == Ok::<ExprModel, ErrorView>(t@),
{
    lemma_model_round_trip(t@);
}

/// Decoding a unary node without its child, or a binary node without its left
/// child, or without its right child where the left one decodes, fails with
/// `MissingField` and builds no node.
pub proof fn lemma_missing_child(w: WireModel)
    requires
        match w {
            WireModel::IsNull { arg } => arg is None,
            WireModel::IsNotNull { arg } => arg is None,
            WireModel::Not { arg } => arg is None,
            WireModel::Binary { left, right, .. } => left is None || (right is None
                && decode_required(left, "l"@) is Ok),
            _ => false,
        },
    ensures
        decode_spec(w) matches Err(ErrorView::MissingField { .. }),
{
}

/// Decoding a binary node whose operator token is outside the vocabulary fails
/// with `UnsupportedOperator` naming the token, once both children decode.
pub proof fn lemma_unknown_operator(
    left: Option<Box<WireModel>>,
    right: Option<Box<WireModel>>,
    op: Seq<char>,
)
    requires
        op_of_token(op) is None,
        decode_required(left, "l"@) is Ok,
        decode_required(right, "r"@) is Ok,
    ensures
        decode_spec(WireModel::Binary { left, right, op }) == Err::<ExprModel, ErrorView>(
            ErrorView::UnsupportedOperator { op },
        ),
{
}

proof fn lemma_branches_encode_error(s: Seq<(ExprModel, ExprModel)>)
    ensures
        encode_branches(s) is Err ==> encode_branches(s)->Err_0 is UnsupportedExpression,
    decreases s,
{
    if s.len() > 0 {
        let last = s[s.len() - 1];
        lemma_branches_encode_error(s.subrange(0, s.len() - 1));
        lemma_encode_error_kind(last.0);
        lemma_encode_error_kind(last.1);
        assert(encode_branch(last) is Err ==> encode_branch(last)->Err_0 is UnsupportedExpression);
    }
}

/// Encoding fails only on a node without a wire form, and the error renders
/// that node; a node of that kind at the root is reported as itself.
pub proof fn lemma_encode_error_kind(m: ExprModel)
    ensures
        encode_spec(m) is Err ==> encode_spec(m)->Err_0 is UnsupportedExpression,
        m matches ExprModel::Other { name } ==> encode_spec(m) == Err::<WireModel, ErrorView>(
            ErrorView::UnsupportedExpression { name },
        ),
    decreases m,
{
    match m {
        ExprModel::Column { .. } => {},
        ExprModel::IsNull { arg } => lemma_encode_error_kind(*arg),
        ExprModel::IsNotNull { arg } => lemma_encode_error_kind(*arg),
        ExprModel::Not { arg } => lemma_encode_error_kind(*arg),
        ExprModel::Binary { left, right, .. } => {
            lemma_encode_error_kind(*left);
            lemma_encode_error_kind(*right);
        },
        ExprModel::Case { base, branches, otherwise } => {
            if let Some(b) = base {
                lemma_encode_error_kind(*b);
            }
            lemma_branches_encode_error(branches);
            if let Some(o) = otherwise {
                lemma_encode_error_kind(*o);
            }
            assert(encode_optional(base) is Err ==> encode_optional(base)->Err_0 is UnsupportedExpression);
            assert(encode_optional(otherwise) is Err ==> encode_optional(otherwise)->Err_0 is UnsupportedExpression);
        },
        ExprModel::Other { .. } => {},
    }
}

proof fn lemma_decoded_branches_supported(s: Seq<(Option<WireModel>, Option<WireModel>)>)
    ensures
        decode_branches(s) is Ok ==> supported_branches(decode_branches(s)->Ok_0),
    decreases s,
{
    if s.len() > 0 {
        let p = s.subrange(0, s.len() - 1);
        let last = s[s.len() - 1];
        lemma_decoded_branches_supported(p);
        if let Some(w) = last.0 {
            lemma_decoded_tree_supported(w);
        }
        if let Some(t) = last.1 {
            lemma_decoded_tree_supported(t);
        }
        if decode_branches(s) is Ok {
            let ps = decode_branches(p)->Ok_0;
            let b = decode_branch(last)->Ok_0;
            assert(supported(b.0) && supported(b.1));
            assert(decode_branches(s)->Ok_0 == ps.push(b));
            assert(ps.push(b).subrange(0, ps.len() as int) =~= ps);
        }
    }
}

/// A decode that succeeds builds a supported tree: every conditional has a
/// branch, and every node can be encoded again.
pub proof fn lemma_decoded_tree_supported(w: WireModel)
    ensures
        decode_spec(w) is Ok ==> supported(decode_spec(w)->Ok_0),
    decreases w,
{
    match w {
        WireModel::IsNull { arg } => if let Some(a) = arg {
            lemma_decoded_tree_supported(*a);
        },
        WireModel::IsNotNull { arg } => if let Some(a) = arg {
            lemma_decoded_tree_supported(*a);
        },
        WireModel::Not { arg } => if let Some(a) = arg {
            lemma_decoded_tree_supported(*a);
        },
        WireModel::Binary { left, right, .. } => {
            if let Some(l) = left {
                lemma_decoded_tree_supported(*l);
            }
            if let Some(r) = right {
                lemma_decoded_tree_supported(*r);
            }
        },
        WireModel::Case { base, branches, otherwise } => {
            if let Some(b) = base {
                lemma_decoded_tree_supported(*b);
            }
            lemma_decoded_branches_supported(branches);
            if let Some(o) = otherwise {
                lemma_decoded_tree_supported(*o);
            }
            if decode_spec(w) is Ok {
                assert(supported_opt(decode_optional(base)->Ok_0));
                assert(supported_opt(decode_optional(otherwise)->Ok_0));
            }
        },
        _ => {},
    }
}

} // verus!
