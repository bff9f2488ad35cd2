//! Binary operators and their wire tokens.

use vstd::prelude::*;

use crate::error::Error;

verus! {

/// An operator of a binary expression.
#[derive(Clone, Copy, Debug, PartialEq, Eq, Structural)]
pub enum Operator {
    And,
    Or,
    Eq,
    NotEq,
    LtEq,
    Lt,
    Gt,
    GtEq,
    Plus,
    Minus,
    Multiply,
    Divide,
    Modulo,
    Like,
    NotLike,
}

/// The canonical wire token of an operator.
pub open spec fn op_token(op: Operator) -> Seq<char> {
    match op {
        Operator::And => "And"@,
        Operator::Or => "Or"@,
        Operator::Eq => "Eq"@,
        Operator::NotEq => "NotEq"@,
        Operator::LtEq => "LtEq"@,
        Operator::Lt => "Lt"@,
        Operator::Gt => "Gt"@,
        Operator::GtEq => "GtEq"@,
        Operator::Plus => "Plus"@,
        Operator::Minus => "Minus"@,
        Operator::Multiply => "Multiply"@,
        Operator::Divide => "Divide"@,
        Operator::Modulo => "Modulo"@,
        Operator::Like => "Like"@,
        Operator::NotLike => "NotLike"@,
    }
}

/// The operator that a wire token stands for, if the token is in the vocabulary.
pub open spec fn op_of_token(t: Seq<char>) -> Option<Operator> {
    if t == "And"@ {
        Some(Operator::And)
    } else if t == "Or"@ {
        Some(Operator::Or)
    } else if t == "Eq"@ {
        Some(Operator::Eq)
    } else if t == "NotEq"@ {
        Some(Operator::NotEq)
    } else if t == "LtEq"@ {
        Some(Operator::LtEq)
    } else if t == "Lt"@ {
        Some(Operator::Lt)
    } else if t == "Gt"@ {
        Some(Operator::Gt)
    } else if t == "GtEq"@ {
        Some(Operator::GtEq)
    } else if t == "Plus"@ {
        Some(Operator::Plus)
    } else if t == "Minus"@ {
        Some(Operator::Minus)
    } else if t == "Multiply"@ {
        Some(Operator::Multiply)
    } else if t == "Divide"@ {
        Some(Operator::Divide)
    } else if t == "Modulo"@ {
        Some(Operator::Modulo)
    } else if t == "Like"@ {
        Some(Operator::Like)
    } else if t == "NotLike"@ {
        Some(Operator::NotLike)
    } else {
        None
    }
}

/// Whether two strings hold the same characters.
fn same_text(a: &str, b: &str) -> (r: bool)
    ensures
        r == (a@ == b@),
{
    let n = a.unicode_len();
    if n != b.unicode_len() {
        return false;
    }
    let mut i: usize = 0;
    while i < n
        invariant
            n == a@.len(),
            n == b@.len(),
            i <= n,
            a@.subrange(0, i as int) == b@.subrange(0, i as int),
        decreases n - i,
    {
        if a.get_char(i) != b.get_char(i) {
            assert(a@[i as int] != b@[i as int]);
            return false;
        }
        assert(a@.subrange(0, i + 1) =~= a@.subrange(0, i as int).push(a@[i as int]));
        assert(b@.subrange(0, i + 1) =~= b@.subrange(0, i as int).push(b@[i as int]));
        i = i + 1;
    }
    assert(a@ =~= a@.subrange(0, n as int));
    assert(b@ =~= b@.subrange(0, n as int));
    true
}

/// Decodes a wire token into its operator; a token outside the vocabulary is
/// an `UnsupportedOperator` error that names it.
pub fn from_proto_binary_op(op: &str) -> (r: Result<Operator, Error>)
    ensures
        match op_of_token(op@) {
            Some(o) => r == Ok::<Operator, Error>(o),
            None => r matches Err(Error::UnsupportedOperator { op: t }) && t@ == op@,
        },
{
    if same_text(op, "And") {
        Ok(Operator::And)
    } else if same_text(op, "Or") {
        Ok(Operator::Or)
    } else if same_text(op, "Eq") {
        Ok(Operator::Eq)
    } else if same_text(op, "NotEq") {
        Ok(Operator::NotEq)
    } else if same_text(op, "LtEq") {
        Ok(Operator::LtEq)
    } else if same_text(op, "Lt") {
        Ok(Operator::Lt)
    } else if same_text(op, "Gt") {
        Ok(Operator::Gt)
    } else if same_text(op, "GtEq") {
        Ok(Operator::GtEq)
    } else if same_text(op, "Plus") {
        Ok(Operator::Plus)
    } else if same_text(op, "Minus") {
        Ok(Operator::Minus)
    } else if same_text(op, "Multiply") {
        Ok(Operator::Multiply)
    } else if same_text(op, "Divide") {
        Ok(Operator::Divide)
    } else if same_text(op, "Modulo") {
        Ok(Operator::Modulo)
    } else if same_text(op, "Like") {
        Ok(Operator::Like)
    } else if same_text(op, "NotLike") {
        Ok(Operator::NotLike)
    } else {
        Err(Error::UnsupportedOperator { op: op.to_owned() })
    }
}

/// Renders an operator as its canonical wire token.
pub fn to_proto_binary_op(op: Operator) -> (r: String)
    ensures
        r@ == op_token(op),
{
    match op {
        Operator::And => "And".to_owned(),
        Operator::Or => "Or".to_owned(),
        Operator::Eq => "Eq".to_owned(),
        Operator::NotEq => "NotEq".to_owned(),
        Operator::LtEq => "LtEq".to_owned(),
        Operator::Lt => "Lt".to_owned(),
        Operator::Gt => "Gt".to_owned(),
        Operator::GtEq => "GtEq".to_owned(),
        Operator::Plus => "Plus".to_owned(),
        Operator::Minus => "Minus".to_owned(),
        Operator::Multiply => "Multiply".to_owned(),
        Operator::Divide => "Divide".to_owned(),
        Operator::Modulo => "Modulo".to_owned(),
        Operator::Like => "Like".to_owned(),
        Operator::NotLike => "NotLike".to_owned(),
    }
}

/// Every operator's token decodes back to that operator: no operator drifts
/// to another across a decode and an encode.
pub proof fn lemma_operator_closure(op: Operator)
    ensures
        op_of_token(op_token(op)) == Some(op),
{
    reveal_strlit("And");
    reveal_strlit("Or");
    reveal_strlit("Eq");
    reveal_strlit("NotEq");
    reveal_strlit("LtEq");
    reveal_strlit("Lt");
    reveal_strlit("Gt");
    reveal_strlit("GtEq");
    reveal_strlit("Plus");
    reveal_strlit("Minus");
    reveal_strlit("Multiply");
    reveal_strlit("Divide");
    reveal_strlit("Modulo");
    reveal_strlit("Like");
    reveal_strlit("NotLike");
    assert("And"@ =~= seq!['A', 'n', 'd']);
    assert("Or"@ =~= seq!['O', 'r']);
    assert("Eq"@ =~= seq!['E', 'q']);
    assert("NotEq"@ =~= seq!['N', 'o', 't', 'E', 'q']);
    assert("LtEq"@ =~= seq!['L', 't', 'E', 'q']);
    assert("Lt"@ =~= seq!['L', 't']);
    assert("Gt"@ =~= seq!['G', 't']);
    assert("GtEq"@ =~= seq!['G', 't', 'E', 'q']);
    assert("Plus"@ =~= seq!['P', 'l', 'u', 's']);
    assert("Minus"@ =~= seq!['M', 'i', 'n', 'u', 's']);
    assert("Multiply"@ =~= seq!['M', 'u', 'l', 't', 'i', 'p', 'l', 'y']);
    assert("Divide"@ =~= seq!['D', 'i', 'v', 'i', 'd', 'e']);
    assert("Modulo"@ =~= seq!['M', 'o', 'd', 'u', 'l', 'o']);
    assert("Like"@ =~= seq!['L', 'i', 'k', 'e']);
    assert("NotLike"@ =~= seq!['N', 'o', 't', 'L', 'i', 'k', 'e']);
}

/// A token that decodes to an operator is that operator's canonical token.
pub proof fn lemma_token_closure(t: Seq<char>)
    requires
        op_of_token(t) is Some,
    ensures
        op_token(op_of_token(t)->Some_0) == t,
{
}

} // verus!
