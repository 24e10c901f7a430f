//! The builtin operator table.
use vstd::prelude::*;

use crate::syntax::InfixOp;
use crate::types::{BuiltinType, Typ};

verus! {

/// A builtin infix operator with its operand and result types
#[derive(Clone, Copy, PartialEq, Eq, Structural, Debug)]
pub struct BuiltinOp {
    pub op: InfixOp,
    pub lhs_typ: Typ,
    pub rhs_typ: Typ,
    pub result_typ: Typ,
}

/// The result type of applying `op` to operands of the given types, if
/// the table holds such an operator.
pub open spec fn op_result(op: InfixOp, lhs: Typ, rhs: Typ) -> Option<Typ> {
    let num = Typ::Builtin(BuiltinType::Number);
    let boolean = Typ::Builtin(BuiltinType::Bool);
    let string = Typ::Builtin(BuiltinType::String);
    match op {
        InfixOp::Add => if lhs == num && rhs == num {
            Some(num)
        } else if lhs == string && rhs == string {
            Some(string)
        } else {
            None
        },
        InfixOp::Sub | InfixOp::Mul | InfixOp::Div => if lhs == num && rhs == num {
            Some(num)
        } else {
            None
        },
        InfixOp::Eq | InfixOp::NotEq => if lhs == rhs && (lhs == num || lhs == boolean || lhs
            == string) {
            Some(boolean)
        } else {
            None
        },
        InfixOp::Lt | InfixOp::Gt => if lhs == num && rhs == num {
            Some(boolean)
        } else {
            None
        },
        InfixOp::Assign => None,
    }
}

/// Find the builtin operator for an operation on the given types
pub fn find_builtin_op(op: InfixOp, lhs: Typ, rhs: Typ) -> (r: Option<BuiltinOp>)
    ensures
        r is Some <==> op_result(op, lhs, rhs) is Some,
        r matches Some(o) ==> o.op == op && o.lhs_typ == lhs && o.rhs_typ == rhs
            && Some(o.result_typ) == op_result(op, lhs, rhs),
{
    let num = Typ::Builtin(BuiltinType::Number);
    let boolean = Typ::Builtin(BuiltinType::Bool);
    let string = Typ::Builtin(BuiltinType::String);
    let result = match op {
        InfixOp::Add => if lhs == num && rhs == num {
            Some(num)
        } else if lhs == string && rhs == string {
            Some(string)
        } else {
            None
        },
        InfixOp::Sub | InfixOp::Mul | InfixOp::Div => if lhs == num && rhs == num {
            Some(num)
        } else {
            None
        },
        InfixOp::Eq | InfixOp::NotEq => if lhs == rhs && (lhs == num || lhs == boolean || lhs
            == string) {
            Some(boolean)
        } else {
            None
        },
        InfixOp::Lt | InfixOp::Gt => if lhs == num && rhs == num {
            Some(boolean)
        } else {
            None
        },
        InfixOp::Assign => None,
    };
    match result {
        Some(t) => Some(BuiltinOp { op, lhs_typ: lhs, rhs_typ: rhs, result_typ: t }),
        None => None,
    }
}

} // verus!
