//! The closed set of types the checker reasons about.
use vstd::prelude::*;
use vstd::string::*;

use crate::text::Ident;

verus! {

/// Builtin primitive types
#[derive(Clone, Copy, PartialEq, Eq, Structural, Hash, Debug)]
pub enum BuiltinType {
    Bool,
    Number,
    String,
}

/// A semantic type
///
/// `Error` marks a checking failure that has already been reported and
/// must not cause further diagnostics; `Unknown` marks a type that is
/// not yet determined.
#[derive(Clone, Copy, PartialEq, Eq, Structural, Hash, Debug)]
pub enum Typ {
    /// A type error that has already been diagnosed
    Error,
    /// A type that is not yet known
    Unknown,
    /// The unit type
    Unit,
    /// A builtin primitive
    Builtin(BuiltinType),
    /// The function declared under the given identifier
    Function(Ident),
}

/// The human-readable name of a type, as diagnostics show it.
pub open spec fn typ_name(t: Typ) -> Seq<char> {
    match t {
        Typ::Error => "!"@,
        Typ::Unknown => "_"@,
        Typ::Unit => "()"@,
        Typ::Builtin(BuiltinType::Bool) => "Bool"@,
        Typ::Builtin(BuiltinType::Number) => "Number"@,
        Typ::Builtin(BuiltinType::String) => "String"@,
        Typ::Function(_) => "Function"@,
    }
}

impl Typ {
    /// Human-readable name of the type
    pub fn name(&self) -> (r: String)
        ensures
            r@ == typ_name(*self),
    {
        match self {
            Typ::Error => String::from_str("!"),
            Typ::Unknown => String::from_str("_"),
            Typ::Unit => String::from_str("()"),
            Typ::Builtin(BuiltinType::Bool) => String::from_str("Bool"),
            Typ::Builtin(BuiltinType::Number) => String::from_str("Number"),
            Typ::Builtin(BuiltinType::String) => String::from_str("String"),
            Typ::Function(_) => String::from_str("Function"),
        }
    }
}

} // verus!
