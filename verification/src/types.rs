//! The type-mapping engine: a parsed type spelling becomes a semantic type
//! value, and that value projects onto a target-language spelling, a
//! protocol write-operation name, and a protocol read expression. Only the
//! closed set of primitive spellings is mapped; any other spelling is a
//! named, user-defined type on which the primitive projections refuse to
//! answer instead of halting the process.
use vstd::prelude::*;

verus! {

/// A semantic IDL type: one of the recognized primitives, or a named
/// user-defined type carrying its spelling.
#[derive(Debug)]
pub enum Ty {
    Str,
    I16,
    I32,
    I64,
    Bool,
    Named(String),
}

/// The mathematical value of a semantic type.
pub ghost enum TyModel {
    Str,
    I16,
    I32,
    I64,
    Bool,
    Named(Seq<char>),
}

impl View for Ty {
    type V = TyModel;

    open spec fn view(&self) -> TyModel {
        match self {
            Ty::Str => TyModel::Str,
            Ty::I16 => TyModel::I16,
            Ty::I32 => TyModel::I32,
            Ty::I64 => TyModel::I64,
            Ty::Bool => TyModel::Bool,
            Ty::Named(s) => TyModel::Named(s@),
        }
    }
}

/// Which semantic type a raw spelling stands for.
pub open spec fn spec_ty_of(s: Seq<char>) -> TyModel {
    if s == "string"@ {
        TyModel::Str
    } else if s == "i16"@ {
        TyModel::I16
    } else if s == "i32"@ {
        TyModel::I32
    } else if s == "i64"@ {
        TyModel::I64
    } else if s == "bool"@ {
        TyModel::Bool
    } else {
        TyModel::Named(s)
    }
}

/// The target-language spelling of a primitive type; none for a named
/// type, which a distinct, structurally-typed path must handle.
pub open spec fn spec_to_rust(t: TyModel) -> Option<Seq<char>> {
    match t {
        TyModel::Str => Some("String"@),
        TyModel::I16 => Some("i16"@),
        TyModel::I32 => Some("i32"@),
        TyModel::I64 => Some("i64"@),
        TyModel::Bool => Some("bool"@),
        TyModel::Named(_) => None,
    }
}

/// The protocol write-operation name of a primitive type.
pub open spec fn spec_to_protocol(t: TyModel) -> Option<Seq<char>> {
    match t {
        TyModel::Str => Some("write_str"@),
        TyModel::I16 => Some("write_i16"@),
        TyModel::I32 => Some("write_i32"@),
        TyModel::I64 => Some("write_i64"@),
        TyModel::Bool => Some("write_bool"@),
        TyModel::Named(_) => None,
    }
}

/// The protocol read expression of a primitive type, used when generated
/// code deserializes a value of it.
pub open spec fn spec_read_expr(t: TyModel) -> Option<Seq<char>> {
    match t {
        TyModel::Str => Some("de.deserialize_str()"@),
        TyModel::I16 => Some("de.deserialize_i16()"@),
        TyModel::I32 => Some("de.deserialize_i32()"@),
        TyModel::I64 => Some("de.deserialize_i64()"@),
        TyModel::Bool => Some("de.deserialize_bool()"@),
        TyModel::Named(_) => None,
    }
}

impl Ty {
    /// Classify a raw type spelling against the closed primitive set,
    /// falling back to a named type.
    pub fn from_name(name: String) -> (t: Ty)
        ensures
            t@ == spec_ty_of(name@),
    {
        if name == String::from_str("string") {
            Ty::Str
        } else if name == String::from_str("i16") {
            Ty::I16
        } else if name == String::from_str("i32") {
            Ty::I32
        } else if name == String::from_str("i64") {
            Ty::I64
        } else if name == String::from_str("bool") {
            Ty::Bool
        } else {
            Ty::Named(name)
        }
    }

    /// The target-language spelling of this type, if it is a primitive.
    pub fn to_rust(&self) -> (r: Option<String>)
        ensures
            (r is Some) == (spec_to_rust(self@) is Some),
            r matches Some(s) ==> Some(s@) == spec_to_rust(self@),
    {
        match self {
            Ty::Str => Some(String::from_str("String")),
            Ty::I16 => Some(String::from_str("i16")),
            Ty::I32 => Some(String::from_str("i32")),
            Ty::I64 => Some(String::from_str("i64")),
            Ty::Bool => Some(String::from_str("bool")),
            Ty::Named(_) => None,
        }
    }

    /// The protocol write-operation name of this type, if it is a
    /// primitive.
    pub fn to_protocol(&self) -> (r: Option<String>)
        ensures
            (r is Some) == (spec_to_protocol(self@) is Some),
            r matches Some(s) ==> Some(s@) == spec_to_protocol(self@),
    {
        match self {
            Ty::Str => Some(String::from_str("write_str")),
            Ty::I16 => Some(String::from_str("write_i16")),
            Ty::I32 => Some(String::from_str("write_i32")),
            Ty::I64 => Some(String::from_str("write_i64")),
            Ty::Bool => Some(String::from_str("write_bool")),
            Ty::Named(_) => None,
        }
    }

    /// The protocol read expression of this type, if it is a primitive.
    pub fn read_expr(&self) -> (r: Option<String>)
        ensures
            (r is Some) == (spec_read_expr(self@) is Some),
            r matches Some(s) ==> Some(s@) == spec_read_expr(self@),
    {
        match self {
            Ty::Str => Some(String::from_str("de.deserialize_str()")),
            Ty::I16 => Some(String::from_str("de.deserialize_i16()")),
            Ty::I32 => Some(String::from_str("de.deserialize_i32()")),
            Ty::I64 => Some(String::from_str("de.deserialize_i64()")),
            Ty::Bool => Some(String::from_str("de.deserialize_bool()")),
            Ty::Named(_) => None,
        }
    }
}

} // verus!
