//! The definition nodes the parser produces: passive data, immutable once
//! built, each with a mathematical view over character sequences.
use vstd::prelude::*;

verus! {

/// A referenced schema file path, unvalidated.
#[derive(Debug)]
pub struct Include {
    pub path: String,
}

pub ghost struct IncludeModel {
    pub path: Seq<char>,
}

impl View for Include {
    type V = IncludeModel;

    open spec fn view(&self) -> IncludeModel {
        IncludeModel { path: self.path@ }
    }
}

/// A named enumeration and its variant names, in declared order.
#[derive(Debug)]
pub struct Enum {
    pub ident: String,
    pub variants: Vec<String>,
}

pub ghost struct EnumModel {
    pub ident: Seq<char>,
    pub variants: Seq<Seq<char>>,
}

impl View for Enum {
    type V = EnumModel;

    open spec fn view(&self) -> EnumModel {
        EnumModel { ident: self.ident@, variants: self.variants.deep_view() }
    }
}

/// Whether a field is required or optional; the attribute is mandatory in
/// the grammar, absence being a parse failure rather than a default.
#[derive(Debug, PartialEq, Eq, Structural, Clone, Copy)]
pub enum FieldAttribute {
    Optional,
    Required,
}

/// One struct field: explicit sequence number, attribute, raw (unresolved)
/// type name, and field name.
#[derive(Debug)]
pub struct StructField {
    pub seq: i16,
    pub attr: FieldAttribute,
    pub ty: String,
    pub ident: String,
}

pub ghost struct FieldModel {
    pub seq: int,
    pub attr: FieldAttribute,
    pub ty: Seq<char>,
    pub ident: Seq<char>,
}

impl View for StructField {
    type V = FieldModel;

    open spec fn view(&self) -> FieldModel {
        FieldModel { seq: self.seq as int, attr: self.attr, ty: self.ty@, ident: self.ident@ }
    }
}

/// A named record and its fields, in declared order.
#[derive(Debug)]
pub struct Struct {
    pub ident: String,
    pub fields: Vec<StructField>,
}

pub ghost struct StructModel {
    pub ident: Seq<char>,
    pub fields: Seq<FieldModel>,
}

impl View for Struct {
    type V = StructModel;

    open spec fn view(&self) -> StructModel {
        StructModel {
            ident: self.ident@,
            fields: self.fields@.map_values(|f: StructField| f@),
        }
    }
}

/// An ordered pair: the aliased type's name, then the alias.
#[derive(Debug)]
pub struct Typedef(pub String, pub String);

impl View for Typedef {
    type V = (Seq<char>, Seq<char>);

    open spec fn view(&self) -> (Seq<char>, Seq<char>) {
        (self.0@, self.1@)
    }
}

/// A target-language tag and the module name generated code should use for
/// that language.
#[derive(Debug)]
pub struct Namespace {
    pub lang: String,
    pub module: String,
}

pub ghost struct NamespaceModel {
    pub lang: Seq<char>,
    pub module: Seq<char>,
}

impl View for Namespace {
    type V = NamespaceModel;

    open spec fn view(&self) -> NamespaceModel {
        NamespaceModel { lang: self.lang@, module: self.module@ }
    }
}

} // verus!
