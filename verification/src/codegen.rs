//! The generation orchestrator: it walks the top-level definitions in
//! source order, turns each parsed node into a generic, template-ready
//! data record, and pairs it with the template name (or names) the
//! external text-emission engine should render it with. Rendering itself
//! and writing the rendered text out are the collaborator's work, outside
//! this library.
use crate::ast::{Enum, EnumModel, FieldModel, Namespace, NamespaceModel, StructField, Typedef};
use crate::ast::{Struct, StructModel};
use crate::parser::{
    lemma_parse_enum_props, lemma_parse_namespace_props, lemma_parse_struct_props,
    lemma_parse_typedef_props, lemma_skip_b_props, spec_measure, spec_parse_enum,
    spec_parse_namespace, spec_parse_struct, spec_parse_typedef, spec_skip_b, Parser, ParserModel,
};
use crate::token::{Keyword, TokenModel};
use vstd::prelude::*;

verus! {

/// A failure of the generation pipeline: a parse failure propagated from
/// the grammar layer, exhausted input where a construct was required, or
/// any other collaborator failure.
#[derive(Debug, PartialEq, Eq, Structural, Clone, Copy)]
pub enum Error {
    Other,
    Parser(crate::parser::Error),
    Eof,
}

/// One generic data value handed to the template engine: a string, a
/// number, a boolean, a sequence of strings, or a sequence of field
/// records.
#[derive(Debug)]
pub enum DataValue {
    Str(String),
    Int(i16),
    Bool(bool),
    StrSeq(Vec<String>),
    FieldSeq(Vec<StructField>),
}

/// The mathematical value of a generic data value.
pub ghost enum DataValueModel {
    Str(Seq<char>),
    Int(int),
    Bool(bool),
    StrSeq(Seq<Seq<char>>),
    FieldSeq(Seq<FieldModel>),
}

impl View for DataValue {
    type V = DataValueModel;

    open spec fn view(&self) -> DataValueModel {
        match self {
            DataValue::Str(s) => DataValueModel::Str(s@),
            DataValue::Int(n) => DataValueModel::Int(*n as int),
            DataValue::Bool(b) => DataValueModel::Bool(*b),
            DataValue::StrSeq(v) => DataValueModel::StrSeq(v.deep_view()),
            DataValue::FieldSeq(v) => DataValueModel::FieldSeq(
                v@.map_values(|f: StructField| f@),
            ),
        }
    }
}

/// An ordered, string-keyed record mirroring one definition node, one
/// level deep.
#[derive(Debug)]
pub struct DataRecord {
    pub entries: Vec<(String, DataValue)>,
}

impl View for DataRecord {
    type V = Seq<(Seq<char>, DataValueModel)>;

    open spec fn view(&self) -> Seq<(Seq<char>, DataValueModel)> {
        self.entries@.map_values(|p: (String, DataValue)| (p.0@, p.1@))
    }
}

/// The record of an enum definition: its name and its variant names in
/// declared order.
pub open spec fn spec_enum_record(e: EnumModel) -> Seq<(Seq<char>, DataValueModel)> {
    seq![
        ("ident"@, DataValueModel::Str(e.ident)),
        ("variants"@, DataValueModel::StrSeq(e.variants)),
    ]
}

/// The record of a struct definition: its name and its fields in declared
/// order.
pub open spec fn spec_struct_record(s: StructModel) -> Seq<(Seq<char>, DataValueModel)> {
    seq![("ident"@, DataValueModel::Str(s.ident)), ("fields"@, DataValueModel::FieldSeq(s.fields))]
}

/// The record of a typedef: the aliased type's name, then the alias.
pub open spec fn spec_typedef_record(t: (Seq<char>, Seq<char>)) -> Seq<
    (Seq<char>, DataValueModel),
> {
    seq![("ty"@, DataValueModel::Str(t.0)), ("name"@, DataValueModel::Str(t.1))]
}

/// Build the record of an enum definition.
pub fn enum_record(e: Enum) -> (r: DataRecord)
    ensures
        r@ == spec_enum_record(e@),
{
    let mut entries: Vec<(String, DataValue)> = Vec::new();
    entries.push((String::from_str("ident"), DataValue::Str(e.ident)));
    entries.push((String::from_str("variants"), DataValue::StrSeq(e.variants)));
    let r = DataRecord { entries };
    proof {
        assert(r@ =~= spec_enum_record(e@));
    }
    r
}

/// Build the record of a struct definition.
pub fn struct_record(s: Struct) -> (r: DataRecord)
    ensures
        r@ == spec_struct_record(s@),
{
    let mut entries: Vec<(String, DataValue)> = Vec::new();
    entries.push((String::from_str("ident"), DataValue::Str(s.ident)));
    entries.push((String::from_str("fields"), DataValue::FieldSeq(s.fields)));
    let r = DataRecord { entries };
    proof {
        assert(r@ =~= spec_struct_record(s@));
    }
    r
}

/// Build the record of a typedef.
pub fn typedef_record(t: Typedef) -> (r: DataRecord)
    ensures
        r@ == spec_typedef_record(t@),
{
    let mut entries: Vec<(String, DataValue)> = Vec::new();
    let Typedef(ty, name) = t;
    entries.push((String::from_str("ty"), DataValue::Str(ty)));
    entries.push((String::from_str("name"), DataValue::Str(name)));
    let r = DataRecord { entries };
    proof {
        assert(r@ =~= spec_typedef_record((ty@, name@)));
    }
    r
}

/// The template names a construct kind is rendered with: one template for
/// most, and for a service three — its type definition, its client stub
/// and its server stub — in that order.
pub open spec fn spec_templates_for(k: Keyword) -> Seq<Seq<char>> {
    match k {
        Keyword::Struct => seq!["struct"@],
        Keyword::Enum => seq!["enum"@],
        Keyword::Typedef => seq!["typedef"@],
        Keyword::Const => seq!["const"@],
        Keyword::Service => seq!["service"@, "service_client"@, "service_server"@],
        _ => Seq::empty(),
    }
}

/// The template names a construct kind is rendered with.
pub fn templates_for(k: Keyword) -> (r: Vec<String>)
    ensures
        r.deep_view() == spec_templates_for(k),
{
    let mut r: Vec<String> = Vec::new();
    match k {
        Keyword::Struct => {
            r.push(String::from_str("struct"));
        },
        Keyword::Enum => {
            r.push(String::from_str("enum"));
        },
        Keyword::Typedef => {
            r.push(String::from_str("typedef"));
        },
        Keyword::Const => {
            r.push(String::from_str("const"));
        },
        Keyword::Service => {
            r.push(String::from_str("service"));
            r.push(String::from_str("service_client"));
            r.push(String::from_str("service_server"));
        },
        _ => {},
    }
    proof {
        assert(r.deep_view() =~= spec_templates_for(k));
    }
    r
}

/// The first namespace declaration whose target language is `rust`,
/// skipping declarations for other languages; a parse failure (including
/// exhausted input) before a match is propagated.
pub open spec fn spec_find_rust_namespace(m: ParserModel) -> (Result<NamespaceModel, Error>, ParserModel)
    decreases spec_measure(m)
        when m.wf()
        via spec_find_rust_namespace_decreases
{
    let (r, m1) = spec_parse_namespace(m);
    match r {
        Err(e) => (Err(Error::Parser(e)), m1),
        Ok(ns) => if ns.lang == "rust"@ {
            (Ok(ns), m1)
        } else {
            spec_find_rust_namespace(m1)
        },
    }
}

#[via_fn]
proof fn spec_find_rust_namespace_decreases(m: ParserModel) {
    lemma_parse_namespace_props(m);
}

/// Scan forward through namespace declarations until one for the `rust`
/// target is found, and hand it back.
pub fn find_rust_namespace(parser: &mut Parser) -> (r: Result<Namespace, Error>)
    requires
        old(parser)@.wf(),
        old(parser)@.ready(),
    ensures
        final(parser)@.wf(),
        final(parser)@.ready(),
        final(parser)@ == spec_find_rust_namespace(old(parser)@).1,
        (r is Ok) == (spec_find_rust_namespace(old(parser)@).0 is Ok),
        r is Ok ==> r->Ok_0@ == spec_find_rust_namespace(old(parser)@).0->Ok_0,
        r is Err ==> r->Err_0 == spec_find_rust_namespace(old(parser)@).0->Err_0,
{
    loop
        invariant
            parser@.wf(),
            parser@.ready(),
            spec_find_rust_namespace(old(parser)@) == spec_find_rust_namespace(parser@),
        decreases spec_measure(parser@),
    {
        proof {
            lemma_parse_namespace_props(parser@);
        }
        let ns = match parser.parse_namespace() {
            Ok(n) => n,
            Err(e) => {
                return Err(Error::Parser(e));
            },
        };
        if ns.lang == String::from_str("rust") {
            return Ok(ns);
        }
    }
}

/// One definition's emission: the record to render and the template to
/// render it with.
#[derive(Debug)]
pub struct Emission {
    pub template: String,
    pub data: DataRecord,
}

pub ghost struct EmissionModel {
    pub template: Seq<char>,
    pub data: Seq<(Seq<char>, DataValueModel)>,
}

impl View for Emission {
    type V = EmissionModel;

    open spec fn view(&self) -> EmissionModel {
        EmissionModel { template: self.template@, data: self.data@ }
    }
}

impl DeepView for Emission {
    type V = EmissionModel;

    open spec fn deep_view(&self) -> EmissionModel {
        self@
    }
}

/// The fixed preamble emission, rendered once before any definition.
pub open spec fn spec_base_emission() -> EmissionModel {
    EmissionModel { template: "base"@, data: Seq::empty() }
}

/// The emissions of the top-level definitions from the cursor on: one per
/// construct, in source order, ending at the first token that starts no
/// recognized construct. A construct that starts but fails to parse fails
/// the whole run.
pub open spec fn spec_definitions(m: ParserModel) -> (Result<Seq<EmissionModel>, Error>, ParserModel)
    decreases spec_measure(m)
        when m.wf()
        via spec_definitions_decreases
{
    let ms = spec_skip_b(m);
    if ms.tok == TokenModel::Keyword(Keyword::Enum) {
        let (r, m1) = spec_parse_enum(ms);
        match r {
            Err(e) => (Err(Error::Parser(e)), m1),
            Ok(en) => {
                let rest = spec_definitions(m1);
                match rest.0 {
                    Err(e) => (Err(e), rest.1),
                    Ok(es) => (
                        Ok(
                            Seq::empty().push(
                                EmissionModel { template: "enum"@, data: spec_enum_record(en) },
                            ) + es,
                        ),
                        rest.1,
                    ),
                }
            },
        }
    } else if ms.tok == TokenModel::Keyword(Keyword::Struct) {
        let (r, m1) = spec_parse_struct(ms);
        match r {
            Err(e) => (Err(Error::Parser(e)), m1),
            Ok(st) => {
                let rest = spec_definitions(m1);
                match rest.0 {
                    Err(e) => (Err(e), rest.1),
                    Ok(es) => (
                        Ok(
                            Seq::empty().push(
                                EmissionModel {
                                    template: "struct"@,
                                    data: spec_struct_record(st),
                                },
                            ) + es,
                        ),
                        rest.1,
                    ),
                }
            },
        }
    } else if ms.tok == TokenModel::Keyword(Keyword::Typedef) {
        let (r, m1) = spec_parse_typedef(ms);
        match r {
            Err(e) => (Err(Error::Parser(e)), m1),
            Ok(td) => {
                let rest = spec_definitions(m1);
                match rest.0 {
                    Err(e) => (Err(e), rest.1),
                    Ok(es) => (
                        Ok(
                            Seq::empty().push(
                                EmissionModel {
                                    template: "typedef"@,
                                    data: spec_typedef_record(td),
                                },
                            ) + es,
                        ),
                        rest.1,
                    ),
                }
            },
        }
    } else {
        (Ok(Seq::empty()), ms)
    }
}

#[via_fn]
proof fn spec_definitions_decreases(m: ParserModel) {
    lemma_skip_b_props(m);
    let ms = spec_skip_b(m);
    lemma_parse_enum_props(ms);
    lemma_parse_struct_props(ms);
    lemma_parse_typedef_props(ms);
}

/// Drive the whole generation run: the preamble emission first, then one
/// emission per recognized top-level definition in source order, stopping
/// at the first token that starts none (the normal end, not a failure);
/// any construct that starts but fails to parse fails the run with no
/// partial output. The grammar layer defines no service or const
/// construct, so those keywords end the run like any other unrecognized
/// token; `templates_for` already names the templates either would be
/// rendered with.
pub fn compile_schema(parser: &mut Parser) -> (r: Result<Vec<Emission>, Error>)
    requires
        old(parser)@.wf(),
        old(parser)@.ready(),
    ensures
        final(parser)@.wf(),
        final(parser)@.ready(),
        final(parser)@ == spec_definitions(old(parser)@).1,
        (r is Ok) == (spec_definitions(old(parser)@).0 is Ok),
        r matches Ok(es) ==> es.deep_view() == Seq::empty().push(spec_base_emission())
            + spec_definitions(old(parser)@).0->Ok_0,
        r matches Err(e) ==> e == spec_definitions(old(parser)@).0->Err_0,
{
    let mut emissions: Vec<Emission> = Vec::new();
    let base = Emission {
        template: String::from_str("base"),
        data: DataRecord { entries: Vec::new() },
    };
    proof {
        assert(base@.data =~= Seq::<(Seq<char>, DataValueModel)>::empty());
    }
    emissions.push(base);
    proof {
        assert(emissions.deep_view() =~= Seq::empty().push(spec_base_emission()));
    }
    loop
        invariant
            parser@.wf(),
            parser@.ready(),
            spec_definitions(old(parser)@).1 == spec_definitions(parser@).1,
            (spec_definitions(old(parser)@).0 is Ok) == (spec_definitions(parser@).0 is Ok),
            spec_definitions(old(parser)@).0 is Ok ==> Seq::empty().push(spec_base_emission())
                + spec_definitions(old(parser)@).0->Ok_0 == emissions.deep_view()
                + spec_definitions(parser@).0->Ok_0,
            spec_definitions(old(parser)@).0 is Err ==> spec_definitions(old(parser)@).0->Err_0
                == spec_definitions(parser@).0->Err_0,
        decreases spec_measure(parser@),
    {
        let ghost mp = parser@;
        proof {
            lemma_skip_b_props(mp);
            let ms = spec_skip_b(mp);
            lemma_parse_enum_props(ms);
            lemma_parse_struct_props(ms);
            lemma_parse_typedef_props(ms);
        }
        let ghost edv = emissions.deep_view();
        if parser.lookahead_keyword(Keyword::Enum) {
            let en = match parser.parse_enum() {
                Ok(d) => d,
                Err(e) => {
                    return Err(Error::Parser(e));
                },
            };
            let em = Emission { template: String::from_str("enum"), data: enum_record(en) };
            let ghost emv = em@;
            emissions.push(em);
            proof {
                assert(emissions.deep_view() =~= edv.push(emv));
                if spec_definitions(parser@).0 is Ok {
                    let rest = spec_definitions(parser@).0->Ok_0;
                    assert(edv + (Seq::empty().push(emv) + rest) =~= edv.push(emv) + rest);
                }
            }
        } else if parser.lookahead_keyword(Keyword::Struct) {
            let st = match parser.parse_struct() {
                Ok(d) => d,
                Err(e) => {
                    return Err(Error::Parser(e));
                },
            };
            let em = Emission { template: String::from_str("struct"), data: struct_record(st) };
            let ghost emv = em@;
            emissions.push(em);
            proof {
                assert(emissions.deep_view() =~= edv.push(emv));
                if spec_definitions(parser@).0 is Ok {
                    let rest = spec_definitions(parser@).0->Ok_0;
                    assert(edv + (Seq::empty().push(emv) + rest) =~= edv.push(emv) + rest);
                }
            }
        } else if parser.lookahead_keyword(Keyword::Typedef) {
            let td = match parser.parse_typedef() {
                Ok(d) => d,
                Err(e) => {
                    return Err(Error::Parser(e));
                },
            };
            let em = Emission { template: String::from_str("typedef"), data: typedef_record(td) };
            let ghost emv = em@;
            emissions.push(em);
            proof {
                assert(emissions.deep_view() =~= edv.push(emv));
                if spec_definitions(parser@).0 is Ok {
                    let rest = spec_definitions(parser@).0->Ok_0;
                    assert(edv + (Seq::empty().push(emv) + rest) =~= edv.push(emv) + rest);
                }
            }
        } else {
            proof {
                if spec_definitions(mp).0 is Ok {
                    assert(emissions.deep_view() + Seq::<EmissionModel>::empty()
                        =~= emissions.deep_view());
                }
            }
            return Ok(emissions);
        }
    }
}

} // verus!
