//! The tokenizer cursor and the recursive-descent parse routines.
//!
//! A `Parser` owns a borrowed source buffer, a cursor position counted in
//! characters, one token of lookahead, and a flag recording that the
//! end-of-input token has already been consumed (consuming past it is a
//! caller-contract violation, excluded by `requires` rather than reported).
use crate::scan::{
    block_end, digit_pred, ident_pred, lemma_advance_bounds, lemma_block_end, lemma_run_end,
    nonnl_pred, nonquote_pred, run_end, spec_advance, spec_next_token, spec_token_from, ws_pred,
};
use crate::scan::{lemma_digits_val_prefix, lemma_next_token_bounds};
use crate::ast::{
    Enum, EnumModel, FieldAttribute, FieldModel, Include, IncludeModel, Namespace, NamespaceModel,
    Struct, StructField, StructModel, Typedef,
};
use crate::scan::digits_val;
use crate::token::{
    classify_word, digit_char, ident_char, ident_start_char, is_digit_char, ws_char, Keyword,
    Token, TokenModel,
};
use vstd::prelude::*;

verus! {

/// The mathematical state of a parser: the source as a character sequence,
/// the cursor position, the lookahead token, and whether end-of-input has
/// been consumed.
pub ghost struct ParserModel {
    pub buf: Seq<char>,
    pub pos: int,
    pub tok: TokenModel,
    pub eof_done: bool,
}

impl ParserModel {
    /// Internal soundness of a parser state: the cursor is inside the
    /// buffer, and once end-of-input was consumed the start marker can
    /// never be the lookahead again.
    pub open spec fn wf(self) -> bool {
        &&& 0 <= self.pos <= self.buf.len()
        &&& self.buf.len() <= usize::MAX
        &&& (self.eof_done ==> self.tok != TokenModel::B)
    }

    /// End-of-input has not been over-consumed: once the end-of-input token
    /// has been consumed, it is still the lookahead. Every parse routine
    /// keeps this; only consuming the end-of-input token itself leaves it.
    pub open spec fn ready(self) -> bool {
        self.eof_done ==> self.tok == TokenModel::Eof
    }
}

/// A recoverable parse failure: a grammar mismatch, or a numeric literal
/// outside the signed 16-bit range.
#[derive(Debug, PartialEq, Eq, Structural, Clone, Copy)]
pub enum Error {
    Expected,
    NumberRange,
}

/// The lookahead and cursor after pulling the next surfaced (non-comment)
/// token, and the end-of-input flag raised once the end-of-input token
/// itself is consumed.
pub open spec fn spec_bump(m: ParserModel) -> ParserModel {
    let r = spec_advance(m.buf, m.pos);
    ParserModel {
        buf: m.buf,
        pos: r.1,
        tok: r.0,
        eof_done: m.eof_done || m.tok == TokenModel::Eof,
    }
}

/// Pull the first token when the lookahead still holds the start marker.
pub open spec fn spec_skip_b(m: ParserModel) -> ParserModel {
    if m.tok == TokenModel::B {
        spec_bump(m)
    } else {
        m
    }
}

/// Whether the (loaded) lookahead equals `t`, and the state after consuming
/// it on a match and leaving it on a mismatch.
pub open spec fn spec_eat(m: ParserModel, t: TokenModel) -> (bool, ParserModel) {
    let m1 = spec_skip_b(m);
    if m1.tok == t {
        (true, spec_bump(m1))
    } else {
        (false, m1)
    }
}

/// The spelling of the lookahead when it is an identifier, consumed; the
/// start marker is pulled past first.
pub open spec fn spec_parse_ident(m: ParserModel) -> (Result<Seq<char>, Error>, ParserModel) {
    let m1 = spec_skip_b(m);
    match m1.tok {
        TokenModel::Ident(s) => (Ok(s), spec_bump(m1)),
        _ => (Err(Error::Expected), m1),
    }
}

/// The spelling of the lookahead when it is an identifier, consumed; the
/// lookahead must already be loaded.
pub open spec fn spec_expect_ident(m: ParserModel) -> (Result<Seq<char>, Error>, ParserModel) {
    match m.tok {
        TokenModel::Ident(s) => (Ok(s), spec_bump(m)),
        _ => (Err(Error::Expected), m),
    }
}

/// The payload of the lookahead when it is a quoted string, consumed.
pub open spec fn spec_expect_string(m: ParserModel) -> (Result<Seq<char>, Error>, ParserModel) {
    match m.tok {
        TokenModel::QuotedString(s) => (Ok(s), spec_bump(m)),
        _ => (Err(Error::Expected), m),
    }
}

/// The value of the lookahead when it is a numeric literal, consumed; a
/// literal out of the 16-bit range is reported as a range error.
pub open spec fn spec_parse_number(m: ParserModel) -> (Result<int, Error>, ParserModel) {
    let m1 = spec_skip_b(m);
    match m1.tok {
        TokenModel::Number(n) => (Ok(n), spec_bump(m1)),
        TokenModel::BadNumber => (Err(Error::NumberRange), m1),
        _ => (Err(Error::Expected), m1),
    }
}

/// A strictly decreasing measure of parser progress: every consumed
/// non-end-of-input token lowers it, and no parse step raises it.
pub open spec fn spec_measure(m: ParserModel) -> int {
    2 * (m.buf.len() - m.pos) + if m.tok == TokenModel::Eof {
        0int
    } else {
        1int
    }
}

/// Pulling a token keeps the state sound, never raises the measure, and
/// strictly lowers it when the consumed lookahead was not end-of-input.
pub proof fn lemma_bump_props(m: ParserModel)
    requires
        m.wf(),
    ensures
        spec_bump(m).wf(),
        spec_bump(m).buf == m.buf,
        spec_bump(m).tok != TokenModel::B,
        spec_bump(m).tok != TokenModel::Comment,
        m.pos <= spec_bump(m).pos,
        spec_measure(spec_bump(m)) <= spec_measure(m),
        m.tok != TokenModel::Eof ==> spec_measure(spec_bump(m)) < spec_measure(m),
        !m.eof_done && m.tok != TokenModel::Eof ==> spec_bump(m).eof_done == false,
{
    lemma_advance_bounds(m.buf, m.pos);
}

/// `spec_skip_b` keeps soundness, readiness and the measure.
pub proof fn lemma_skip_b_props(m: ParserModel)
    requires
        m.wf(),
    ensures
        spec_skip_b(m).wf(),
        spec_skip_b(m).buf == m.buf,
        spec_skip_b(m).tok != TokenModel::B,
        spec_skip_b(m).eof_done == m.eof_done,
        spec_measure(spec_skip_b(m)) <= spec_measure(m),
        m.ready() ==> spec_skip_b(m).ready(),
{
    if m.tok == TokenModel::B {
        lemma_bump_props(m);
    }
}

/// `spec_eat` keeps soundness and the measure, strictly lowering it when a
/// token other than end-of-input is consumed; eating a token other than
/// end-of-input also keeps readiness and the end-of-input flag.
pub proof fn lemma_eat_props(m: ParserModel, t: TokenModel)
    requires
        m.wf(),
    ensures
        spec_eat(m, t).1.wf(),
        spec_eat(m, t).1.buf == m.buf,
        spec_measure(spec_eat(m, t).1) <= spec_measure(m),
        spec_eat(m, t).0 && t != TokenModel::Eof ==> spec_measure(spec_eat(m, t).1)
            < spec_measure(m),
        m.ready() && t != TokenModel::Eof ==> spec_eat(m, t).1.ready() && spec_eat(m, t).1.eof_done
            == m.eof_done,
{
    lemma_skip_b_props(m);
    let m1 = spec_skip_b(m);
    if m1.tok == t {
        lemma_bump_props(m1);
    }
}

/// `spec_parse_ident` keeps soundness, readiness and the measure, strictly
/// lowering the measure on success.
pub proof fn lemma_parse_ident_props(m: ParserModel)
    requires
        m.wf(),
    ensures
        spec_parse_ident(m).1.wf(),
        spec_parse_ident(m).1.buf == m.buf,
        spec_measure(spec_parse_ident(m).1) <= spec_measure(m),
        spec_parse_ident(m).0 is Ok ==> spec_measure(spec_parse_ident(m).1) < spec_measure(m),
        m.ready() ==> spec_parse_ident(m).1.ready() && spec_parse_ident(m).1.eof_done
            == m.eof_done,
{
    lemma_skip_b_props(m);
    let m1 = spec_skip_b(m);
    if m1.tok is Ident {
        lemma_bump_props(m1);
    }
}

impl<'a> Parser<'a> {
    /// Pull the next surfaced token into the lookahead, skipping comments,
    /// which are never meaningful lookahead. Consuming past an already
    /// consumed end-of-input is a caller-contract violation, excluded here
    /// by `requires`.
    pub fn bump(&mut self)
        requires
            old(self)@.wf(),
            !old(self)@.eof_done,
        ensures
            final(self)@.wf(),
            final(self)@ == spec_bump(old(self)@),
    {
        proof {
            lemma_bump_props(old(self)@);
        }
        if matches!(self.token, Token::Eof) {
            self.last_token_eof = true;
        }
        let ghost buf = self@.buf;
        let ghost pos0 = self@.pos;
        loop
            invariant_except_break
                self@.tok == old(self)@.tok,
                spec_advance(buf, pos0) == spec_advance(buf, self@.pos),
            invariant
                self@.wf(),
                self@.buf == buf,
                buf == old(self)@.buf,
                pos0 == old(self)@.pos,
                self@.eof_done == (old(self)@.eof_done || old(self)@.tok == TokenModel::Eof),
                pos0 <= self@.pos <= buf.len(),
            ensures
                self@ == spec_bump(old(self)@),
            decreases buf.len() - self@.pos,
        {
            proof {
                lemma_next_token_bounds(buf, self@.pos);
            }
            let ghost pre = self@.pos;
            let t = self.next_token();
            if matches!(t, Token::Comment) {
                proof {
                    lemma_advance_bounds(buf, pre);
                }
            } else {
                proof {
                    assert(!(t is Comment));
                    assert(t@ != TokenModel::Comment);
                    assert(spec_advance(buf, pre) == spec_next_token(buf, pre));
                }
                self.token = t;
                break ;
            }
        }
    }

    /// Pull the first token when the lookahead still holds the start
    /// marker.
    pub fn skip_b(&mut self)
        requires
            old(self)@.wf(),
        ensures
            final(self)@.wf(),
            final(self)@ == spec_skip_b(old(self)@),
    {
        if matches!(self.token, Token::B) {
            self.bump();
        }
    }

    /// Compare the lookahead to `token`; consume it and answer true on a
    /// match, leave it untouched and answer false otherwise.
    pub fn eat(&mut self, token: &Token) -> (r: bool)
        requires
            old(self)@.wf(),
            old(self)@.eof_done ==> old(self)@.tok != token@,
        ensures
            final(self)@.wf(),
            r == spec_eat(old(self)@, token@).0,
            final(self)@ == spec_eat(old(self)@, token@).1,
    {
        if matches!(self.token, Token::B) {
            self.bump();
        }
        if self.token == *token {
            self.bump();
            true
        } else {
            false
        }
    }

    /// Like `eat`, but a mismatch is a parse failure; a match hands back
    /// the lookahead that follows the consumed token.
    pub fn expect(&mut self, token: &Token) -> (r: Result<Token, Error>)
        requires
            old(self)@.wf(),
            old(self)@.eof_done ==> old(self)@.tok != token@,
        ensures
            final(self)@.wf(),
            final(self)@ == spec_eat(old(self)@, token@).1,
            spec_eat(old(self)@, token@).0 ==> r is Ok && r->Ok_0@ == final(self)@.tok,
            !spec_eat(old(self)@, token@).0 ==> r == Err::<Token, Error>(Error::Expected),
    {
        if !self.eat(token) {
            Err(Error::Expected)
        } else {
            Ok(self.token.clone())
        }
    }

    /// `eat` on a keyword token.
    pub fn eat_keyword(&mut self, keyword: Keyword) -> (r: bool)
        requires
            old(self)@.wf(),
            old(self)@.eof_done ==> old(self)@.tok != TokenModel::Keyword(keyword),
        ensures
            final(self)@.wf(),
            r == spec_eat(old(self)@, TokenModel::Keyword(keyword)).0,
            final(self)@ == spec_eat(old(self)@, TokenModel::Keyword(keyword)).1,
    {
        self.eat(&Token::Keyword(keyword))
    }

    /// `expect` on a keyword token.
    pub fn expect_keyword(&mut self, keyword: Keyword) -> (r: Result<(), Error>)
        requires
            old(self)@.wf(),
            old(self)@.eof_done ==> old(self)@.tok != TokenModel::Keyword(keyword),
        ensures
            final(self)@.wf(),
            final(self)@ == spec_eat(old(self)@, TokenModel::Keyword(keyword)).1,
            r == (if spec_eat(old(self)@, TokenModel::Keyword(keyword)).0 {
                Ok::<(), Error>(())
            } else {
                Err(Error::Expected)
            }),
    {
        if !self.eat_keyword(keyword) {
            return Err(Error::Expected);
        }
        Ok(())
    }

    /// Non-consuming peek: whether the next meaningful token is the given
    /// keyword; used to decide which top-level parse routine applies.
    pub fn lookahead_keyword(&mut self, keyword: Keyword) -> (r: bool)
        requires
            old(self)@.wf(),
        ensures
            final(self)@.wf(),
            final(self)@ == spec_skip_b(old(self)@),
            r == (spec_skip_b(old(self)@).tok == TokenModel::Keyword(keyword)),
    {
        self.skip_b();
        self.token == Token::Keyword(keyword)
    }

    /// The spelling of the lookahead identifier, consumed; the start marker
    /// is pulled past first.
    pub fn parse_ident(&mut self) -> (r: Result<String, Error>)
        requires
            old(self)@.wf(),
            old(self)@.ready(),
        ensures
            final(self)@.wf(),
            final(self)@.ready(),
            final(self)@ == spec_parse_ident(old(self)@).1,
            (r is Ok) == (spec_parse_ident(old(self)@).0 is Ok),
            r is Ok ==> r->Ok_0@ == spec_parse_ident(old(self)@).0->Ok_0,
            r is Err ==> r->Err_0 == spec_parse_ident(old(self)@).0->Err_0,
    {
        proof {
            lemma_parse_ident_props(old(self)@);
        }
        if matches!(self.token, Token::B) {
            self.bump();
        }
        let val = match &self.token {
            Token::Ident(s) => s.clone(),
            _ => {
                return Err(Error::Expected);
            },
        };
        self.bump();
        Ok(val)
    }

    /// The spelling of the lookahead identifier, consumed; fails on any
    /// other lookahead, the start marker included.
    pub fn expect_ident(&mut self) -> (r: Result<String, Error>)
        requires
            old(self)@.wf(),
            old(self)@.ready(),
        ensures
            final(self)@.wf(),
            final(self)@.ready(),
            final(self)@ == spec_expect_ident(old(self)@).1,
            (r is Ok) == (spec_expect_ident(old(self)@).0 is Ok),
            r is Ok ==> r->Ok_0@ == spec_expect_ident(old(self)@).0->Ok_0,
            r is Err ==> r->Err_0 == spec_expect_ident(old(self)@).0->Err_0,
    {
        let val = match &self.token {
            Token::Ident(s) => s.clone(),
            _ => {
                return Err(Error::Expected);
            },
        };
        self.bump();
        Ok(val)
    }

    /// The payload of the lookahead quoted string, consumed.
    pub fn expect_string(&mut self) -> (r: Result<String, Error>)
        requires
            old(self)@.wf(),
            old(self)@.ready(),
        ensures
            final(self)@.wf(),
            final(self)@.ready(),
            final(self)@ == spec_expect_string(old(self)@).1,
            (r is Ok) == (spec_expect_string(old(self)@).0 is Ok),
            r is Ok ==> r->Ok_0@ == spec_expect_string(old(self)@).0->Ok_0,
            r is Err ==> r->Err_0 == spec_expect_string(old(self)@).0->Err_0,
    {
        let val = match &self.token {
            Token::QuotedString(s) => s.clone(),
            _ => {
                return Err(Error::Expected);
            },
        };
        self.bump();
        Ok(val)
    }

    /// One struct field: `<number> : (optional|required) <type> <name>`,
    /// in that fixed order; a missing attribute keyword is a parse
    /// failure, not a default.
    pub fn parse_struct_field(&mut self) -> (r: Result<StructField, Error>)
        requires
            old(self)@.wf(),
            old(self)@.ready(),
        ensures
            final(self)@.wf(),
            final(self)@.ready(),
            final(self)@ == spec_parse_struct_field(old(self)@).1,
            (r is Ok) == (spec_parse_struct_field(old(self)@).0 is Ok),
            r is Ok ==> r->Ok_0@ == spec_parse_struct_field(old(self)@).0->Ok_0,
            r is Err ==> r->Err_0 == spec_parse_struct_field(old(self)@).0->Err_0,
    {
        proof {
            lemma_parse_number_props(old(self)@);
            let m1 = spec_parse_number(old(self)@).1;
            lemma_eat_props(m1, TokenModel::Colon);
            let m2 = spec_eat(m1, TokenModel::Colon).1;
            lemma_eat_props(m2, TokenModel::Keyword(Keyword::Optional));
            let m3 = spec_eat(m2, TokenModel::Keyword(Keyword::Optional)).1;
            lemma_eat_props(m3, TokenModel::Keyword(Keyword::Required));
            let m4 = spec_eat(m3, TokenModel::Keyword(Keyword::Required)).1;
            lemma_parse_ident_props(m3);
            lemma_parse_ident_props(spec_parse_ident(m3).1);
            lemma_parse_ident_props(m4);
            lemma_parse_ident_props(spec_parse_ident(m4).1);
        }
        let seq = match self.parse_number() {
            Ok(n) => n,
            Err(e) => {
                return Err(e);
            },
        };
        match self.expect(&Token::Colon) {
            Ok(_) => {},
            Err(e) => {
                return Err(e);
            },
        }
        let attr = if self.eat_keyword(Keyword::Optional) {
            FieldAttribute::Optional
        } else if self.eat_keyword(Keyword::Required) {
            FieldAttribute::Required
        } else {
            return Err(Error::Expected);
        };
        let ty = match self.parse_ident() {
            Ok(s) => s,
            Err(e) => {
                return Err(e);
            },
        };
        let ident = match self.parse_ident() {
            Ok(s) => s,
            Err(e) => {
                return Err(e);
            },
        };
        Ok(StructField { seq: seq, attr: attr, ty: ty, ident: ident })
    }

    /// A whole enum definition: `enum <name> { <v> (, <v>)* }`, the body
    /// possibly empty, a missing separator ending the list at the closing
    /// brace.
    pub fn parse_enum(&mut self) -> (r: Result<Enum, Error>)
        requires
            old(self)@.wf(),
            old(self)@.ready(),
        ensures
            final(self)@.wf(),
            final(self)@.ready(),
            final(self)@ == spec_parse_enum(old(self)@).1,
            (r is Ok) == (spec_parse_enum(old(self)@).0 is Ok),
            r is Ok ==> r->Ok_0@ == spec_parse_enum(old(self)@).0->Ok_0,
            r is Err ==> r->Err_0 == spec_parse_enum(old(self)@).0->Err_0,
    {
        proof {
            lemma_eat_props(old(self)@, TokenModel::Keyword(Keyword::Enum));
            let m1 = spec_eat(old(self)@, TokenModel::Keyword(Keyword::Enum)).1;
            lemma_expect_ident_props(m1);
            let m2 = spec_expect_ident(m1).1;
            lemma_eat_props(m2, TokenModel::LCurly);
        }
        if !self.eat_keyword(Keyword::Enum) {
            return Err(Error::Expected);
        }
        let ident = match self.expect_ident() {
            Ok(s) => s,
            Err(e) => {
                return Err(e);
            },
        };
        if !self.eat(&Token::LCurly) {
            return Err(Error::Expected);
        }
        let ghost m0 = self@;
        let mut variants: Vec<String> = Vec::new();
        proof {
            assert(variants.deep_view() =~= Seq::<Seq<char>>::empty());
            if spec_enum_items(m0).0 is Ok {
                assert(variants.deep_view() + spec_enum_items(m0).0->Ok_0 =~= spec_enum_items(
                    m0,
                ).0->Ok_0);
            }
        }
        loop
            invariant
                self@.wf(),
                self@.ready(),
                spec_parse_enum(old(self)@).1 == spec_enum_items(self@).1,
                (spec_parse_enum(old(self)@).0 is Ok) == (spec_enum_items(self@).0 is Ok),
                spec_parse_enum(old(self)@).0 is Ok ==> spec_parse_enum(old(self)@).0->Ok_0
                    == (EnumModel {
                    ident: ident@,
                    variants: variants.deep_view() + spec_enum_items(self@).0->Ok_0,
                }),
                spec_parse_enum(old(self)@).0 is Err ==> spec_parse_enum(old(self)@).0->Err_0
                    == spec_enum_items(self@).0->Err_0,
            decreases spec_measure(self@),
        {
            let ghost mp = self@;
            proof {
                lemma_eat_props(mp, TokenModel::RCurly);
                let m1 = spec_eat(mp, TokenModel::RCurly).1;
                lemma_parse_ident_props(m1);
                let m2 = spec_parse_ident(m1).1;
                lemma_eat_props(m2, TokenModel::Comma);
                let m3 = spec_eat(m2, TokenModel::Comma).1;
                lemma_eat_props(m3, TokenModel::RCurly);
            }
            if self.eat(&Token::RCurly) {
                proof {
                    assert(variants.deep_view() + Seq::<Seq<char>>::empty()
                        =~= variants.deep_view());
                }
                return Ok(Enum { ident: ident, variants: variants });
            }
            let v = match self.parse_ident() {
                Ok(s) => s,
                Err(e) => {
                    return Err(e);
                },
            };
            let ghost vdv = variants.deep_view();
            variants.push(v);
            proof {
                assert(variants.deep_view() =~= vdv.push(v@));
            }
            if !self.eat(&Token::Comma) {
                if self.eat(&Token::RCurly) {
                    proof {
                        assert(vdv + Seq::<Seq<char>>::empty().push(v@) =~= variants.deep_view());
                    }
                    return Ok(Enum { ident: ident, variants: variants });
                }
                return Err(Error::Expected);
            }
            proof {
                if spec_enum_items(self@).0 is Ok {
                    let rest = spec_enum_items(self@).0->Ok_0;
                    assert(vdv + (Seq::<Seq<char>>::empty().push(v@) + rest) =~= vdv.push(v@)
                        + rest);
                }
            }
        }
    }

    /// A whole struct definition: `struct <name> { <field> (; <field>)* }`,
    /// the body possibly empty, a missing separator ending the list at the
    /// closing brace.
    pub fn parse_struct(&mut self) -> (r: Result<Struct, Error>)
        requires
            old(self)@.wf(),
            old(self)@.ready(),
        ensures
            final(self)@.wf(),
            final(self)@.ready(),
            final(self)@ == spec_parse_struct(old(self)@).1,
            (r is Ok) == (spec_parse_struct(old(self)@).0 is Ok),
            r is Ok ==> r->Ok_0@ == spec_parse_struct(old(self)@).0->Ok_0,
            r is Err ==> r->Err_0 == spec_parse_struct(old(self)@).0->Err_0,
    {
        proof {
            lemma_eat_props(old(self)@, TokenModel::Keyword(Keyword::Struct));
            let m1 = spec_eat(old(self)@, TokenModel::Keyword(Keyword::Struct)).1;
            lemma_expect_ident_props(m1);
            let m2 = spec_expect_ident(m1).1;
            lemma_eat_props(m2, TokenModel::LCurly);
        }
        if !self.eat_keyword(Keyword::Struct) {
            return Err(Error::Expected);
        }
        let ident = match self.expect_ident() {
            Ok(s) => s,
            Err(e) => {
                return Err(e);
            },
        };
        if !self.eat(&Token::LCurly) {
            return Err(Error::Expected);
        }
        let ghost m0 = self@;
        let mut fields: Vec<StructField> = Vec::new();
        proof {
            assert(fields@.map_values(|f: StructField| f@) =~= Seq::<FieldModel>::empty());
            if spec_struct_fields(m0).0 is Ok {
                assert(fields@.map_values(|f: StructField| f@) + spec_struct_fields(m0).0->Ok_0
                    =~= spec_struct_fields(m0).0->Ok_0);
            }
        }
        loop
            invariant
                self@.wf(),
                self@.ready(),
                spec_parse_struct(old(self)@).1 == spec_struct_fields(self@).1,
                (spec_parse_struct(old(self)@).0 is Ok) == (spec_struct_fields(self@).0 is Ok),
                spec_parse_struct(old(self)@).0 is Ok ==> spec_parse_struct(old(self)@).0->Ok_0
                    == (StructModel {
                    ident: ident@,
                    fields: fields@.map_values(|f: StructField| f@) + spec_struct_fields(
                        self@,
                    ).0->Ok_0,
                }),
                spec_parse_struct(old(self)@).0 is Err ==> spec_parse_struct(old(self)@).0->Err_0
                    == spec_struct_fields(self@).0->Err_0,
            decreases spec_measure(self@),
        {
            let ghost mp = self@;
            proof {
                lemma_eat_props(mp, TokenModel::RCurly);
                let m1 = spec_eat(mp, TokenModel::RCurly).1;
                lemma_parse_field_props(m1);
                let m2 = spec_parse_struct_field(m1).1;
                lemma_eat_props(m2, TokenModel::Semi);
                let m3 = spec_eat(m2, TokenModel::Semi).1;
                lemma_eat_props(m3, TokenModel::RCurly);
            }
            if self.eat(&Token::RCurly) {
                proof {
                    assert(fields@.map_values(|f: StructField| f@) + Seq::<FieldModel>::empty()
                        =~= fields@.map_values(|f: StructField| f@));
                }
                return Ok(Struct { ident: ident, fields: fields });
            }
            let f = match self.parse_struct_field() {
                Ok(f) => f,
                Err(e) => {
                    return Err(e);
                },
            };
            let ghost fdv = fields@.map_values(|x: StructField| x@);
            let ghost fv = f@;
            fields.push(f);
            proof {
                assert(fields@.map_values(|x: StructField| x@) =~= fdv.push(fv));
                assert(fields@.map_values(|f: StructField| f@) == fields@.map_values(
                    |x: StructField| x@,
                ));
            }
            if !self.eat(&Token::Semi) {
                if self.eat(&Token::RCurly) {
                    proof {
                        assert(fdv + Seq::<FieldModel>::empty().push(fv) =~= fields@.map_values(
                            |f: StructField| f@,
                        ));
                    }
                    return Ok(Struct { ident: ident, fields: fields });
                }
                return Err(Error::Expected);
            }
            proof {
                if spec_struct_fields(self@).0 is Ok {
                    let rest = spec_struct_fields(self@).0->Ok_0;
                    assert(fdv + (Seq::<FieldModel>::empty().push(fv) + rest) =~= fdv.push(fv)
                        + rest);
                }
            }
        }
    }

    /// A typedef: the aliased type's name, then the alias, as an ordered
    /// pair.
    pub fn parse_typedef(&mut self) -> (r: Result<Typedef, Error>)
        requires
            old(self)@.wf(),
            old(self)@.ready(),
        ensures
            final(self)@.wf(),
            final(self)@.ready(),
            final(self)@ == spec_parse_typedef(old(self)@).1,
            (r is Ok) == (spec_parse_typedef(old(self)@).0 is Ok),
            r is Ok ==> r->Ok_0@ == spec_parse_typedef(old(self)@).0->Ok_0,
            r is Err ==> r->Err_0 == spec_parse_typedef(old(self)@).0->Err_0,
    {
        proof {
            lemma_eat_props(old(self)@, TokenModel::Keyword(Keyword::Typedef));
            let m1 = spec_eat(old(self)@, TokenModel::Keyword(Keyword::Typedef)).1;
            lemma_expect_ident_props(m1);
            let m2 = spec_expect_ident(m1).1;
            lemma_expect_ident_props(m2);
        }
        match self.expect_keyword(Keyword::Typedef) {
            Ok(_) => {},
            Err(e) => {
                return Err(e);
            },
        }
        let a = match self.expect_ident() {
            Ok(s) => s,
            Err(e) => {
                return Err(e);
            },
        };
        let b = match self.expect_ident() {
            Ok(s) => s,
            Err(e) => {
                return Err(e);
            },
        };
        Ok(Typedef(a, b))
    }

    /// A namespace declaration: the target-language tag, then the module
    /// name generated code should use for that language.
    pub fn parse_namespace(&mut self) -> (r: Result<Namespace, Error>)
        requires
            old(self)@.wf(),
            old(self)@.ready(),
        ensures
            final(self)@.wf(),
            final(self)@.ready(),
            final(self)@ == spec_parse_namespace(old(self)@).1,
            (r is Ok) == (spec_parse_namespace(old(self)@).0 is Ok),
            r is Ok ==> r->Ok_0@ == spec_parse_namespace(old(self)@).0->Ok_0,
            r is Err ==> r->Err_0 == spec_parse_namespace(old(self)@).0->Err_0,
    {
        proof {
            lemma_eat_props(old(self)@, TokenModel::Keyword(Keyword::Namespace));
            let m1 = spec_eat(old(self)@, TokenModel::Keyword(Keyword::Namespace)).1;
            lemma_expect_ident_props(m1);
            let m2 = spec_expect_ident(m1).1;
            lemma_expect_ident_props(m2);
        }
        match self.expect_keyword(Keyword::Namespace) {
            Ok(_) => {},
            Err(e) => {
                return Err(e);
            },
        }
        let lang = match self.expect_ident() {
            Ok(s) => s,
            Err(e) => {
                return Err(e);
            },
        };
        let module = match self.expect_ident() {
            Ok(s) => s,
            Err(e) => {
                return Err(e);
            },
        };
        Ok(Namespace { lang: lang, module: module })
    }

    /// An include directive: the quoted path of the referenced schema
    /// file, unvalidated.
    pub fn parse_include(&mut self) -> (r: Result<Include, Error>)
        requires
            old(self)@.wf(),
            old(self)@.ready(),
        ensures
            final(self)@.wf(),
            final(self)@.ready(),
            final(self)@ == spec_parse_include(old(self)@).1,
            (r is Ok) == (spec_parse_include(old(self)@).0 is Ok),
            r is Ok ==> r->Ok_0@ == spec_parse_include(old(self)@).0->Ok_0,
            r is Err ==> r->Err_0 == spec_parse_include(old(self)@).0->Err_0,
    {
        proof {
            lemma_eat_props(old(self)@, TokenModel::Keyword(Keyword::Include));
            let m1 = spec_eat(old(self)@, TokenModel::Keyword(Keyword::Include)).1;
            lemma_expect_string_props(m1);
        }
        match self.expect_keyword(Keyword::Include) {
            Ok(_) => {},
            Err(e) => {
                return Err(e);
            },
        }
        let path = match self.expect_string() {
            Ok(s) => s,
            Err(e) => {
                return Err(e);
            },
        };
        Ok(Include { path: path })
    }

    /// The value of the lookahead numeric literal, consumed. A literal out
    /// of the signed 16-bit range is a `NumberRange` failure, any other
    /// lookahead an `Expected` failure.
    pub fn parse_number(&mut self) -> (r: Result<i16, Error>)
        requires
            old(self)@.wf(),
            old(self)@.ready(),
        ensures
            final(self)@.wf(),
            final(self)@.ready(),
            final(self)@ == spec_parse_number(old(self)@).1,
            (r is Ok) == (spec_parse_number(old(self)@).0 is Ok),
            r is Ok ==> r->Ok_0 as int == spec_parse_number(old(self)@).0->Ok_0,
            r is Err ==> r->Err_0 == spec_parse_number(old(self)@).0->Err_0,
    {
        self.skip_b();
        let val = match &self.token {
            Token::Number(n) => *n,
            Token::BadNumber => {
                return Err(Error::NumberRange);
            },
            _ => {
                return Err(Error::Expected);
            },
        };
        self.bump();
        Ok(val)
    }
}

/// One struct field: `<number> : (optional|required) <type> <name>`, in
/// that fixed order; the attribute keyword is mandatory.
pub open spec fn spec_parse_struct_field(m: ParserModel) -> (Result<FieldModel, Error>, ParserModel) {
    let (nr, m1) = spec_parse_number(m);
    match nr {
        Err(e) => (Err(e), m1),
        Ok(n) => {
            let (colon, m2) = spec_eat(m1, TokenModel::Colon);
            if !colon {
                (Err(Error::Expected), m2)
            } else {
                let (opt, m3) = spec_eat(m2, TokenModel::Keyword(Keyword::Optional));
                if opt {
                    spec_field_tail(m3, n, FieldAttribute::Optional)
                } else {
                    let (req, m4) = spec_eat(m3, TokenModel::Keyword(Keyword::Required));
                    if req {
                        spec_field_tail(m4, n, FieldAttribute::Required)
                    } else {
                        (Err(Error::Expected), m4)
                    }
                }
            }
        },
    }
}

/// The type and name identifiers that close a struct field.
pub open spec fn spec_field_tail(m: ParserModel, n: int, attr: FieldAttribute) -> (
    Result<FieldModel, Error>,
    ParserModel,
) {
    let (tyr, m1) = spec_parse_ident(m);
    match tyr {
        Err(e) => (Err(e), m1),
        Ok(ty) => {
            let (idr, m2) = spec_parse_ident(m1);
            match idr {
                Err(e) => (Err(e), m2),
                Ok(id) => (Ok(FieldModel { seq: n, attr: attr, ty: ty, ident: id }), m2),
            }
        },
    }
}

/// `spec_parse_number` keeps soundness, readiness and the measure,
/// strictly lowering the measure on success.
pub proof fn lemma_parse_number_props(m: ParserModel)
    requires
        m.wf(),
    ensures
        spec_parse_number(m).1.wf(),
        spec_parse_number(m).1.buf == m.buf,
        spec_measure(spec_parse_number(m).1) <= spec_measure(m),
        spec_parse_number(m).0 is Ok ==> spec_measure(spec_parse_number(m).1) < spec_measure(m),
        m.ready() ==> spec_parse_number(m).1.ready() && spec_parse_number(m).1.eof_done
            == m.eof_done,
{
    lemma_skip_b_props(m);
    let m1 = spec_skip_b(m);
    if m1.tok is Number {
        lemma_bump_props(m1);
    }
}

/// `spec_expect_ident` keeps soundness, readiness and the measure,
/// strictly lowering the measure on success.
pub proof fn lemma_expect_ident_props(m: ParserModel)
    requires
        m.wf(),
    ensures
        spec_expect_ident(m).1.wf(),
        spec_expect_ident(m).1.buf == m.buf,
        spec_measure(spec_expect_ident(m).1) <= spec_measure(m),
        spec_expect_ident(m).0 is Ok ==> spec_measure(spec_expect_ident(m).1) < spec_measure(m),
        m.ready() ==> spec_expect_ident(m).1.ready() && spec_expect_ident(m).1.eof_done
            == m.eof_done,
{
    if m.tok is Ident {
        lemma_bump_props(m);
    }
}

/// `spec_expect_string` keeps soundness, readiness and the measure.
pub proof fn lemma_expect_string_props(m: ParserModel)
    requires
        m.wf(),
    ensures
        spec_expect_string(m).1.wf(),
        spec_expect_string(m).1.buf == m.buf,
        spec_measure(spec_expect_string(m).1) <= spec_measure(m),
        m.ready() ==> spec_expect_string(m).1.ready() && spec_expect_string(m).1.eof_done
            == m.eof_done,
{
    if m.tok is QuotedString {
        lemma_bump_props(m);
    }
}

/// `spec_parse_struct_field` keeps soundness, readiness and the measure,
/// strictly lowering the measure on success.
pub proof fn lemma_parse_field_props(m: ParserModel)
    requires
        m.wf(),
    ensures
        spec_parse_struct_field(m).1.wf(),
        spec_parse_struct_field(m).1.buf == m.buf,
        spec_measure(spec_parse_struct_field(m).1) <= spec_measure(m),
        spec_parse_struct_field(m).0 is Ok ==> spec_measure(spec_parse_struct_field(m).1)
            < spec_measure(m),
        m.ready() ==> spec_parse_struct_field(m).1.ready() && spec_parse_struct_field(m).1.eof_done
            == m.eof_done,
{
    lemma_parse_number_props(m);
    let m1 = spec_parse_number(m).1;
    lemma_eat_props(m1, TokenModel::Colon);
    let m2 = spec_eat(m1, TokenModel::Colon).1;
    lemma_eat_props(m2, TokenModel::Keyword(Keyword::Optional));
    let m3 = spec_eat(m2, TokenModel::Keyword(Keyword::Optional)).1;
    lemma_eat_props(m3, TokenModel::Keyword(Keyword::Required));
    let m4 = spec_eat(m3, TokenModel::Keyword(Keyword::Required)).1;
    lemma_parse_ident_props(m3);
    lemma_parse_ident_props(spec_parse_ident(m3).1);
    lemma_parse_ident_props(m4);
    lemma_parse_ident_props(spec_parse_ident(m4).1);
}

/// The items of an enum body: variants separated by commas, closed by a
/// brace; after a variant without a separator the closing brace is
/// required.
pub open spec fn spec_enum_items(m: ParserModel) -> (Result<Seq<Seq<char>>, Error>, ParserModel)
    decreases spec_measure(m)
        when m.wf()
        via spec_enum_items_decreases
{
    let (close, m1) = spec_eat(m, TokenModel::RCurly);
    if close {
        (Ok(Seq::empty()), m1)
    } else {
        let (vr, m2) = spec_parse_ident(m1);
        match vr {
            Err(e) => (Err(e), m2),
            Ok(v) => {
                let (comma, m3) = spec_eat(m2, TokenModel::Comma);
                if comma {
                    let rest = spec_enum_items(m3);
                    match rest.0 {
                        Ok(vs) => (Ok(Seq::empty().push(v) + vs), rest.1),
                        Err(e) => (Err(e), rest.1),
                    }
                } else {
                    let (close2, m4) = spec_eat(m3, TokenModel::RCurly);
                    if close2 {
                        (Ok(Seq::empty().push(v)), m4)
                    } else {
                        (Err(Error::Expected), m4)
                    }
                }
            },
        }
    }
}

#[via_fn]
proof fn spec_enum_items_decreases(m: ParserModel) {
    lemma_eat_props(m, TokenModel::RCurly);
    let m1 = spec_eat(m, TokenModel::RCurly).1;
    lemma_parse_ident_props(m1);
    let m2 = spec_parse_ident(m1).1;
    lemma_eat_props(m2, TokenModel::Comma);
}

/// A whole enum definition.
pub open spec fn spec_parse_enum(m: ParserModel) -> (Result<EnumModel, Error>, ParserModel) {
    let (kw, m1) = spec_eat(m, TokenModel::Keyword(Keyword::Enum));
    if !kw {
        (Err(Error::Expected), m1)
    } else {
        let (ir, m2) = spec_expect_ident(m1);
        match ir {
            Err(e) => (Err(e), m2),
            Ok(id) => {
                let (open_brace, m3) = spec_eat(m2, TokenModel::LCurly);
                if !open_brace {
                    (Err(Error::Expected), m3)
                } else {
                    let items = spec_enum_items(m3);
                    match items.0 {
                        Ok(vs) => (Ok(EnumModel { ident: id, variants: vs }), items.1),
                        Err(e) => (Err(e), items.1),
                    }
                }
            },
        }
    }
}

/// The items of a struct body: fields separated by semicolons, closed by a
/// brace; after a field without a separator the closing brace is required.
pub open spec fn spec_struct_fields(m: ParserModel) -> (Result<Seq<FieldModel>, Error>, ParserModel)
    decreases spec_measure(m)
        when m.wf()
        via spec_struct_fields_decreases
{
    let (close, m1) = spec_eat(m, TokenModel::RCurly);
    if close {
        (Ok(Seq::empty()), m1)
    } else {
        let (fr, m2) = spec_parse_struct_field(m1);
        match fr {
            Err(e) => (Err(e), m2),
            Ok(f) => {
                let (semi, m3) = spec_eat(m2, TokenModel::Semi);
                if semi {
                    let rest = spec_struct_fields(m3);
                    match rest.0 {
                        Ok(fs) => (Ok(Seq::empty().push(f) + fs), rest.1),
                        Err(e) => (Err(e), rest.1),
                    }
                } else {
                    let (close2, m4) = spec_eat(m3, TokenModel::RCurly);
                    if close2 {
                        (Ok(Seq::empty().push(f)), m4)
                    } else {
                        (Err(Error::Expected), m4)
                    }
                }
            },
        }
    }
}

#[via_fn]
proof fn spec_struct_fields_decreases(m: ParserModel) {
    lemma_eat_props(m, TokenModel::RCurly);
    let m1 = spec_eat(m, TokenModel::RCurly).1;
    lemma_parse_field_props(m1);
    let m2 = spec_parse_struct_field(m1).1;
    lemma_eat_props(m2, TokenModel::Semi);
}

/// A whole struct definition.
pub open spec fn spec_parse_struct(m: ParserModel) -> (Result<StructModel, Error>, ParserModel) {
    let (kw, m1) = spec_eat(m, TokenModel::Keyword(Keyword::Struct));
    if !kw {
        (Err(Error::Expected), m1)
    } else {
        let (ir, m2) = spec_expect_ident(m1);
        match ir {
            Err(e) => (Err(e), m2),
            Ok(id) => {
                let (open_brace, m3) = spec_eat(m2, TokenModel::LCurly);
                if !open_brace {
                    (Err(Error::Expected), m3)
                } else {
                    let items = spec_struct_fields(m3);
                    match items.0 {
                        Ok(fs) => (Ok(StructModel { ident: id, fields: fs }), items.1),
                        Err(e) => (Err(e), items.1),
                    }
                }
            },
        }
    }
}

/// A typedef: the aliased type's name, then the alias.
pub open spec fn spec_parse_typedef(m: ParserModel) -> (
    Result<(Seq<char>, Seq<char>), Error>,
    ParserModel,
) {
    let (kw, m1) = spec_eat(m, TokenModel::Keyword(Keyword::Typedef));
    if !kw {
        (Err(Error::Expected), m1)
    } else {
        let (ar, m2) = spec_expect_ident(m1);
        match ar {
            Err(e) => (Err(e), m2),
            Ok(a) => {
                let (br, m3) = spec_expect_ident(m2);
                match br {
                    Err(e) => (Err(e), m3),
                    Ok(b) => (Ok((a, b)), m3),
                }
            },
        }
    }
}

/// A namespace declaration: the target-language tag, then the module name.
pub open spec fn spec_parse_namespace(m: ParserModel) -> (Result<NamespaceModel, Error>, ParserModel) {
    let (kw, m1) = spec_eat(m, TokenModel::Keyword(Keyword::Namespace));
    if !kw {
        (Err(Error::Expected), m1)
    } else {
        let (lr, m2) = spec_expect_ident(m1);
        match lr {
            Err(e) => (Err(e), m2),
            Ok(lang) => {
                let (mr, m3) = spec_expect_ident(m2);
                match mr {
                    Err(e) => (Err(e), m3),
                    Ok(module) => (Ok(NamespaceModel { lang: lang, module: module }), m3),
                }
            },
        }
    }
}

/// An include directive: the quoted path of the referenced schema file.
pub open spec fn spec_parse_include(m: ParserModel) -> (Result<IncludeModel, Error>, ParserModel) {
    let (kw, m1) = spec_eat(m, TokenModel::Keyword(Keyword::Include));
    if !kw {
        (Err(Error::Expected), m1)
    } else {
        let (pr, m2) = spec_expect_string(m1);
        match pr {
            Err(e) => (Err(e), m2),
            Ok(p) => (Ok(IncludeModel { path: p }), m2),
        }
    }
}

/// `spec_parse_namespace` keeps soundness, readiness and the measure,
/// strictly lowering the measure on success.
pub proof fn lemma_parse_namespace_props(m: ParserModel)
    requires
        m.wf(),
    ensures
        spec_parse_namespace(m).1.wf(),
        spec_parse_namespace(m).1.buf == m.buf,
        spec_measure(spec_parse_namespace(m).1) <= spec_measure(m),
        spec_parse_namespace(m).0 is Ok ==> spec_measure(spec_parse_namespace(m).1)
            < spec_measure(m),
        m.ready() ==> spec_parse_namespace(m).1.ready() && spec_parse_namespace(m).1.eof_done
            == m.eof_done,
{
    lemma_eat_props(m, TokenModel::Keyword(Keyword::Namespace));
    let m1 = spec_eat(m, TokenModel::Keyword(Keyword::Namespace)).1;
    lemma_expect_ident_props(m1);
    let m2 = spec_expect_ident(m1).1;
    lemma_expect_ident_props(m2);
}

/// `spec_enum_items` keeps soundness, readiness and the measure.
pub proof fn lemma_enum_items_props(m: ParserModel)
    requires
        m.wf(),
    ensures
        spec_enum_items(m).1.wf(),
        spec_enum_items(m).1.buf == m.buf,
        spec_measure(spec_enum_items(m).1) <= spec_measure(m),
        m.ready() ==> spec_enum_items(m).1.ready() && spec_enum_items(m).1.eof_done == m.eof_done,
    decreases spec_measure(m),
{
    lemma_eat_props(m, TokenModel::RCurly);
    let m1 = spec_eat(m, TokenModel::RCurly).1;
    lemma_parse_ident_props(m1);
    let m2 = spec_parse_ident(m1).1;
    lemma_eat_props(m2, TokenModel::Comma);
    let m3 = spec_eat(m2, TokenModel::Comma).1;
    lemma_eat_props(m3, TokenModel::RCurly);
    if !spec_eat(m, TokenModel::RCurly).0 && spec_parse_ident(m1).0 is Ok && spec_eat(
        m2,
        TokenModel::Comma,
    ).0 {
        lemma_enum_items_props(m3);
    }
}

/// `spec_parse_enum` keeps soundness, readiness and the measure, strictly
/// lowering the measure on success.
pub proof fn lemma_parse_enum_props(m: ParserModel)
    requires
        m.wf(),
    ensures
        spec_parse_enum(m).1.wf(),
        spec_parse_enum(m).1.buf == m.buf,
        spec_measure(spec_parse_enum(m).1) <= spec_measure(m),
        spec_parse_enum(m).0 is Ok ==> spec_measure(spec_parse_enum(m).1) < spec_measure(m),
        m.ready() ==> spec_parse_enum(m).1.ready() && spec_parse_enum(m).1.eof_done == m.eof_done,
{
    lemma_eat_props(m, TokenModel::Keyword(Keyword::Enum));
    let m1 = spec_eat(m, TokenModel::Keyword(Keyword::Enum)).1;
    lemma_expect_ident_props(m1);
    let m2 = spec_expect_ident(m1).1;
    lemma_eat_props(m2, TokenModel::LCurly);
    let m3 = spec_eat(m2, TokenModel::LCurly).1;
    lemma_enum_items_props(m3);
}

/// `spec_struct_fields` keeps soundness, readiness and the measure.
pub proof fn lemma_struct_fields_props(m: ParserModel)
    requires
        m.wf(),
    ensures
        spec_struct_fields(m).1.wf(),
        spec_struct_fields(m).1.buf == m.buf,
        spec_measure(spec_struct_fields(m).1) <= spec_measure(m),
        m.ready() ==> spec_struct_fields(m).1.ready() && spec_struct_fields(m).1.eof_done
            == m.eof_done,
    decreases spec_measure(m),
{
    lemma_eat_props(m, TokenModel::RCurly);
    let m1 = spec_eat(m, TokenModel::RCurly).1;
    lemma_parse_field_props(m1);
    let m2 = spec_parse_struct_field(m1).1;
    lemma_eat_props(m2, TokenModel::Semi);
    let m3 = spec_eat(m2, TokenModel::Semi).1;
    lemma_eat_props(m3, TokenModel::RCurly);
    if !spec_eat(m, TokenModel::RCurly).0 && spec_parse_struct_field(m1).0 is Ok && spec_eat(
        m2,
        TokenModel::Semi,
    ).0 {
        lemma_struct_fields_props(m3);
    }
}

/// `spec_parse_struct` keeps soundness, readiness and the measure,
/// strictly lowering the measure on success.
pub proof fn lemma_parse_struct_props(m: ParserModel)
    requires
        m.wf(),
    ensures
        spec_parse_struct(m).1.wf(),
        spec_parse_struct(m).1.buf == m.buf,
        spec_measure(spec_parse_struct(m).1) <= spec_measure(m),
        spec_parse_struct(m).0 is Ok ==> spec_measure(spec_parse_struct(m).1) < spec_measure(m),
        m.ready() ==> spec_parse_struct(m).1.ready() && spec_parse_struct(m).1.eof_done
            == m.eof_done,
{
    lemma_eat_props(m, TokenModel::Keyword(Keyword::Struct));
    let m1 = spec_eat(m, TokenModel::Keyword(Keyword::Struct)).1;
    lemma_expect_ident_props(m1);
    let m2 = spec_expect_ident(m1).1;
    lemma_eat_props(m2, TokenModel::LCurly);
    let m3 = spec_eat(m2, TokenModel::LCurly).1;
    lemma_struct_fields_props(m3);
}

/// `spec_parse_typedef` keeps soundness, readiness and the measure,
/// strictly lowering the measure on success.
pub proof fn lemma_parse_typedef_props(m: ParserModel)
    requires
        m.wf(),
    ensures
        spec_parse_typedef(m).1.wf(),
        spec_parse_typedef(m).1.buf == m.buf,
        spec_measure(spec_parse_typedef(m).1) <= spec_measure(m),
        spec_parse_typedef(m).0 is Ok ==> spec_measure(spec_parse_typedef(m).1) < spec_measure(m),
        m.ready() ==> spec_parse_typedef(m).1.ready() && spec_parse_typedef(m).1.eof_done
            == m.eof_done,
{
    lemma_eat_props(m, TokenModel::Keyword(Keyword::Typedef));
    let m1 = spec_eat(m, TokenModel::Keyword(Keyword::Typedef)).1;
    lemma_expect_ident_props(m1);
    let m2 = spec_expect_ident(m1).1;
    lemma_expect_ident_props(m2);
}

/// The tokenizer cursor and parser state over a borrowed source buffer.
pub struct Parser<'a> {
    buffer: &'a str,
    pos: usize,
    token: Token,
    last_token_eof: bool,
}

impl<'a> View for Parser<'a> {
    type V = ParserModel;

    closed spec fn view(&self) -> ParserModel {
        ParserModel {
            buf: self.buffer@,
            pos: self.pos as int,
            tok: self.token@,
            eof_done: self.last_token_eof,
        }
    }
}

impl<'a> Parser<'a> {
    /// A fresh parser over `input`: cursor at the start, lookahead holding
    /// the start marker, end-of-input not consumed.
    pub fn new(input: &'a str) -> (p: Parser<'a>)
        ensures
            p@.buf == input@,
            p@.pos == 0,
            p@.tok == TokenModel::B,
            p@.eof_done == false,
            p@.wf(),
            p@.ready(),
    {
        let _chars = input.unicode_len();
        Parser { buffer: input, pos: 0, token: Token::B, last_token_eof: false }
    }

    /// Whether the cursor stands at or past the end of the buffer.
    pub fn eof(&self) -> (r: bool)
        requires
            self@.wf(),
        ensures
            r == (self@.pos >= self@.buf.len()),
    {
        self.pos >= self.buffer.unicode_len()
    }

    /// The character under the cursor, without consuming it.
    fn next_char(&self) -> (c: char)
        requires
            self@.wf(),
            self@.pos < self@.buf.len(),
        ensures
            c == self@.buf[self@.pos],
    {
        self.buffer.get_char(self.pos)
    }

    /// Move the cursor to the end of the whitespace run under it.
    fn skip_ws(&mut self)
        requires
            old(self)@.wf(),
        ensures
            final(self)@ == (ParserModel {
                pos: run_end(old(self)@.buf, old(self)@.pos, ws_pred()),
                ..old(self)@
            }),
            final(self)@.wf(),
    {
        proof {
            lemma_run_end(self@.buf, self@.pos, ws_pred());
        }
        let n = self.buffer.unicode_len();
        loop
            invariant
                self@.wf(),
                self@.buf == old(self)@.buf,
                self@.tok == old(self)@.tok,
                self@.eof_done == old(self)@.eof_done,
                old(self)@.pos <= self@.pos <= n,
                n == self@.buf.len(),
                run_end(self@.buf, old(self)@.pos, ws_pred()) == run_end(
                    self@.buf,
                    self@.pos,
                    ws_pred(),
                ),
            ensures
                self@.buf == old(self)@.buf,
                self@.tok == old(self)@.tok,
                self@.eof_done == old(self)@.eof_done,
                self@.pos == run_end(self@.buf, old(self)@.pos, ws_pred()),
            decreases n - self@.pos,
        {
            if self.pos >= n {
                break ;
            }
            let c = self.next_char();
            if !ws_char(c) {
                break ;
            }
            self.pos = self.pos + 1;
        }
    }

    /// Move the cursor to the end of the identifier-character run under it.
    fn skip_ident(&mut self)
        requires
            old(self)@.wf(),
        ensures
            final(self)@ == (ParserModel {
                pos: run_end(old(self)@.buf, old(self)@.pos, ident_pred()),
                ..old(self)@
            }),
            final(self)@.wf(),
    {
        proof {
            lemma_run_end(self@.buf, self@.pos, ident_pred());
        }
        let n = self.buffer.unicode_len();
        loop
            invariant
                self@.wf(),
                self@.buf == old(self)@.buf,
                self@.tok == old(self)@.tok,
                self@.eof_done == old(self)@.eof_done,
                old(self)@.pos <= self@.pos <= n,
                n == self@.buf.len(),
                run_end(self@.buf, old(self)@.pos, ident_pred()) == run_end(
                    self@.buf,
                    self@.pos,
                    ident_pred(),
                ),
            ensures
                self@.buf == old(self)@.buf,
                self@.tok == old(self)@.tok,
                self@.eof_done == old(self)@.eof_done,
                self@.pos == run_end(self@.buf, old(self)@.pos, ident_pred()),
            decreases n - self@.pos,
        {
            if self.pos >= n {
                break ;
            }
            let c = self.next_char();
            if !ident_char(c) {
                break ;
            }
            self.pos = self.pos + 1;
        }
    }

    /// Move the cursor to the end of the digit run under it.
    fn skip_digits(&mut self)
        requires
            old(self)@.wf(),
        ensures
            final(self)@ == (ParserModel {
                pos: run_end(old(self)@.buf, old(self)@.pos, digit_pred()),
                ..old(self)@
            }),
            final(self)@.wf(),
    {
        proof {
            lemma_run_end(self@.buf, self@.pos, digit_pred());
        }
        let n = self.buffer.unicode_len();
        loop
            invariant
                self@.wf(),
                self@.buf == old(self)@.buf,
                self@.tok == old(self)@.tok,
                self@.eof_done == old(self)@.eof_done,
                old(self)@.pos <= self@.pos <= n,
                n == self@.buf.len(),
                run_end(self@.buf, old(self)@.pos, digit_pred()) == run_end(
                    self@.buf,
                    self@.pos,
                    digit_pred(),
                ),
            ensures
                self@.buf == old(self)@.buf,
                self@.tok == old(self)@.tok,
                self@.eof_done == old(self)@.eof_done,
                self@.pos == run_end(self@.buf, old(self)@.pos, digit_pred()),
            decreases n - self@.pos,
        {
            if self.pos >= n {
                break ;
            }
            let c = self.next_char();
            if !digit_char(c) {
                break ;
            }
            self.pos = self.pos + 1;
        }
    }

    /// Move the cursor to the next double quote, or to the end of input.
    fn skip_nonquote(&mut self)
        requires
            old(self)@.wf(),
        ensures
            final(self)@ == (ParserModel {
                pos: run_end(old(self)@.buf, old(self)@.pos, nonquote_pred()),
                ..old(self)@
            }),
            final(self)@.wf(),
    {
        proof {
            lemma_run_end(self@.buf, self@.pos, nonquote_pred());
        }
        let n = self.buffer.unicode_len();
        loop
            invariant
                self@.wf(),
                self@.buf == old(self)@.buf,
                self@.tok == old(self)@.tok,
                self@.eof_done == old(self)@.eof_done,
                old(self)@.pos <= self@.pos <= n,
                n == self@.buf.len(),
                run_end(self@.buf, old(self)@.pos, nonquote_pred()) == run_end(
                    self@.buf,
                    self@.pos,
                    nonquote_pred(),
                ),
            ensures
                self@.buf == old(self)@.buf,
                self@.tok == old(self)@.tok,
                self@.eof_done == old(self)@.eof_done,
                self@.pos == run_end(self@.buf, old(self)@.pos, nonquote_pred()),
            decreases n - self@.pos,
        {
            if self.pos >= n {
                break ;
            }
            let c = self.next_char();
            if c == '"' {
                break ;
            }
            self.pos = self.pos + 1;
        }
    }

    /// Move the cursor to the end of the current line (the newline itself
    /// is left for the whitespace rule), or to the end of input.
    fn skip_nonnl(&mut self)
        requires
            old(self)@.wf(),
        ensures
            final(self)@ == (ParserModel {
                pos: run_end(old(self)@.buf, old(self)@.pos, nonnl_pred()),
                ..old(self)@
            }),
            final(self)@.wf(),
    {
        proof {
            lemma_run_end(self@.buf, self@.pos, nonnl_pred());
        }
        let n = self.buffer.unicode_len();
        loop
            invariant
                self@.wf(),
                self@.buf == old(self)@.buf,
                self@.tok == old(self)@.tok,
                self@.eof_done == old(self)@.eof_done,
                old(self)@.pos <= self@.pos <= n,
                n == self@.buf.len(),
                run_end(self@.buf, old(self)@.pos, nonnl_pred()) == run_end(
                    self@.buf,
                    self@.pos,
                    nonnl_pred(),
                ),
            ensures
                self@.buf == old(self)@.buf,
                self@.tok == old(self)@.tok,
                self@.eof_done == old(self)@.eof_done,
                self@.pos == run_end(self@.buf, old(self)@.pos, nonnl_pred()),
            decreases n - self@.pos,
        {
            if self.pos >= n {
                break ;
            }
            let c = self.next_char();
            if c == '\n' || c == '\r' {
                break ;
            }
            self.pos = self.pos + 1;
        }
    }

    /// Move the cursor just past the first `*/` at or after it, or to the
    /// end of input when the block comment is never closed.
    fn skip_block(&mut self)
        requires
            old(self)@.wf(),
        ensures
            final(self)@ == (ParserModel {
                pos: block_end(old(self)@.buf, old(self)@.pos),
                ..old(self)@
            }),
            final(self)@.wf(),
    {
        proof {
            lemma_block_end(self@.buf, self@.pos);
        }
        let n = self.buffer.unicode_len();
        loop
            invariant_except_break
                block_end(self@.buf, old(self)@.pos) == block_end(self@.buf, self@.pos),
            invariant
                self@.wf(),
                self@.buf == old(self)@.buf,
                self@.tok == old(self)@.tok,
                self@.eof_done == old(self)@.eof_done,
                old(self)@.pos <= self@.pos <= n,
                n == self@.buf.len(),
            ensures
                self@.buf == old(self)@.buf,
                self@.tok == old(self)@.tok,
                self@.eof_done == old(self)@.eof_done,
                self@.pos == block_end(self@.buf, old(self)@.pos),
            decreases n - self@.pos,
        {
            if self.pos >= n {
                break ;
            }
            let c = self.next_char();
            if c == '*' && self.pos + 1 < n {
                let d = self.buffer.get_char(self.pos + 1);
                if d == '/' {
                    self.pos = self.pos + 2;
                    break ;
                }
            }
            self.pos = self.pos + 1;
        }
    }

    /// Scan the decimal literal under the cursor. A value within the signed
    /// 16-bit range becomes a `Number` token; a larger one becomes
    /// `BadNumber`, so that the defect surfaces as a recoverable parse
    /// error rather than a halt.
    fn scan_number(&mut self) -> (t: Token)
        requires
            old(self)@.wf(),
            old(self)@.pos < old(self)@.buf.len(),
            is_digit_char(old(self)@.buf[old(self)@.pos]),
        ensures
            final(self)@.wf(),
            final(self)@.buf == old(self)@.buf,
            final(self)@.tok == old(self)@.tok,
            final(self)@.eof_done == old(self)@.eof_done,
            t@ == spec_token_from(old(self)@.buf, old(self)@.pos).0,
            final(self)@.pos == spec_token_from(old(self)@.buf, old(self)@.pos).1,
    {
        let ghost buf = self@.buf;
        let start = self.pos;
        self.skip_digits();
        let e = self.pos;
        proof {
            lemma_run_end(buf, start as int, digit_pred());
        }
        let ghost whole = buf.subrange(start as int, e as int);
        let mut i = start;
        let mut val: u32 = 0;
        let mut bad = false;
        loop
            invariant
                self@.wf(),
                self@.buf == buf,
                start <= i <= e,
                e as int == run_end(buf, start as int, digit_pred()),
                e as int <= buf.len(),
                whole == buf.subrange(start as int, e as int),
                forall|j: int| start <= j < e ==> is_digit_char(buf[j]),
                !bad ==> val == digits_val(buf.subrange(start as int, i as int)) && val <= 32767,
                bad ==> digits_val(whole) > 32767,
            ensures
                !bad ==> val == digits_val(whole) && val <= 32767,
                bad ==> digits_val(whole) > 32767,
            decreases e - i + (if bad {
                0int
            } else {
                1int
            }),
        {
            if bad || i >= e {
                proof {
                    if !bad {
                        assert(buf.subrange(start as int, i as int) == whole);
                    }
                }
                break ;
            }
            let c = self.buffer.get_char(i);
            let d = (c as u32) - 0x30;
            let v2 = val * 10 + d;
            proof {
                assert(buf.subrange(start as int, i as int + 1).drop_last() =~= buf.subrange(
                    start as int,
                    i as int,
                ));
                assert(buf.subrange(start as int, i as int + 1).last() == buf[i as int]);
            }
            if v2 > 32767 {
                bad = true;
                proof {
                    assert(whole.subrange(0, i as int + 1 - start) =~= buf.subrange(
                        start as int,
                        i as int + 1,
                    ));
                    lemma_digits_val_prefix(whole, i as int + 1 - start);
                }
            } else {
                val = v2;
                i = i + 1;
            }
        }
        if bad {
            Token::BadNumber
        } else {
            Token::Number(val as i16)
        }
    }

    /// Scan one token at the cursor and return it; the lookahead field is
    /// untouched. Callable again after end-of-input: it keeps yielding the
    /// end-of-input token.
    pub fn next_token(&mut self) -> (t: Token)
        requires
            old(self)@.wf(),
        ensures
            final(self)@.wf(),
            final(self)@.buf == old(self)@.buf,
            final(self)@.tok == old(self)@.tok,
            final(self)@.eof_done == old(self)@.eof_done,
            t@ == spec_next_token(old(self)@.buf, old(self)@.pos).0,
            final(self)@.pos == spec_next_token(old(self)@.buf, old(self)@.pos).1,
    {
        proof {
            lemma_next_token_bounds(self@.buf, self@.pos);
        }
        self.skip_ws();
        let n = self.buffer.unicode_len();
        if self.pos >= n {
            return Token::Eof;
        }
        let c = self.next_char();
        if c == ':' {
            self.pos = self.pos + 1;
            return Token::Colon;
        }
        if c == '.' {
            self.pos = self.pos + 1;
            return Token::Dot;
        }
        if c == ';' {
            self.pos = self.pos + 1;
            return Token::Semi;
        }
        if c == ',' {
            self.pos = self.pos + 1;
            return Token::Comma;
        }
        if c == '=' {
            self.pos = self.pos + 1;
            return Token::Eq;
        }
        if c == '{' {
            self.pos = self.pos + 1;
            return Token::LCurly;
        }
        if c == '}' {
            self.pos = self.pos + 1;
            return Token::RCurly;
        }
        if c == '<' {
            self.pos = self.pos + 1;
            return Token::LAngle;
        }
        if c == '>' {
            self.pos = self.pos + 1;
            return Token::RAngle;
        }
        if c == '"' {
            self.pos = self.pos + 1;
            let start = self.pos;
            self.skip_nonquote();
            proof {
                lemma_run_end(self@.buf, start as int, nonquote_pred());
            }
            let val = self.buffer.substring_char(start, self.pos).to_owned();
            if self.pos < n {
                self.pos = self.pos + 1;
            }
            return Token::QuotedString(val);
        }
        if digit_char(c) {
            return self.scan_number();
        }
        if c == '#' {
            self.pos = self.pos + 1;
            self.skip_nonnl();
            return Token::Comment;
        }
        if c == '/' {
            if self.pos + 1 >= n {
                self.pos = self.pos + 1;
                return Token::Eof;
            }
            let d = self.buffer.get_char(self.pos + 1);
            if d == '/' {
                self.pos = self.pos + 1;
                self.skip_nonnl();
                return Token::Comment;
            }
            if d == '*' {
                self.pos = self.pos + 2;
                self.skip_block();
                return Token::Comment;
            }
            self.pos = self.pos + 1;
            return Token::Eof;
        }
        if ident_start_char(c) {
            let start = self.pos;
            self.skip_ident();
            proof {
                lemma_run_end(self@.buf, start as int, ident_pred());
            }
            let w = self.buffer.substring_char(start, self.pos).to_owned();
            return classify_word(w);
        }
        self.pos = self.pos + 1;
        Token::Eof
    }
}

} // verus!
