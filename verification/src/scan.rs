//! The mathematical scanning rules of the tokenizer: what token begins at a
//! given position of a character sequence, and where the cursor stands after
//! it. The executable tokenizer is proved to follow these rules exactly.
use crate::token::{
    digit_val, is_digit_char, is_ident_char, is_ident_start_char, is_ws_char, keyword_of,
    TokenModel,
};
use vstd::prelude::*;

verus! {

/// The end of the maximal run of characters satisfying `f` that begins at
/// `pos`: the first index at or after `pos` whose character fails `f`, or
/// the end of the sequence.
pub open spec fn run_end(buf: Seq<char>, pos: int, f: spec_fn(char) -> bool) -> int
    decreases buf.len() - pos,
{
    if pos < 0 || pos >= buf.len() {
        buf.len() as int
    } else if f(buf[pos]) {
        run_end(buf, pos + 1, f)
    } else {
        pos
    }
}

/// The predicate of a whitespace run.
pub open spec fn ws_pred() -> spec_fn(char) -> bool {
    |c: char| is_ws_char(c)
}

/// The predicate of an identifier's continuation.
pub open spec fn ident_pred() -> spec_fn(char) -> bool {
    |c: char| is_ident_char(c)
}

/// The predicate of a digit run.
pub open spec fn digit_pred() -> spec_fn(char) -> bool {
    |c: char| is_digit_char(c)
}

/// The predicate of a quoted string's interior: everything up to the
/// closing double quote.
pub open spec fn nonquote_pred() -> spec_fn(char) -> bool {
    |c: char| c != '"'
}

/// The predicate of a line comment's interior: everything up to the end of
/// the line.
pub open spec fn nonnl_pred() -> spec_fn(char) -> bool {
    |c: char| c != '\n' && c != '\r'
}

/// Bounds and characterization of `run_end`: it lies between `pos` and the
/// end, every character before it satisfies `f`, and the character at it
/// (if any) does not.
pub proof fn lemma_run_end(buf: Seq<char>, pos: int, f: spec_fn(char) -> bool)
    requires
        0 <= pos <= buf.len(),
    ensures
        pos <= run_end(buf, pos, f) <= buf.len(),
        forall|i: int| pos <= i < run_end(buf, pos, f) ==> f(buf[i]),
        run_end(buf, pos, f) == buf.len() || !f(buf[run_end(buf, pos, f)]),
    decreases buf.len() - pos,
{
    if pos < buf.len() && f(buf[pos]) {
        lemma_run_end(buf, pos + 1, f);
    }
}

/// A run over characters that all satisfy `f` reaches the end of the
/// sequence.
pub proof fn lemma_run_end_all(buf: Seq<char>, pos: int, f: spec_fn(char) -> bool)
    requires
        0 <= pos <= buf.len(),
        forall|i: int| pos <= i < buf.len() ==> f(buf[i]),
    ensures
        run_end(buf, pos, f) == buf.len(),
{
    lemma_run_end(buf, pos, f);
}

/// The value of a sequence of decimal digits, read in base 10.
pub open spec fn digits_val(s: Seq<char>) -> int
    decreases s.len(),
{
    if s.len() == 0 {
        0
    } else {
        digits_val(s.drop_last()) * 10 + digit_val(s.last())
    }
}

/// A digit sequence's value is never negative.
pub proof fn lemma_digits_val_nonneg(s: Seq<char>)
    requires
        forall|i: int| 0 <= i < s.len() ==> is_digit_char(s[i]),
    ensures
        digits_val(s) >= 0,
    decreases s.len(),
{
    if s.len() > 0 {
        lemma_digits_val_nonneg(s.drop_last());
    }
}

/// Extending a digit sequence on the right never lowers its value.
pub proof fn lemma_digits_val_prefix(s: Seq<char>, k: int)
    requires
        forall|i: int| 0 <= i < s.len() ==> is_digit_char(s[i]),
        0 <= k <= s.len(),
    ensures
        digits_val(s) >= digits_val(s.subrange(0, k)),
    decreases s.len() - k,
{
    if k < s.len() {
        lemma_digits_val_prefix(s, k + 1);
        let p = s.subrange(0, k + 1);
        assert(p.drop_last() =~= s.subrange(0, k));
        lemma_digits_val_nonneg(s.subrange(0, k));
        assert(digits_val(s.subrange(0, k + 1)) == digits_val(s.subrange(0, k)) * 10 + digit_val(
            s[k],
        ));
    } else {
        assert(s.subrange(0, k) =~= s);
    }
}

/// The position just past the first `*/` at or after `q`, or the end of the
/// sequence when the block comment is never closed.
pub open spec fn block_end(buf: Seq<char>, q: int) -> int
    decreases buf.len() - q,
{
    if q < 0 || q >= buf.len() {
        buf.len() as int
    } else if buf[q] == '*' && q + 1 < buf.len() && buf[q + 1] == '/' {
        q + 2
    } else {
        block_end(buf, q + 1)
    }
}

/// `block_end` lies between its start and the end of the sequence.
pub proof fn lemma_block_end(buf: Seq<char>, q: int)
    requires
        0 <= q <= buf.len(),
    ensures
        q <= block_end(buf, q) <= buf.len(),
    decreases buf.len() - q,
{
    if q < buf.len() && !(buf[q] == '*' && q + 1 < buf.len() && buf[q + 1] == '/') {
        lemma_block_end(buf, q + 1);
    }
}

/// A single-character punctuation mark.
pub open spec fn is_punct_char(c: char) -> bool {
    c == ':' || c == '.' || c == ';' || c == ',' || c == '=' || c == '{' || c == '}' || c == '<'
        || c == '>'
}

/// The token a punctuation character stands for.
pub open spec fn punct_token(c: char) -> TokenModel {
    if c == ':' {
        TokenModel::Colon
    } else if c == '.' {
        TokenModel::Dot
    } else if c == ';' {
        TokenModel::Semi
    } else if c == ',' {
        TokenModel::Comma
    } else if c == '=' {
        TokenModel::Eq
    } else if c == '{' {
        TokenModel::LCurly
    } else if c == '}' {
        TokenModel::RCurly
    } else if c == '<' {
        TokenModel::LAngle
    } else {
        TokenModel::RAngle
    }
}

/// The token that begins at position `p`, which is assumed not to hold
/// whitespace, and the position just past it. Rules, in priority order:
/// punctuation; a quoted string (lenient about a missing closing quote); a
/// decimal number, out-of-range values surfacing as `BadNumber`; a line or
/// block comment; an identifier, classified against the keyword table; and
/// any unrecognized character is consumed and yields end-of-input.
pub open spec fn spec_token_from(buf: Seq<char>, p: int) -> (TokenModel, int) {
    if p >= buf.len() {
        (TokenModel::Eof, p)
    } else {
        let c = buf[p];
        if is_punct_char(c) {
            (punct_token(c), p + 1)
        } else if c == '"' {
            let e: int = run_end(buf, p + 1, nonquote_pred());
            if e < buf.len() {
                (TokenModel::QuotedString(buf.subrange(p + 1, e)), e + 1)
            } else {
                (TokenModel::QuotedString(buf.subrange(p + 1, e)), e)
            }
        } else if is_digit_char(c) {
            let e: int = run_end(buf, p, digit_pred());
            let v: int = digits_val(buf.subrange(p, e));
            if v <= 32767 {
                (TokenModel::Number(v), e)
            } else {
                (TokenModel::BadNumber, e)
            }
        } else if c == '#' {
            (TokenModel::Comment, run_end(buf, p + 1, nonnl_pred()))
        } else if c == '/' {
            if p + 1 >= buf.len() {
                (TokenModel::Eof, p + 1)
            } else if buf[p + 1] == '/' {
                (TokenModel::Comment, run_end(buf, p + 1, nonnl_pred()))
            } else if buf[p + 1] == '*' {
                (TokenModel::Comment, block_end(buf, p + 2))
            } else {
                (TokenModel::Eof, p + 1)
            }
        } else if is_ident_start_char(c) {
            let e: int = run_end(buf, p, ident_pred());
            let w = buf.subrange(p, e);
            match keyword_of(w) {
                Some(k) => (TokenModel::Keyword(k), e),
                None => (TokenModel::Ident(w), e),
            }
        } else {
            (TokenModel::Eof, p + 1)
        }
    }
}

/// The next token from position `pos`: leading whitespace is skipped, then
/// the token at the first non-whitespace position is read.
pub open spec fn spec_next_token(buf: Seq<char>, pos: int) -> (TokenModel, int) {
    spec_token_from(buf, run_end(buf, pos, ws_pred()))
}

/// Every token leaves the cursor within the buffer and never moves it
/// backwards; every token but end-of-input consumes at least one character;
/// and the scanner never produces the `Whitespace` or `B` markers.
pub proof fn lemma_next_token_bounds(buf: Seq<char>, pos: int)
    requires
        0 <= pos <= buf.len(),
    ensures
        pos <= spec_next_token(buf, pos).1 <= buf.len(),
        spec_next_token(buf, pos).0 != TokenModel::Eof ==> spec_next_token(buf, pos).1 > pos,
        spec_next_token(buf, pos).0 != TokenModel::Whitespace,
        spec_next_token(buf, pos).0 != TokenModel::B,
{
    lemma_run_end(buf, pos, ws_pred());
    let p = run_end(buf, pos, ws_pred());
    if p < buf.len() {
        let c = buf[p];
        if c == '"' {
            lemma_run_end(buf, p + 1, nonquote_pred());
        } else if is_digit_char(c) {
            lemma_run_end(buf, p, digit_pred());
            assert(run_end(buf, p, digit_pred()) == run_end(buf, p + 1, digit_pred()));
            lemma_run_end(buf, p + 1, digit_pred());
        } else if c == '#' {
            lemma_run_end(buf, p + 1, nonnl_pred());
        } else if c == '/' {
            if p + 1 < buf.len() && buf[p + 1] == '/' {
                lemma_run_end(buf, p + 1, nonnl_pred());
            } else if p + 1 < buf.len() && buf[p + 1] == '*' {
                lemma_block_end(buf, p + 2);
            }
        } else if is_ident_start_char(c) {
            lemma_run_end(buf, p, ident_pred());
            assert(run_end(buf, p, ident_pred()) == run_end(buf, p + 1, ident_pred()));
            lemma_run_end(buf, p + 1, ident_pred());
        }
    }
}

/// The next token with comments skipped: what the parser's cursor actually
/// surfaces as lookahead.
pub open spec fn spec_advance(buf: Seq<char>, pos: int) -> (TokenModel, int)
    decreases buf.len() - pos
        when 0 <= pos <= buf.len()
        via spec_advance_decreases
{
    let r = spec_next_token(buf, pos);
    if r.0 == TokenModel::Comment {
        spec_advance(buf, r.1)
    } else {
        r
    }
}

#[via_fn]
proof fn spec_advance_decreases(buf: Seq<char>, pos: int) {
    lemma_next_token_bounds(buf, pos);
}

/// `spec_advance` stays within the buffer and never surfaces a comment,
/// whitespace or the start marker; every surfaced token but end-of-input
/// consumes at least one character.
pub proof fn lemma_advance_bounds(buf: Seq<char>, pos: int)
    requires
        0 <= pos <= buf.len(),
    ensures
        pos <= spec_advance(buf, pos).1 <= buf.len(),
        spec_advance(buf, pos).0 != TokenModel::Eof ==> spec_advance(buf, pos).1 > pos,
        spec_advance(buf, pos).0 != TokenModel::Comment,
        spec_advance(buf, pos).0 != TokenModel::Whitespace,
        spec_advance(buf, pos).0 != TokenModel::B,
    decreases buf.len() - pos,
{
    lemma_next_token_bounds(buf, pos);
    let r = spec_next_token(buf, pos);
    if r.0 == TokenModel::Comment {
        lemma_advance_bounds(buf, r.1);
    }
}

/// The whole sequence of tokens the parser's cursor surfaces from `pos`
/// on, comments skipped, up to (and without) the end-of-input token.
pub open spec fn spec_token_stream(buf: Seq<char>, pos: int) -> Seq<TokenModel>
    decreases buf.len() - pos
        when 0 <= pos <= buf.len()
        via spec_token_stream_decreases
{
    let r = spec_advance(buf, pos);
    if r.0 == TokenModel::Eof {
        Seq::empty()
    } else {
        Seq::empty().push(r.0) + spec_token_stream(buf, r.1)
    }
}

#[via_fn]
proof fn spec_token_stream_decreases(buf: Seq<char>, pos: int) {
    lemma_advance_bounds(buf, pos);
}

} // verus!
