//! The tokenizer's laws, stated and proved over the mathematical scanning
//! rules: punctuation scans one character, words scan to identifiers or
//! keywords, whitespace and comments never surface as tokens.
use crate::scan::{
    block_end, ident_pred, is_punct_char, lemma_advance_bounds, lemma_next_token_bounds,
    lemma_run_end, lemma_run_end_all, nonnl_pred, punct_token, run_end, spec_advance,
    spec_next_token, spec_token_stream, ws_pred,
};
use crate::token::{
    is_digit_char, is_ident_char, is_ident_start_char, is_ws_char, keyword_of, keyword_spelling,
    Keyword, TokenModel,
};
use vstd::prelude::*;

verus! {

/// Law: a single punctuation character scans to exactly its own token and
/// consumes exactly one character.
pub proof fn lemma_punctuation_token(buf: Seq<char>, pos: int)
    requires
        0 <= pos < buf.len(),
        is_punct_char(buf[pos]),
    ensures
        spec_next_token(buf, pos) == (punct_token(buf[pos]), pos + 1),
{
    assert(!is_ws_char(buf[pos]));
    assert(run_end(buf, pos, ws_pred()) == pos);
}

/// A word whose first character may start an identifier and whose
/// identifier run covers it entirely scans to its keyword or identifier
/// token and consumes the whole word.
pub proof fn lemma_word_token(buf: Seq<char>)
    requires
        buf.len() > 0,
        is_ident_start_char(buf[0]),
        run_end(buf, 0, ident_pred()) == buf.len(),
    ensures
        spec_next_token(buf, 0) == (
            match keyword_of(buf) {
                Some(k) => TokenModel::Keyword(k),
                None => TokenModel::Ident(buf),
            },
            buf.len() as int,
        ),
{
    assert(!is_ws_char(buf[0]));
    assert(run_end(buf, 0, ws_pred()) == 0);
    assert(!is_punct_char(buf[0]));
    assert(buf[0] != '"');
    assert(!is_digit_char(buf[0]));
    assert(buf[0] != '#');
    assert(buf[0] != '/');
    assert(buf.subrange(0, buf.len() as int) =~= buf);
}

/// Law: a word of letters, digits and underscores with a non-digit first
/// character scans to a single identifier token carrying the word
/// verbatim, unless the word is a keyword spelling.
pub proof fn lemma_identifier_token(buf: Seq<char>)
    requires
        buf.len() > 0,
        is_ident_start_char(buf[0]),
        forall|i: int| 0 <= i < buf.len() ==> is_ident_char(buf[i]),
        keyword_of(buf) is None,
    ensures
        spec_next_token(buf, 0) == (TokenModel::Ident(buf), buf.len() as int),
{
    lemma_run_end_all(buf, 0, ident_pred());
    lemma_word_token(buf);
}

/// Law: a keyword spelling scans to the matching keyword token, never to
/// an identifier.
pub proof fn lemma_keyword_token(k: Keyword)
    ensures
        spec_next_token(keyword_spelling(k), 0) == (
            TokenModel::Keyword(k),
            keyword_spelling(k).len() as int,
        ),
{
    reveal_strlit("namespace");
    reveal_strlit("struct");
    reveal_strlit("enum");
    reveal_strlit("service");
    reveal_strlit("optional");
    reveal_strlit("required");
    reveal_strlit("throws");
    reveal_strlit("oneway");
    reveal_strlit("typedef");
    reveal_strlit("exception");
    reveal_strlit("include");
    reveal_strlit("const");
    let s = keyword_spelling(k);
    assert(run_end(s, 0, ident_pred()) == s.len()) by {
        reveal_with_fuel(run_end, 11);
    }
    lemma_word_token(s);
    assert(keyword_of(s) == Some(k));
}

/// Law: whitespace never scans to a token of its own; the token found at a
/// whitespace character is the one found just past it, so runs of
/// whitespace anywhere never alter which token comes next.
pub proof fn lemma_whitespace_transparent(buf: Seq<char>, pos: int)
    requires
        0 <= pos < buf.len(),
        is_ws_char(buf[pos]),
    ensures
        spec_next_token(buf, pos) == spec_next_token(buf, pos + 1),
        spec_next_token(buf, pos).0 != TokenModel::Whitespace,
{
    lemma_next_token_bounds(buf, pos);
}

/// Law: comments are fully skippable. The parser's cursor never surfaces a
/// comment, and whenever a comment (line or block, nested asterisks
/// included) begins at the cursor, the surfaced token is the one found
/// just past the comment.
pub proof fn lemma_comment_transparent(buf: Seq<char>, pos: int)
    requires
        0 <= pos <= buf.len(),
    ensures
        spec_advance(buf, pos).0 != TokenModel::Comment,
        spec_next_token(buf, pos).0 == TokenModel::Comment ==> spec_advance(buf, pos)
            == spec_advance(buf, spec_next_token(buf, pos).1),
    decreases buf.len() - pos,
{
    lemma_advance_bounds(buf, pos);
    lemma_next_token_bounds(buf, pos);
}

/// Law: a line comment ends at the line's end and a block comment just
/// past its closing `*/`; what the cursor surfaces after the comment is
/// exactly what it would surface starting from that end position.
pub proof fn lemma_comment_extent(buf: Seq<char>, pos: int)
    requires
        0 <= pos <= buf.len(),
        spec_next_token(buf, pos).0 == TokenModel::Comment,
    ensures
        spec_advance(buf, pos) == spec_advance(buf, spec_next_token(buf, pos).1),
        ({
            let p = run_end(buf, pos, ws_pred());
            (buf[p] == '#' ==> spec_next_token(buf, pos).1 == run_end(buf, p + 1, nonnl_pred()))
                && (buf[p] == '/' && p + 1 < buf.len() && buf[p + 1] == '/'
                ==> spec_next_token(buf, pos).1 == run_end(buf, p + 1, nonnl_pred())) && (buf[p]
                == '/' && p + 1 < buf.len() && buf[p + 1] == '*' ==> spec_next_token(buf, pos).1
                == block_end(buf, p + 2))
        }),
{
    lemma_comment_transparent(buf, pos);
    lemma_run_end(buf, pos, ws_pred());
}

/// Law: the whole surfaced token sequence from a whitespace character on
/// equals the one from just past it — runs of whitespace never produce a
/// token and never alter the token sequence.
pub proof fn lemma_whitespace_stream_unchanged(buf: Seq<char>, pos: int)
    requires
        0 <= pos < buf.len(),
        is_ws_char(buf[pos]),
    ensures
        spec_token_stream(buf, pos) == spec_token_stream(buf, pos + 1),
{
    lemma_whitespace_transparent(buf, pos);
}

/// Law: the whole surfaced token sequence from a comment's start equals
/// the one from just past the comment — the token sequence with the
/// comment removed is unchanged by its presence.
pub proof fn lemma_comment_stream_unchanged(buf: Seq<char>, pos: int)
    requires
        0 <= pos <= buf.len(),
        spec_next_token(buf, pos).0 == TokenModel::Comment,
    ensures
        spec_token_stream(buf, pos) == spec_token_stream(buf, spec_next_token(buf, pos).1),
{
    lemma_next_token_bounds(buf, pos);
}

} // verus!
