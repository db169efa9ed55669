//! General properties of the grammar engine, stated and proved over the
//! spec-level grammar that every rule procedure's contract is tied to.

use vstd::prelude::*;

use crate::grammar::{
    is_statement_start, lemma_program_accepts_only_at_end, spec_function_call, spec_if_statement,
    spec_printf, spec_program, spec_return_statement, spec_stat_assignment, spec_statement,
    spec_statement_list, spec_then_semicolon, tok_at,
};
use crate::lexer::{
    is_blank_from, is_blank_from_block_comment, is_blank_from_line_comment, is_space_char,
    kinds_of, model_at, spec_bump_line, spec_scan, spec_scan_block_comment,
    spec_scan_line_comment, spec_token_kinds, spec_tokens,
};
use crate::parser::{err_program, err_statement_list, spec_message_at};
use crate::token::{C1Token, ParseResult, TokenModel};

verus! {

/// A program the grammar accepts is accepted with every token consumed:
/// whenever the token stream of a text derives `program` from its start,
/// the derivation ends exactly at the end of the stream.
pub proof fn lemma_acceptance_consumes_every_token(s: Seq<char>)
    ensures
        spec_program(spec_token_kinds(s), 0) matches Some(j) ==> j == spec_token_kinds(s).len(),
{
    lemma_program_accepts_only_at_end(spec_token_kinds(s), 0);
}

/// Parsing is a pure function of the input text: any two results that
/// `C1Parser::parse` can return for the same text agree on acceptance and,
/// on rejection, carry the same diagnostic text. The premises are exactly
/// the clauses of `parse`'s contract, so parsing the same text twice yields
/// the same result; there is no hidden mutable state across parses.
pub proof fn lemma_parse_deterministic(text: Seq<char>, r1: ParseResult, r2: ParseResult)
    requires
        (r1 is Ok) <==> spec_program(spec_token_kinds(text), 0) is Some,
        (r2 is Ok) <==> spec_program(spec_token_kinds(text), 0) is Some,
        r1 matches Err(m) ==> m@ == err_program(spec_tokens(text), 0),
        r2 matches Err(m) ==> m@ == err_program(spec_tokens(text), 0),
    ensures
        (r1 is Ok) <==> (r2 is Ok),
        r1 matches Err(m1) ==> (r2 matches Err(m2) ==> m1@ == m2@),
{
}

/// Disambiguation of a leading identifier in statement context: `=` after it
/// selects `stat_assignment`, `(` selects `function_call`, and any other
/// following token makes the statement a syntax error right there.
pub proof fn lemma_statement_dispatch(ks: Seq<C1Token>, i: int)
    requires
        tok_at(ks, i) == Some(C1Token::Identifier),
    ensures
        tok_at(ks, i + 1) == Some(C1Token::Assign) ==> spec_statement(ks, i)
            == spec_then_semicolon(ks, spec_stat_assignment(ks, i)),
        tok_at(ks, i + 1) == Some(C1Token::LeftParenthesis) ==> spec_statement(ks, i)
            == spec_then_semicolon(ks, spec_function_call(ks, i)),
        (tok_at(ks, i + 1) != Some(C1Token::Assign) && tok_at(ks, i + 1) != Some(
            C1Token::LeftParenthesis,
        )) ==> spec_statement(ks, i) is None,
{
}

/// An `if` statement is never followed by a forced ";": in statement
/// position it is exactly its own derivation, with nothing appended.
pub proof fn lemma_if_statement_needs_no_semicolon(ks: Seq<C1Token>, i: int)
    requires
        tok_at(ks, i) == Some(C1Token::KwIf),
    ensures
        spec_statement(ks, i) == spec_if_statement(ks, i),
{
}

/// Every statement kind other than `if` is followed by a forced ";": if the
/// statement form itself derives but the next token is not ";", the whole
/// statement is refused.
pub proof fn lemma_other_statements_need_semicolon(ks: Seq<C1Token>, i: int, j: int)
    ensures
        (tok_at(ks, i) == Some(C1Token::KwReturn) && spec_return_statement(ks, i) == Some(j)
            && tok_at(ks, j) != Some(C1Token::Semicolon)) ==> spec_statement(ks, i) is None,
        (tok_at(ks, i) == Some(C1Token::KwPrintf) && spec_printf(ks, i) == Some(j) && tok_at(ks, j)
            != Some(C1Token::Semicolon)) ==> spec_statement(ks, i) is None,
        (tok_at(ks, i) == Some(C1Token::Identifier) && tok_at(ks, i + 1) == Some(C1Token::Assign)
            && spec_stat_assignment(ks, i) == Some(j) && tok_at(ks, j) != Some(
            C1Token::Semicolon,
        )) ==> spec_statement(ks, i) is None,
        (tok_at(ks, i) == Some(C1Token::Identifier) && tok_at(ks, i + 1) == Some(
            C1Token::LeftParenthesis,
        ) && spec_function_call(ks, i) == Some(j) && tok_at(ks, j) != Some(C1Token::Semicolon))
            ==> spec_statement(ks, i) is None,
{
}

/// Inside a statement list, a token outside the FIRST set of the next
/// expected construct — one that can neither begin a statement, nor open a
/// nested brace group, nor close the list — refuses the whole list, however
/// valid the prefix before it was, and the diagnostic cites exactly that
/// token's line and literal text.
pub proof fn lemma_unexpected_token_refuses_statement_list(ts: Seq<TokenModel>, i: int, t: C1Token)
    requires
        tok_at(kinds_of(ts), i) == Some(t),
        !is_statement_start(t),
        t != C1Token::LeftBrace,
        t != C1Token::RightBrace,
    ensures
        spec_statement_list(kinds_of(ts), i) is None,
        err_statement_list(ts, i) == spec_message_at("Invalid statement list"@, model_at(ts, i)),
{
}

/// A token stream with no tokens is a valid (empty) program.
pub proof fn lemma_empty_token_stream_accepted(ks: Seq<C1Token>)
    requires
        ks.len() == 0,
    ensures
        spec_program(ks, 0) == Some(0int),
{
}

/// Text made of nothing but whitespace scans to no tokens at all.
pub proof fn lemma_blank_text_scans_to_nothing(s: Seq<char>, i: int, line: u32)
    requires
        forall|k: int| 0 <= k < s.len() ==> (is_space_char(#[trigger] s[k]) || s[k] == '\n'),
    ensures
        spec_scan(s, i, line).len() == 0,
    decreases s.len() - i,
{
    if 0 <= i < s.len() {
        if s[i] == '\n' {
            lemma_blank_text_scans_to_nothing(s, i + 1, spec_bump_line(line));
        } else {
            lemma_blank_text_scans_to_nothing(s, i + 1, line);
        }
    }
}

/// Text of whitespace, newlines and comments only scans to no tokens.
pub proof fn lemma_blank_or_comment_scans_to_nothing(s: Seq<char>, i: int, line: u32)
    requires
        is_blank_from(s, i),
    ensures
        spec_scan(s, i, line).len() == 0,
    decreases s.len() - i,
{
    if 0 <= i < s.len() {
        if s[i] == '\n' {
            lemma_blank_or_comment_scans_to_nothing(s, i + 1, spec_bump_line(line));
        } else if is_space_char(s[i]) {
            lemma_blank_or_comment_scans_to_nothing(s, i + 1, line);
        } else if s[i] == '/' && i + 1 < s.len() && s[i + 1] == '/' {
            lemma_line_comment_scans_to_nothing(s, i + 2, line);
        } else if s[i] == '/' && i + 1 < s.len() && s[i + 1] == '*' {
            lemma_block_comment_scans_to_nothing(s, i + 2, line);
        }
    }
}

/// As the lemma above, inside a `//` comment.
pub proof fn lemma_line_comment_scans_to_nothing(s: Seq<char>, i: int, line: u32)
    requires
        is_blank_from_line_comment(s, i),
    ensures
        spec_scan_line_comment(s, i, line).len() == 0,
    decreases s.len() - i,
{
    if 0 <= i < s.len() {
        if s[i] == '\n' {
            lemma_blank_or_comment_scans_to_nothing(s, i + 1, spec_bump_line(line));
        } else {
            lemma_line_comment_scans_to_nothing(s, i + 1, line);
        }
    }
}

/// As the lemma above, inside a `/*` comment.
pub proof fn lemma_block_comment_scans_to_nothing(s: Seq<char>, i: int, line: u32)
    requires
        is_blank_from_block_comment(s, i),
    ensures
        spec_scan_block_comment(s, i, line).len() == 0,
    decreases s.len() - i,
{
    if 0 <= i < s.len() {
        if s[i] == '*' && i + 1 < s.len() && s[i + 1] == '/' {
            lemma_blank_or_comment_scans_to_nothing(s, i + 2, line);
        } else if s[i] == '\n' {
            lemma_block_comment_scans_to_nothing(s, i + 1, spec_bump_line(line));
        } else {
            lemma_block_comment_scans_to_nothing(s, i + 1, line);
        }
    }
}

/// Input holding nothing but whitespace and comments — the empty text
/// included — is accepted as a valid empty program.
pub proof fn lemma_blank_or_comment_input_accepted(s: Seq<char>)
    requires
        is_blank_from(s, 0),
    ensures
        spec_program(spec_token_kinds(s), 0) is Some,
{
    lemma_blank_or_comment_scans_to_nothing(s, 0, 1);
    assert(spec_token_kinds(s).len() == 0);
    lemma_empty_token_stream_accepted(spec_token_kinds(s));
}

/// Empty and whitespace-only input is accepted as a valid empty program.
pub proof fn lemma_blank_input_accepted(s: Seq<char>)
    requires
        forall|k: int| 0 <= k < s.len() ==> (is_space_char(#[trigger] s[k]) || s[k] == '\n'),
    ensures
        spec_program(spec_token_kinds(s), 0) is Some,
{
    lemma_blank_text_scans_to_nothing(s, 0, 1);
    assert(spec_token_kinds(s).len() == 0);
    lemma_empty_token_stream_accepted(spec_token_kinds(s));
}

} // verus!
