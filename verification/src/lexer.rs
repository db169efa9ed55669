//! The lexical scanner: turns source text into the token stream the grammar
//! engine consumes. `spec_scan` is the mathematical statement of the
//! scanning discipline (longest match, line counting, comment and
//! whitespace skipping); `C1Lexer` is proved to hold exactly that token
//! sequence and to expose the one-token-lookahead cursor over it.

use vstd::prelude::*;
use vstd::string::StrSliceExecFns;

use crate::grammar::tok_at;
use crate::token::{C1Token, Token, TokenModel};

verus! {

/// Whitespace other than a newline.
pub open spec fn is_space_char(c: char) -> bool {
    c == ' ' || c == '\t' || c == '\r'
}

/// A decimal digit.
pub open spec fn is_digit_char(c: char) -> bool {
    ('0' as u32) <= (c as u32) && (c as u32) <= ('9' as u32)
}

/// An ASCII letter.
pub open spec fn is_letter_char(c: char) -> bool {
    (('a' as u32) <= (c as u32) && (c as u32) <= ('z' as u32)) || (('A' as u32) <= (c as u32) && (c
        as u32) <= ('Z' as u32))
}

/// A character that may open a word (identifier or keyword).
pub open spec fn is_ident_start_char(c: char) -> bool {
    is_letter_char(c) || c == '_'
}

/// A character that may continue a word.
pub open spec fn is_ident_char(c: char) -> bool {
    is_ident_start_char(c) || is_digit_char(c)
}

/// Advance the line counter, saturating at the largest representable line.
pub open spec fn spec_bump_line(line: u32) -> u32 {
    if line == u32::MAX {
        line
    } else {
        (line + 1) as u32
    }
}

/// First index at or after `i` whose character no longer continues a word.
pub open spec fn spec_ident_end(s: Seq<char>, i: int) -> int
    decreases s.len() - i,
{
    if 0 <= i < s.len() && is_ident_char(s[i]) {
        spec_ident_end(s, i + 1)
    } else {
        i
    }
}

/// First index at or after `i` whose character is not a digit.
pub open spec fn spec_digits_end(s: Seq<char>, i: int) -> int
    decreases s.len() - i,
{
    if 0 <= i < s.len() && is_digit_char(s[i]) {
        spec_digits_end(s, i + 1)
    } else {
        i
    }
}

/// Keyword or constant recognition for a completed word.
pub open spec fn spec_classify_word(w: Seq<char>) -> C1Token {
    if w == seq!['i', 'f'] {
        C1Token::KwIf
    } else if w == seq!['r', 'e', 't', 'u', 'r', 'n'] {
        C1Token::KwReturn
    } else if w == seq!['p', 'r', 'i', 'n', 't', 'f'] {
        C1Token::KwPrintf
    } else if w == seq!['v', 'o', 'i', 'd'] {
        C1Token::KwVoid
    } else if w == seq!['b', 'o', 'o', 'l'] {
        C1Token::KwBoolean
    } else if w == seq!['i', 'n', 't'] {
        C1Token::KwInt
    } else if w == seq!['f', 'l', 'o', 'a', 't'] {
        C1Token::KwFloat
    } else if w == seq!['t', 'r', 'u', 'e'] || w == seq!['f', 'a', 'l', 's', 'e'] {
        C1Token::ConstBoolean
    } else {
        C1Token::Identifier
    }
}

/// Operator or punctuation starting at `i` (two-character forms first), and
/// how many characters it spans. Characters no token can start become
/// `Unknown`, which no grammar rule accepts.
pub open spec fn spec_operator(s: Seq<char>, i: int) -> (C1Token, int) {
    let c = s[i];
    if c == '=' && i + 1 < s.len() && s[i + 1] == '=' {
        (C1Token::Equal, 2)
    } else if c == '=' {
        (C1Token::Assign, 1)
    } else if c == '!' && i + 1 < s.len() && s[i + 1] == '=' {
        (C1Token::NotEqual, 2)
    } else if c == '<' && i + 1 < s.len() && s[i + 1] == '=' {
        (C1Token::LessEqual, 2)
    } else if c == '<' {
        (C1Token::Less, 1)
    } else if c == '>' && i + 1 < s.len() && s[i + 1] == '=' {
        (C1Token::GreaterEqual, 2)
    } else if c == '>' {
        (C1Token::Greater, 1)
    } else if c == '&' && i + 1 < s.len() && s[i + 1] == '&' {
        (C1Token::And, 2)
    } else if c == '|' && i + 1 < s.len() && s[i + 1] == '|' {
        (C1Token::Or, 2)
    } else if c == '+' {
        (C1Token::Plus, 1)
    } else if c == '-' {
        (C1Token::Minus, 1)
    } else if c == '*' {
        (C1Token::Asterisk, 1)
    } else if c == '/' {
        (C1Token::Slash, 1)
    } else if c == '(' {
        (C1Token::LeftParenthesis, 1)
    } else if c == ')' {
        (C1Token::RightParenthesis, 1)
    } else if c == '{' {
        (C1Token::LeftBrace, 1)
    } else if c == '}' {
        (C1Token::RightBrace, 1)
    } else if c == ';' {
        (C1Token::Semicolon, 1)
    } else {
        (C1Token::Unknown, 1)
    }
}

/// The tokens of `s` from index `i` on, with `line` the line the cursor is
/// on. Whitespace and comments separate tokens and are dropped.
pub open spec fn spec_scan(s: Seq<char>, i: int, line: u32) -> Seq<TokenModel>
    decreases s.len() - i,
{
    if !(0 <= i < s.len()) {
        Seq::empty()
    } else {
        let c = s[i];
        if c == '\n' {
            spec_scan(s, i + 1, spec_bump_line(line))
        } else if is_space_char(c) {
            spec_scan(s, i + 1, line)
        } else if c == '/' && i + 1 < s.len() && s[i + 1] == '/' {
            spec_scan_line_comment(s, i + 2, line)
        } else if c == '/' && i + 1 < s.len() && s[i + 1] == '*' {
            spec_scan_block_comment(s, i + 2, line)
        } else if is_ident_start_char(c) {
            let e = spec_ident_end(s, i + 1);
            if i < e <= s.len() {
                seq![
                    TokenModel {
                        kind: spec_classify_word(s.subrange(i, e)),
                        line: line,
                        text: s.subrange(i, e),
                    },
                ] + spec_scan(s, e, line)
            } else {
                Seq::empty()
            }
        } else if is_digit_char(c) {
            let e = spec_digits_end(s, i + 1);
            if e < s.len() && s[e] == '.' && e + 1 < s.len() && is_digit_char(s[e + 1]) {
                let e2 = spec_digits_end(s, e + 2);
                if i < e2 <= s.len() {
                    seq![
                        TokenModel { kind: C1Token::ConstFloat, line: line, text: s.subrange(i, e2) },
                    ] + spec_scan(s, e2, line)
                } else {
                    Seq::empty()
                }
            } else {
                if i < e <= s.len() {
                    seq![TokenModel { kind: C1Token::ConstInt, line: line, text: s.subrange(i, e) }]
                        + spec_scan(s, e, line)
                } else {
                    Seq::empty()
                }
            }
        } else {
            let (kind, w) = spec_operator(s, i);
            if i < i + w && i + w <= s.len() {
                seq![TokenModel { kind: kind, line: line, text: s.subrange(i, i + w) }] + spec_scan(
                    s,
                    i + w,
                    line,
                )
            } else {
                Seq::empty()
            }
        }
    }
}

/// Scanning inside a `//` comment: everything up to the next newline is
/// dropped; a comment that reaches end of input yields no further tokens.
pub open spec fn spec_scan_line_comment(s: Seq<char>, i: int, line: u32) -> Seq<TokenModel>
    decreases s.len() - i,
{
    if !(0 <= i < s.len()) {
        Seq::empty()
    } else if s[i] == '\n' {
        spec_scan(s, i + 1, spec_bump_line(line))
    } else {
        spec_scan_line_comment(s, i + 1, line)
    }
}

/// Scanning inside a `/*` comment: everything up to the closing `*/` is
/// dropped, newlines still count lines, and an unterminated comment runs to
/// end of input.
pub open spec fn spec_scan_block_comment(s: Seq<char>, i: int, line: u32) -> Seq<TokenModel>
    decreases s.len() - i,
{
    if !(0 <= i < s.len()) {
        Seq::empty()
    } else if s[i] == '*' && i + 1 < s.len() && s[i + 1] == '/' {
        spec_scan(s, i + 2, line)
    } else if s[i] == '\n' {
        spec_scan_block_comment(s, i + 1, spec_bump_line(line))
    } else {
        spec_scan_block_comment(s, i + 1, line)
    }
}

/// All tokens of a source text, first line numbered 1.
pub open spec fn spec_tokens(s: Seq<char>) -> Seq<TokenModel> {
    spec_scan(s, 0, 1)
}

/// The kinds of all tokens of a source text: what the grammar judges.
pub open spec fn spec_token_kinds(s: Seq<char>) -> Seq<C1Token> {
    kinds_of(spec_tokens(s))
}

/// The models of a sequence of physical tokens.
pub open spec fn token_models(ts: Seq<Token>) -> Seq<TokenModel> {
    ts.map_values(|t: Token| t@)
}

/// The kinds of a sequence of token models.
pub open spec fn kinds_of(ts: Seq<TokenModel>) -> Seq<C1Token> {
    ts.map_values(|t: TokenModel| t.kind)
}

/// The token model at index `j` of a stream, or `None` past the end.
pub open spec fn model_at(ts: Seq<TokenModel>, j: int) -> Option<TokenModel> {
    if 0 <= j < ts.len() {
        Some(ts[j])
    } else {
        None
    }
}

/// Text from `i` on that scans to nothing: whitespace, newlines and
/// comments only.
pub open spec fn is_blank_from(s: Seq<char>, i: int) -> bool
    decreases s.len() - i,
{
    if !(0 <= i < s.len()) {
        true
    } else if s[i] == '\n' || is_space_char(s[i]) {
        is_blank_from(s, i + 1)
    } else if s[i] == '/' && i + 1 < s.len() && s[i + 1] == '/' {
        is_blank_from_line_comment(s, i + 2)
    } else if s[i] == '/' && i + 1 < s.len() && s[i + 1] == '*' {
        is_blank_from_block_comment(s, i + 2)
    } else {
        false
    }
}

/// As `is_blank_from`, inside a `//` comment.
pub open spec fn is_blank_from_line_comment(s: Seq<char>, i: int) -> bool
    decreases s.len() - i,
{
    if !(0 <= i < s.len()) {
        true
    } else if s[i] == '\n' {
        is_blank_from(s, i + 1)
    } else {
        is_blank_from_line_comment(s, i + 1)
    }
}

/// As `is_blank_from`, inside a `/*` comment.
pub open spec fn is_blank_from_block_comment(s: Seq<char>, i: int) -> bool
    decreases s.len() - i,
{
    if !(0 <= i < s.len()) {
        true
    } else if s[i] == '*' && i + 1 < s.len() && s[i + 1] == '/' {
        is_blank_from(s, i + 2)
    } else {
        is_blank_from_block_comment(s, i + 1)
    }
}

fn exec_is_space(c: char) -> (b: bool)
    ensures
        b == is_space_char(c),
{
    c == ' ' || c == '\t' || c == '\r'
}

fn exec_is_digit(c: char) -> (b: bool)
    ensures
        b == is_digit_char(c),
{
    let u = c as u32;
    ('0' as u32) <= u && u <= ('9' as u32)
}

fn exec_is_ident_start(c: char) -> (b: bool)
    ensures
        b == is_ident_start_char(c),
{
    let u = c as u32;
    (('a' as u32) <= u && u <= ('z' as u32)) || (('A' as u32) <= u && u <= ('Z' as u32)) || c == '_'
}

fn exec_is_ident_char(c: char) -> (b: bool)
    ensures
        b == is_ident_char(c),
{
    exec_is_ident_start(c) || exec_is_digit(c)
}

fn bump_line(line: u32) -> (r: u32)
    ensures
        r == spec_bump_line(line),
{
    if line == u32::MAX {
        line
    } else {
        line + 1
    }
}

/// The characters of a text, in order.
fn chars_of(text: &str) -> (cs: Vec<char>)
    ensures
        cs@ == text@,
{
    let n = text.unicode_len();
    let mut cs: Vec<char> = Vec::new();
    let mut i: usize = 0;
    while i < n
        invariant
            n == text@.len(),
            i <= n,
            cs@ == text@.subrange(0, i as int),
        decreases n - i,
    {
        let c = text.get_char(i);
        cs.push(c);
        i = i + 1;
        proof {
            assert(text@.subrange(0, i as int) =~= text@.subrange(0, i - 1).push(text@[i - 1]));
        }
    }
    proof {
        assert(text@.subrange(0, n as int) =~= text@);
    }
    cs
}

fn ident_end(cs: &Vec<char>, start: usize) -> (e: usize)
    requires
        start <= cs@.len(),
    ensures
        e as int == spec_ident_end(cs@, start as int),
        start <= e <= cs@.len(),
{
    let mut j = start;
    while j < cs.len() && exec_is_ident_char(cs[j])
        invariant
            start <= j <= cs@.len(),
            spec_ident_end(cs@, start as int) == spec_ident_end(cs@, j as int),
        decreases cs@.len() - j,
    {
        j = j + 1;
    }
    j
}

fn digits_end(cs: &Vec<char>, start: usize) -> (e: usize)
    requires
        start <= cs@.len(),
    ensures
        e as int == spec_digits_end(cs@, start as int),
        start <= e <= cs@.len(),
{
    let mut j = start;
    while j < cs.len() && exec_is_digit(cs[j])
        invariant
            start <= j <= cs@.len(),
            spec_digits_end(cs@, start as int) == spec_digits_end(cs@, j as int),
        decreases cs@.len() - j,
    {
        j = j + 1;
    }
    j
}

fn classify_word(cs: &Vec<char>, start: usize, end: usize) -> (k: C1Token)
    requires
        start < end <= cs@.len(),
    ensures
        k == spec_classify_word(cs@.subrange(start as int, end as int)),
{
    let ghost w = cs@.subrange(start as int, end as int);
    let n = end - start;
    if n == 2 && cs[start] == 'i' && cs[start + 1] == 'f' {
        proof {
            assert(w =~= seq!['i', 'f']);
        }
        C1Token::KwIf
    } else if n == 6 && cs[start] == 'r' && cs[start + 1] == 'e' && cs[start + 2] == 't' && cs[start
        + 3] == 'u' && cs[start + 4] == 'r' && cs[start + 5] == 'n' {
        proof {
            assert(w =~= seq!['r', 'e', 't', 'u', 'r', 'n']);
        }
        C1Token::KwReturn
    } else if n == 6 && cs[start] == 'p' && cs[start + 1] == 'r' && cs[start + 2] == 'i' && cs[start
        + 3] == 'n' && cs[start + 4] == 't' && cs[start + 5] == 'f' {
        proof {
            assert(w =~= seq!['p', 'r', 'i', 'n', 't', 'f']);
        }
        C1Token::KwPrintf
    } else if n == 4 && cs[start] == 'v' && cs[start + 1] == 'o' && cs[start + 2] == 'i' && cs[start
        + 3] == 'd' {
        proof {
            assert(w =~= seq!['v', 'o', 'i', 'd']);
        }
        C1Token::KwVoid
    } else if n == 4 && cs[start] == 'b' && cs[start + 1] == 'o' && cs[start + 2] == 'o' && cs[start
        + 3] == 'l' {
        proof {
            assert(w =~= seq!['b', 'o', 'o', 'l']);
        }
        C1Token::KwBoolean
    } else if n == 3 && cs[start] == 'i' && cs[start + 1] == 'n' && cs[start + 2] == 't' {
        proof {
            assert(w =~= seq!['i', 'n', 't']);
        }
        C1Token::KwInt
    } else if n == 5 && cs[start] == 'f' && cs[start + 1] == 'l' && cs[start + 2] == 'o' && cs[start
        + 3] == 'a' && cs[start + 4] == 't' {
        proof {
            assert(w =~= seq!['f', 'l', 'o', 'a', 't']);
        }
        C1Token::KwFloat
    } else if n == 4 && cs[start] == 't' && cs[start + 1] == 'r' && cs[start + 2] == 'u' && cs[start
        + 3] == 'e' {
        proof {
            assert(w =~= seq!['t', 'r', 'u', 'e']);
        }
        C1Token::ConstBoolean
    } else if n == 5 && cs[start] == 'f' && cs[start + 1] == 'a' && cs[start + 2] == 'l' && cs[start
        + 3] == 's' && cs[start + 4] == 'e' {
        proof {
            assert(w =~= seq!['f', 'a', 'l', 's', 'e']);
        }
        C1Token::ConstBoolean
    } else {
        proof {
            assert(w.len() == n && forall|q: int| 0 <= q < n ==> w[q] == cs@[start + q]);
        }
        C1Token::Identifier
    }
}

fn operator_at(cs: &Vec<char>, i: usize) -> (r: (C1Token, usize))
    requires
        i < cs@.len(),
    ensures
        (r.0, r.1 as int) == spec_operator(cs@, i as int),
        i < i + r.1 <= cs@.len(),
{
    let n = cs.len();
    let c = cs[i];
    let two = i + 1 < n;
    if c == '=' && two && cs[i + 1] == '=' {
        (C1Token::Equal, 2)
    } else if c == '=' {
        (C1Token::Assign, 1)
    } else if c == '!' && two && cs[i + 1] == '=' {
        (C1Token::NotEqual, 2)
    } else if c == '<' && two && cs[i + 1] == '=' {
        (C1Token::LessEqual, 2)
    } else if c == '<' {
        (C1Token::Less, 1)
    } else if c == '>' && two && cs[i + 1] == '=' {
        (C1Token::GreaterEqual, 2)
    } else if c == '>' {
        (C1Token::Greater, 1)
    } else if c == '&' && two && cs[i + 1] == '&' {
        (C1Token::And, 2)
    } else if c == '|' && two && cs[i + 1] == '|' {
        (C1Token::Or, 2)
    } else if c == '+' {
        (C1Token::Plus, 1)
    } else if c == '-' {
        (C1Token::Minus, 1)
    } else if c == '*' {
        (C1Token::Asterisk, 1)
    } else if c == '/' {
        (C1Token::Slash, 1)
    } else if c == '(' {
        (C1Token::LeftParenthesis, 1)
    } else if c == ')' {
        (C1Token::RightParenthesis, 1)
    } else if c == '{' {
        (C1Token::LeftBrace, 1)
    } else if c == '}' {
        (C1Token::RightBrace, 1)
    } else if c == ';' {
        (C1Token::Semicolon, 1)
    } else {
        (C1Token::Unknown, 1)
    }
}

fn skip_line_comment(cs: &Vec<char>, start: usize, line: u32) -> (r: (usize, u32))
    requires
        start <= cs@.len(),
    ensures
        start <= r.0 <= cs@.len(),
        spec_scan_line_comment(cs@, start as int, line) == spec_scan(cs@, r.0 as int, r.1),
{
    let mut j = start;
    while j < cs.len() && cs[j] != '\n'
        invariant
            start <= j <= cs@.len(),
            spec_scan_line_comment(cs@, start as int, line) == spec_scan_line_comment(
                cs@,
                j as int,
                line,
            ),
        decreases cs@.len() - j,
    {
        j = j + 1;
    }
    if j < cs.len() {
        (j + 1, bump_line(line))
    } else {
        (j, line)
    }
}

fn skip_block_comment(cs: &Vec<char>, start: usize, line: u32) -> (r: (usize, u32))
    requires
        start <= cs@.len(),
    ensures
        start <= r.0 <= cs@.len(),
        spec_scan_block_comment(cs@, start as int, line) == spec_scan(cs@, r.0 as int, r.1),
{
    let mut j = start;
    let mut ln = line;
    loop
        invariant
            start <= j <= cs@.len(),
            spec_scan_block_comment(cs@, start as int, line) == spec_scan_block_comment(
                cs@,
                j as int,
                ln,
            ),
        decreases cs@.len() - j,
    {
        if j >= cs.len() {
            return (j, ln);
        }
        let c = cs[j];
        if c == '*' && j + 1 < cs.len() && cs[j + 1] == '/' {
            return (j + 2, ln);
        } else if c == '\n' {
            ln = bump_line(ln);
            j = j + 1;
        } else {
            j = j + 1;
        }
    }
}

/// Scan the whole text into physical tokens whose models are exactly
/// `spec_tokens(text@)`.
fn scan_tokens(text: &str, cs: &Vec<char>) -> (tokens: Vec<Token>)
    requires
        cs@ == text@,
    ensures
        token_models(tokens@) == spec_tokens(text@),
{
    let mut tokens: Vec<Token> = Vec::new();
    let mut i: usize = 0;
    let mut line: u32 = 1;
    while i < cs.len()
        invariant
            cs@ == text@,
            i <= cs@.len(),
            token_models(tokens@) + spec_scan(text@, i as int, line) == spec_tokens(text@),
        decreases cs@.len() - i,
    {
        let c = cs[i];
        if c == '\n' {
            line = bump_line(line);
            i = i + 1;
        } else if exec_is_space(c) {
            i = i + 1;
        } else if c == '/' && i + 1 < cs.len() && cs[i + 1] == '/' {
            let r = skip_line_comment(cs, i + 2, line);
            i = r.0;
            line = r.1;
        } else if c == '/' && i + 1 < cs.len() && cs[i + 1] == '*' {
            let r = skip_block_comment(cs, i + 2, line);
            i = r.0;
            line = r.1;
        } else {
            let ghost toks0 = tokens@;
            let start = i;
            let kind: C1Token;
            let end: usize;
            if exec_is_ident_start(c) {
                let e = ident_end(cs, i + 1);
                kind = classify_word(cs, i, e);
                end = e;
            } else if exec_is_digit(c) {
                let e = digits_end(cs, i + 1);
                if e < cs.len() && cs[e] == '.' && e + 1 < cs.len() && exec_is_digit(cs[e + 1]) {
                    kind = C1Token::ConstFloat;
                    end = digits_end(cs, e + 2);
                } else {
                    kind = C1Token::ConstInt;
                    end = e;
                }
            } else {
                let op = operator_at(cs, i);
                kind = op.0;
                end = i + op.1;
            }
            let t = Token { kind, line, text: text.substring_char(start, end).to_owned() };
            proof {
                assert(spec_scan(text@, i as int, line) == seq![t@] + spec_scan(
                    text@,
                    end as int,
                    line,
                ));
            }
            tokens.push(t);
            proof {
                assert(token_models(tokens@) =~= token_models(toks0).push(t@));
                assert(token_models(toks0).push(t@) + spec_scan(text@, end as int, line)
                    =~= token_models(toks0) + (seq![t@] + spec_scan(text@, end as int, line)));
            }
            i = end;
        }
    }
    tokens
}

/// The token source: an ordered, finite sequence of tokens with a
/// forward-only cursor offering one token of lookahead.
pub struct C1Lexer {
    pub tokens: Vec<Token>,
    pub position: usize,
}

impl C1Lexer {
    /// The models of all tokens, in order.
    pub open spec fn toks(&self) -> Seq<TokenModel> {
        token_models(self.tokens@)
    }

    /// The kinds of all tokens: the stream the grammar judges.
    pub open spec fn kinds(&self) -> Seq<C1Token> {
        kinds_of(self.toks())
    }

    /// Cursor position.
    pub open spec fn pos(&self) -> int {
        self.position as int
    }

    /// The cursor never runs past the end of the stream.
    pub open spec fn wf(&self) -> bool {
        self.position <= self.tokens@.len()
    }

    /// The token model at offset `j`, if any.
    pub open spec fn model_at(&self, j: int) -> Option<TokenModel> {
        model_at(self.toks(), j)
    }

    /// Scan `text` and place the cursor on the first token.
    pub fn new(text: &str) -> (l: C1Lexer)
        ensures
            l.wf(),
            l.pos() == 0,
            l.toks() == spec_tokens(text@),
    {
        let cs = chars_of(text);
        let tokens = scan_tokens(text, &cs);
        C1Lexer { tokens, position: 0 }
    }

    /// Kind of the token at the cursor, or `None` at end of input.
    pub fn current_token(&self) -> (r: Option<C1Token>)
        ensures
            r == tok_at(self.kinds(), self.pos()),
    {
        if self.position < self.tokens.len() {
            Some(self.tokens[self.position].kind)
        } else {
            None
        }
    }

    /// Kind of the token just after the cursor, or `None` if none remains.
    pub fn peek_token(&self) -> (r: Option<C1Token>)
        ensures
            r == tok_at(self.kinds(), self.pos() + 1),
    {
        if self.position < self.tokens.len() && self.position + 1 < self.tokens.len() {
            Some(self.tokens[self.position + 1].kind)
        } else {
            None
        }
    }

    /// Move the cursor forward over the token it rests on. The cursor only
    /// moves forward; a consumed token is never revisited.
    pub fn eat(&mut self)
        requires
            old(self).wf(),
            old(self).pos() < old(self).toks().len(),
        ensures
            final(self).wf(),
            final(self).toks() == old(self).toks(),
            final(self).pos() == old(self).pos() + 1,
    {
        let n = self.tokens.len();
        if self.position < n {
            self.position = self.position + 1;
        }
    }

    /// Line number of the token at the cursor, for diagnostics.
    pub fn current_line_number(&self) -> (r: Option<u32>)
        ensures
            (r is Some) == (self.pos() < self.toks().len()),
            r matches Some(n) ==> n == self.toks()[self.pos()].line,
    {
        if self.position < self.tokens.len() {
            Some(self.tokens[self.position].line)
        } else {
            None
        }
    }

    /// Literal text of the token at the cursor, for diagnostics.
    pub fn current_text(&self) -> (r: Option<String>)
        ensures
            (r is Some) == (self.pos() < self.toks().len()),
            r matches Some(s) ==> s@ == self.toks()[self.pos()].text,
    {
        if self.position < self.tokens.len() {
            Some(self.tokens[self.position].text.clone())
        } else {
            None
        }
    }

    /// Line number of the lookahead token, for diagnostics.
    pub fn peek_line_number(&self) -> (r: Option<u32>)
        ensures
            (r is Some) == (self.pos() + 1 < self.toks().len()),
            r matches Some(n) ==> n == self.toks()[self.pos() + 1].line,
    {
        if self.position < self.tokens.len() && self.position + 1 < self.tokens.len() {
            Some(self.tokens[self.position + 1].line)
        } else {
            None
        }
    }

    /// Literal text of the lookahead token, for diagnostics.
    pub fn peek_text(&self) -> (r: Option<String>)
        ensures
            (r is Some) == (self.pos() + 1 < self.toks().len()),
            r matches Some(s) ==> s@ == self.toks()[self.pos() + 1].text,
    {
        if self.position < self.tokens.len() && self.position + 1 < self.tokens.len() {
            Some(self.tokens[self.position + 1].text.clone())
        } else {
            None
        }
    }
}

} // verus!
