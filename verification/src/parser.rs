//! The recursive-descent grammar engine. Each nonterminal of the grammar is
//! one procedure; each procedure's contract states that it succeeds exactly
//! when the corresponding spec-level grammar function derives the construct
//! at the cursor, and that on success the cursor lands exactly where that
//! function says. The engine owns its token source exclusively and extends
//! its query surface by explicit delegation.

use vstd::prelude::*;
use vstd::string::{StrSliceExecFns, StringExecFns};

use crate::grammar::{
    can_start_factor, can_start_statement, spec_assignment, spec_assignment_in_parenthesis,
    spec_block, spec_block_first_part,
    spec_eat, spec_expr, spec_factor, spec_function_call, spec_function_definition,
    spec_identifier, spec_if_statement, spec_printf, spec_program, spec_return_statement,
    spec_return_type, spec_simp_expr, spec_simp_expr_tail, spec_stat_assignment, spec_statement,
    is_add_op, is_assignment_start, is_mul_op, is_rel_op, is_statement_start,
    spec_statement_list, spec_term, spec_term_tail, tok_at,
};
use crate::lexer::{kinds_of, model_at, spec_token_kinds, spec_tokens, C1Lexer};
use crate::token::{C1Token, ParseResult, TokenModel};

verus! {

/// The decimal digit character for a value below ten.
pub open spec fn spec_digit_char(d: int) -> char {
    if d == 0 {
        '0'
    } else if d == 1 {
        '1'
    } else if d == 2 {
        '2'
    } else if d == 3 {
        '3'
    } else if d == 4 {
        '4'
    } else if d == 5 {
        '5'
    } else if d == 6 {
        '6'
    } else if d == 7 {
        '7'
    } else if d == 8 {
        '8'
    } else {
        '9'
    }
}

/// The decimal rendering of a line number.
pub open spec fn spec_line_number_text(n: int) -> Seq<char>
    decreases n,
{
    if n < 10 {
        seq![spec_digit_char(n)]
    } else {
        spec_line_number_text(n / 10).push(spec_digit_char(n % 10))
    }
}

/// The diagnostic for a violated expectation: the reason, then either the
/// offending token's line and literal text, or a note that input ended.
pub open spec fn spec_message_at(reason: Seq<char>, t: Option<TokenModel>) -> Seq<char> {
    match t {
        None => reason + ". Reached EOF"@,
        Some(tm) => reason + " at line "@ + spec_line_number_text(tm.line as int)
            + " with text: '"@ + tm.text + "'"@,
    }
}

/// What checking-and-eating a whole slice of expected tokens does: each
/// expected token in turn consumes the token at the cursor when it matches
/// there; a mismatch consumes nothing and is remembered. The result is the
/// final cursor and whether every expected token matched.
pub open spec fn spec_eat_all(ks: Seq<C1Token>, i: int, ts: Seq<C1Token>) -> (int, bool)
    decreases ts.len(),
{
    if ts.len() == 0 {
        (i, true)
    } else {
        let first_ok = tok_at(ks, i) == Some(ts[0]);
        let j = if first_ok {
            i + 1
        } else {
            i
        };
        let rest = spec_eat_all(ks, j, ts.drop_first());
        (rest.0, first_ok && rest.1)
    }
}


// The first-error functions: for each nonterminal, the diagnostic of the
// first (leftmost, in top-down evaluation order) violation when that
// nonterminal fails to derive at `i` over the token stream `ts`. They mirror
// the grammar functions production for production, so every rule procedure
// can promise the exact `Err` payload it returns, and `parse` can promise
// that the first violation's diagnostic reaches the caller unmodified. On a
// stream a nonterminal derives, the corresponding function's value is
// meaningless and nothing constrains it.

/// First error of `identifier` at `i`.
pub open spec fn err_identifier(ts: Seq<TokenModel>, i: int) -> Seq<char> {
    if tok_at(kinds_of(ts), i) is None {
        spec_message_at("Expected an identifier"@, model_at(ts, i))
    } else {
        spec_message_at("Invalid identifier"@, model_at(ts, i))
    }
}

/// First error of `return_type` at `i`.
pub open spec fn err_return_type(ts: Seq<TokenModel>, i: int) -> Seq<char> {
    if tok_at(kinds_of(ts), i) is None {
        spec_message_at("Expected a return type"@, model_at(ts, i))
    } else {
        spec_message_at("Invalid return type"@, model_at(ts, i))
    }
}

/// First error of `function_call` at `i`.
pub open spec fn err_function_call(ts: Seq<TokenModel>, i: int) -> Seq<char> {
    let ks = kinds_of(ts);
    if spec_identifier(ks, i) is None {
        err_identifier(ts, i)
    } else if spec_eat(ks, i + 1, C1Token::LeftParenthesis) is None {
        spec_message_at("Expected '(' after function name"@, model_at(ts, i + 1))
    } else {
        spec_message_at("Expected ')' after function name"@, model_at(ts, i + 2))
    }
}

/// First error of `assignment` at `i`.
pub open spec fn err_assignment(ts: Seq<TokenModel>, i: int) -> Seq<char>
    decreases ts.len() - i, 6int,
{
    let ks = kinds_of(ts);
    if tok_at(ks, i) == Some(C1Token::Identifier) && tok_at(ks, i + 1) == Some(C1Token::Assign) {
        err_assignment(ts, i + 2)
    } else {
        err_expr(ts, i)
    }
}

/// First error of `expr` at `i`.
pub open spec fn err_expr(ts: Seq<TokenModel>, i: int) -> Seq<char>
    decreases ts.len() - i, 5int,
{
    let ks = kinds_of(ts);
    match spec_simp_expr(ks, i) {
        None => err_simp_expr(ts, i),
        Some(j) => match tok_at(ks, j) {
            Some(t) => if is_rel_op(t) && i <= j {
                err_simp_expr(ts, j + 1)
            } else {
                Seq::empty()
            },
            None => Seq::empty(),
        },
    }
}

/// First error of `simp_expr` at `i`.
pub open spec fn err_simp_expr(ts: Seq<TokenModel>, i: int) -> Seq<char>
    decreases ts.len() - i, 4int,
{
    let ks = kinds_of(ts);
    let start = if tok_at(ks, i) == Some(C1Token::Minus) {
        i + 1
    } else {
        i
    };
    match spec_term(ks, start) {
        None => err_term(ts, start),
        Some(j) => if i < j && j <= ts.len() {
            err_simp_expr_tail(ts, j)
        } else {
            Seq::empty()
        },
    }
}

/// First error of the `( add_op term )*` continuation at `i`.
pub open spec fn err_simp_expr_tail(ts: Seq<TokenModel>, i: int) -> Seq<char>
    decreases ts.len() - i, 3int,
{
    let ks = kinds_of(ts);
    match tok_at(ks, i) {
        Some(t) => if is_add_op(t) {
            match spec_term(ks, i + 1) {
                None => err_term(ts, i + 1),
                Some(j) => if i < j && j <= ts.len() {
                    err_simp_expr_tail(ts, j)
                } else {
                    Seq::empty()
                },
            }
        } else {
            Seq::empty()
        },
        None => Seq::empty(),
    }
}

/// First error of `term` at `i`.
pub open spec fn err_term(ts: Seq<TokenModel>, i: int) -> Seq<char>
    decreases ts.len() - i, 2int,
{
    let ks = kinds_of(ts);
    match spec_factor(ks, i) {
        None => err_factor(ts, i),
        Some(j) => if i < j && j <= ts.len() {
            err_term_tail(ts, j)
        } else {
            Seq::empty()
        },
    }
}

/// First error of the `( mul_op factor )*` continuation at `i`.
pub open spec fn err_term_tail(ts: Seq<TokenModel>, i: int) -> Seq<char>
    decreases ts.len() - i, 1int,
{
    let ks = kinds_of(ts);
    match tok_at(ks, i) {
        Some(t) => if is_mul_op(t) {
            match spec_factor(ks, i + 1) {
                None => err_factor(ts, i + 1),
                Some(j) => if i < j && j <= ts.len() {
                    err_term_tail(ts, j)
                } else {
                    Seq::empty()
                },
            }
        } else {
            Seq::empty()
        },
        None => Seq::empty(),
    }
}

/// First error of `factor` at `i`.
pub open spec fn err_factor(ts: Seq<TokenModel>, i: int) -> Seq<char>
    decreases ts.len() - i, 1int,
{
    let ks = kinds_of(ts);
    match tok_at(ks, i) {
        Some(C1Token::ConstInt) => Seq::empty(),
        Some(C1Token::ConstFloat) => Seq::empty(),
        Some(C1Token::ConstBoolean) => Seq::empty(),
        Some(C1Token::LeftParenthesis) => err_assignment_in_parenthesis(ts, i),
        Some(C1Token::Identifier) => if tok_at(ks, i + 1) == Some(C1Token::LeftParenthesis) {
            err_function_call(ts, i)
        } else {
            Seq::empty()
        },
        _ => spec_message_at("Invalid factor"@, model_at(ts, i)),
    }
}

/// First error of `assignment_in_parenthesis` at `i`.
pub open spec fn err_assignment_in_parenthesis(ts: Seq<TokenModel>, i: int) -> Seq<char>
    decreases ts.len() - i, 0int,
{
    let ks = kinds_of(ts);
    if spec_eat(ks, i, C1Token::LeftParenthesis) is None {
        spec_message_at("Expected '(' after statement"@, model_at(ts, i))
    } else {
        match spec_assignment(ks, i + 1) {
            None => err_assignment(ts, i + 1),
            Some(k) => spec_message_at("Expected ')' after statement"@, model_at(ts, k)),
        }
    }
}

/// First error of `if_statement` at `i`.
pub open spec fn err_if_statement(ts: Seq<TokenModel>, i: int) -> Seq<char>
    decreases ts.len() - i, 0int,
{
    let ks = kinds_of(ts);
    if tok_at(ks, i) is None {
        spec_message_at("Expected an if statement"@, model_at(ts, i))
    } else if tok_at(ks, i) != Some(C1Token::KwIf) {
        spec_message_at("Invalid if statement"@, model_at(ts, i))
    } else {
        match spec_assignment_in_parenthesis(ks, i + 1) {
            None => err_assignment_in_parenthesis(ts, i + 1),
            Some(j) => if i < j && j <= ts.len() {
                err_block(ts, j)
            } else {
                Seq::empty()
            },
        }
    }
}

/// First error of `return_statement` at `i`.
pub open spec fn err_return_statement(ts: Seq<TokenModel>, i: int) -> Seq<char>
    decreases ts.len() - i, 0int,
{
    let ks = kinds_of(ts);
    if tok_at(ks, i) is None {
        spec_message_at("Expected a return statement"@, model_at(ts, i))
    } else if tok_at(ks, i) != Some(C1Token::KwReturn) {
        spec_message_at("Invalid return statement"@, model_at(ts, i))
    } else {
        match tok_at(ks, i + 1) {
            Some(t) => if is_assignment_start(t) {
                err_assignment(ts, i + 1)
            } else {
                Seq::empty()
            },
            None => Seq::empty(),
        }
    }
}

/// First error of `printf` at `i`.
pub open spec fn err_printf(ts: Seq<TokenModel>, i: int) -> Seq<char>
    decreases ts.len() - i, 0int,
{
    let ks = kinds_of(ts);
    if tok_at(ks, i) is None {
        spec_message_at("Expected a printf statement"@, model_at(ts, i))
    } else if tok_at(ks, i) != Some(C1Token::KwPrintf) {
        spec_message_at("Invalid printf statement"@, model_at(ts, i))
    } else {
        err_assignment_in_parenthesis(ts, i + 1)
    }
}

/// First error of `stat_assignment` at `i`.
pub open spec fn err_stat_assignment(ts: Seq<TokenModel>, i: int) -> Seq<char>
    decreases ts.len() - i, 0int,
{
    let ks = kinds_of(ts);
    if spec_identifier(ks, i) is None {
        err_identifier(ts, i)
    } else if tok_at(ks, i + 1) is None {
        spec_message_at("Expected a \"=\""@, model_at(ts, i + 1))
    } else if tok_at(ks, i + 1) != Some(C1Token::Assign) {
        spec_message_at("Invalid stat assignment"@, model_at(ts, i + 1))
    } else {
        err_assignment(ts, i + 2)
    }
}

/// First error of `statement` at `i`, the forced ";" included.
pub open spec fn err_statement(ts: Seq<TokenModel>, i: int) -> Seq<char>
    decreases ts.len() - i, 1int,
{
    let ks = kinds_of(ts);
    match tok_at(ks, i) {
        Some(C1Token::KwIf) => err_if_statement(ts, i),
        Some(C1Token::KwReturn) => match spec_return_statement(ks, i) {
            None => err_return_statement(ts, i),
            Some(j) => spec_message_at("Expected ';' after statement"@, model_at(ts, j)),
        },
        Some(C1Token::KwPrintf) => match spec_printf(ks, i) {
            None => err_printf(ts, i),
            Some(j) => spec_message_at("Expected ';' after statement"@, model_at(ts, j)),
        },
        Some(C1Token::Identifier) => match tok_at(ks, i + 1) {
            Some(C1Token::Assign) => match spec_stat_assignment(ks, i) {
                None => err_stat_assignment(ts, i),
                Some(j) => spec_message_at("Expected ';' after statement"@, model_at(ts, j)),
            },
            Some(C1Token::LeftParenthesis) => match spec_function_call(ks, i) {
                None => err_function_call(ts, i),
                Some(j) => spec_message_at("Expected ';' after statement"@, model_at(ts, j)),
            },
            _ => spec_message_at(
                "Invalid statement after identifier, it should be an assignment or a function call!"@,
                model_at(ts, i),
            ),
        },
        _ => spec_message_at("Invalid statement"@, model_at(ts, i)),
    }
}

/// First error of the brace form of `block` at `i`.
pub open spec fn err_block_first_part(ts: Seq<TokenModel>, i: int) -> Seq<char>
    decreases ts.len() - i, 0int,
{
    let ks = kinds_of(ts);
    if spec_eat(ks, i, C1Token::LeftBrace) is None {
        spec_message_at("Expected '{' before statement list"@, model_at(ts, i))
    } else {
        match spec_statement_list(ks, i + 1) {
            None => err_statement_list(ts, i + 1),
            Some(j) => spec_message_at("Expected '}' after statement list"@, model_at(ts, j)),
        }
    }
}

/// First error of `block` at `i`.
pub open spec fn err_block(ts: Seq<TokenModel>, i: int) -> Seq<char>
    decreases ts.len() - i, 3int,
{
    if tok_at(kinds_of(ts), i) == Some(C1Token::LeftBrace) {
        err_block_first_part(ts, i)
    } else {
        err_statement(ts, i)
    }
}

/// First error of `statement_list` at `i`.
pub open spec fn err_statement_list(ts: Seq<TokenModel>, i: int) -> Seq<char>
    decreases ts.len() - i, 4int,
{
    let ks = kinds_of(ts);
    match tok_at(ks, i) {
        None => Seq::empty(),
        Some(t) => if is_statement_start(t) {
            match spec_block(ks, i) {
                None => err_block(ts, i),
                Some(j) => if i < j && j <= ts.len() {
                    err_statement_list(ts, j)
                } else {
                    Seq::empty()
                },
            }
        } else if t == C1Token::LeftBrace {
            match spec_statement_list(ks, i + 1) {
                None => err_statement_list(ts, i + 1),
                Some(j) => match spec_eat(ks, j, C1Token::RightBrace) {
                    None => spec_message_at(
                        "Expected '}' to close a nested statement list"@,
                        model_at(ts, j),
                    ),
                    Some(k) => if i < k && k <= ts.len() {
                        err_statement_list(ts, k)
                    } else {
                        Seq::empty()
                    },
                },
            }
        } else if t == C1Token::RightBrace {
            Seq::empty()
        } else {
            spec_message_at("Invalid statement list"@, model_at(ts, i))
        },
    }
}

/// First error of `function_definition` at `i`.
pub open spec fn err_function_definition(ts: Seq<TokenModel>, i: int) -> Seq<char> {
    let ks = kinds_of(ts);
    if spec_return_type(ks, i) is None {
        err_return_type(ts, i)
    } else if spec_identifier(ks, i + 1) is None {
        err_identifier(ts, i + 1)
    } else if spec_eat(ks, i + 2, C1Token::LeftParenthesis) is None {
        spec_message_at("Expected '(' after function name"@, model_at(ts, i + 2))
    } else if spec_eat(ks, i + 3, C1Token::RightParenthesis) is None {
        spec_message_at("Expected ')' after function parameters"@, model_at(ts, i + 3))
    } else if spec_eat(ks, i + 4, C1Token::LeftBrace) is None {
        spec_message_at("Expected '{' after function name"@, model_at(ts, i + 4))
    } else {
        match spec_statement_list(ks, i + 5) {
            None => err_statement_list(ts, i + 5),
            Some(j) => spec_message_at("Expected '}' after function parameters"@, model_at(ts, j)),
        }
    }
}

/// First error of `program` at `i`: the first violation anywhere in the
/// parse, in left-to-right, top-down evaluation order.
pub open spec fn err_program(ts: Seq<TokenModel>, i: int) -> Seq<char>
    decreases ts.len() - i,
{
    let ks = kinds_of(ts);
    match tok_at(ks, i) {
        None => Seq::empty(),
        Some(_) => match spec_function_definition(ks, i) {
            None => err_function_definition(ts, i),
            Some(j) => if i < j && j <= ts.len() {
                err_program(ts, j)
            } else {
                Seq::empty()
            },
        },
    }
}

/// The message of the last mismatch that checking-and-eating a whole slice
/// of expected tokens records, formatted against the cursor where that
/// mismatch happened.
pub open spec fn err_eat_all(ts: Seq<TokenModel>, i: int, es: Seq<C1Token>, reason: Seq<char>) -> Seq<char>
    decreases es.len(),
{
    if es.len() == 0 {
        Seq::empty()
    } else {
        let ks = kinds_of(ts);
        let first_ok = tok_at(ks, i) == Some(es[0]);
        let j = if first_ok {
            i + 1
        } else {
            i
        };
        let rest = spec_eat_all(ks, j, es.drop_first());
        if !rest.1 {
            err_eat_all(ts, j, es.drop_first(), reason)
        } else if !first_ok {
            spec_message_at(reason, model_at(ts, i))
        } else {
            Seq::empty()
        }
    }
}

fn digit_text(d: u32) -> (s: &'static str)
    requires
        d < 10,
    ensures
        s@ == seq![spec_digit_char(d as int)],
{
    if d == 0 {
        proof {
            reveal_strlit("0");
            assert("0"@ =~= seq![spec_digit_char(0)]);
        }
        "0"
    } else if d == 1 {
        proof {
            reveal_strlit("1");
            assert("1"@ =~= seq![spec_digit_char(1)]);
        }
        "1"
    } else if d == 2 {
        proof {
            reveal_strlit("2");
            assert("2"@ =~= seq![spec_digit_char(2)]);
        }
        "2"
    } else if d == 3 {
        proof {
            reveal_strlit("3");
            assert("3"@ =~= seq![spec_digit_char(3)]);
        }
        "3"
    } else if d == 4 {
        proof {
            reveal_strlit("4");
            assert("4"@ =~= seq![spec_digit_char(4)]);
        }
        "4"
    } else if d == 5 {
        proof {
            reveal_strlit("5");
            assert("5"@ =~= seq![spec_digit_char(5)]);
        }
        "5"
    } else if d == 6 {
        proof {
            reveal_strlit("6");
            assert("6"@ =~= seq![spec_digit_char(6)]);
        }
        "6"
    } else if d == 7 {
        proof {
            reveal_strlit("7");
            assert("7"@ =~= seq![spec_digit_char(7)]);
        }
        "7"
    } else if d == 8 {
        proof {
            reveal_strlit("8");
            assert("8"@ =~= seq![spec_digit_char(8)]);
        }
        "8"
    } else {
        proof {
            reveal_strlit("9");
            assert("9"@ =~= seq![spec_digit_char(9)]);
        }
        "9"
    }
}

fn line_number_text(n: u32) -> (s: String)
    ensures
        s@ == spec_line_number_text(n as int),
    decreases n,
{
    if n < 10 {
        let d = digit_text(n);
        d.to_owned()
    } else {
        let mut s = line_number_text(n / 10);
        s.append(digit_text(n % 10));
        proof {
            assert(spec_line_number_text(n as int) == spec_line_number_text((n / 10) as int).push(
                spec_digit_char((n % 10) as int),
            ));
            assert(spec_line_number_text((n / 10) as int).push(spec_digit_char((n % 10) as int))
                =~= spec_line_number_text((n / 10) as int) + seq![
                spec_digit_char((n % 10) as int),
            ]);
        }
        s
    }
}

/// The grammar engine. It wraps the token source and exposes the lookahead
/// and consume operations it needs by direct delegation.
pub struct C1Parser(pub C1Lexer);

impl C1Parser {
    /// The models of all tokens of the parse.
    pub open spec fn toks(&self) -> Seq<TokenModel> {
        self.0.toks()
    }

    /// The token kinds the grammar judges.
    pub open spec fn kinds(&self) -> Seq<C1Token> {
        self.0.kinds()
    }

    /// Cursor position inside the token stream.
    pub open spec fn pos(&self) -> int {
        self.0.pos()
    }

    /// The cursor stands inside (or just past) the token stream.
    pub open spec fn wf(&self) -> bool {
        self.0.wf()
    }

    /// The token model at the cursor, if any.
    pub open spec fn current_model(&self) -> Option<TokenModel> {
        self.0.model_at(self.pos())
    }

    /// The token model one past the cursor, if any.
    pub open spec fn peek_model(&self) -> Option<TokenModel> {
        self.0.model_at(self.pos() + 1)
    }

    /// Token kind at the cursor.
    pub fn current_token(&self) -> (r: Option<C1Token>)
        ensures
            r == tok_at(self.kinds(), self.pos()),
    {
        self.0.current_token()
    }

    /// Token kind one past the cursor.
    pub fn peek_token(&self) -> (r: Option<C1Token>)
        ensures
            r == tok_at(self.kinds(), self.pos() + 1),
    {
        self.0.peek_token()
    }

    /// Consume the token at the cursor.
    pub fn eat(&mut self)
        requires
            old(self).wf(),
            tok_at(old(self).kinds(), old(self).pos()) is Some,
        ensures
            final(self).wf(),
            final(self).toks() == old(self).toks(),
            final(self).pos() == old(self).pos() + 1,
    {
        self.0.eat()
    }

    /// Line number of the token at the cursor.
    pub fn current_line_number(&self) -> (r: Option<u32>)
        ensures
            (r is Some) == (self.current_model() is Some),
            r matches Some(n) ==> self.current_model() matches Some(t) && n == t.line,
    {
        self.0.current_line_number()
    }

    /// Literal text of the token at the cursor.
    pub fn current_text(&self) -> (r: Option<String>)
        ensures
            (r is Some) == (self.current_model() is Some),
            r matches Some(s) ==> self.current_model() matches Some(t) && s@ == t.text,
    {
        self.0.current_text()
    }

    /// Line number of the lookahead token.
    pub fn peek_line_number(&self) -> (r: Option<u32>)
        ensures
            (r is Some) == (self.peek_model() is Some),
            r matches Some(n) ==> self.peek_model() matches Some(t) && n == t.line,
    {
        self.0.peek_line_number()
    }

    /// Literal text of the lookahead token.
    pub fn peek_text(&self) -> (r: Option<String>)
        ensures
            (r is Some) == (self.peek_model() is Some),
            r matches Some(s) ==> self.peek_model() matches Some(t) && s@ == t.text,
    {
        self.0.peek_text()
    }

    /// Whether the given token matches the current token.
    pub fn current_matches(&self, token: &C1Token) -> (b: bool)
        ensures
            b == (tok_at(self.kinds(), self.pos()) == Some(*token)),
    {
        match self.current_token() {
            None => false,
            Some(current) => current == *token,
        }
    }

    /// Whether the given token matches the lookahead token.
    pub fn next_matches(&self, token: &C1Token) -> (b: bool)
        ensures
            b == (tok_at(self.kinds(), self.pos() + 1) == Some(*token)),
    {
        match self.peek_token() {
            None => false,
            Some(next) => next == *token,
        }
    }

    /// Whether any of the given tokens matches the current token.
    pub fn any_match_current(&self, token: &[C1Token]) -> (b: bool)
        ensures
            b == (exists|k: int|
                0 <= k < token@.len() && tok_at(self.kinds(), self.pos()) == Some(token@[k])),
    {
        let mut k: usize = 0;
        while k < token.len()
            invariant
                k <= token@.len(),
                forall|q: int|
                    0 <= q < k ==> tok_at(self.kinds(), self.pos()) != Some(token@[q]),
            decreases token@.len() - k,
        {
            if self.current_matches(&token[k]) {
                proof {
                    assert(tok_at(self.kinds(), self.pos()) == Some(token@[k as int]));
                }
                return true;
            }
            k = k + 1;
        }
        false
    }

    /// Build the diagnostic for a violated expectation at the cursor.
    pub fn error_message_current(&self, reason: &str) -> (s: String)
        ensures
            s@ == spec_message_at(reason@, self.current_model()),
    {
        let line = self.current_line_number();
        let txt = self.current_text();
        match (line, txt) {
            (Some(ln), Some(t)) => {
                let mut s = reason.to_owned();
                s.append(" at line ");
                let lns = line_number_text(ln);
                s.append(lns.as_str());
                s.append(" with text: '");
                s.append(t.as_str());
                s.append("'");
                s
            },
            _ => {
                let mut s = reason.to_owned();
                s.append(". Reached EOF");
                s
            },
        }
    }

    /// Build the diagnostic for a violated expectation at the lookahead token.
    pub fn error_message_peek(&self, reason: &str) -> (s: String)
        ensures
            s@ == spec_message_at(reason@, self.peek_model()),
    {
        let line = self.peek_line_number();
        let txt = self.peek_text();
        match (line, txt) {
            (Some(ln), Some(t)) => {
                let mut s = reason.to_owned();
                s.append(" at line ");
                let lns = line_number_text(ln);
                s.append(lns.as_str());
                s.append(" with text: '");
                s.append(t.as_str());
                s.append("'");
                s
            },
            _ => {
                let mut s = reason.to_owned();
                s.append(". Reached EOF");
                s
            },
        }
    }

    /// Check whether the current token equals the given token; if so consume
    /// it, otherwise report the given expectation against the cursor.
    pub fn check_and_eat_token(&mut self, token: &C1Token, error_message: &str) -> (r: ParseResult)
        requires
            old(self).wf(),
        ensures
            final(self).wf(),
            final(self).toks() == old(self).toks(),
            (r is Ok) <==> spec_eat(old(self).kinds(), old(self).pos(), *token) is Some,
            r is Ok ==> spec_eat(old(self).kinds(), old(self).pos(), *token) == Some(
                final(self).pos(),
            ),
            r is Err ==> final(self).pos() == old(self).pos(),
            r matches Err(m) ==> m@ == spec_message_at(error_message@, old(self).current_model()),
    {
        if self.current_matches(token) {
            self.eat();
            Ok(())
        } else {
            Err(self.error_message_current(error_message))
        }
    }

    /// For each token in the given slice in order: consume the current token
    /// when it matches, record a mismatch otherwise, and report the last
    /// mismatch if any occurred.
    pub fn check_and_eat_tokens(&mut self, token: &[C1Token], error_message: &str) -> (r:
        ParseResult)
        requires
            old(self).wf(),
        ensures
            final(self).wf(),
            final(self).toks() == old(self).toks(),
            final(self).pos() == spec_eat_all(old(self).kinds(), old(self).pos(), token@).0,
            (r is Ok) <==> spec_eat_all(old(self).kinds(), old(self).pos(), token@).1,
            r matches Err(m) ==> m@ == err_eat_all(
                old(self).toks(),
                old(self).pos(),
                token@,
                error_message@,
            ),
    {
        let ghost ks = old(self).kinds();
        let ghost i0 = old(self).pos();
        let ghost ts = old(self).toks();
        let mut k: usize = 0;
        let mut last_err: Option<String> = None;
        proof {
            assert(token@.skip(0) =~= token@);
        }
        while k < token.len()
            invariant
                self.wf(),
                self.toks() == old(self).toks(),
                ks == self.kinds(),
                ks == old(self).kinds(),
                i0 == old(self).pos(),
                ts == old(self).toks(),
                k <= token@.len(),
                ({
                    let rest = spec_eat_all(ks, self.pos(), token@.skip(k as int));
                    spec_eat_all(ks, i0, token@) == (rest.0, (last_err is None) && rest.1)
                }),
                last_err matches Some(m) ==> (spec_eat_all(
                    ks,
                    self.pos(),
                    token@.skip(k as int),
                ).1 ==> m@ == err_eat_all(ts, i0, token@, error_message@)),
                !spec_eat_all(ks, self.pos(), token@.skip(k as int)).1 ==> err_eat_all(
                    ts,
                    i0,
                    token@,
                    error_message@,
                ) == err_eat_all(ts, self.pos(), token@.skip(k as int), error_message@),
            decreases token@.len() - k,
        {
            proof {
                assert(token@.skip(k as int)[0] == token@[k as int]);
                assert(token@.skip(k as int).drop_first() =~= token@.skip(k as int + 1));
            }
            let res = self.check_and_eat_token(&token[k], error_message);
            match res {
                Err(m) => {
                    last_err = Some(m);
                },
                Ok(()) => {},
            }
            k = k + 1;
        }
        proof {
            assert(token@.skip(k as int) =~= Seq::<C1Token>::empty());
        }
        match last_err {
            None => Ok(()),
            Some(m) => Err(m),
        }
    }

    /// Consume the current token when it matches any of the given tokens;
    /// otherwise leave the cursor alone and report the given message.
    pub fn any_match_and_eat(&mut self, token: &[C1Token], error_message: &String) -> (r:
        ParseResult)
        requires
            old(self).wf(),
        ensures
            final(self).wf(),
            final(self).toks() == old(self).toks(),
            (r is Ok) <==> (exists|q: int|
                0 <= q < token@.len() && tok_at(old(self).kinds(), old(self).pos()) == Some(
                    token@[q],
                )),
            r is Ok ==> final(self).pos() == old(self).pos() + 1,
            r is Err ==> final(self).pos() == old(self).pos(),
            r matches Err(m) ==> m@ == error_message@,
    {
        let mut k: usize = 0;
        while k < token.len()
            invariant
                self.wf(),
                self.toks() == old(self).toks(),
                self.pos() == old(self).pos(),
                k <= token@.len(),
                forall|q: int|
                    0 <= q < k ==> tok_at(self.kinds(), self.pos()) != Some(token@[q]),
            decreases token@.len() - k,
        {
            if self.current_matches(&token[k]) {
                proof {
                    assert(tok_at(self.kinds(), self.pos()) == Some(token@[k as int]));
                }
                self.eat();
                return Ok(());
            }
            k = k + 1;
        }
        Err(error_message.clone())
    }

    /// identifier ::= ID
    pub fn identifier(&mut self) -> (r: ParseResult)
        requires
            old(self).wf(),
        ensures
            final(self).wf(),
            final(self).toks() == old(self).toks(),
            (r is Ok) <==> spec_identifier(old(self).kinds(), old(self).pos()) is Some,
            r is Ok ==> spec_identifier(old(self).kinds(), old(self).pos()) == Some(
                final(self).pos(),
            ) && old(self).pos() < final(self).pos(),
            r is Err ==> final(self).pos() == old(self).pos(),
            r matches Err(m) ==> m@ == err_identifier(old(self).toks(), old(self).pos()),
    {
        match self.current_token() {
            None => Err(self.error_message_current("Expected an identifier")),
            Some(C1Token::Identifier) => {
                self.eat();
                Ok(())
            },
            Some(_) => Err(self.error_message_current("Invalid identifier")),
        }
    }

    /// return_type ::= "void" | "bool" | "int" | "float"
    pub fn return_type(&mut self) -> (r: ParseResult)
        requires
            old(self).wf(),
        ensures
            final(self).wf(),
            final(self).toks() == old(self).toks(),
            (r is Ok) <==> spec_return_type(old(self).kinds(), old(self).pos()) is Some,
            r is Ok ==> spec_return_type(old(self).kinds(), old(self).pos()) == Some(
                final(self).pos(),
            ) && old(self).pos() < final(self).pos(),
            r is Err ==> final(self).pos() == old(self).pos(),
            r matches Err(m) ==> m@ == err_return_type(old(self).toks(), old(self).pos()),
    {
        match self.current_token() {
            None => Err(self.error_message_current("Expected a return type")),
            Some(C1Token::KwVoid) | Some(C1Token::KwBoolean) | Some(C1Token::KwInt) | Some(
                C1Token::KwFloat,
            ) => {
                self.eat();
                Ok(())
            },
            Some(_) => Err(self.error_message_current("Invalid return type")),
        }
    }

    /// function_call ::= ID "(" ")"
    pub fn function_call(&mut self) -> (r: ParseResult)
        requires
            old(self).wf(),
        ensures
            final(self).wf(),
            final(self).toks() == old(self).toks(),
            (r is Ok) <==> spec_function_call(old(self).kinds(), old(self).pos()) is Some,
            r is Ok ==> spec_function_call(old(self).kinds(), old(self).pos()) == Some(
                final(self).pos(),
            ) && old(self).pos() < final(self).pos(),
            r is Err ==> old(self).pos() <= final(self).pos(),
            r matches Err(m) ==> m@ == err_function_call(old(self).toks(), old(self).pos()),
    {
        self.identifier()?;
        self.check_and_eat_token(&C1Token::LeftParenthesis, "Expected '(' after function name")?;
        self.check_and_eat_token(&C1Token::RightParenthesis, "Expected ')' after function name")?;
        Ok(())
    }

    /// factor ::= CONST_INT | CONST_FLOAT | CONST_BOOLEAN
    ///          | function_call | ID | "(" assignment ")"
    pub fn factor(&mut self) -> (r: ParseResult)
        requires
            old(self).wf(),
        ensures
            final(self).wf(),
            final(self).toks() == old(self).toks(),
            (r is Ok) <==> spec_factor(old(self).kinds(), old(self).pos()) is Some,
            r is Ok ==> spec_factor(old(self).kinds(), old(self).pos()) == Some(final(self).pos())
                && old(self).pos() < final(self).pos(),
            r is Err ==> old(self).pos() <= final(self).pos(),
            r matches Err(m) ==> m@ == err_factor(old(self).toks(), old(self).pos()),
            (r is Err && !can_start_factor(tok_at(old(self).kinds(), old(self).pos())))
                ==> final(self).pos() == old(self).pos(),
        decreases self.toks().len() - self.pos(), 1int,
    {
        match self.current_token() {
            Some(C1Token::ConstInt) => {
                self.eat();
                Ok(())
            },
            Some(C1Token::ConstFloat) => {
                self.eat();
                Ok(())
            },
            Some(C1Token::ConstBoolean) => {
                self.eat();
                Ok(())
            },
            Some(C1Token::LeftParenthesis) => {
                self.assignment_in_parenthesis()?;
                Ok(())
            },
            Some(C1Token::Identifier) => {
                match self.peek_token() {
                    Some(C1Token::LeftParenthesis) => {
                        self.function_call()?;
                        Ok(())
                    },
                    _ => {
                        self.identifier()?;
                        Ok(())
                    },
                }
            },
            _ => Err(self.error_message_current("Invalid factor")),
        }
    }

    /// term ::= factor ( ( "*" | "/" | "&&" ) factor )*
    pub fn term(&mut self) -> (r: ParseResult)
        requires
            old(self).wf(),
        ensures
            final(self).wf(),
            final(self).toks() == old(self).toks(),
            (r is Ok) <==> spec_term(old(self).kinds(), old(self).pos()) is Some,
            r is Ok ==> spec_term(old(self).kinds(), old(self).pos()) == Some(final(self).pos())
                && old(self).pos() < final(self).pos(),
            r is Err ==> old(self).pos() <= final(self).pos(),
            r matches Err(m) ==> m@ == err_term(old(self).toks(), old(self).pos()),
        decreases self.toks().len() - self.pos(), 2int,
    {
        let ghost ks = old(self).kinds();
        let ghost i0 = old(self).pos();
        let ghost ts = old(self).toks();
        self.factor()?;
        loop
            invariant
                self.wf(),
                self.toks() == old(self).toks(),
                ks == self.kinds(),
                ks == old(self).kinds(),
                i0 == old(self).pos(),
                i0 < self.pos() <= ks.len(),
                ts == old(self).toks(),
                spec_term(ks, i0) == spec_term_tail(ks, self.pos()),
                err_term(ts, i0) == err_term_tail(ts, self.pos()),
            decreases self.toks().len() - self.pos(), 2int,
        {
            if self.current_matches(&C1Token::Asterisk) || self.current_matches(&C1Token::Slash)
                || self.current_matches(&C1Token::And) {
                self.eat();
                self.factor()?;
            } else {
                return Ok(());
            }
        }
    }

    /// simp_expr ::= ( "-" )? term ( ( "+" | "-" | "||" ) term )*
    pub fn simp_expr(&mut self) -> (r: ParseResult)
        requires
            old(self).wf(),
        ensures
            final(self).wf(),
            final(self).toks() == old(self).toks(),
            (r is Ok) <==> spec_simp_expr(old(self).kinds(), old(self).pos()) is Some,
            r is Ok ==> spec_simp_expr(old(self).kinds(), old(self).pos()) == Some(
                final(self).pos(),
            ) && old(self).pos() < final(self).pos(),
            r is Err ==> old(self).pos() <= final(self).pos(),
            r matches Err(m) ==> m@ == err_simp_expr(old(self).toks(), old(self).pos()),
        decreases self.toks().len() - self.pos(), 4int,
    {
        let ghost ks = old(self).kinds();
        let ghost i0 = old(self).pos();
        let ghost ts = old(self).toks();
        if self.current_matches(&C1Token::Minus) {
            self.eat();
        }
        self.term()?;
        loop
            invariant
                self.wf(),
                self.toks() == old(self).toks(),
                ks == self.kinds(),
                ks == old(self).kinds(),
                i0 == old(self).pos(),
                i0 < self.pos() <= ks.len(),
                ts == old(self).toks(),
                spec_simp_expr(ks, i0) == spec_simp_expr_tail(ks, self.pos()),
                err_simp_expr(ts, i0) == err_simp_expr_tail(ts, self.pos()),
            decreases self.toks().len() - self.pos(), 4int,
        {
            if self.current_matches(&C1Token::Plus) || self.current_matches(&C1Token::Minus)
                || self.current_matches(&C1Token::Or) {
                self.eat();
                self.term()?;
            } else {
                return Ok(());
            }
        }
    }

    /// expr ::= simp_expr ( ( "==" | "!=" | "<=" | ">=" | "<" | ">" ) simp_expr )?
    pub fn expr(&mut self) -> (r: ParseResult)
        requires
            old(self).wf(),
        ensures
            final(self).wf(),
            final(self).toks() == old(self).toks(),
            (r is Ok) <==> spec_expr(old(self).kinds(), old(self).pos()) is Some,
            r is Ok ==> spec_expr(old(self).kinds(), old(self).pos()) == Some(final(self).pos())
                && old(self).pos() < final(self).pos(),
            r is Err ==> old(self).pos() <= final(self).pos(),
            r matches Err(m) ==> m@ == err_expr(old(self).toks(), old(self).pos()),
        decreases self.toks().len() - self.pos(), 5int,
    {
        self.simp_expr()?;
        if self.current_matches(&C1Token::Equal) || self.current_matches(&C1Token::NotEqual)
            || self.current_matches(&C1Token::LessEqual) || self.current_matches(
            &C1Token::GreaterEqual,
        ) || self.current_matches(&C1Token::Less) || self.current_matches(&C1Token::Greater) {
            self.eat();
            self.simp_expr()?;
        }
        Ok(())
    }

    /// assignment ::= ( ID "=" assignment ) | expr
    pub fn assignment(&mut self) -> (r: ParseResult)
        requires
            old(self).wf(),
        ensures
            final(self).wf(),
            final(self).toks() == old(self).toks(),
            (r is Ok) <==> spec_assignment(old(self).kinds(), old(self).pos()) is Some,
            r is Ok ==> spec_assignment(old(self).kinds(), old(self).pos()) == Some(
                final(self).pos(),
            ) && old(self).pos() < final(self).pos(),
            r is Err ==> old(self).pos() <= final(self).pos(),
            r matches Err(m) ==> m@ == err_assignment(old(self).toks(), old(self).pos()),
        decreases self.toks().len() - self.pos(), 6int,
    {
        if self.current_matches(&C1Token::Identifier) && self.next_matches(&C1Token::Assign) {
            self.identifier()?;
            match self.current_token() {
                None => Err(self.error_message_current("Expected a \"=\"")),
                Some(C1Token::Assign) => {
                    self.eat();
                    self.assignment()?;
                    Ok(())
                },
                Some(_) => Err(self.error_message_current("Invalid assignment")),
            }
        } else {
            self.expr()?;
            Ok(())
        }
    }

    /// assignment_in_parenthesis ::= "(" assignment ")"
    pub fn assignment_in_parenthesis(&mut self) -> (r: ParseResult)
        requires
            old(self).wf(),
        ensures
            final(self).wf(),
            final(self).toks() == old(self).toks(),
            (r is Ok) <==> spec_assignment_in_parenthesis(old(self).kinds(), old(self).pos())
                is Some,
            r is Ok ==> spec_assignment_in_parenthesis(old(self).kinds(), old(self).pos()) == Some(
                final(self).pos(),
            ) && old(self).pos() < final(self).pos(),
            r is Err ==> old(self).pos() <= final(self).pos(),
            r matches Err(m) ==> m@ == err_assignment_in_parenthesis(
                old(self).toks(),
                old(self).pos(),
            ),
        decreases self.toks().len() - self.pos(), 0int,
    {
        self.check_and_eat_token(&C1Token::LeftParenthesis, "Expected '(' after statement")?;
        self.assignment()?;
        self.check_and_eat_token(&C1Token::RightParenthesis, "Expected ')' after statement")?;
        Ok(())
    }

    /// if_statement ::= "if" "(" assignment ")" block
    pub fn if_statement(&mut self) -> (r: ParseResult)
        requires
            old(self).wf(),
        ensures
            final(self).wf(),
            final(self).toks() == old(self).toks(),
            (r is Ok) <==> spec_if_statement(old(self).kinds(), old(self).pos()) is Some,
            r is Ok ==> spec_if_statement(old(self).kinds(), old(self).pos()) == Some(
                final(self).pos(),
            ) && old(self).pos() < final(self).pos(),
            r is Err ==> old(self).pos() <= final(self).pos(),
            r matches Err(m) ==> m@ == err_if_statement(old(self).toks(), old(self).pos()),
            (r is Err && tok_at(old(self).kinds(), old(self).pos()) != Some(C1Token::KwIf))
                ==> final(self).pos() == old(self).pos(),
        decreases self.toks().len() - self.pos(), 0int,
    {
        match self.current_token() {
            None => Err(self.error_message_current("Expected an if statement")),
            Some(C1Token::KwIf) => {
                self.eat();
                self.assignment_in_parenthesis()?;
                self.block()?;
                Ok(())
            },
            Some(_) => Err(self.error_message_current("Invalid if statement")),
        }
    }

    /// return_statement ::= "return" ( assignment )?
    pub fn return_statement(&mut self) -> (r: ParseResult)
        requires
            old(self).wf(),
        ensures
            final(self).wf(),
            final(self).toks() == old(self).toks(),
            (r is Ok) <==> spec_return_statement(old(self).kinds(), old(self).pos()) is Some,
            r is Ok ==> spec_return_statement(old(self).kinds(), old(self).pos()) == Some(
                final(self).pos(),
            ) && old(self).pos() < final(self).pos(),
            r is Err ==> old(self).pos() <= final(self).pos(),
            r matches Err(m) ==> m@ == err_return_statement(old(self).toks(), old(self).pos()),
            (r is Err && tok_at(old(self).kinds(), old(self).pos()) != Some(C1Token::KwReturn))
                ==> final(self).pos() == old(self).pos(),
        decreases self.toks().len() - self.pos(), 0int,
    {
        match self.current_token() {
            None => Err(self.error_message_current("Expected a return statement")),
            Some(C1Token::KwReturn) => {
                self.eat();
                if self.current_matches(&C1Token::Identifier) || self.current_matches(
                    &C1Token::ConstInt,
                ) || self.current_matches(&C1Token::ConstFloat) || self.current_matches(
                    &C1Token::ConstBoolean,
                ) || self.current_matches(&C1Token::LeftParenthesis) || self.current_matches(
                    &C1Token::Minus,
                ) {
                    self.assignment()?;
                }
                Ok(())
            },
            Some(_) => Err(self.error_message_current("Invalid return statement")),
        }
    }

    /// printf ::= "printf" "(" assignment ")"
    pub fn printf(&mut self) -> (r: ParseResult)
        requires
            old(self).wf(),
        ensures
            final(self).wf(),
            final(self).toks() == old(self).toks(),
            (r is Ok) <==> spec_printf(old(self).kinds(), old(self).pos()) is Some,
            r is Ok ==> spec_printf(old(self).kinds(), old(self).pos()) == Some(final(self).pos())
                && old(self).pos() < final(self).pos(),
            r is Err ==> old(self).pos() <= final(self).pos(),
            r matches Err(m) ==> m@ == err_printf(old(self).toks(), old(self).pos()),
            (r is Err && tok_at(old(self).kinds(), old(self).pos()) != Some(C1Token::KwPrintf))
                ==> final(self).pos() == old(self).pos(),
        decreases self.toks().len() - self.pos(), 0int,
    {
        match self.current_token() {
            None => Err(self.error_message_current("Expected a printf statement")),
            Some(C1Token::KwPrintf) => {
                self.eat();
                self.assignment_in_parenthesis()?;
                Ok(())
            },
            Some(_) => Err(self.error_message_current("Invalid printf statement")),
        }
    }

    /// stat_assignment ::= ID "=" assignment
    pub fn stat_assignment(&mut self) -> (r: ParseResult)
        requires
            old(self).wf(),
        ensures
            final(self).wf(),
            final(self).toks() == old(self).toks(),
            (r is Ok) <==> spec_stat_assignment(old(self).kinds(), old(self).pos()) is Some,
            r is Ok ==> spec_stat_assignment(old(self).kinds(), old(self).pos()) == Some(
                final(self).pos(),
            ) && old(self).pos() < final(self).pos(),
            r is Err ==> old(self).pos() <= final(self).pos(),
            r matches Err(m) ==> m@ == err_stat_assignment(old(self).toks(), old(self).pos()),
        decreases self.toks().len() - self.pos(), 0int,
    {
        self.identifier()?;
        match self.current_token() {
            None => Err(self.error_message_current("Expected a \"=\"")),
            Some(C1Token::Assign) => {
                self.eat();
                self.assignment()?;
                Ok(())
            },
            Some(_) => Err(self.error_message_current("Invalid stat assignment")),
        }
    }

    /// statement ::= if_statement | return_statement ";" | printf ";"
    ///             | stat_assignment ";" | function_call ";"
    /// Every statement form but `if_statement` is followed by a forced ";".
    pub fn statement(&mut self) -> (r: ParseResult)
        requires
            old(self).wf(),
        ensures
            final(self).wf(),
            final(self).toks() == old(self).toks(),
            (r is Ok) <==> spec_statement(old(self).kinds(), old(self).pos()) is Some,
            r is Ok ==> spec_statement(old(self).kinds(), old(self).pos()) == Some(
                final(self).pos(),
            ) && old(self).pos() < final(self).pos(),
            r is Err ==> old(self).pos() <= final(self).pos(),
            r matches Err(m) ==> m@ == err_statement(old(self).toks(), old(self).pos()),
            (r is Err && !can_start_statement(tok_at(old(self).kinds(), old(self).pos())))
                ==> final(self).pos() == old(self).pos(),
            (r is Err && tok_at(old(self).kinds(), old(self).pos()) == Some(C1Token::Identifier)
                && tok_at(old(self).kinds(), old(self).pos() + 1) != Some(C1Token::Assign)
                && tok_at(old(self).kinds(), old(self).pos() + 1) != Some(
                C1Token::LeftParenthesis,
            )) ==> final(self).pos() == old(self).pos(),
            spec_return_statement(old(self).kinds(), old(self).pos()) matches Some(j) ==> ((r
                is Err && tok_at(old(self).kinds(), old(self).pos()) == Some(C1Token::KwReturn))
                ==> final(self).pos() == j),
            spec_printf(old(self).kinds(), old(self).pos()) matches Some(j) ==> ((r is Err
                && tok_at(old(self).kinds(), old(self).pos()) == Some(C1Token::KwPrintf))
                ==> final(self).pos() == j),
            spec_stat_assignment(old(self).kinds(), old(self).pos()) matches Some(j) ==> ((r
                is Err && tok_at(old(self).kinds(), old(self).pos()) == Some(C1Token::Identifier)
                && tok_at(old(self).kinds(), old(self).pos() + 1) == Some(C1Token::Assign))
                ==> final(self).pos() == j),
            spec_function_call(old(self).kinds(), old(self).pos()) matches Some(j) ==> ((r is Err
                && tok_at(old(self).kinds(), old(self).pos()) == Some(C1Token::Identifier)
                && tok_at(old(self).kinds(), old(self).pos() + 1) == Some(
                C1Token::LeftParenthesis,
            )) ==> final(self).pos() == j),
        decreases self.toks().len() - self.pos(), 1int,
    {
        let last_token: Option<C1Token> = self.current_token();
        match self.current_token() {
            Some(C1Token::KwIf) => {
                self.if_statement()?;
            },
            Some(C1Token::KwReturn) => {
                self.return_statement()?;
            },
            Some(C1Token::KwPrintf) => {
                self.printf()?;
            },
            Some(C1Token::Identifier) => {
                match self.peek_token() {
                    Some(C1Token::Assign) => {
                        self.stat_assignment()?;
                    },
                    Some(C1Token::LeftParenthesis) => {
                        self.function_call()?;
                    },
                    _ => {
                        return Err(
                            self.error_message_current(
                                "Invalid statement after identifier, it should be an assignment or a function call!",
                            ),
                        );
                    },
                }
            },
            _ => {
                return Err(self.error_message_current("Invalid statement"));
            },
        }
        if !(matches!(last_token, Some(C1Token::KwIf))) {
            self.check_and_eat_token(&C1Token::Semicolon, "Expected ';' after statement")?;
        }
        Ok(())
    }

    /// block ::= "{" statement_list "}" | statement
    pub fn block(&mut self) -> (r: ParseResult)
        requires
            old(self).wf(),
        ensures
            final(self).wf(),
            final(self).toks() == old(self).toks(),
            (r is Ok) <==> spec_block(old(self).kinds(), old(self).pos()) is Some,
            r is Ok ==> spec_block(old(self).kinds(), old(self).pos()) == Some(final(self).pos())
                && old(self).pos() < final(self).pos(),
            r is Err ==> old(self).pos() <= final(self).pos(),
            r matches Err(m) ==> m@ == err_block(old(self).toks(), old(self).pos()),
        decreases self.toks().len() - self.pos(), 3int,
    {
        if self.current_matches(&C1Token::LeftBrace) {
            self.block_first_part()?;
        } else {
            self.block_second_part()?;
        }
        Ok(())
    }

    /// block ::= "{" statement_list "}"
    pub fn block_first_part(&mut self) -> (r: ParseResult)
        requires
            old(self).wf(),
        ensures
            final(self).wf(),
            final(self).toks() == old(self).toks(),
            (r is Ok) <==> spec_block_first_part(old(self).kinds(), old(self).pos()) is Some,
            r is Ok ==> spec_block_first_part(old(self).kinds(), old(self).pos()) == Some(
                final(self).pos(),
            ) && old(self).pos() < final(self).pos(),
            r is Err ==> old(self).pos() <= final(self).pos(),
            r matches Err(m) ==> m@ == err_block_first_part(old(self).toks(), old(self).pos()),
        decreases self.toks().len() - self.pos(), 0int,
    {
        self.check_and_eat_token(&C1Token::LeftBrace, "Expected '{' before statement list")?;
        self.statement_list()?;
        self.check_and_eat_token(&C1Token::RightBrace, "Expected '}' after statement list")?;
        Ok(())
    }

    /// block ::= statement
    pub fn block_second_part(&mut self) -> (r: ParseResult)
        requires
            old(self).wf(),
        ensures
            final(self).wf(),
            final(self).toks() == old(self).toks(),
            (r is Ok) <==> spec_statement(old(self).kinds(), old(self).pos()) is Some,
            r is Ok ==> spec_statement(old(self).kinds(), old(self).pos()) == Some(
                final(self).pos(),
            ) && old(self).pos() < final(self).pos(),
            r is Err ==> old(self).pos() <= final(self).pos(),
            r matches Err(m) ==> m@ == err_statement(old(self).toks(), old(self).pos()),
        decreases self.toks().len() - self.pos(), 2int,
    {
        self.statement()?;
        Ok(())
    }

    /// statement_list ::= ( block )*, continued while the current token can
    /// begin a statement or opens a nested brace group, ended cleanly on "}"
    /// or end of input.
    pub fn statement_list(&mut self) -> (r: ParseResult)
        requires
            old(self).wf(),
        ensures
            final(self).wf(),
            final(self).toks() == old(self).toks(),
            (r is Ok) <==> spec_statement_list(old(self).kinds(), old(self).pos()) is Some,
            r is Ok ==> spec_statement_list(old(self).kinds(), old(self).pos()) == Some(
                final(self).pos(),
            ) && old(self).pos() <= final(self).pos(),
            r is Err ==> old(self).pos() <= final(self).pos(),
            r matches Err(m) ==> m@ == err_statement_list(old(self).toks(), old(self).pos()),
        decreases self.toks().len() - self.pos(), 4int,
    {
        let ghost ks = old(self).kinds();
        let ghost i0 = old(self).pos();
        let ghost ts = old(self).toks();
        loop
            invariant
                self.wf(),
                self.toks() == old(self).toks(),
                ks == self.kinds(),
                ks == old(self).kinds(),
                i0 == old(self).pos(),
                i0 <= self.pos() <= ks.len(),
                ts == old(self).toks(),
                spec_statement_list(ks, i0) == spec_statement_list(ks, self.pos()),
                err_statement_list(ts, i0) == err_statement_list(ts, self.pos()),
            decreases self.toks().len() - self.pos(), 4int,
        {
            if self.current_matches(&C1Token::KwIf) || self.current_matches(&C1Token::KwReturn)
                || self.current_matches(&C1Token::KwPrintf) || self.current_matches(
                &C1Token::Identifier,
            ) {
                self.block()?;
            } else if self.current_matches(&C1Token::LeftBrace) {
                self.check_and_eat_token(
                    &C1Token::LeftBrace,
                    "Expected '{' to open a nested statement list",
                )?;
                self.statement_list()?;
                self.check_and_eat_token(
                    &C1Token::RightBrace,
                    "Expected '}' to close a nested statement list",
                )?;
            } else if self.current_matches(&C1Token::RightBrace) {
                return Ok(());
            } else {
                match self.current_token() {
                    None => {
                        return Ok(());
                    },
                    Some(_) => {
                        return Err(self.error_message_current("Invalid statement list"));
                    },
                }
            }
        }
    }

    /// function_definition ::= return_type ID "(" ")" "{" statement_list "}"
    pub fn function_definition(&mut self) -> (r: ParseResult)
        requires
            old(self).wf(),
        ensures
            final(self).wf(),
            final(self).toks() == old(self).toks(),
            (r is Ok) <==> spec_function_definition(old(self).kinds(), old(self).pos()) is Some,
            r is Ok ==> spec_function_definition(old(self).kinds(), old(self).pos()) == Some(
                final(self).pos(),
            ) && old(self).pos() < final(self).pos(),
            r is Err ==> old(self).pos() <= final(self).pos(),
            r matches Err(m) ==> m@ == err_function_definition(old(self).toks(), old(self).pos()),
    {
        self.return_type()?;
        self.identifier()?;
        self.check_and_eat_token(&C1Token::LeftParenthesis, "Expected '(' after function name")?;
        self.check_and_eat_token(
            &C1Token::RightParenthesis,
            "Expected ')' after function parameters",
        )?;
        self.check_and_eat_token(&C1Token::LeftBrace, "Expected '{' after function name")?;
        self.statement_list()?;
        self.check_and_eat_token(&C1Token::RightBrace, "Expected '}' after function parameters")?;
        Ok(())
    }

    /// program ::= ( function_definition )* EOF
    /// On acceptance every token has been consumed.
    pub fn program(&mut self) -> (r: ParseResult)
        requires
            old(self).wf(),
        ensures
            final(self).wf(),
            final(self).toks() == old(self).toks(),
            (r is Ok) <==> spec_program(old(self).kinds(), old(self).pos()) is Some,
            r is Ok ==> spec_program(old(self).kinds(), old(self).pos()) == Some(final(self).pos())
                && final(self).pos() == final(self).toks().len(),
            old(self).pos() <= final(self).pos(),
            r matches Err(m) ==> m@ == err_program(old(self).toks(), old(self).pos()),
    {
        let ghost ks = old(self).kinds();
        let ghost i0 = old(self).pos();
        let ghost ts = old(self).toks();
        loop
            invariant
                self.wf(),
                self.toks() == old(self).toks(),
                ks == self.kinds(),
                ks == old(self).kinds(),
                i0 == old(self).pos(),
                i0 <= self.pos() <= ks.len(),
                ts == old(self).toks(),
                spec_program(ks, i0) == spec_program(ks, self.pos()),
                err_program(ts, i0) == err_program(ts, self.pos()),
            decreases self.toks().len() - self.pos(),
        {
            match self.current_token() {
                None => {
                    return Ok(());
                },
                Some(_) => {
                    self.function_definition()?;
                },
            }
        }
    }

    /// Construct the engine over a fresh token source for the whole text.
    pub fn initialize_parser(text: &str) -> (p: C1Parser)
        ensures
            p.wf(),
            p.pos() == 0,
            p.toks() == spec_tokens(text@),
    {
        C1Parser(C1Lexer::new(text))
    }

    /// The sole entry point: accept the text exactly when the token stream
    /// the scanner produces for it derives `program` with every token
    /// consumed; otherwise report the first violated expectation.
    pub fn parse(text: &str) -> (r: ParseResult)
        ensures
            (r is Ok) <==> spec_program(spec_token_kinds(text@), 0) is Some,
            r is Ok ==> spec_program(spec_token_kinds(text@), 0) == Some(
                spec_token_kinds(text@).len() as int,
            ),
            r matches Err(m) ==> m@ == err_program(spec_tokens(text@), 0),
    {
        let mut parser = Self::initialize_parser(text);
        let ghost ks0 = parser.kinds();
        proof {
            assert(ks0 =~= spec_token_kinds(text@));
        }
        parser.program()
    }
}

} // verus!
