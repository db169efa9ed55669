//! The C1 grammar as a mathematical object: one spec function per
//! nonterminal, each mapping a token sequence and a start index to the index
//! just past the derived construct, or `None` when the construct cannot be
//! derived there. The functions commit to a production from at most two
//! tokens of lookahead, exactly as the predictive engine does, so they are
//! the authoritative statement of which token streams are accepted.

use vstd::prelude::*;

use crate::token::C1Token;

verus! {

/// The token at index `i`, or `None` past the end of the stream.
pub open spec fn tok_at(ks: Seq<C1Token>, i: int) -> Option<C1Token> {
    if 0 <= i < ks.len() {
        Some(ks[i])
    } else {
        None
    }
}

/// Tokens that may announce a function's return type.
pub open spec fn is_type_token(t: C1Token) -> bool {
    t == C1Token::KwVoid || t == C1Token::KwBoolean || t == C1Token::KwInt || t == C1Token::KwFloat
}

/// FIRST set of `statement`: the tokens on which `statement_list` keeps going.
pub open spec fn is_statement_start(t: C1Token) -> bool {
    t == C1Token::KwIf || t == C1Token::KwReturn || t == C1Token::KwPrintf || t
        == C1Token::Identifier
}

/// The non-chainable relational operators of `expr`.
pub open spec fn is_rel_op(t: C1Token) -> bool {
    t == C1Token::Equal || t == C1Token::NotEqual || t == C1Token::LessEqual || t
        == C1Token::GreaterEqual || t == C1Token::Less || t == C1Token::Greater
}

/// The additive-level operators of `simp_expr`.
pub open spec fn is_add_op(t: C1Token) -> bool {
    t == C1Token::Plus || t == C1Token::Minus || t == C1Token::Or
}

/// The multiplicative-level operators of `term`.
pub open spec fn is_mul_op(t: C1Token) -> bool {
    t == C1Token::Asterisk || t == C1Token::Slash || t == C1Token::And
}

/// Whether a lookahead answer holds a token that can begin a statement.
pub open spec fn can_start_statement(t: Option<C1Token>) -> bool {
    match t {
        Some(k) => is_statement_start(k),
        None => false,
    }
}

/// Whether a lookahead answer holds a token that can begin a `factor`.
pub open spec fn can_start_factor(t: Option<C1Token>) -> bool {
    match t {
        Some(C1Token::ConstInt) => true,
        Some(C1Token::ConstFloat) => true,
        Some(C1Token::ConstBoolean) => true,
        Some(C1Token::LeftParenthesis) => true,
        Some(C1Token::Identifier) => true,
        _ => false,
    }
}

/// FIRST set of `assignment`: decides whether `return` carries a value.
pub open spec fn is_assignment_start(t: C1Token) -> bool {
    t == C1Token::Identifier || t == C1Token::ConstInt || t == C1Token::ConstFloat || t
        == C1Token::ConstBoolean || t == C1Token::LeftParenthesis || t == C1Token::Minus
}

/// Consume exactly the terminal `t` at index `i`.
pub open spec fn spec_eat(ks: Seq<C1Token>, i: int, t: C1Token) -> Option<int> {
    if tok_at(ks, i) == Some(t) {
        Some(i + 1)
    } else {
        None
    }
}

/// identifier ::= ID
pub open spec fn spec_identifier(ks: Seq<C1Token>, i: int) -> Option<int> {
    spec_eat(ks, i, C1Token::Identifier)
}

/// return_type ::= "void" | "bool" | "int" | "float"
pub open spec fn spec_return_type(ks: Seq<C1Token>, i: int) -> Option<int> {
    match tok_at(ks, i) {
        Some(t) => if is_type_token(t) {
            Some(i + 1)
        } else {
            None
        },
        None => None,
    }
}

/// function_call ::= ID "(" ")"
pub open spec fn spec_function_call(ks: Seq<C1Token>, i: int) -> Option<int> {
    match spec_identifier(ks, i) {
        Some(j) => match spec_eat(ks, j, C1Token::LeftParenthesis) {
            Some(k) => spec_eat(ks, k, C1Token::RightParenthesis),
            None => None,
        },
        None => None,
    }
}

/// Require the terminating ";" after a statement form that takes one.
pub open spec fn spec_then_semicolon(ks: Seq<C1Token>, r: Option<int>) -> Option<int> {
    match r {
        Some(j) => spec_eat(ks, j, C1Token::Semicolon),
        None => None,
    }
}

/// assignment ::= ( ID "=" assignment ) | expr
pub open spec fn spec_assignment(ks: Seq<C1Token>, i: int) -> Option<int>
    decreases ks.len() - i, 6int,
{
    if tok_at(ks, i) == Some(C1Token::Identifier) && tok_at(ks, i + 1) == Some(C1Token::Assign) {
        spec_assignment(ks, i + 2)
    } else {
        spec_expr(ks, i)
    }
}

/// expr ::= simp_expr ( rel_op simp_expr )?
pub open spec fn spec_expr(ks: Seq<C1Token>, i: int) -> Option<int>
    decreases ks.len() - i, 5int,
{
    match spec_simp_expr(ks, i) {
        Some(j) => match tok_at(ks, j) {
            Some(t) => if is_rel_op(t) {
                if i <= j {
                    spec_simp_expr(ks, j + 1)
                } else {
                    None
                }
            } else {
                Some(j)
            },
            None => Some(j),
        },
        None => None,
    }
}

/// simp_expr ::= ( "-" )? term ( add_op term )*
pub open spec fn spec_simp_expr(ks: Seq<C1Token>, i: int) -> Option<int>
    decreases ks.len() - i, 4int,
{
    let start = if tok_at(ks, i) == Some(C1Token::Minus) {
        i + 1
    } else {
        i
    };
    match spec_term(ks, start) {
        Some(j) => if i < j && j <= ks.len() {
            spec_simp_expr_tail(ks, j)
        } else {
            None
        },
        None => None,
    }
}

/// The left-associative `( add_op term )*` continuation of `simp_expr`.
pub open spec fn spec_simp_expr_tail(ks: Seq<C1Token>, i: int) -> Option<int>
    decreases ks.len() - i, 3int,
{
    match tok_at(ks, i) {
        Some(t) => if is_add_op(t) {
            match spec_term(ks, i + 1) {
                Some(j) => if i < j && j <= ks.len() {
                    spec_simp_expr_tail(ks, j)
                } else {
                    None
                },
                None => None,
            }
        } else {
            Some(i)
        },
        None => Some(i),
    }
}

/// term ::= factor ( mul_op factor )*
pub open spec fn spec_term(ks: Seq<C1Token>, i: int) -> Option<int>
    decreases ks.len() - i, 2int,
{
    match spec_factor(ks, i) {
        Some(j) => if i < j && j <= ks.len() {
            spec_term_tail(ks, j)
        } else {
            None
        },
        None => None,
    }
}

/// The left-associative `( mul_op factor )*` continuation of `term`.
pub open spec fn spec_term_tail(ks: Seq<C1Token>, i: int) -> Option<int>
    decreases ks.len() - i, 1int,
{
    match tok_at(ks, i) {
        Some(t) => if is_mul_op(t) {
            match spec_factor(ks, i + 1) {
                Some(j) => if i < j && j <= ks.len() {
                    spec_term_tail(ks, j)
                } else {
                    None
                },
                None => None,
            }
        } else {
            Some(i)
        },
        None => Some(i),
    }
}

/// factor ::= CONST_INT | CONST_FLOAT | CONST_BOOLEAN
///          | function_call | ID | "(" assignment ")"
pub open spec fn spec_factor(ks: Seq<C1Token>, i: int) -> Option<int>
    decreases ks.len() - i, 1int,
{
    match tok_at(ks, i) {
        Some(C1Token::ConstInt) => Some(i + 1),
        Some(C1Token::ConstFloat) => Some(i + 1),
        Some(C1Token::ConstBoolean) => Some(i + 1),
        Some(C1Token::LeftParenthesis) => spec_assignment_in_parenthesis(ks, i),
        Some(C1Token::Identifier) => if tok_at(ks, i + 1) == Some(C1Token::LeftParenthesis) {
            spec_function_call(ks, i)
        } else {
            Some(i + 1)
        },
        _ => None,
    }
}

/// assignment_in_parenthesis ::= "(" assignment ")"
pub open spec fn spec_assignment_in_parenthesis(ks: Seq<C1Token>, i: int) -> Option<int>
    decreases ks.len() - i, 0int,
{
    match spec_eat(ks, i, C1Token::LeftParenthesis) {
        Some(j) => match spec_assignment(ks, j) {
            Some(k) => spec_eat(ks, k, C1Token::RightParenthesis),
            None => None,
        },
        None => None,
    }
}

/// if_statement ::= "if" "(" assignment ")" block
pub open spec fn spec_if_statement(ks: Seq<C1Token>, i: int) -> Option<int>
    decreases ks.len() - i, 0int,
{
    if tok_at(ks, i) == Some(C1Token::KwIf) {
        match spec_assignment_in_parenthesis(ks, i + 1) {
            Some(j) => if i < j && j <= ks.len() {
                spec_block(ks, j)
            } else {
                None
            },
            None => None,
        }
    } else {
        None
    }
}

/// return_statement ::= "return" ( assignment )?
/// The optional value is present exactly when the next token can start an
/// `assignment`.
pub open spec fn spec_return_statement(ks: Seq<C1Token>, i: int) -> Option<int>
    decreases ks.len() - i, 0int,
{
    if tok_at(ks, i) == Some(C1Token::KwReturn) {
        match tok_at(ks, i + 1) {
            Some(t) => if is_assignment_start(t) {
                spec_assignment(ks, i + 1)
            } else {
                Some(i + 1)
            },
            None => Some(i + 1),
        }
    } else {
        None
    }
}

/// printf ::= "printf" "(" assignment ")"
pub open spec fn spec_printf(ks: Seq<C1Token>, i: int) -> Option<int>
    decreases ks.len() - i, 0int,
{
    if tok_at(ks, i) == Some(C1Token::KwPrintf) {
        spec_assignment_in_parenthesis(ks, i + 1)
    } else {
        None
    }
}

/// stat_assignment ::= ID "=" assignment
pub open spec fn spec_stat_assignment(ks: Seq<C1Token>, i: int) -> Option<int>
    decreases ks.len() - i, 0int,
{
    match spec_identifier(ks, i) {
        Some(j) => if tok_at(ks, j) == Some(C1Token::Assign) {
            spec_assignment(ks, j + 1)
        } else {
            None
        },
        None => None,
    }
}

/// statement ::= if_statement
///             | return_statement ";" | printf ";"
///             | stat_assignment ";" | function_call ";"
/// Every statement form but `if_statement` must be followed by ";"; an
/// identifier is disambiguated by the token after it.
pub open spec fn spec_statement(ks: Seq<C1Token>, i: int) -> Option<int>
    decreases ks.len() - i, 1int,
{
    match tok_at(ks, i) {
        Some(C1Token::KwIf) => spec_if_statement(ks, i),
        Some(C1Token::KwReturn) => spec_then_semicolon(ks, spec_return_statement(ks, i)),
        Some(C1Token::KwPrintf) => spec_then_semicolon(ks, spec_printf(ks, i)),
        Some(C1Token::Identifier) => match tok_at(ks, i + 1) {
            Some(C1Token::Assign) => spec_then_semicolon(ks, spec_stat_assignment(ks, i)),
            Some(C1Token::LeftParenthesis) => spec_then_semicolon(ks, spec_function_call(ks, i)),
            _ => None,
        },
        _ => None,
    }
}

/// block ::= "{" statement_list "}" | statement
pub open spec fn spec_block_first_part(ks: Seq<C1Token>, i: int) -> Option<int>
    decreases ks.len() - i, 0int,
{
    match spec_eat(ks, i, C1Token::LeftBrace) {
        Some(j) => match spec_statement_list(ks, j) {
            Some(k) => spec_eat(ks, k, C1Token::RightBrace),
            None => None,
        },
        None => None,
    }
}

/// block ::= "{" statement_list "}" | statement
pub open spec fn spec_block(ks: Seq<C1Token>, i: int) -> Option<int>
    decreases ks.len() - i, 3int,
{
    if tok_at(ks, i) == Some(C1Token::LeftBrace) {
        spec_block_first_part(ks, i)
    } else {
        spec_statement(ks, i)
    }
}

/// statement_list ::= ( block )*, continued while the current token can
/// begin a statement or opens a nested brace group, and ended cleanly on
/// "}" or end of input; any other token refuses the whole list.
pub open spec fn spec_statement_list(ks: Seq<C1Token>, i: int) -> Option<int>
    decreases ks.len() - i, 4int,
{
    match tok_at(ks, i) {
        None => Some(i),
        Some(t) => if is_statement_start(t) {
            match spec_block(ks, i) {
                Some(j) => if i < j && j <= ks.len() {
                    spec_statement_list(ks, j)
                } else {
                    None
                },
                None => None,
            }
        } else if t == C1Token::LeftBrace {
            match spec_statement_list(ks, i + 1) {
                Some(j) => match spec_eat(ks, j, C1Token::RightBrace) {
                    Some(k) => if i < k && k <= ks.len() {
                        spec_statement_list(ks, k)
                    } else {
                        None
                    },
                    None => None,
                },
                None => None,
            }
        } else if t == C1Token::RightBrace {
            Some(i)
        } else {
            None
        },
    }
}

/// function_definition ::= return_type ID "(" ")" "{" statement_list "}"
pub open spec fn spec_function_definition(ks: Seq<C1Token>, i: int) -> Option<int> {
    match spec_return_type(ks, i) {
        Some(j) => match spec_identifier(ks, j) {
            Some(j) => match spec_eat(ks, j, C1Token::LeftParenthesis) {
                Some(j) => match spec_eat(ks, j, C1Token::RightParenthesis) {
                    Some(j) => match spec_eat(ks, j, C1Token::LeftBrace) {
                        Some(j) => match spec_statement_list(ks, j) {
                            Some(j) => spec_eat(ks, j, C1Token::RightBrace),
                            None => None,
                        },
                        None => None,
                    },
                    None => None,
                },
                None => None,
            },
            None => None,
        },
        None => None,
    }
}

/// program ::= ( function_definition )* EOF
pub open spec fn spec_program(ks: Seq<C1Token>, i: int) -> Option<int>
    decreases ks.len() - i,
{
    match tok_at(ks, i) {
        None => Some(i),
        Some(_) => match spec_function_definition(ks, i) {
            Some(j) => if i < j && j <= ks.len() {
                spec_program(ks, j)
            } else {
                None
            },
            None => None,
        },
    }
}

// Every derivation stays inside the token stream: a nonterminal that
// derives from a position inside the stream lands at a position inside it,
// and (for every nonterminal that cannot derive the empty string) strictly
// beyond where it started. In consequence the bound checks written into the
// definitions above never refuse a derivation; they only justify their
// termination.

/// `assignment_in_parenthesis` consumes at least one token and stays in bounds.
pub proof fn lemma_assignment_in_parenthesis_in_bounds(ks: Seq<C1Token>, i: int)
    requires
        0 <= i <= ks.len(),
    ensures
        spec_assignment_in_parenthesis(ks, i) matches Some(j) ==> i < j <= ks.len(),
    decreases ks.len() - i, 0int,
{
    if spec_eat(ks, i, C1Token::LeftParenthesis) is Some {
        lemma_assignment_in_bounds(ks, i + 1);
    }
}

/// `factor` consumes at least one token and stays in bounds.
pub proof fn lemma_factor_in_bounds(ks: Seq<C1Token>, i: int)
    requires
        0 <= i <= ks.len(),
    ensures
        spec_factor(ks, i) matches Some(j) ==> i < j <= ks.len(),
    decreases ks.len() - i, 1int,
{
    if tok_at(ks, i) == Some(C1Token::LeftParenthesis) {
        lemma_assignment_in_parenthesis_in_bounds(ks, i);
    }
}

/// The `( mul_op factor )*` continuation never moves backwards.
pub proof fn lemma_term_tail_in_bounds(ks: Seq<C1Token>, i: int)
    requires
        0 <= i <= ks.len(),
    ensures
        spec_term_tail(ks, i) matches Some(j) ==> i <= j <= ks.len(),
    decreases ks.len() - i, 1int,
{
    if tok_at(ks, i) matches Some(t) && is_mul_op(t) {
        lemma_factor_in_bounds(ks, i + 1);
        if let Some(j) = spec_factor(ks, i + 1) {
            if i < j <= ks.len() {
                lemma_term_tail_in_bounds(ks, j);
            }
        }
    }
}

/// `term` consumes at least one token and stays in bounds.
pub proof fn lemma_term_in_bounds(ks: Seq<C1Token>, i: int)
    requires
        0 <= i <= ks.len(),
    ensures
        spec_term(ks, i) matches Some(j) ==> i < j <= ks.len(),
    decreases ks.len() - i, 2int,
{
    lemma_factor_in_bounds(ks, i);
    if let Some(j) = spec_factor(ks, i) {
        if i < j <= ks.len() {
            lemma_term_tail_in_bounds(ks, j);
        }
    }
}

/// The `( add_op term )*` continuation never moves backwards.
pub proof fn lemma_simp_expr_tail_in_bounds(ks: Seq<C1Token>, i: int)
    requires
        0 <= i <= ks.len(),
    ensures
        spec_simp_expr_tail(ks, i) matches Some(j) ==> i <= j <= ks.len(),
    decreases ks.len() - i, 3int,
{
    if tok_at(ks, i) matches Some(t) && is_add_op(t) {
        lemma_term_in_bounds(ks, i + 1);
        if let Some(j) = spec_term(ks, i + 1) {
            if i < j <= ks.len() {
                lemma_simp_expr_tail_in_bounds(ks, j);
            }
        }
    }
}

/// `simp_expr` consumes at least one token and stays in bounds.
pub proof fn lemma_simp_expr_in_bounds(ks: Seq<C1Token>, i: int)
    requires
        0 <= i <= ks.len(),
    ensures
        spec_simp_expr(ks, i) matches Some(j) ==> i < j <= ks.len(),
    decreases ks.len() - i, 4int,
{
    let start = if tok_at(ks, i) == Some(C1Token::Minus) {
        i + 1
    } else {
        i
    };
    lemma_term_in_bounds(ks, start);
    if let Some(j) = spec_term(ks, start) {
        if i < j <= ks.len() {
            lemma_simp_expr_tail_in_bounds(ks, j);
        }
    }
}

/// `expr` consumes at least one token and stays in bounds.
pub proof fn lemma_expr_in_bounds(ks: Seq<C1Token>, i: int)
    requires
        0 <= i <= ks.len(),
    ensures
        spec_expr(ks, i) matches Some(j) ==> i < j <= ks.len(),
    decreases ks.len() - i, 5int,
{
    lemma_simp_expr_in_bounds(ks, i);
    if let Some(j) = spec_simp_expr(ks, i) {
        if i < j <= ks.len() {
            if tok_at(ks, j) matches Some(t) && is_rel_op(t) {
                lemma_simp_expr_in_bounds(ks, j + 1);
            }
        }
    }
}

/// `assignment` consumes at least one token and stays in bounds.
pub proof fn lemma_assignment_in_bounds(ks: Seq<C1Token>, i: int)
    requires
        0 <= i <= ks.len(),
    ensures
        spec_assignment(ks, i) matches Some(j) ==> i < j <= ks.len(),
    decreases ks.len() - i, 6int,
{
    if tok_at(ks, i) == Some(C1Token::Identifier) && tok_at(ks, i + 1) == Some(C1Token::Assign) {
        lemma_assignment_in_bounds(ks, i + 2);
    } else {
        lemma_expr_in_bounds(ks, i);
    }
}

/// `if_statement` consumes at least one token and stays in bounds.
pub proof fn lemma_if_statement_in_bounds(ks: Seq<C1Token>, i: int)
    requires
        0 <= i <= ks.len(),
    ensures
        spec_if_statement(ks, i) matches Some(j) ==> i < j <= ks.len(),
    decreases ks.len() - i, 0int,
{
    if tok_at(ks, i) == Some(C1Token::KwIf) {
        lemma_assignment_in_parenthesis_in_bounds(ks, i + 1);
        if let Some(j) = spec_assignment_in_parenthesis(ks, i + 1) {
            if i < j <= ks.len() {
                lemma_block_in_bounds(ks, j);
            }
        }
    }
}

/// `return_statement` consumes at least one token and stays in bounds.
pub proof fn lemma_return_statement_in_bounds(ks: Seq<C1Token>, i: int)
    requires
        0 <= i <= ks.len(),
    ensures
        spec_return_statement(ks, i) matches Some(j) ==> i < j <= ks.len(),
    decreases ks.len() - i, 0int,
{
    if tok_at(ks, i) == Some(C1Token::KwReturn) {
        if tok_at(ks, i + 1) matches Some(t) && is_assignment_start(t) {
            lemma_assignment_in_bounds(ks, i + 1);
        }
    }
}

/// `printf` consumes at least one token and stays in bounds.
pub proof fn lemma_printf_in_bounds(ks: Seq<C1Token>, i: int)
    requires
        0 <= i <= ks.len(),
    ensures
        spec_printf(ks, i) matches Some(j) ==> i < j <= ks.len(),
    decreases ks.len() - i, 0int,
{
    if tok_at(ks, i) == Some(C1Token::KwPrintf) {
        lemma_assignment_in_parenthesis_in_bounds(ks, i + 1);
    }
}

/// `stat_assignment` consumes at least one token and stays in bounds.
pub proof fn lemma_stat_assignment_in_bounds(ks: Seq<C1Token>, i: int)
    requires
        0 <= i <= ks.len(),
    ensures
        spec_stat_assignment(ks, i) matches Some(j) ==> i < j <= ks.len(),
    decreases ks.len() - i, 0int,
{
    if let Some(j) = spec_identifier(ks, i) {
        if tok_at(ks, j) == Some(C1Token::Assign) {
            lemma_assignment_in_bounds(ks, j + 1);
        }
    }
}

/// `statement` consumes at least one token and stays in bounds.
pub proof fn lemma_statement_in_bounds(ks: Seq<C1Token>, i: int)
    requires
        0 <= i <= ks.len(),
    ensures
        spec_statement(ks, i) matches Some(j) ==> i < j <= ks.len(),
    decreases ks.len() - i, 1int,
{
    match tok_at(ks, i) {
        Some(C1Token::KwIf) => lemma_if_statement_in_bounds(ks, i),
        Some(C1Token::KwReturn) => lemma_return_statement_in_bounds(ks, i),
        Some(C1Token::KwPrintf) => lemma_printf_in_bounds(ks, i),
        Some(C1Token::Identifier) => lemma_stat_assignment_in_bounds(ks, i),
        _ => (),
    }
}

/// The brace form of `block` consumes at least one token and stays in bounds.
pub proof fn lemma_block_first_part_in_bounds(ks: Seq<C1Token>, i: int)
    requires
        0 <= i <= ks.len(),
    ensures
        spec_block_first_part(ks, i) matches Some(j) ==> i < j <= ks.len(),
    decreases ks.len() - i, 0int,
{
    if spec_eat(ks, i, C1Token::LeftBrace) is Some {
        lemma_statement_list_in_bounds(ks, i + 1);
    }
}

/// `block` consumes at least one token and stays in bounds.
pub proof fn lemma_block_in_bounds(ks: Seq<C1Token>, i: int)
    requires
        0 <= i <= ks.len(),
    ensures
        spec_block(ks, i) matches Some(j) ==> i < j <= ks.len(),
    decreases ks.len() - i, 3int,
{
    if tok_at(ks, i) == Some(C1Token::LeftBrace) {
        lemma_block_first_part_in_bounds(ks, i);
    } else {
        lemma_statement_in_bounds(ks, i);
    }
}

/// `statement_list` never moves backwards and stays in bounds.
pub proof fn lemma_statement_list_in_bounds(ks: Seq<C1Token>, i: int)
    requires
        0 <= i <= ks.len(),
    ensures
        spec_statement_list(ks, i) matches Some(j) ==> i <= j <= ks.len(),
    decreases ks.len() - i, 4int,
{
    if let Some(t) = tok_at(ks, i) {
        if is_statement_start(t) {
            lemma_block_in_bounds(ks, i);
            if let Some(j) = spec_block(ks, i) {
                if i < j <= ks.len() {
                    lemma_statement_list_in_bounds(ks, j);
                }
            }
        } else if t == C1Token::LeftBrace {
            lemma_statement_list_in_bounds(ks, i + 1);
            if let Some(j) = spec_statement_list(ks, i + 1) {
                if let Some(k) = spec_eat(ks, j, C1Token::RightBrace) {
                    if i < k <= ks.len() {
                        lemma_statement_list_in_bounds(ks, k);
                    }
                }
            }
        }
    }
}

/// `function_definition` consumes at least one token and stays in bounds.
pub proof fn lemma_function_definition_in_bounds(ks: Seq<C1Token>, i: int)
    requires
        0 <= i <= ks.len(),
    ensures
        spec_function_definition(ks, i) matches Some(j) ==> i < j <= ks.len(),
{
    if spec_return_type(ks, i) is Some && spec_identifier(ks, i + 1) is Some && spec_eat(
        ks,
        i + 2,
        C1Token::LeftParenthesis,
    ) is Some && spec_eat(ks, i + 3, C1Token::RightParenthesis) is Some && spec_eat(
        ks,
        i + 4,
        C1Token::LeftBrace,
    ) is Some {
        lemma_statement_list_in_bounds(ks, i + 5);
    }
}

/// At spec level, `program` accepts only with the whole stream consumed:
/// acceptance of a valid program consumes every token.
pub proof fn lemma_program_accepts_only_at_end(ks: Seq<C1Token>, i: int)
    requires
        0 <= i <= ks.len(),
    ensures
        spec_program(ks, i) matches Some(j) ==> j == ks.len(),
    decreases ks.len() - i,
{
    if tok_at(ks, i) is Some {
        lemma_function_definition_in_bounds(ks, i);
        if let Some(j) = spec_function_definition(ks, i) {
            if i < j <= ks.len() {
                lemma_program_accepts_only_at_end(ks, j);
            }
        }
    }
}

} // verus!
