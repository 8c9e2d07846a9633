//! Every successful parse moves forward: the result of a grammar function
//! ends behind the position it started at, and inside the tokens. So the
//! test that [`advanced`] makes never fails on the result of a grammar
//! function; it is there to keep the definitions well founded.
use vstd::prelude::*;

use crate::ast::Tree;
use crate::error::Error;
use crate::grammar::{
    additive, additive_rest, advanced, arguments, block, call, case_arm, case_arms,
    case_statement, conditional, conditional_rest, conversion, expression, function_declaration,
    if_statement, is_relational, items, kind_at, member, member_rest, multiplicative,
    multiplicative_rest, operator_at, parameters, primary, program, sign_at, statement,
    statements, unfold_additive, unfold_additive_rest, unfold_arguments, unfold_block,
    unfold_call, unfold_case_arm, unfold_case_arms, unfold_case_statement, unfold_conditional,
    unfold_conditional_rest, unfold_conversion, unfold_expression, unfold_function_declaration,
    unfold_if_statement, unfold_items, unfold_member, unfold_member_rest, unfold_multiplicative,
    unfold_multiplicative_rest, unfold_parameters, unfold_primary, unfold_statement,
    unfold_statements, unfold_variable_declaration, variable_declaration, word_at,
};
use crate::lexer::{TokenView, TT};

verus! {

/// A result that, where it is a success, ends behind `at` and inside `t`.
pub open spec fn ahead<A>(result: Result<(A, int), Error>, t: Seq<TokenView>, at: int) -> bool {
    match result {
        Ok((_, next)) => at < next <= t.len(),
        Err(_) => true,
    }
}

/// A result that, where it is a success, ends at or behind `at` and inside
/// `t`.
pub open spec fn not_behind<A>(result: Result<(A, int), Error>, t: Seq<TokenView>, at: int) -> bool {
    match result {
        Ok((_, next)) => at <= next <= t.len(),
        Err(_) => true,
    }
}

pub proof fn lemma_primary(t: Seq<TokenView>, at: int)
    requires
        0 <= at <= t.len(),
    ensures
        ahead(primary(t, at), t, at),
    decreases t.len() - at, 0nat,
{
    unfold_primary(t, at);
    let kind = kind_at(t, at);
    if sign_at(t, at) {
        lemma_primary(t, at + 1);
    } else if kind == TT::OpeningSquareBracket {
        lemma_items(t, at + 1, Seq::empty());
    } else if kind == TT::OpeningParenthesis {
        lemma_expression(t, at + 1);
    }
}

pub proof fn lemma_items(t: Seq<TokenView>, at: int, done: Seq<Tree>)
    requires
        0 <= at <= t.len(),
    ensures
        ahead(items(t, at, done), t, at),
    decreases t.len() - at, 10nat,
{
    unfold_items(t, at, done);
    if kind_at(t, at) != TT::ClosingSquareBracket {
        match advanced(expression(t, at), t, at) {
            Ok((node, next)) => {
                if kind_at(t, next) == TT::Comma {
                    lemma_items(t, next + 1, done.push(node));
                }
            },
            Err(_) => {},
        }
    }
}

pub proof fn lemma_conversion(t: Seq<TokenView>, at: int)
    requires
        0 <= at <= t.len(),
    ensures
        ahead(conversion(t, at), t, at),
    decreases t.len() - at, 1nat,
{
    unfold_conversion(t, at);
    match advanced(primary(t, at), t, at) {
        Ok((_, next)) => {
            if word_at(t, next, "as"@) || word_at(t, next, "to"@) {
                lemma_primary(t, next + 1);
            }
        },
        Err(_) => {},
    }
}

pub proof fn lemma_member_rest(t: Seq<TokenView>, at: int, left: Tree)
    requires
        0 <= at <= t.len(),
    ensures
        not_behind(member_rest(t, at, left), t, at),
    decreases t.len() - at, 0nat,
{
    unfold_member_rest(t, at, left);
    if kind_at(t, at) == TT::Dot {
        match advanced(conversion(t, at + 1), t, at) {
            Ok((right, next)) => {
                lemma_member_rest(
                    t,
                    next,
                    Tree::MemberExpression(Box::new(left), Box::new(right), true),
                );
            },
            Err(_) => {},
        }
    } else if kind_at(t, at) == TT::OpeningSquareBracket {
        match advanced(expression(t, at + 1), t, at) {
            Ok((right, next)) => {
                if kind_at(t, next) == TT::ClosingSquareBracket {
                    lemma_member_rest(
                        t,
                        next + 1,
                        Tree::MemberExpression(Box::new(left), Box::new(right), false),
                    );
                }
            },
            Err(_) => {},
        }
    }
}

pub proof fn lemma_member(t: Seq<TokenView>, at: int)
    requires
        0 <= at <= t.len(),
    ensures
        ahead(member(t, at), t, at),
{
    unfold_member(t, at);
    match advanced(conversion(t, at), t, at) {
        Ok((left, next)) => {
            lemma_member_rest(t, next, left);
        },
        Err(_) => {},
    }
}

pub proof fn lemma_multiplicative_rest(t: Seq<TokenView>, at: int, left: Tree)
    requires
        0 <= at <= t.len(),
    ensures
        not_behind(multiplicative_rest(t, at, left), t, at),
    decreases t.len() - at,
{
    unfold_multiplicative_rest(t, at, left);
    if operator_at(t, at, '*') || operator_at(t, at, '/') || operator_at(t, at, '%') {
        match advanced(member(t, at + 1), t, at) {
            Ok((right, next)) => {
                lemma_multiplicative_rest(
                    t,
                    next,
                    Tree::BinaryExpression(
                        Box::new(left),
                        crate::grammar::text_at(t, at),
                        Box::new(right),
                    ),
                );
            },
            Err(_) => {},
        }
    }
}

pub proof fn lemma_multiplicative(t: Seq<TokenView>, at: int)
    requires
        0 <= at <= t.len(),
    ensures
        ahead(multiplicative(t, at), t, at),
{
    unfold_multiplicative(t, at);
    match advanced(member(t, at), t, at) {
        Ok((left, next)) => {
            lemma_multiplicative_rest(t, next, left);
        },
        Err(_) => {},
    }
}

pub proof fn lemma_additive_rest(t: Seq<TokenView>, at: int, left: Tree)
    requires
        0 <= at <= t.len(),
    ensures
        not_behind(additive_rest(t, at, left), t, at),
    decreases t.len() - at,
{
    unfold_additive_rest(t, at, left);
    if operator_at(t, at, '+') || operator_at(t, at, '-') {
        match advanced(multiplicative(t, at + 1), t, at) {
            Ok((right, next)) => {
                lemma_additive_rest(
                    t,
                    next,
                    Tree::BinaryExpression(
                        Box::new(left),
                        crate::grammar::text_at(t, at),
                        Box::new(right),
                    ),
                );
            },
            Err(_) => {},
        }
    }
}

pub proof fn lemma_additive(t: Seq<TokenView>, at: int)
    requires
        0 <= at <= t.len(),
    ensures
        ahead(additive(t, at), t, at),
{
    unfold_additive(t, at);
    match advanced(multiplicative(t, at), t, at) {
        Ok((left, next)) => {
            lemma_additive_rest(t, next, left);
        },
        Err(_) => {},
    }
}

pub proof fn lemma_conditional_rest(t: Seq<TokenView>, at: int, left: Tree)
    requires
        0 <= at <= t.len(),
    ensures
        not_behind(conditional_rest(t, at, left), t, at),
    decreases t.len() - at,
{
    unfold_conditional_rest(t, at, left);
    if is_relational(kind_at(t, at)) {
        match advanced(additive(t, at + 1), t, at) {
            Ok((right, next)) => {
                lemma_conditional_rest(
                    t,
                    next,
                    Tree::ConditionalExpression(
                        Box::new(left),
                        crate::grammar::text_at(t, at),
                        Box::new(right),
                    ),
                );
            },
            Err(_) => {},
        }
    }
}

pub proof fn lemma_conditional(t: Seq<TokenView>, at: int)
    requires
        0 <= at <= t.len(),
    ensures
        ahead(conditional(t, at), t, at),
{
    unfold_conditional(t, at);
    match advanced(additive(t, at), t, at) {
        Ok((left, next)) => {
            lemma_conditional_rest(t, next, left);
        },
        Err(_) => {},
    }
}

pub proof fn lemma_arguments(t: Seq<TokenView>, at: int, done: Seq<Tree>)
    requires
        0 <= at <= t.len(),
    ensures
        ahead(arguments(t, at, done), t, at),
    decreases t.len() - at,
{
    unfold_arguments(t, at, done);
    if kind_at(t, at) != TT::ClosingParenthesis {
        match advanced(expression(t, at), t, at) {
            Ok((node, next)) => {
                if kind_at(t, next) == TT::Comma {
                    lemma_arguments(t, next + 1, done.push(node));
                }
            },
            Err(_) => {},
        }
    }
}

pub proof fn lemma_call(t: Seq<TokenView>, at: int)
    requires
        0 <= at <= t.len(),
    ensures
        ahead(call(t, at), t, at),
{
    unfold_call(t, at);
    match advanced(conditional(t, at), t, at) {
        Ok((_, next)) => {
            if kind_at(t, next) == TT::OpeningParenthesis {
                lemma_arguments(t, next + 1, Seq::empty());
            }
        },
        Err(_) => {},
    }
}

pub proof fn lemma_expression(t: Seq<TokenView>, at: int)
    requires
        0 <= at <= t.len(),
    ensures
        ahead(expression(t, at), t, at),
    decreases t.len() - at, 7nat,
{
    unfold_expression(t, at);
    match advanced(call(t, at), t, at) {
        Ok((_, next)) => {
            if kind_at(t, next) == TT::AssignmentOperator {
                lemma_expression(t, next + 1);
            }
        },
        Err(_) => {},
    }
}

pub proof fn lemma_variable_declaration(t: Seq<TokenView>, at: int)
    requires
        0 <= at <= t.len(),
    ensures
        ahead(variable_declaration(t, at), t, at),
{
    unfold_variable_declaration(t, at);
    let name = if kind_at(t, at + 1) == TT::Identifier {
        primary(t, at + 1)
    } else if kind_at(t, at + 1) == TT::OpeningParenthesis {
        call(t, at + 1)
    } else {
        Err(crate::grammar::unexpected(t, at + 1))
    };
    match advanced(name, t, at) {
        Ok((_, next)) => {
            if kind_at(t, next) == TT::AssignmentOperator {
                lemma_expression(t, next + 1);
            }
        },
        Err(_) => {},
    }
}

pub proof fn lemma_statements(t: Seq<TokenView>, at: int, closer: TT, done: Seq<Tree>)
    requires
        0 <= at <= t.len(),
    ensures
        not_behind(statements(t, at, closer, done), t, at),
    decreases t.len() - at,
{
    unfold_statements(t, at, closer, done);
    if kind_at(t, at) != closer {
        match advanced(statement(t, at), t, at) {
            Ok((node, next)) => {
                lemma_statements(t, next, closer, done.push(node));
            },
            Err(_) => {},
        }
    }
}

/// A block that was read ends behind its `}`, which is a token of `t`.
pub proof fn lemma_block(t: Seq<TokenView>, at: int)
    requires
        0 <= at <= t.len(),
    ensures
        ahead(block(t, at), t, at),
{
    unfold_block(t, at);
    if kind_at(t, at) == TT::OpeningCurlyBrace {
        lemma_statements(t, at + 1, TT::ClosingCurlyBrace, Seq::empty());
        lemma_statements_end(t, at + 1, TT::ClosingCurlyBrace, Seq::empty());
    }
}

/// Statements end where the token that closes them stands.
pub proof fn lemma_statements_end(t: Seq<TokenView>, at: int, closer: TT, done: Seq<Tree>)
    requires
        0 <= at <= t.len(),
    ensures
        match statements(t, at, closer, done) {
            Ok((_, next)) => kind_at(t, next) == closer,
            Err(_) => true,
        },
    decreases t.len() - at,
{
    unfold_statements(t, at, closer, done);
    if kind_at(t, at) != closer {
        match advanced(statement(t, at), t, at) {
            Ok((node, next)) => {
                lemma_statements_end(t, next, closer, done.push(node));
            },
            Err(_) => {},
        }
    }
}

pub proof fn lemma_if_statement(t: Seq<TokenView>, at: int)
    requires
        0 <= at <= t.len(),
    ensures
        ahead(if_statement(t, at), t, at),
{
    unfold_if_statement(t, at);
    match advanced(conditional(t, at + 1), t, at) {
        Ok((_, next)) => match advanced(block(t, next), t, at) {
            Ok((_, after)) => {
                if word_at(t, after, "else"@) {
                    lemma_block(t, after + 1);
                }
            },
            Err(_) => {},
        },
        Err(_) => {},
    }
}

pub proof fn lemma_case_arm(t: Seq<TokenView>, at: int)
    requires
        0 <= at <= t.len(),
    ensures
        ahead(case_arm(t, at), t, at),
{
    unfold_case_arm(t, at);
    match advanced(expression(t, at), t, at) {
        Ok((_, next)) => {
            if kind_at(t, next) == TT::Colon {
                lemma_block(t, next + 1);
            }
        },
        Err(_) => {},
    }
}

pub proof fn lemma_case_arms(t: Seq<TokenView>, at: int, done: Seq<Tree>)
    requires
        0 <= at <= t.len(),
    ensures
        not_behind(case_arms(t, at, done), t, at),
    decreases t.len() - at,
{
    unfold_case_arms(t, at, done);
    if kind_at(t, at) != TT::ClosingCurlyBrace {
        match advanced(case_arm(t, at), t, at) {
            Ok((arm, next)) => {
                lemma_case_arms(t, next, done.push(arm));
            },
            Err(_) => {},
        }
    }
}

pub proof fn lemma_case_statement(t: Seq<TokenView>, at: int)
    requires
        0 <= at <= t.len(),
    ensures
        ahead(case_statement(t, at), t, at),
{
    unfold_case_statement(t, at);
    match advanced(expression(t, at + 1), t, at) {
        Ok((_, next)) => {
            if word_at(t, next, "of"@) && kind_at(t, next + 1) == TT::OpeningCurlyBrace {
                lemma_case_arms(t, next + 2, Seq::empty());
            }
        },
        Err(_) => {},
    }
}

pub proof fn lemma_parameters(
    t: Seq<TokenView>,
    at: int,
    names: Seq<Tree>,
    types: Seq<Option<Tree>>,
)
    requires
        0 <= at <= t.len(),
    ensures
        match parameters(t, at, names, types) {
            Ok((_, _, next)) => at < next <= t.len(),
            Err(_) => true,
        },
    decreases t.len() - at,
{
    unfold_parameters(t, at, names, types);
    if kind_at(t, at) == TT::Identifier {
        let name = Tree::Identifier(crate::grammar::text_at(t, at));
        let declared: Result<(Option<Tree>, int), Error> = if kind_at(t, at + 1) == TT::Colon {
            match advanced(expression(t, at + 2), t, at) {
                Ok((shown, next)) => Ok((Some(shown), next)),
                Err(error) => Err(error),
            }
        } else {
            Ok((None, at + 1))
        };
        match declared {
            Ok((shown, next)) => {
                if kind_at(t, next) == TT::Comma {
                    lemma_parameters(t, next + 1, names.push(name), types.push(shown));
                }
            },
            Err(_) => {},
        }
    }
}

pub proof fn lemma_function_declaration(t: Seq<TokenView>, at: int)
    requires
        0 <= at <= t.len(),
    ensures
        ahead(function_declaration(t, at), t, at),
{
    unfold_function_declaration(t, at);
    if kind_at(t, at + 1) == TT::Identifier && kind_at(t, at + 2) == TT::OpeningParenthesis {
        lemma_parameters(t, at + 3, Seq::empty(), Seq::empty());
        match parameters(t, at + 3, Seq::empty(), Seq::empty()) {
            Ok((_, _, next)) => {
                lemma_block(t, next);
            },
            Err(_) => {},
        }
    }
}

/// A statement that was read ends behind the position it started at, and
/// inside the tokens.
pub proof fn lemma_statement(t: Seq<TokenView>, at: int)
    requires
        0 <= at <= t.len(),
    ensures
        ahead(statement(t, at), t, at),
        advanced(statement(t, at), t, at) == statement(t, at),
{
    unfold_statement(t, at);
    lemma_variable_declaration(t, at);
    lemma_if_statement(t, at);
    lemma_case_statement(t, at);
    lemma_function_declaration(t, at);
    lemma_expression(t, at);
}

/// A program that was read ends inside the tokens, where the end of the
/// input stands.
pub proof fn lemma_program(t: Seq<TokenView>, at: int)
    requires
        0 <= at <= t.len(),
    ensures
        not_behind(program(t, at), t, at),
        match program(t, at) {
            Ok((_, next)) => kind_at(t, next) == TT::Eof,
            Err(_) => true,
        },
{
    lemma_statements(t, at, TT::Eof, Seq::empty());
    lemma_statements_end(t, at, TT::Eof, Seq::empty());
}

} // verus!
