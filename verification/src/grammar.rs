//! The grammar, as functions from a token sequence and a position to the
//! tree that starts there and the position behind it.
//!
//! Every function reads the tokens of `t` from index `at` on. A position
//! outside the sequence reads as an end-of-input token.
use vstd::prelude::*;

use crate::ast::Tree;
use crate::error::Error;
use crate::lexer::{TokenView, TT};
use crate::number::integer_of;

verus! {

/// A tree and the position behind it, or the error that stopped the parse.
pub type Parsed = Result<(Tree, int), Error>;

/// A list of trees and the position behind it.
pub type ParsedList = Result<(Seq<Tree>, int), Error>;

/// Names, declared types and the position behind a parameter list.
pub type ParsedParameters = Result<(Seq<Tree>, Seq<Option<Tree>>, int), Error>;

pub open spec fn kind_at(t: Seq<TokenView>, at: int) -> TT {
    if 0 <= at < t.len() {
        t[at].kind
    } else {
        TT::Eof
    }
}

pub open spec fn text_at(t: Seq<TokenView>, at: int) -> Seq<char> {
    if 0 <= at < t.len() {
        t[at].value
    } else {
        Seq::empty()
    }
}

/// The error for a token that does not fit the grammar.
pub open spec fn unexpected(t: Seq<TokenView>, at: int) -> Error {
    Error::Parse { position: at as usize, token: kind_at(t, at) }
}

/// Whether the keyword `word` stands at `at`.
pub open spec fn word_at(t: Seq<TokenView>, at: int, word: Seq<char>) -> bool {
    kind_at(t, at) == TT::KeyWord && text_at(t, at) == word
}

/// Whether the one-character operator `sign` stands at `at`.
pub open spec fn operator_at(t: Seq<TokenView>, at: int, sign: char) -> bool {
    kind_at(t, at) == TT::BinaryOperator && text_at(t, at) == seq![sign]
}

/// Whether a prefix sign stands at `at`: `+`, `-` or `!`.
pub open spec fn sign_at(t: Seq<TokenView>, at: int) -> bool {
    (kind_at(t, at) == TT::BinaryOperator || kind_at(t, at) == TT::Not) && (text_at(t, at)
        == seq!['+'] || text_at(t, at) == seq!['-'] || text_at(t, at) == seq!['!'])
}

pub open spec fn is_relational(kind: TT) -> bool {
    kind == TT::GreaterThan || kind == TT::LessThan || kind == TT::GreaterThanOrEqualTo || kind
        == TT::LessThanOrEqualTo || kind == TT::EqualityOperator || kind == TT::InEqualityOperator
}

/// A result that ends behind `at` and inside `t`; anything else is an error
/// at `at`.
pub open spec fn advanced<A>(result: Result<(A, int), Error>, t: Seq<TokenView>, at: int) -> Result<
    (A, int),
    Error,
> {
    match result {
        Ok((_, next)) => if at < next <= t.len() {
            result
        } else {
            Err(unexpected(t, at))
        },
        Err(_) => result,
    }
}

/// Identifiers, literals, array literals, parenthesized expressions (`()` is
/// the null literal) and the prefix forms `+ - !`.
#[verifier::opaque]
pub open spec fn primary(t: Seq<TokenView>, at: int) -> Parsed
    decreases t.len() - at, 0nat,
{
    let kind = kind_at(t, at);
    let text = text_at(t, at);
    if kind == TT::Identifier {
        Ok((Tree::Identifier(text), at + 1))
    } else if kind == TT::Integer {
        match integer_of(text) {
            Some(value) => Ok((Tree::IntegerLiteral(value), at + 1)),
            None => Err(unexpected(t, at)),
        }
    } else if kind == TT::Real {
        Ok((Tree::RealLiteral(text), at + 1))
    } else if kind == TT::String {
        Ok((Tree::StringLiteral(text), at + 1))
    } else if sign_at(t, at) {
        match primary(t, at + 1) {
            Ok((operand, next)) => Ok((Tree::UnaryExpression(text, Box::new(operand)), next)),
            Err(error) => Err(error),
        }
    } else if kind == TT::OpeningSquareBracket {
        match items(t, at + 1, Seq::empty()) {
            Ok((values, next)) => Ok((Tree::ArrayLiteral(values), next)),
            Err(error) => Err(error),
        }
    } else if kind == TT::OpeningParenthesis {
        if kind_at(t, at + 1) == TT::ClosingParenthesis {
            Ok((Tree::NullLiteral, at + 2))
        } else {
            match expression(t, at + 1) {
                Ok((node, next)) => if kind_at(t, next) == TT::ClosingParenthesis {
                    Ok((node, next + 1))
                } else {
                    Err(unexpected(t, next))
                },
                Err(error) => Err(error),
            }
        }
    } else {
        Err(unexpected(t, at))
    }
}

/// The items of an array literal, from behind its `[` to behind its `]`.
#[verifier::opaque]
pub open spec fn items(t: Seq<TokenView>, at: int, done: Seq<Tree>) -> ParsedList
    decreases t.len() - at, 10nat,
{
    if kind_at(t, at) == TT::ClosingSquareBracket {
        Ok((done, at + 1))
    } else {
        match advanced(expression(t, at), t, at) {
            Ok((node, next)) => if kind_at(t, next) == TT::Comma {
                items(t, next + 1, done.push(node))
            } else if kind_at(t, next) == TT::ClosingSquareBracket {
                Ok((done.push(node), next + 1))
            } else {
                Err(unexpected(t, next))
            },
            Err(error) => Err(error),
        }
    }
}

/// `primary as primary` and `primary to primary`; else the primary alone.
#[verifier::opaque]
pub open spec fn conversion(t: Seq<TokenView>, at: int) -> Parsed
    decreases t.len() - at, 1nat,
{
    match advanced(primary(t, at), t, at) {
        Ok((left, next)) => if word_at(t, next, "as"@) || word_at(t, next, "to"@) {
            match primary(t, next + 1) {
                Ok((right, end)) => Ok(
                    (Tree::ConversionExpression(Box::new(left), Box::new(right)), end),
                ),
                Err(error) => Err(error),
            }
        } else {
            Ok((left, next))
        },
        Err(error) => Err(error),
    }
}

/// Member access: `.` with a name, `[ ]` with an expression, chained to the
/// left.
#[verifier::opaque]
pub open spec fn member(t: Seq<TokenView>, at: int) -> Parsed
    decreases t.len() - at, 2nat,
{
    match advanced(conversion(t, at), t, at) {
        Ok((left, next)) => member_rest(t, next, left),
        Err(error) => Err(error),
    }
}

#[verifier::opaque]
pub open spec fn member_rest(t: Seq<TokenView>, at: int, left: Tree) -> Parsed
    decreases t.len() - at, 0nat,
{
    if kind_at(t, at) == TT::Dot {
        match advanced(conversion(t, at + 1), t, at) {
            Ok((right, next)) => member_rest(
                t,
                next,
                Tree::MemberExpression(Box::new(left), Box::new(right), true),
            ),
            Err(error) => Err(error),
        }
    } else if kind_at(t, at) == TT::OpeningSquareBracket {
        match advanced(expression(t, at + 1), t, at) {
            Ok((right, next)) => if kind_at(t, next) == TT::ClosingSquareBracket {
                member_rest(
                    t,
                    next + 1,
                    Tree::MemberExpression(Box::new(left), Box::new(right), false),
                )
            } else {
                Err(unexpected(t, next))
            },
            Err(error) => Err(error),
        }
    } else {
        Ok((left, at))
    }
}

/// `* / %`, folded to the left.
#[verifier::opaque]
pub open spec fn multiplicative(t: Seq<TokenView>, at: int) -> Parsed
    decreases t.len() - at, 3nat,
{
    match advanced(member(t, at), t, at) {
        Ok((left, next)) => multiplicative_rest(t, next, left),
        Err(error) => Err(error),
    }
}

#[verifier::opaque]
pub open spec fn multiplicative_rest(t: Seq<TokenView>, at: int, left: Tree) -> Parsed
    decreases t.len() - at, 0nat,
{
    if operator_at(t, at, '*') || operator_at(t, at, '/') || operator_at(t, at, '%') {
        match advanced(member(t, at + 1), t, at) {
            Ok((right, next)) => multiplicative_rest(
                t,
                next,
                Tree::BinaryExpression(Box::new(left), text_at(t, at), Box::new(right)),
            ),
            Err(error) => Err(error),
        }
    } else {
        Ok((left, at))
    }
}

/// `+ -`, folded to the left.
#[verifier::opaque]
pub open spec fn additive(t: Seq<TokenView>, at: int) -> Parsed
    decreases t.len() - at, 4nat,
{
    match advanced(multiplicative(t, at), t, at) {
        Ok((left, next)) => additive_rest(t, next, left),
        Err(error) => Err(error),
    }
}

#[verifier::opaque]
pub open spec fn additive_rest(t: Seq<TokenView>, at: int, left: Tree) -> Parsed
    decreases t.len() - at, 0nat,
{
    if operator_at(t, at, '+') || operator_at(t, at, '-') {
        match advanced(multiplicative(t, at + 1), t, at) {
            Ok((right, next)) => additive_rest(
                t,
                next,
                Tree::BinaryExpression(Box::new(left), text_at(t, at), Box::new(right)),
            ),
            Err(error) => Err(error),
        }
    } else {
        Ok((left, at))
    }
}

/// The six relational operators on one level, folded to the left:
/// `a < b < c` is `(a < b) < c`.
#[verifier::opaque]
pub open spec fn conditional(t: Seq<TokenView>, at: int) -> Parsed
    decreases t.len() - at, 5nat,
{
    match advanced(additive(t, at), t, at) {
        Ok((left, next)) => conditional_rest(t, next, left),
        Err(error) => Err(error),
    }
}

#[verifier::opaque]
pub open spec fn conditional_rest(t: Seq<TokenView>, at: int, left: Tree) -> Parsed
    decreases t.len() - at, 0nat,
{
    if is_relational(kind_at(t, at)) {
        match advanced(additive(t, at + 1), t, at) {
            Ok((right, next)) => conditional_rest(
                t,
                next,
                Tree::ConditionalExpression(Box::new(left), text_at(t, at), Box::new(right)),
            ),
            Err(error) => Err(error),
        }
    } else {
        Ok((left, at))
    }
}

/// The arguments of a call, from behind its `(` to behind its `)`. A comma
/// may stand before the `)`.
#[verifier::opaque]
pub open spec fn arguments(t: Seq<TokenView>, at: int, done: Seq<Tree>) -> ParsedList
    decreases t.len() - at, 10nat,
{
    if kind_at(t, at) == TT::ClosingParenthesis {
        Ok((done, at + 1))
    } else {
        match advanced(expression(t, at), t, at) {
            Ok((node, next)) => if kind_at(t, next) == TT::Comma {
                arguments(t, next + 1, done.push(node))
            } else if kind_at(t, next) == TT::ClosingParenthesis {
                Ok((done.push(node), next + 1))
            } else {
                Err(unexpected(t, next))
            },
            Err(error) => Err(error),
        }
    }
}

/// A relational expression, and a call of it where a `(` follows: the
/// callee of a call is all that was read on the relational level.
#[verifier::opaque]
pub open spec fn call(t: Seq<TokenView>, at: int) -> Parsed
    decreases t.len() - at, 6nat,
{
    match advanced(conditional(t, at), t, at) {
        Ok((callee, next)) => if kind_at(t, next) == TT::OpeningParenthesis {
            match arguments(t, next + 1, Seq::empty()) {
                Ok((list, end)) => Ok((Tree::CallExpression(Box::new(callee), list), end)),
                Err(error) => Err(error),
            }
        } else {
            Ok((callee, next))
        },
        Err(error) => Err(error),
    }
}

/// An expression. Where it starts with a name or a `(` and a `=` follows
/// it, it is an assignment, which ends with `;`.
#[verifier::opaque]
pub open spec fn expression(t: Seq<TokenView>, at: int) -> Parsed
    decreases t.len() - at, 7nat,
{
    match advanced(call(t, at), t, at) {
        Ok((target, next)) => if (kind_at(t, at) == TT::Identifier || kind_at(t, at)
            == TT::OpeningParenthesis) && kind_at(t, next) == TT::AssignmentOperator {
            match expression(t, next + 1) {
                Ok((value, end)) => if kind_at(t, end) == TT::SemiColon {
                    Ok((Tree::AssignmentExpression(Box::new(target), Box::new(value)), end + 1))
                } else {
                    Err(unexpected(t, end))
                },
                Err(error) => Err(error),
            }
        } else {
            Ok((target, next))
        },
        Err(error) => Err(error),
    }
}

/// `let name;` and `let name = expression;`. The name may stand in
/// parentheses.
#[verifier::opaque]
pub open spec fn variable_declaration(t: Seq<TokenView>, at: int) -> Parsed
    decreases t.len() - at, 8nat,
{
    let name = if kind_at(t, at + 1) == TT::Identifier {
        primary(t, at + 1)
    } else if kind_at(t, at + 1) == TT::OpeningParenthesis {
        call(t, at + 1)
    } else {
        Err(unexpected(t, at + 1))
    };
    match advanced(name, t, at) {
        Ok((name, next)) => if kind_at(t, next) == TT::AssignmentOperator {
            match expression(t, next + 1) {
                Ok((value, end)) => if kind_at(t, end) == TT::SemiColon {
                    Ok((Tree::VariableDeclaration(Box::new(name), Box::new(value)), end + 1))
                } else {
                    Err(unexpected(t, end))
                },
                Err(error) => Err(error),
            }
        } else if kind_at(t, next) == TT::SemiColon {
            Ok(
                (
                    Tree::VariableDeclaration(Box::new(name), Box::new(Tree::NullLiteral)),
                    next + 1,
                ),
            )
        } else {
            Err(unexpected(t, next))
        },
        Err(error) => Err(error),
    }
}

/// The statements of a block, up to but not including the token of kind
/// `closer` that ends it.
#[verifier::opaque]
pub open spec fn statements(t: Seq<TokenView>, at: int, closer: TT, done: Seq<Tree>) -> ParsedList
    decreases t.len() - at, 16nat,
{
    if kind_at(t, at) == closer {
        Ok((done, at))
    } else {
        match advanced(statement(t, at), t, at) {
            Ok((node, next)) => statements(t, next, closer, done.push(node)),
            Err(error) => Err(error),
        }
    }
}

/// `{ statements }` as a block, from its `{` to behind its `}`.
#[verifier::opaque]
pub open spec fn block(t: Seq<TokenView>, at: int) -> Parsed
    decreases t.len() - at, 11nat,
{
    if kind_at(t, at) == TT::OpeningCurlyBrace {
        match statements(t, at + 1, TT::ClosingCurlyBrace, Seq::empty()) {
            Ok((body, next)) => Ok((Tree::Program(body), next + 1)),
            Err(error) => Err(error),
        }
    } else {
        Err(unexpected(t, at))
    }
}

/// `if condition { .. }` with an optional `else { .. }`. The condition is
/// read on the relational level.
#[verifier::opaque]
pub open spec fn if_statement(t: Seq<TokenView>, at: int) -> Parsed
    decreases t.len() - at, 12nat,
{
    match advanced(conditional(t, at + 1), t, at) {
        Ok((condition, next)) => match advanced(block(t, next), t, at) {
            Ok((body, after)) => if word_at(t, after, "else"@) {
                match block(t, after + 1) {
                    Ok((alternative, end)) => Ok(
                        (
                            Tree::IfStatement(
                                Box::new(condition),
                                Box::new(body),
                                Box::new(alternative),
                            ),
                            end,
                        ),
                    ),
                    Err(error) => Err(error),
                }
            } else {
                Ok(
                    (
                        Tree::IfStatement(
                            Box::new(condition),
                            Box::new(body),
                            Box::new(Tree::Program(Seq::empty())),
                        ),
                        after,
                    ),
                )
            },
            Err(error) => Err(error),
        },
        Err(error) => Err(error),
    }
}

/// One arm of a case statement: `label : { .. } ;`.
#[verifier::opaque]
pub open spec fn case_arm(t: Seq<TokenView>, at: int) -> Parsed
    decreases t.len() - at, 12nat,
{
    match advanced(expression(t, at), t, at) {
        Ok((label, next)) => if kind_at(t, next) == TT::Colon {
            match block(t, next + 1) {
                Ok((body, end)) => if kind_at(t, end) == TT::SemiColon {
                    Ok((Tree::Case(Box::new(label), Box::new(body)), end + 1))
                } else {
                    Err(unexpected(t, end))
                },
                Err(error) => Err(error),
            }
        } else {
            Err(unexpected(t, next))
        },
        Err(error) => Err(error),
    }
}

/// The arms of a case statement, up to but not including its `}`.
#[verifier::opaque]
pub open spec fn case_arms(t: Seq<TokenView>, at: int, done: Seq<Tree>) -> ParsedList
    decreases t.len() - at, 13nat,
{
    if kind_at(t, at) == TT::ClosingCurlyBrace {
        Ok((done, at))
    } else {
        match advanced(case_arm(t, at), t, at) {
            Ok((arm, next)) => case_arms(t, next, done.push(arm)),
            Err(error) => Err(error),
        }
    }
}

/// `case expression of { arms } ;`.
#[verifier::opaque]
pub open spec fn case_statement(t: Seq<TokenView>, at: int) -> Parsed
    decreases t.len() - at, 14nat,
{
    match advanced(expression(t, at + 1), t, at) {
        Ok((scrutinee, next)) => if !word_at(t, next, "of"@) {
            Err(unexpected(t, next))
        } else if kind_at(t, next + 1) != TT::OpeningCurlyBrace {
            Err(unexpected(t, next + 1))
        } else {
            match case_arms(t, next + 2, Seq::empty()) {
                Ok((arms, end)) => if kind_at(t, end + 1) == TT::SemiColon {
                    Ok((Tree::CaseStatement(Box::new(scrutinee), arms), end + 2))
                } else {
                    Err(unexpected(t, end + 1))
                },
                Err(error) => Err(error),
            }
        },
        Err(error) => Err(error),
    }
}

/// The parameters of a function, from behind the `(` to behind the `)`:
/// names, each optionally followed by `:` and the expression that shows its
/// type, with commas between them.
#[verifier::opaque]
pub open spec fn parameters(
    t: Seq<TokenView>,
    at: int,
    names: Seq<Tree>,
    types: Seq<Option<Tree>>,
) -> ParsedParameters
    decreases t.len() - at, 10nat,
{
    if kind_at(t, at) == TT::ClosingParenthesis {
        Ok((names, types, at + 1))
    } else if kind_at(t, at) == TT::Identifier {
        let name = Tree::Identifier(text_at(t, at));
        let declared: Result<(Option<Tree>, int), Error> = if kind_at(t, at + 1) == TT::Colon {
            match advanced(expression(t, at + 2), t, at) {
                Ok((shown, next)) => Ok((Some(shown), next)),
                Err(error) => Err(error),
            }
        } else {
            Ok((None, at + 1))
        };
        match declared {
            Ok((shown, next)) => if kind_at(t, next) == TT::Comma {
                parameters(t, next + 1, names.push(name), types.push(shown))
            } else if kind_at(t, next) == TT::ClosingParenthesis {
                Ok((names.push(name), types.push(shown), next + 1))
            } else {
                Err(unexpected(t, next))
            },
            Err(error) => Err(error),
        }
    } else {
        Err(unexpected(t, at))
    }
}

/// `func name ( parameters ) { .. }`. The grammar has no place for a
/// return type, so the tree carries none.
#[verifier::opaque]
pub open spec fn function_declaration(t: Seq<TokenView>, at: int) -> Parsed
    decreases t.len() - at, 14nat,
{
    if kind_at(t, at + 1) != TT::Identifier {
        Err(unexpected(t, at + 1))
    } else if kind_at(t, at + 2) != TT::OpeningParenthesis {
        Err(unexpected(t, at + 2))
    } else {
        match parameters(t, at + 3, Seq::empty(), Seq::empty()) {
            Ok((names, types, next)) => if at < next <= t.len() {
                match block(t, next) {
                    Ok((body, end)) => Ok(
                        (
                            Tree::FunctionDeclaration(
                                Box::new(Tree::Identifier(text_at(t, at + 1))),
                                names,
                                types,
                                None,
                                Box::new(body),
                            ),
                            end,
                        ),
                    ),
                    Err(error) => Err(error),
                }
            } else {
                Err(unexpected(t, at))
            },
            Err(error) => Err(error),
        }
    }
}

/// A statement: what a keyword opens, or else an expression.
#[verifier::opaque]
pub open spec fn statement(t: Seq<TokenView>, at: int) -> Parsed
    decreases t.len() - at, 15nat,
{
    if kind_at(t, at) == TT::KeyWord {
        if text_at(t, at) == "let"@ {
            variable_declaration(t, at)
        } else if text_at(t, at) == "if"@ {
            if_statement(t, at)
        } else if text_at(t, at) == "case"@ {
            case_statement(t, at)
        } else if text_at(t, at) == "func"@ {
            function_declaration(t, at)
        } else {
            Err(unexpected(t, at))
        }
    } else {
        expression(t, at)
    }
}

/// The program that the tokens from `at` on spell: statements up to the
/// end of the input.
pub open spec fn program(t: Seq<TokenView>, at: int) -> Parsed {
    match statements(t, at, TT::Eof, Seq::empty()) {
        Ok((body, next)) => Ok((Tree::Program(body), next)),
        Err(error) => Err(error),
    }
}

/// The definition of [`primary`], for one position.
pub proof fn unfold_primary(t: Seq<TokenView>, at: int)
    ensures
        primary(t, at) == ({
            let kind = kind_at(t, at);
            let text = text_at(t, at);
            if kind == TT::Identifier {
                Ok((Tree::Identifier(text), at + 1))
            } else if kind == TT::Integer {
                match integer_of(text) {
                    Some(value) => Ok((Tree::IntegerLiteral(value), at + 1)),
                    None => Err(unexpected(t, at)),
                }
            } else if kind == TT::Real {
                Ok((Tree::RealLiteral(text), at + 1))
            } else if kind == TT::String {
                Ok((Tree::StringLiteral(text), at + 1))
            } else if sign_at(t, at) {
                match primary(t, at + 1) {
                    Ok((operand, next)) => Ok((Tree::UnaryExpression(text, Box::new(operand)), next)),
                    Err(error) => Err(error),
                }
            } else if kind == TT::OpeningSquareBracket {
                match items(t, at + 1, Seq::empty()) {
                    Ok((values, next)) => Ok((Tree::ArrayLiteral(values), next)),
                    Err(error) => Err(error),
                }
            } else if kind == TT::OpeningParenthesis {
                if kind_at(t, at + 1) == TT::ClosingParenthesis {
                    Ok((Tree::NullLiteral, at + 2))
                } else {
                    match expression(t, at + 1) {
                        Ok((node, next)) => if kind_at(t, next) == TT::ClosingParenthesis {
                            Ok((node, next + 1))
                        } else {
                            Err(unexpected(t, next))
                        },
                        Err(error) => Err(error),
                    }
                }
            } else {
                Err(unexpected(t, at))
            }
        }),
{
    reveal(primary);
    reveal(items);
    reveal(expression);
}

/// The definition of [`items`], for one position.
pub proof fn unfold_items(t: Seq<TokenView>, at: int, done: Seq<Tree>)
    ensures
        items(t, at, done) == ({
            if kind_at(t, at) == TT::ClosingSquareBracket {
                Ok((done, at + 1))
            } else {
                match advanced(expression(t, at), t, at) {
                    Ok((node, next)) => if kind_at(t, next) == TT::Comma {
                        items(t, next + 1, done.push(node))
                    } else if kind_at(t, next) == TT::ClosingSquareBracket {
                        Ok((done.push(node), next + 1))
                    } else {
                        Err(unexpected(t, next))
                    },
                    Err(error) => Err(error),
                }
            }
        }),
{
    reveal(items);
    reveal(expression);
}

/// The definition of [`conversion`], for one position.
pub proof fn unfold_conversion(t: Seq<TokenView>, at: int)
    ensures
        conversion(t, at) == ({
            match advanced(primary(t, at), t, at) {
                Ok((left, next)) => if word_at(t, next, "as"@) || word_at(t, next, "to"@) {
                    match primary(t, next + 1) {
                        Ok((right, end)) => Ok(
                            (Tree::ConversionExpression(Box::new(left), Box::new(right)), end),
                        ),
                        Err(error) => Err(error),
                    }
                } else {
                    Ok((left, next))
                },
                Err(error) => Err(error),
            }
        }),
{
    reveal(conversion);
    reveal(primary);
}

/// The definition of [`member`], for one position.
pub proof fn unfold_member(t: Seq<TokenView>, at: int)
    ensures
        member(t, at) == ({
            match advanced(conversion(t, at), t, at) {
                Ok((left, next)) => member_rest(t, next, left),
                Err(error) => Err(error),
            }
        }),
{
    reveal(member);
    reveal(conversion);
    reveal(member_rest);
}

/// The definition of [`member_rest`], for one position.
pub proof fn unfold_member_rest(t: Seq<TokenView>, at: int, left: Tree)
    ensures
        member_rest(t, at, left) == ({
            if kind_at(t, at) == TT::Dot {
                match advanced(conversion(t, at + 1), t, at) {
                    Ok((right, next)) => member_rest(
                        t,
                        next,
                        Tree::MemberExpression(Box::new(left), Box::new(right), true),
                    ),
                    Err(error) => Err(error),
                }
            } else if kind_at(t, at) == TT::OpeningSquareBracket {
                match advanced(expression(t, at + 1), t, at) {
                    Ok((right, next)) => if kind_at(t, next) == TT::ClosingSquareBracket {
                        member_rest(
                            t,
                            next + 1,
                            Tree::MemberExpression(Box::new(left), Box::new(right), false),
                        )
                    } else {
                        Err(unexpected(t, next))
                    },
                    Err(error) => Err(error),
                }
            } else {
                Ok((left, at))
            }
        }),
{
    reveal(member_rest);
    reveal(conversion);
    reveal(expression);
}

/// The definition of [`multiplicative`], for one position.
pub proof fn unfold_multiplicative(t: Seq<TokenView>, at: int)
    ensures
        multiplicative(t, at) == ({
            match advanced(member(t, at), t, at) {
                Ok((left, next)) => multiplicative_rest(t, next, left),
                Err(error) => Err(error),
            }
        }),
{
    reveal(multiplicative);
    reveal(member);
    reveal(multiplicative_rest);
}

/// The definition of [`multiplicative_rest`], for one position.
pub proof fn unfold_multiplicative_rest(t: Seq<TokenView>, at: int, left: Tree)
    ensures
        multiplicative_rest(t, at, left) == ({
            if operator_at(t, at, '*') || operator_at(t, at, '/') || operator_at(t, at, '%') {
                match advanced(member(t, at + 1), t, at) {
                    Ok((right, next)) => multiplicative_rest(
                        t,
                        next,
                        Tree::BinaryExpression(Box::new(left), text_at(t, at), Box::new(right)),
                    ),
                    Err(error) => Err(error),
                }
            } else {
                Ok((left, at))
            }
        }),
{
    reveal(multiplicative_rest);
    reveal(member);
}

/// The definition of [`additive`], for one position.
pub proof fn unfold_additive(t: Seq<TokenView>, at: int)
    ensures
        additive(t, at) == ({
            match advanced(multiplicative(t, at), t, at) {
                Ok((left, next)) => additive_rest(t, next, left),
                Err(error) => Err(error),
            }
        }),
{
    reveal(additive);
    reveal(multiplicative);
    reveal(additive_rest);
}

/// The definition of [`additive_rest`], for one position.
pub proof fn unfold_additive_rest(t: Seq<TokenView>, at: int, left: Tree)
    ensures
        additive_rest(t, at, left) == ({
            if operator_at(t, at, '+') || operator_at(t, at, '-') {
                match advanced(multiplicative(t, at + 1), t, at) {
                    Ok((right, next)) => additive_rest(
                        t,
                        next,
                        Tree::BinaryExpression(Box::new(left), text_at(t, at), Box::new(right)),
                    ),
                    Err(error) => Err(error),
                }
            } else {
                Ok((left, at))
            }
        }),
{
    reveal(additive_rest);
    reveal(multiplicative);
}

/// The definition of [`conditional`], for one position.
pub proof fn unfold_conditional(t: Seq<TokenView>, at: int)
    ensures
        conditional(t, at) == ({
            match advanced(additive(t, at), t, at) {
                Ok((left, next)) => conditional_rest(t, next, left),
                Err(error) => Err(error),
            }
        }),
{
    reveal(conditional);
    reveal(additive);
    reveal(conditional_rest);
}

/// The definition of [`conditional_rest`], for one position.
pub proof fn unfold_conditional_rest(t: Seq<TokenView>, at: int, left: Tree)
    ensures
        conditional_rest(t, at, left) == ({
            if is_relational(kind_at(t, at)) {
                match advanced(additive(t, at + 1), t, at) {
                    Ok((right, next)) => conditional_rest(
                        t,
                        next,
                        Tree::ConditionalExpression(Box::new(left), text_at(t, at), Box::new(right)),
                    ),
                    Err(error) => Err(error),
                }
            } else {
                Ok((left, at))
            }
        }),
{
    reveal(conditional_rest);
    reveal(additive);
}

/// The definition of [`arguments`], for one position.
pub proof fn unfold_arguments(t: Seq<TokenView>, at: int, done: Seq<Tree>)
    ensures
        arguments(t, at, done) == ({
            if kind_at(t, at) == TT::ClosingParenthesis {
                Ok((done, at + 1))
            } else {
                match advanced(expression(t, at), t, at) {
                    Ok((node, next)) => if kind_at(t, next) == TT::Comma {
                        arguments(t, next + 1, done.push(node))
                    } else if kind_at(t, next) == TT::ClosingParenthesis {
                        Ok((done.push(node), next + 1))
                    } else {
                        Err(unexpected(t, next))
                    },
                    Err(error) => Err(error),
                }
            }
        }),
{
    reveal(arguments);
    reveal(expression);
}

/// The definition of [`call`], for one position.
pub proof fn unfold_call(t: Seq<TokenView>, at: int)
    ensures
        call(t, at) == ({
            match advanced(conditional(t, at), t, at) {
                Ok((callee, next)) => if kind_at(t, next) == TT::OpeningParenthesis {
                    match arguments(t, next + 1, Seq::empty()) {
                        Ok((list, end)) => Ok((Tree::CallExpression(Box::new(callee), list), end)),
                        Err(error) => Err(error),
                    }
                } else {
                    Ok((callee, next))
                },
                Err(error) => Err(error),
            }
        }),
{
    reveal(call);
    reveal(conditional);
    reveal(arguments);
}

/// The definition of [`expression`], for one position.
pub proof fn unfold_expression(t: Seq<TokenView>, at: int)
    ensures
        expression(t, at) == ({
            match advanced(call(t, at), t, at) {
                Ok((target, next)) => if (kind_at(t, at) == TT::Identifier || kind_at(t, at)
                    == TT::OpeningParenthesis) && kind_at(t, next) == TT::AssignmentOperator {
                    match expression(t, next + 1) {
                        Ok((value, end)) => if kind_at(t, end) == TT::SemiColon {
                            Ok((Tree::AssignmentExpression(Box::new(target), Box::new(value)), end + 1))
                        } else {
                            Err(unexpected(t, end))
                        },
                        Err(error) => Err(error),
                    }
                } else {
                    Ok((target, next))
                },
                Err(error) => Err(error),
            }
        }),
{
    reveal(expression);
    reveal(call);
}

/// The definition of [`variable_declaration`], for one position.
pub proof fn unfold_variable_declaration(t: Seq<TokenView>, at: int)
    ensures
        variable_declaration(t, at) == ({
            let name = if kind_at(t, at + 1) == TT::Identifier {
                primary(t, at + 1)
            } else if kind_at(t, at + 1) == TT::OpeningParenthesis {
                call(t, at + 1)
            } else {
                Err(unexpected(t, at + 1))
            };
            match advanced(name, t, at) {
                Ok((name, next)) => if kind_at(t, next) == TT::AssignmentOperator {
                    match expression(t, next + 1) {
                        Ok((value, end)) => if kind_at(t, end) == TT::SemiColon {
                            Ok((Tree::VariableDeclaration(Box::new(name), Box::new(value)), end + 1))
                        } else {
                            Err(unexpected(t, end))
                        },
                        Err(error) => Err(error),
                    }
                } else if kind_at(t, next) == TT::SemiColon {
                    Ok(
                        (
                            Tree::VariableDeclaration(Box::new(name), Box::new(Tree::NullLiteral)),
                            next + 1,
                        ),
                    )
                } else {
                    Err(unexpected(t, next))
                },
                Err(error) => Err(error),
            }
        }),
{
    reveal(variable_declaration);
    reveal(primary);
    reveal(call);
    reveal(expression);
}

/// The definition of [`statements`], for one position.
pub proof fn unfold_statements(t: Seq<TokenView>, at: int, closer: TT, done: Seq<Tree>)
    ensures
        statements(t, at, closer, done) == ({
            if kind_at(t, at) == closer {
                Ok((done, at))
            } else {
                match advanced(statement(t, at), t, at) {
                    Ok((node, next)) => statements(t, next, closer, done.push(node)),
                    Err(error) => Err(error),
                }
            }
        }),
{
    reveal(statements);
    reveal(statement);
}

/// The definition of [`block`], for one position.
pub proof fn unfold_block(t: Seq<TokenView>, at: int)
    ensures
        block(t, at) == ({
            if kind_at(t, at) == TT::OpeningCurlyBrace {
                match statements(t, at + 1, TT::ClosingCurlyBrace, Seq::empty()) {
                    Ok((body, next)) => Ok((Tree::Program(body), next + 1)),
                    Err(error) => Err(error),
                }
            } else {
                Err(unexpected(t, at))
            }
        }),
{
    reveal(block);
    reveal(statements);
}

/// The definition of [`if_statement`], for one position.
pub proof fn unfold_if_statement(t: Seq<TokenView>, at: int)
    ensures
        if_statement(t, at) == ({
            match advanced(conditional(t, at + 1), t, at) {
                Ok((condition, next)) => match advanced(block(t, next), t, at) {
                    Ok((body, after)) => if word_at(t, after, "else"@) {
                        match block(t, after + 1) {
                            Ok((alternative, end)) => Ok(
                                (
                                    Tree::IfStatement(
                                        Box::new(condition),
                                        Box::new(body),
                                        Box::new(alternative),
                                    ),
                                    end,
                                ),
                            ),
                            Err(error) => Err(error),
                        }
                    } else {
                        Ok(
                            (
                                Tree::IfStatement(
                                    Box::new(condition),
                                    Box::new(body),
                                    Box::new(Tree::Program(Seq::empty())),
                                ),
                                after,
                            ),
                        )
                    },
                    Err(error) => Err(error),
                },
                Err(error) => Err(error),
            }
        }),
{
    reveal(if_statement);
    reveal(conditional);
    reveal(block);
}

/// The definition of [`case_arm`], for one position.
pub proof fn unfold_case_arm(t: Seq<TokenView>, at: int)
    ensures
        case_arm(t, at) == ({
            match advanced(expression(t, at), t, at) {
                Ok((label, next)) => if kind_at(t, next) == TT::Colon {
                    match block(t, next + 1) {
                        Ok((body, end)) => if kind_at(t, end) == TT::SemiColon {
                            Ok((Tree::Case(Box::new(label), Box::new(body)), end + 1))
                        } else {
                            Err(unexpected(t, end))
                        },
                        Err(error) => Err(error),
                    }
                } else {
                    Err(unexpected(t, next))
                },
                Err(error) => Err(error),
            }
        }),
{
    reveal(case_arm);
    reveal(expression);
    reveal(block);
}

/// The definition of [`case_arms`], for one position.
pub proof fn unfold_case_arms(t: Seq<TokenView>, at: int, done: Seq<Tree>)
    ensures
        case_arms(t, at, done) == ({
            if kind_at(t, at) == TT::ClosingCurlyBrace {
                Ok((done, at))
            } else {
                match advanced(case_arm(t, at), t, at) {
                    Ok((arm, next)) => case_arms(t, next, done.push(arm)),
                    Err(error) => Err(error),
                }
            }
        }),
{
    reveal(case_arms);
    reveal(case_arm);
}

/// The definition of [`case_statement`], for one position.
pub proof fn unfold_case_statement(t: Seq<TokenView>, at: int)
    ensures
        case_statement(t, at) == ({
            match advanced(expression(t, at + 1), t, at) {
                Ok((scrutinee, next)) => if !word_at(t, next, "of"@) {
                    Err(unexpected(t, next))
                } else if kind_at(t, next + 1) != TT::OpeningCurlyBrace {
                    Err(unexpected(t, next + 1))
                } else {
                    match case_arms(t, next + 2, Seq::empty()) {
                        Ok((arms, end)) => if kind_at(t, end + 1) == TT::SemiColon {
                            Ok((Tree::CaseStatement(Box::new(scrutinee), arms), end + 2))
                        } else {
                            Err(unexpected(t, end + 1))
                        },
                        Err(error) => Err(error),
                    }
                },
                Err(error) => Err(error),
            }
        }),
{
    reveal(case_statement);
    reveal(expression);
    reveal(case_arms);
}

/// The definition of [`parameters`], for one position.
pub proof fn unfold_parameters(t: Seq<TokenView>, at: int, names: Seq<Tree>, types: Seq<Option<Tree>>)
    ensures
        parameters(t, at, names, types) == ({
            if kind_at(t, at) == TT::ClosingParenthesis {
                Ok((names, types, at + 1))
            } else if kind_at(t, at) == TT::Identifier {
                let name = Tree::Identifier(text_at(t, at));
                let declared: Result<(Option<Tree>, int), Error> = if kind_at(t, at + 1) == TT::Colon {
                    match advanced(expression(t, at + 2), t, at) {
                        Ok((shown, next)) => Ok((Some(shown), next)),
                        Err(error) => Err(error),
                    }
                } else {
                    Ok((None, at + 1))
                };
                match declared {
                    Ok((shown, next)) => if kind_at(t, next) == TT::Comma {
                        parameters(t, next + 1, names.push(name), types.push(shown))
                    } else if kind_at(t, next) == TT::ClosingParenthesis {
                        Ok((names.push(name), types.push(shown), next + 1))
                    } else {
                        Err(unexpected(t, next))
                    },
                    Err(error) => Err(error),
                }
            } else {
                Err(unexpected(t, at))
            }
        }),
{
    reveal(parameters);
    reveal(expression);
}

/// The definition of [`function_declaration`], for one position.
pub proof fn unfold_function_declaration(t: Seq<TokenView>, at: int)
    ensures
        function_declaration(t, at) == ({
            if kind_at(t, at + 1) != TT::Identifier {
                Err(unexpected(t, at + 1))
            } else if kind_at(t, at + 2) != TT::OpeningParenthesis {
                Err(unexpected(t, at + 2))
            } else {
                match parameters(t, at + 3, Seq::empty(), Seq::empty()) {
                    Ok((names, types, next)) => if at < next <= t.len() {
                        match block(t, next) {
                            Ok((body, end)) => Ok(
                                (
                                    Tree::FunctionDeclaration(
                                        Box::new(Tree::Identifier(text_at(t, at + 1))),
                                        names,
                                        types,
                                        None,
                                        Box::new(body),
                                    ),
                                    end,
                                ),
                            ),
                            Err(error) => Err(error),
                        }
                    } else {
                        Err(unexpected(t, at))
                    },
                    Err(error) => Err(error),
                }
            }
        }),
{
    reveal(function_declaration);
    reveal(block);
    reveal(parameters);
}

/// The definition of [`statement`], for one position.
pub proof fn unfold_statement(t: Seq<TokenView>, at: int)
    ensures
        statement(t, at) == ({
            if kind_at(t, at) == TT::KeyWord {
                if text_at(t, at) == "let"@ {
                    variable_declaration(t, at)
                } else if text_at(t, at) == "if"@ {
                    if_statement(t, at)
                } else if text_at(t, at) == "case"@ {
                    case_statement(t, at)
                } else if text_at(t, at) == "func"@ {
                    function_declaration(t, at)
                } else {
                    Err(unexpected(t, at))
                }
            } else {
                expression(t, at)
            }
        }),
{
    reveal(statement);
    reveal(expression);
    reveal(variable_declaration);
    reveal(if_statement);
    reveal(case_statement);
    reveal(function_declaration);
}

} // verus!
