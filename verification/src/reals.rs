//! Reals, as far as they can be handled without floating-point arithmetic.
//!
//! A real is an IEEE 754 binary64 number held as its 64 bits: one sign bit,
//! eleven exponent bits, fifty-two fraction bits. Equality is decided here,
//! on the bits. Everything else is described by a [`Request`] and computed
//! by the host.
use vstd::prelude::*;

verus! {

/// An arithmetic operator.
#[derive(Clone, Copy, Debug, PartialEq, Eq, Structural)]
pub enum Operator {
    Add,
    Subtract,
    Multiply,
    Divide,
    Remainder,
}

/// A relational operator.
#[derive(Clone, Copy, Debug, PartialEq, Eq, Structural)]
pub enum Relation {
    Less,
    LessEqual,
    Greater,
    GreaterEqual,
    Equal,
    NotEqual,
}

/// A numeric operand. The host widens an integer to the nearest real before
/// it computes with it.
#[derive(Clone, Copy, Debug, PartialEq, Eq, Structural)]
pub enum Number {
    Integer(i64),
    Real(u64),
}

/// What the host is asked to compute on reals.
#[derive(Debug)]
pub enum Request {
    /// The real that the text spells. Answer: a real, or that there is none.
    Parse(String),
    /// The operator applied to the two operands. Answer: a real.
    Arithmetic(Operator, Number, Number),
    /// Whether the relation holds between the operands. Answer: a boolean.
    Compare(Relation, Number, Number),
    /// The real with the opposite sign. Answer: a real.
    Negate(u64),
    /// The real without its fraction, as an integer of 64 bits, the nearest
    /// one where it does not fit. Answer: an integer.
    Truncate(u64),
    /// The real in decimal notation. Answer: a text.
    Render(u64),
    /// The real nearest to the integer. Answer: a real.
    Widen(i64),
}

/// The mathematical model of [`Request`].
pub enum RequestView {
    Parse(Seq<char>),
    Arithmetic(Operator, Number, Number),
    Compare(Relation, Number, Number),
    Negate(u64),
    Truncate(u64),
    Render(u64),
    Widen(i64),
}

impl View for Request {
    type V = RequestView;

    open spec fn view(&self) -> RequestView {
        match self {
            Request::Parse(text) => RequestView::Parse(text@),
            Request::Arithmetic(operator, left, right) => RequestView::Arithmetic(
                *operator,
                *left,
                *right,
            ),
            Request::Compare(relation, left, right) => RequestView::Compare(
                *relation,
                *left,
                *right,
            ),
            Request::Negate(bits) => RequestView::Negate(*bits),
            Request::Truncate(bits) => RequestView::Truncate(*bits),
            Request::Render(bits) => RequestView::Render(*bits),
            Request::Widen(value) => RequestView::Widen(*value),
        }
    }
}

/// The kind of answer that a request waits for.
#[derive(Clone, Copy, Debug, PartialEq, Eq, Structural)]
pub enum Answer {
    /// Nothing but the word that the action was performed.
    Nothing,
    /// A line of input.
    Line,
    Real,
    /// A real, or the word that the text spells none.
    ParsedReal,
    Boolean,
    Integer,
    Text,
}

/// The kind of answer that `request` waits for.
pub open spec fn answer_to(request: RequestView) -> Answer {
    match request {
        RequestView::Parse(_) => Answer::ParsedReal,
        RequestView::Arithmetic(_, _, _) => Answer::Real,
        RequestView::Compare(_, _, _) => Answer::Boolean,
        RequestView::Negate(_) => Answer::Real,
        RequestView::Truncate(_) => Answer::Integer,
        RequestView::Render(_) => Answer::Text,
        RequestView::Widen(_) => Answer::Real,
    }
}

impl Request {
    pub fn answer(&self) -> (answer: Answer)
        ensures
            answer == answer_to(self@),
    {
        match self {
            Request::Parse(_) => Answer::ParsedReal,
            Request::Arithmetic(_, _, _) => Answer::Real,
            Request::Compare(_, _, _) => Answer::Boolean,
            Request::Negate(_) => Answer::Real,
            Request::Truncate(_) => Answer::Integer,
            Request::Render(_) => Answer::Text,
            Request::Widen(_) => Answer::Real,
        }
    }
}

/// The bits of a real without its sign.
pub open spec fn magnitude(bits: u64) -> u64 {
    bits & 0x7fff_ffff_ffff_ffff
}

/// Whether the bits stand for no number: all exponent bits set and a
/// fraction that is not zero.
pub open spec fn is_nan(bits: u64) -> bool {
    magnitude(bits) > 0x7ff0_0000_0000_0000
}

/// Whether two reals are equal as numbers: neither is a NaN, and they have
/// the same bits or are both zero (of either sign).
pub open spec fn real_equal(left: u64, right: u64) -> bool {
    !is_nan(left) && !is_nan(right) && (left == right || (magnitude(left) == 0 && magnitude(right)
        == 0))
}

/// Whether two reals are equal as numbers.
pub fn equal_reals(left: u64, right: u64) -> (result: bool)
    ensures
        result == real_equal(left, right),
{
    let a = left & 0x7fff_ffff_ffff_ffff;
    let b = right & 0x7fff_ffff_ffff_ffff;
    !(a > 0x7ff0_0000_0000_0000) && !(b > 0x7ff0_0000_0000_0000) && (left == right || (a == 0 && b
        == 0))
}

} // verus!
