//! Turns source text into tokens.
use vstd::prelude::*;

use crate::error::Error;
use crate::text::{characters, string_from};

verus! {

/// The kind of a token.
#[derive(Clone, Copy, Debug, PartialEq, Eq, Structural)]
pub enum TT {
    Integer,
    Real,
    String,
    Comma,
    Dot,
    BinaryOperator,
    OpeningCurlyBrace,
    ClosingCurlyBrace,
    OpeningSquareBracket,
    ClosingSquareBracket,
    OpeningParenthesis,
    ClosingParenthesis,
    Eof,
    SemiColon,
    Colon,
    KeyWord,
    Identifier,
    AssignmentOperator,
    EqualityOperator,
    InEqualityOperator,
    GreaterThan,
    LessThan,
    GreaterThanOrEqualTo,
    LessThanOrEqualTo,
    Not,
    And,
    Or,
    Xor,
}

/// A token: its kind and the text it stands for.
#[derive(Debug)]
pub struct Token {
    pub kind: TT,
    pub value: String,
}

/// The mathematical model of [`Token`].
pub struct TokenView {
    pub kind: TT,
    pub value: Seq<char>,
}

impl View for Token {
    type V = TokenView;

    open spec fn view(&self) -> TokenView {
        TokenView { kind: self.kind, value: self.value@ }
    }
}

/// The views of a sequence of tokens.
pub open spec fn token_views(tokens: Seq<Token>) -> Seq<TokenView> {
    Seq::new(tokens.len(), |i: int| tokens[i]@)
}

impl Token {
    pub fn new(kind: TT, value: String) -> (token: Token)
        ensures
            token@ == (TokenView { kind, value: value@ }),
    {
        Token { kind, value }
    }
}

impl Clone for Token {
    fn clone(&self) -> (token: Token)
        ensures
            token@ == self@,
    {
        Token { kind: self.kind, value: self.value.clone() }
    }
}

/// A class of characters that a token is made of.
#[derive(Clone, Copy, Debug, PartialEq, Eq, Structural)]
pub enum CharClass {
    /// `0` to `9`.
    Digit,
    /// A letter or a digit: what an identifier continues with.
    Word,
    /// Anything but a line feed: the body of a comment.
    Comment,
    /// Anything but the given quote: the body of a string literal.
    Quoted(char),
}

pub open spec fn is_letter(c: char) -> bool {
    ('a' <= c && c <= 'z') || ('A' <= c && c <= 'Z')
}

pub open spec fn is_digit(c: char) -> bool {
    '0' <= c && c <= '9'
}

/// The characters that the lexer skips between tokens.
pub open spec fn is_blank(c: char) -> bool {
    c == ' ' || c == '\n' || c == '\t'
}

impl CharClass {
    pub open spec fn holds(self, c: char) -> bool {
        match self {
            CharClass::Digit => is_digit(c),
            CharClass::Word => is_letter(c) || is_digit(c),
            CharClass::Comment => c != '\n',
            CharClass::Quoted(quote) => c != quote,
        }
    }

    fn has(self, c: char) -> (result: bool)
        ensures
            result == self.holds(c),
    {
        match self {
            CharClass::Digit => '0' <= c && c <= '9',
            CharClass::Word => ('a' <= c && c <= 'z') || ('A' <= c && c <= 'Z') || ('0' <= c && c
                <= '9'),
            CharClass::Comment => c != '\n',
            CharClass::Quoted(quote) => c != quote,
        }
    }
}

/// The end of the longest run of characters of `class` that starts at `from`.
pub open spec fn run_end(source: Seq<char>, from: int, class: CharClass) -> int
    decreases source.len() - from,
{
    if 0 <= from < source.len() && class.holds(source[from]) {
        run_end(source, from + 1, class)
    } else {
        from
    }
}

pub proof fn lemma_run_end_bounds(source: Seq<char>, from: int, class: CharClass)
    requires
        0 <= from <= source.len(),
    ensures
        from <= run_end(source, from, class) <= source.len(),
    decreases source.len() - from,
{
    if from < source.len() && class.holds(source[from]) {
        lemma_run_end_bounds(source, from + 1, class);
    }
}

/// The words that the grammar reserves.
pub open spec fn is_keyword(word: Seq<char>) -> bool {
    ||| word == seq!['l', 'e', 't']
    ||| word == seq!['i', 'f']
    ||| word == seq!['e', 'l', 's', 'e']
    ||| word == seq!['c', 'a', 's', 'e']
    ||| word == seq!['o', 'f']
    ||| word == seq!['d', 'e', 'f', 'a', 'u', 'l', 't']
    ||| word == seq!['a', 's']
    ||| word == seq!['t', 'o']
    ||| word == seq!['f', 'u', 'n', 'c']
}

/// The kind of a token that is one character long whatever follows it.
pub open spec fn single_kind(c: char) -> Option<TT> {
    if c == '+' || c == '-' || c == '*' || c == '/' || c == '%' {
        Some(TT::BinaryOperator)
    } else if c == ';' {
        Some(TT::SemiColon)
    } else if c == ':' {
        Some(TT::Colon)
    } else if c == ',' {
        Some(TT::Comma)
    } else if c == '.' {
        Some(TT::Dot)
    } else if c == '(' {
        Some(TT::OpeningParenthesis)
    } else if c == ')' {
        Some(TT::ClosingParenthesis)
    } else if c == '{' {
        Some(TT::OpeningCurlyBrace)
    } else if c == '}' {
        Some(TT::ClosingCurlyBrace)
    } else if c == '[' {
        Some(TT::OpeningSquareBracket)
    } else if c == ']' {
        Some(TT::ClosingSquareBracket)
    } else if c == '&' {
        Some(TT::And)
    } else if c == '^' {
        Some(TT::Xor)
    } else if c == '|' {
        Some(TT::Or)
    } else {
        None
    }
}

/// For a character that may be followed by `=`: the kind of the token when
/// it stands alone.
pub open spec fn alone_kind(c: char) -> Option<TT> {
    if c == '>' {
        Some(TT::GreaterThan)
    } else if c == '<' {
        Some(TT::LessThan)
    } else if c == '=' {
        Some(TT::AssignmentOperator)
    } else if c == '!' {
        Some(TT::Not)
    } else {
        None
    }
}

/// The kind of the two-character token made of `c` and `=`.
pub open spec fn paired_kind(c: char) -> TT {
    if c == '>' {
        TT::GreaterThanOrEqualTo
    } else if c == '<' {
        TT::LessThanOrEqualTo
    } else if c == '=' {
        TT::EqualityOperator
    } else {
        TT::InEqualityOperator
    }
}

/// What the lexer finds at one position of the source.
pub enum Scan {
    /// Nothing to emit; go on at `next`.
    Skip { next: int },
    /// A token; go on at `next`.
    Found { token: TokenView, next: int },
    /// The character at `position` fits no token.
    Invalid { position: int },
}

pub open spec fn found(kind: TT, source: Seq<char>, from: int, to: int, next: int) -> Scan {
    Scan::Found { token: TokenView { kind, value: source.subrange(from, to) }, next }
}

/// What stands at `at`, which is a position inside `source`.
///
/// A numeric literal is a run of digits, optionally followed by one `.` and
/// another (possibly empty) run of digits; a second `.` right after that is
/// rejected rather than handed on as part of the number.
pub open spec fn scan(source: Seq<char>, at: int) -> Scan
    recommends
        0 <= at < source.len(),
{
    let c = source[at];
    if is_blank(c) {
        Scan::Skip { next: at + 1 }
    } else if c == '/' && at + 1 < source.len() && source[at + 1] == '/' {
        Scan::Skip { next: run_end(source, at + 2, CharClass::Comment) }
    } else if single_kind(c) is Some {
        found(single_kind(c)->0, source, at, at + 1, at + 1)
    } else if alone_kind(c) is Some {
        if at + 1 < source.len() && source[at + 1] == '=' {
            found(paired_kind(c), source, at, at + 2, at + 2)
        } else {
            found(alone_kind(c)->0, source, at, at + 1, at + 1)
        }
    } else if c == '\'' || c == '"' {
        let end = run_end(source, at + 1, CharClass::Quoted(c));
        found(TT::String, source, at + 1, end, if end < source.len() { end + 1 } else { end })
    } else if is_letter(c) {
        let end = run_end(source, at + 1, CharClass::Word);
        let kind = if is_keyword(source.subrange(at, end)) { TT::KeyWord } else { TT::Identifier };
        found(kind, source, at, end, end)
    } else if is_digit(c) {
        let whole = run_end(source, at + 1, CharClass::Digit);
        if whole < source.len() && source[whole] == '.' {
            let end = run_end(source, whole + 1, CharClass::Digit);
            if end < source.len() && source[end] == '.' {
                Scan::Invalid { position: end }
            } else {
                found(TT::Real, source, at, end, end)
            }
        } else {
            found(TT::Integer, source, at, whole, whole)
        }
    } else {
        Scan::Invalid { position: at }
    }
}

/// The token that ends every token sequence.
pub open spec fn end_of_input() -> TokenView {
    TokenView { kind: TT::Eof, value: Seq::empty() }
}

/// The error for the character at `position`.
pub open spec fn invalid_character(source: Seq<char>, position: int) -> Error
    recommends
        0 <= position < source.len(),
{
    Error::Lex { position: position as usize, character: source[position] }
}

/// The tokens of `source` from position `from` on, or the first error.
pub open spec fn tokens_from(source: Seq<char>, from: int) -> Result<Seq<TokenView>, Error>
    decreases source.len() - from,
    via tokens_from_terminates
{
    if from < 0 || from >= source.len() {
        Ok(seq![end_of_input()])
    } else {
        match scan(source, from) {
            Scan::Skip { next } => tokens_from(source, next),
            Scan::Found { token, next } => match tokens_from(source, next) {
                Ok(rest) => Ok(seq![token] + rest),
                Err(error) => Err(error),
            },
            Scan::Invalid { position } => Err(invalid_character(source, position)),
        }
    }
}

#[via_fn]
proof fn tokens_from_terminates(source: Seq<char>, from: int) {
    if 0 <= from < source.len() {
        lemma_scan_advances(source, from);
    }
}

/// The tokens of a whole source text: what [`Lexer::tokenize`] returns.
pub open spec fn tokens_of(source: Seq<char>) -> Result<Seq<TokenView>, Error> {
    tokens_from(source, 0)
}

/// Every scan moves forward and stays inside the source.
pub proof fn lemma_scan_advances(source: Seq<char>, at: int)
    requires
        0 <= at < source.len(),
    ensures
        match scan(source, at) {
            Scan::Skip { next } => at < next <= source.len(),
            Scan::Found { token, next } => at < next <= source.len(),
            Scan::Invalid { position } => at <= position < source.len(),
        },
{
    let c = source[at];
    lemma_run_end_bounds(source, at + 1, CharClass::Quoted(c));
    lemma_run_end_bounds(source, at + 1, CharClass::Word);
    let whole = run_end(source, at + 1, CharClass::Digit);
    lemma_run_end_bounds(source, at + 1, CharClass::Digit);
    if at + 2 <= source.len() {
        lemma_run_end_bounds(source, at + 2, CharClass::Comment);
    }
    if whole < source.len() {
        lemma_run_end_bounds(source, whole + 1, CharClass::Digit);
    }
}

/// The result of one scan, in executable form.
enum Step {
    Skip { next: usize },
    Found { token: Token, next: usize },
    Invalid { position: usize },
}

impl Step {
    spec fn model(self) -> Scan {
        match self {
            Step::Skip { next } => Scan::Skip { next: next as int },
            Step::Found { token, next } => Scan::Found { token: token@, next: next as int },
            Step::Invalid { position } => Scan::Invalid { position: position as int },
        }
    }
}

/// A lexer over one source text.
#[derive(Debug)]
pub struct Lexer {
    source_code: Vec<char>,
}

impl Lexer {
    /// The characters that are still to be read.
    pub closed spec fn remaining(&self) -> Seq<char> {
        self.source_code@
    }

    pub fn new(source_code: String) -> (lexer: Lexer)
        ensures
            lexer.remaining() == source_code@,
    {
        Lexer { source_code: characters(source_code.as_str()) }
    }

    fn run(&self, from: usize, class: CharClass) -> (end: usize)
        requires
            from <= self.source_code@.len(),
        ensures
            end == run_end(self.source_code@, from as int, class),
            from <= end <= self.source_code@.len(),
    {
        let mut end: usize = from;
        while end < self.source_code.len() && class.has(self.source_code[end])
            invariant
                from <= end <= self.source_code@.len(),
                run_end(self.source_code@, from as int, class) == run_end(
                    self.source_code@,
                    end as int,
                    class,
                ),
            decreases self.source_code@.len() - end,
        {
            end += 1;
        }
        end
    }

    fn word_is_keyword(&self, from: usize, to: usize) -> (result: bool)
        requires
            from <= to <= self.source_code@.len(),
        ensures
            result == is_keyword(self.source_code@.subrange(from as int, to as int)),
    {
        let s = &self.source_code;
        let n = to - from;
        let ghost word = self.source_code@.subrange(from as int, to as int);
        let result = (n == 3 && s[from] == 'l' && s[from + 1] == 'e' && s[from + 2] == 't') || (n
            == 2 && s[from] == 'i' && s[from + 1] == 'f') || (n == 4 && s[from] == 'e' && s[from
            + 1] == 'l' && s[from + 2] == 's' && s[from + 3] == 'e') || (n == 4 && s[from] == 'c'
            && s[from + 1] == 'a' && s[from + 2] == 's' && s[from + 3] == 'e') || (n == 2
            && s[from] == 'o' && s[from + 1] == 'f') || (n == 7 && s[from] == 'd' && s[from + 1]
            == 'e' && s[from + 2] == 'f' && s[from + 3] == 'a' && s[from + 4] == 'u' && s[from
            + 5] == 'l' && s[from + 6] == 't') || (n == 2 && s[from] == 'a' && s[from + 1] == 's')
            || (n == 2 && s[from] == 't' && s[from + 1] == 'o') || (n == 4 && s[from] == 'f'
            && s[from + 1] == 'u' && s[from + 2] == 'n' && s[from + 3] == 'c');
        proof {
            if result {
                assert(word =~= seq!['l', 'e', 't'] || word =~= seq!['i', 'f'] || word
                    =~= seq!['e', 'l', 's', 'e'] || word =~= seq!['c', 'a', 's', 'e'] || word
                    =~= seq!['o', 'f'] || word =~= seq!['d', 'e', 'f', 'a', 'u', 'l', 't'] || word
                    =~= seq!['a', 's'] || word =~= seq!['t', 'o'] || word
                    =~= seq!['f', 'u', 'n', 'c']);
            } else if is_keyword(word) {
                assert(word.len() == n);
                if n >= 1 {
                    assert(word[0] == s@[from as int]);
                }
                if n >= 2 {
                    assert(word[1] == s@[from + 1]);
                }
                if n >= 3 {
                    assert(word[2] == s@[from + 2]);
                }
                if n >= 4 {
                    assert(word[3] == s@[from + 3]);
                }
                if n >= 7 {
                    assert(word[4] == s@[from + 4]);
                    assert(word[5] == s@[from + 5]);
                    assert(word[6] == s@[from + 6]);
                }
                assert(false);
            }
        }
        result
    }

    fn token(&self, kind: TT, from: usize, to: usize, next: usize) -> (step: Step)
        requires
            from <= to <= self.source_code@.len(),
        ensures
            step.model() == found(kind, self.source_code@, from as int, to as int, next as int),
    {
        Step::Found { token: Token::new(kind, string_from(&self.source_code, from, to)), next }
    }

    /// Reads what stands at `at`.
    fn scan_at(&self, at: usize) -> (step: Step)
        requires
            at < self.source_code@.len(),
        ensures
            step.model() == scan(self.source_code@, at as int),
    {
        let s = &self.source_code;
        let length = s.len();
        let c = s[at];
        let followed = at + 1 < length;
        if c == ' ' || c == '\n' || c == '\t' {
            Step::Skip { next: at + 1 }
        } else if c == '/' && followed && s[at + 1] == '/' {
            Step::Skip { next: self.run(at + 2, CharClass::Comment) }
        } else if c == '+' || c == '-' || c == '*' || c == '/' || c == '%' {
            self.token(TT::BinaryOperator, at, at + 1, at + 1)
        } else if c == ';' {
            self.token(TT::SemiColon, at, at + 1, at + 1)
        } else if c == ':' {
            self.token(TT::Colon, at, at + 1, at + 1)
        } else if c == ',' {
            self.token(TT::Comma, at, at + 1, at + 1)
        } else if c == '.' {
            self.token(TT::Dot, at, at + 1, at + 1)
        } else if c == '(' {
            self.token(TT::OpeningParenthesis, at, at + 1, at + 1)
        } else if c == ')' {
            self.token(TT::ClosingParenthesis, at, at + 1, at + 1)
        } else if c == '{' {
            self.token(TT::OpeningCurlyBrace, at, at + 1, at + 1)
        } else if c == '}' {
            self.token(TT::ClosingCurlyBrace, at, at + 1, at + 1)
        } else if c == '[' {
            self.token(TT::OpeningSquareBracket, at, at + 1, at + 1)
        } else if c == ']' {
            self.token(TT::ClosingSquareBracket, at, at + 1, at + 1)
        } else if c == '&' {
            self.token(TT::And, at, at + 1, at + 1)
        } else if c == '^' {
            self.token(TT::Xor, at, at + 1, at + 1)
        } else if c == '|' {
            self.token(TT::Or, at, at + 1, at + 1)
        } else if c == '>' || c == '<' || c == '=' || c == '!' {
            let (alone, paired) = if c == '>' {
                (TT::GreaterThan, TT::GreaterThanOrEqualTo)
            } else if c == '<' {
                (TT::LessThan, TT::LessThanOrEqualTo)
            } else if c == '=' {
                (TT::AssignmentOperator, TT::EqualityOperator)
            } else {
                (TT::Not, TT::InEqualityOperator)
            };
            if followed && s[at + 1] == '=' {
                self.token(paired, at, at + 2, at + 2)
            } else {
                self.token(alone, at, at + 1, at + 1)
            }
        } else if c == '\'' || c == '"' {
            let end = self.run(at + 1, CharClass::Quoted(c));
            let next = if end < s.len() {
                end + 1
            } else {
                end
            };
            self.token(TT::String, at + 1, end, next)
        } else if ('a' <= c && c <= 'z') || ('A' <= c && c <= 'Z') {
            let end = self.run(at + 1, CharClass::Word);
            let kind = if self.word_is_keyword(at, end) {
                TT::KeyWord
            } else {
                TT::Identifier
            };
            self.token(kind, at, end, end)
        } else if '0' <= c && c <= '9' {
            let whole = self.run(at + 1, CharClass::Digit);
            if whole < s.len() && s[whole] == '.' {
                let end = self.run(whole + 1, CharClass::Digit);
                if end < s.len() && s[end] == '.' {
                    Step::Invalid { position: end }
                } else {
                    self.token(TT::Real, at, end, end)
                }
            } else {
                self.token(TT::Integer, at, whole, whole)
            }
        } else {
            Step::Invalid { position: at }
        }
    }

    /// Reads the source as tokens and ends them with an end-of-input token.
    /// Stops at the first character that starts no token. The source is used
    /// up by a successful run: a second one finds nothing but its end.
    pub fn tokenize(&mut self) -> (result: Result<Vec<Token>, Error>)
        ensures
            match result {
                Ok(tokens) => tokens_of(old(self).remaining()) == Ok::<Seq<TokenView>, Error>(
                    token_views(tokens@),
                ),
                Err(error) => tokens_of(old(self).remaining()) == Err::<Seq<TokenView>, Error>(
                    error,
                ),
            },
            result is Ok ==> final(self).remaining().len() == 0,
            result is Err ==> final(self).remaining() == old(self).remaining(),
    {
        let result = self.tokenize_all();
        if result.is_ok() {
            self.source_code = Vec::new();
        }
        result
    }

    fn tokenize_all(&self) -> (result: Result<Vec<Token>, Error>)
        ensures
            match result {
                Ok(tokens) => tokens_of(self.source_code@) == Ok::<Seq<TokenView>, Error>(
                    token_views(tokens@),
                ),
                Err(error) => tokens_of(self.source_code@) == Err::<Seq<TokenView>, Error>(error),
            },
    {
        let mut tokens: Vec<Token> = Vec::new();
        let mut at: usize = 0;
        let ghost source = self.source_code@;
        while at < self.source_code.len()
            invariant
                at <= source.len(),
                source == self.source_code@,
                tokens_of(source) == prepend(token_views(tokens@), tokens_from(source, at as int)),
            decreases source.len() - at,
        {
            proof {
                lemma_scan_advances(source, at as int);
            }
            match self.scan_at(at) {
                Step::Skip { next } => {
                    at = next;
                },
                Step::Found { token, next } => {
                    let ghost before = token_views(tokens@);
                    let ghost view = token@;
                    tokens.push(token);
                    proof {
                        assert(token_views(tokens@) =~= before.push(view));
                        let rest = tokens_from(source, next as int);
                        match rest {
                            Ok(tail) => {
                                assert(before + (seq![view] + tail) =~= before.push(view) + tail);
                            },
                            Err(_) => {},
                        }
                    }
                    at = next;
                },
                Step::Invalid { position } => {
                    return Err(Error::Lex { position, character: self.source_code[position] });
                },
            }
        }
        let ghost before = token_views(tokens@);
        tokens.push(Token::new(TT::Eof, String::new()));
        proof {
            assert(token_views(tokens@) =~= before + seq![end_of_input()]);
        }
        Ok(tokens)
    }
}

/// A successful tokenization with `head` put in front; an error unchanged.
pub open spec fn prepend(head: Seq<TokenView>, rest: Result<Seq<TokenView>, Error>) -> Result<
    Seq<TokenView>,
    Error,
> {
    match rest {
        Ok(tail) => Ok(head + tail),
        Err(error) => Err(error),
    }
}

} // verus!
