//! A recursive-descent parser from tokens to a syntax tree.
use vstd::prelude::*;

use crate::ast::{optional_tree, optional_trees, trees, ASTNode, Tree};
use crate::error::Error;
use crate::grammar::{
    unfold_additive, unfold_additive_rest, unfold_arguments, unfold_block, unfold_call,
    unfold_case_arm, unfold_case_arms, unfold_case_statement, unfold_conditional,
    unfold_conditional_rest, unfold_conversion, unfold_expression, unfold_function_declaration,
    unfold_if_statement, unfold_items, unfold_member, unfold_member_rest, unfold_multiplicative,
    unfold_multiplicative_rest, unfold_parameters, unfold_primary, unfold_statement,
    unfold_statements, unfold_variable_declaration,
    additive, additive_rest, advanced, arguments, block, call, case_arm, case_arms,
    case_statement, conditional, conditional_rest, conversion, expression, function_declaration,
    if_statement, is_relational, items, kind_at, member, member_rest, multiplicative,
    multiplicative_rest, operator_at, parameters, primary, program, sign_at, statement,
    statements, text_at, unexpected, variable_declaration, word_at, Parsed, ParsedList,
    ParsedParameters,
};
use crate::lexer::{token_views, Token, TokenView, TT};
use crate::number::parse_integer;
use crate::text::{same_text, single};

verus! {

/// Appends a node to a list of nodes.
pub fn push_node(nodes: &mut Vec<ASTNode>, node: ASTNode)
    ensures
        final(nodes)@ == old(nodes)@.push(node),
        trees(final(nodes)@) == trees(old(nodes)@).push(node.model()),
{
    nodes.push(node);
    assert(trees(nodes@) =~= trees(old(nodes)@).push(node.model()));
}

fn push_optional(nodes: &mut Vec<Option<ASTNode>>, node: Option<ASTNode>)
    ensures
        final(nodes)@ == old(nodes)@.push(node),
        optional_trees(final(nodes)@) == optional_trees(old(nodes)@).push(optional_tree(node)),
{
    nodes.push(node);
    assert(optional_trees(nodes@) =~= optional_trees(old(nodes)@).push(optional_tree(node)));
}

fn no_nodes() -> (nodes: Vec<ASTNode>)
    ensures
        nodes@.len() == 0,
        trees(nodes@) == Seq::<Tree>::empty(),
{
    let nodes: Vec<ASTNode> = Vec::new();
    assert(trees(nodes@) =~= Seq::<Tree>::empty());
    nodes
}

/// A parser over one token sequence.
pub struct Parser {
    tokens: Vec<Token>,
    position: usize,
}

impl Parser {
    /// The tokens that the parser was made with.
    pub closed spec fn tokens(&self) -> Seq<TokenView> {
        token_views(self.tokens@)
    }

    /// The index of the next token to read.
    pub closed spec fn position(&self) -> int {
        self.position as int
    }

    pub closed spec fn wf(&self) -> bool {
        self.position <= self.tokens@.len() <= usize::MAX
    }

    /// What a parsing step has to leave behind: the tokens untouched, and
    /// the result and position that the grammar gives.
    spec fn outcome(&self, before: Parser, result: Result<ASTNode, Error>, expected: Parsed) -> bool {
        &&& self.tokens@ == before.tokens@
        &&& self.wf()
        &&& match result {
            Ok(node) => expected == Ok::<(Tree, int), Error>((node.model(), self.position as int))
                && before.position < self.position,
            Err(error) => expected == Err::<(Tree, int), Error>(error),
        }
    }

    spec fn outcome_list(
        &self,
        before: Parser,
        result: Result<Vec<ASTNode>, Error>,
        expected: ParsedList,
    ) -> bool {
        &&& self.tokens@ == before.tokens@
        &&& self.wf()
        &&& match result {
            Ok(nodes) => expected == Ok::<(Seq<Tree>, int), Error>(
                (trees(nodes@), self.position as int),
            ) && before.position <= self.position,
            Err(error) => expected == Err::<(Seq<Tree>, int), Error>(error),
        }
    }

    pub fn new(tokens: Vec<Token>) -> (parser: Parser)
        ensures
            parser.wf(),
            parser.tokens() == token_views(tokens@),
            parser.position() == 0,
    {
        let length = tokens.len();
        Parser { tokens, position: 0 }
    }

    /// The kind of the next token; past the last token, the end of input.
    fn peek(&self) -> (kind: TT)
        requires
            self.wf(),
        ensures
            kind == kind_at(self.tokens(), self.position()),
            kind != TT::Eof ==> self.position < self.tokens@.len(),
    {
        if self.position < self.tokens.len() {
            self.tokens[self.position].kind
        } else {
            TT::Eof
        }
    }

    /// Whether the next token is the keyword `word`.
    fn peek_word(&self, word: &str) -> (result: bool)
        requires
            self.wf(),
        ensures
            result == word_at(self.tokens(), self.position(), word@),
            result ==> self.position < self.tokens@.len(),
    {
        if self.position < self.tokens.len() {
            let token = &self.tokens[self.position];
            token.kind == TT::KeyWord && same_text(token.value.as_str(), word)
        } else {
            false
        }
    }

    /// The text of the next token where that is one character long.
    fn peek_single(&self) -> (result: Option<char>)
        requires
            self.wf(),
        ensures
            match result {
                Some(character) => text_at(self.tokens(), self.position()) == seq![character],
                None => text_at(self.tokens(), self.position()).len() != 1,
            },
    {
        if self.position < self.tokens.len() {
            single(self.tokens[self.position].value.as_str())
        } else {
            None
        }
    }

    /// Whether the next token is one of up to three one-character operators.
    fn peek_operator(&self, first: char, second: char, third: char) -> (result: bool)
        requires
            self.wf(),
        ensures
            result == (operator_at(self.tokens(), self.position(), first) || operator_at(
                self.tokens(),
                self.position(),
                second,
            ) || operator_at(self.tokens(), self.position(), third)),
            result ==> self.position < self.tokens@.len(),
    {
        if self.peek() == TT::BinaryOperator {
            match self.peek_single() {
                Some(sign) => {
                    let ghost text = text_at(self.tokens(), self.position());
                    assert(text[0] == sign);
                    assert(seq![first][0] == first);
                    assert(seq![second][0] == second);
                    assert(seq![third][0] == third);
                    sign == first || sign == second || sign == third
                },
                None => false,
            }
        } else {
            false
        }
    }

    /// Takes the next token and hands out its text.
    fn eat(&mut self) -> (text: String)
        requires
            old(self).wf(),
            old(self).position < old(self).tokens@.len(),
        ensures
            final(self).tokens@ == old(self).tokens@,
            final(self).wf(),
            final(self).position == old(self).position + 1,
            text@ == text_at(old(self).tokens(), old(self).position()),
    {
        let text = self.tokens[self.position].value.clone();
        self.position += 1;
        text
    }

    /// The error for the next token.
    fn refuse(&self) -> (error: Error)
        requires
            self.wf(),
        ensures
            error == unexpected(self.tokens(), self.position()),
    {
        Error::Parse { position: self.position, token: self.peek() }
    }

    /// Takes the next token if it is of the given kind.
    fn expect(&mut self, expectation: TT) -> (result: Result<(), Error>)
        requires
            old(self).wf(),
            expectation != TT::Eof,
        ensures
            final(self).tokens@ == old(self).tokens@,
            final(self).wf(),
            match result {
                Ok(_) => kind_at(old(self).tokens(), old(self).position()) == expectation
                    && final(self).position == old(self).position + 1,
                Err(error) => kind_at(old(self).tokens(), old(self).position()) != expectation
                    && error == unexpected(old(self).tokens(), old(self).position())
                    && final(self).position == old(self).position,
            },
    {
        if self.peek() == expectation {
            self.position += 1;
            Ok(())
        } else {
            Err(self.refuse())
        }
    }

    /// Parses the tokens from the current position to the end of the input
    /// as a program.
    pub fn generate_ast(&mut self) -> (result: Result<ASTNode, Error>)
        requires
            old(self).wf(),
        ensures
            final(self).wf(),
            final(self).tokens() == old(self).tokens(),
            match result {
                Ok(node) => program(old(self).tokens(), old(self).position()) == Ok::<
                    (Tree, int),
                    Error,
                >((node.model(), final(self).position())),
                Err(error) => program(old(self).tokens(), old(self).position()) == Err::<
                    (Tree, int),
                    Error,
                >(error),
            },
    {
        match self.parse_statements(TT::Eof) {
            Ok(body) => Ok(ASTNode::block(body)),
            Err(error) => Err(error),
        }
    }

    /// Statements up to the next token of kind `closer`, which is left in
    /// place.
    #[verifier::loop_isolation(false)]
    fn parse_statements(&mut self, closer: TT) -> (result: Result<Vec<ASTNode>, Error>)
        requires
            old(self).wf(),
        ensures
            final(self).outcome_list(
                *old(self),
                result,
                statements(old(self).tokens(), old(self).position(), closer, Seq::empty()),
            ),
            result is Ok ==> kind_at(final(self).tokens(), final(self).position()) == closer,
        decreases old(self).tokens@.len() - old(self).position, 16nat,
    {
        let mut body = no_nodes();
        loop
            invariant
                self.tokens@ == old(self).tokens@,
                self.wf(),
                old(self).position <= self.position,
                statements(self.tokens(), self.position(), closer, trees(body@)) == statements(
                    old(self).tokens(),
                    old(self).position(),
                    closer,
                    Seq::empty(),
                ),
            decreases self.tokens@.len() - self.position,
        {
            proof {
                unfold_statements(self.tokens(), self.position(), closer, trees(body@));
            }
            if self.peek() == closer {
                return Ok(body);
            }
            let node = match self.parse() {
                Ok(node) => node,
                Err(error) => {
                    return Err(error);
                },
            };
            push_node(&mut body, node);
        }
    }

    fn parse_block(&mut self) -> (result: Result<ASTNode, Error>)
        requires
            old(self).wf(),
        ensures
            final(self).outcome(*old(self), result, block(old(self).tokens(), old(self).position())),
        decreases old(self).tokens@.len() - old(self).position, 17nat,
    {
        proof {
            unfold_block(self.tokens(), self.position());
        }
        match self.expect(TT::OpeningCurlyBrace) {
            Ok(_) => {},
            Err(error) => {
                return Err(error);
            },
        }
        let body = match self.parse_statements(TT::ClosingCurlyBrace) {
            Ok(body) => body,
            Err(error) => {
                return Err(error);
            },
        };
        self.position += 1;
        Ok(ASTNode::block(body))
    }

    fn parse(&mut self) -> (result: Result<ASTNode, Error>)
        requires
            old(self).wf(),
        ensures
            final(self).outcome(
                *old(self),
                result,
                statement(old(self).tokens(), old(self).position()),
            ),
        decreases old(self).tokens@.len() - old(self).position, 15nat,
    {
        proof {
            unfold_statement(self.tokens(), self.position());
        }
        if self.peek() == TT::KeyWord {
            self.parse_statement()
        } else {
            self.parse_expression()
        }
    }

    fn parse_statement(&mut self) -> (result: Result<ASTNode, Error>)
        requires
            old(self).wf(),
            kind_at(old(self).tokens(), old(self).position()) == TT::KeyWord,
        ensures
            final(self).outcome(
                *old(self),
                result,
                statement(old(self).tokens(), old(self).position()),
            ),
        decreases old(self).tokens@.len() - old(self).position, 14nat,
    {
        proof {
            unfold_statement(self.tokens(), self.position());
        }
        assert(self.position < self.tokens@.len());
        if self.peek_word("let") {
            self.parse_variable_declaration()
        } else if self.peek_word("if") {
            self.parse_if_statement()
        } else if self.peek_word("case") {
            self.parse_case_statement()
        } else if self.peek_word("func") {
            self.parse_function_declaration()
        } else {
            Err(self.refuse())
        }
    }

    #[verifier::loop_isolation(false)]
    fn parse_parameters(&mut self) -> (result: Result<(Vec<ASTNode>, Vec<Option<ASTNode>>), Error>)
        requires
            old(self).wf(),
        ensures
            final(self).tokens@ == old(self).tokens@,
            final(self).wf(),
            match result {
                Ok((names, types)) => parameters(
                    old(self).tokens(),
                    old(self).position(),
                    Seq::empty(),
                    Seq::empty(),
                ) == Ok::<(Seq<Tree>, Seq<Option<Tree>>, int), Error>(
                    (trees(names@), optional_trees(types@), final(self).position as int),
                ) && old(self).position < final(self).position,
                Err(error) => parameters(
                    old(self).tokens(),
                    old(self).position(),
                    Seq::empty(),
                    Seq::empty(),
                ) == Err::<(Seq<Tree>, Seq<Option<Tree>>, int), Error>(error),
            },
        decreases old(self).tokens@.len() - old(self).position, 10nat,
    {
        let mut names = no_nodes();
        let mut types: Vec<Option<ASTNode>> = Vec::new();
        assert(optional_trees(types@) =~= Seq::<Option<Tree>>::empty());
        loop
            invariant
                self.tokens@ == old(self).tokens@,
                self.wf(),
                old(self).position <= self.position,
                parameters(
                    self.tokens(),
                    self.position(),
                    trees(names@),
                    optional_trees(types@),
                ) == parameters(
                    old(self).tokens(),
                    old(self).position(),
                    Seq::empty(),
                    Seq::empty(),
                ),
            decreases self.tokens@.len() - self.position,
        {
            proof {
                unfold_parameters(self.tokens(), self.position(), trees(names@), optional_trees(types@));
            }
            let kind = self.peek();
            if kind == TT::ClosingParenthesis {
                self.position += 1;
                return Ok((names, types));
            }
            if kind != TT::Identifier {
                return Err(self.refuse());
            }
            let ghost start = self.position();
            let name = ASTNode::Identifier(self.eat());
            let shown = if self.peek() == TT::Colon {
                self.position += 1;
                match self.parse_expression() {
                    Ok(node) => Some(node),
                    Err(error) => {
                        return Err(error);
                    },
                }
            } else {
                None
            };
            push_node(&mut names, name);
            push_optional(&mut types, shown);
            let next = self.peek();
            if next == TT::Comma {
                self.position += 1;
            } else if next == TT::ClosingParenthesis {
                self.position += 1;
                return Ok((names, types));
            } else {
                return Err(self.refuse());
            }
        }
    }

    fn parse_function_declaration(&mut self) -> (result: Result<ASTNode, Error>)
        requires
            old(self).wf(),
            old(self).position < old(self).tokens@.len(),
        ensures
            final(self).outcome(
                *old(self),
                result,
                function_declaration(old(self).tokens(), old(self).position()),
            ),
        decreases old(self).tokens@.len() - old(self).position, 13nat,
    {
        proof {
            unfold_function_declaration(self.tokens(), self.position());
        }
        self.position += 1;
        if self.peek() != TT::Identifier {
            return Err(self.refuse());
        }
        let name = ASTNode::Identifier(self.eat());
        match self.expect(TT::OpeningParenthesis) {
            Ok(_) => {},
            Err(error) => {
                return Err(error);
            },
        }
        let (names, types) = match self.parse_parameters() {
            Ok(lists) => lists,
            Err(error) => {
                return Err(error);
            },
        };
        let body = match self.parse_block() {
            Ok(body) => body,
            Err(error) => {
                return Err(error);
            },
        };
        Ok(ASTNode::function(name, names, types, None, body))
    }

    #[verifier::loop_isolation(false)]
    fn parse_case_statement(&mut self) -> (result: Result<ASTNode, Error>)
        requires
            old(self).wf(),
            old(self).position < old(self).tokens@.len(),
        ensures
            final(self).outcome(
                *old(self),
                result,
                case_statement(old(self).tokens(), old(self).position()),
            ),
        decreases old(self).tokens@.len() - old(self).position, 13nat,
    {
        proof {
            unfold_case_statement(self.tokens(), self.position());
        }
        self.position += 1;
        let value = match self.parse_expression() {
            Ok(node) => node,
            Err(error) => {
                return Err(error);
            },
        };
        if !self.peek_word("of") {
            return Err(self.refuse());
        }
        self.position += 1;
        match self.expect(TT::OpeningCurlyBrace) {
            Ok(_) => {},
            Err(error) => {
                return Err(error);
            },
        }
        let ghost first = self.position();
        let mut cases = no_nodes();
        loop
            invariant
                self.tokens@ == old(self).tokens@,
                self.wf(),
                first <= self.position,
                kind_at(self.tokens(), self.position()) == TT::ClosingCurlyBrace
                    ==> self.position < self.tokens@.len(),
                case_arms(self.tokens(), self.position(), trees(cases@)) == case_arms(
                    old(self).tokens(),
                    first,
                    Seq::empty(),
                ),
            decreases self.tokens@.len() - self.position,
        {
            proof {
                unfold_case_arms(self.tokens(), self.position(), trees(cases@));
            }
            if self.peek() == TT::ClosingCurlyBrace {
                break;
            }
            let arm = match self.parse_case() {
                Ok(node) => node,
                Err(error) => {
                    return Err(error);
                },
            };
            push_node(&mut cases, arm);
        }
        proof {
            unfold_case_arms(self.tokens(), self.position(), trees(cases@));
        }
        self.position += 1;
        match self.expect(TT::SemiColon) {
            Ok(_) => {},
            Err(error) => {
                return Err(error);
            },
        }
        Ok(ASTNode::case(value, cases))
    }

    fn parse_case(&mut self) -> (result: Result<ASTNode, Error>)
        requires
            old(self).wf(),
        ensures
            final(self).outcome(
                *old(self),
                result,
                case_arm(old(self).tokens(), old(self).position()),
            ),
        decreases old(self).tokens@.len() - old(self).position, 12nat,
    {
        proof {
            unfold_case_arm(self.tokens(), self.position());
        }
        let label = match self.parse_expression() {
            Ok(node) => node,
            Err(error) => {
                return Err(error);
            },
        };
        match self.expect(TT::Colon) {
            Ok(_) => {},
            Err(error) => {
                return Err(error);
            },
        }
        let body = match self.parse_block() {
            Ok(body) => body,
            Err(error) => {
                return Err(error);
            },
        };
        match self.expect(TT::SemiColon) {
            Ok(_) => {},
            Err(error) => {
                return Err(error);
            },
        }
        Ok(ASTNode::Case(Box::new(label), Box::new(body)))
    }

    fn parse_if_statement(&mut self) -> (result: Result<ASTNode, Error>)
        requires
            old(self).wf(),
            old(self).position < old(self).tokens@.len(),
        ensures
            final(self).outcome(
                *old(self),
                result,
                if_statement(old(self).tokens(), old(self).position()),
            ),
        decreases old(self).tokens@.len() - old(self).position, 13nat,
    {
        proof {
            unfold_if_statement(self.tokens(), self.position());
        }
        self.position += 1;
        let condition = match self.parse_conditional_expression() {
            Ok(node) => node,
            Err(error) => {
                return Err(error);
            },
        };
        let body = match self.parse_block() {
            Ok(body) => body,
            Err(error) => {
                return Err(error);
            },
        };
        let alternative = if self.peek_word("else") {
            self.position += 1;
            match self.parse_block() {
                Ok(body) => body,
                Err(error) => {
                    return Err(error);
                },
            }
        } else {
            ASTNode::block(no_nodes())
        };
        Ok(ASTNode::IfStatement(Box::new(condition), Box::new(body), Box::new(alternative)))
    }

    fn parse_variable_declaration(&mut self) -> (result: Result<ASTNode, Error>)
        requires
            old(self).wf(),
            old(self).position < old(self).tokens@.len(),
        ensures
            final(self).outcome(
                *old(self),
                result,
                variable_declaration(old(self).tokens(), old(self).position()),
            ),
        decreases old(self).tokens@.len() - old(self).position, 8nat,
    {
        proof {
            unfold_variable_declaration(self.tokens(), self.position());
        }
        self.position += 1;
        let kind = self.peek();
        let name = if kind == TT::Identifier {
            self.parse_primary_expression()
        } else if kind == TT::OpeningParenthesis {
            self.parse_call_expression()
        } else {
            Err(self.refuse())
        };
        let variable_name = match name {
            Ok(node) => node,
            Err(error) => {
                return Err(error);
            },
        };
        let next = self.peek();
        if next == TT::AssignmentOperator {
            self.position += 1;
            let variable_value = match self.parse_expression() {
                Ok(node) => node,
                Err(error) => {
                    return Err(error);
                },
            };
            match self.expect(TT::SemiColon) {
                Ok(_) => {},
                Err(error) => {
                    return Err(error);
                },
            }
            let ghost name_tree = variable_name.model();
            let ghost value_tree = variable_value.model();
            let node = ASTNode::VariableDeclaration(
                Box::new(variable_name),
                Box::new(variable_value),
            );
            assert(node.model() == Tree::VariableDeclaration(
                Box::new(name_tree),
                Box::new(value_tree),
            ));
            Ok(node)
        } else if next == TT::SemiColon {
            self.position += 1;
            let ghost name_tree = variable_name.model();
            let nothing = ASTNode::NullLiteral;
            assert(nothing.model() == Tree::NullLiteral);
            let node = ASTNode::VariableDeclaration(Box::new(variable_name), Box::new(nothing));
            assert(node.model() == Tree::VariableDeclaration(
                Box::new(name_tree),
                Box::new(Tree::NullLiteral),
            ));
            Ok(node)
        } else {
            Err(self.refuse())
        }
    }

    fn parse_expression(&mut self) -> (result: Result<ASTNode, Error>)
        requires
            old(self).wf(),
        ensures
            final(self).outcome(
                *old(self),
                result,
                expression(old(self).tokens(), old(self).position()),
            ),
        decreases old(self).tokens@.len() - old(self).position, 7nat,
    {
        self.parse_assignment_expression()
    }

    fn parse_assignment_expression(&mut self) -> (result: Result<ASTNode, Error>)
        requires
            old(self).wf(),
        ensures
            final(self).outcome(
                *old(self),
                result,
                expression(old(self).tokens(), old(self).position()),
            ),
        decreases old(self).tokens@.len() - old(self).position, 6nat, 1nat,
    {
        proof {
            unfold_expression(self.tokens(), self.position());
        }
        let first = self.peek();
        let variable = match self.parse_call_expression() {
            Ok(node) => node,
            Err(error) => {
                return Err(error);
            },
        };
        if (first == TT::Identifier || first == TT::OpeningParenthesis) && self.peek()
            == TT::AssignmentOperator {
            self.position += 1;
            let variable_value = match self.parse_expression() {
                Ok(node) => node,
                Err(error) => {
                    return Err(error);
                },
            };
            match self.expect(TT::SemiColon) {
                Ok(_) => {},
                Err(error) => {
                    return Err(error);
                },
            }
            Ok(ASTNode::AssignmentExpression(Box::new(variable), Box::new(variable_value)))
        } else {
            Ok(variable)
        }
    }

    fn parse_call_expression(&mut self) -> (result: Result<ASTNode, Error>)
        requires
            old(self).wf(),
        ensures
            final(self).outcome(*old(self), result, call(old(self).tokens(), old(self).position())),
        decreases old(self).tokens@.len() - old(self).position, 6nat, 0nat,
    {
        proof {
            unfold_call(self.tokens(), self.position());
        }
        let callee = match self.parse_conditional_expression() {
            Ok(node) => node,
            Err(error) => {
                return Err(error);
            },
        };
        if self.peek() == TT::OpeningParenthesis {
            match self.parse_arguments() {
                Ok(list) => Ok(ASTNode::call(callee, list)),
                Err(error) => Err(error),
            }
        } else {
            Ok(callee)
        }
    }

    /// The arguments of a call, `(` and `)` included.
    #[verifier::loop_isolation(false)]
    fn parse_arguments(&mut self) -> (result: Result<Vec<ASTNode>, Error>)
        requires
            old(self).wf(),
            old(self).position < old(self).tokens@.len(),
        ensures
            final(self).outcome_list(
                *old(self),
                result,
                arguments(old(self).tokens(), old(self).position() + 1, Seq::empty()),
            ),
        decreases old(self).tokens@.len() - old(self).position - 1, 10nat,
    {
        self.position += 1;
        let mut list = no_nodes();
        loop
            invariant
                self.tokens@ == old(self).tokens@,
                self.wf(),
                old(self).position < self.position,
                arguments(self.tokens(), self.position(), trees(list@)) == arguments(
                    old(self).tokens(),
                    old(self).position() + 1,
                    Seq::empty(),
                ),
            decreases self.tokens@.len() - self.position,
        {
            proof {
                unfold_arguments(self.tokens(), self.position(), trees(list@));
            }
            if self.peek() == TT::ClosingParenthesis {
                self.position += 1;
                return Ok(list);
            }
            let argument = match self.parse_expression() {
                Ok(node) => node,
                Err(error) => {
                    return Err(error);
                },
            };
            push_node(&mut list, argument);
            let next = self.peek();
            if next == TT::Comma {
                self.position += 1;
            } else if next == TT::ClosingParenthesis {
                self.position += 1;
                return Ok(list);
            } else {
                return Err(self.refuse());
            }
        }
    }

    /// The items of an array literal behind its `[`, and the `]`.
    #[verifier::loop_isolation(false)]
    fn parse_items(&mut self) -> (result: Result<Vec<ASTNode>, Error>)
        requires
            old(self).wf(),
        ensures
            final(self).outcome_list(
                *old(self),
                result,
                items(old(self).tokens(), old(self).position(), Seq::empty()),
            ),
        decreases old(self).tokens@.len() - old(self).position, 10nat,
    {
        let mut values = no_nodes();
        loop
            invariant
                self.tokens@ == old(self).tokens@,
                self.wf(),
                old(self).position <= self.position,
                items(self.tokens(), self.position(), trees(values@)) == items(
                    old(self).tokens(),
                    old(self).position(),
                    Seq::empty(),
                ),
            decreases self.tokens@.len() - self.position,
        {
            proof {
                unfold_items(self.tokens(), self.position(), trees(values@));
            }
            if self.peek() == TT::ClosingSquareBracket {
                self.position += 1;
                return Ok(values);
            }
            let node = match self.parse_expression() {
                Ok(node) => node,
                Err(error) => {
                    return Err(error);
                },
            };
            push_node(&mut values, node);
            let next = self.peek();
            if next == TT::Comma {
                self.position += 1;
            } else if next == TT::ClosingSquareBracket {
                self.position += 1;
                return Ok(values);
            } else {
                return Err(self.refuse());
            }
        }
    }

    #[verifier::loop_isolation(false)]
    fn parse_conditional_expression(&mut self) -> (result: Result<ASTNode, Error>)
        requires
            old(self).wf(),
        ensures
            final(self).outcome(
                *old(self),
                result,
                conditional(old(self).tokens(), old(self).position()),
            ),
        decreases old(self).tokens@.len() - old(self).position, 5nat,
    {
        proof {
            unfold_conditional(self.tokens(), self.position());
        }
        let mut left = match self.parse_additive_expression() {
            Ok(node) => node,
            Err(error) => {
                return Err(error);
            },
        };
        loop
            invariant
                self.tokens@ == old(self).tokens@,
                self.wf(),
                old(self).position < self.position,
                conditional_rest(self.tokens(), self.position(), left.model()) == conditional(
                    old(self).tokens(),
                    old(self).position(),
                ),
            decreases self.tokens@.len() - self.position,
        {
            proof {
                unfold_conditional_rest(self.tokens(), self.position(), left.model());
            }
            let kind = self.peek();
            if !(kind == TT::GreaterThan || kind == TT::LessThan || kind
                == TT::GreaterThanOrEqualTo || kind == TT::LessThanOrEqualTo || kind
                == TT::EqualityOperator || kind == TT::InEqualityOperator) {
                return Ok(left);
            }
            let operator = self.eat();
            let right = match self.parse_additive_expression() {
                Ok(node) => node,
                Err(error) => {
                    return Err(error);
                },
            };
            left = ASTNode::ConditionalExpression(Box::new(left), operator, Box::new(right));
        }
    }

    #[verifier::loop_isolation(false)]
    fn parse_additive_expression(&mut self) -> (result: Result<ASTNode, Error>)
        requires
            old(self).wf(),
        ensures
            final(self).outcome(
                *old(self),
                result,
                additive(old(self).tokens(), old(self).position()),
            ),
        decreases old(self).tokens@.len() - old(self).position, 4nat,
    {
        proof {
            unfold_additive(self.tokens(), self.position());
        }
        let mut left = match self.parse_multiplicative_expression() {
            Ok(node) => node,
            Err(error) => {
                return Err(error);
            },
        };
        loop
            invariant
                self.tokens@ == old(self).tokens@,
                self.wf(),
                old(self).position < self.position,
                additive_rest(self.tokens(), self.position(), left.model()) == additive(
                    old(self).tokens(),
                    old(self).position(),
                ),
            decreases self.tokens@.len() - self.position,
        {
            proof {
                unfold_additive_rest(self.tokens(), self.position(), left.model());
            }
            if !self.peek_operator('+', '-', '-') {
                return Ok(left);
            }
            let operator = self.eat();
            let right = match self.parse_multiplicative_expression() {
                Ok(node) => node,
                Err(error) => {
                    return Err(error);
                },
            };
            left = ASTNode::BinaryExpression(Box::new(left), operator, Box::new(right));
        }
    }

    #[verifier::loop_isolation(false)]
    fn parse_multiplicative_expression(&mut self) -> (result: Result<ASTNode, Error>)
        requires
            old(self).wf(),
        ensures
            final(self).outcome(
                *old(self),
                result,
                multiplicative(old(self).tokens(), old(self).position()),
            ),
        decreases old(self).tokens@.len() - old(self).position, 3nat,
    {
        proof {
            unfold_multiplicative(self.tokens(), self.position());
        }
        let mut left = match self.parse_member_expression() {
            Ok(node) => node,
            Err(error) => {
                return Err(error);
            },
        };
        loop
            invariant
                self.tokens@ == old(self).tokens@,
                self.wf(),
                old(self).position < self.position,
                multiplicative_rest(self.tokens(), self.position(), left.model())
                    == multiplicative(old(self).tokens(), old(self).position()),
            decreases self.tokens@.len() - self.position,
        {
            proof {
                unfold_multiplicative_rest(self.tokens(), self.position(), left.model());
            }
            if !self.peek_operator('*', '/', '%') {
                return Ok(left);
            }
            let operator = self.eat();
            let right = match self.parse_member_expression() {
                Ok(node) => node,
                Err(error) => {
                    return Err(error);
                },
            };
            left = ASTNode::BinaryExpression(Box::new(left), operator, Box::new(right));
        }
    }

    #[verifier::loop_isolation(false)]
    fn parse_member_expression(&mut self) -> (result: Result<ASTNode, Error>)
        requires
            old(self).wf(),
        ensures
            final(self).outcome(*old(self), result, member(old(self).tokens(), old(self).position())),
        decreases old(self).tokens@.len() - old(self).position, 2nat,
    {
        proof {
            unfold_member(self.tokens(), self.position());
        }
        let mut left = match self.parse_conversion_expression() {
            Ok(node) => node,
            Err(error) => {
                return Err(error);
            },
        };
        loop
            invariant
                self.tokens@ == old(self).tokens@,
                self.wf(),
                old(self).position < self.position,
                member_rest(self.tokens(), self.position(), left.model()) == member(
                    old(self).tokens(),
                    old(self).position(),
                ),
            decreases self.tokens@.len() - self.position,
        {
            proof {
                unfold_member_rest(self.tokens(), self.position(), left.model());
            }
            let kind = self.peek();
            if kind == TT::Dot {
                self.position += 1;
                let right = match self.parse_conversion_expression() {
                    Ok(node) => node,
                    Err(error) => {
                        return Err(error);
                    },
                };
                left = ASTNode::MemberExpression(Box::new(left), Box::new(right), true);
            } else if kind == TT::OpeningSquareBracket {
                self.position += 1;
                let right = match self.parse_expression() {
                    Ok(node) => node,
                    Err(error) => {
                        return Err(error);
                    },
                };
                match self.expect(TT::ClosingSquareBracket) {
                    Ok(_) => {},
                    Err(error) => {
                        return Err(error);
                    },
                }
                left = ASTNode::MemberExpression(Box::new(left), Box::new(right), false);
            } else {
                return Ok(left);
            }
        }
    }

    fn parse_conversion_expression(&mut self) -> (result: Result<ASTNode, Error>)
        requires
            old(self).wf(),
        ensures
            final(self).outcome(
                *old(self),
                result,
                conversion(old(self).tokens(), old(self).position()),
            ),
        decreases old(self).tokens@.len() - old(self).position, 1nat,
    {
        proof {
            unfold_conversion(self.tokens(), self.position());
        }
        let left = match self.parse_primary_expression() {
            Ok(node) => node,
            Err(error) => {
                return Err(error);
            },
        };
        if self.peek_word("as") || self.peek_word("to") {
            self.position += 1;
            match self.parse_primary_expression() {
                Ok(right) => Ok(ASTNode::ConversionExpression(Box::new(left), Box::new(right))),
                Err(error) => Err(error),
            }
        } else {
            Ok(left)
        }
    }

    fn parse_primary_expression(&mut self) -> (result: Result<ASTNode, Error>)
        requires
            old(self).wf(),
        ensures
            final(self).outcome(
                *old(self),
                result,
                primary(old(self).tokens(), old(self).position()),
            ),
        decreases old(self).tokens@.len() - old(self).position, 0nat,
    {
        proof {
            unfold_primary(self.tokens(), self.position());
        }
        let kind = self.peek();
        if kind == TT::Identifier {
            Ok(ASTNode::Identifier(self.eat()))
        } else if kind == TT::Integer {
            let error = self.refuse();
            let text = self.eat();
            match parse_integer(text.as_str()) {
                Some(value) => Ok(ASTNode::IntegerLiteral(value)),
                None => Err(error),
            }
        } else if kind == TT::Real {
            Ok(ASTNode::RealLiteral(self.eat()))
        } else if kind == TT::String {
            Ok(ASTNode::StringLiteral(self.eat()))
        } else if self.peek_sign() {
            let sign = self.eat();
            match self.parse_primary_expression() {
                Ok(value) => Ok(ASTNode::UnaryExpression(sign, Box::new(value))),
                Err(error) => Err(error),
            }
        } else if kind == TT::OpeningSquareBracket {
            self.position += 1;
            match self.parse_items() {
                Ok(values) => Ok(ASTNode::array(values)),
                Err(error) => Err(error),
            }
        } else if kind == TT::OpeningParenthesis {
            self.position += 1;
            if self.peek() == TT::ClosingParenthesis {
                self.position += 1;
                return Ok(ASTNode::NullLiteral);
            }
            let node = match self.parse_expression() {
                Ok(node) => node,
                Err(error) => {
                    return Err(error);
                },
            };
            match self.expect(TT::ClosingParenthesis) {
                Ok(_) => Ok(node),
                Err(error) => Err(error),
            }
        } else {
            Err(self.refuse())
        }
    }

    /// Whether the next token is a prefix sign.
    fn peek_sign(&self) -> (result: bool)
        requires
            self.wf(),
        ensures
            result == sign_at(self.tokens(), self.position()),
            result ==> self.position < self.tokens@.len(),
    {
        let kind = self.peek();
        if kind == TT::BinaryOperator || kind == TT::Not {
            match self.peek_single() {
                Some(sign) => {
                    let ghost text = text_at(self.tokens(), self.position());
                    assert(text[0] == sign);
                    assert(seq!['+'][0] == '+');
                    assert(seq!['-'][0] == '-');
                    assert(seq!['!'][0] == '!');
                    sign == '+' || sign == '-' || sign == '!'
                },
                None => false,
            }
        } else {
            false
        }
    }
}

} // verus!
