//! The syntax tree that the parser builds and the evaluator walks.
use vstd::prelude::*;

verus! {

/// A node of the syntax tree. Every node owns its children.
#[derive(Debug, PartialEq)]
pub enum ASTNode {
    StringLiteral(String),
    IntegerLiteral(i64),
    /// A real literal, kept as the text that spells it: digits, one `.`,
    /// digits.
    RealLiteral(String),
    ArrayLiteral(Vec<ASTNode>),
    NullLiteral,
    Identifier(String),
    /// Left operand, relational operator, right operand.
    ConditionalExpression(Box<ASTNode>, String, Box<ASTNode>),
    /// Callee and arguments.
    CallExpression(Box<ASTNode>, Vec<ASTNode>),
    /// Left operand, arithmetic operator, right operand.
    BinaryExpression(Box<ASTNode>, String, Box<ASTNode>),
    /// Target and new value.
    AssignmentExpression(Box<ASTNode>, Box<ASTNode>),
    /// Sign and operand.
    UnaryExpression(String, Box<ASTNode>),
    /// Receiver, property, and whether the access was written with a dot.
    MemberExpression(Box<ASTNode>, Box<ASTNode>, bool),
    /// Value and target kind.
    ConversionExpression(Box<ASTNode>, Box<ASTNode>),
    /// Name and initial value.
    VariableDeclaration(Box<ASTNode>, Box<ASTNode>),
    /// Name, parameters, the declared type of each parameter, the declared
    /// return type, body.
    FunctionDeclaration(
        Box<ASTNode>,
        Vec<ASTNode>,
        Vec<Option<ASTNode>>,
        Option<Box<ASTNode>>,
        Box<ASTNode>,
    ),
    /// Condition, body, alternative.
    IfStatement(Box<ASTNode>, Box<ASTNode>, Box<ASTNode>),
    /// A block: statements in order.
    Program(Vec<ASTNode>),
    /// Scrutinee and arms.
    CaseStatement(Box<ASTNode>, Vec<ASTNode>),
    /// Label and body of one arm.
    Case(Box<ASTNode>, Box<ASTNode>),
}

/// The mathematical model of [`ASTNode`].
pub enum Tree {
    StringLiteral(Seq<char>),
    IntegerLiteral(i64),
    RealLiteral(Seq<char>),
    ArrayLiteral(Seq<Tree>),
    NullLiteral,
    Identifier(Seq<char>),
    ConditionalExpression(Box<Tree>, Seq<char>, Box<Tree>),
    CallExpression(Box<Tree>, Seq<Tree>),
    BinaryExpression(Box<Tree>, Seq<char>, Box<Tree>),
    AssignmentExpression(Box<Tree>, Box<Tree>),
    UnaryExpression(Seq<char>, Box<Tree>),
    MemberExpression(Box<Tree>, Box<Tree>, bool),
    ConversionExpression(Box<Tree>, Box<Tree>),
    VariableDeclaration(Box<Tree>, Box<Tree>),
    FunctionDeclaration(Box<Tree>, Seq<Tree>, Seq<Option<Tree>>, Option<Box<Tree>>, Box<Tree>),
    IfStatement(Box<Tree>, Box<Tree>, Box<Tree>),
    Program(Seq<Tree>),
    CaseStatement(Box<Tree>, Seq<Tree>),
    Case(Box<Tree>, Box<Tree>),
}

/// The trees of a sequence of nodes.
pub open spec fn trees(nodes: Seq<ASTNode>) -> Seq<Tree> {
    Seq::new(nodes.len(), |i: int| nodes[i].model())
}

/// The tree of a node that may be absent.
pub open spec fn optional_tree(node: Option<ASTNode>) -> Option<Tree> {
    match node {
        Some(node) => Some(node.model()),
        None => None,
    }
}

/// The trees of a sequence of nodes that may be absent.
pub open spec fn optional_trees(nodes: Seq<Option<ASTNode>>) -> Seq<Option<Tree>> {
    Seq::new(nodes.len(), |i: int| optional_tree(nodes[i]))
}

/// The tree of a boxed node that may be absent.
pub open spec fn boxed_tree(node: Option<Box<ASTNode>>) -> Option<Box<Tree>> {
    match node {
        Some(node) => Some(Box::new(node.model())),
        None => None,
    }
}

impl ASTNode {
    /// The tree that this node stands for.
    pub open spec fn model(&self) -> Tree
        decreases self,
    {
        match self {
            ASTNode::StringLiteral(text) => Tree::StringLiteral(text@),
            ASTNode::IntegerLiteral(value) => Tree::IntegerLiteral(*value),
            ASTNode::RealLiteral(text) => Tree::RealLiteral(text@),
            ASTNode::ArrayLiteral(items) => Tree::ArrayLiteral(
                Seq::new(
                    items@.len(),
                    |i: int|
                        if 0 <= i < items@.len() {
                            items@[i].model()
                        } else {
                            Tree::NullLiteral
                        },
                ),
            ),
            ASTNode::NullLiteral => Tree::NullLiteral,
            ASTNode::Identifier(name) => Tree::Identifier(name@),
            ASTNode::ConditionalExpression(left, operator, right) => Tree::ConditionalExpression(
                Box::new(left.model()),
                operator@,
                Box::new(right.model()),
            ),
            ASTNode::CallExpression(callee, arguments) => Tree::CallExpression(
                Box::new(callee.model()),
                Seq::new(
                    arguments@.len(),
                    |i: int|
                        if 0 <= i < arguments@.len() {
                            arguments@[i].model()
                        } else {
                            Tree::NullLiteral
                        },
                ),
            ),
            ASTNode::BinaryExpression(left, operator, right) => Tree::BinaryExpression(
                Box::new(left.model()),
                operator@,
                Box::new(right.model()),
            ),
            ASTNode::AssignmentExpression(target, value) => Tree::AssignmentExpression(
                Box::new(target.model()),
                Box::new(value.model()),
            ),
            ASTNode::UnaryExpression(sign, operand) => Tree::UnaryExpression(
                sign@,
                Box::new(operand.model()),
            ),
            ASTNode::MemberExpression(receiver, property, dot) => Tree::MemberExpression(
                Box::new(receiver.model()),
                Box::new(property.model()),
                *dot,
            ),
            ASTNode::ConversionExpression(value, target) => Tree::ConversionExpression(
                Box::new(value.model()),
                Box::new(target.model()),
            ),
            ASTNode::VariableDeclaration(name, value) => Tree::VariableDeclaration(
                Box::new(name.model()),
                Box::new(value.model()),
            ),
            ASTNode::FunctionDeclaration(
                name,
                parameters,
                types,
                return_type,
                body,
            ) => Tree::FunctionDeclaration(
                Box::new(name.model()),
                Seq::new(
                    parameters@.len(),
                    |i: int|
                        if 0 <= i < parameters@.len() {
                            parameters@[i].model()
                        } else {
                            Tree::NullLiteral
                        },
                ),
                Seq::new(
                    types@.len(),
                    |i: int|
                        if 0 <= i < types@.len() {
                            match types@[i] {
                                Some(node) => Some(node.model()),
                                None => None,
                            }
                        } else {
                            None
                        },
                ),
                match return_type {
                    Some(node) => Some(Box::new(node.model())),
                    None => None,
                },
                Box::new(body.model()),
            ),
            ASTNode::IfStatement(condition, body, alternative) => Tree::IfStatement(
                Box::new(condition.model()),
                Box::new(body.model()),
                Box::new(alternative.model()),
            ),
            ASTNode::Program(statements) => Tree::Program(
                Seq::new(
                    statements@.len(),
                    |i: int|
                        if 0 <= i < statements@.len() {
                            statements@[i].model()
                        } else {
                            Tree::NullLiteral
                        },
                ),
            ),
            ASTNode::CaseStatement(scrutinee, arms) => Tree::CaseStatement(
                Box::new(scrutinee.model()),
                Seq::new(
                    arms@.len(),
                    |i: int|
                        if 0 <= i < arms@.len() {
                            arms@[i].model()
                        } else {
                            Tree::NullLiteral
                        },
                ),
            ),
            ASTNode::Case(label, body) => Tree::Case(
                Box::new(label.model()),
                Box::new(body.model()),
            ),
        }
    }

    /// The same tree as [`ASTNode::model`], written over the trees of the
    /// node's children.
    pub open spec fn shape(&self) -> Tree {
        match self {
            ASTNode::ArrayLiteral(items) => Tree::ArrayLiteral(trees(items@)),
            ASTNode::CallExpression(callee, arguments) => Tree::CallExpression(
                Box::new(callee.model()),
                trees(arguments@),
            ),
            ASTNode::FunctionDeclaration(
                name,
                parameters,
                types,
                return_type,
                body,
            ) => Tree::FunctionDeclaration(
                Box::new(name.model()),
                trees(parameters@),
                optional_trees(types@),
                boxed_tree(*return_type),
                Box::new(body.model()),
            ),
            ASTNode::Program(statements) => Tree::Program(trees(statements@)),
            ASTNode::CaseStatement(scrutinee, arms) => Tree::CaseStatement(
                Box::new(scrutinee.model()),
                trees(arms@),
            ),
            _ => self.model(),
        }
    }

    /// A deep copy of this node.
    pub fn duplicate(&self) -> (copy: ASTNode)
        ensures
            copy.model() == self.model(),
        decreases self,
    {
        proof {
            lemma_shape(*self);
        }
        let copy = match self {
            ASTNode::StringLiteral(text) => ASTNode::StringLiteral(text.clone()),
            ASTNode::IntegerLiteral(value) => ASTNode::IntegerLiteral(*value),
            ASTNode::RealLiteral(text) => ASTNode::RealLiteral(text.clone()),
            ASTNode::ArrayLiteral(items) => ASTNode::ArrayLiteral(duplicate_all(items)),
            ASTNode::NullLiteral => ASTNode::NullLiteral,
            ASTNode::Identifier(name) => ASTNode::Identifier(name.clone()),
            ASTNode::ConditionalExpression(left, operator, right) => ASTNode::ConditionalExpression(
                Box::new(left.duplicate()),
                operator.clone(),
                Box::new(right.duplicate()),
            ),
            ASTNode::CallExpression(callee, arguments) => ASTNode::CallExpression(
                Box::new(callee.duplicate()),
                duplicate_all(arguments),
            ),
            ASTNode::BinaryExpression(left, operator, right) => ASTNode::BinaryExpression(
                Box::new(left.duplicate()),
                operator.clone(),
                Box::new(right.duplicate()),
            ),
            ASTNode::AssignmentExpression(target, value) => ASTNode::AssignmentExpression(
                Box::new(target.duplicate()),
                Box::new(value.duplicate()),
            ),
            ASTNode::UnaryExpression(sign, operand) => ASTNode::UnaryExpression(
                sign.clone(),
                Box::new(operand.duplicate()),
            ),
            ASTNode::MemberExpression(receiver, property, dot) => ASTNode::MemberExpression(
                Box::new(receiver.duplicate()),
                Box::new(property.duplicate()),
                *dot,
            ),
            ASTNode::ConversionExpression(value, target) => ASTNode::ConversionExpression(
                Box::new(value.duplicate()),
                Box::new(target.duplicate()),
            ),
            ASTNode::VariableDeclaration(name, value) => ASTNode::VariableDeclaration(
                Box::new(name.duplicate()),
                Box::new(value.duplicate()),
            ),
            ASTNode::FunctionDeclaration(name, parameters, types, return_type, body) => {
                let return_copy = match return_type {
                    Some(node) => Some(Box::new(node.duplicate())),
                    None => None,
                };
                ASTNode::FunctionDeclaration(
                    Box::new(name.duplicate()),
                    duplicate_all(parameters),
                    duplicate_optional(types),
                    return_copy,
                    Box::new(body.duplicate()),
                )
            },
            ASTNode::IfStatement(condition, body, alternative) => ASTNode::IfStatement(
                Box::new(condition.duplicate()),
                Box::new(body.duplicate()),
                Box::new(alternative.duplicate()),
            ),
            ASTNode::Program(statements) => ASTNode::Program(duplicate_all(statements)),
            ASTNode::CaseStatement(scrutinee, arms) => ASTNode::CaseStatement(
                Box::new(scrutinee.duplicate()),
                duplicate_all(arms),
            ),
            ASTNode::Case(label, body) => ASTNode::Case(
                Box::new(label.duplicate()),
                Box::new(body.duplicate()),
            ),
        };
        proof {
            lemma_shape(copy);
        }
        copy
    }
}

impl ASTNode {
    /// A block of the given statements.
    pub fn block(statements: Vec<ASTNode>) -> (node: ASTNode)
        ensures
            node == ASTNode::Program(statements),
            node.model() == Tree::Program(trees(statements@)),
    {
        let node = ASTNode::Program(statements);
        proof {
            lemma_shape(node);
        }
        node
    }

    /// An array literal of the given items.
    pub fn array(items: Vec<ASTNode>) -> (node: ASTNode)
        ensures
            node == ASTNode::ArrayLiteral(items),
            node.model() == Tree::ArrayLiteral(trees(items@)),
    {
        let node = ASTNode::ArrayLiteral(items);
        proof {
            lemma_shape(node);
        }
        node
    }

    /// A call of `callee` with the given arguments.
    pub fn call(callee: ASTNode, arguments: Vec<ASTNode>) -> (node: ASTNode)
        ensures
            node.model() == Tree::CallExpression(Box::new(callee.model()), trees(arguments@)),
    {
        let node = ASTNode::CallExpression(Box::new(callee), arguments);
        proof {
            lemma_shape(node);
        }
        node
    }

    /// A case statement with the given scrutinee and arms.
    pub fn case(scrutinee: ASTNode, arms: Vec<ASTNode>) -> (node: ASTNode)
        ensures
            node.model() == Tree::CaseStatement(Box::new(scrutinee.model()), trees(arms@)),
    {
        let node = ASTNode::CaseStatement(Box::new(scrutinee), arms);
        proof {
            lemma_shape(node);
        }
        node
    }

    /// A function declaration.
    pub fn function(
        name: ASTNode,
        parameters: Vec<ASTNode>,
        types: Vec<Option<ASTNode>>,
        return_type: Option<Box<ASTNode>>,
        body: ASTNode,
    ) -> (node: ASTNode)
        ensures
            node.model() == Tree::FunctionDeclaration(
                Box::new(name.model()),
                trees(parameters@),
                optional_trees(types@),
                boxed_tree(return_type),
                Box::new(body.model()),
            ),
    {
        let node = ASTNode::FunctionDeclaration(
            Box::new(name),
            parameters,
            types,
            return_type,
            Box::new(body),
        );
        proof {
            lemma_shape(node);
        }
        node
    }
}

impl Clone for ASTNode {
    fn clone(&self) -> (copy: ASTNode)
        ensures
            copy.model() == self.model(),
    {
        self.duplicate()
    }
}

/// A node's tree is made of its children's trees.
pub proof fn lemma_shape(node: ASTNode)
    ensures
        node.model() == node.shape(),
{
    reveal_with_fuel(ASTNode::model, 2);
    match node {
        ASTNode::ArrayLiteral(items) => {
            assert(node.model()->ArrayLiteral_0 =~= trees(items@));
        },
        ASTNode::CallExpression(callee, arguments) => {
            assert(node.model()->CallExpression_1 =~= trees(arguments@));
        },
        ASTNode::FunctionDeclaration(name, parameters, types, return_type, body) => {
            assert(node.model()->FunctionDeclaration_1 =~= trees(parameters@));
            assert(node.model()->FunctionDeclaration_2 =~= optional_trees(types@));
        },
        ASTNode::Program(statements) => {
            assert(node.model()->Program_0 =~= trees(statements@));
        },
        ASTNode::CaseStatement(scrutinee, arms) => {
            assert(node.model()->CaseStatement_1 =~= trees(arms@));
        },
        _ => {},
    }
}

/// Deep copies of the nodes of a vector.
pub fn duplicate_all(nodes: &Vec<ASTNode>) -> (copies: Vec<ASTNode>)
    ensures
        trees(copies@) == trees(nodes@),
    decreases nodes,
{
    let mut copies: Vec<ASTNode> = Vec::new();
    let mut index: usize = 0;
    while index < nodes.len()
        invariant
            index <= nodes@.len(),
            copies@.len() == index,
            forall|i: int| 0 <= i < index ==> copies@[i].model() == nodes@[i].model(),
        decreases nodes@.len() - index,
    {
        copies.push(nodes[index].duplicate());
        index += 1;
    }
    assert(trees(copies@) =~= trees(nodes@));
    copies
}

/// Deep copies of the nodes of a vector in which a node may be absent.
pub fn duplicate_optional(nodes: &Vec<Option<ASTNode>>) -> (copies: Vec<Option<ASTNode>>)
    ensures
        optional_trees(copies@) == optional_trees(nodes@),
    decreases nodes,
{
    let mut copies: Vec<Option<ASTNode>> = Vec::new();
    let mut index: usize = 0;
    while index < nodes.len()
        invariant
            index <= nodes@.len(),
            copies@.len() == index,
            forall|i: int|
                0 <= i < index ==> optional_tree(copies@[i]) == optional_tree(nodes@[i]),
        decreases nodes@.len() - index,
    {
        let copy = match &nodes[index] {
            Some(node) => Some(node.duplicate()),
            None => None,
        };
        copies.push(copy);
        index += 1;
    }
    assert(optional_trees(copies@) =~= optional_trees(nodes@));
    copies
}

} // verus!
