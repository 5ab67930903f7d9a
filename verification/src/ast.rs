use vstd::prelude::*;
use crate::span::{Span, Spanned};
use crate::tokens::Token;

verus! {

/// A parsed program: its top-level statements in order.
#[derive(Debug, PartialEq)]
pub struct Program {
    pub statements: Vec<Statement>,
}

pub type Expression = Spanned<Expr>;

pub type Statement = Spanned<Stmt>;

/// A statement or an expression, as error reports refer to them.
#[derive(Debug, PartialEq)]
pub enum Node {
    Statement(Stmt),
    Expression(Expr),
}

/// Expressions. A float literal keeps the digits it was written with.
#[derive(Debug, PartialEq)]
pub enum Expr {
    IntegerLiteral(i32),
    FloatLiteral(String),
    BooleanLiteral(bool),
    StringLiteral(String),
    Identifier(String),
    NilLiteral,
    ArrayLiteral { elements: Vec<Box<Expression>> },
    Unary { operator: Token, right: Box<Expression> },
    BinaryOperation { left: Box<Expression>, operator: Token, right: Box<Expression> },
    VariableAssignment { identifier: Box<Expression>, new_value: Box<Expression> },
    Index { target: Box<Expression>, property: Box<Expression> },
    IndexAssignment {
        target: Box<Expression>,
        property: Box<Expression>,
        new_value: Box<Expression>,
    },
}

/// An expression as a value: like `Expr`, with texts as character
/// sequences and the elements of an array literal in a sequence.
pub enum ExprV {
    IntegerLiteral(i32),
    FloatLiteral(Seq<char>),
    BooleanLiteral(bool),
    StringLiteral(Seq<char>),
    Identifier(Seq<char>),
    NilLiteral,
    ArrayLiteral(Seq<Spanned<ExprV>>),
    Unary(Token, Box<Spanned<ExprV>>),
    BinaryOperation(Box<Spanned<ExprV>>, Token, Box<Spanned<ExprV>>),
    VariableAssignment(Box<Spanned<ExprV>>, Box<Spanned<ExprV>>),
    Index(Box<Spanned<ExprV>>, Box<Spanned<ExprV>>),
    IndexAssignment(Box<Spanned<ExprV>>, Box<Spanned<ExprV>>, Box<Spanned<ExprV>>),
}

/// The value of an expression.
pub open spec fn expr_view(e: Expression) -> Spanned<ExprV> {
    Spanned { node: node_view(e.node), span: e.span }
}

/// The value of an expression's node.
pub open spec fn node_view(e: Expr) -> ExprV
    decreases e, 1int, 0int,
{
    match e {
        Expr::IntegerLiteral(n) => ExprV::IntegerLiteral(n),
        Expr::FloatLiteral(f) => ExprV::FloatLiteral(f@),
        Expr::BooleanLiteral(b) => ExprV::BooleanLiteral(b),
        Expr::StringLiteral(t) => ExprV::StringLiteral(t@),
        Expr::Identifier(n) => ExprV::Identifier(n@),
        Expr::NilLiteral => ExprV::NilLiteral,
        Expr::ArrayLiteral { elements } => {
            proof {
                assert(decreases_to!(e => e->ArrayLiteral_elements));
                assert(decreases_to!(e->ArrayLiteral_elements => e->ArrayLiteral_elements@));
            }
            ExprV::ArrayLiteral(elements_view(elements@, elements@.len() as int))
        },
        Expr::Unary { operator, right } => ExprV::Unary(
            operator,
            Box::new(Spanned { node: node_view(right.node), span: right.span }),
        ),
        Expr::BinaryOperation { left, operator, right } => ExprV::BinaryOperation(
            Box::new(Spanned { node: node_view(left.node), span: left.span }),
            operator,
            Box::new(Spanned { node: node_view(right.node), span: right.span }),
        ),
        Expr::VariableAssignment { identifier, new_value } => ExprV::VariableAssignment(
            Box::new(Spanned { node: node_view(identifier.node), span: identifier.span }),
            Box::new(Spanned { node: node_view(new_value.node), span: new_value.span }),
        ),
        Expr::Index { target, property } => ExprV::Index(
            Box::new(Spanned { node: node_view(target.node), span: target.span }),
            Box::new(Spanned { node: node_view(property.node), span: property.span }),
        ),
        Expr::IndexAssignment { target, property, new_value } => ExprV::IndexAssignment(
            Box::new(Spanned { node: node_view(target.node), span: target.span }),
            Box::new(Spanned { node: node_view(property.node), span: property.span }),
            Box::new(Spanned { node: node_view(new_value.node), span: new_value.span }),
        ),
    }
}

/// The values of the first `n` of `es`.
pub open spec fn elements_view(es: Seq<Box<Expression>>, n: int) -> Seq<Spanned<ExprV>>
    decreases es, 0int, n,
{
    if 0 < n <= es.len() {
        proof {
            assert(decreases_to!(es => es[n - 1]));
        }
        elements_view(es, n - 1).push(Spanned { node: node_view(es[n - 1].node), span: es[n - 1].span })
    } else {
        Seq::empty()
    }
}

/// A type annotation as a value.
pub enum AnnV {
    StringType,
    IntegerType,
    FloatType,
    BooleanType,
    ArrayType(Box<AnnV>, Spanned<ExprV>),
    SequenceType(Box<AnnV>),
}

/// The value of a type annotation.
pub open spec fn ann_view(t: TypeAnnotation) -> AnnV
    decreases t,
{
    match t {
        TypeAnnotation::StringType => AnnV::StringType,
        TypeAnnotation::IntegerType => AnnV::IntegerType,
        TypeAnnotation::FloatType => AnnV::FloatType,
        TypeAnnotation::BooleanType => AnnV::BooleanType,
        TypeAnnotation::ArrayType(inner, size) => AnnV::ArrayType(Box::new(ann_view(*inner)), expr_view(size)),
        TypeAnnotation::SequenceType(inner) => AnnV::SequenceType(Box::new(ann_view(*inner))),
    }
}

/// A statement as a value: like `Stmt`, with expressions and annotations
/// as values and the statements of a scope or block in a sequence.
pub enum StmtV {
    Expression(Spanned<ExprV>),
    VariableDeclaration(Spanned<ExprV>, Option<Spanned<ExprV>>, AnnV, bool),
    StaticVariableDeclaration(Spanned<ExprV>, Spanned<ExprV>, AnnV),
    TypeAliasDeclaration(Spanned<ExprV>, AnnV),
    StdoutLog(Spanned<ExprV>),
    Scope(Seq<Spanned<StmtV>>),
    Block(Seq<Spanned<StmtV>>),
    IfDeclaration(Spanned<ExprV>, Box<Spanned<StmtV>>, Option<Box<Spanned<StmtV>>>),
    Loop(Box<Spanned<StmtV>>),
    WhenLoop(Spanned<ExprV>, Box<Spanned<StmtV>>),
    IndexLoop(Spanned<ExprV>, Spanned<ExprV>, Box<Spanned<StmtV>>),
    Continue,
    Break,
}

/// The value of a statement.
pub open spec fn stmt_view(s: Statement) -> Spanned<StmtV> {
    Spanned { node: stmt_node_view(s.node), span: s.span }
}

/// The value of a statement's node.
pub open spec fn stmt_node_view(s: Stmt) -> StmtV
    decreases s, 1int, 0int,
{
    match s {
        Stmt::Expression { expression } => StmtV::Expression(expr_view(expression)),
        Stmt::VariableDeclaration { identifier, value, annotated_type, mutable } => StmtV::VariableDeclaration(
            expr_view(identifier),
            match value {
                Some(v) => Some(expr_view(v)),
                None => None,
            },
            ann_view(annotated_type),
            mutable,
        ),
        Stmt::StaticVariableDeclaration { identifier, value, annotated_type } => StmtV::StaticVariableDeclaration(
            expr_view(identifier),
            expr_view(value),
            ann_view(annotated_type),
        ),
        Stmt::TypeAliasDeclaration { identifier, value } => StmtV::TypeAliasDeclaration(expr_view(identifier), ann_view(value)),
        Stmt::StdoutLog { log_value } => StmtV::StdoutLog(expr_view(log_value)),
        Stmt::Scope { statements } => {
            proof {
                assert(decreases_to!(s => s->Scope_statements));
                assert(decreases_to!(s->Scope_statements => s->Scope_statements@));
            }
            StmtV::Scope(statements_view(statements@, statements@.len() as int))
        },
        Stmt::Block { statements } => {
            proof {
                assert(decreases_to!(s => s->Block_statements));
                assert(decreases_to!(s->Block_statements => s->Block_statements@));
            }
            StmtV::Block(statements_view(statements@, statements@.len() as int))
        },
        Stmt::IfDeclaration { condition, consequence, alternate } => StmtV::IfDeclaration(
            expr_view(condition),
            Box::new(Spanned { node: stmt_node_view(consequence.node), span: consequence.span }),
            match *alternate {
                Some(a) => Some(Box::new(Spanned { node: stmt_node_view(a.node), span: a.span })),
                None => None,
            },
        ),
        Stmt::Loop { body } => StmtV::Loop(Box::new(Spanned { node: stmt_node_view(body.node), span: body.span })),
        Stmt::WhenLoop { condition, body } => StmtV::WhenLoop(
            expr_view(condition),
            Box::new(Spanned { node: stmt_node_view(body.node), span: body.span }),
        ),
        Stmt::IndexLoop { iterator, range, body } => StmtV::IndexLoop(
            expr_view(iterator),
            expr_view(range),
            Box::new(Spanned { node: stmt_node_view(body.node), span: body.span }),
        ),
        Stmt::Continue => StmtV::Continue,
        Stmt::Break => StmtV::Break,
    }
}

/// The values of the first `n` of `ss`.
pub open spec fn statements_view(ss: Seq<Statement>, n: int) -> Seq<Spanned<StmtV>>
    decreases ss, 0int, n,
{
    if 0 < n <= ss.len() {
        proof {
            assert(decreases_to!(ss => ss[n - 1]));
        }
        statements_view(ss, n - 1).push(Spanned { node: stmt_node_view(ss[n - 1].node), span: ss[n - 1].span })
    } else {
        Seq::empty()
    }
}

/// The values of the first `n` statements depend on those statements only.
pub proof fn lemma_statements_view_prefix(a: Seq<Statement>, b: Seq<Statement>, n: int)
    requires
        0 <= n <= a.len(),
        n <= b.len(),
        a.subrange(0, n) == b.subrange(0, n),
    ensures
        statements_view(a, n) == statements_view(b, n),
    decreases n,
{
    if n > 0 {
        assert forall|i: int| 0 <= i < n implies a[i] == b[i] by {
            assert(a.subrange(0, n)[i] == a[i]);
            assert(b.subrange(0, n)[i] == b[i]);
        }
        assert(a.subrange(0, n - 1) =~= b.subrange(0, n - 1));
        lemma_statements_view_prefix(a, b, n - 1);
        assert(a[n - 1] == b[n - 1]);
    }
}

/// The values of the first `n` elements depend on those elements only.
pub proof fn lemma_elements_view_prefix(a: Seq<Box<Expression>>, b: Seq<Box<Expression>>, n: int)
    requires
        0 <= n <= a.len(),
        n <= b.len(),
        a.subrange(0, n) == b.subrange(0, n),
    ensures
        elements_view(a, n) == elements_view(b, n),
    decreases n,
{
    if n > 0 {
        assert forall|i: int| 0 <= i < n implies a[i] == b[i] by {
            assert(a.subrange(0, n)[i] == a[i]);
            assert(b.subrange(0, n)[i] == b[i]);
        }
        assert(a.subrange(0, n - 1) =~= b.subrange(0, n - 1));
        lemma_elements_view_prefix(a, b, n - 1);
        assert(a[n - 1] == b[n - 1]);
    }
}

/// Type annotations as written in declarations.
#[derive(Debug, PartialEq)]
pub enum TypeAnnotation {
    StringType,
    IntegerType,
    FloatType,
    BooleanType,
    ArrayType(Box<TypeAnnotation>, Expression),
    SequenceType(Box<TypeAnnotation>),
}

/// Statements.
#[derive(Debug, PartialEq)]
pub enum Stmt {
    Expression { expression: Expression },
    VariableDeclaration {
        identifier: Expression,
        value: Option<Expression>,
        annotated_type: TypeAnnotation,
        mutable: bool,
    },
    StaticVariableDeclaration {
        identifier: Expression,
        value: Expression,
        annotated_type: TypeAnnotation,
    },
    TypeAliasDeclaration { identifier: Expression, value: TypeAnnotation },
    StdoutLog { log_value: Expression },
    /// A nested scope: its own symbol table at compile time.
    Scope { statements: Vec<Statement> },
    /// A nested block of statements.
    Block { statements: Vec<Statement> },
    IfDeclaration {
        condition: Expression,
        consequence: Box<Statement>,
        alternate: Box<Option<Statement>>,
    },
    Loop { body: Box<Statement> },
    WhenLoop { condition: Expression, body: Box<Statement> },
    IndexLoop { iterator: Expression, range: Expression, body: Box<Statement> },
    Continue,
    Break,
}

impl Expr {
    /// Attaches a source location.
    pub fn spanned(self, span: Span) -> (e: Spanned<Expr>)
        ensures
            e.node == self,
            e.span == span,
    {
        Spanned { node: self, span }
    }

    /// Wraps the expression as an error-report node.
    pub fn to_node(self) -> (n: Node)
        ensures
            n == Node::Expression(self),
    {
        Node::Expression(self)
    }
}

impl Stmt {
    /// Attaches a source location.
    pub fn spanned(self, span: Span) -> (s: Spanned<Stmt>)
        ensures
            s.node == self,
            s.span == span,
    {
        Spanned { node: self, span }
    }

    /// Wraps the statement as an error-report node.
    pub fn to_node(self) -> (n: Node)
        ensures
            n == Node::Statement(self),
    {
        Node::Statement(self)
    }
}

/// The annotation a built-in type name stands for.
pub open spec fn builtin_annotation(name: Seq<char>) -> Option<TypeAnnotation> {
    if name == "Int"@ {
        Some(TypeAnnotation::IntegerType)
    } else if name == "Float"@ {
        Some(TypeAnnotation::FloatType)
    } else if name == "Bool"@ {
        Some(TypeAnnotation::BooleanType)
    } else if name == "String"@ {
        Some(TypeAnnotation::StringType)
    } else {
        None
    }
}

impl TypeAnnotation {
    /// The annotation a built-in type name stands for, if it is one.
    pub fn from_identifier(name: &str) -> (t: Option<TypeAnnotation>)
        ensures
            t == builtin_annotation(name@),
    {
        if crate::tokens::str_eq(name, "Int") {
            Some(TypeAnnotation::IntegerType)
        } else if crate::tokens::str_eq(name, "Float") {
            Some(TypeAnnotation::FloatType)
        } else if crate::tokens::str_eq(name, "Bool") {
            Some(TypeAnnotation::BooleanType)
        } else if crate::tokens::str_eq(name, "String") {
            Some(TypeAnnotation::StringType)
        } else {
            None
        }
    }
}

impl Expr {
    /// A copy of this expression.
    pub(crate) fn copy(&self) -> (e: Expr)
        ensures
            node_view(e) == node_view(*self),
        decreases self,
    {
        match self {
            Expr::IntegerLiteral(n) => Expr::IntegerLiteral(*n),
            Expr::FloatLiteral(f) => Expr::FloatLiteral(f.clone()),
            Expr::BooleanLiteral(b) => Expr::BooleanLiteral(*b),
            Expr::StringLiteral(s) => Expr::StringLiteral(s.clone()),
            Expr::Identifier(s) => Expr::Identifier(s.clone()),
            Expr::NilLiteral => Expr::NilLiteral,
            Expr::ArrayLiteral { elements } => {
                let mut out: Vec<Box<Expression>> = Vec::new();
                let mut i: usize = 0;
                while i < elements.len()
                    invariant
                        0 <= i <= elements@.len(),
                        out@.len() == i,
                        *self is ArrayLiteral,
                        self->elements == *elements,
                        elements_view(out@, i as int) == elements_view(elements@, i as int),
                    decreases elements@.len() - i,
                {
                    proof {
                        broadcast use vstd::std_specs::vec::axiom_vec_index_decreases;
                        assert(decreases_to!(*self => self->elements));
                        assert(decreases_to!(self->elements => self->elements[i as int]));
                        assert(decreases_to!(*self => self->elements[i as int].node));
                    }
                    let node = elements[i].node.copy();
                    let ghost before = out@;
                    out.push(Box::new(Spanned { node, span: elements[i].span }));
                    proof {
                        assert(out@.subrange(0, i as int) =~= before);
                        assert(before.subrange(0, i as int) =~= before);
                        lemma_elements_view_prefix(out@, before, i as int);
                    }
                    i = i + 1;
                }
                proof {
                    assert(elements_view(out@, out@.len() as int) == elements_view(elements@, elements@.len() as int));
                }
                Expr::ArrayLiteral { elements: out }
            },
            Expr::Unary { operator, right } => Expr::Unary {
                operator: operator.copy(),
                right: Box::new(Spanned { node: right.node.copy(), span: right.span }),
            },
            Expr::BinaryOperation { left, operator, right } => Expr::BinaryOperation {
                left: Box::new(Spanned { node: left.node.copy(), span: left.span }),
                operator: operator.copy(),
                right: Box::new(Spanned { node: right.node.copy(), span: right.span }),
            },
            Expr::VariableAssignment { identifier, new_value } => Expr::VariableAssignment {
                identifier: Box::new(Spanned { node: identifier.node.copy(), span: identifier.span }),
                new_value: Box::new(Spanned { node: new_value.node.copy(), span: new_value.span }),
            },
            Expr::Index { target, property } => Expr::Index {
                target: Box::new(Spanned { node: target.node.copy(), span: target.span }),
                property: Box::new(Spanned { node: property.node.copy(), span: property.span }),
            },
            Expr::IndexAssignment { target, property, new_value } => Expr::IndexAssignment {
                target: Box::new(Spanned { node: target.node.copy(), span: target.span }),
                property: Box::new(Spanned { node: property.node.copy(), span: property.span }),
                new_value: Box::new(Spanned { node: new_value.node.copy(), span: new_value.span }),
            },
        }
    }
}

/// An annotation without its array size expressions: the kinds of its
/// nested types, outermost first, with `true` for an array level and
/// `false` for a sequence level, then the element kind.
pub open spec fn annotation_shape(t: TypeAnnotation) -> Seq<int>
    decreases t,
{
    match t {
        TypeAnnotation::StringType => seq![0],
        TypeAnnotation::IntegerType => seq![1],
        TypeAnnotation::FloatType => seq![2],
        TypeAnnotation::BooleanType => seq![3],
        TypeAnnotation::ArrayType(inner, _) => seq![4] + annotation_shape(*inner),
        TypeAnnotation::SequenceType(inner) => seq![5] + annotation_shape(*inner),
    }
}

impl TypeAnnotation {
    /// A copy of this annotation (its kind and element types; an array's
    /// size expression is copied as well).
    pub fn copy(&self) -> (t: TypeAnnotation)
        ensures
            annotation_shape(t) == annotation_shape(*self),
            ann_view(t) == ann_view(*self),
        decreases self,
    {
        match self {
            TypeAnnotation::StringType => TypeAnnotation::StringType,
            TypeAnnotation::IntegerType => TypeAnnotation::IntegerType,
            TypeAnnotation::FloatType => TypeAnnotation::FloatType,
            TypeAnnotation::BooleanType => TypeAnnotation::BooleanType,
            TypeAnnotation::ArrayType(t, size) => TypeAnnotation::ArrayType(
                Box::new((**t).copy()),
                Spanned { node: size.node.copy(), span: size.span },
            ),
            TypeAnnotation::SequenceType(t) => TypeAnnotation::SequenceType(Box::new((**t).copy())),
        }
    }
}

} // verus!
