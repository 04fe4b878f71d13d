use vstd::prelude::*;

verus! {

/// Binary operators of the surface language.
#[derive(Debug, Clone, Copy, PartialEq, Eq)]
pub enum BinaryOperator {
    Add,
    Sub,
    Mul,
    Div,
    Pow,
    Equal,
    NotEqual,
    Less,
    Greater,
    LessEq,
    GreaterEq,
}

/// Unary operators of the surface language.
#[derive(Debug, Clone, Copy, PartialEq, Eq)]
pub enum UnaryOperator {
    Neg,
    Not,
}

/// An expression tree; `V` is the scalar type of numeric literals.
#[derive(Debug)]
pub enum Expression<V> {
    Number(V),
    Identifier(String),
    BinaryOp { left: Box<Expression<V>>, op: BinaryOperator, right: Box<Expression<V>> },
    UnaryOp { op: UnaryOperator, expr: Box<Expression<V>> },
    Call { name: String, args: Vec<Expression<V>> },
}

/// A statement inside a function body.
#[derive(Debug)]
pub enum Statement<V> {
    LearnDeclaration { name: String, value: Expression<V> },
    LetDeclaration { name: String, value: Expression<V> },
    Minimize(Expression<V>),
    Return(Option<Expression<V>>),
    Expression(Expression<V>),
}

/// A function definition: name, parameter names and body.
#[derive(Debug)]
pub struct FunctionDef<V> {
    pub name: String,
    pub params: Vec<String>,
    pub body: Vec<Statement<V>>,
}

/// A struct definition: name and `(field, type)` pairs.
#[derive(Debug, Clone, PartialEq)]
pub struct StructDef {
    pub name: String,
    pub fields: Vec<(String, String)>,
}

/// A top-level item.
#[derive(Debug)]
pub enum Item<V> {
    Function(FunctionDef<V>),
    Struct(StructDef),
}

/// A whole program: its items in source order.
#[derive(Debug)]
pub struct Program<V> {
    pub items: Vec<Item<V>>,
}

impl<V> Program<V> {
    pub fn new() -> (r: Self)
        ensures
            r.items@.len() == 0,
    {
        Program { items: Vec::new() }
    }
}

} // verus!
