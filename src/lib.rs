//! NOMA compiler core: a scanner, token and syntax-tree types, a
//! recursive-descent parser, and the computational graph engine that lowers
//! expressions into a DAG of scalar operations and evaluates it in ascending
//! id order. The scalar type is a parameter; its arithmetic is handed to the
//! evaluator as kernels.
pub mod ast;
pub mod error;
pub mod graph;
pub mod lexer;
pub mod parser;
pub mod scope;
pub mod token;

pub use ast::{BinaryOperator, Expression, FunctionDef, Item, Program, Statement, StructDef, UnaryOperator};
pub use error::NomaError;
pub use lexer::Lexer;
pub use graph::{ComputationalGraph, GraphError, Node, NodeId, NodeType, ScalarBinary, ScalarUnary};
pub use scope::Scope;
pub use parser::Parser;
pub use token::{Token, TokenType};
