//! Declarations of the syntax tree.

use crate::ast::expression::Expression;
use crate::lexer::token::Token;
use vstd::prelude::*;

verus! {

/// An argument of a function.
#[derive(Debug)]
pub struct FunctionArg {
    pub name: Token,
    pub _type: Token,
}

/// The signature of a function.
#[derive(Debug)]
pub struct FuncSignature {
    pub name: Token,
    pub return_type: Option<Token>,
    pub parameters: Vec<FunctionArg>,
}

/// A function with its body.
#[derive(Debug)]
pub struct FunctionDecl {
    pub sig: FuncSignature,
    pub body: Expression,
}

/// A class.
#[derive(Debug)]
pub struct Class {
    pub name: Token,
    pub methods: Vec<FunctionDecl>,
}

/// Everything that is declared at the top level of a file.
#[derive(Debug)]
pub struct DeclarationList {
    pub classes: Vec<Class>,
    pub ext_functions: Vec<FuncSignature>,
    pub functions: Vec<FunctionDecl>,
}

} // verus!
