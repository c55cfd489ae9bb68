//! Expressions of the syntax tree.

use crate::lexer::token::Token;
use vstd::prelude::*;

verus! {

/// A type as it is written in the source.
#[derive(Debug)]
pub enum ASTType {
    /// A plain name.
    Ident(Token),
    /// A name with type arguments.
    Generic { token: Token, types: Vec<ASTType> },
}

impl ASTType {
    /// The token that names the type.
    pub open spec fn token(self) -> Token {
        match self {
            ASTType::Ident(token) => token,
            ASTType::Generic { token, .. } => token,
        }
    }
}

/// A constant. Integers are kept as the bits of their value, floating point
/// numbers in their binary interchange format.
#[derive(Debug)]
pub enum Constant {
    Any,
    NoneValue,
    Bool(bool),
    I8(u64),
    I16(u64),
    I32(u64),
    I64(u64),
    U8(u64),
    U16(u64),
    U32(u64),
    U64(u64),
    F32(u32),
    F64(u64),
    String(String),
}

impl Constant {
    /// A second constant that is equal to this one.
    pub fn copy(&self) -> (r: Constant)
        ensures
            r == *self,
    {
        match self {
            Constant::Any => Constant::Any,
            Constant::NoneValue => Constant::NoneValue,
            Constant::Bool(b) => Constant::Bool(*b),
            Constant::I8(n) => Constant::I8(*n),
            Constant::I16(n) => Constant::I16(*n),
            Constant::I32(n) => Constant::I32(*n),
            Constant::I64(n) => Constant::I64(*n),
            Constant::U8(n) => Constant::U8(*n),
            Constant::U16(n) => Constant::U16(*n),
            Constant::U32(n) => Constant::U32(*n),
            Constant::U64(n) => Constant::U64(*n),
            Constant::F32(n) => Constant::F32(*n),
            Constant::F64(n) => Constant::F64(*n),
            Constant::String(s) => Constant::String(s.clone()),
        }
    }
}

/// A literal value.
#[derive(Debug)]
pub enum Literal {
    /// A constant.
    Constant(Constant),
    /// An array of values.
    Array(Vec<Expression>),
    /// A closure.
    Closure(Closure),
}

/// A parameter of a closure literal.
#[derive(Debug)]
pub struct ClosureParameter {
    pub name: Token,
    pub type_: Option<ASTType>,
}

/// A closure literal.
#[derive(Debug)]
pub struct Closure {
    pub parameters: Vec<ClosureParameter>,
    pub ret_ty: Option<ASTType>,
    pub body: Box<Expression>,
}

impl Closure {
    /// Do all parameters have a type?
    pub open spec fn typed(self) -> bool {
        forall|i: int| 0 <= i < self.parameters@.len() ==> self.parameters@[i].type_ is Some
    }
}

/// The definition of a local variable.
#[derive(Debug)]
pub struct VariableDef {
    pub name: Token,
    pub mutable: bool,
    pub initializer: Expression,
}

/// An expression.
#[allow(inconsistent_fields)]
#[derive(Debug)]
pub enum Expression {
    /// Assigns a value to a variable.
    Assignment { name: Token, value: Box<Expression> },
    /// A binary operation.
    Binary { left: Box<Expression>, operator: Token, right: Box<Expression> },
    /// A `{}` block containing multiple expressions.
    Block(Vec<Expression>, Token),
    /// Breaks out of the current loop.
    Break(Option<Box<Expression>>, Token),
    /// A call of a function, method, closure or constructor.
    Call { callee: Box<Expression>, arguments: Vec<Expression> },
    /// A loop that runs while its condition holds.
    For {
        condition: Box<Expression>,
        body: Box<Expression>,
        else_b: Option<Box<Expression>>,
    },
    /// Gets a member of a value.
    Get { object: Box<Expression>, name: Token },
    /// Gets a static member of a type.
    GetStatic { object: Box<Expression>, name: Token },
    /// Branches on a condition.
    If {
        condition: Box<Expression>,
        then_branch: Box<Expression>,
        else_branch: Option<Box<Expression>>,
    },
    /// Gets an element of an indexed value.
    IndexGet { indexed: Box<Expression>, index: Box<Expression>, bracket: Token },
    /// Sets an element of an indexed value.
    IndexSet { indexed: Box<Expression>, index: Box<Expression>, value: Box<Expression> },
    /// A literal.
    Literal(Literal, Token),
    /// Returns from the current function.
    Return(Option<Box<Expression>>, Token),
    /// Sets a member of a value.
    SetMember { object: Box<Expression>, name: Token, value: Box<Expression> },
    /// A unary operation.
    Unary { operator: Token, right: Box<Expression> },
    /// A variable, function or type.
    Variable(Token),
    /// A function or type with type arguments.
    VarWithGenerics { name: Token, generics: Vec<ASTType> },
    /// Selects the first branch that matches a value.
    When {
        value: Box<Expression>,
        branches: Vec<(Expression, Expression)>,
        else_branch: Box<Expression>,
    },
    /// Defines a local variable.
    VarDef(Box<VariableDef>),
}

impl Expression {
    /// The token that stands for the expression in messages.
    pub open spec fn token(self) -> Token
        decreases self,
    {
        match self {
            Expression::Assignment { name, .. } => name,
            Expression::Binary { operator, .. } => operator,
            Expression::Block(_, token) => token,
            Expression::Break(_, token) => token,
            Expression::Call { callee, .. } => callee.token(),
            Expression::For { condition, .. } => condition.token(),
            Expression::Get { name, .. } => name,
            Expression::GetStatic { name, .. } => name,
            Expression::If { condition, .. } => condition.token(),
            Expression::IndexGet { bracket, .. } => bracket,
            Expression::IndexSet { indexed, .. } => indexed.token(),
            Expression::Literal(_, token) => token,
            Expression::Return(_, token) => token,
            Expression::SetMember { name, .. } => name,
            Expression::Unary { operator, .. } => operator,
            Expression::Variable(token) => token,
            Expression::VarWithGenerics { name, .. } => name,
            Expression::When { value, .. } => value.token(),
            Expression::VarDef(def) => def.name,
        }
    }

    /// Can code be generated for the expression? Parameters of closures need a
    /// type, arrays need an element, and there may be array literals only where
    /// `arrays` is set.
    pub open spec fn well_formed(self, arrays: bool) -> bool
        decreases self,
    {
        match self {
            Expression::Assignment { value, .. } => value.well_formed(arrays),
            Expression::Binary { left, right, .. } => left.well_formed(arrays)
                && right.well_formed(arrays),
            Expression::Block(exprs, _) => forall|i: int|
                0 <= i < exprs@.len() ==> exprs@[i].well_formed(arrays),
            Expression::Break(value, _) => value matches Some(v) ==> v.well_formed(arrays),
            Expression::Call { callee, arguments } => callee.well_formed(arrays) && (forall|i: int|
                0 <= i < arguments@.len() ==> arguments@[i].well_formed(arrays)),
            Expression::For { condition, body, else_b } => condition.well_formed(arrays)
                && body.well_formed(arrays) && (else_b matches Some(e) ==> e.well_formed(arrays)),
            Expression::Get { object, .. } => object.well_formed(arrays),
            Expression::GetStatic { object, .. } => object.well_formed(arrays),
            Expression::If { condition, then_branch, else_branch } => condition.well_formed(arrays)
                && then_branch.well_formed(arrays) && (else_branch matches Some(e)
                ==> e.well_formed(arrays)),
            Expression::IndexGet { indexed, index, .. } => indexed.well_formed(arrays)
                && index.well_formed(arrays),
            Expression::IndexSet { indexed, index, value } => indexed.well_formed(arrays)
                && index.well_formed(arrays) && value.well_formed(arrays),
            Expression::Literal(literal, _) => match literal {
                Literal::Constant(_) => true,
                Literal::Array(values) => arrays && values@.len() > 0 && (forall|i: int|
                    0 <= i < values@.len() ==> values@[i].well_formed(arrays)),
                Literal::Closure(closure) => closure.typed() && closure.body.well_formed(arrays),
            },
            Expression::Return(value, _) => value matches Some(v) ==> v.well_formed(arrays),
            Expression::SetMember { object, value, .. } => object.well_formed(arrays)
                && value.well_formed(arrays),
            Expression::Unary { right, .. } => right.well_formed(arrays),
            Expression::Variable(_) => true,
            Expression::VarWithGenerics { .. } => true,
            Expression::When { value, branches, else_branch } => value.well_formed(arrays)
                && else_branch.well_formed(arrays) && (forall|i: int|
                0 <= i < branches@.len() ==> branches@[i].0.well_formed(arrays)
                    && branches@[i].1.well_formed(arrays)),
            Expression::VarDef(def) => def.initializer.well_formed(arrays),
        }
    }

    /// The token that stands for the expression in messages.
    pub fn get_token(&self) -> (r: &Token)
        ensures
            *r == self.token(),
        decreases self,
    {
        match self {
            Expression::Assignment { name, .. } => name,
            Expression::Binary { operator, .. } => operator,
            Expression::Block(_, token) => token,
            Expression::Break(_, token) => token,
            Expression::Call { callee, .. } => callee.get_token(),
            Expression::For { condition, .. } => condition.get_token(),
            Expression::Get { name, .. } => name,
            Expression::GetStatic { name, .. } => name,
            Expression::If { condition, .. } => condition.get_token(),
            Expression::IndexGet { bracket, .. } => bracket,
            Expression::IndexSet { indexed, .. } => indexed.get_token(),
            Expression::Literal(_, token) => token,
            Expression::Return(_, token) => token,
            Expression::SetMember { name, .. } => name,
            Expression::Unary { operator, .. } => operator,
            Expression::Variable(token) => token,
            Expression::VarWithGenerics { name, .. } => name,
            Expression::When { value, .. } => value.get_token(),
            Expression::VarDef(def) => &def.name,
        }
    }
}

/// Can code be generated for all expressions of a row?
pub open spec fn all_well_formed(exprs: Seq<Expression>, arrays: bool) -> bool {
    forall|i: int| 0 <= i < exprs.len() ==> (#[trigger] exprs[i]).well_formed(arrays)
}

/// Can code be generated for an expression that need not be there?
pub open spec fn some_well_formed(expr: Option<Box<Expression>>, arrays: bool) -> bool {
    expr matches Some(e) ==> e.well_formed(arrays)
}

/// Can code be generated for the conditions and results of all branches?
pub open spec fn branches_well_formed(
    branches: Seq<(Expression, Expression)>,
    arrays: bool,
) -> bool {
    forall|i: int|
        0 <= i < branches.len() ==> (#[trigger] branches[i]).0.well_formed(arrays)
            && branches[i].1.well_formed(arrays)
}

impl Clone for Constant {
    fn clone(&self) -> (r: Constant)
        ensures
            r == *self,
    {
        self.copy()
    }
}

} // verus!
