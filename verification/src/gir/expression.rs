//! Expressions of the intermediate representation.

use crate::ast::Constant;
use crate::gir::declaration::{LocalVariable, LocalView, Variable, VariableView};
use crate::gir::types::Type;
use crate::lexer::token::TType;
use vstd::prelude::*;

verus! {

/// How a cast turns one value into another.
#[derive(Debug, Clone, Copy, PartialEq, Eq, Structural)]
pub enum CastType {
    /// Turns a value into an interface that it implements.
    ToInterface,
    /// Reads the same bits as another type.
    Bitcast,
    /// Converts between numbers.
    Number,
    /// Loads the value behind a reference.
    ToValue,
    /// Turns a strong reference into a weak one.
    StrongToWeak,
}

/// An expression. All of them produce a value.
#[derive(Debug)]
#[allow(inconsistent_fields)]
pub enum Expr {
    /// Allocates a value of a data type and runs a constructor on it.
    Allocate { ty: Type, constructor: usize, args: Vec<Expr> },
    /// A binary operation.
    Binary { left: Box<Expr>, operator: TType, right: Box<Expr> },
    /// Expressions in a row; the value is that of the last one.
    Block(Vec<Expr>),
    /// Leaves the current loop.
    Break(Option<Box<Expr>>),
    /// A call.
    Call { callee: Box<Expr>, arguments: Vec<Expr>, ty: Type },
    /// A call of a method of an interface, by its place in the interface.
    CallDyn { interface: Type, index: usize, arguments: Vec<Expr>, ty: Type },
    /// A cast to another type.
    Cast { inner: Box<Expr>, to: Type, method: CastType },
    /// Makes a closure out of a function and captured variables.
    Closure { function: usize, captured: usize, ty: Type },
    /// Branches on a condition. The value is that of the branch taken if `phi` is set.
    If { condition: Box<Expr>, then_branch: Box<Expr>, else_branch: Box<Expr>, phi: bool },
    /// A constant.
    Literal(Constant),
    /// Gets a field of an object.
    Load { object: Box<Expr>, field: usize, ty: Type },
    /// Runs the body while the condition holds.
    Loop {
        condition: Box<Expr>,
        body: Box<Expr>,
        else_branch: Option<Box<Expr>>,
        result_store: Option<LocalVariable>,
    },
    /// Returns from the function.
    Return(Box<Expr>),
    /// Stores a value in a variable.
    Store { var: LocalVariable, value: Box<Expr>, first_store: bool },
    /// Sets a field of an object.
    StoreField { object: Box<Expr>, field: usize, value: Box<Expr>, first_set: bool },
    /// Takes the first case whose condition holds.
    Switch { cases: Vec<(Expr, Expr)>, else_branch: Option<Box<Expr>>, ty: Option<Type> },
    /// A type as an expression.
    TypeGet(Type),
    /// A unary operation.
    Unary { operator: TType, right: Box<Expr> },
    /// The value of a variable.
    Variable(Variable),
}

/// An expression as contracts speak of it.
#[allow(inconsistent_fields)]
pub ghost enum ExprView {
    Allocate { ty: Type, constructor: usize, args: Seq<ExprView> },
    Binary { left: Box<ExprView>, operator: TType, right: Box<ExprView> },
    Block(Seq<ExprView>),
    Break(Option<Box<ExprView>>),
    Call { callee: Box<ExprView>, arguments: Seq<ExprView>, ty: Type },
    CallDyn { interface: Type, index: usize, arguments: Seq<ExprView>, ty: Type },
    Cast { inner: Box<ExprView>, to: Type, method: CastType },
    Closure { function: usize, captured: usize, ty: Type },
    If {
        condition: Box<ExprView>,
        then_branch: Box<ExprView>,
        else_branch: Box<ExprView>,
        phi: bool,
    },
    Literal(Constant),
    Load { object: Box<ExprView>, field: usize, ty: Type },
    Loop {
        condition: Box<ExprView>,
        body: Box<ExprView>,
        else_branch: Option<Box<ExprView>>,
        result_store: Option<LocalView>,
    },
    Return(Box<ExprView>),
    Store { var: LocalView, value: Box<ExprView>, first_store: bool },
    StoreField { object: Box<ExprView>, field: usize, value: Box<ExprView>, first_set: bool },
    Switch {
        cases: Seq<(ExprView, ExprView)>,
        else_branch: Option<Box<ExprView>>,
        ty: Option<Type>,
    },
    TypeGet(Type),
    Unary { operator: TType, right: Box<ExprView> },
    Variable(VariableView),
}

/// The views of a row of expressions.
pub open spec fn views(exprs: Seq<Expr>) -> Seq<ExprView> {
    exprs.map_values(|e: Expr| e@)
}

/// The views of the cases of a switch.
pub open spec fn case_views(cases: Seq<(Expr, Expr)>) -> Seq<(ExprView, ExprView)> {
    cases.map_values(|c: (Expr, Expr)| (c.0@, c.1@))
}

impl ExprView {
    /// The type of the value that the expression produces.
    pub open spec fn ty(self) -> Type
        decreases self,
    {
        match self {
            ExprView::Allocate { ty, .. } => ty,
            ExprView::Binary { left, operator, .. } => if operator.logical() {
                Type::Bool
            } else {
                left.ty()
            },
            ExprView::Block(exprs) => if exprs.len() == 0 {
                Type::NoneType
            } else {
                exprs[exprs.len() - 1].ty()
            },
            ExprView::Break(_) => Type::Any,
            ExprView::Call { ty, .. } => ty,
            ExprView::CallDyn { ty, .. } => ty,
            ExprView::Cast { to, .. } => to,
            ExprView::Closure { ty, .. } => ty,
            ExprView::If { then_branch, phi, .. } => if phi {
                then_branch.ty()
            } else {
                Type::NoneType
            },
            ExprView::Literal(constant) => constant_type(constant),
            ExprView::Load { ty, .. } => ty,
            ExprView::Loop { result_store, .. } => match result_store {
                Some(var) => var.ty,
                None => Type::NoneType,
            },
            ExprView::Return(_) => Type::Any,
            ExprView::Store { var, .. } => var.ty,
            ExprView::StoreField { value, .. } => value.ty(),
            ExprView::Switch { ty, .. } => match ty {
                Some(ty) => ty,
                None => Type::NoneType,
            },
            ExprView::TypeGet(ty) => Type::Type(Box::new(ty)),
            ExprView::Unary { operator, right } => if operator is Bang {
                Type::Bool
            } else {
                right.ty()
            },
            ExprView::Variable(var) => var.ty(),
        }
    }
}

/// The type of a constant.
pub open spec fn constant_type(constant: Constant) -> Type {
    match constant {
        Constant::Any => Type::Any,
        Constant::NoneValue => Type::NoneType,
        Constant::Bool(_) => Type::Bool,
        Constant::I8(_) => Type::I8,
        Constant::I16(_) => Type::I16,
        Constant::I32(_) => Type::I32,
        Constant::I64(_) => Type::I64,
        Constant::U8(_) => Type::U8,
        Constant::U16(_) => Type::U16,
        Constant::U32(_) => Type::U32,
        Constant::U64(_) => Type::U64,
        Constant::F32(_) => Type::F32,
        Constant::F64(_) => Type::F64,
        Constant::String(_) => Type::String,
    }
}

/// The expression without a value.
pub open spec fn none_value() -> ExprView {
    ExprView::Literal(Constant::NoneValue)
}

impl Expr {
    pub open spec fn view(&self) -> ExprView
        decreases self,
    {
        match self {
            Expr::Allocate { ty, constructor, args } => ExprView::Allocate {
                ty: *ty,
                constructor: *constructor,
                args: Seq::new(
                    args@.len(),
                    |i: int| if 0 <= i < args@.len() { args@[i].view() } else { arbitrary() },
                ),
            },
            Expr::Binary { left, operator, right } => ExprView::Binary {
                left: Box::new(left.view()),
                operator: *operator,
                right: Box::new(right.view()),
            },
            Expr::Block(exprs) => ExprView::Block(
                Seq::new(
                    exprs@.len(),
                    |i: int| if 0 <= i < exprs@.len() { exprs@[i].view() } else { arbitrary() },
                ),
            ),
            Expr::Break(expr) => ExprView::Break(
                match expr {
                    Some(e) => Some(Box::new(e.view())),
                    None => None,
                },
            ),
            Expr::Call { callee, arguments, ty } => ExprView::Call {
                callee: Box::new(callee.view()),
                arguments: Seq::new(
                    arguments@.len(),
                    |i: int|
                        if 0 <= i < arguments@.len() { arguments@[i].view() } else { arbitrary() },
                ),
                ty: *ty,
            },
            Expr::CallDyn { interface, index, arguments, ty } => ExprView::CallDyn {
                interface: *interface,
                index: *index,
                arguments: Seq::new(
                    arguments@.len(),
                    |i: int|
                        if 0 <= i < arguments@.len() { arguments@[i].view() } else { arbitrary() },
                ),
                ty: *ty,
            },
            Expr::Cast { inner, to, method } => ExprView::Cast {
                inner: Box::new(inner.view()),
                to: *to,
                method: *method,
            },
            Expr::Closure { function, captured, ty } => ExprView::Closure {
                function: *function,
                captured: *captured,
                ty: *ty,
            },
            Expr::If { condition, then_branch, else_branch, phi } => ExprView::If {
                condition: Box::new(condition.view()),
                then_branch: Box::new(then_branch.view()),
                else_branch: Box::new(else_branch.view()),
                phi: *phi,
            },
            Expr::Literal(constant) => ExprView::Literal(*constant),
            Expr::Load { object, field, ty } => ExprView::Load {
                object: Box::new(object.view()),
                field: *field,
                ty: *ty,
            },
            Expr::Loop { condition, body, else_branch, result_store } => ExprView::Loop {
                condition: Box::new(condition.view()),
                body: Box::new(body.view()),
                else_branch: match else_branch {
                    Some(e) => Some(Box::new(e.view())),
                    None => None,
                },
                result_store: match result_store {
                    Some(var) => Some(var@),
                    None => None,
                },
            },
            Expr::Return(value) => ExprView::Return(Box::new(value.view())),
            Expr::Store { var, value, first_store } => ExprView::Store {
                var: var@,
                value: Box::new(value.view()),
                first_store: *first_store,
            },
            Expr::StoreField { object, field, value, first_set } => ExprView::StoreField {
                object: Box::new(object.view()),
                field: *field,
                value: Box::new(value.view()),
                first_set: *first_set,
            },
            Expr::Switch { cases, else_branch, ty } => ExprView::Switch {
                cases: Seq::new(
                    cases@.len(),
                    |i: int|
                        if 0 <= i < cases@.len() {
                            (cases@[i].0.view(), cases@[i].1.view())
                        } else {
                            arbitrary()
                        },
                ),
                else_branch: match else_branch {
                    Some(e) => Some(Box::new(e.view())),
                    None => None,
                },
                ty: *ty,
            },
            Expr::TypeGet(ty) => ExprView::TypeGet(*ty),
            Expr::Unary { operator, right } => ExprView::Unary {
                operator: *operator,
                right: Box::new(right.view()),
            },
            Expr::Variable(var) => ExprView::Variable(var@),
        }
    }

    /// The type of the value that the expression produces.
    pub fn get_type(&self) -> (r: Type)
        ensures
            r == self@.ty(),
        decreases self,
    {
        match self {
            Expr::Allocate { ty, .. } => ty.copy(),
            Expr::Binary { left, operator, .. } => if operator.is_logical() {
                Type::Bool
            } else {
                left.get_type()
            },
            Expr::Block(exprs) => if exprs.len() == 0 {
                Type::NoneType
            } else {
                assert(decreases_to!(exprs => exprs@[exprs@.len() - 1]));
                exprs[exprs.len() - 1].get_type()
            },
            Expr::Break(_) => Type::Any,
            Expr::Call { ty, .. } => ty.copy(),
            Expr::CallDyn { ty, .. } => ty.copy(),
            Expr::Cast { to, .. } => to.copy(),
            Expr::Closure { ty, .. } => ty.copy(),
            Expr::If { then_branch, phi, .. } => if *phi {
                then_branch.get_type()
            } else {
                Type::NoneType
            },
            Expr::Literal(constant) => match constant {
                Constant::Any => Type::Any,
                Constant::NoneValue => Type::NoneType,
                Constant::Bool(_) => Type::Bool,
                Constant::I8(_) => Type::I8,
                Constant::I16(_) => Type::I16,
                Constant::I32(_) => Type::I32,
                Constant::I64(_) => Type::I64,
                Constant::U8(_) => Type::U8,
                Constant::U16(_) => Type::U16,
                Constant::U32(_) => Type::U32,
                Constant::U64(_) => Type::U64,
                Constant::F32(_) => Type::F32,
                Constant::F64(_) => Type::F64,
                Constant::String(_) => Type::String,
            },
            Expr::Load { ty, .. } => ty.copy(),
            Expr::Loop { result_store, .. } => match result_store {
                Some(var) => var.ty.copy(),
                None => Type::NoneType,
            },
            Expr::Return(_) => Type::Any,
            Expr::Store { var, .. } => var.ty.copy(),
            Expr::StoreField { value, .. } => value.get_type(),
            Expr::Switch { ty, .. } => match ty {
                Some(ty) => ty.copy(),
                None => Type::NoneType,
            },
            Expr::TypeGet(ty) => Type::Type(Box::new(ty.copy())),
            Expr::Unary { operator, right } => if *operator == TType::Bang {
                Type::Bool
            } else {
                right.get_type()
            },
            Expr::Variable(var) => var.get_type(),
        }
    }

    /// The same expression once more.
    pub fn copy(&self) -> (r: Expr)
        ensures
            r@ == self@,
        decreases self, 1nat,
    {
        match self {
            Expr::Allocate { ty, constructor, args } => {
                assert(self@->Allocate_args =~= views(args@));
                Expr::allocate(ty.copy(), *constructor, Expr::copy_all(args))
            },
            Expr::Binary { left, operator, right } => Expr::binary(
                left.copy(),
                *operator,
                right.copy(),
            ),
            Expr::Block(exprs) => {
                assert(self@->Block_0 =~= views(exprs@));
                Expr::block(Expr::copy_all(exprs))
            },
            Expr::Break(expr) => Expr::Break(
                match expr {
                    Some(e) => Some(Box::new(e.copy())),
                    None => None,
                },
            ),
            Expr::Call { callee, arguments, ty } => {
                assert(self@->Call_arguments =~= views(arguments@));
                Expr::call(callee.copy(), Expr::copy_all(arguments), ty.copy())
            },
            Expr::CallDyn { interface, index, arguments, ty } => {
                assert(self@->CallDyn_arguments =~= views(arguments@));
                Expr::call_dyn(interface.copy(), *index, Expr::copy_all(arguments), ty.copy())
            },
            Expr::Cast { inner, to, method } => Expr::cast(inner.copy(), to.copy(), *method),
            Expr::Closure { function, captured, ty } => Expr::Closure {
                function: *function,
                captured: *captured,
                ty: ty.copy(),
            },
            Expr::If { condition, then_branch, else_branch, phi } => Expr::if_(
                condition.copy(),
                then_branch.copy(),
                else_branch.copy(),
                *phi,
            ),
            Expr::Literal(constant) => Expr::Literal(constant.copy()),
            Expr::Load { object, field, ty } => Expr::struct_get(object.copy(), *field, ty.copy()),
            Expr::Loop { condition, body, else_branch, result_store } => {
                let else_branch = match else_branch {
                    Some(e) => Some(e.copy()),
                    None => None,
                };
                let result_store = match result_store {
                    Some(var) => Some(var.copy()),
                    None => None,
                };
                Expr::loop_(condition.copy(), body.copy(), else_branch, result_store)
            },
            Expr::Return(value) => Expr::ret(value.copy()),
            Expr::Store { var, value, first_store } => Expr::store(
                var.copy(),
                value.copy(),
                *first_store,
            ),
            Expr::StoreField { object, field, value, first_set } => Expr::struct_set(
                object.copy(),
                *field,
                value.copy(),
                *first_set,
            ),
            Expr::Switch { cases, else_branch, ty } => {
                assert(self@->cases =~= case_views(cases@));
                let cases = Expr::copy_cases(cases);
                let else_branch = match else_branch {
                    Some(e) => Some(e.copy()),
                    None => None,
                };
                let ty = match ty {
                    Some(ty) => Some(ty.copy()),
                    None => None,
                };
                Expr::when(cases, else_branch, ty)
            },
            Expr::TypeGet(ty) => Expr::TypeGet(ty.copy()),
            Expr::Unary { operator, right } => Expr::unary(right.copy(), *operator),
            Expr::Variable(var) => Expr::Variable(var.copy()),
        }
    }

    fn copy_all(exprs: &Vec<Expr>) -> (r: Vec<Expr>)
        ensures
            views(r@) == views(exprs@),
        decreases *exprs, 2nat,
    {
        let mut r: Vec<Expr> = Vec::new();
        let mut i: usize = 0;
        while i < exprs.len()
            invariant
                i <= exprs@.len(),
                views(r@) == views(exprs@.take(i as int)),
            decreases exprs.len() - i,
        {
            assert(decreases_to!(exprs => exprs@[i as int]));
            let copy = exprs[i].copy();
            r.push(copy);
            assert(views(r@) =~= views(exprs@.take(i as int)).push(exprs@[i as int]@));
            assert(views(exprs@.take(i + 1)) =~= views(exprs@.take(i as int)).push(
                exprs@[i as int]@,
            ));
            i = i + 1;
        }
        assert(exprs@.take(i as int) =~= exprs@);
        r
    }

    fn copy_cases(cases: &Vec<(Expr, Expr)>) -> (r: Vec<(Expr, Expr)>)
        ensures
            case_views(r@) == case_views(cases@),
        decreases *cases, 2nat,
    {
        let mut r: Vec<(Expr, Expr)> = Vec::new();
        let mut i: usize = 0;
        while i < cases.len()
            invariant
                i <= cases@.len(),
                case_views(r@) == case_views(cases@.take(i as int)),
            decreases cases.len() - i,
        {
            assert(decreases_to!(cases => cases@[i as int]));
            let copy = (cases[i].0.copy(), cases[i].1.copy());
            r.push(copy);
            let ghost case = (cases@[i as int].0@, cases@[i as int].1@);
            assert(case_views(r@) =~= case_views(cases@.take(i as int)).push(case));
            assert(case_views(cases@.take(i + 1)) =~= case_views(cases@.take(i as int)).push(case));
            i = i + 1;
        }
        assert(cases@.take(i as int) =~= cases@);
        r
    }

    /// An allocation of a data type.
    pub fn allocate(ty: Type, constructor: usize, args: Vec<Expr>) -> (r: Expr)
        ensures
            r@ == (ExprView::Allocate { ty, constructor, args: views(args@) }),
    {
        let r = Expr::Allocate { ty, constructor, args };
        assert(r@->Allocate_args =~= views(args@));
        r
    }

    /// A binary operation.
    pub fn binary(left: Expr, operator: TType, right: Expr) -> (r: Expr)
        ensures
            r@ == (ExprView::Binary {
                left: Box::new(left@),
                operator,
                right: Box::new(right@),
            }),
    {
        Expr::Binary { left: Box::new(left), operator, right: Box::new(right) }
    }

    /// A block.
    pub fn block(exprs: Vec<Expr>) -> (r: Expr)
        ensures
            r@ == ExprView::Block(views(exprs@)),
    {
        let r = Expr::Block(exprs);
        assert(r@->Block_0 =~= views(exprs@));
        r
    }

    /// Leaves the loop, with a value if there is one.
    pub fn break_(expr: Option<Expr>) -> (r: Expr)
        ensures
            r@ == ExprView::Break(
                match expr {
                    Some(e) => Some(Box::new(e@)),
                    None => None,
                },
            ),
    {
        Expr::Break(
            match expr {
                Some(e) => Some(Box::new(e)),
                None => None,
            },
        )
    }

    /// A call with a result of the given type.
    pub fn call(callee: Expr, arguments: Vec<Expr>, ty: Type) -> (r: Expr)
        ensures
            r@ == (ExprView::Call {
                callee: Box::new(callee@),
                arguments: views(arguments@),
                ty,
            }),
    {
        let r = Expr::Call { callee: Box::new(callee), arguments, ty };
        assert(r@->Call_arguments =~= views(arguments@));
        r
    }

    /// A call through an interface.
    pub fn call_dyn(interface: Type, index: usize, arguments: Vec<Expr>, ty: Type) -> (r: Expr)
        ensures
            r@ == (ExprView::CallDyn { interface, index, arguments: views(arguments@), ty }),
    {
        let r = Expr::CallDyn { interface, index, arguments, ty };
        assert(r@->CallDyn_arguments =~= views(arguments@));
        r
    }

    /// A cast.
    pub fn cast(inner: Expr, to: Type, method: CastType) -> (r: Expr)
        ensures
            r@ == (ExprView::Cast { inner: Box::new(inner@), to, method }),
    {
        Expr::Cast { inner: Box::new(inner), to, method }
    }

    /// A branch on a condition.
    pub fn if_(condition: Expr, then_branch: Expr, else_branch: Expr, phi: bool) -> (r: Expr)
        ensures
            r@ == (ExprView::If {
                condition: Box::new(condition@),
                then_branch: Box::new(then_branch@),
                else_branch: Box::new(else_branch@),
                phi,
            }),
    {
        Expr::If {
            condition: Box::new(condition),
            then_branch: Box::new(then_branch),
            else_branch: Box::new(else_branch),
            phi,
        }
    }

    /// The value of a variable.
    pub fn load(var: Variable) -> (r: Expr)
        ensures
            r@ == ExprView::Variable(var@),
    {
        Expr::Variable(var)
    }

    /// A loop.
    pub fn loop_(
        condition: Expr,
        body: Expr,
        else_branch: Option<Expr>,
        result_store: Option<LocalVariable>,
    ) -> (r: Expr)
        ensures
            r@ == (ExprView::Loop {
                condition: Box::new(condition@),
                body: Box::new(body@),
                else_branch: match else_branch {
                    Some(e) => Some(Box::new(e@)),
                    None => None,
                },
                result_store: match result_store {
                    Some(var) => Some(var@),
                    None => None,
                },
            }),
    {
        Expr::Loop {
            condition: Box::new(condition),
            body: Box::new(body),
            else_branch: match else_branch {
                Some(e) => Some(Box::new(e)),
                None => None,
            },
            result_store,
        }
    }

    /// The expression without a value.
    pub fn none_const() -> (r: Expr)
        ensures
            r@ == none_value(),
    {
        Expr::Literal(Constant::NoneValue)
    }

    /// Returns a value from the function.
    pub fn ret(value: Expr) -> (r: Expr)
        ensures
            r@ == ExprView::Return(Box::new(value@)),
    {
        Expr::Return(Box::new(value))
    }

    /// Stores a value in a variable.
    pub fn store(var: LocalVariable, value: Expr, first_store: bool) -> (r: Expr)
        ensures
            r@ == (ExprView::Store { var: var@, value: Box::new(value@), first_store }),
    {
        Expr::Store { var, value: Box::new(value), first_store }
    }

    /// Gets a field of an object.
    pub fn struct_get(object: Expr, field: usize, ty: Type) -> (r: Expr)
        ensures
            r@ == (ExprView::Load { object: Box::new(object@), field, ty }),
    {
        Expr::Load { object: Box::new(object), field, ty }
    }

    /// Sets a field of an object.
    pub fn struct_set(object: Expr, field: usize, value: Expr, first_set: bool) -> (r: Expr)
        ensures
            r@ == (ExprView::StoreField {
                object: Box::new(object@),
                field,
                value: Box::new(value@),
                first_set,
            }),
    {
        Expr::StoreField { object: Box::new(object), field, value: Box::new(value), first_set }
    }

    /// A unary operation.
    pub fn unary(right: Expr, operator: TType) -> (r: Expr)
        ensures
            r@ == (ExprView::Unary { operator, right: Box::new(right@) }),
    {
        Expr::Unary { operator, right: Box::new(right) }
    }

    /// A choice between cases.
    pub fn when(cases: Vec<(Expr, Expr)>, else_branch: Option<Expr>, ty: Option<Type>) -> (r: Expr)
        ensures
            r@ == (ExprView::Switch {
                cases: case_views(cases@),
                else_branch: match else_branch {
                    Some(e) => Some(Box::new(e@)),
                    None => None,
                },
                ty,
            }),
    {
        let r = Expr::Switch {
            cases,
            else_branch: match else_branch {
                Some(e) => Some(Box::new(e)),
                None => None,
            },
            ty,
        };
        assert(r@->cases =~= case_views(cases@));
        r
    }
}

/// One more expression, seen through the views.
pub proof fn lemma_views_push(exprs: Seq<Expr>, expr: Expr)
    ensures
        views(exprs.push(expr)) == views(exprs).push(expr@),
{
    assert(views(exprs.push(expr)) =~= views(exprs).push(expr@));
}

impl Clone for Expr {
    fn clone(&self) -> (r: Expr)
        ensures
            r@ == self@,
    {
        self.copy()
    }
}

} // verus!
