//! The part of the generator that produces expressions.

use crate::ast::parts;
use crate::ast::expression::{all_well_formed, branches_well_formed, some_well_formed};
use crate::ast::{ASTType, Closure, Constant, Expression as ASTExpr, Literal, VariableDef};
use crate::error::Res;
use crate::gir::declaration::{
    lemma_local_table_insert, local_table, local_views, ADTType, Declaration, Function,
    LocalVariable, LocalView, Variable, VariableView,
};
use crate::gir::expression::{case_views, lemma_views_push, views, CastType, Expr, ExprView};
use crate::gir::module::{Member, ModuleView};
use crate::gir::types::{Instance, Type, TypeList};
use crate::index;
use crate::lexer::token::{TType, Token};
use crate::mir::generator::frame::{
    lemma_begin_scope, lemma_casts, lemma_define, lemma_enter_closure, lemma_find_var,
    lemma_finish_closure, lemma_insert, lemma_kept_loop, lemma_kept_scope, lemma_kept_trans,
    lemma_kept_wf, lemma_loop_var, lemma_push_values,
};
use crate::mir::generator::model::{supported, Failure, GenView};
use crate::mir::generator::rules::{
    array_of, binary_of, build, call_function, casts_of, closure_name, closure_parameters,
    construct, enter_closure, expr_types, finish_closure, function_body, gen_all, gen_args,
    gen_args_from, gen_array, gen_assignment, gen_binary, gen_block, gen_branch, gen_break,
    gen_call, gen_cases, gen_closure, gen_constructor_call, gen_expr, gen_for, gen_for_else,
    gen_get, gen_get_static, gen_if, gen_index_get, gen_index_set, gen_literal, gen_member,
    gen_method_call, gen_or_none, gen_return, gen_set, gen_unary, gen_values, gen_var, gen_var_def,
    gen_var_with_generics, gen_when, leave_closure, loaded_name, parameter_scope, parameter_types,
    push_values, resolve, resolve_all,
};
use crate::mir::generator::state::{ForLoop, Frame, MIRGenerator};
use crate::mir::generator::vars::{
    expr_ok, exprs_ok, lemma_current_loop_ok, lemma_enter_ok, lemma_keep_cases, lemma_keep_expr,
    lemma_keep_exprs, lemma_leave_ok, lemma_loop_ok, lemma_uninitialized_ok, sound, sound_all,
    sound_cases, sound_else, sound_member, sound_option, state_ok,
};
use crate::names::{name_string, new_name};
use crate::text::{concat2, concat3, concat5, decimal_text};
use vstd::hash_map::StringHashMap;
use vstd::hash_set::StringHashSet;
use vstd::prelude::*;

verus! {

/// A result as contracts speak of it.
pub open spec fn res(r: Res<Expr>) -> Result<ExprView, Failure> {
    match r {
        Ok(expr) => Ok(expr@),
        Err(e) => Err(Failure::Error(e@)),
    }
}

/// The result of something that may not apply, as contracts speak of it.
pub open spec fn res_option(r: Res<Option<Expr>>) -> Result<Option<ExprView>, Failure> {
    match r {
        Ok(Some(expr)) => Ok(Some(expr@)),
        Ok(None) => Ok(None),
        Err(e) => Err(Failure::Error(e@)),
    }
}

/// A row of results as contracts speak of it.
pub open spec fn res_all(r: Res<Vec<Expr>>) -> Result<Seq<ExprView>, Failure> {
    match r {
        Ok(exprs) => Ok(views(exprs@)),
        Err(e) => Err(Failure::Error(e@)),
    }
}

/// An object with its member as contracts speak of it.
pub open spec fn res_member(r: Res<(Expr, Member)>) -> Result<(ExprView, Member), Failure> {
    match r {
        Ok((object, member)) => Ok((object@, member)),
        Err(e) => Err(Failure::Error(e@)),
    }
}

/// The branch behind a loop as contracts speak of it.
pub open spec fn res_else(r: Res<(Option<Expr>, Option<LocalVariable>)>) -> Result<
    (Option<ExprView>, Option<LocalView>),
    Failure,
> {
    match r {
        Ok((expr, var)) => Ok(
            (
                match expr {
                    Some(e) => Some(e@),
                    None => None,
                },
                match var {
                    Some(v) => Some(v@),
                    None => None,
                },
            ),
        ),
        Err(e) => Err(Failure::Error(e@)),
    }
}

/// A type as contracts speak of it.
pub open spec fn res_type(r: Res<Type>) -> Result<Type, Failure> {
    match r {
        Ok(ty) => Ok(ty),
        Err(e) => Err(Failure::Error(e@)),
    }
}

/// A row of types as contracts speak of it.
pub open spec fn res_types(r: Res<Vec<Type>>) -> Result<Seq<Type>, Failure> {
    match r {
        Ok(types) => Ok(types@),
        Err(e) => Err(Failure::Error(e@)),
    }
}

/// The cases of a choice as contracts speak of them.
pub open spec fn res_cases(r: Res<Vec<(Expr, Expr)>>) -> Result<
    Seq<(ExprView, ExprView)>,
    Failure,
> {
    match r {
        Ok(cases) => Ok(case_views(cases@)),
        Err(e) => Err(Failure::Error(e@)),
    }
}

impl MIRGenerator {
    fn assignment(&mut self, name: &Token, value: &ASTExpr) -> (r: Res<Expr>)
        requires
            old(self)@.wf(),
            value.well_formed(old(self)@.array_ready()) || supported(
                gen_assignment(old(self)@, *name, *value).1,
            ),
        ensures
            (final(self)@, res(r)) == gen_assignment(old(self)@, *name, *value),
            final(self)@.wf(),
            sound(old(self)@, final(self)@, res(r)),
            r is Ok ==> final(self)@.kept(old(self)@),
        decreases *value, 10nat,
    {
        proof {
            lemma_find_var(self@, name.lexeme@);
            lemma_kept_wf(self@, self@.find_var(name.lexeme@).0);
        }
        let found = self.find_var(name);
        let ghost s1 = self@;
        match found {
            None => {
                let msg = concat3("Variable '", name.lexeme.as_str(), "' is not defined");
                Err(self.err(name, msg.as_str()))
            },
            Some(var) => {
                let value = self.expression(value)?;
                proof {
                    lemma_kept_trans(old(self)@, s1, self@);
                    lemma_keep_expr(s1, self@, ExprView::Variable(var@));
                }
                match var {
                    Variable::Local(local) => if local.mutable && value.get_type().equals(
                        &local.ty,
                    ) {
                        Ok(Expr::store(local, value, false))
                    } else if !local.mutable {
                        let msg = concat3("Variable ", name.lexeme.as_str(), " is a different type");
                        Err(self.err(name, msg.as_str()))
                    } else {
                        let msg = concat3(
                            "Variable ",
                            name.lexeme.as_str(),
                            " is not assignable (val)",
                        );
                        Err(self.err(name, msg.as_str()))
                    },
                    Variable::Function { .. } => {
                        let msg = concat3("Variable ", name.lexeme.as_str(), " is a different type");
                        Err(self.err(name, msg.as_str()))
                    },
                }
            },
        }
    }

    fn binary(&mut self, left: &ASTExpr, operator: &Token, right: &ASTExpr) -> (r: Res<Expr>)
        requires
            old(self)@.wf(),
            (left.well_formed(old(self)@.array_ready())
                && right.well_formed(old(self)@.array_ready())) || supported(
                gen_binary(old(self)@, *left, *operator, *right).1,
            ),
        ensures
            (final(self)@, res(r)) == gen_binary(old(self)@, *left, *operator, *right),
            final(self)@.wf(),
            sound(old(self)@, final(self)@, res(r)),
            r is Ok ==> final(self)@.kept(old(self)@),
        decreases parts::binary(*left, *operator, *right), 5nat,
    {
        proof {
            parts::lemma_binary(*left, *operator, *right);
        }
        let left = self.expression(left)?;
        let ghost s1 = self@;
        proof {
            lemma_kept_wf(old(self)@, s1);
        }
        let right = self.expression(right)?;
        proof {
            lemma_kept_trans(old(self)@, s1, self@);
            lemma_keep_expr(s1, self@, left@);
        }
        self.binary_mir(left, operator, right)
    }

    fn binary_mir(&self, left: Expr, operator: &Token, right: Expr) -> (r: Res<Expr>)
        ensures
            res(r) == binary_of(self@, left@, operator@, right@),
            expr_ok(self@.module.locals, left@) && expr_ok(self@.module.locals, right@) ==> (
            r matches Ok(expr) ==> expr_ok(self@.module.locals, expr@)),
    {
        let left_ty = left.get_type();
        let right_ty = right.get_type();
        if (left_ty.equals(&right_ty) && left_ty.is_number()) || (operator.t_type == TType::Is
            && right_ty.is_type()) {
            Ok(Expr::binary(left, operator.t_type, right))
        } else {
            match self.module.operator_method(operator.t_type, &left_ty, &right_ty) {
                Some(method) => {
                    let ghost args = seq![left@, right@];
                    let mut arguments: Vec<Expr> = Vec::new();
                    arguments.push(left);
                    arguments.push(right);
                    assert(views(arguments@) =~= args);
                    let call = self.call_function(Instance::new_(method), arguments);
                    if operator.t_type == TType::BangEqual {
                        Ok(Expr::unary(call, TType::Bang))
                    } else {
                        Ok(call)
                    }
                },
                None => Err(self.err(operator, "No implementation of operator found for types.")),
            }
        }
    }

    /// A call of a function by its number and type arguments.
    fn call_function(&self, function: Instance, arguments: Vec<Expr>) -> (r: Expr)
        ensures
            r@ == call_function(self@.module, function, views(arguments@)),
            exprs_ok(self@.module.locals, views(arguments@)) ==> expr_ok(
                self@.module.locals,
                r@,
            ),
    {
        let ty = match self.module.signature(&function) {
            Some(sig) => sig.ret_type,
            None => Type::Any,
        };
        proof {
            reveal_with_fuel(expr_ok, 2);
        }
        let function = self.module.function_variable(function);
        Expr::call(Expr::load(function), arguments, ty)
    }

    fn expressions(&mut self, expressions: &Vec<ASTExpr>) -> (r: Res<Vec<Expr>>)
        requires
            old(self)@.wf(),
            all_well_formed(expressions@, old(self)@.array_ready()) || supported(
                gen_all(old(self)@, *expressions, 0, Seq::empty()).1,
            ),
        ensures
            (final(self)@, res_all(r)) == gen_all(old(self)@, *expressions, 0, Seq::empty()),
            final(self)@.wf(),
            sound_all(old(self)@, final(self)@, res_all(r)),
            r is Ok ==> final(self)@.kept(old(self)@),
        decreases *expressions, 0nat,
    {
        let mut done: Vec<Expr> = Vec::new();
        let mut i: usize = 0;
        assert(views(done@) =~= Seq::empty());
        while i < expressions.len()
            invariant
                i <= expressions@.len(),
                old(self)@.wf(),
                all_well_formed(expressions@, old(self)@.array_ready()) || supported(
                    gen_all(old(self)@, *expressions, 0, Seq::empty()).1,
                ),
                self@.wf(),
                self@.kept(old(self)@),
                sound_all(old(self)@, self@, Ok(views(done@))),
                gen_all(old(self)@, *expressions, 0, Seq::empty()) == gen_all(
                    self@,
                    *expressions,
                    i as nat,
                    views(done@),
                ),
            decreases expressions.len() - i,
        {
            let ghost s = self@;
            proof {
                lemma_kept_wf(old(self)@, s);
            }
            assert(decreases_to!(expressions => expressions@[i as int]));
            let expr = self.expression(&expressions[i])?;
            proof {
                lemma_kept_trans(old(self)@, s, self@);
                lemma_keep_exprs(s, self@, views(done@));
                lemma_views_push(done@, expr);
            }
            done.push(expr);
            i = i + 1;
        }
        Ok(done)
    }

    fn block(&mut self, expressions: &Vec<ASTExpr>) -> (r: Res<Expr>)
        requires
            old(self)@.wf(),
            all_well_formed(expressions@, old(self)@.array_ready()) || supported(
                gen_block(old(self)@, *expressions).1,
            ),
        ensures
            (final(self)@, res(r)) == gen_block(old(self)@, *expressions),
            final(self)@.wf(),
            sound(old(self)@, final(self)@, res(r)),
            r is Ok ==> final(self)@.kept(old(self)@) && final(self)@.cur.scopes == old(
                self,
            )@.cur.scopes,
        decreases *expressions, 1nat,
    {
        if expressions.len() == 0 {
            return Ok(Expr::none_const());
        }
        proof {
            lemma_begin_scope(self@);
        }
        self.begin_scope();
        let exprs = self.expressions(expressions)?;
        proof {
            lemma_kept_scope(old(self)@, self@);
            lemma_kept_wf(old(self)@, self@.end_scope());
        }
        self.end_scope();
        Ok(Expr::block(exprs))
    }

    fn break_(&mut self, expr: &Option<Box<ASTExpr>>, err_tok: &Token) -> (r: Res<Expr>)
        requires
            old(self)@.wf(),
            some_well_formed(*expr, old(self)@.array_ready()) || supported(
                gen_break(old(self)@, *expr, *err_tok).1,
            ),
        ensures
            (final(self)@, res(r)) == gen_break(old(self)@, *expr, *err_tok),
            final(self)@.wf(),
            sound(old(self)@, final(self)@, res(r)),
            r is Ok ==> final(self)@.kept(old(self)@),
        decreases *expr, 10nat,
    {
        if self.cur.current_loop.is_none() {
            return Err(self.err(err_tok, "Break is only allowed in loops."));
        }
        match expr {
            None => Ok(Expr::break_(None)),
            Some(expr) => {
                let expression = self.expression(expr)?;
                let ghost s1 = self@;
                proof {
                    lemma_loop_var(s1, expression@.ty());
                }
                self.get_or_create_loop_var(&expression.get_type())?;
                proof {
                    lemma_kept_trans(old(self)@, s1, self@);
                    lemma_keep_expr(s1, self@, expression@);
                }
                Ok(Expr::break_(Some(expression)))
            },
        }
    }

    fn call(&mut self, callee: &ASTExpr, arguments: &Vec<ASTExpr>) -> (r: Res<Expr>)
        requires
            old(self)@.wf(),
            (callee.well_formed(old(self)@.array_ready())
                && all_well_formed(arguments@, old(self)@.array_ready())) || supported(
                gen_call(old(self)@, *callee, *arguments).1,
            ),
        ensures
            (final(self)@, res(r)) == gen_call(old(self)@, *callee, *arguments),
            final(self)@.wf(),
            sound(old(self)@, final(self)@, res(r)),
            r is Ok ==> final(self)@.kept(old(self)@),
        decreases parts::call(*callee, *arguments), 5nat,
    {
        proof {
            parts::lemma_call(*callee, *arguments);
        }
        if let Some(expr) = self.try_method_call(callee, arguments)? {
            return Ok(expr);
        }
        let ghost s1 = self@;
        proof {
            lemma_kept_wf(old(self)@, s1);
        }
        let called = self.expression(callee)?;
        let ghost s2 = self@;
        proof {
            lemma_kept_trans(old(self)@, s1, s2);
            lemma_kept_wf(old(self)@, s2);
        }
        if let Some(expr) = self.try_constructor_call(&called, arguments, callee.get_token())? {
            proof {
                lemma_kept_trans(old(self)@, s2, self@);
            }
            return Ok(expr);
        }
        let ghost s3 = self@;
        proof {
            lemma_kept_trans(old(self)@, s2, s3);
            lemma_kept_wf(old(self)@, s3);
            lemma_keep_expr(s2, s3, called@);
        }
        // what fell through is a call of a function or closure, or is invalid
        match self.module.call_signature(&called.get_type()) {
            Some(sig) => {
                let first: Vec<Expr> = Vec::new();
                assert(views(first@) =~= Seq::empty());
                let args = self.generate_func_args(
                    &sig.parameters,
                    arguments,
                    first,
                    sig.variadic,
                    callee.get_token(),
                )?;
                proof {
                    lemma_kept_trans(old(self)@, s3, self@);
                    lemma_keep_expr(s3, self@, called@);
                }
                Ok(Expr::call(called, args, sig.ret_type))
            },
            None => Err(
                self.err(callee.get_token(), "Only functions are allowed to be called"),
            ),
        }
    }

    /// Generates the arguments of a call. Those in `first` were generated before
    /// and stand in front.
    fn generate_func_args(
        &mut self,
        parameters: &Vec<Type>,
        arguments: &Vec<ASTExpr>,
        first: Vec<Expr>,
        variadic: bool,
        err_tok: &Token,
    ) -> (r: Res<Vec<Expr>>)
        requires
            old(self)@.wf(),
            all_well_formed(arguments@, old(self)@.array_ready()) || supported(
                gen_args(old(self)@, parameters@, *arguments, views(first@), variadic, err_tok@).1,
            ),
        ensures
            (final(self)@, res_all(r)) == gen_args(
                old(self)@,
                parameters@,
                *arguments,
                views(first@),
                variadic,
                err_tok@,
            ),
            final(self)@.wf(),
            exprs_ok(old(self)@.module.locals, views(first@)) ==> sound_all(
                old(self)@,
                final(self)@,
                res_all(r),
            ),
            r is Ok ==> final(self)@.kept(old(self)@),
        decreases *arguments, 0nat,
    {
        let given: u128 = arguments.len() as u128 + first.len() as u128;
        let expected: u128 = parameters.len() as u128;
        if expected > given || (expected < given && !variadic) {
            let expected_text = decimal_text(expected);
            let given_text = decimal_text(given);
            let msg = concat5(
                "Incorrect amount of function arguments. (Expected ",
                expected_text.as_str(),
                "; got ",
                given_text.as_str(),
                ")",
            );
            return Err(self.err(err_tok, msg.as_str()));
        }
        let mut done = first;
        let mut i: usize = 0;
        while i < arguments.len()
            invariant
                i <= arguments@.len(),
                old(self)@.wf(),
                all_well_formed(arguments@, old(self)@.array_ready()) || supported(
                    gen_args(
                        old(self)@,
                        parameters@,
                        *arguments,
                        views(first@),
                        variadic,
                        err_tok@,
                    ).1,
                ),
                self@.wf(),
                self@.kept(old(self)@),
                exprs_ok(old(self)@.module.locals, views(first@)) ==> sound_all(
                    old(self)@,
                    self@,
                    Ok(views(done@)),
                ),
                gen_args(
                    old(self)@,
                    parameters@,
                    *arguments,
                    views(first@),
                    variadic,
                    err_tok@,
                ) == gen_args_from(self@, parameters@, *arguments, i as nat, views(done@)),
            decreases arguments.len() - i,
        {
            let ghost s = self@;
            proof {
                lemma_kept_wf(old(self)@, s);
            }
            assert(decreases_to!(arguments => arguments@[i as int]));
            let arg = self.expression(&arguments[i])?;
            if done.len() < parameters.len() {
                let arg_ty = arg.get_type();
                if !arg_ty.equals(&parameters[done.len()]) {
                    let found = self.module.type_text(&arg_ty);
                    let expected = self.module.type_text(&parameters[done.len()]);
                    let msg = concat5(
                        "Call argument is the wrong type (was ",
                        found.as_str(),
                        ", expected ",
                        expected.as_str(),
                        ")",
                    );
                    return Err(self.err(arguments[i].get_token(), msg.as_str()));
                }
            }
            proof {
                lemma_kept_trans(old(self)@, s, self@);
                lemma_keep_exprs(s, self@, views(done@));
                lemma_views_push(done@, arg);
            }
            done.push(arg);
            i = i + 1;
        }
        Ok(done)
    }

    /// Generates an object, and finds the member of it that a name stands for.
    fn get_field(&mut self, object: &ASTExpr, name: &Token) -> (r: Res<(Expr, Member)>)
        requires
            old(self)@.wf(),
            object.well_formed(old(self)@.array_ready()) || supported(
                gen_member(old(self)@, *object, *name).1,
            ),
        ensures
            (final(self)@, res_member(r)) == gen_member(old(self)@, *object, *name),
            final(self)@.wf(),
            sound_member(old(self)@, final(self)@, res_member(r)),
            r is Ok ==> final(self)@.kept(old(self)@),
        decreases *object, 10nat,
    {
        let object = self.expression(object)?;
        match self.module.member(&object.get_type(), name.lexeme.as_str()) {
            Some(member) => Ok((object, member)),
            None => Err(self.err(name, "Unknown class member.")),
        }
    }

    fn try_method_call(&mut self, callee: &ASTExpr, arguments: &Vec<ASTExpr>) -> (r: Res<
        Option<Expr>,
    >)
        requires
            old(self)@.wf(),
            (callee.well_formed(old(self)@.array_ready())
                && all_well_formed(arguments@, old(self)@.array_ready())) || supported(
                gen_method_call(old(self)@, *callee, *arguments).1,
            ),
        ensures
            (final(self)@, res_option(r)) == gen_method_call(old(self)@, *callee, *arguments),
            final(self)@.wf(),
            sound_option(old(self)@, final(self)@, res_option(r)),
            r is Ok ==> final(self)@.kept(old(self)@),
        decreases parts::call(*callee, *arguments), 4nat,
    {
        proof {
            parts::lemma_call(*callee, *arguments);
        }
        if let ASTExpr::Get { object, name } = callee {
            if !self.cur.uninitialized_this_members.is_empty() {
                return Err(
                    self.err(
                        name,
                        "Cannot call methods in constructors until all class members are initialized.",
                    ),
                );
            }
            let (object, member) = self.get_field(object, name)?;
            let ghost s1 = self@;
            proof {
                lemma_kept_wf(old(self)@, s1);
            }
            match member {
                Member::Field { .. } => Err(self.err(name, "Class members cannot be called.")),
                Member::Method(method) => match self.module.signature(&method) {
                    None => Err(self.err(name, "Class members cannot be called.")),
                    Some(sig) => {
                        let ghost this = object@;
                        let mut first: Vec<Expr> = Vec::new();
                        first.push(object);
                        assert(views(first@) =~= seq![this]);
                        let args = self.generate_func_args(
                            &sig.parameters,
                            arguments,
                            first,
                            false,
                            name,
                        )?;
                        proof {
                            lemma_kept_trans(old(self)@, s1, self@);
                        }
                        Ok(Some(self.call_function(method, args)))
                    },
                },
                Member::Dynamic { index, method } => match self.module.signature(&method) {
                    None => Err(self.err(name, "Class members cannot be called.")),
                    Some(sig) => {
                        let ghost this = object@;
                        let ty = object.get_type();
                        // the parameters of the interface do not have `this`
                        let mut parameters: Vec<Type> = Vec::new();
                        parameters.push(ty.copy());
                        let mut own = sig.parameters;
                        parameters.append(&mut own);
                        assert(parameters@ =~= seq![this.ty()] + sig.parameters@);
                        let mut first: Vec<Expr> = Vec::new();
                        first.push(object);
                        assert(views(first@) =~= seq![this]);
                        let args = self.generate_func_args(
                            &parameters,
                            arguments,
                            first,
                            false,
                            name,
                        )?;
                        proof {
                            lemma_kept_trans(old(self)@, s1, self@);
                        }
                        Ok(Some(Expr::call_dyn(ty, index, args, sig.ret_type)))
                    },
                },
            }
        } else {
            Ok(None)
        }
    }

    fn try_constructor_call(
        &mut self,
        callee: &Expr,
        args: &Vec<ASTExpr>,
        err_tok: &Token,
    ) -> (r: Res<Option<Expr>>)
        requires
            old(self)@.wf(),
            all_well_formed(args@, old(self)@.array_ready()) || supported(
                gen_constructor_call(old(self)@, callee@, *args, err_tok@).1,
            ),
        ensures
            (final(self)@, res_option(r)) == gen_constructor_call(
                old(self)@,
                callee@,
                *args,
                err_tok@,
            ),
            final(self)@.wf(),
            sound_option(old(self)@, final(self)@, res_option(r)),
            r is Ok ==> final(self)@.kept(old(self)@),
        decreases *args, 1nat,
    {
        match self.module.allocated(&callee.get_type()) {
            None => Ok(None),
            Some(inst) => {
                let args = self.expressions(args)?;
                let expr = self.construct(inst, args, err_tok)?;
                Ok(Some(expr))
            },
        }
    }

    /// An allocation by the first constructor that takes the arguments.
    fn construct(&self, inst: Instance, args: Vec<Expr>, err_tok: &Token) -> (r: Res<Expr>)
        requires
            inst.ty < self@.module.adts.len(),
        ensures
            res(r) == construct(self@, inst, views(args@), err_tok@),
            exprs_ok(self@.module.locals, views(args@)) ==> (r matches Ok(expr) ==> expr_ok(
                self@.module.locals,
                expr@,
            )),
    {
        let mut types: Vec<Type> = Vec::new();
        let mut i: usize = 0;
        while i < args.len()
            invariant
                i <= args@.len(),
                types@ == expr_types(views(args@)).take(i as int),
            decreases args.len() - i,
        {
            types.push(args[i].get_type());
            assert(types@ =~= expr_types(views(args@)).take(i + 1));
            i = i + 1;
        }
        assert(types@ =~= expr_types(views(args@)));
        match self.module.find_constructor(&inst, &types) {
            Some(constructor) => Ok(Expr::allocate(Type::Adt(inst), constructor, args)),
            None => Err(self.err(err_tok, "No matching constructor found for arguments.")),
        }
    }

    fn for_(
        &mut self,
        condition: &ASTExpr,
        body: &ASTExpr,
        else_b: &Option<Box<ASTExpr>>,
    ) -> (r: Res<Expr>)
        requires
            old(self)@.wf(),
            (condition.well_formed(old(self)@.array_ready())
                && body.well_formed(old(self)@.array_ready())
                && some_well_formed(*else_b, old(self)@.array_ready())) || supported(
                gen_for(old(self)@, *condition, *body, *else_b).1,
            ),
        ensures
            (final(self)@, res(r)) == gen_for(old(self)@, *condition, *body, *else_b),
            final(self)@.wf(),
            sound(old(self)@, final(self)@, res(r)),
            r is Ok ==> final(self)@.kept(old(self)@) && final(self)@.cur.current_loop == old(
                self,
            )@.cur.current_loop,
        decreases parts::for_loop(*condition, *body, *else_b), 5nat,
    {
        proof {
            parts::lemma_for_loop(*condition, *body, *else_b);
        }
        let mut prev_loop = Some(ForLoop { result_var: None });
        std::mem::swap(&mut self.cur.current_loop, &mut prev_loop);
        let ghost s0 = self@;
        assert(s0 == old(self)@.with_loop(Some(None)));
        proof {
            if state_ok(old(self)@) {
                lemma_loop_ok(old(self)@, Some(None));
                lemma_current_loop_ok(old(self)@);
            }
        }
        let cond = self.expression(condition)?;
        let ghost s1 = self@;
        proof {
            lemma_kept_wf(s0, s1);
        }
        if !cond.get_type().equals(&Type::Bool) {
            return Err(self.err(condition.get_token(), "For condition must be a boolean."));
        }
        let body = self.expression(body)?;
        let ghost s2 = self@;
        let body_type = body.get_type();
        proof {
            lemma_kept_trans(s0, s1, s2);
            lemma_loop_var(s2, body_type);
            lemma_keep_expr(s1, s2, cond@);
        }
        self.get_or_create_loop_var(&body_type)?;
        let ghost s3 = self@;
        proof {
            lemma_kept_trans(s0, s2, s3);
            lemma_kept_wf(s0, s3);
            lemma_keep_expr(s2, s3, cond@);
            lemma_keep_expr(s2, s3, body@);
        }
        let (else_, result_store) = self.for_else(else_b, &body_type)?;
        proof {
            lemma_kept_trans(s0, s3, self@);
            lemma_keep_expr(s3, self@, cond@);
            lemma_keep_expr(s3, self@, body@);
            if state_ok(old(self)@) {
                if let Some(Some(var)) = old(self)@.cur.current_loop {
                    lemma_keep_expr(s0, self@, ExprView::Variable(VariableView::Local(var)));
                }
                lemma_loop_ok(self@, old(self)@.cur.current_loop);
            }
            lemma_kept_loop(old(self)@, self@, Some(None));
            lemma_kept_wf(
                old(self)@,
                self@.with_loop(old(self)@.cur.current_loop),
            );
        }
        self.cur.current_loop = prev_loop;
        Ok(Expr::loop_(cond, body, else_, result_store))
    }

    /// Generates the branch of a loop that is taken where the body never runs.
    fn for_else(&mut self, else_b: &Option<Box<ASTExpr>>, body_type: &Type) -> (r: Res<
        (Option<Expr>, Option<LocalVariable>),
    >)
        requires
            old(self)@.wf(),
            old(self)@.cur.current_loop is Some,
            some_well_formed(*else_b, old(self)@.array_ready()) || supported(
                gen_for_else(old(self)@, *else_b, *body_type).1,
            ),
        ensures
            (final(self)@, res_else(r)) == gen_for_else(old(self)@, *else_b, *body_type),
            final(self)@.wf(),
            sound_else(old(self)@, final(self)@, res_else(r)),
            r is Ok ==> final(self)@.kept(old(self)@),
        decreases *else_b, 10nat,
    {
        match else_b {
            None => Ok((None, None)),
            Some(else_b) => {
                let else_val = self.expression(else_b)?;
                let ghost s1 = self@;
                if else_val.get_type().equals(body_type) {
                    proof {
                        lemma_loop_var(s1, *body_type);
                    }
                    let var = self.get_or_create_loop_var(body_type)?;
                    proof {
                        lemma_kept_trans(old(self)@, s1, self@);
                        lemma_keep_expr(s1, self@, else_val@);
                    }
                    Ok((Some(else_val), Some(var)))
                } else {
                    Ok((Some(else_val), None))
                }
            },
        }
    }

    fn get(&mut self, object: &ASTExpr, name: &Token) -> (r: Res<Expr>)
        requires
            old(self)@.wf(),
            object.well_formed(old(self)@.array_ready()) || supported(
                gen_get(old(self)@, *object, *name).1,
            ),
        ensures
            (final(self)@, res(r)) == gen_get(old(self)@, *object, *name),
            final(self)@.wf(),
            sound(old(self)@, final(self)@, res(r)),
            r is Ok ==> final(self)@.kept(old(self)@),
        decreases *object, 11nat,
    {
        let (object, member) = self.get_field(object, name)?;
        match member {
            Member::Field { ty, index, .. } => {
                if self.cur.uninitialized_this_members.contains(name.lexeme.as_str()) {
                    return Err(self.err(name, "Cannot get uninitialized class member."));
                }
                Ok(Expr::struct_get(object, index, ty))
            },
            _ => Err(self.err(name, "Cannot get class method (must be called)")),
        }
    }

    fn get_static(&mut self, object: &ASTExpr, name: &Token) -> (r: Res<Expr>)
        requires
            old(self)@.wf(),
            object.well_formed(old(self)@.array_ready()) || supported(
                gen_get_static(old(self)@, *object, *name).1,
            ),
        ensures
            (final(self)@, res(r)) == gen_get_static(old(self)@, *object, *name),
            final(self)@.wf(),
            sound(old(self)@, final(self)@, res(r)),
            r is Ok ==> final(self)@.kept(old(self)@),
        decreases *object, 10nat,
    {
        let obj = self.expression(object)?;
        let ty = obj.get_type();
        if !ty.is_type() {
            return Err(self.err(name, "Static access is not supported on values."));
        }
        match self.module.allocated(&ty) {
            Some(inst) => match &self.module.adts[inst.ty].ty {
                ADTType::Enum { cases } => match cases.get(name.lexeme.as_str()) {
                    Some(case) => Ok(Expr::TypeGet(Type::Adt(Instance::new(*case, inst.args)))),
                    None => Err(self.err(name, "Unknown enum case.")),
                },
                _ => Err(self.err(name, "Static access is only supported on enum types.")),
            },
            None => Err(self.err(name, "Static access is only supported on enum types.")),
        }
    }

    fn if_(
        &mut self,
        condition: &ASTExpr,
        then_branch: &ASTExpr,
        else_branch: &Option<Box<ASTExpr>>,
    ) -> (r: Res<Expr>)
        requires
            old(self)@.wf(),
            (condition.well_formed(old(self)@.array_ready())
                && then_branch.well_formed(old(self)@.array_ready())
                && some_well_formed(*else_branch, old(self)@.array_ready())) || supported(
                gen_if(old(self)@, *condition, *then_branch, *else_branch).1,
            ),
        ensures
            (final(self)@, res(r)) == gen_if(old(self)@, *condition, *then_branch, *else_branch),
            final(self)@.wf(),
            sound(old(self)@, final(self)@, res(r)),
            r is Ok ==> final(self)@.kept(old(self)@),
        decreases parts::if_else(*condition, *then_branch, *else_branch), 5nat,
    {
        proof {
            parts::lemma_if_else(*condition, *then_branch, *else_branch);
        }
        let cond = self.expression(condition)?;
        let ghost s1 = self@;
        proof {
            lemma_kept_wf(old(self)@, s1);
        }
        if !cond.get_type().equals(&Type::Bool) {
            return Err(self.err(condition.get_token(), "If condition must be a boolean"));
        }
        let then_val = self.branch(&cond, then_branch)?;
        let ghost s2 = self@;
        proof {
            lemma_kept_trans(old(self)@, s1, s2);
            lemma_kept_wf(old(self)@, s2);
            lemma_keep_expr(s1, s2, cond@);
        }
        let else_val = self.or_none(else_branch)?;
        proof {
            lemma_kept_trans(old(self)@, s2, self@);
            lemma_keep_expr(s2, self@, cond@);
            lemma_keep_expr(s2, self@, then_val@);
        }
        let then_ty = then_val.get_type();
        let else_ty = else_val.get_type();
        let phi = then_ty.equals(&else_ty) && !then_ty.equals(&Type::NoneType);
        Ok(Expr::if_(cond, then_val, else_val, phi))
    }

    /// Generates a branch in a scope of its own, with the casts that the condition
    /// allows in front.
    fn branch(&mut self, condition: &Expr, branch: &ASTExpr) -> (r: Res<Expr>)
        requires
            old(self)@.wf(),
            branch.well_formed(old(self)@.array_ready()) || supported(
                gen_branch(old(self)@, condition@, *branch).1,
            ),
        ensures
            (final(self)@, res(r)) == gen_branch(old(self)@, condition@, *branch),
            final(self)@.wf(),
            expr_ok(old(self)@.module.locals, condition@) ==> sound(
                old(self)@,
                final(self)@,
                res(r),
            ),
            r is Ok ==> final(self)@.kept(old(self)@) && final(self)@.cur.scopes == old(
                self,
            )@.cur.scopes,
        decreases *branch, 10nat,
    {
        proof {
            lemma_begin_scope(self@);
            lemma_casts(self@.begin_scope(), condition@, Seq::empty());
            lemma_kept_wf(
                self@.begin_scope(),
                casts_of(self@.begin_scope(), condition@, Seq::empty()).0,
            );
        }
        self.begin_scope();
        let ghost s0 = self@;
        let mut block = self.smart_casts(condition);
        let ghost s1 = self@;
        let value = self.expression(branch)?;
        proof {
            lemma_kept_trans(s0, s1, self@);
            lemma_kept_scope(old(self)@, self@);
            lemma_kept_wf(old(self)@, self@.end_scope());
            lemma_keep_exprs(s1, self@, views(block@));
            lemma_views_push(block@, value);
        }
        block.push(value);
        self.end_scope();
        Ok(Expr::block(block))
    }

    /// Generates an expression that need not be there.
    fn or_none(&mut self, value: &Option<Box<ASTExpr>>) -> (r: Res<Expr>)
        requires
            old(self)@.wf(),
            some_well_formed(*value, old(self)@.array_ready()) || supported(
                gen_or_none(old(self)@, *value).1,
            ),
        ensures
            (final(self)@, res(r)) == gen_or_none(old(self)@, *value),
            final(self)@.wf(),
            sound(old(self)@, final(self)@, res(r)),
            r is Ok ==> final(self)@.kept(old(self)@),
        decreases *value, 10nat,
    {
        match value {
            Some(value) => self.expression(value),
            None => Ok(Expr::none_const()),
        }
    }

    fn smart_casts(&mut self, condition: &Expr) -> (r: Vec<Expr>)
        requires
            old(self)@.wf(),
        ensures
            (final(self)@, views(r@)) == casts_of(old(self)@, condition@, Seq::empty()),
            final(self)@.wf(),
            expr_ok(old(self)@.module.locals, condition@) ==> sound_all(
                old(self)@,
                final(self)@,
                Ok(views(r@)),
            ),
    {
        let mut casts: Vec<Expr> = Vec::new();
        assert(views(casts@) =~= Seq::empty());
        self.find_casts(&mut casts, condition);
        casts
    }

    /// Defines the variables that are known to be of another type where a condition
    /// holds. The stores go to the end of the list.
    pub fn find_casts(&mut self, list: &mut Vec<Expr>, expr: &Expr)
        requires
            old(self)@.wf(),
        ensures
            (final(self)@, views(final(list)@)) == casts_of(
                old(self)@,
                expr@,
                views(old(list)@),
            ),
            final(self)@.wf(),
            final(self)@.kept(old(self)@),
            expr_ok(old(self)@.module.locals, expr@) && exprs_ok(
                old(self)@.module.locals,
                views(old(list)@),
            ) ==> sound_all(old(self)@, final(self)@, Ok(views(final(list)@))),
        decreases *expr,
    {
        if let Expr::Binary { left, operator, right } = expr {
            match *operator {
                TType::And => {
                    self.find_casts(list, left);
                    let ghost s1 = self@;
                    proof {
                        lemma_keep_expr(old(self)@, s1, right@);
                    }
                    self.find_casts(list, right);
                    proof {
                        lemma_kept_trans(old(self)@, s1, self@);
                    }
                },
                TType::Is => {
                    if let Some(name) = MIRGenerator::loaded_name(left) {
                        if let Type::Type(ty) = right.get_type() {
                            proof {
                                lemma_define(self@, name@, false, *ty);
                            }
                            let var = self.define_variable(
                                &Token::generic_identifier(name),
                                false,
                                ty.copy(),
                            );
                            let cast = Expr::cast(left.copy(), *ty, CastType::Bitcast);
                            let store = Expr::store(var, cast, true);
                            proof {
                                reveal_with_fuel(expr_ok, 2);
                                lemma_keep_expr(old(self)@, self@, left@);
                                lemma_keep_exprs(old(self)@, self@, views(list@));
                                lemma_views_push(list@, store);
                            }
                            list.push(store);
                        }
                    }
                },
                _ => {},
            }
        }
    }

    /// The name of the variable that an expression loads.
    fn loaded_name(expr: &Expr) -> (r: Option<String>)
        ensures
            match r {
                Some(name) => loaded_name(expr@) == Some(name@),
                None => loaded_name(expr@) is None,
            },
    {
        match expr {
            Expr::Variable(var) => Some(name_string(&var.get_name())),
            _ => None,
        }
    }

    fn index_get(&mut self, indexed: &ASTExpr, index: &ASTExpr, bracket: &Token) -> (r: Res<Expr>)
        requires
            old(self)@.wf(),
            (indexed.well_formed(old(self)@.array_ready())
                && index.well_formed(old(self)@.array_ready())) || supported(
                gen_index_get(old(self)@, *indexed, *index, *bracket).1,
            ),
        ensures
            (final(self)@, res(r)) == gen_index_get(old(self)@, *indexed, *index, *bracket),
            final(self)@.wf(),
            sound(old(self)@, final(self)@, res(r)),
            r is Ok ==> final(self)@.kept(old(self)@),
        decreases parts::index_get(*indexed, *index, *bracket), 5nat,
    {
        proof {
            parts::lemma_index_get(*indexed, *index, *bracket);
        }
        let obj = self.expression(indexed)?;
        let ghost s1 = self@;
        proof {
            lemma_kept_wf(old(self)@, s1);
        }
        let index = self.expression(index)?;
        proof {
            lemma_kept_trans(old(self)@, s1, self@);
            lemma_keep_expr(s1, self@, obj@);
        }
        self.binary_mir(obj, bracket, index)
    }

    fn index_set(&mut self, indexed: &ASTExpr, ast_index: &ASTExpr, ast_value: &ASTExpr) -> (r:
        Res<Expr>)
        requires
            old(self)@.wf(),
            (indexed.well_formed(old(self)@.array_ready())
                && ast_index.well_formed(old(self)@.array_ready())
                && ast_value.well_formed(old(self)@.array_ready())) || supported(
                gen_index_set(old(self)@, *indexed, *ast_index, *ast_value).1,
            ),
        ensures
            (final(self)@, res(r)) == gen_index_set(old(self)@, *indexed, *ast_index, *ast_value),
            final(self)@.wf(),
            sound(old(self)@, final(self)@, res(r)),
            r is Ok ==> final(self)@.kept(old(self)@),
        decreases parts::index_set(*indexed, *ast_index, *ast_value), 5nat,
    {
        proof {
            parts::lemma_index_set(*indexed, *ast_index, *ast_value);
        }
        let obj = self.expression(indexed)?;
        let ghost s1 = self@;
        proof {
            lemma_kept_wf(old(self)@, s1);
        }
        let index = self.expression(ast_index)?;
        let ghost s2 = self@;
        proof {
            lemma_kept_trans(old(self)@, s1, s2);
            lemma_kept_wf(old(self)@, s2);
            lemma_keep_expr(s1, s2, obj@);
        }
        let value = self.expression(ast_value)?;
        proof {
            lemma_kept_trans(old(self)@, s2, self@);
            lemma_keep_expr(s2, self@, obj@);
            lemma_keep_expr(s2, self@, index@);
        }
        match self.module.operator_method(
            TType::RightBracket,
            &obj.get_type(),
            &index.get_type(),
        ) {
            None => Err(
                self.err(
                    ast_index.get_token(),
                    "No implementation of operator found for types.",
                ),
            ),
            Some(method) => {
                if !value.get_type().equals(&self.module.functions[method].parameters[2].ty) {
                    Err(self.err(ast_value.get_token(), "Setter is of wrong type."))
                } else {
                    let ghost args = seq![obj@, index@, value@];
                    let mut arguments: Vec<Expr> = Vec::new();
                    arguments.push(obj);
                    arguments.push(index);
                    arguments.push(value);
                    assert(views(arguments@) =~= args);
                    Ok(self.call_function(Instance::new_(method), arguments))
                }
            },
        }
    }

    fn return_(&mut self, val: &Option<Box<ASTExpr>>, err_tok: &Token) -> (r: Res<Expr>)
        requires
            old(self)@.wf(),
            some_well_formed(*val, old(self)@.array_ready()) || supported(
                gen_return(old(self)@, *val, *err_tok).1,
            ),
        ensures
            (final(self)@, res(r)) == gen_return(old(self)@, *val, *err_tok),
            final(self)@.wf(),
            sound(old(self)@, final(self)@, res(r)),
            r is Ok ==> final(self)@.kept(old(self)@),
        decreases *val, 11nat,
    {
        let value = self.or_none(val)?;
        if !value.get_type().equals(&self.module.functions[self.cur.function].ret_type) {
            return Err(self.err(err_tok, "Return expression in function has wrong type"));
        }
        Ok(Expr::ret(value))
    }

    fn set(&mut self, object: &ASTExpr, name: &Token, value: &ASTExpr) -> (r: Res<Expr>)
        requires
            old(self)@.wf(),
            (object.well_formed(old(self)@.array_ready())
                && value.well_formed(old(self)@.array_ready())) || supported(
                gen_set(old(self)@, *object, *name, *value).1,
            ),
        ensures
            (final(self)@, res(r)) == gen_set(old(self)@, *object, *name, *value),
            final(self)@.wf(),
            sound(old(self)@, final(self)@, res(r)),
            r is Ok ==> final(self)@.kept(old(self)@),
        decreases parts::set_member(*object, *name, *value), 5nat,
    {
        proof {
            parts::lemma_set_member(*object, *name, *value);
        }
        let (object, member) = self.get_field(object, name)?;
        let ghost s1 = self@;
        proof {
            lemma_kept_wf(old(self)@, s1);
        }
        match member {
            Member::Field { ty, mutable, index } => {
                let value = self.expression(value)?;
                proof {
                    lemma_kept_trans(old(self)@, s1, self@);
                    lemma_keep_expr(s1, self@, object@);
                }
                let ghost s2 = self@;
                if !value.get_type().equals(&ty) {
                    return Err(self.err(name, "Class member is a different type"));
                }
                if !mutable && !self.cur.uninitialized_this_members.contains(
                    name.lexeme.as_str(),
                ) {
                    return Err(self.err(name, "Cannot set immutable class member"));
                }
                let first_set = self.cur.uninitialized_this_members.remove(name.lexeme.as_str());
                proof {
                    if state_ok(s2) {
                        lemma_uninitialized_ok(s2, self@.cur.uninitialized);
                    }
                }
                Ok(Expr::struct_set(object, index, value, first_set))
            },
            _ => Err(self.err(name, "Cannot set class method")),
        }
    }

    fn unary(&mut self, operator: &Token, right: &ASTExpr) -> (r: Res<Expr>)
        requires
            old(self)@.wf(),
            right.well_formed(old(self)@.array_ready()) || supported(
                gen_unary(old(self)@, *operator, *right).1,
            ),
        ensures
            (final(self)@, res(r)) == gen_unary(old(self)@, *operator, *right),
            final(self)@.wf(),
            sound(old(self)@, final(self)@, res(r)),
            r is Ok ==> final(self)@.kept(old(self)@),
        decreases *right, 10nat,
    {
        let right = self.expression(right)?;
        if operator.t_type == TType::Bang && !right.get_type().equals(&Type::Bool) {
            return Err(self.err(operator, "'!' can only be used on boolean values"));
        }
        Ok(Expr::unary(right, operator.t_type))
    }

    fn var(&mut self, var: &Token) -> (r: Res<Expr>)
        requires
            old(self)@.wf(),
        ensures
            (final(self)@, res(r)) == gen_var(old(self)@, *var),
            final(self)@.wf(),
            sound(old(self)@, final(self)@, res(r)),
            final(self)@.kept(old(self)@),
    {
        proof {
            lemma_find_var(self@, var.lexeme@);
        }
        if let Some(var) = self.find_var(var) {
            return Ok(Expr::load(var));
        }
        match self.module.find_type(var.lexeme.as_str()) {
            Some(ty) => Ok(Expr::TypeGet(ty)),
            None => {
                let msg = concat3("Variable '", var.lexeme.as_str(), "' is not defined");
                Err(self.err(var, msg.as_str()))
            },
        }
    }

    fn when(
        &mut self,
        value: &ASTExpr,
        branches: &Vec<(ASTExpr, ASTExpr)>,
        else_branch: &ASTExpr,
    ) -> (r: Res<Expr>)
        requires
            old(self)@.wf(),
            (value.well_formed(old(self)@.array_ready())
                && else_branch.well_formed(old(self)@.array_ready())
                && branches_well_formed(branches@, old(self)@.array_ready())) || supported(
                gen_when(old(self)@, *value, *branches, *else_branch).1,
            ),
        ensures
            (final(self)@, res(r)) == gen_when(old(self)@, *value, *branches, *else_branch),
            final(self)@.wf(),
            sound(old(self)@, final(self)@, res(r)),
            r is Ok ==> final(self)@.kept(old(self)@),
        decreases parts::when(*value, *branches, *else_branch), 5nat,
    {
        proof {
            parts::lemma_when(*value, *branches, *else_branch);
        }
        let value = self.expression(value)?;
        let ghost s1 = self@;
        proof {
            lemma_kept_wf(old(self)@, s1);
        }
        let else_val = self.expression(else_branch)?;
        let ghost s2 = self@;
        proof {
            lemma_kept_trans(old(self)@, s1, s2);
            lemma_kept_wf(old(self)@, s2);
            lemma_keep_expr(s1, s2, value@);
        }
        let branch_type = else_val.get_type();
        let cases = self.cases(&value, &branch_type, branches)?;
        proof {
            lemma_kept_trans(old(self)@, s2, self@);
            lemma_keep_expr(s2, self@, else_val@);
        }
        Ok(Expr::when(cases, Some(else_val), Some(branch_type)))
    }

    /// Generates the cases of a choice.
    fn cases(
        &mut self,
        value: &Expr,
        branch_type: &Type,
        branches: &Vec<(ASTExpr, ASTExpr)>,
    ) -> (r: Res<Vec<(Expr, Expr)>>)
        requires
            old(self)@.wf(),
            branches_well_formed(branches@, old(self)@.array_ready()) || supported(
                gen_cases(old(self)@, value@, *branch_type, *branches, 0, Seq::empty()).1,
            ),
        ensures
            (final(self)@, res_cases(r)) == gen_cases(
                old(self)@,
                value@,
                *branch_type,
                *branches,
                0,
                Seq::empty(),
            ),
            final(self)@.wf(),
            expr_ok(old(self)@.module.locals, value@) ==> sound_cases(
                old(self)@,
                final(self)@,
                res_cases(r),
            ),
            r is Ok ==> final(self)@.kept(old(self)@),
        decreases *branches, 0nat,
    {
        let cond_type = value.get_type();
        let mut done: Vec<(Expr, Expr)> = Vec::new();
        let mut i: usize = 0;
        assert(case_views(done@) =~= Seq::empty());
        while i < branches.len()
            invariant
                i <= branches@.len(),
                cond_type == value@.ty(),
                old(self)@.wf(),
                branches_well_formed(branches@, old(self)@.array_ready()) || supported(
                    gen_cases(old(self)@, value@, *branch_type, *branches, 0, Seq::empty()).1,
                ),
                self@.wf(),
                self@.kept(old(self)@),
                expr_ok(old(self)@.module.locals, value@) ==> sound_cases(
                    old(self)@,
                    self@,
                    Ok(case_views(done@)),
                ),
                gen_cases(old(self)@, value@, *branch_type, *branches, 0, Seq::empty())
                    == gen_cases(
                    self@,
                    value@,
                    *branch_type,
                    *branches,
                    i as nat,
                    case_views(done@),
                ),
            decreases branches.len() - i,
        {
            let ghost s = self@;
            proof {
                lemma_kept_wf(old(self)@, s);
            }
            assert(decreases_to!(branches => branches@[i as int]));
            let condition = &branches[i].0;
            let branch = &branches[i].1;
            let cond = self.expression(condition)?;
            let ghost s1 = self@;
            proof {
                lemma_kept_trans(old(self)@, s, s1);
                lemma_kept_wf(old(self)@, s1);
                lemma_keep_expr(old(self)@, s1, value@);
            }
            let ty = cond.get_type();
            if !ty.equals(&cond_type) && !ty.is_type() {
                return Err(
                    self.err(
                        condition.get_token(),
                        "Branches of when must be of same type as the value compared.",
                    ),
                );
            }
            // an error of the comparison is reported at the condition
            let mut operator = condition.get_token().copy();
            operator.t_type = if ty.is_type() {
                TType::Is
            } else {
                TType::EqualEqual
            };
            let test = self.binary_mir(value.copy(), &operator, cond)?;
            let result = self.branch(&test, branch)?;
            if !result.get_type().equals(branch_type) {
                return Err(self.err(branch.get_token(), "Branch results must be of same type."));
            }
            proof {
                lemma_kept_trans(old(self)@, s1, self@);
                lemma_kept_trans(s, s1, self@);
                lemma_keep_expr(s1, self@, test@);
                lemma_keep_cases(s, self@, case_views(done@));
            }
            let ghost case = (test@, result@);
            let ghost before = case_views(done@);
            done.push((test, result));
            assert(case_views(done@) =~= before.push(case));
            i = i + 1;
        }
        Ok(done)
    }

    fn var_def(&mut self, var: &VariableDef) -> (r: Res<Expr>)
        requires
            old(self)@.wf(),
            var.initializer.well_formed(old(self)@.array_ready()) || supported(
                gen_var_def(old(self)@, *var).1,
            ),
        ensures
            (final(self)@, res(r)) == gen_var_def(old(self)@, *var),
            final(self)@.wf(),
            sound(old(self)@, final(self)@, res(r)),
            r is Ok ==> final(self)@.kept(old(self)@),
        decreases *var, 10nat,
    {
        let init = self.expression(&var.initializer)?;
        let ghost s1 = self@;
        let ty = init.get_type();
        if ty.is_assignable() {
            proof {
                lemma_define(s1, var.name.lexeme@, var.mutable, ty);
            }
            let def = self.define_variable(&var.name, var.mutable, ty);
            proof {
                lemma_kept_trans(old(self)@, s1, self@);
                lemma_keep_expr(s1, self@, init@);
            }
            Ok(Expr::store(def, init, true))
        } else {
            let text = self.module.type_text(&ty);
            let msg = concat3("Cannot assign type '", text.as_str(), "' to a variable.");
            Err(self.err(var.initializer.get_token(), msg.as_str()))
        }
    }

    fn literal(&mut self, literal: &Literal, token: &Token) -> (r: Res<Expr>)
        requires
            old(self)@.wf(),
            ASTExpr::Literal(*literal, *token).well_formed(old(self)@.array_ready()) || supported(
                gen_literal(old(self)@, *literal, *token).1,
            ),
        ensures
            (final(self)@, res(r)) == gen_literal(old(self)@, *literal, *token),
            final(self)@.wf(),
            sound(old(self)@, final(self)@, res(r)),
            r is Ok ==> final(self)@.kept(old(self)@),
        decreases *literal, 10nat,
    {
        match literal {
            Literal::Constant(constant) => Ok(Expr::Literal(constant.copy())),
            Literal::Array(arr) => self.array_literal(arr),
            Literal::Closure(closure) => self.closure(closure, token),
        }
    }

    fn array_literal(&mut self, literal: &Vec<ASTExpr>) -> (r: Res<Expr>)
        requires
            old(self)@.wf(),
            (old(self)@.array_ready() && literal@.len() > 0
                && all_well_formed(literal@, true)) || supported(
                gen_array(old(self)@, *literal).1,
            ),
        ensures
            (final(self)@, res(r)) == gen_array(old(self)@, *literal),
            final(self)@.wf(),
            sound(old(self)@, final(self)@, res(r)),
            r is Ok ==> final(self)@.kept(old(self)@),
        decreases *literal, 1nat,
    {
        let values = self.array_values(literal)?;
        let ghost s1 = self@;
        proof {
            lemma_kept_wf(old(self)@, s1);
        }
        let r = self.array_of(values)?;
        proof {
            lemma_kept_trans(old(self)@, s1, self@);
        }
        Ok(r)
    }

    /// Generates the values of an array, which have to be of one type.
    fn array_values(&mut self, literal: &Vec<ASTExpr>) -> (r: Res<Vec<Expr>>)
        requires
            old(self)@.wf(),
            all_well_formed(literal@, old(self)@.array_ready()) || supported(
                gen_values(old(self)@, *literal, 0, Seq::empty()).1,
            ),
        ensures
            (final(self)@, res_all(r)) == gen_values(old(self)@, *literal, 0, Seq::empty()),
            final(self)@.wf(),
            sound_all(old(self)@, final(self)@, res_all(r)),
            r matches Ok(values) ==> final(self)@.kept(old(self)@) && values@.len()
                == literal@.len(),
        decreases *literal, 0nat,
    {
        let mut done: Vec<Expr> = Vec::new();
        let mut i: usize = 0;
        assert(views(done@) =~= Seq::empty());
        while i < literal.len()
            invariant
                i <= literal@.len(),
                done@.len() == i,
                old(self)@.wf(),
                all_well_formed(literal@, old(self)@.array_ready()) || supported(
                    gen_values(old(self)@, *literal, 0, Seq::empty()).1,
                ),
                self@.wf(),
                self@.kept(old(self)@),
                sound_all(old(self)@, self@, Ok(views(done@))),
                gen_values(old(self)@, *literal, 0, Seq::empty()) == gen_values(
                    self@,
                    *literal,
                    i as nat,
                    views(done@),
                ),
            decreases literal.len() - i,
        {
            let ghost s = self@;
            proof {
                lemma_kept_wf(old(self)@, s);
            }
            assert(decreases_to!(literal => literal@[i as int]));
            let value = self.expression(&literal[i])?;
            if done.len() > 0 {
                let ty = value.get_type();
                let elem_type = done[0].get_type();
                if !ty.equals(&elem_type) {
                    let found = self.module.type_text(&ty);
                    let first = self.module.type_text(&elem_type);
                    let msg = concat5(
                        "Type of array value (",
                        found.as_str(),
                        ") does not match rest of array (",
                        first.as_str(),
                        ").",
                    );
                    return Err(self.err(literal[i].get_token(), msg.as_str()));
                }
            }
            proof {
                lemma_kept_trans(old(self)@, s, self@);
                lemma_keep_exprs(s, self@, views(done@));
                lemma_views_push(done@, value);
            }
            done.push(value);
            i = i + 1;
        }
        Ok(done)
    }

    /// Allocates an array, and appends every value to it.
    fn array_of(&mut self, values: Vec<Expr>) -> (r: Res<Expr>)
        requires
            old(self)@.wf(),
            values@.len() > 0,
            old(self)@.array_ready() || supported(array_of(old(self)@, views(values@)).1),
        ensures
            (final(self)@, res(r)) == array_of(old(self)@, views(values@)),
            final(self)@.wf(),
            exprs_ok(old(self)@.module.locals, views(values@)) ==> sound(
                old(self)@,
                final(self)@,
                res(r),
            ),
            r is Ok ==> final(self)@.kept(old(self)@),
    {
        let mut elem_type: Vec<Type> = Vec::new();
        elem_type.push(values[0].get_type());
        assert(elem_type@ =~= seq![views(values@)[0].ty()]);
        let prototype = match self.module.prototypes.get("Array") {
            Some(prototype) => *prototype,
            None => vstd::pervasive::unreached(),
        };
        let ty = self.build(prototype, &elem_type, &Token::generic_token(TType::RightBracket))?;
        let inst = match ty {
            Type::Adt(inst) => inst,
            _ => vstd::pervasive::unreached(),
        };
        let push = match index::get(&self.module.adts[inst.ty].methods, "push") {
            Some(push) => Instance::new(push, inst.args.copy()),
            None => vstd::pervasive::unreached(),
        };
        let mut args: Vec<Expr> = Vec::new();
        args.push(Expr::Literal(Constant::I64(values.len() as u64)));
        assert(views(args@) =~= seq![
            ExprView::Literal(Constant::I64(values@.len() as u64)),
        ]);
        let array = self.construct(inst, args, &Token::generic_token(TType::Var))?;
        let mut i: usize = 0;
        while i < values.len()
            invariant
                i <= values@.len(),
                old(self)@.wf(),
                self@.wf(),
                self@ == push_values(old(self)@, push, array@, views(values@), i as nat),
                self@.module.locals == old(self)@.module.locals,
                expr_ok(old(self)@.module.locals, array@),
                state_ok(old(self)@) && exprs_ok(old(self)@.module.locals, views(values@))
                    ==> state_ok(self@),
            decreases values.len() - i,
        {
            let value = values[i].copy();
            let ghost pair = seq![array@, views(values@)[i as int]];
            let mut args: Vec<Expr> = Vec::new();
            args.push(array.copy());
            args.push(value);
            assert(views(args@) =~= pair);
            let call = self.call_function(push.copy(), args);
            proof {
                lemma_push_values(old(self)@, push, array@, views(values@), (i + 1) as nat);
            }
            self.insert_at_ptr(call);
            i = i + 1;
        }
        proof {
            lemma_push_values(old(self)@, push, array@, views(values@), values@.len());
        }
        Ok(array)
    }

    /// A declaration with type arguments.
    fn build(&self, declaration: Declaration, args: &Vec<Type>, token: &Token) -> (r: Res<Type>)
        ensures
            res_type(r) == build(self@, declaration, args@, token@),
            declaration is Adt ==> (r matches Ok(ty) ==> ty is Adt && ty->Adt_0.ty
                == declaration->Adt_0),
    {
        match declaration {
            Declaration::Function(f) => if f < self.module.functions.len()
                && self.module.functions[f].type_parameters.len() == args.len() {
                Ok(Type::Function(Instance::new(f, TypeList::from_vec(args))))
            } else {
                Err(self.err(token, "Wrong amount of type parameters."))
            },
            Declaration::Adt(a) => if a < self.module.adts.len()
                && self.module.adts[a].type_parameters.len() == args.len() {
                Ok(Type::Adt(Instance::new(a, TypeList::from_vec(args))))
            } else {
                Err(self.err(token, "Wrong amount of type parameters."))
            },
        }
    }

    /// The type that is written in the source.
    fn find_type(&self, ty: &ASTType) -> (r: Res<Type>)
        ensures
            res_type(r) == resolve(self@, *ty),
        decreases *ty, 1nat,
    {
        match ty {
            ASTType::Ident(token) => match self.module.find_type(token.lexeme.as_str()) {
                Some(ty) => Ok(ty),
                None => Err(self.err(token, "Unknown type.")),
            },
            ASTType::Generic { token, types } => self.find_generic(token, types),
        }
    }

    /// A declaration with the type arguments that are written in the source.
    fn find_generic(&self, token: &Token, types: &Vec<ASTType>) -> (r: Res<Type>)
        ensures
            res_type(r) == resolve(
                self@,
                (ASTType::Generic { token: *token, types: *types }),
            ),
        decreases *types, 2nat,
    {
        let mut args: Vec<Type> = Vec::new();
        let mut i: usize = 0;
        while i < types.len()
            invariant
                i <= types@.len(),
                resolve_all(self@, *types, 0, Seq::empty()) == resolve_all(
                    self@,
                    *types,
                    i as nat,
                    args@,
                ),
            decreases types.len() - i,
        {
            assert(decreases_to!(types => types@[i as int]));
            let ty = self.find_type(&types[i])?;
            args.push(ty);
            i = i + 1;
        }
        match self.module.prototypes.get(token.lexeme.as_str()) {
            Some(declaration) => self.build(*declaration, &args, token),
            None => Err(self.err(token, "Unknown type.")),
        }
    }

    fn var_with_generics(&mut self, name: &Token, generics: &Vec<ASTType>) -> (r: Res<Expr>)
        ensures
            (final(self)@, res(r)) == gen_var_with_generics(old(self)@, *name, *generics),
            final(self)@ == old(self)@,
            sound(old(self)@, final(self)@, res(r)),
    {
        match self.find_generic(name, generics)? {
            Type::Function(inst) => Ok(Expr::load(self.module.function_variable(inst))),
            ty => Ok(Expr::TypeGet(ty)),
        }
    }

    fn closure(&mut self, closure: &Closure, token: &Token) -> (r: Res<Expr>)
        requires
            old(self)@.wf(),
            (closure.typed() && closure.body.well_formed(old(self)@.array_ready())) || supported(
                gen_closure(old(self)@, *closure, *token).1,
            ),
        ensures
            (final(self)@, res(r)) == gen_closure(old(self)@, *closure, *token),
            final(self)@.wf(),
            sound(old(self)@, final(self)@, res(r)),
            r is Ok ==> final(self)@.kept(old(self)@),
        decreases *closure, 10nat,
    {
        let ret_type = match &closure.ret_ty {
            Some(ty) => self.find_type(ty)?,
            None => Type::NoneType,
        };
        let types = self.parameter_types(closure)?;
        let ghost (s, tys, ret) = (self@, types@, ret_type);
        self.for_closure(closure, token, types, ret_type);
        let ghost s0 = self@;
        proof {
            lemma_enter_closure(s, *closure, *token, tys, ret);
        }
        let body = self.expression(&closure.body)?;
        let ghost s1 = self@;
        let code = self.function_body(body, closure.body.get_token())?;
        proof {
            lemma_insert(s1, code@);
            lemma_kept_trans(s0, s1, s1.insert_at_ptr(code@));
            lemma_finish_closure(s, *closure, *token, tys, ret, s1.insert_at_ptr(code@));
        }
        self.insert_at_ptr(code);
        Ok(self.end_closure())
    }

    /// The types of the parameters of a closure.
    fn parameter_types(&self, closure: &Closure) -> (r: Res<Vec<Type>>)
        requires
            closure.typed(),
        ensures
            res_types(r) == parameter_types(self@, *closure, 0, Seq::empty()),
            r matches Ok(types) ==> types@.len() == closure.parameters@.len(),
    {
        let mut types: Vec<Type> = Vec::new();
        let mut i: usize = 0;
        while i < closure.parameters.len()
            invariant
                i <= closure.parameters@.len(),
                types@.len() == i,
                closure.typed(),
                parameter_types(self@, *closure, 0, Seq::empty()) == parameter_types(
                    self@,
                    *closure,
                    i as nat,
                    types@,
                ),
            decreases closure.parameters.len() - i,
        {
            match &closure.parameters[i].type_ {
                Some(ty) => {
                    let ty = self.find_type(ty)?;
                    types.push(ty);
                },
                None => vstd::pervasive::unreached(),
            }
            i = i + 1;
        }
        Ok(types)
    }

    /// Declares the function of a closure, and makes it the current one.
    fn for_closure(&mut self, closure: &Closure, token: &Token, types: Vec<Type>, ret_type: Type)
        requires
            old(self)@.wf(),
            types@.len() == closure.parameters@.len(),
        ensures
            final(self)@ == enter_closure(old(self)@, *closure, *token, types@, ret_type),
            old(self)@.module.functions.len() < usize::MAX,
            state_ok(old(self)@) ==> state_ok(final(self)@),
    {
        let ghost before = self@;
        let ghost after = enter_closure(self@, *closure, *token, types@, ret_type);
        let ghost parameter_views = closure_parameters(self@, *closure, types@);
        let line = decimal_text(token.line as u128);
        let position = decimal_text(token.index as u128);
        let prefix = concat3("closure-", line.as_str(), ":");
        let name = concat2(prefix.as_str(), position.as_str());
        assert(name@ == closure_name(*token));
        let mut parameters: Vec<LocalVariable> = Vec::new();
        let mut scope: StringHashMap<LocalVariable> = StringHashMap::new();
        let this = LocalVariable {
            name: new_name("this"),
            ty: Type::I64,
            mutable: false,
            id: self.module.locals.len(),
        };
        self.module.locals.push(Type::I64);
        let bound = this.copy();
        proof {
            lemma_local_table_insert(scope@, "this"@, bound);
            assert(local_table(scope@) =~= Map::empty());
            assert(parameter_scope(parameter_views, 0) == Map::<Seq<char>, LocalView>::empty());
        }
        scope.insert("this".to_owned(), bound);
        parameters.push(this);
        assert(local_views(parameters@) =~= parameter_views.take(1));
        assert(local_table(scope@) == parameter_scope(parameter_views, 1));
        let mut i: usize = 0;
        while i < types.len()
            invariant
                i <= types@.len(),
                types@.len() == closure.parameters@.len(),
                before.wf(),
                parameter_views == closure_parameters(before, *closure, types@),
                parameters@.len() == i + 1,
                local_views(parameters@) == parameter_views.take(i + 1),
                local_table(scope@) == parameter_scope(parameter_views, (i + 1) as nat),
                self@.module.locals == before.module.locals.push(Type::I64) + types@.take(
                    i as int,
                ),
                self@ == (GenView {
                    module: ModuleView { locals: self@.module.locals, ..before.module },
                    ..before
                }),
            decreases types.len() - i,
        {
            let parameter = LocalVariable {
                name: new_name(closure.parameters[i].name.lexeme.as_str()),
                ty: types[i].copy(),
                mutable: false,
                id: self.module.locals.len(),
            };
            assert(parameter@ == parameter_views[i + 1]);
            self.module.locals.push(types[i].copy());
            let bound = parameter.copy();
            proof {
                lemma_local_table_insert(
                    scope@,
                    closure.parameters@[i as int].name.lexeme@,
                    bound,
                );
            }
            scope.insert(closure.parameters[i].name.lexeme.clone(), bound);
            parameters.push(parameter);
            assert(local_views(parameters@) =~= parameter_views.take(i + 2));
            assert(self@.module.locals =~= before.module.locals.push(Type::I64) + types@.take(
                i + 1,
            ));
            i = i + 1;
        }
        assert(local_views(parameters@) =~= parameter_views);
        assert(types@.take(i as int) =~= types@);
        assert(self.module.locals.len() == before.module.locals.len() + 1 + types@.len());
        let module = self.module.functions[self.cur.function].module.copy();
        let f: usize = self.module.functions.len();
        let function = Function::new(name.as_str(), parameters, ret_type, module);
        self.module.functions.push(function);
        assert(self.module.functions.len() == f + 1);
        assert(self@.module.functions =~= after.module.functions);
        self.module.declarations.insert(name, Declaration::Function(f));
        let mut scopes: Vec<StringHashMap<LocalVariable>> = Vec::new();
        scopes.push(scope);
        let mut frame = Frame {
            function: f,
            scopes,
            uninitialized_this_members: StringHashSet::new(),
            current_loop: None,
            captured: Vec::new(),
        };
        assert(frame@.scopes =~= after.cur.scopes);
        assert(frame@.captured =~= Seq::empty());
        std::mem::swap(&mut self.cur, &mut frame);
        self.outer.push(frame);
        assert(self@.outer =~= after.outer);
        proof {
            if state_ok(before) {
                lemma_enter_ok(before, *closure, *token, types@, ret_type);
            }
        }
    }

    /// The body of a function as it stands in the code.
    fn function_body(&self, body: Expr, token: &Token) -> (r: Res<Expr>)
        requires
            self@.wf(),
        ensures
            res(r) == function_body(self@, body@, token@),
            expr_ok(self@.module.locals, body@) ==> (r matches Ok(expr) ==> expr_ok(
                self@.module.locals,
                expr@,
            )),
    {
        let ret_type = &self.module.functions[self.cur.function].ret_type;
        if ret_type.equals(&Type::NoneType) {
            Ok(body)
        } else if ret_type.equals(&body.get_type()) {
            Ok(Expr::ret(body))
        } else {
            Err(self.err(token, "Function return type does not match body type."))
        }
    }

    /// Hands what was captured to the function of a closure, goes back to the
    /// function around it, and stores the closure there.
    fn end_closure(&mut self) -> (r: Expr)
        requires
            old(self)@.wf(),
            old(self)@.outer.len() > 0,
            old(self)@.function().parameters.len() > 0,
            leave_closure(old(self)@).wf(),
        ensures
            (final(self)@, r@) == finish_closure(old(self)@),
            sound(old(self)@, final(self)@, Ok(r@)),
    {
        let ghost after = leave_closure(self@);
        let f: usize = self.cur.function;
        let captured: usize = self.module.captures.len();
        let mut frame = match self.outer.pop() {
            Some(frame) => frame,
            None => vstd::pervasive::unreached(),
        };
        assert(frame@ == after.cur);
        assert(self@.outer =~= after.outer);
        std::mem::swap(&mut self.cur, &mut frame);
        self.module.captures.push(frame.captured);
        assert(self@.module.captures =~= after.module.captures);
        let parameter = LocalVariable {
            name: new_name("CLOSURE-CAPTURED"),
            ty: Type::ClosureCaptured(captured),
            mutable: false,
            id: self.module.locals.len(),
        };
        self.module.locals.push(Type::ClosureCaptured(captured));
        assert(self.module.locals.len() == parameter.id + 1);
        let ghost own = self.module.functions@[f as int];
        let ghost first = parameter@;
        self.module.functions[f].parameters.set(0, parameter);
        assert(local_views(self.module.functions@[f as int].parameters@) =~= local_views(
            own.parameters@,
        ).update(0, first));
        assert(self@.module.functions =~= after.module.functions);
        assert(self@ == after);
        proof {
            if state_ok(old(self)@) {
                lemma_leave_ok(old(self)@);
            }
        }
        let expr = Expr::Closure {
            function: f,
            captured,
            ty: self.module.functions[f].to_closure_type(),
        };
        let var = self.define_variable(
            &Token::generic_identifier("closure-literal".to_owned()),
            false,
            expr.get_type(),
        );
        proof {
            reveal_with_fuel(expr_ok, 2);
        }
        Expr::store(var, expr, true)
    }

    /// Generates the code for an expression. Where it succeeds, a block leaves the
    /// variables in scope as they were, and a loop the loop around it. The code uses
    /// only variables that exist, with the types they were defined with.
    ///
    /// Nothing that the code needs may turn out to be missing, such as the type of
    /// arrays. In well-formed expressions nothing does.
    pub fn expression(&mut self, expression: &ASTExpr) -> (r: Res<Expr>)
        requires
            old(self)@.wf(),
            expression.well_formed(old(self)@.array_ready()) || supported(
                gen_expr(old(self)@, *expression).1,
            ),
        ensures
            (final(self)@, res(r)) == gen_expr(old(self)@, *expression),
            final(self)@.wf(),
            sound(old(self)@, final(self)@, res(r)),
            r is Ok ==> final(self)@.kept(old(self)@),
            r is Ok && *expression is Block ==> final(self)@.cur.scopes == old(
                self,
            )@.cur.scopes,
            r is Ok && *expression is For ==> final(self)@.cur.current_loop == old(
                self,
            )@.cur.current_loop,
        decreases *expression, 9nat,
    {
        match expression {
            ASTExpr::Assignment { name, value } => self.assignment(name, value),
            ASTExpr::Binary { left, operator, right } => self.binary(left, operator, right),
            ASTExpr::Block(expressions, _) => self.block(expressions),
            ASTExpr::Break(expr, tok) => self.break_(expr, tok),
            ASTExpr::Call { callee, arguments } => self.call(callee, arguments),
            ASTExpr::For { condition, body, else_b } => self.for_(condition, body, else_b),
            ASTExpr::Get { object, name } => self.get(object, name),
            ASTExpr::GetStatic { object, name } => self.get_static(object, name),
            ASTExpr::If { condition, then_branch, else_branch } => self.if_(
                condition,
                then_branch,
                else_branch,
            ),
            ASTExpr::IndexGet { indexed, index, bracket } => self.index_get(
                indexed,
                index,
                bracket,
            ),
            ASTExpr::IndexSet { indexed, index, value } => self.index_set(indexed, index, value),
            ASTExpr::Literal(literal, token) => self.literal(literal, token),
            ASTExpr::Return(val, err_tok) => self.return_(val, err_tok),
            ASTExpr::SetMember { object, name, value } => self.set(object, name, value),
            ASTExpr::Unary { operator, right } => self.unary(operator, right),
            ASTExpr::Variable(var) => self.var(var),
            ASTExpr::VarWithGenerics { name, generics } => self.var_with_generics(name, generics),
            ASTExpr::When { value, branches, else_branch } => self.when(
                value,
                branches,
                else_branch,
            ),
            ASTExpr::VarDef(var) => self.var_def(var),
        }
    }
}

} // verus!
