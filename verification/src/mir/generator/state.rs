//! The state of the generator.

use crate::error::{Error, Res};
use crate::gir::declaration::{
    lemma_local_table_insert, local_table, local_views, Declaration, Function, LocalVariable,
    LocalView, Variable,
};
use crate::gir::expression::{lemma_views_push, Expr, ExprView};
use crate::gir::module::Module;
use crate::gir::types::{Instance, Type};
use crate::lexer::token::{TType, Token};
use crate::mir::builder::MIRBuilder;
use crate::mir::generator::model::{in_outer, in_scopes, Failure, FrameView, GenView};
use crate::mir::nodes::MIRVariable;
use crate::mir::generator::rules::parameter_scope;
use crate::mir::generator::vars::{
    expr_ok, lemma_begin_ok, lemma_current_loop_ok, lemma_define_ok, lemma_end_ok, lemma_find_ok,
    lemma_insert_ok, lemma_loop_ok, lemma_new_ok, module_ok, state_ok, var_ok,
};
use crate::names::{name_string, name_text, new_name};
use vstd::hash_map::StringHashMap;
use vstd::hash_set::StringHashSet;
use vstd::prelude::*;

verus! {

/// A loop that code is generated for.
pub struct ForLoop {
    /// The variable that the result of the loop is stored in, once there is one.
    pub result_var: Option<LocalVariable>,
}

impl ForLoop {
    pub open spec fn view(&self) -> Option<LocalView> {
        match self.result_var {
            Some(var) => Some(var@),
            None => None,
        }
    }
}

/// What belongs to one function that code is generated for.
pub struct Frame {
    /// The number of the function.
    pub function: usize,
    /// The variables in scope, from the outermost scope inwards.
    pub scopes: Vec<StringHashMap<LocalVariable>>,
    /// The members of `this` that have no value yet.
    pub uninitialized_this_members: StringHashSet,
    /// The current loop.
    pub current_loop: Option<ForLoop>,
    /// The variables that were captured from surrounding functions.
    pub captured: Vec<LocalVariable>,
}

/// The views of scopes.
pub open spec fn scope_views(scopes: Seq<StringHashMap<LocalVariable>>) -> Seq<
    Map<Seq<char>, LocalView>,
> {
    scopes.map_values(|m: StringHashMap<LocalVariable>| local_table(m@))
}

/// The views of a row of frames.
pub open spec fn frame_views(frames: Seq<Frame>) -> Seq<FrameView> {
    frames.map_values(|f: Frame| f@)
}

impl Frame {
    pub open spec fn view(&self) -> FrameView {
        FrameView {
            function: self.function,
            scopes: scope_views(self.scopes@),
            uninitialized: self.uninitialized_this_members@,
            current_loop: match self.current_loop {
                Some(l) => Some(l@),
                None => None,
            },
            captured: local_views(self.captured@),
        }
    }

    /// The innermost variable of a name.
    fn find(&self, name: &str) -> (r: Option<LocalVariable>)
        ensures
            match r {
                Some(var) => in_scopes(self@.scopes, name@) == Some(var@),
                None => in_scopes(self@.scopes, name@) is None,
            },
    {
        let mut i: usize = self.scopes.len();
        assert(self@.scopes.take(i as int) =~= self@.scopes);
        while i > 0
            invariant
                i <= self.scopes@.len(),
                in_scopes(self@.scopes, name@) == in_scopes(
                    self@.scopes.take(i as int),
                    name@,
                ),
            decreases i,
        {
            i = i - 1;
            let ghost scopes = self@.scopes.take(i + 1);
            assert(scopes.last() == local_table(self.scopes@[i as int]@));
            assert(scopes.drop_last() =~= self@.scopes.take(i as int));
            match self.scopes[i].get(name) {
                Some(var) => {
                    return Some(var.copy());
                },
                None => {},
            }
        }
        None
    }

    /// Captures a variable, unless it is captured already.
    fn capture(&mut self, var: &LocalVariable)
        ensures
            final(self)@ == old(self)@.capture(var@),
    {
        let mut i: usize = 0;
        while i < self.captured.len()
            invariant
                i <= self.captured@.len(),
                self@ == old(self)@,
                forall|j: int| 0 <= j < i ==> (#[trigger] self@.captured[j]).id != var.id,
            decreases self.captured.len() - i,
        {
            if self.captured[i].id == var.id {
                assert(self@.captured[i as int].id == var@.id);
                return ;
            }
            i = i + 1;
        }
        self.captured.push(var.copy());
        assert(self@.captured =~= old(self)@.captured.push(var@));
    }
}

/// Generates the code of a module.
pub struct MIRGenerator {
    /// What was declared in the file.
    pub builder: MIRBuilder,
    /// The variables that were declared in the file; the first table holds the
    /// globals.
    pub environments: Vec<StringHashMap<MIRVariable>>,
    /// The module that code is generated into.
    pub module: Module,
    /// The current function.
    pub cur: Frame,
    /// The functions around it, from the outermost inwards.
    pub outer: Vec<Frame>,
}

impl MIRGenerator {
    pub open spec fn view(&self) -> GenView {
        GenView {
            builder: self.builder,
            environments: self.environments,
            module: self.module@,
            cur: self.cur@,
            outer: frame_views(self.outer@),
        }
    }

    /// A generator for the code of a function. Its parameters are in scope.
    pub fn new(builder: MIRBuilder, module: Module, function: usize) -> (r: MIRGenerator)
        requires
            function < module@.functions.len(),
        ensures
            r@.builder == builder,
            r@.module == module@,
            r@.cur == (FrameView {
                function,
                scopes: seq![
                    parameter_scope(
                        module@.functions[function as int].parameters,
                        module@.functions[function as int].parameters.len(),
                    ),
                ],
                uninitialized: Set::empty(),
                current_loop: None,
                captured: Seq::empty(),
            }),
            r@.outer == Seq::<FrameView>::empty(),
            r.environments@.len() == 1,
            r.environments@[0]@ == Map::<Seq<char>, MIRVariable>::empty(),
            r@.wf(),
            module_ok(module@) ==> state_ok(r@),
    {
        let ghost parameters = module@.functions[function as int].parameters;
        let mut scope: StringHashMap<LocalVariable> = StringHashMap::new();
        assert(local_table(scope@) =~= Map::empty());
        let mut i: usize = 0;
        while i < module.functions[function].parameters.len()
            invariant
                function < module@.functions.len(),
                i <= module.functions@[function as int].parameters@.len(),
                parameters == module@.functions[function as int].parameters,
                local_table(scope@) == parameter_scope(parameters, i as nat),
            decreases module.functions@[function as int].parameters@.len() - i,
        {
            let parameter = module.functions[function].parameters[i].copy();
            assert(parameter@ == parameters[i as int]);
            proof {
                lemma_local_table_insert(scope@, name_text(parameter.name), parameter);
            }
            scope.insert(name_string(&parameter.name), parameter);
            i = i + 1;
        }
        let mut scopes: Vec<StringHashMap<LocalVariable>> = Vec::new();
        scopes.push(scope);
        let cur = Frame {
            function,
            scopes,
            uninitialized_this_members: StringHashSet::new(),
            current_loop: None,
            captured: Vec::new(),
        };
        assert(cur@.scopes =~= seq![parameter_scope(parameters, parameters.len())]);
        assert(cur@.captured =~= Seq::empty());
        let mut environments: Vec<StringHashMap<MIRVariable>> = Vec::new();
        environments.push(StringHashMap::new());
        let r = MIRGenerator { builder, environments, module, cur, outer: Vec::new() };
        assert(r@.outer =~= Seq::empty());
        proof {
            if module_ok(r@.module) {
                lemma_new_ok(r@);
            }
        }
        r
    }

    /// An error at a token.
    pub(crate) fn err(&self, token: &Token, msg: &str) -> (r: Error)
        ensures
            Failure::Error(r@) == self@.error(token@, msg@),
    {
        Error::new(self.builder.path.as_str(), token, msg)
    }

    /// Opens a scope.
    pub(crate) fn begin_scope(&mut self)
        ensures
            final(self)@ == old(self)@.begin_scope(),
            state_ok(old(self)@) ==> state_ok(final(self)@),
    {
        let scope = StringHashMap::new();
        assert(local_table(scope@) =~= Map::empty());
        self.cur.scopes.push(scope);
        assert(self@.cur.scopes =~= old(self)@.begin_scope().cur.scopes);
        proof {
            if state_ok(old(self)@) {
                lemma_begin_ok(old(self)@);
            }
        }
    }

    /// Closes the innermost scope.
    pub(crate) fn end_scope(&mut self)
        requires
            old(self)@.cur.scopes.len() > 0,
        ensures
            final(self)@ == old(self)@.end_scope(),
            state_ok(old(self)@) ==> state_ok(final(self)@),
    {
        self.cur.scopes.pop();
        assert(self@.cur.scopes =~= old(self)@.end_scope().cur.scopes);
        proof {
            if state_ok(old(self)@) {
                lemma_end_ok(old(self)@);
            }
        }
    }

    /// Puts an expression at the end of the current function.
    pub(crate) fn insert_at_ptr(&mut self, expr: Expr)
        requires
            old(self)@.wf(),
        ensures
            final(self)@ == old(self)@.insert_at_ptr(expr@),
            state_ok(old(self)@) && expr_ok(old(self)@.module.locals, expr@) ==> state_ok(
                final(self)@,
            ),
    {
        let f: usize = self.cur.function;
        proof {
            lemma_views_push(self.module.functions@[f as int].exprs@, expr);
        }
        self.module.functions[f].exprs.push(expr);
        assert(self@.module.functions =~= old(self)@.insert_at_ptr(expr@).module.functions);
        proof {
            if state_ok(old(self)@) && expr_ok(old(self)@.module.locals, expr@) {
                lemma_insert_ok(old(self)@, expr@);
            }
        }
    }

    /// Defines a variable in the innermost scope and in the current function.
    pub(crate) fn define_variable(&mut self, name: &Token, mutable: bool, ty: Type) -> (r:
        LocalVariable)
        requires
            old(self)@.wf(),
        ensures
            (final(self)@, r@) == old(self)@.define(name.lexeme@, mutable, ty),
            state_ok(old(self)@) ==> state_ok(final(self)@) && var_ok(
                final(self)@.module.locals,
                r@,
            ),
    {
        let ghost after = self@.define(name.lexeme@, mutable, ty).0;
        let f: usize = self.cur.function;
        let last: usize = self.cur.scopes.len() - 1;
        let var = LocalVariable {
            name: new_name(name.lexeme.as_str()),
            ty: ty.copy(),
            mutable,
            id: self.module.locals.len(),
        };
        self.module.locals.push(ty);
        assert(self.module.locals.len() == var.id + 1);
        self.module.functions[f].insert_var(new_name(name.lexeme.as_str()), var.copy());
        assert(self@.module.functions =~= after.module.functions);
        let scoped = var.copy();
        proof {
            lemma_local_table_insert(self.cur.scopes@[last as int]@, name.lexeme@, scoped);
        }
        self.cur.scopes[last].insert(name.lexeme.clone(), scoped);
        assert(self@.cur.scopes =~= after.cur.scopes);
        proof {
            if state_ok(old(self)@) {
                lemma_define_ok(old(self)@, name.lexeme@, mutable, ty);
            }
        }
        var
    }

    /// Finds the variable or function that a name stands for, and captures it if
    /// it belongs to a surrounding function.
    pub(crate) fn find_var(&mut self, name: &Token) -> (r: Option<Variable>)
        ensures
            final(self)@ == old(self)@.find_var(name.lexeme@).0,
            match r {
                Some(var) => old(self)@.find_var(name.lexeme@).1 == Some(var@),
                None => old(self)@.find_var(name.lexeme@).1 is None,
            },
            state_ok(old(self)@) ==> state_ok(final(self)@) && (r matches Some(var) ==> expr_ok(
                final(self)@.module.locals,
                ExprView::Variable(var@),
            )),
    {
        proof {
            if state_ok(self@) {
                lemma_find_ok(self@, name.lexeme@);
            }
        }
        if let Some(var) = self.cur.find(name.lexeme.as_str()) {
            return Some(Variable::Local(var));
        }
        let ghost before = self@;
        let mut i: usize = self.outer.len();
        assert(before.outer.take(i as int) =~= before.outer);
        while i > 0
            invariant
                i <= self.outer@.len(),
                self@ == before,
                before == old(self)@,
                in_scopes(before.cur.scopes, name.lexeme@) is None,
                in_outer(before.outer, name.lexeme@) == in_outer(
                    before.outer.take(i as int),
                    name.lexeme@,
                ),
            decreases i,
        {
            i = i - 1;
            let ghost frames = before.outer.take(i + 1);
            assert(frames.last() == self.outer@[i as int]@);
            assert(frames.drop_last() =~= before.outer.take(i as int));
            if let Some(var) = self.outer[i].find(name.lexeme.as_str()) {
                let ghost place = i as int;
                assert(in_outer(before.outer, name.lexeme@) == Some((place, var@)));
                let ghost after = before.find_var(name.lexeme@).0;
                self.cur.capture(&var);
                let mut j: usize = i + 1;
                while j < self.outer.len()
                    invariant
                        i < j <= self.outer@.len(),
                        place == i,
                        before == old(self)@,
                        self@ == (GenView { outer: self@.outer, ..after }),
                        self.outer@.len() == before.outer.len(),
                        after.outer.len() == before.outer.len(),
                        forall|k: int|
                            0 <= k < before.outer.len() ==> #[trigger] after.outer[k] == (if k
                                > place {
                                before.outer[k].capture(var@)
                            } else {
                                before.outer[k]
                            }),
                        forall|k: int|
                            0 <= k < before.outer.len() ==> #[trigger] self@.outer[k] == (if k
                                > place && k < j {
                                before.outer[k].capture(var@)
                            } else {
                                before.outer[k]
                            }),
                    decreases self.outer.len() - j,
                {
                    let ghost earlier = self@;
                    assert(self.outer@[j as int]@ == earlier.outer[j as int]);
                    self.outer[j].capture(&var);
                    assert(self@.outer =~= earlier.outer.update(
                        j as int,
                        earlier.outer[j as int].capture(var@),
                    ));
                    j = j + 1;
                }
                assert(self@.outer =~= after.outer);
                proof {
                    if state_ok(before) {
                        lemma_find_ok(before, name.lexeme@);
                    }
                }
                return Some(Variable::Local(var));
            }
        }
        match self.module.declarations.get(name.lexeme.as_str()) {
            Some(declaration) => match *declaration {
                Declaration::Function(f) => Some(
                    self.module.function_variable(Instance::new_(f)),
                ),
                Declaration::Adt(_) => None,
            },
            None => None,
        }
    }

    /// The variable for the result of the current loop, which is made where there
    /// is none.
    pub(crate) fn get_or_create_loop_var(&mut self, ty: &Type) -> (r: Res<LocalVariable>)
        requires
            old(self)@.wf(),
        ensures
            final(self)@ == old(self)@.loop_var(*ty).0,
            match r {
                Ok(var) => old(self)@.loop_var(*ty).1 == Ok::<_, Failure>(var@),
                Err(e) => old(self)@.loop_var(*ty).1 == Err::<LocalView, _>(Failure::Error(e@)),
            },
            state_ok(old(self)@) ==> state_ok(final(self)@) && (r matches Ok(var) ==> var_ok(
                final(self)@.module.locals,
                var@,
            )),
    {
        let known = match &self.cur.current_loop {
            Some(l) => match &l.result_var {
                Some(var) => Some(var.copy()),
                None => None,
            },
            None => None,
        };
        let var = match known {
            Some(var) => var,
            None => self.define_variable(
                &Token::generic_identifier("for-body".to_owned()),
                true,
                ty.copy(),
            ),
        };
        let ghost s1 = self@;
        proof {
            if state_ok(old(self)@) {
                lemma_current_loop_ok(old(self)@);
                lemma_loop_ok(s1, Some(Some(var@)));
            }
        }
        if var.ty.equals(ty) {
            self.cur.current_loop = Some(ForLoop { result_var: Some(var.copy()) });
            assert(self@ == s1.with_loop(Some(Some(var@))));
            Ok(var)
        } else {
            Err(
                self.err(
                    &Token::generic_token(TType::Break),
                    "Break expressions + for body must have same type",
                ),
            )
        }
    }
}

} // verus!
