//! The state of the generator as contracts speak of it, and the steps that
//! change it.

use crate::error::ErrorView;
use crate::gir::declaration::{Declaration, FunctionView, LocalView, VariableView};
use crate::gir::expression::ExprView;
use crate::gir::module::ModuleView;
use crate::gir::types::{Instance, Type};
use crate::index;
use crate::lexer::token::{generated, TType, TokenView};
use crate::mir::builder::MIRBuilder;
use crate::mir::nodes::MIRVariable;
use vstd::hash_map::StringHashMap;
use vstd::prelude::*;

verus! {

/// Why no code could be generated.
pub ghost enum Failure {
    /// The source has an error.
    Error(ErrorView),
    /// What code needs is missing: a value in an array literal, the type of arrays
    /// with its method to append, or the type of a parameter of a closure.
    Missing,
}

/// Does what code needs not turn out to be missing?
pub open spec fn supported<T>(r: Result<T, Failure>) -> bool {
    !(r matches Err(Failure::Missing))
}

/// What belongs to one function that code is generated for.
pub ghost struct FrameView {
    /// The number of the function.
    pub function: usize,
    /// The variables in scope, from the outermost scope inwards.
    pub scopes: Seq<Map<Seq<char>, LocalView>>,
    /// The members of `this` that have no value yet.
    pub uninitialized: Set<Seq<char>>,
    /// The variable for the result of the current loop, inside a loop.
    pub current_loop: Option<Option<LocalView>>,
    /// The variables that were captured from surrounding functions.
    pub captured: Seq<LocalView>,
}

/// The state of the generator.
pub ghost struct GenView {
    /// What was declared in the file.
    pub builder: MIRBuilder,
    /// The variables that were declared in the file.
    pub environments: Vec<StringHashMap<MIRVariable>>,
    /// The module that code is generated into.
    pub module: ModuleView,
    /// The current function.
    pub cur: FrameView,
    /// The functions around it, from the outermost inwards.
    pub outer: Seq<FrameView>,
}

/// The innermost variable of a name in a row of scopes.
pub open spec fn in_scopes(scopes: Seq<Map<Seq<char>, LocalView>>, name: Seq<char>) -> Option<
    LocalView,
>
    decreases scopes.len(),
{
    if scopes.len() == 0 {
        None
    } else if scopes.last().contains_key(name) {
        Some(scopes.last()[name])
    } else {
        in_scopes(scopes.drop_last(), name)
    }
}

/// The innermost of the surrounding functions that has a variable of a name in
/// scope, by its place, and the variable.
pub open spec fn in_outer(outer: Seq<FrameView>, name: Seq<char>) -> Option<(int, LocalView)>
    decreases outer.len(),
{
    if outer.len() == 0 {
        None
    } else {
        match in_scopes(outer.last().scopes, name) {
            Some(var) => Some((outer.len() - 1, var)),
            None => in_outer(outer.drop_last(), name),
        }
    }
}

/// The captured variables with one more, unless it is there already.
pub open spec fn with_captured(captured: Seq<LocalView>, var: LocalView) -> Seq<LocalView> {
    if exists|i: int| 0 <= i < captured.len() && #[trigger] captured[i].id == var.id {
        captured
    } else {
        captured.push(var)
    }
}

impl FrameView {
    /// Is there a scope to put variables in, and does the function exist?
    pub open spec fn wf(self, functions: nat) -> bool {
        self.scopes.len() > 0 && self.function < functions
    }

    /// The function with one more captured variable.
    pub open spec fn capture(self, var: LocalView) -> FrameView {
        FrameView { captured: with_captured(self.captured, var), ..self }
    }

    /// The function with one more variable in the innermost scope.
    pub open spec fn bind(self, name: Seq<char>, var: LocalView) -> FrameView {
        FrameView {
            scopes: self.scopes.update(
                self.scopes.len() - 1,
                self.scopes.last().insert(name, var),
            ),
            ..self
        }
    }
}

impl GenView {
    /// Do all functions that code is generated for exist and have a scope?
    pub open spec fn wf(self) -> bool {
        &&& self.cur.wf(self.module.functions.len())
        &&& forall|i: int|
            0 <= i < self.outer.len() ==> (#[trigger] self.outer[i]).wf(
                self.module.functions.len(),
            )
    }

    /// The type of arrays is declared, and has a method to append an element.
    pub open spec fn array_ready(self) -> bool {
        &&& self.module.prototypes.contains_key("Array"@)
        &&& self.module.prototypes["Array"@] matches Declaration::Adt(adt) && adt
            < self.module.adts.len() && index::lookup(
            index::entries(self.module.adts[adt as int].methods),
            "push"@,
        ) is Some
    }

    /// What remains of the state when code for an expression has been generated.
    /// The declarations stay, all but the innermost scope stays, and code goes
    /// into the current function and into new ones only.
    pub open spec fn kept(self, before: GenView) -> bool {
        &&& self.builder == before.builder
        &&& self.environments == before.environments
        &&& self.module.adts == before.module.adts
        &&& self.module.prototypes == before.module.prototypes
        &&& self.module.operators == before.module.operators
        &&& before.module.locals.is_prefix_of(self.module.locals)
        &&& self.module.functions.len() >= before.module.functions.len()
        &&& forall|i: int|
            0 <= i < before.module.functions.len() && i != before.cur.function
                ==> #[trigger] self.module.functions[i] == before.module.functions[i]
        &&& self.module.functions[before.cur.function as int] == (FunctionView {
            exprs: self.module.functions[before.cur.function as int].exprs,
            variables: self.module.functions[before.cur.function as int].variables,
            ..before.module.functions[before.cur.function as int]
        })
        &&& self.cur.function == before.cur.function
        &&& self.cur.scopes.len() == before.cur.scopes.len()
        &&& self.cur.scopes.drop_last() == before.cur.scopes.drop_last()
        &&& self.cur.current_loop is Some == before.cur.current_loop is Some
        &&& self.outer.len() == before.outer.len()
        &&& forall|i: int|
            0 <= i < before.outer.len() ==> #[trigger] self.outer[i] == (FrameView {
                captured: self.outer[i].captured,
                ..before.outer[i]
            })
    }

    /// An error at a token.
    pub open spec fn error(self, token: TokenView, msg: Seq<char>) -> Failure {
        Failure::Error(ErrorView { path: self.builder.path@, token, msg })
    }

    /// The state with a new innermost scope.
    pub open spec fn begin_scope(self) -> GenView {
        GenView {
            cur: FrameView { scopes: self.cur.scopes.push(Map::empty()), ..self.cur },
            ..self
        }
    }

    /// The state without the innermost scope.
    pub open spec fn end_scope(self) -> GenView {
        GenView {
            cur: FrameView { scopes: self.cur.scopes.drop_last(), ..self.cur },
            ..self
        }
    }

    /// The state with another current loop.
    pub open spec fn with_loop(self, current_loop: Option<Option<LocalView>>) -> GenView {
        GenView { cur: FrameView { current_loop, ..self.cur }, ..self }
    }

    /// The current function.
    pub open spec fn function(self) -> FunctionView {
        self.module.functions[self.cur.function as int]
    }

    /// The state with another current function in the module.
    pub open spec fn with_function(self, function: FunctionView) -> GenView {
        GenView {
            module: ModuleView {
                functions: self.module.functions.update(self.cur.function as int, function),
                ..self.module
            },
            ..self
        }
    }

    /// The state with an expression at the end of the current function.
    pub open spec fn insert_at_ptr(self, expr: ExprView) -> GenView {
        self.with_function(self.function().with_expr(expr))
    }

    /// The variable that comes next.
    pub open spec fn next_local(self, name: Seq<char>, mutable: bool, ty: Type) -> LocalView {
        LocalView { name, ty, mutable, id: self.module.locals.len() as usize }
    }

    /// The state with the type of one more variable.
    pub open spec fn with_local(self, ty: Type) -> GenView {
        GenView {
            module: ModuleView { locals: self.module.locals.push(ty), ..self.module },
            ..self
        }
    }

    /// The state with a new variable in the innermost scope and in the current
    /// function, and that variable.
    pub open spec fn define(self, name: Seq<char>, mutable: bool, ty: Type) -> (
        GenView,
        LocalView,
    ) {
        let var = self.next_local(name, mutable, ty);
        let s = self.with_local(ty).with_function(self.function().with_variable(name, var));
        (GenView { cur: s.cur.bind(name, var), ..s }, var)
    }

    /// The variable or function that a name stands for. A variable of a
    /// surrounding function is captured by all functions inside that one.
    pub open spec fn find_var(self, name: Seq<char>) -> (GenView, Option<VariableView>) {
        match in_scopes(self.cur.scopes, name) {
            Some(var) => (self, Some(VariableView::Local(var))),
            None => match in_outer(self.outer, name) {
                Some((place, var)) => (
                    GenView {
                        cur: self.cur.capture(var),
                        outer: Seq::new(
                            self.outer.len(),
                            |i: int|
                                if i > place {
                                    self.outer[i].capture(var)
                                } else {
                                    self.outer[i]
                                },
                        ),
                        ..self
                    },
                    Some(VariableView::Local(var)),
                ),
                None => (
                    self,
                    if self.module.declarations.contains_key(name) {
                        match self.module.declarations[name] {
                            Declaration::Function(f) => Some(
                                self.module.function_variable(Instance::plain(f)),
                            ),
                            Declaration::Adt(_) => None,
                        }
                    } else {
                        None
                    },
                ),
            },
        }
    }

    /// The variable for the result of the current loop, which is made where there
    /// is none. Its type has to be the given one.
    pub open spec fn loop_var(self, ty: Type) -> (GenView, Result<LocalView, Failure>) {
        let (s, var) = match self.cur.current_loop {
            Some(Some(var)) => (self, var),
            _ => self.define("for-body"@, true, ty),
        };
        if var.ty == ty {
            (s.with_loop(Some(Some(var))), Ok(var))
        } else {
            (
                s,
                Err(
                    s.error(
                        generated(TType::Break, Seq::empty()),
                        "Break expressions + for body must have same type"@,
                    ),
                ),
            )
        }
    }
}

} // verus!
