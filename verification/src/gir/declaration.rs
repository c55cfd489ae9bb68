//! Declarations: the top-level user-defined items of a module.

use crate::gir::expression::{views, Expr, ExprView};
use crate::gir::module::Module;
use crate::gir::types::{type_list, ClosureType, Instance, Type, TypeKind, TypeList};
use crate::hashing::hash_name;
use crate::index;
use crate::names::{name_string, name_text, name_texts, new_name, same_name};
use crate::table::Table;
use crate::text::{entry_name, same};
use indexmap::IndexMap;
use smol_str::SmolStr;
use std::rc::Rc;
use vstd::prelude::*;

verus! {

/// The path of a module.
#[derive(Debug)]
pub struct ModPath {
    pub parts: Vec<String>,
}

impl ModPath {
    /// The parts of the path, from the outermost module inwards.
    pub open spec fn view(&self) -> Seq<Seq<char>> {
        self.parts@.map_values(|p: String| p@)
    }

    /// The parts of the path, from the outermost module inwards.
    pub fn parts(&self) -> (r: &Vec<String>)
        ensures
            *r == self.parts,
    {
        &self.parts
    }

    /// Does the path consist of these parts?
    pub fn is(&self, parts: &Vec<String>) -> (r: bool)
        ensures
            r == (self@ == parts@.map_values(|p: String| p@)),
    {
        if self.parts.len() != parts.len() {
            assert(self@.len() != parts@.map_values(|p: String| p@).len());
            return false;
        }
        let mut i: usize = 0;
        while i < parts.len()
            invariant
                i <= parts@.len(),
                parts@.len() == self.parts@.len(),
                forall|j: int| 0 <= j < i ==> #[trigger] self.parts@[j]@ == parts@[j]@,
            decreases parts.len() - i,
        {
            if self.parts[i] != parts[i] {
                assert(self@[i as int] != parts@.map_values(|p: String| p@)[i as int]);
                return false;
            }
            i = i + 1;
        }
        assert(self@ =~= parts@.map_values(|p: String| p@));
        true
    }

    /// A second path with the same parts.
    pub fn copy(&self) -> (r: ModPath)
        ensures
            r@ == self@,
    {
        let mut parts: Vec<String> = Vec::new();
        let mut i: usize = 0;
        while i < self.parts.len()
            invariant
                i <= self.parts@.len(),
                parts@ == self.parts@.take(i as int),
            decreases self.parts.len() - i,
        {
            parts.push(self.parts[i].clone());
            assert(parts@ =~= self.parts@.take(i + 1));
            i = i + 1;
        }
        assert(parts@ =~= self.parts@);
        ModPath { parts }
    }
}

/// A declaration is a top-level user-defined item inside a module. This can be
/// either a function or an ADT, by its number in the module.
#[derive(Debug, Clone, Copy, PartialEq, Eq, Structural)]
pub enum Declaration {
    Function(usize),
    Adt(usize),
}

impl Declaration {
    /// The type of the declaration with no type arguments.
    pub open spec fn as_type(self) -> Type {
        match self {
            Declaration::Function(f) => Type::Function(Instance::plain(f)),
            Declaration::Adt(a) => Type::Adt(Instance::plain(a)),
        }
    }

    /// Is the declared item in the module?
    pub open spec fn valid(self, module: Module) -> bool {
        match self {
            Declaration::Function(f) => f < module.functions@.len(),
            Declaration::Adt(a) => a < module.adts@.len(),
        }
    }

    /// Does the declared item have type parameters?
    pub open spec fn generic(self, module: Module) -> bool {
        match self {
            Declaration::Function(f) => module.functions@[f as int].type_parameters@.len() > 0,
            Declaration::Adt(a) => module.adts@[a as int].type_parameters@.len() > 0,
        }
    }

    /// Returns the corresponding type for this declaration
    /// with no type arguments. Not sound for use in
    /// generated code due to this!
    pub fn to_type(&self) -> (r: Type)
        ensures
            r == self.as_type(),
    {
        match *self {
            Declaration::Function(f) => Type::Function(Instance::new_(f)),
            Declaration::Adt(a) => Type::Adt(Instance::new_(a)),
        }
    }

    /// Returns the type parameters on the declaration.
    pub fn type_parameters<'m>(&self, module: &'m Module) -> (r: &'m Vec<SmolStr>)
        requires
            self.valid(*module),
        ensures
            *r == match *self {
                Declaration::Function(f) => module.functions@[f as int].type_parameters,
                Declaration::Adt(a) => module.adts@[a as int].type_parameters,
            },
    {
        match *self {
            Declaration::Function(f) => &module.functions[f].type_parameters,
            Declaration::Adt(a) => &module.adts[a].type_parameters,
        }
    }

    /// Can the declaration be used from the given module?
    pub fn visible(&self, module: &Module, from: &ModPath) -> (r: bool)
        requires
            self.valid(*module),
            match *self {
                Declaration::Function(f) => module.functions@[f as int].visibility.defined(
                    module.functions@[f as int].module@,
                    from@,
                ),
                Declaration::Adt(a) => module.adts@[a as int].visibility.defined(
                    module.adts@[a as int].module@,
                    from@,
                ),
            },
        ensures
            r == match *self {
                Declaration::Function(f) => module.functions@[f as int].visibility.allows(
                    module.functions@[f as int].module@,
                    from@,
                ),
                Declaration::Adt(a) => module.adts@[a as int].visibility.allows(
                    module.adts@[a as int].module@,
                    from@,
                ),
            },
    {
        match *self {
            Declaration::Function(f) => module.functions[f].visible(from),
            Declaration::Adt(a) => module.adts[a].visible(from),
        }
    }
}

/// From where a declaration can be used.
#[derive(Debug, Clone, Copy, PartialEq, Eq, Structural)]
pub enum Visibility {
    /// From its own module.
    Private,
    /// From modules below the same root.
    Module,
    /// From everywhere.
    Public,
}

impl Visibility {
    /// Can the question be answered? Roots can be compared only where both
    /// paths have one.
    pub open spec fn defined(self, own: Seq<Seq<char>>, from: Seq<Seq<char>>) -> bool {
        self is Module ==> own.len() > 0 && from.len() > 0
    }

    /// Is a declaration of the module `own` visible from the module `from`?
    pub open spec fn allows(self, own: Seq<Seq<char>>, from: Seq<Seq<char>>) -> bool {
        match self {
            Visibility::Private => from == own,
            Visibility::Module => from[0] == own[0],
            Visibility::Public => true,
        }
    }

    /// Is this visibility visible from the given module?
    pub fn from(&self, own: &ModPath, from: &ModPath) -> (r: bool)
        requires
            self.defined(own@, from@),
        ensures
            r == self.allows(own@, from@),
    {
        match *self {
            Visibility::Private => from.is(own.parts()),
            Visibility::Module => {
                assert(own@[0] == own.parts@[0]@ && from@[0] == from.parts@[0]@);
                from.parts()[0] == own.parts()[0]
            },
            Visibility::Public => true,
        }
    }
}

/// Kind of an enum case.
#[derive(Debug, Clone, Copy, PartialEq, Eq, Structural)]
pub enum CaseType {
    /// Simply an identifier.
    Simple,
    /// A 'data case', a la `Name(val a: String, val b: i64)`.
    Data,
    /// A full case that behaves like a regular ADT.
    Adt,
}

/// The exact type of ADT.
/// Can also contain type-specific data.
#[derive(Clone)]
pub enum ADTType {
    /// A class definition.
    Class {
        /// If this class is external.
        external: bool,
    },
    /// An interface definition.
    Interface,
    /// An enum, with unknown case.
    Enum {
        /// All cases, by the number of their ADT.
        cases: Rc<Table<usize>>,
    },
    /// An enum with known case.
    EnumCase { parent: usize, ty: CaseType },
}

impl ADTType {
    /// An enum with its cases, by the numbers of their ADTs.
    pub fn new_enum(cases: Table<usize>) -> (r: ADTType)
        ensures
            r is Enum,
            *r->cases == cases,
    {
        ADTType::Enum { cases: Rc::new(cases) }
    }

    /// Returns the cases of an enum type.
    pub fn cases(&self) -> (r: &Table<usize>)
        requires
            self is Enum,
        ensures
            *r == *self->cases,
    {
        match self {
            ADTType::Enum { cases } => cases,
            _ => vstd::pervasive::unreached(),
        }
    }

    /// Is this an extern class?
    pub fn is_extern_class(&self) -> (r: bool)
        ensures
            r == (*self matches ADTType::Class { external } && external),
    {
        match self {
            ADTType::Class { external } => *external,
            _ => false,
        }
    }

    /// Does this type allow the default constructor with no arguments?
    pub fn allow_default_constructor(&self) -> (r: bool)
        ensures
            r == (self is Class || self is EnumCase),
    {
        matches!(self, ADTType::Class { .. } | ADTType::EnumCase { .. })
    }
}

/// Field on an ADT.
#[derive(Debug)]
pub struct Field {
    /// The name of the field.
    pub name: SmolStr,
    /// The visibility of the field.
    pub visibility: Visibility,
    /// If this field is mutable by user code. ("val" vs "var")
    pub mutable: bool,
    /// The type of this field, either specified or inferred by initializer
    pub ty: Type,
    /// The initializer for this field, if any.
    pub initializer: Option<Expr>,
    /// If this type had an initializer (it is captured and removed by the generator, so this is needed)
    pub initialized: bool,
    /// The index of the field inside the ADT.
    pub index: usize,
}

impl PartialEq for Field {
    fn eq(&self, other: &Self) -> (r: bool) {
        same_name(&self.name, &other.name)
    }
}

impl vstd::std_specs::cmp::PartialEqSpecImpl for Field {
    open spec fn obeys_eq_spec() -> bool {
        true
    }

    /// Fields are the same when their names are.
    open spec fn eq_spec(&self, other: &Self) -> bool {
        name_text(self.name) == name_text(other.name)
    }
}

impl Eq for Field {

}

impl std::hash::Hash for Field {
    /// Fields are hashed by what they are compared by: the name is fed to the hasher.
    fn hash<H: std::hash::Hasher>(&self, state: &mut H)
        ensures
            exists|s: &mut H|
                *s == *old(state) && call_ensures(hash_name::<H>, (&self.name, s), ())
                    && *final(s) == *final(state),
    {
        let feed = hash_name::<H>;
        feed(&self.name, state)
    }
}

/// A general purpose struct used for all user-defined data structures.
/// The ty field inside is used for further specialization.
pub struct ADT {
    /// The name of the ADT.
    pub name: SmolStr,
    /// All fields on the ADT, by their place in `members`.
    pub fields: IndexMap<String, usize>,
    /// The fields themselves.
    pub members: Vec<Field>,
    /// The visibility of this ADT, determining its ability to be imported.
    pub visibility: Visibility,
    /// The type kind of this ADT.
    pub type_kind: TypeKind,
    /// All methods of this ADT, by the number of their function.
    pub methods: IndexMap<String, usize>,
    /// All methods that are called through the interface, by the number of the
    /// function that has their signature.
    pub dyn_methods: IndexMap<String, usize>,
    /// All constructors of the ADT, by the number of their function. They are
    /// simply methods with special constraints to enforce safety.
    pub constructors: Vec<usize>,
    /// Type parameters on this ADT, if any.
    pub type_parameters: Vec<SmolStr>,
    /// The exact type of this ADT; used for holding specific info.
    pub ty: ADTType,
    /// The module this ADT was declared in
    pub module: ModPath,
}

impl ADT {
    /// Are values of the ADT references to it?
    pub open spec fn reference(self) -> bool {
        self.type_kind is Reference && !(self.ty is Interface)
    }

    /// An ADT without members.
    pub fn new(
        name: &str,
        visibility: Visibility,
        type_kind: TypeKind,
        ty: ADTType,
        module: ModPath,
    ) -> (r: ADT)
        ensures
            name_text(r.name) == name@,
            index::entries(r.fields) == Seq::<(Seq<char>, usize)>::empty(),
            r.members@ == Seq::<Field>::empty(),
            r.visibility == visibility,
            r.type_kind == type_kind,
            index::entries(r.methods) == Seq::<(Seq<char>, usize)>::empty(),
            index::entries(r.dyn_methods) == Seq::<(Seq<char>, usize)>::empty(),
            r.constructors@ == Seq::<usize>::empty(),
            r.type_parameters@ == Seq::<SmolStr>::empty(),
            r.ty == ty,
            r.module == module,
    {
        ADT {
            name: new_name(name),
            fields: index::new_table(),
            members: Vec::new(),
            visibility,
            type_kind,
            methods: index::new_table(),
            dyn_methods: index::new_table(),
            constructors: Vec::new(),
            type_parameters: Vec::new(),
            ty,
            module,
        }
    }

    /// Adds a field, which gets the next index.
    pub fn add_field(&mut self, name: &str, visibility: Visibility, mutable: bool, ty: Type)
        ensures
            final(self).members@.len() == old(self).members@.len() + 1,
            final(self).members@.drop_last() == old(self).members@,
            ({
                let field = final(self).members@.last();
                &&& name_text(field.name) == name@
                &&& field.visibility == visibility
                &&& field.mutable == mutable
                &&& field.ty == ty
                &&& field.initializer is None
                &&& !field.initialized
                &&& field.index == old(self).members@.len()
            }),
            index::entries(final(self).fields) == index::with_entry(
                index::entries(old(self).fields),
                name@,
                old(self).members@.len() as usize,
            ),
            *final(self) == (ADT {
                members: final(self).members,
                fields: final(self).fields,
                ..*old(self)
            }),
    {
        let index: usize = self.members.len();
        self.members.push(
            Field {
                name: new_name(name),
                visibility,
                mutable,
                ty,
                initializer: None,
                initialized: false,
                index,
            },
        );
        assert(self.members@.drop_last() =~= old(self).members@);
        index::insert(&mut self.fields, name.to_owned(), index);
    }

    /// Adds a method, or replaces the one of that name.
    pub fn add_method(&mut self, name: &str, function: usize)
        ensures
            index::entries(final(self).methods) == index::with_entry(
                index::entries(old(self).methods),
                name@,
                function,
            ),
            *final(self) == (ADT { methods: final(self).methods, ..*old(self) }),
    {
        index::insert(&mut self.methods, name.to_owned(), function);
    }

    /// Adds a method that is called through the interface, or replaces the one of
    /// that name.
    pub fn add_dyn_method(&mut self, name: &str, function: usize)
        ensures
            index::entries(final(self).dyn_methods) == index::with_entry(
                index::entries(old(self).dyn_methods),
                name@,
                function,
            ),
            *final(self) == (ADT { dyn_methods: final(self).dyn_methods, ..*old(self) }),
    {
        index::insert(&mut self.dyn_methods, name.to_owned(), function);
    }

    /// Are values of the ADT pointers?
    pub fn is_ptr(&self) -> (r: bool)
        ensures
            r == self.reference(),
    {
        self.type_kind == TypeKind::Reference && !matches!(self.ty, ADTType::Interface)
    }

    /// Are references to values of the ADT counted?
    pub fn refcounted(&self) -> (r: bool)
        ensures
            r == self.reference(),
    {
        self.is_ptr()
    }

    /// Can the ADT be used from the given module?
    pub fn visible(&self, from: &ModPath) -> (r: bool)
        requires
            self.visibility.defined(self.module@, from@),
        ensures
            r == self.visibility.allows(self.module@, from@),
    {
        self.visibility.from(&self.module, from)
    }

    /// The expression for the only value of a simple enum case.
    pub fn get_singleton_inst(adts: &Vec<ADT>, inst: usize, args: &TypeList) -> (r: Option<Expr>)
        requires
            inst < adts@.len(),
            adts@[inst as int].ty matches ADTType::EnumCase { ty, .. } && ty is Simple
                ==> adts@[inst as int].constructors@.len() > 0,
        ensures
            match adts@[inst as int].ty {
                ADTType::EnumCase { ty: CaseType::Simple, .. } => r matches Some(expr) && expr@
                    == (ExprView::Allocate {
                    ty: Type::Adt(Instance { ty: inst, args: *args }),
                    constructor: adts@[inst as int].constructors@[0],
                    args: Seq::empty(),
                }),
                _ => r is None,
            },
    {
        if let ADTType::EnumCase { ty, .. } = &adts[inst].ty {
            if *ty == CaseType::Simple {
                let expr = Expr::Allocate {
                    ty: Type::Adt(Instance::new(inst, args.copy())),
                    constructor: adts[inst].constructors[0],
                    args: Vec::new(),
                };
                assert(expr@->Allocate_args =~= Seq::<ExprView>::empty());
                Some(expr)
            } else {
                None
            }
        } else {
            None
        }
    }
}

/// A local variable scoped to a function, can be
/// function parameters or user-defined variables.
#[derive(Debug)]
pub struct LocalVariable {
    /// The name of the variable.
    pub name: SmolStr,
    /// Type of the variable.
    pub ty: Type,
    /// If it is mutable; user-decided on variables, false on fn arguments
    pub mutable: bool,
    /// The number of the variable, which no other variable has.
    pub id: usize,
}

/// A local variable as contracts speak of it.
pub ghost struct LocalView {
    pub name: Seq<char>,
    pub ty: Type,
    pub mutable: bool,
    pub id: usize,
}

impl LocalVariable {
    pub open spec fn view(&self) -> LocalView {
        LocalView {
            name: name_text(self.name),
            ty: self.ty,
            mutable: self.mutable,
            id: self.id,
        }
    }

    /// The same variable once more.
    pub fn copy(&self) -> (r: LocalVariable)
        ensures
            r@ == self@,
    {
        LocalVariable {
            name: self.name.clone(),
            ty: self.ty.copy(),
            mutable: self.mutable,
            id: self.id,
        }
    }
}

/// The views of a row of variables.
pub open spec fn local_views(vars: Seq<LocalVariable>) -> Seq<LocalView> {
    vars.map_values(|v: LocalVariable| v@)
}

/// The views of the variables in a table.
pub open spec fn local_table(vars: Map<Seq<char>, LocalVariable>) -> Map<Seq<char>, LocalView> {
    vars.map_values(|v: LocalVariable| v@)
}

/// A table with a new variable, seen through the views.
pub proof fn lemma_local_table_insert(
    vars: Map<Seq<char>, LocalVariable>,
    name: Seq<char>,
    var: LocalVariable,
)
    ensures
        local_table(vars.insert(name, var)) == local_table(vars).insert(name, var@),
        local_table(vars).dom() == vars.dom(),
{
    assert(local_table(vars.insert(name, var)) =~= local_table(vars).insert(name, var@));
    assert(local_table(vars).dom() =~= vars.dom());
}

/// A variable that can be loaded to produce a value by user code.
/// Can be either a global or local variable.
#[derive(Debug)]
pub enum Variable {
    /// This is a global function variable
    Function {
        func: Instance,
        /// The name of the function.
        name: SmolStr,
    },
    /// This is a local function-scoped variable
    Local(LocalVariable),
}

/// A variable as contracts speak of it.
pub ghost enum VariableView {
    Function { func: Instance, name: Seq<char> },
    Local(LocalView),
}

impl VariableView {
    /// The name of the variable.
    pub open spec fn name(self) -> Seq<char> {
        match self {
            VariableView::Function { name, .. } => name,
            VariableView::Local(local) => local.name,
        }
    }

    /// The type of the variable when loading it.
    pub open spec fn ty(self) -> Type {
        match self {
            VariableView::Function { func, .. } => Type::Function(func),
            VariableView::Local(local) => local.ty,
        }
    }

    /// Can this variable be assigned to?
    pub open spec fn assignable(self) -> bool {
        match self {
            VariableView::Function { .. } => false,
            VariableView::Local(local) => local.mutable,
        }
    }

    /// Are these the same variable?
    pub open spec fn same(self, other: VariableView) -> bool {
        match (self, other) {
            (VariableView::Function { func: f, .. }, VariableView::Function { func: o, .. }) => f
                == o,
            (VariableView::Local(f), VariableView::Local(o)) => f.id == o.id,
            _ => false,
        }
    }
}

impl Variable {
    pub open spec fn view(&self) -> VariableView {
        match self {
            Variable::Function { func, name } => VariableView::Function {
                func: *func,
                name: name_text(*name),
            },
            Variable::Local(local) => VariableView::Local(local@),
        }
    }

    /// The same variable once more.
    pub fn copy(&self) -> (r: Variable)
        ensures
            r@ == self@,
    {
        match self {
            Variable::Function { func, name } => Variable::Function {
                func: func.copy(),
                name: name.clone(),
            },
            Variable::Local(local) => Variable::Local(local.copy()),
        }
    }

    /// The name of the variable.
    pub fn get_name(&self) -> (r: SmolStr)
        ensures
            name_text(r) == self@.name(),
    {
        match self {
            Variable::Function { name, .. } => name.clone(),
            Variable::Local(local) => local.name.clone(),
        }
    }

    /// Returns the type of the variable when loading it.
    pub fn get_type(&self) -> (r: Type)
        ensures
            r == self@.ty(),
    {
        match self {
            Variable::Function { func, .. } => Type::Function(func.copy()),
            Variable::Local(local) => local.ty.copy(),
        }
    }

    /// Can this variable be assigned to?
    pub fn assignable(&self) -> (r: bool)
        ensures
            r == self@.assignable(),
    {
        match self {
            Variable::Function { .. } => false,
            Variable::Local(var) => var.mutable,
        }
    }
}

impl PartialEq for Variable {
    fn eq(&self, other: &Self) -> (r: bool) {
        match (self, other) {
            (Variable::Function { func: f, .. }, Variable::Function { func: o, .. }) => f.equals(o),
            (Variable::Local(f), Variable::Local(o)) => f.id == o.id,
            _ => false,
        }
    }
}

impl vstd::std_specs::cmp::PartialEqSpecImpl for Variable {
    open spec fn obeys_eq_spec() -> bool {
        true
    }

    open spec fn eq_spec(&self, other: &Self) -> bool {
        self@.same(other@)
    }
}

impl Eq for Variable {

}

impl std::hash::Hash for Variable {
    /// Variables are hashed by their names: the name is fed to the hasher.
    fn hash<H: std::hash::Hasher>(&self, state: &mut H)
        ensures
            exists|s: &mut H|
                *s == *old(state) && call_ensures(
                    hash_name::<H>,
                    (
                        match self {
                            Variable::Function { name, .. } => name,
                            Variable::Local(local) => &local.name,
                        },
                        s,
                    ),
                    (),
                ) && *final(s) == *final(state),
    {
        let feed = hash_name::<H>;
        match self {
            Variable::Function { name, .. } => feed(name, state),
            Variable::Local(local) => feed(&local.name, state),
        }
    }
}

/// A function.
pub struct Function {
    /// The name of the function.
    pub name: SmolStr,
    /// The visibility of the function.
    pub visibility: Visibility,
    /// All parameters needed to call this function.
    pub parameters: Vec<LocalVariable>,
    /// If this function is variadic and accepts additional parameters.
    pub variadic: bool,
    /// Type parameters on this function, if any.
    pub type_parameters: Vec<SmolStr>,
    /// A list of expressions that make up the func, executed in order.
    pub exprs: Vec<Expr>,
    /// All variables declared inside the function.
    pub variables: Table<LocalVariable>,
    /// The return type of the function; Type::NoneType if omitted.
    pub ret_type: Type,
    /// The module this was declared in.
    pub module: ModPath,
}

/// A function as contracts speak of it.
pub ghost struct FunctionView {
    pub name: Seq<char>,
    pub visibility: Visibility,
    pub parameters: Seq<LocalView>,
    pub variadic: bool,
    pub type_parameters: Seq<Seq<char>>,
    pub exprs: Seq<ExprView>,
    pub variables: Map<Seq<char>, LocalView>,
    pub ret_type: Type,
    pub module: Seq<Seq<char>>,
}

impl FunctionView {
    /// The function with a variable in its allocation table.
    pub open spec fn with_variable(self, name: Seq<char>, var: LocalView) -> FunctionView {
        FunctionView {
            variables: self.variables.insert(entry_name(self.variables.dom(), name), var),
            ..self
        }
    }

    /// The function with an expression at its end.
    pub open spec fn with_expr(self, expr: ExprView) -> FunctionView {
        FunctionView { exprs: self.exprs.push(expr), ..self }
    }

    /// The types of the parameters.
    pub open spec fn parameter_types(self) -> Seq<Type> {
        self.parameters.map_values(|p: LocalView| p.ty)
    }

    /// The type of closures that are made of the function. The first parameter,
    /// which holds the captured variables, is not part of it.
    pub open spec fn closure_type(self) -> Type {
        Type::Closure(
            ClosureType {
                parameters: type_list(
                    if self.parameters.len() == 0 {
                        Seq::empty()
                    } else {
                        self.parameter_types().skip(1)
                    },
                ),
                ret_type: Box::new(self.ret_type),
            },
        )
    }
}

impl Function {
    pub open spec fn view(&self) -> FunctionView {
        FunctionView {
            name: name_text(self.name),
            visibility: self.visibility,
            parameters: local_views(self.parameters@),
            variadic: self.variadic,
            type_parameters: name_texts(self.type_parameters@),
            exprs: views(self.exprs@),
            variables: local_table(self.variables@),
            ret_type: self.ret_type,
            module: self.module@,
        }
    }

    /// A public function without code and type parameters.
    pub fn new(name: &str, parameters: Vec<LocalVariable>, ret_type: Type, module: ModPath) -> (r:
        Function)
        ensures
            r@ == (FunctionView {
                name: name@,
                visibility: Visibility::Public,
                parameters: local_views(parameters@),
                variadic: false,
                type_parameters: Seq::empty(),
                exprs: Seq::empty(),
                variables: Map::empty(),
                ret_type,
                module: module@,
            }),
            r.module == module,
    {
        let r = Function {
            name: new_name(name),
            visibility: Visibility::Public,
            parameters,
            variadic: false,
            type_parameters: Vec::new(),
            exprs: Vec::new(),
            variables: Table::new(),
            ret_type,
            module,
        };
        assert(r@.type_parameters =~= Seq::empty());
        assert(r@.exprs =~= Seq::empty());
        assert(r@.variables =~= Map::empty());
        r
    }

    /// Can the function be used from the given module?
    pub fn visible(&self, from: &ModPath) -> (r: bool)
        requires
            self.visibility.defined(self.module@, from@),
        ensures
            r == self.visibility.allows(self.module@, from@),
    {
        self.visibility.from(&self.module, from)
    }

    /// Inserts a variable into the functions allocation table.
    /// Returns the name of it (should be used since a change can be needed due to colliding names).
    pub fn insert_var(&mut self, name: SmolStr, var: LocalVariable) -> (r: SmolStr)
        ensures
            final(self)@ == old(self)@.with_variable(name_text(name), var@),
            name_text(r) == entry_name(old(self)@.variables.dom(), name_text(name)),
            !old(self)@.variables.contains_key(name_text(r)),
            final(self)@.variables.len() == old(self)@.variables.len() + 1,
            *final(self) == (Function { variables: final(self).variables, ..*old(self) }),
    {
        proof {
            lemma_local_table_insert(self.variables@, name_text(name), var);
        }
        let key = self.variables.free_name(name_string(&name));
        proof {
            lemma_local_table_insert(self.variables@, key@, var);
        }
        let r = new_name(key.as_str());
        self.variables.insert(key, var);
        r
    }

    /// Returns the corresponding closure type for this function.
    /// Will not include the first parameter containing captures.
    pub fn to_closure_type(&self) -> (r: Type)
        ensures
            r == self@.closure_type(),
    {
        let mut types: Vec<Type> = Vec::new();
        let mut i: usize = 1;
        while i < self.parameters.len()
            invariant
                1 <= i,
                self.parameters@.len() > 0 ==> i <= self.parameters@.len() && types@
                    == self@.parameter_types().subrange(1, i as int),
                self.parameters@.len() == 0 ==> types@ == Seq::<Type>::empty(),
            decreases self.parameters.len() - i,
        {
            types.push(self.parameters[i].ty.copy());
            assert(types@ =~= self@.parameter_types().subrange(1, i + 1));
            i = i + 1;
        }
        proof {
            if self.parameters@.len() > 0 {
                assert(self@.parameter_types().skip(1) =~= types@);
            }
        }
        Type::Closure(
            ClosureType {
                parameters: TypeList::from_vec(&types),
                ret_type: Box::new(self.ret_type.copy()),
            },
        )
    }
}

impl Clone for LocalVariable {
    fn clone(&self) -> (r: LocalVariable)
        ensures
            r@ == self@,
    {
        self.copy()
    }
}

impl Clone for Variable {
    fn clone(&self) -> (r: Variable)
        ensures
            r@ == self@,
    {
        self.copy()
    }
}

} // verus!
