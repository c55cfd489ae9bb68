//! A module: the tables of everything that is declared in it, and what can be
//! looked up there.

use crate::gir::declaration::{
    local_views, Declaration, Function, FunctionView, LocalVariable, LocalView, Variable,
    VariableView, ADT,
};
use crate::gir::types::{subst_all, Instance, Type};
use crate::index;
use crate::lexer::token::TType;
use crate::names::{name_string, name_text, new_name};
use crate::text::same;
use vstd::hash_map::StringHashMap;
use vstd::prelude::*;

verus! {

/// An implementation of an operator for two types.
#[derive(Debug)]
pub struct Operator {
    /// The operator.
    pub operator: TType,
    /// The type of the left operand.
    pub left: Type,
    /// The type of the right operand.
    pub right: Type,
    /// The number of the function that computes the result.
    pub method: usize,
}

/// What a call of a function needs and gives.
#[derive(Debug)]
pub struct Signature {
    pub parameters: Vec<Type>,
    pub ret_type: Type,
    pub variadic: bool,
}

/// A signature as contracts speak of it.
pub ghost struct SignatureView {
    pub parameters: Seq<Type>,
    pub ret_type: Type,
    pub variadic: bool,
}

impl Signature {
    pub open spec fn view(&self) -> SignatureView {
        SignatureView {
            parameters: self.parameters@,
            ret_type: self.ret_type,
            variadic: self.variadic,
        }
    }
}

/// What a name behind a dot stands for.
#[derive(Debug)]
pub enum Member {
    /// A field.
    Field { ty: Type, mutable: bool, index: usize },
    /// A method of the type.
    Method(Instance),
    /// A method that is called through the interface, by its place there.
    Dynamic { index: usize, method: Instance },
}

/// A module.
pub struct Module {
    /// All functions.
    pub functions: Vec<Function>,
    /// All data types.
    pub adts: Vec<ADT>,
    /// The declarations without type parameters, by their names.
    pub declarations: StringHashMap<Declaration>,
    /// The declarations with type parameters, by their names.
    pub prototypes: StringHashMap<Declaration>,
    /// The operators that are implemented for types of the module.
    pub operators: Vec<Operator>,
    /// The type of every local variable; its place is the number of the variable.
    pub locals: Vec<Type>,
    /// The captured variables of every closure.
    pub captures: Vec<Vec<LocalVariable>>,
}

/// A module as contracts speak of it.
pub ghost struct ModuleView {
    pub functions: Seq<FunctionView>,
    pub adts: Seq<ADT>,
    pub declarations: Map<Seq<char>, Declaration>,
    pub prototypes: Map<Seq<char>, Declaration>,
    pub operators: Seq<Operator>,
    pub locals: Seq<Type>,
    pub captures: Seq<Seq<LocalView>>,
}

/// The type that has a name of its own in the language.
pub open spec fn primitive(name: Seq<char>) -> Option<Type> {
    if name == "None"@ {
        Some(Type::NoneType)
    } else if name == "bool"@ {
        Some(Type::Bool)
    } else if name == "i8"@ {
        Some(Type::I8)
    } else if name == "i16"@ {
        Some(Type::I16)
    } else if name == "i32"@ {
        Some(Type::I32)
    } else if name == "i64"@ {
        Some(Type::I64)
    } else if name == "u8"@ {
        Some(Type::U8)
    } else if name == "u16"@ {
        Some(Type::U16)
    } else if name == "u32"@ {
        Some(Type::U32)
    } else if name == "u64"@ {
        Some(Type::U64)
    } else if name == "f32"@ {
        Some(Type::F32)
    } else if name == "f64"@ {
        Some(Type::F64)
    } else if name == "String"@ {
        Some(Type::String)
    } else {
        None
    }
}

/// The type that has a name of its own in the language.
pub fn find_primitive(name: &str) -> (r: Option<Type>)
    ensures
        r == primitive(name@),
{
    if same(name, "None") {
        Some(Type::NoneType)
    } else if same(name, "bool") {
        Some(Type::Bool)
    } else if same(name, "i8") {
        Some(Type::I8)
    } else if same(name, "i16") {
        Some(Type::I16)
    } else if same(name, "i32") {
        Some(Type::I32)
    } else if same(name, "i64") {
        Some(Type::I64)
    } else if same(name, "u8") {
        Some(Type::U8)
    } else if same(name, "u16") {
        Some(Type::U16)
    } else if same(name, "u32") {
        Some(Type::U32)
    } else if same(name, "u64") {
        Some(Type::U64)
    } else if same(name, "f32") {
        Some(Type::F32)
    } else if same(name, "f64") {
        Some(Type::F64)
    } else if same(name, "String") {
        Some(Type::String)
    } else {
        None
    }
}

impl ModuleView {
    /// A function as a variable, by its number and type arguments. Numbers that no
    /// function has come without a name.
    pub open spec fn function_variable(self, func: Instance) -> VariableView {
        VariableView::Function {
            func,
            name: if func.ty < self.functions.len() {
                self.functions[func.ty as int].name
            } else {
                Seq::empty()
            },
        }
    }

    /// The signature of a function with its type arguments, if there is one of
    /// that number.
    pub open spec fn signature(self, inst: Instance) -> Option<SignatureView> {
        if inst.ty < self.functions.len() {
            let function = self.functions[inst.ty as int];
            Some(
                SignatureView {
                    parameters: subst_all(function.parameter_types(), inst.args),
                    ret_type: function.ret_type.subst(inst.args),
                    variadic: function.variadic,
                },
            )
        } else {
            None
        }
    }

    /// What a value of the type needs and gives when it is called.
    pub open spec fn call_signature(self, ty: Type) -> Option<SignatureView> {
        match ty {
            Type::Function(inst) => self.signature(inst),
            Type::Closure(closure) => Some(
                SignatureView {
                    parameters: closure.parameters@,
                    ret_type: *closure.ret_type,
                    variadic: false,
                },
            ),
            _ => None,
        }
    }

    /// The type that a name stands for in the module.
    pub open spec fn find_type(self, name: Seq<char>) -> Option<Type> {
        match primitive(name) {
            Some(ty) => Some(ty),
            None => if self.declarations.contains_key(name) {
                match self.declarations[name] {
                    Declaration::Adt(_) => Some(self.declarations[name].as_type()),
                    Declaration::Function(_) => None,
                }
            } else {
                None
            },
        }
    }

    /// The member that a name stands for on values of a type: a field, or else a
    /// method, or else a method of the interface.
    pub open spec fn member(self, ty: Type, name: Seq<char>) -> Option<Member> {
        match ty {
            Type::Adt(inst) => if inst.ty < self.adts.len() {
                let adt = self.adts[inst.ty as int];
                match index::lookup(index::entries(adt.fields), name) {
                    Some(place) if place < adt.members@.len() => Some(
                        Member::Field {
                            ty: adt.members@[place as int].ty.subst(inst.args),
                            mutable: adt.members@[place as int].mutable,
                            index: adt.members@[place as int].index,
                        },
                    ),
                    _ => match index::lookup(index::entries(adt.methods), name) {
                        Some(method) => Some(
                            Member::Method(Instance { ty: method, args: inst.args }),
                        ),
                        None => match index::place(index::entries(adt.dyn_methods), name) {
                            Some(place) => Some(
                                Member::Dynamic {
                                    index: place as usize,
                                    method: Instance {
                                        ty: index::entries(adt.dyn_methods)[place as int].1,
                                        args: inst.args,
                                    },
                                },
                            ),
                            None => None,
                        },
                    },
                }
            } else {
                None
            },
            _ => None,
        }
    }

    /// The data type that a call of a type allocates.
    pub open spec fn allocated(self, ty: Type) -> Option<Instance> {
        match ty {
            Type::Type(inner) => match *inner {
                Type::Adt(inst) => if inst.ty < self.adts.len() {
                    Some(inst)
                } else {
                    None
                },
                _ => None,
            },
            _ => None,
        }
    }

    /// Does a constructor take these arguments, behind the value it works on?
    pub open spec fn accepts(self, constructor: Instance, args: Seq<Type>) -> bool {
        match self.signature(constructor) {
            Some(sig) => sig.parameters.len() == args.len() + 1 && sig.parameters.skip(1) == args,
            None => false,
        }
    }

    /// The first constructor from a place on that takes these arguments.
    pub open spec fn constructor_from(
        self,
        inst: Instance,
        args: Seq<Type>,
        i: nat,
    ) -> Option<usize>
        decreases self.adts[inst.ty as int].constructors@.len() - i,
    {
        let constructors = self.adts[inst.ty as int].constructors@;
        if i >= constructors.len() {
            None
        } else if self.accepts(Instance { ty: constructors[i as int], args: inst.args }, args) {
            Some(constructors[i as int])
        } else {
            self.constructor_from(inst, args, i + 1)
        }
    }

    /// Does an operator apply? A setter needs a third parameter, for the value.
    pub open spec fn applies(self, i: int, operator: TType, left: Type, right: Type) -> bool {
        let op = self.operators[i];
        &&& op.operator == operator
        &&& op.left == left
        &&& op.right == right
        &&& op.method < self.functions.len()
        &&& operator is RightBracket ==> self.functions[op.method as int].parameters.len() >= 3
    }

    /// The method of the first operator from a place on that applies.
    pub open spec fn operator_from(
        self,
        operator: TType,
        left: Type,
        right: Type,
        i: nat,
    ) -> Option<usize>
        decreases self.operators.len() - i,
    {
        if i >= self.operators.len() {
            None
        } else if self.applies(i as int, operator, left, right) {
            Some(self.operators[i as int].method)
        } else {
            self.operator_from(operator, left, right, i + 1)
        }
    }

    /// The method that implements an operator for two types. An inequality is the
    /// negation of the equality.
    pub open spec fn operator_method(self, operator: TType, left: Type, right: Type) -> Option<
        usize,
    > {
        self.operator_from(
            if operator is BangEqual {
                TType::EqualEqual
            } else {
                operator
            },
            left,
            right,
            0,
        )
    }

    /// The name of a data type.
    pub open spec fn adt_text(self, inst: Instance) -> Seq<char> {
        if inst.ty < self.adts.len() {
            name_text(self.adts[inst.ty as int].name)
        } else {
            "<type>"@
        }
    }

    /// A type as it is written in messages.
    pub open spec fn type_text(self, ty: Type) -> Seq<char> {
        match ty {
            Type::Any => "any"@,
            Type::NoneType => "None"@,
            Type::Bool => "bool"@,
            Type::I8 => "i8"@,
            Type::I16 => "i16"@,
            Type::I32 => "i32"@,
            Type::I64 => "i64"@,
            Type::U8 => "u8"@,
            Type::U16 => "u16"@,
            Type::U32 => "u32"@,
            Type::U64 => "u64"@,
            Type::F32 => "f32"@,
            Type::F64 => "f64"@,
            Type::String => "String"@,
            Type::Function(_) => "<func>"@,
            Type::Closure(_) => "<closure>"@,
            Type::Adt(inst) => self.adt_text(inst),
            Type::StrongRef(inst) => self.adt_text(inst),
            Type::WeakRef(inst) => self.adt_text(inst),
            Type::Type(_) => "<type>"@,
            Type::ClosureCaptured(_) => "<captured>"@,
            Type::TypeParam(_) => "<type parameter>"@,
        }
    }
}

/// The views of a row of functions.
pub open spec fn function_views(functions: Seq<Function>) -> Seq<FunctionView> {
    functions.map_values(|f: Function| f@)
}

/// The views of the captured variables of closures.
pub open spec fn capture_views(captures: Seq<Vec<LocalVariable>>) -> Seq<Seq<LocalView>> {
    captures.map_values(|c: Vec<LocalVariable>| local_views(c@))
}

impl Module {
    pub open spec fn view(&self) -> ModuleView {
        ModuleView {
            functions: function_views(self.functions@),
            adts: self.adts@,
            declarations: self.declarations@,
            prototypes: self.prototypes@,
            operators: self.operators@,
            locals: self.locals@,
            captures: capture_views(self.captures@),
        }
    }

    /// A module in which nothing is declared.
    pub fn new() -> (r: Module)
        ensures
            r@ == (ModuleView {
                functions: Seq::empty(),
                adts: Seq::empty(),
                declarations: Map::empty(),
                prototypes: Map::empty(),
                operators: Seq::empty(),
                locals: Seq::empty(),
                captures: Seq::empty(),
            }),
    {
        let r = Module {
            functions: Vec::new(),
            adts: Vec::new(),
            declarations: StringHashMap::new(),
            prototypes: StringHashMap::new(),
            operators: Vec::new(),
            locals: Vec::new(),
            captures: Vec::new(),
        };
        assert(r@.functions =~= Seq::empty());
        assert(r@.captures =~= Seq::empty());
        r
    }

    /// Adds a function, which gets the next number.
    pub fn add_function(&mut self, function: Function) -> (r: usize)
        ensures
            r == old(self)@.functions.len(),
            final(self)@ == (ModuleView {
                functions: old(self)@.functions.push(function@),
                ..old(self)@
            }),
    {
        let r: usize = self.functions.len();
        self.functions.push(function);
        assert(self@.functions =~= old(self)@.functions.push(function@));
        r
    }

    /// Adds a data type, which gets the next number.
    pub fn add_adt(&mut self, adt: ADT) -> (r: usize)
        ensures
            r == old(self)@.adts.len(),
            final(self)@ == (ModuleView { adts: old(self)@.adts.push(adt), ..old(self)@ }),
    {
        let r: usize = self.adts.len();
        self.adts.push(adt);
        r
    }

    /// Gives a declaration a name. One with type parameters is a prototype.
    pub fn declare(&mut self, name: &str, declaration: Declaration)
        requires
            declaration.valid(*old(self)),
        ensures
            if declaration.generic(*old(self)) {
                final(self)@ == (ModuleView {
                    prototypes: old(self)@.prototypes.insert(name@, declaration),
                    ..old(self)@
                })
            } else {
                final(self)@ == (ModuleView {
                    declarations: old(self)@.declarations.insert(name@, declaration),
                    ..old(self)@
                })
            },
    {
        if declaration.type_parameters(self).len() > 0 {
            self.prototypes.insert(name.to_owned(), declaration);
        } else {
            self.declarations.insert(name.to_owned(), declaration);
        }
    }

    /// Adds an operator.
    pub fn add_operator(&mut self, operator: Operator)
        ensures
            final(self)@ == (ModuleView {
                operators: old(self)@.operators.push(operator),
                ..old(self)@
            }),
    {
        self.operators.push(operator);
    }

    /// A new local variable.
    pub fn new_local(&mut self, name: &str, ty: Type, mutable: bool) -> (r: LocalVariable)
        ensures
            r@ == (LocalView {
                name: name@,
                ty,
                mutable,
                id: old(self)@.locals.len() as usize,
            }),
            final(self)@ == (ModuleView { locals: old(self)@.locals.push(ty), ..old(self)@ }),
    {
        let id: usize = self.locals.len();
        self.locals.push(ty.copy());
        LocalVariable { name: new_name(name), ty, mutable, id }
    }

    /// A function as a variable, by its number and type arguments.
    pub fn function_variable(&self, func: Instance) -> (r: Variable)
        ensures
            r@ == self@.function_variable(func),
    {
        let name = if func.ty < self.functions.len() {
            self.functions[func.ty].name.clone()
        } else {
            new_name("")
        };
        proof {
            reveal_strlit("");
            assert(""@ =~= Seq::empty());
        }
        Variable::Function { func, name }
    }

    /// The signature of a function with its type arguments.
    pub fn signature(&self, inst: &Instance) -> (r: Option<Signature>)
        ensures
            match r {
                Some(sig) => self@.signature(*inst) == Some(sig@),
                None => self@.signature(*inst) is None,
            },
    {
        if inst.ty >= self.functions.len() {
            return None;
        }
        let function = &self.functions[inst.ty];
        let ghost types = subst_all(function@.parameter_types(), inst.args);
        let mut parameters: Vec<Type> = Vec::new();
        let mut i: usize = 0;
        while i < function.parameters.len()
            invariant
                i <= function.parameters@.len(),
                types == subst_all(function@.parameter_types(), inst.args),
                parameters@ == types.take(i as int),
            decreases function.parameters.len() - i,
        {
            parameters.push(function.parameters[i].ty.substitute(&inst.args));
            assert(parameters@ =~= types.take(i + 1));
            i = i + 1;
        }
        assert(parameters@ =~= types);
        Some(
            Signature {
                parameters,
                ret_type: function.ret_type.substitute(&inst.args),
                variadic: function.variadic,
            },
        )
    }

    /// What a value of the type needs and gives when it is called.
    pub fn call_signature(&self, ty: &Type) -> (r: Option<Signature>)
        ensures
            match r {
                Some(sig) => self@.call_signature(*ty) == Some(sig@),
                None => self@.call_signature(*ty) is None,
            },
    {
        match ty {
            Type::Function(inst) => self.signature(inst),
            Type::Closure(closure) => Some(
                Signature {
                    parameters: closure.parameters.to_vec(),
                    ret_type: closure.ret_type.copy(),
                    variadic: false,
                },
            ),
            _ => None,
        }
    }

    /// The type that a name stands for in the module.
    pub fn find_type(&self, name: &str) -> (r: Option<Type>)
        ensures
            r == self@.find_type(name@),
    {
        match find_primitive(name) {
            Some(ty) => Some(ty),
            None => match self.declarations.get(name) {
                Some(declaration) => match *declaration {
                    Declaration::Adt(_) => Some(declaration.to_type()),
                    Declaration::Function(_) => None,
                },
                None => None,
            },
        }
    }

    /// The member that a name stands for on values of a type.
    pub fn member(&self, ty: &Type, name: &str) -> (r: Option<Member>)
        ensures
            r == self@.member(*ty, name@),
    {
        match ty {
            Type::Adt(inst) => {
                if inst.ty >= self.adts.len() {
                    return None;
                }
                let adt = &self.adts[inst.ty];
                if let Some(place) = index::get(&adt.fields, name) {
                    if place < adt.members.len() {
                        let field = &adt.members[place];
                        return Some(
                            Member::Field {
                                ty: field.ty.substitute(&inst.args),
                                mutable: field.mutable,
                                index: field.index,
                            },
                        );
                    }
                }
                if let Some(method) = index::get(&adt.methods, name) {
                    return Some(Member::Method(Instance::new(method, inst.args.copy())));
                }
                match index::get_index_of(&adt.dyn_methods, name) {
                    Some(place) => match index::get_index(&adt.dyn_methods, place) {
                        Some(method) => Some(
                            Member::Dynamic {
                                index: place,
                                method: Instance::new(method, inst.args.copy()),
                            },
                        ),
                        None => {
                            proof {
                                index::lemma_place(index::entries(adt.dyn_methods), name@);
                            }
                            None
                        },
                    },
                    None => None,
                }
            },
            _ => None,
        }
    }

    /// The data type that a call of a type allocates.
    pub fn allocated(&self, ty: &Type) -> (r: Option<Instance>)
        ensures
            r == self@.allocated(*ty),
    {
        match ty {
            Type::Type(inner) => match &**inner {
                Type::Adt(inst) => if inst.ty < self.adts.len() {
                    Some(inst.copy())
                } else {
                    None
                },
                _ => None,
            },
            _ => None,
        }
    }

    /// Does a constructor take these arguments, behind the value it works on?
    pub fn accepts(&self, constructor: &Instance, args: &Vec<Type>) -> (r: bool)
        ensures
            r == self@.accepts(*constructor, args@),
    {
        match self.signature(constructor) {
            Some(sig) => {
                if sig.parameters.len() == 0 || sig.parameters.len() - 1 != args.len() {
                    return false;
                }
                let mut i: usize = 0;
                while i < args.len()
                    invariant
                        i <= args@.len(),
                        sig.parameters@.len() == args@.len() + 1,
                        self@.signature(*constructor) == Some(sig@),
                        forall|j: int|
                            0 <= j < i ==> #[trigger] sig.parameters@.skip(1)[j] == args@[j],
                    decreases args.len() - i,
                {
                    if !sig.parameters[i + 1].equals(&args[i]) {
                        assert(sig.parameters@.skip(1)[i as int] != args@[i as int]);
                        return false;
                    }
                    i = i + 1;
                }
                assert(sig.parameters@.skip(1) =~= args@);
                true
            },
            None => false,
        }
    }

    /// The first constructor of a data type that takes these arguments.
    pub fn find_constructor(&self, inst: &Instance, args: &Vec<Type>) -> (r: Option<usize>)
        requires
            inst.ty < self@.adts.len(),
        ensures
            r == self@.constructor_from(*inst, args@, 0),
    {
        let constructors = &self.adts[inst.ty].constructors;
        let mut i: usize = 0;
        while i < constructors.len()
            invariant
                i <= constructors@.len(),
                inst.ty < self@.adts.len(),
                *constructors == self.adts@[inst.ty as int].constructors,
                self@.constructor_from(*inst, args@, 0) == self@.constructor_from(
                    *inst,
                    args@,
                    i as nat,
                ),
            decreases constructors.len() - i,
        {
            let constructor = Instance::new(constructors[i], inst.args.copy());
            if self.accepts(&constructor, args) {
                return Some(constructors[i]);
            }
            i = i + 1;
        }
        None
    }

    /// The method that implements an operator for two types.
    pub fn operator_method(&self, operator: TType, left: &Type, right: &Type) -> (r: Option<usize>)
        ensures
            r == self@.operator_method(operator, *left, *right),
            r matches Some(method) ==> method < self@.functions.len() && (operator is RightBracket
                ==> self@.functions[method as int].parameters.len() >= 3),
    {
        let wanted = if operator == TType::BangEqual {
            TType::EqualEqual
        } else {
            operator
        };
        let mut i: usize = 0;
        while i < self.operators.len()
            invariant
                i <= self.operators@.len(),
                wanted == (if operator is BangEqual {
                    TType::EqualEqual
                } else {
                    operator
                }),
                self@.operator_from(wanted, *left, *right, 0) == self@.operator_from(
                    wanted,
                    *left,
                    *right,
                    i as nat,
                ),
            decreases self.operators.len() - i,
        {
            let op = &self.operators[i];
            if op.operator == wanted && op.left.equals(left) && op.right.equals(right)
                && op.method < self.functions.len() && (wanted != TType::RightBracket
                || self.functions[op.method].parameters.len() >= 3) {
                assert(self@.applies(i as int, wanted, *left, *right));
                return Some(op.method);
            }
            assert(!self@.applies(i as int, wanted, *left, *right));
            i = i + 1;
        }
        None
    }

    /// A type as it is written in messages.
    pub fn type_text(&self, ty: &Type) -> (r: String)
        ensures
            r@ == self@.type_text(*ty),
    {
        match ty {
            Type::Any => "any".to_owned(),
            Type::NoneType => "None".to_owned(),
            Type::Bool => "bool".to_owned(),
            Type::I8 => "i8".to_owned(),
            Type::I16 => "i16".to_owned(),
            Type::I32 => "i32".to_owned(),
            Type::I64 => "i64".to_owned(),
            Type::U8 => "u8".to_owned(),
            Type::U16 => "u16".to_owned(),
            Type::U32 => "u32".to_owned(),
            Type::U64 => "u64".to_owned(),
            Type::F32 => "f32".to_owned(),
            Type::F64 => "f64".to_owned(),
            Type::String => "String".to_owned(),
            Type::Function(_) => "<func>".to_owned(),
            Type::Closure(_) => "<closure>".to_owned(),
            Type::Adt(inst) => self.adt_text(inst),
            Type::StrongRef(inst) => self.adt_text(inst),
            Type::WeakRef(inst) => self.adt_text(inst),
            Type::Type(_) => "<type>".to_owned(),
            Type::ClosureCaptured(_) => "<captured>".to_owned(),
            Type::TypeParam(_) => "<type parameter>".to_owned(),
        }
    }

    fn adt_text(&self, inst: &Instance) -> (r: String)
        ensures
            r@ == self@.adt_text(*inst),
    {
        if inst.ty < self.adts.len() {
            name_string(&self.adts[inst.ty].name)
        } else {
            "<type>".to_owned()
        }
    }
}

} // verus!
