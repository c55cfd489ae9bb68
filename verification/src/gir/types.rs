//! Types of the intermediate representation.
//!
//! Functions and data types are referred to by their number in the module's
//! tables. Lists of types are linked, so that two types that are written alike
//! are equal values.

use vstd::prelude::*;

verus! {

/// A list of types.
#[derive(Debug)]
pub enum TypeList {
    Nil,
    Cons(Box<Type>, Box<TypeList>),
}

/// A function or data type together with its type arguments.
#[derive(Debug)]
pub struct Instance {
    /// The number of the item.
    pub ty: usize,
    /// The arguments for the type parameters of the item.
    pub args: TypeList,
}

/// The type of closures.
#[derive(Debug)]
pub struct ClosureType {
    pub parameters: TypeList,
    pub ret_type: Box<Type>,
}

/// A type.
#[derive(Debug)]
pub enum Type {
    /// The type of expressions that never produce a value.
    Any,
    /// The type of expressions without a value, `None` in the source.
    NoneType,
    Bool,
    I8,
    I16,
    I32,
    I64,
    U8,
    U16,
    U32,
    U64,
    F32,
    F64,
    String,
    /// A function.
    Function(Instance),
    /// A closure.
    Closure(ClosureType),
    /// A value of a user-defined data type.
    Adt(Instance),
    /// A strong reference to a user-defined data type.
    StrongRef(Instance),
    /// A weak reference to a user-defined data type.
    WeakRef(Instance),
    /// A type used as an expression.
    Type(Box<Type>),
    /// The captured variables of a closure, by their number in the module.
    ClosureCaptured(usize),
    /// A type parameter of the surrounding item.
    TypeParam(usize),
}

/// How values of a data type are kept.
#[derive(Debug, Clone, Copy, PartialEq, Eq, Structural)]
pub enum TypeKind {
    /// By reference.
    Reference,
    /// In place.
    Value,
}

impl TypeList {
    /// The types of the list, in order.
    pub open spec fn view(&self) -> Seq<Type>
        decreases self,
    {
        match self {
            TypeList::Nil => Seq::empty(),
            TypeList::Cons(head, tail) => seq![**head] + tail.view(),
        }
    }

    /// The list with every type parameter replaced by its argument.
    pub open spec fn subst(self, args: TypeList) -> TypeList
        decreases self,
    {
        match self {
            TypeList::Nil => TypeList::Nil,
            TypeList::Cons(head, tail) => TypeList::Cons(
                Box::new(head.subst(args)),
                Box::new(tail.subst(args)),
            ),
        }
    }

    /// Do the lists hold the same types in the same order?
    pub fn equals(&self, other: &TypeList) -> (r: bool)
        ensures
            r == (*self == *other),
        decreases self,
    {
        match (self, other) {
            (TypeList::Nil, TypeList::Nil) => true,
            (TypeList::Cons(a, x), TypeList::Cons(b, y)) => a.equals(b) && x.equals(y),
            _ => false,
        }
    }

    /// A second list that is equal to this one.
    pub fn copy(&self) -> (r: TypeList)
        ensures
            r == *self,
        decreases self,
    {
        match self {
            TypeList::Nil => TypeList::Nil,
            TypeList::Cons(head, tail) => TypeList::Cons(
                Box::new(head.copy()),
                Box::new(tail.copy()),
            ),
        }
    }

    /// The list with every type parameter replaced by its argument.
    pub fn substitute(&self, args: &TypeList) -> (r: TypeList)
        ensures
            r == self.subst(*args),
        decreases self,
    {
        match self {
            TypeList::Nil => TypeList::Nil,
            TypeList::Cons(head, tail) => TypeList::Cons(
                Box::new(head.substitute(args)),
                Box::new(tail.substitute(args)),
            ),
        }
    }

    /// The type at a place of the list.
    pub fn get(&self, index: usize) -> (r: Option<&Type>)
        ensures
            r == (if index < self@.len() {
                Some(&self@[index as int])
            } else {
                None
            }),
        decreases self,
    {
        match self {
            TypeList::Nil => None,
            TypeList::Cons(head, tail) => if index == 0 {
                Some(&**head)
            } else {
                tail.get(index - 1)
            },
        }
    }

    /// The types of the list as a vector.
    pub fn to_vec(&self) -> (r: Vec<Type>)
        ensures
            r@ == self@,
    {
        let mut r: Vec<Type> = Vec::new();
        self.append_to(&mut r);
        r
    }

    /// Appends the types of the list to a vector.
    fn append_to(&self, types: &mut Vec<Type>)
        ensures
            final(types)@ == old(types)@ + self@,
        decreases self,
    {
        match self {
            TypeList::Nil => {},
            TypeList::Cons(head, tail) => {
                types.push(head.copy());
                tail.append_to(types);
            },
        }
    }

    /// The list of the types in a vector.
    pub fn from_vec(types: &Vec<Type>) -> (r: TypeList)
        ensures
            r == type_list(types@),
            r@ == types@,
    {
        let mut r = TypeList::Nil;
        let mut i: usize = types.len();
        while i > 0
            invariant
                i <= types@.len(),
                r == type_list(types@.skip(i as int)),
            decreases i,
        {
            i = i - 1;
            r = TypeList::Cons(Box::new(types[i].copy()), Box::new(r));
            assert(types@.skip(i as int).drop_first() =~= types@.skip(i + 1));
        }
        assert(types@.skip(0) =~= types@);
        proof {
            lemma_type_list(types@);
        }
        r
    }
}

/// The list of the types of a sequence.
pub open spec fn type_list(types: Seq<Type>) -> TypeList
    decreases types.len(),
{
    if types.len() == 0 {
        TypeList::Nil
    } else {
        TypeList::Cons(Box::new(types.first()), Box::new(type_list(types.drop_first())))
    }
}

/// The list of the types of a sequence holds just these types.
pub proof fn lemma_type_list(types: Seq<Type>)
    ensures
        type_list(types)@ == types,
    decreases types.len(),
{
    if types.len() > 0 {
        lemma_type_list(types.drop_first());
        assert(seq![types.first()] + types.drop_first() =~= types);
    }
}

/// The types with every type parameter replaced by its argument.
pub open spec fn subst_all(types: Seq<Type>, args: TypeList) -> Seq<Type> {
    types.map_values(|t: Type| t.subst(args))
}

impl Instance {
    /// The instance of an item without type arguments.
    pub open spec fn plain(ty: usize) -> Instance {
        Instance { ty, args: TypeList::Nil }
    }

    /// The instance with every type parameter replaced by its argument.
    pub open spec fn subst(self, args: TypeList) -> Instance
        decreases self,
    {
        Instance { ty: self.ty, args: self.args.subst(args) }
    }

    /// The instance of an item with type arguments.
    pub fn new(ty: usize, args: TypeList) -> (r: Instance)
        ensures
            r == (Instance { ty, args }),
    {
        Instance { ty, args }
    }

    /// The instance of an item without type arguments.
    pub fn new_(ty: usize) -> (r: Instance)
        ensures
            r == Instance::plain(ty),
    {
        Instance { ty, args: TypeList::Nil }
    }

    /// Is this the same item with the same arguments?
    pub fn equals(&self, other: &Instance) -> (r: bool)
        ensures
            r == (*self == *other),
        decreases self,
    {
        self.ty == other.ty && self.args.equals(&other.args)
    }

    /// A second instance that is equal to this one.
    pub fn copy(&self) -> (r: Instance)
        ensures
            r == *self,
        decreases self,
    {
        Instance { ty: self.ty, args: self.args.copy() }
    }

    /// The instance with every type parameter replaced by its argument.
    pub fn substitute(&self, args: &TypeList) -> (r: Instance)
        ensures
            r == self.subst(*args),
        decreases self,
    {
        Instance { ty: self.ty, args: self.args.substitute(args) }
    }
}

impl Type {
    /// Is this a numeric type? A boolean is a number of one bit.
    pub open spec fn number(self) -> bool {
        self.integer() || self is Bool || self is F32 || self is F64
    }

    /// Is this an integer type?
    pub open spec fn integer(self) -> bool {
        self.signed() || self is U8 || self is U16 || self is U32 || self is U64
    }

    /// Is this a signed integer type?
    pub open spec fn signed(self) -> bool {
        self is I8 || self is I16 || self is I32 || self is I64
    }

    /// The type with every type parameter replaced by its argument.
    pub open spec fn subst(self, args: TypeList) -> Type
        decreases self,
    {
        match self {
            Type::Function(inst) => Type::Function(inst.subst(args)),
            Type::Closure(closure) => Type::Closure(
                ClosureType {
                    parameters: closure.parameters.subst(args),
                    ret_type: Box::new(closure.ret_type.subst(args)),
                },
            ),
            Type::Adt(inst) => Type::Adt(inst.subst(args)),
            Type::StrongRef(inst) => Type::StrongRef(inst.subst(args)),
            Type::WeakRef(inst) => Type::WeakRef(inst.subst(args)),
            Type::Type(ty) => Type::Type(Box::new(ty.subst(args))),
            Type::TypeParam(index) => if index < args@.len() {
                args@[index as int]
            } else {
                self
            },
            _ => self,
        }
    }

    /// Is this the same type?
    pub fn equals(&self, other: &Type) -> (r: bool)
        ensures
            r == (*self == *other),
        decreases self,
    {
        match (self, other) {
            (Type::Any, Type::Any) => true,
            (Type::NoneType, Type::NoneType) => true,
            (Type::Bool, Type::Bool) => true,
            (Type::I8, Type::I8) => true,
            (Type::I16, Type::I16) => true,
            (Type::I32, Type::I32) => true,
            (Type::I64, Type::I64) => true,
            (Type::U8, Type::U8) => true,
            (Type::U16, Type::U16) => true,
            (Type::U32, Type::U32) => true,
            (Type::U64, Type::U64) => true,
            (Type::F32, Type::F32) => true,
            (Type::F64, Type::F64) => true,
            (Type::String, Type::String) => true,
            (Type::Function(a), Type::Function(b)) => a.equals(b),
            (Type::Closure(a), Type::Closure(b)) => a.parameters.equals(&b.parameters)
                && a.ret_type.equals(&b.ret_type),
            (Type::Adt(a), Type::Adt(b)) => a.equals(b),
            (Type::StrongRef(a), Type::StrongRef(b)) => a.equals(b),
            (Type::WeakRef(a), Type::WeakRef(b)) => a.equals(b),
            (Type::Type(a), Type::Type(b)) => a.equals(b),
            (Type::ClosureCaptured(a), Type::ClosureCaptured(b)) => *a == *b,
            (Type::TypeParam(a), Type::TypeParam(b)) => *a == *b,
            _ => false,
        }
    }

    /// A second type that is equal to this one.
    pub fn copy(&self) -> (r: Type)
        ensures
            r == *self,
        decreases self,
    {
        match self {
            Type::Any => Type::Any,
            Type::NoneType => Type::NoneType,
            Type::Bool => Type::Bool,
            Type::I8 => Type::I8,
            Type::I16 => Type::I16,
            Type::I32 => Type::I32,
            Type::I64 => Type::I64,
            Type::U8 => Type::U8,
            Type::U16 => Type::U16,
            Type::U32 => Type::U32,
            Type::U64 => Type::U64,
            Type::F32 => Type::F32,
            Type::F64 => Type::F64,
            Type::String => Type::String,
            Type::Function(inst) => Type::Function(inst.copy()),
            Type::Closure(closure) => Type::Closure(
                ClosureType {
                    parameters: closure.parameters.copy(),
                    ret_type: Box::new(closure.ret_type.copy()),
                },
            ),
            Type::Adt(inst) => Type::Adt(inst.copy()),
            Type::StrongRef(inst) => Type::StrongRef(inst.copy()),
            Type::WeakRef(inst) => Type::WeakRef(inst.copy()),
            Type::Type(ty) => Type::Type(Box::new(ty.copy())),
            Type::ClosureCaptured(id) => Type::ClosureCaptured(*id),
            Type::TypeParam(index) => Type::TypeParam(*index),
        }
    }

    /// The type with every type parameter replaced by its argument.
    pub fn substitute(&self, args: &TypeList) -> (r: Type)
        ensures
            r == self.subst(*args),
        decreases self,
    {
        match self {
            Type::Function(inst) => Type::Function(inst.substitute(args)),
            Type::Closure(closure) => Type::Closure(
                ClosureType {
                    parameters: closure.parameters.substitute(args),
                    ret_type: Box::new(closure.ret_type.substitute(args)),
                },
            ),
            Type::Adt(inst) => Type::Adt(inst.substitute(args)),
            Type::StrongRef(inst) => Type::StrongRef(inst.substitute(args)),
            Type::WeakRef(inst) => Type::WeakRef(inst.substitute(args)),
            Type::Type(ty) => Type::Type(Box::new(ty.substitute(args))),
            Type::TypeParam(index) => match args.get(*index) {
                Some(ty) => ty.copy(),
                None => Type::TypeParam(*index),
            },
            _ => self.copy(),
        }
    }

    /// Is this a numeric type? A boolean is a number of one bit.
    pub fn is_number(&self) -> (r: bool)
        ensures
            r == self.number(),
    {
        self.is_int() || matches!(*self, Type::Bool | Type::F32 | Type::F64)
    }

    /// Is this an integer type?
    pub fn is_int(&self) -> (r: bool)
        ensures
            r == self.integer(),
    {
        self.is_signed_int() || matches!(*self, Type::U8 | Type::U16 | Type::U32 | Type::U64)
    }

    /// Is this a signed integer type?
    pub fn is_signed_int(&self) -> (r: bool)
        ensures
            r == self.signed(),
    {
        matches!(*self, Type::I8 | Type::I16 | Type::I32 | Type::I64)
    }

    /// Is this the type of an expression that names a type?
    pub fn is_type(&self) -> (r: bool)
        ensures
            r == (*self is Type),
    {
        matches!(*self, Type::Type(_))
    }

    /// Can a variable hold values of this type?
    pub fn is_assignable(&self) -> (r: bool)
        ensures
            r == !(*self is Type),
    {
        !self.is_type()
    }
}

impl Clone for TypeList {
    fn clone(&self) -> (r: TypeList)
        ensures
            r == *self,
    {
        self.copy()
    }
}

impl Clone for Instance {
    fn clone(&self) -> (r: Instance)
        ensures
            r == *self,
    {
        self.copy()
    }
}

impl Clone for ClosureType {
    fn clone(&self) -> (r: ClosureType)
        ensures
            r == *self,
    {
        ClosureType {
            parameters: self.parameters.copy(),
            ret_type: Box::new(self.ret_type.copy()),
        }
    }
}

impl Clone for Type {
    fn clone(&self) -> (r: Type)
        ensures
            r == *self,
    {
        self.copy()
    }
}

} // verus!
