//! The nodes of the middle representation.
//!
//! Structs and functions are referred to by their number in the builder's
//! tables.

use crate::ast::Constant;
use crate::hashing::hash_text;
use crate::lexer::token::TType;
use crate::mir::builder::MIRBuilder;
use crate::table::Table;
use crate::text::entry_name;
use vstd::hash_map::StringHashMap;
use vstd::prelude::*;

verus! {

/// All types in Gelix.
#[derive(Debug, Clone, Copy, PartialEq, Eq, Structural)]
pub enum MIRType {
    /// No value, `None` in the source.
    NoneType,
    Bool,
    Int,
    Float,
    Double,
    String,
    Function(usize),
    Struct(usize),
}

impl MIRType {
    /// A type as it is written.
    pub open spec fn text(self, builder: MIRBuilder) -> Seq<char> {
        match self {
            MIRType::NoneType => "None"@,
            MIRType::Bool => "bool"@,
            MIRType::Int => "i64"@,
            MIRType::Float => "f32"@,
            MIRType::Double => "f64"@,
            MIRType::String => "String"@,
            MIRType::Function(_) => "<func>"@,
            MIRType::Struct(struc) => builder.structs@[struc as int].name@,
        }
    }

    /// Writes the type.
    pub fn to_text(&self, builder: &MIRBuilder) -> (r: String)
        requires
            *self matches MIRType::Struct(struc) ==> struc < builder.structs@.len(),
        ensures
            r@ == self.text(*builder),
    {
        match *self {
            MIRType::NoneType => "None".to_owned(),
            MIRType::Bool => "bool".to_owned(),
            MIRType::Int => "i64".to_owned(),
            MIRType::Float => "f32".to_owned(),
            MIRType::Double => "f64".to_owned(),
            MIRType::String => "String".to_owned(),
            MIRType::Function(_) => "<func>".to_owned(),
            MIRType::Struct(struc) => builder.structs[struc].name.clone(),
        }
    }
}

/// A struct that represents a class.
pub struct MIRStruct {
    pub name: String,
    pub members: StringHashMap<MIRStructMem>,
    pub member_order: Vec<MIRStructMem>,
    pub super_struct: Option<usize>,
}

impl PartialEq for MIRStruct {
    fn eq(&self, other: &Self) -> (r: bool) {
        self.name == other.name
    }
}

impl vstd::std_specs::cmp::PartialEqSpecImpl for MIRStruct {
    open spec fn obeys_eq_spec() -> bool {
        true
    }

    /// Structs are the same when their names are.
    open spec fn eq_spec(&self, other: &Self) -> bool {
        self.name@ == other.name@
    }
}

/// A struct as contracts speak of it.
pub ghost struct MIRStructView {
    pub name: Seq<char>,
    pub members: Map<Seq<char>, MIRStructMem>,
    pub member_order: Seq<MIRStructMem>,
    pub super_struct: Option<usize>,
}

impl MIRStruct {
    pub open spec fn view(&self) -> MIRStructView {
        MIRStructView {
            name: self.name@,
            members: self.members@,
            member_order: self.member_order@,
            super_struct: self.super_struct,
        }
    }

    /// Do the table of members and their order agree, and has every member an
    /// index of its own?
    pub open spec fn wf(self) -> bool {
        &&& forall|name: Seq<char>| #[trigger]
            self.members@.contains_key(name) ==> self.member_order@.contains(self.members@[name])
        &&& forall|i: int|
            0 <= i < self.member_order@.len() ==> exists|name: Seq<char>| #[trigger]
                self.members@.contains_key(name) && self.members@[name]
                    == #[trigger] self.member_order@[i]
        &&& forall|i: int, j: int|
            0 <= i < j < self.member_order@.len() ==> #[trigger] self.member_order@[i].index
                != #[trigger] self.member_order@[j].index
    }

    /// Is this the name of a member with an index?
    pub open spec fn is_member(self, index: u32, name: Seq<char>) -> bool {
        self.members@.contains_key(name) && self.members@[name].index == index
    }

    /// The type of the member with an index.
    pub open spec fn member_type(self, index: u32) -> Option<MIRType> {
        if exists|name: Seq<char>| self.is_member(index, name) {
            Some(self.members@[choose|name: Seq<char>| self.is_member(index, name)]._type)
        } else {
            None
        }
    }

    /// The type of the member with an index.
    pub fn get_member_type(&self, index: u32) -> (r: Option<MIRType>)
        requires
            self.wf(),
        ensures
            r == self.member_type(index),
            match r {
                Some(ty) => exists|name: Seq<char>|
                    self.is_member(index, name) && self.members@[name]._type == ty,
                None => forall|name: Seq<char>| !self.is_member(index, name),
            },
    {
        let mut i: usize = 0;
        while i < self.member_order.len()
            invariant
                i <= self.member_order@.len(),
                self.wf(),
                forall|j: int|
                    0 <= j < i ==> (#[trigger] self.member_order@[j]).index != index,
            decreases self.member_order.len() - i,
        {
            if self.member_order[i].index == index {
                proof {
                    let name = choose|name: Seq<char>| #[trigger]
                        self.members@.contains_key(name) && self.members@[name]
                            == self.member_order@[i as int];
                    assert(self.is_member(index, name));
                    law_member_type(*self, name);
                }
                return Some(self.member_order[i]._type);
            }
            i = i + 1;
        }
        assert forall|name: Seq<char>| !self.is_member(index, name) by {
            if self.members@.contains_key(name) {
                assert(self.member_order@.contains(self.members@[name]));
            }
        }
        None
    }
}

/// A member of a struct.
#[derive(Debug, Clone, Copy, PartialEq, Eq, Structural)]
pub struct MIRStructMem {
    pub mutable: bool,
    pub _type: MIRType,
    pub index: u32,
}

/// A function in MIR. Consists of blocks.
pub struct MIRFunction {
    pub name: String,
    pub parameters: Vec<MIRVariable>,
    pub blocks: Table<MIRBlock>,
    pub variables: Table<MIRVariable>,
    pub ret_type: MIRType,
}

impl PartialEq for MIRFunction {
    fn eq(&self, other: &Self) -> (r: bool) {
        self.name == other.name
    }
}

impl vstd::std_specs::cmp::PartialEqSpecImpl for MIRFunction {
    open spec fn obeys_eq_spec() -> bool {
        true
    }

    /// Functions are the same when their names are.
    open spec fn eq_spec(&self, other: &Self) -> bool {
        self.name@ == other.name@
    }
}

/// A function as contracts speak of it.
pub ghost struct MIRFunctionView {
    pub name: Seq<char>,
    pub parameters: Seq<MIRVariableView>,
    pub blocks: Map<Seq<char>, MIRBlock>,
    pub variables: Map<Seq<char>, MIRVariableView>,
    pub ret_type: MIRType,
}

/// The views of a row of variables.
pub open spec fn variable_views(vars: Seq<MIRVariable>) -> Seq<MIRVariableView> {
    vars.map_values(|v: MIRVariable| v@)
}

/// The views of the variables in a table.
pub open spec fn variable_table(vars: Map<Seq<char>, MIRVariable>) -> Map<
    Seq<char>,
    MIRVariableView,
> {
    vars.map_values(|v: MIRVariable| v@)
}

impl MIRFunction {
    pub open spec fn view(&self) -> MIRFunctionView {
        MIRFunctionView {
            name: self.name@,
            parameters: variable_views(self.parameters@),
            blocks: self.blocks@,
            variables: variable_table(self.variables@),
            ret_type: self.ret_type,
        }
    }

    /// Appends a new block; will return the block name.
    /// The name can be different than the given one when it was already in use.
    pub fn append_block(&mut self, name: String) -> (r: String)
        ensures
            r@ == entry_name(old(self).blocks@.dom(), name@),
            !old(self).blocks@.contains_key(r@),
            final(self).blocks@.contains_key(r@),
            final(self).blocks@[r@].expressions@.len() == 0,
            final(self).blocks@[r@].last is ReturnNone,
            final(self).blocks@ == old(self).blocks@.insert(r@, final(self).blocks@[r@]),
            final(self).blocks@.len() == old(self).blocks@.len() + 1,
            *final(self) == (MIRFunction { blocks: final(self).blocks, ..*old(self) }),
    {
        let name = self.blocks.free_name(name);
        let r = name.clone();
        self.blocks.insert(
            name,
            MIRBlock { expressions: Vec::with_capacity(5), last: MIRFlow::ReturnNone },
        );
        r
    }

    /// Inserts a variable into the functions allocation table.
    /// Returns the name that it is found under.
    pub fn insert_var(&mut self, name: String, var: MIRVariable) -> (r: String)
        ensures
            r@ == entry_name(old(self).variables@.dom(), name@),
            !old(self).variables@.contains_key(r@),
            final(self).variables@ == old(self).variables@.insert(r@, var),
            final(self).variables@.len() == old(self).variables@.len() + 1,
            *final(self) == (MIRFunction { variables: final(self).variables, ..*old(self) }),
    {
        let name = self.variables.free_name(name);
        let r = name.clone();
        self.variables.insert(name, var);
        r
    }
}

/// A variable inside a function.
#[derive(Debug)]
pub struct MIRVariable {
    pub mutable: bool,
    pub _type: MIRType,
    pub name: String,
}

/// A variable as contracts speak of it.
pub ghost struct MIRVariableView {
    pub mutable: bool,
    pub _type: MIRType,
    pub name: Seq<char>,
}

impl MIRVariable {
    pub open spec fn view(&self) -> MIRVariableView {
        MIRVariableView { mutable: self.mutable, _type: self._type, name: self.name@ }
    }

    /// A variable of a type.
    pub fn new(name: String, _type: MIRType, mutable: bool) -> (r: MIRVariable)
        ensures
            r == (MIRVariable { mutable, _type, name }),
    {
        MIRVariable { name, _type, mutable }
    }
}

impl MIRVariable {
    /// The same variable once more.
    pub fn copy(&self) -> (r: MIRVariable)
        ensures
            r@ == self@,
    {
        MIRVariable { mutable: self.mutable, _type: self._type, name: self.name.clone() }
    }
}

impl std::hash::Hash for MIRVariable {
    /// Variables are hashed by their names: the name is fed to the hasher.
    fn hash<H: std::hash::Hasher>(&self, state: &mut H)
        ensures
            exists|s: &mut H|
                *s == *old(state) && call_ensures(hash_text::<H>, (&self.name, s), ())
                    && *final(s) == *final(state),
    {
        let feed = hash_text::<H>;
        feed(&self.name, state)
    }
}

/// A block inside a function.
#[derive(Debug)]
pub struct MIRBlock {
    pub expressions: Vec<MIRExpression>,
    pub last: MIRFlow,
}

/// The last part of a block.
#[derive(Debug)]
pub enum MIRFlow {
    /// Return void
    ReturnNone,
    /// Jump to another block
    Jump(String),
    /// Jump to another block conditionally
    Branch { condition: MIRExpression, then_b: String, else_b: String },
    /// Same as branch, but with a list of conditions.
    /// Jumps to the first that matches.
    Switch { cases: Vec<(MIRExpression, String)>, default: String },
    /// Return a value
    Return(MIRExpression),
}

/// All expressions in MIR. All of them produce a value.
#[allow(inconsistent_fields)]
#[derive(Debug)]
pub enum MIRExpression {
    /// Simply a binary operation between numbers.
    Binary { left: Box<MIRExpression>, operator: TType, right: Box<MIRExpression> },
    /// Casts a struct to another struct type.
    Bitcast { object: Box<MIRExpression>, goal: usize },
    /// A function call.
    Call { callee: Box<MIRExpression>, arguments: Vec<MIRExpression> },
    /// Simply produces the function as a value.
    Function(usize),
    /// A Phi node. Returns a different value based on
    /// which block the current block was reached from.
    Phi(Vec<(MIRExpression, String)>),
    /// Gets a member of a struct.
    StructGet { object: Box<MIRExpression>, index: u32 },
    /// Sets a member of a struct.
    StructSet { object: Box<MIRExpression>, index: u32, value: Box<MIRExpression> },
    /// Simply produces the literal as value.
    Literal(Constant),
    /// A unary expression on numbers.
    Unary { operator: TType, right: Box<MIRExpression> },
    /// Returns a variable.
    VarGet(MIRVariable),
    /// Stores a value inside a variable.
    VarStore { var: MIRVariable, value: Box<MIRExpression> },
}

impl MIRExpression {
    /// The type of a well-formed expression. A malformed one has none: a call of
    /// something else than a function, an empty phi node, a member that does not
    /// exist, a constant or an operator that there is no type for.
    pub open spec fn ty(self, builder: MIRBuilder) -> Option<MIRType>
        decreases self,
    {
        match self {
            MIRExpression::Binary { left, operator, .. } => if operator.logical() {
                Some(MIRType::Bool)
            } else {
                left.ty(builder)
            },
            MIRExpression::Bitcast { goal, .. } => Some(MIRType::Struct(goal)),
            MIRExpression::Call { callee, .. } => match callee.ty(builder) {
                Some(MIRType::Function(func)) => function_type(builder, func),
                _ => None,
            },
            MIRExpression::Function(func) => if func < builder.functions@.len() {
                Some(MIRType::Function(func))
            } else {
                None
            },
            MIRExpression::Phi(branches) => if branches@.len() > 0 {
                branches@[0].0.ty(builder)
            } else {
                None
            },
            MIRExpression::StructGet { object, index } => match object.ty(builder) {
                Some(ty) => struct_get_type(builder, ty, index),
                None => None,
            },
            MIRExpression::StructSet { object, index, .. } => match object.ty(builder) {
                Some(ty) => struct_get_type(builder, ty, index),
                None => None,
            },
            MIRExpression::Literal(literal) => match literal {
                Constant::NoneValue => Some(MIRType::NoneType),
                Constant::Bool(_) => Some(MIRType::Bool),
                Constant::I64(_) => Some(MIRType::Int),
                Constant::F32(_) => Some(MIRType::Float),
                Constant::F64(_) => Some(MIRType::Double),
                Constant::String(_) => Some(MIRType::String),
                _ => None,
            },
            MIRExpression::Unary { operator, right } => match operator {
                TType::Bang => Some(MIRType::Bool),
                TType::Minus => right.ty(builder),
                _ => None,
            },
            MIRExpression::VarGet(var) => Some(var._type),
            MIRExpression::VarStore { var, .. } => Some(var._type),
        }
    }

    /// Are the two expressions made of the same parts?
    pub open spec fn same(self, other: MIRExpression) -> bool
        decreases self,
    {
        match (self, other) {
            (
                MIRExpression::Binary { left, operator, right },
                MIRExpression::Binary { left: l, operator: o, right: r },
            ) => left.same(*l) && operator == o && right.same(*r),
            (
                MIRExpression::Bitcast { object, goal },
                MIRExpression::Bitcast { object: o, goal: g },
            ) => object.same(*o) && goal == g,
            (
                MIRExpression::Call { callee, arguments },
                MIRExpression::Call { callee: c, arguments: a },
            ) => callee.same(*c) && arguments@.len() == a@.len() && forall|i: int|
                0 <= i < arguments@.len() ==> (#[trigger] arguments@[i]).same(a@[i]),
            (MIRExpression::Function(f), MIRExpression::Function(o)) => f == o,
            (MIRExpression::Phi(branches), MIRExpression::Phi(b)) => branches@.len() == b@.len()
                && forall|i: int|
                0 <= i < branches@.len() ==> (#[trigger] branches@[i]).0.same(b@[i].0)
                    && branches@[i].1@ == b@[i].1@,
            (
                MIRExpression::StructGet { object, index },
                MIRExpression::StructGet { object: o, index: i },
            ) => object.same(*o) && index == i,
            (
                MIRExpression::StructSet { object, index, value },
                MIRExpression::StructSet { object: o, index: i, value: v },
            ) => object.same(*o) && index == i && value.same(*v),
            (MIRExpression::Literal(c), MIRExpression::Literal(o)) => c == o,
            (
                MIRExpression::Unary { operator, right },
                MIRExpression::Unary { operator: o, right: r },
            ) => operator == o && right.same(*r),
            (MIRExpression::VarGet(v), MIRExpression::VarGet(o)) => v@ == o@,
            (
                MIRExpression::VarStore { var, value },
                MIRExpression::VarStore { var: o, value: v },
            ) => var@ == o@ && value.same(*v),
            _ => false,
        }
    }

    /// The same expression once more.
    pub fn copy(&self) -> (r: MIRExpression)
        ensures
            r.same(*self),
        decreases *self, 0nat,
    {
        match self {
            MIRExpression::Binary { left, operator, right } => MIRExpression::Binary {
                left: Box::new(left.copy()),
                operator: *operator,
                right: Box::new(right.copy()),
            },
            MIRExpression::Bitcast { object, goal } => MIRExpression::Bitcast {
                object: Box::new(object.copy()),
                goal: *goal,
            },
            MIRExpression::Call { callee, arguments } => MIRExpression::Call {
                callee: Box::new(callee.copy()),
                arguments: MIRExpression::copy_all(arguments),
            },
            MIRExpression::Function(f) => MIRExpression::Function(*f),
            MIRExpression::Phi(branches) => MIRExpression::Phi(
                MIRExpression::copy_branches(branches),
            ),
            MIRExpression::StructGet { object, index } => MIRExpression::StructGet {
                object: Box::new(object.copy()),
                index: *index,
            },
            MIRExpression::StructSet { object, index, value } => MIRExpression::StructSet {
                object: Box::new(object.copy()),
                index: *index,
                value: Box::new(value.copy()),
            },
            MIRExpression::Literal(constant) => MIRExpression::Literal(constant.copy()),
            MIRExpression::Unary { operator, right } => MIRExpression::Unary {
                operator: *operator,
                right: Box::new(right.copy()),
            },
            MIRExpression::VarGet(var) => MIRExpression::VarGet(var.copy()),
            MIRExpression::VarStore { var, value } => MIRExpression::VarStore {
                var: var.copy(),
                value: Box::new(value.copy()),
            },
        }
    }

    fn copy_all(exprs: &Vec<MIRExpression>) -> (r: Vec<MIRExpression>)
        ensures
            r@.len() == exprs@.len(),
            forall|i: int| 0 <= i < r@.len() ==> (#[trigger] r@[i]).same(exprs@[i]),
        decreases *exprs, 1nat,
    {
        let mut r: Vec<MIRExpression> = Vec::new();
        let mut i: usize = 0;
        while i < exprs.len()
            invariant
                i <= exprs@.len(),
                r@.len() == i,
                forall|j: int| 0 <= j < i ==> (#[trigger] r@[j]).same(exprs@[j]),
            decreases exprs.len() - i,
        {
            assert(decreases_to!(exprs => exprs@[i as int]));
            r.push(exprs[i].copy());
            i = i + 1;
        }
        r
    }

    fn copy_branches(branches: &Vec<(MIRExpression, String)>) -> (r: Vec<(MIRExpression, String)>)
        ensures
            r@.len() == branches@.len(),
            forall|i: int|
                0 <= i < r@.len() ==> (#[trigger] r@[i]).0.same(branches@[i].0) && r@[i].1@
                    == branches@[i].1@,
        decreases *branches, 1nat,
    {
        let mut r: Vec<(MIRExpression, String)> = Vec::new();
        let mut i: usize = 0;
        while i < branches.len()
            invariant
                i <= branches@.len(),
                r@.len() == i,
                forall|j: int|
                    0 <= j < i ==> (#[trigger] r@[j]).0.same(branches@[j].0) && r@[j].1@
                        == branches@[j].1@,
            decreases branches.len() - i,
        {
            assert(decreases_to!(branches => branches@[i as int]));
            r.push((branches[i].0.copy(), branches[i].1.clone()));
            i = i + 1;
        }
        r
    }

    /// Returns the type of this MIRExpression.
    pub fn get_type(&self, builder: &MIRBuilder) -> (r: MIRType)
        requires
            self.ty(*builder) is Some,
        ensures
            Some(r) == self.ty(*builder),
        decreases self,
    {
        match self {
            MIRExpression::Binary { left, operator, .. } => {
                if operator.is_logical() {
                    MIRType::Bool
                } else {
                    left.get_type(builder)
                }
            },
            MIRExpression::Bitcast { goal, .. } => MIRType::Struct(*goal),
            MIRExpression::Call { callee, .. } => {
                match callee.get_type(builder) {
                    MIRType::Function(func) => builder.functions[func].ret_type,
                    _ => vstd::pervasive::unreached(),
                }
            },
            MIRExpression::Function(func) => MIRType::Function(*func),
            MIRExpression::Phi(branches) => {
                assert(decreases_to!(branches => branches@[0]));
                branches[0].0.get_type(builder)
            },
            MIRExpression::StructGet { object, index } => {
                MIRExpression::type_from_struct_get(object.get_type(builder), *index, builder)
            },
            MIRExpression::StructSet { object, index, .. } => {
                MIRExpression::type_from_struct_get(object.get_type(builder), *index, builder)
            },
            MIRExpression::Literal(literal) => match literal {
                Constant::NoneValue => MIRType::NoneType,
                Constant::Bool(_) => MIRType::Bool,
                Constant::I64(_) => MIRType::Int,
                Constant::F32(_) => MIRType::Float,
                Constant::F64(_) => MIRType::Double,
                Constant::String(_) => MIRType::String,
                _ => vstd::pervasive::unreached(),
            },
            MIRExpression::Unary { operator, right } => match *operator {
                TType::Bang => MIRType::Bool,
                TType::Minus => right.get_type(builder),
                _ => vstd::pervasive::unreached(),
            },
            MIRExpression::VarGet(var) => var._type,
            MIRExpression::VarStore { var, .. } => var._type,
        }
    }

    /// Returns the type of a struct member, by the type of the object.
    fn type_from_struct_get(object: MIRType, index: u32, builder: &MIRBuilder) -> (r: MIRType)
        requires
            struct_get_type(*builder, object, index) is Some,
        ensures
            Some(r) == struct_get_type(*builder, object, index),
    {
        match object {
            MIRType::Struct(struc) => match builder.structs[struc].get_member_type(index) {
                Some(ty) => ty,
                None => vstd::pervasive::unreached(),
            },
            _ => vstd::pervasive::unreached(),
        }
    }
}

/// The type that a function returns.
pub open spec fn function_type(builder: MIRBuilder, func: usize) -> Option<MIRType> {
    if func < builder.functions@.len() {
        Some(builder.functions@[func as int].ret_type)
    } else {
        None
    }
}

/// The type of a member of a struct, which has to be well-formed.
pub open spec fn struct_get_type(builder: MIRBuilder, object: MIRType, index: u32) -> Option<
    MIRType,
> {
    match object {
        MIRType::Struct(struc) => if struc < builder.structs@.len()
            && builder.structs@[struc as int].wf() {
            builder.structs@[struc as int].member_type(index)
        } else {
            None
        },
        _ => None,
    }
}

/// In a well-formed struct every member has its type by its index, whatever
/// order the members are looked at.
pub proof fn law_member_type(struc: MIRStruct, name: Seq<char>)
    requires
        struc.wf(),
        struc.members@.contains_key(name),
    ensures
        struc.member_type(struc.members@[name].index) == Some(struc.members@[name]._type),
{
    let index = struc.members@[name].index;
    assert(struc.is_member(index, name));
    let found = choose|found: Seq<char>| struc.is_member(index, found);
    let (i, j) = (
        choose|i: int|
            0 <= i < struc.member_order@.len() && struc.member_order@[i] == struc.members@[name],
        choose|j: int|
            0 <= j < struc.member_order@.len() && struc.member_order@[j] == struc.members@[found],
    );
    assert(struc.member_order@.contains(struc.members@[name]));
    assert(struc.member_order@.contains(struc.members@[found]));
    if i != j {
        assert(struc.member_order@[i].index != struc.member_order@[j].index);
    }
}

impl Clone for MIRExpression {
    fn clone(&self) -> (r: MIRExpression)
        ensures
            r.same(*self),
    {
        self.copy()
    }
}

impl Clone for MIRVariable {
    fn clone(&self) -> (r: MIRVariable)
        ensures
            r@ == self@,
    {
        self.copy()
    }
}

} // verus!
