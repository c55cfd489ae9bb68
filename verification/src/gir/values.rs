//! What types values have, and what names stand for.

use crate::ast::Constant;
use crate::gir::declaration::{Declaration, FunctionView, LocalView, VariableView, Visibility, ADT};
use crate::gir::expression::{constant_type, ExprView};
use crate::gir::module::{primitive, Member, ModuleView};
use crate::gir::types::{subst_all, Instance, Type, TypeList};
use crate::index;
use crate::names::name_text;
use crate::text::{entry_name, law_entry_name_is_free};
use vstd::prelude::*;

verus! {

/// An expression has the type of what it gives: a block that of its last expression,
/// an operation that of its left operand or a boolean, a condition that of its
/// branch if it has a value, a loop that of the variable for its result, a store
/// that of what is stored.
pub proof fn law_expressions_have_the_type_of_their_value(e: ExprView)
    ensures
        match e {
            ExprView::Block(exprs) => if exprs.len() == 0 {
                e.ty() is NoneType
            } else {
                e.ty() == exprs.last().ty()
            },
            ExprView::Binary { left, operator, .. } => e.ty() == if operator.logical() {
                Type::Bool
            } else {
                left.ty()
            },
            ExprView::Unary { operator, right } => e.ty() == if operator is Bang {
                Type::Bool
            } else {
                right.ty()
            },
            ExprView::If { then_branch, phi, .. } => e.ty() == if phi {
                then_branch.ty()
            } else {
                Type::NoneType
            },
            ExprView::Loop { result_store, .. } => match result_store {
                Some(var) => e.ty() == var.ty,
                None => e.ty() is NoneType,
            },
            ExprView::Switch { ty, .. } => match ty {
                Some(ty) => e.ty() == ty,
                None => e.ty() is NoneType,
            },
            ExprView::Store { var, .. } => e.ty() == var.ty,
            ExprView::StoreField { value, .. } => e.ty() == value.ty(),
            ExprView::Cast { to, .. } => e.ty() == to,
            ExprView::Variable(var) => e.ty() == var.ty(),
            ExprView::TypeGet(ty) => e.ty() == Type::Type(Box::new(ty)),
            ExprView::Literal(constant) => e.ty() == constant_type(constant),
            ExprView::Break(_) => e.ty() is Any,
            ExprView::Return(_) => e.ty() is Any,
            ExprView::Allocate { ty, .. } => e.ty() == ty,
            ExprView::Call { ty, .. } => e.ty() == ty,
            ExprView::CallDyn { ty, .. } => e.ty() == ty,
            ExprView::Closure { ty, .. } => e.ty() == ty,
            ExprView::Load { ty, .. } => e.ty() == ty,
        },
{
}

/// Constants of different kinds have different types, and each kind has its own.
pub proof fn law_constants_are_told_apart_by_type(a: Constant, b: Constant)
    ensures
        constant_type(a) == constant_type(b) <==> match a {
            Constant::Any => b is Any,
            Constant::NoneValue => b is NoneValue,
            Constant::Bool(_) => b is Bool,
            Constant::I8(_) => b is I8,
            Constant::I16(_) => b is I16,
            Constant::I32(_) => b is I32,
            Constant::I64(_) => b is I64,
            Constant::U8(_) => b is U8,
            Constant::U16(_) => b is U16,
            Constant::U32(_) => b is U32,
            Constant::U64(_) => b is U64,
            Constant::F32(_) => b is F32,
            Constant::F64(_) => b is F64,
            Constant::String(_) => b is String,
        },
        a is I8 || a is I16 || a is I32 || a is I64 <==> constant_type(a).signed(),
        a is U8 || a is U16 || a is U32 || a is U64 <==> constant_type(a).integer()
            && !constant_type(a).signed(),
        a is F32 || a is F64 || a is Bool <==> constant_type(a).number() && !constant_type(
            a,
        ).integer(),
        a is String <==> constant_type(a) is String,
        a is NoneValue <==> constant_type(a) is NoneType,
        a is Bool <==> constant_type(a) is Bool,
{
}

/// A variable has its own name and type; a function has itself as its type. Only
/// mutable local variables can be assigned to, and two variables are the same if
/// they are one function or have one number.
pub proof fn law_variables_are_what_they_name(a: VariableView, b: VariableView)
    ensures
        match a {
            VariableView::Local(local) => a.ty() == local.ty && a.name() == local.name
                && a.assignable() == local.mutable && (a.same(b) <==> b is Local && b->Local_0.id
                == local.id),
            VariableView::Function { func, name } => a.ty() == Type::Function(func) && a.name()
                == name && !a.assignable() && (a.same(b) <==> b is Function && b->func == func),
        },
{
}

/// Private declarations are visible from their own module only, those of the module
/// from modules below the same root only, public ones from everywhere.
pub proof fn law_visibility_is_limited(own: Seq<Seq<char>>, from: Seq<Seq<char>>)
    ensures
        from != own ==> !Visibility::Private.allows(own, from),
        from.len() > 0 && own.len() > 0 && from[0] != own[0] ==> !Visibility::Module.allows(
            own,
            from,
        ),
        from.len() > 0 && own.len() > 0 && from[0] == own[0] ==> Visibility::Module.allows(
            own,
            from,
        ),
        Visibility::Public.allows(own, from),
{
}

/// Values of a data type are references exactly if it is kept by reference and is no
/// interface.
pub proof fn law_interfaces_are_no_references(adt: ADT)
    ensures
        adt.ty is Interface ==> !adt.reference(),
        adt.type_kind is Value ==> !adt.reference(),
        adt.type_kind is Reference && !(adt.ty is Interface) ==> adt.reference(),
{
}

/// A replacement goes through the types of a list one by one.
proof fn lemma_subst_list(types: TypeList, args: TypeList)
    ensures
        types.subst(args)@ =~= subst_all(types@, args),
    decreases types,
{
    match types {
        TypeList::Nil => {},
        TypeList::Cons(head, tail) => {
            lemma_subst_list(*tail, args);
            assert(types@ =~= seq![*head] + tail@);
            assert(types.subst(args)@ =~= seq![head.subst(args)] + tail.subst(args)@);
        },
    }
}

/// Are these the same item, with every type argument replaced?
pub open spec fn replaced(inst: Instance, now: Instance, args: TypeList) -> bool {
    &&& now.ty == inst.ty
    &&& now.args@.len() == inst.args@.len()
    &&& forall|i: int|
        0 <= i < inst.args@.len() ==> #[trigger] now.args@[i] == inst.args@[i].subst(args)
}

proof fn lemma_replaced(inst: Instance, args: TypeList)
    ensures
        replaced(inst, inst.subst(args), args),
{
    lemma_subst_list(inst.args, args);
    assert(inst.subst(args).args == inst.args.subst(args));
}

/// The replacement of type parameters reaches every part of a type, and changes
/// nothing else: the arguments of functions and data types, the parameters and the
/// result of closures, and the type of a type.
pub proof fn law_replacement_reaches_every_part(ty: Type, args: TypeList)
    ensures
        match ty {
            Type::Function(inst) => ty.subst(args) is Function && replaced(
                inst,
                ty.subst(args)->Function_0,
                args,
            ),
            Type::Adt(inst) => ty.subst(args) is Adt && replaced(inst, ty.subst(args)->Adt_0, args),
            Type::StrongRef(inst) => ty.subst(args) is StrongRef && replaced(
                inst,
                ty.subst(args)->StrongRef_0,
                args,
            ),
            Type::WeakRef(inst) => ty.subst(args) is WeakRef && replaced(
                inst,
                ty.subst(args)->WeakRef_0,
                args,
            ),
            Type::Closure(closure) => {
                let now = ty.subst(args)->Closure_0;
                &&& ty.subst(args) is Closure
                &&& *now.ret_type == closure.ret_type.subst(args)
                &&& now.parameters@.len() == closure.parameters@.len()
                &&& forall|i: int|
                    0 <= i < closure.parameters@.len() ==> #[trigger] now.parameters@[i]
                        == closure.parameters@[i].subst(args)
            },
            Type::Type(inner) => ty.subst(args) == Type::Type(Box::new(inner.subst(args))),
            Type::TypeParam(index) => ty.subst(args) == if index < args@.len() {
                args@[index as int]
            } else {
                ty
            },
            _ => ty.subst(args) == ty,
        },
{
    match ty {
        Type::Function(inst) => lemma_replaced(inst, args),
        Type::Adt(inst) => lemma_replaced(inst, args),
        Type::StrongRef(inst) => lemma_replaced(inst, args),
        Type::WeakRef(inst) => lemma_replaced(inst, args),
        Type::Closure(closure) => lemma_subst_list(closure.parameters, args),
        _ => {},
    }
}

/// A type of the language is found by the name that it is written with in messages,
/// and by no other.
pub proof fn law_types_are_found_by_their_text(module: ModuleView, name: Seq<char>)
    ensures
        match primitive(name) {
            Some(ty) => module.type_text(ty) == name && (ty.number() || ty is NoneType || ty
                is String),
            None => forall|ty: Type|
                ty.number() || ty is NoneType || ty is String ==> #[trigger] module.type_text(ty)
                    != name,
        },
{
    reveal_strlit("None");
    reveal_strlit("bool");
    reveal_strlit("i8");
    reveal_strlit("i16");
    reveal_strlit("i32");
    reveal_strlit("i64");
    reveal_strlit("u8");
    reveal_strlit("u16");
    reveal_strlit("u32");
    reveal_strlit("u64");
    reveal_strlit("f32");
    reveal_strlit("f64");
    reveal_strlit("String");
}

/// A data type and references to it are written with the name of the data type.
pub proof fn law_data_types_are_written_with_their_name(module: ModuleView, inst: Instance)
    requires
        inst.ty < module.adts.len(),
    ensures
        module.type_text(Type::Adt(inst)) == name_text(module.adts[inst.ty as int].name),
        module.type_text(Type::StrongRef(inst)) == name_text(module.adts[inst.ty as int].name),
        module.type_text(Type::WeakRef(inst)) == name_text(module.adts[inst.ty as int].name),
{
}

/// A name that is no type of the language stands for the data type that was declared
/// under it, and for no function.
pub proof fn law_declared_types_are_found(module: ModuleView, name: Seq<char>)
    requires
        primitive(name) is None,
    ensures
        module.find_type(name) is Some <==> module.declarations.contains_key(name)
            && module.declarations[name] is Adt,
        module.find_type(name) matches Some(ty) ==> (ty matches Type::Adt(inst) && inst.ty
            == module.declarations[name]->Adt_0 && inst.args@.len() == 0),
{
}

/// A member of a value is a field of its data type, or else a method, or else a
/// method of the interface, by the name; the type arguments of the value are those
/// of the member. Other values have no members.
pub proof fn law_members_belong_to_their_type(module: ModuleView, inst: Instance, name: Seq<char>)
    requires
        inst.ty < module.adts.len(),
    ensures
        ({
            let adt = module.adts[inst.ty as int];
            let field = index::lookup(index::entries(adt.fields), name);
            let method = index::lookup(index::entries(adt.methods), name);
            let dynamic = index::place(index::entries(adt.dyn_methods), name);
            let found = module.member(Type::Adt(inst), name);
            let is_field = field is Some && field->0 < adt.members@.len();
            &&& is_field ==> found == Some(
                Member::Field {
                    ty: adt.members@[field->0 as int].ty.subst(inst.args),
                    mutable: adt.members@[field->0 as int].mutable,
                    index: adt.members@[field->0 as int].index,
                },
            )
            &&& !is_field && method is Some ==> found == Some(
                Member::Method(Instance { ty: method->0, args: inst.args }),
            )
            &&& !is_field && method is None && dynamic is Some ==> found == Some(
                Member::Dynamic {
                    index: dynamic->0 as usize,
                    method: Instance {
                        ty: index::entries(adt.dyn_methods)[dynamic->0 as int].1,
                        args: inst.args,
                    },
                },
            )
            &&& !is_field && method is None && dynamic is None ==> found is None
        }),
{
}

/// Only values of data types have members.
pub proof fn law_only_data_types_have_members(module: ModuleView, ty: Type, name: Seq<char>)
    requires
        !(ty is Adt),
    ensures
        module.member(ty, name) is None,
{
}

/// A type can be called if it is one of a data type, and then stands for that data
/// type.
pub proof fn law_types_of_data_types_are_allocated(module: ModuleView, ty: Type)
    ensures
        module.allocated(ty) matches Some(inst) ==> ty == Type::Type(Box::new(Type::Adt(inst)))
            && inst.ty < module.adts.len(),
        ty matches Type::Type(inner) ==> *inner matches Type::Adt(inst) ==> inst.ty
            < module.adts.len() ==> module.allocated(ty) == Some(inst),
{
}

/// A variable goes into the table of its function under its name, or under a free
/// one that is made of it; all others keep their entries.
pub proof fn law_variables_keep_their_entries(
    function: FunctionView,
    name: Seq<char>,
    var: LocalView,
    other: Seq<char>,
)
    requires
        function.variables.dom().finite(),
    ensures
        ({
            let now = function.with_variable(name, var);
            let entry = entry_name(function.variables.dom(), name);
            &&& !function.variables.contains_key(entry)
            &&& !function.variables.contains_key(name) ==> entry == name
            &&& now.variables.contains_key(entry) && now.variables[entry] == var
            &&& function.variables.contains_key(other) ==> now.variables.contains_key(other)
                && now.variables[other] == function.variables[other]
            &&& now.exprs == function.exprs
            &&& now.parameters == function.parameters
            &&& now.ret_type == function.ret_type
        }),
{
    law_entry_name_is_free(function.variables.dom(), name);
}

/// An expression goes to the end of its function.
pub proof fn law_code_goes_to_the_end(function: FunctionView, expr: ExprView)
    ensures
        ({
            let now = function.with_expr(expr);
            &&& now.exprs.len() == function.exprs.len() + 1
            &&& now.exprs.last() == expr
            &&& now.exprs.drop_last() =~= function.exprs
            &&& now.variables == function.variables
            &&& now.parameters == function.parameters
        }),
{
}

/// A declaration without type arguments has itself as its type.
pub proof fn law_declarations_are_their_type(declaration: Declaration)
    ensures
        match declaration {
            Declaration::Adt(a) => declaration.as_type() matches Type::Adt(inst) && inst.ty == a
                && inst.args@.len() == 0,
            Declaration::Function(f) => declaration.as_type() matches Type::Function(inst)
                && inst.ty == f && inst.args@.len() == 0,
        },
{
}

} // verus!
