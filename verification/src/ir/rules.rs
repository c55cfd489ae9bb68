//! What operations an expression becomes.

use crate::ast::Constant;
use crate::gir::declaration::{ADTType, Declaration, VariableView};
use crate::gir::expression::{CastType, ExprView};
use crate::gir::module::ModuleView;
use crate::gir::types::{Instance, Type};
use crate::index;
use crate::ir::ops::{IRType, NumberCast, OpView, Value};
use vstd::prelude::*;
use vstd::utf8::encode_utf8;

verus! {

/// The state of the backend.
pub ghost struct IRView {
    /// The module that is compiled.
    pub module: ModuleView,
    /// The operations so far.
    pub ops: Seq<OpView>,
    /// The types of the results so far, by their numbers.
    pub results: Seq<IRType>,
    /// The values that hold a reference, from the outermost scope inwards.
    pub locals: Seq<Seq<Value>>,
    /// The pointers to the variables, by the numbers of the variables.
    pub variables: Seq<Option<Value>>,
    /// Is there a place for the next operation? There is none behind a return.
    pub active: bool,
}

/// What an expression becomes: the state behind it and its value, if there is
/// code for it.
pub type Emitted<T> = Option<(IRView, T)>;

impl IRView {
    /// One more operation, where there is a place for it.
    pub open spec fn emit(self, op: OpView) -> IRView {
        if self.active {
            IRView { ops: self.ops.push(op), ..self }
        } else {
            self
        }
    }

    /// The result that comes next.
    pub open spec fn next(self, ty: IRType) -> Value {
        Value::Result { id: self.results.len() as usize, ty }
    }

    /// One more operation, with a result.
    pub open spec fn compute(self, op: OpView, ty: IRType) -> IRView {
        IRView { results: self.results.push(ty), ..self.emit(op) }
    }

    /// One more value that holds a reference.
    pub open spec fn with_local(self, value: Value) -> IRView {
        IRView {
            locals: self.locals.update(
                self.locals.len() - 1,
                self.locals.last().push(value),
            ),
            ..self
        }
    }

    /// A new scope.
    pub open spec fn push_scope(self) -> IRView {
        IRView { locals: self.locals.push(Seq::empty()), ..self }
    }

    /// One more reference to the first `n` values.
    pub open spec fn increment(self, values: Seq<Value>, n: nat) -> IRView
        decreases n,
    {
        if n == 0 {
            self
        } else {
            self.increment(values, (n - 1) as nat).emit(
                OpView::IncrementRefcount(values[n - 1]),
            )
        }
    }

    /// One reference to the first `n` values less.
    pub open spec fn decrement(self, values: Seq<Value>, n: nat) -> IRView
        decreases n,
    {
        if n == 0 {
            self
        } else {
            self.decrement(values, (n - 1) as nat).emit(
                OpView::DecrementRefcount(values[n - 1]),
            )
        }
    }

    /// One reference to the values of the first `n` scopes less.
    pub open spec fn decrement_scopes(self, scopes: Seq<Seq<Value>>, n: nat) -> IRView
        decreases n,
    {
        if n == 0 {
            self
        } else {
            self.decrement_scopes(scopes, (n - 1) as nat).decrement(
                scopes[n - 1],
                scopes[n - 1].len(),
            )
        }
    }

    /// The end of a scope. Its values are released, but for the one that lives on
    /// in the scope around it.
    pub open spec fn pop_lift(self, lift: Value) -> IRView {
        let s = self.emit(OpView::IncrementRefcount(lift));
        IRView { locals: s.locals.drop_last(), ..s }.decrement(
            s.locals.last(),
            s.locals.last().len(),
        ).with_local(lift)
    }
}

/// The type of values of a data type.
pub open spec fn adt_type(module: ModuleView, inst: Instance) -> IRType {
    if inst.ty < module.adts.len() && module.adts[inst.ty as int].reference() {
        IRType::Pointer
    } else {
        IRType::Struct(inst.ty)
    }
}

/// The type that a type has in the backend.
pub open spec fn ir_type(module: ModuleView, ty: Type) -> IRType {
    match ty {
        Type::Any => IRType::NoneType,
        Type::NoneType => IRType::NoneType,
        Type::Bool => IRType::Int(1),
        Type::I8 => IRType::Int(8),
        Type::U8 => IRType::Int(8),
        Type::I16 => IRType::Int(16),
        Type::U16 => IRType::Int(16),
        Type::I32 => IRType::Int(32),
        Type::U32 => IRType::Int(32),
        Type::I64 => IRType::Int(64),
        Type::U64 => IRType::Int(64),
        Type::F32 => IRType::Float(32),
        Type::F64 => IRType::Float(64),
        Type::Adt(inst) => adt_type(module, inst),
        Type::Type(_) => IRType::Int(64),
        _ => IRType::Pointer,
    }
}

/// The data type behind a value or a reference.
pub open spec fn referenced(ty: Type) -> Option<Instance> {
    match ty {
        Type::Adt(inst) => Some(inst),
        Type::StrongRef(inst) => Some(inst),
        Type::WeakRef(inst) => Some(inst),
        _ => None,
    }
}

/// The conversion from numbers of one type to another.
pub open spec fn number_cast(from: IRType, to: IRType, signed: bool) -> Option<NumberCast> {
    match (from, to) {
        (IRType::Int(_), IRType::Int(_)) => Some(NumberCast::Int),
        (IRType::Float(_), IRType::Float(_)) => Some(NumberCast::Float),
        (IRType::Float(_), IRType::Int(_)) => if signed {
            Some(NumberCast::FloatToSigned)
        } else {
            Some(NumberCast::FloatToUnsigned)
        },
        (IRType::Int(_), IRType::Float(_)) => if signed {
            Some(NumberCast::SignedToFloat)
        } else {
            Some(NumberCast::UnsignedToFloat)
        },
        _ => None,
    }
}

/// The name of the function that makes strings.
pub open spec fn string_builder() -> Seq<char> {
    "std/intrinsics::build_string_literal"@
}

/// A string: a call of the function that makes strings.
pub open spec fn emit_string(s: IRView, text: Seq<char>) -> Emitted<Value> {
    let size = encode_utf8(text).len();
    if s.module.declarations.contains_key(string_builder()) && size < usize::MAX {
        match s.module.declarations[string_builder()] {
            Declaration::Function(f) => {
                let chars = s.next(IRType::Pointer);
                let s1 = s.compute(
                    OpView::GlobalString { id: s.results.len() as usize, text },
                    IRType::Pointer,
                );
                let callee = s1.next(IRType::Pointer);
                let s2 = s1.compute(
                    OpView::FunctionPointer {
                        id: s1.results.len() as usize,
                        function: Instance::plain(f),
                    },
                    IRType::Pointer,
                );
                let length = Value::Int { bits: 64, value: (size + 1) as u64 };
                let string = s2.next(IRType::Pointer);
                let s3 = s2.compute(
                    OpView::Call {
                        id: s2.results.len() as usize,
                        callee,
                        arguments: seq![chars, length],
                    },
                    IRType::Pointer,
                );
                Some((s3.with_local(string), string))
            },
            Declaration::Adt(_) => None,
        }
    } else {
        None
    }
}

/// A constant.
pub open spec fn emit_literal(s: IRView, literal: Constant) -> Emitted<Value> {
    match literal {
        Constant::Any => Some((s, Value::NoneConst)),
        Constant::NoneValue => Some((s, Value::NoneConst)),
        Constant::Bool(value) => Some(
            (
                s,
                Value::Int {
                    bits: 1,
                    value: if value {
                        1
                    } else {
                        0
                    },
                },
            ),
        ),
        Constant::I8(num) => Some((s, Value::Int { bits: 8, value: num })),
        Constant::U8(num) => Some((s, Value::Int { bits: 8, value: num })),
        Constant::I16(num) => Some((s, Value::Int { bits: 16, value: num })),
        Constant::U16(num) => Some((s, Value::Int { bits: 16, value: num })),
        Constant::I32(num) => Some((s, Value::Int { bits: 32, value: num })),
        Constant::U32(num) => Some((s, Value::Int { bits: 32, value: num })),
        Constant::I64(num) => Some((s, Value::Int { bits: 64, value: num })),
        Constant::U64(num) => Some((s, Value::Int { bits: 64, value: num })),
        Constant::F32(num) => Some((s, Value::F32(num))),
        Constant::F64(num) => Some((s, Value::F64(num))),
        Constant::String(text) => emit_string(s, text@),
    }
}

/// The value of a variable.
pub open spec fn emit_variable(s: IRView, var: VariableView) -> Emitted<Value> {
    match var {
        VariableView::Local(local) => if local.id < s.variables.len() {
            match s.variables[local.id as int] {
                Some(pointer) => {
                    let ty = ir_type(s.module, local.ty);
                    Some(
                        (
                            s.compute(OpView::Load { id: s.results.len() as usize, pointer }, ty),
                            s.next(ty),
                        ),
                    )
                },
                None => None,
            }
        } else {
            None
        },
        VariableView::Function { func: function, .. } => Some(
            (
                s.compute(
                    OpView::FunctionPointer { id: s.results.len() as usize, function },
                    IRType::Pointer,
                ),
                s.next(IRType::Pointer),
            ),
        ),
    }
}

/// A weak reference out of a strong one: it points behind the count of
/// references. Extern classes have none.
pub open spec fn emit_weak(s: IRView, sr: Value, wr_ty: Type) -> Emitted<Value> {
    match referenced(wr_ty) {
        Some(inst) => if inst.ty < s.module.adts.len() {
            match s.module.adts[inst.ty as int].ty {
                ADTType::Class { external: true } => Some((s, sr)),
                _ => {
                    let gep = s.next(IRType::Pointer);
                    let s1 = s.compute(
                        OpView::StructGep {
                            id: s.results.len() as usize,
                            pointer: sr,
                            index: 1,
                        },
                        IRType::Pointer,
                    );
                    let to = ir_type(s.module, wr_ty);
                    Some(
                        (
                            s1.compute(
                                OpView::Bitcast {
                                    id: s1.results.len() as usize,
                                    value: gep,
                                    to,
                                },
                                to,
                            ),
                            s1.next(to),
                        ),
                    )
                },
            }
        } else {
            None
        },
        None => None,
    }
}

/// A value as another type. Values cannot be turned into interfaces.
pub open spec fn emit_cast(s: IRView, value: Value, to: Type, method: CastType) -> Emitted<Value> {
    let ty = ir_type(s.module, to);
    match method {
        CastType::ToInterface => None,
        CastType::Bitcast => Some(
            (
                s.compute(OpView::Bitcast { id: s.results.len() as usize, value, to: ty }, ty),
                s.next(ty),
            ),
        ),
        CastType::Number => match number_cast(value.ty(), ty, to.signed()) {
            Some(kind) => Some(
                (
                    s.compute(
                        OpView::ConvertNumber {
                            id: s.results.len() as usize,
                            kind,
                            value,
                            to: ty,
                        },
                        ty,
                    ),
                    s.next(ty),
                ),
            ),
            None => None,
        },
        CastType::ToValue => if value.ty() is Pointer {
            Some(
                (
                    s.compute(OpView::Load { id: s.results.len() as usize, pointer: value }, ty),
                    s.next(ty),
                ),
            )
        } else {
            None
        },
        CastType::StrongToWeak => if value.ty() is Pointer {
            emit_weak(s, value, to)
        } else {
            None
        },
    }
}

/// A return: the value lives on, all others are released.
pub open spec fn emit_return(s: IRView, value: Value) -> IRView {
    let s1 = s.emit(OpView::IncrementRefcount(value)).decrement_scopes(s.locals, s.locals.len());
    let s2 = s1.emit(
        if value.ty() is NoneType {
            OpView::ReturnVoid
        } else {
            OpView::Return(value)
        },
    );
    IRView { active: false, ..s2 }
}

/// A call with values. The result lives as long as the scope, the arguments as
/// long as the call.
pub open spec fn emit_call(s: IRView, callee: Value, arguments: Seq<Value>, ty: IRType) -> (
    IRView,
    Value,
) {
    let s1 = s.increment(arguments, arguments.len());
    let s2 = s1.compute(
        OpView::Call { id: s1.results.len() as usize, callee, arguments },
        ty,
    );
    let result = if ty is NoneType {
        Value::NoneConst
    } else {
        s1.next(ty)
    };
    (s2.with_local(result).decrement(arguments, arguments.len()), result)
}

/// An expression.
pub open spec fn emit_expr(s: IRView, expr: ExprView) -> Emitted<Value>
    decreases expr, 0nat,
{
    if !s.active {
        Some((s, Value::NoneConst))
    } else {
        match expr {
            ExprView::Block(block) => match emit_block(
                s.push_scope(),
                block,
                0,
                Value::NoneConst,
            ) {
                Some((s1, ret)) => Some((s1.pop_lift(ret), ret)),
                None => None,
            },
            ExprView::Literal(literal) => emit_literal(s, literal),
            ExprView::Variable(var) => emit_variable(s, var),
            ExprView::Call { callee, arguments, ty } => match emit_expr(s, *callee) {
                Some((s1, callee)) => if callee.ty() is Pointer {
                    match emit_all(s1, arguments, 0, Seq::empty()) {
                        Some((s2, values)) => Some(
                            emit_call(s2, callee, values, ir_type(s.module, ty)),
                        ),
                        None => None,
                    }
                } else {
                    None
                },
                None => None,
            },
            ExprView::Return(value) => match emit_expr(s, *value) {
                Some((s1, value)) => Some((emit_return(s1, value), Value::NoneConst)),
                None => None,
            },
            ExprView::Cast { inner, to, method } => match emit_expr(s, *inner) {
                Some((s1, value)) => emit_cast(s1, value, to, method),
                None => None,
            },
            _ => None,
        }
    }
}

/// The expressions of a block from a place on. The value is that of the last.
pub open spec fn emit_block(s: IRView, block: Seq<ExprView>, i: nat, ret: Value) -> Emitted<Value>
    decreases block, block.len() - i,
{
    if i >= block.len() {
        Some((s, ret))
    } else {
        match emit_expr(s, block[i as int]) {
            Some((s1, value)) => emit_block(s1, block, i + 1, value),
            None => None,
        }
    }
}

/// The values of expressions from a place on, behind those in `done`.
pub open spec fn emit_all(s: IRView, exprs: Seq<ExprView>, i: nat, done: Seq<Value>) -> Emitted<
    Seq<Value>,
>
    decreases exprs, exprs.len() - i,
{
    if i >= exprs.len() {
        Some((s, done))
    } else {
        match emit_expr(s, exprs[i as int]) {
            Some((s1, value)) => emit_all(s1, exprs, i + 1, done.push(value)),
            None => None,
        }
    }
}

/// The method that frees what is behind a reference; a null pointer stands for
/// types that need none.
pub open spec fn free_method(module: ModuleView, ty: Type) -> Option<Option<Instance>> {
    match ty {
        Type::StrongRef(inst) => match method_of(module, inst, "free-sr"@) {
            Some(method) => Some(Some(method)),
            None => None,
        },
        Type::WeakRef(inst) => match method_of(module, inst, "free-wr"@) {
            Some(method) => Some(Some(method)),
            None => None,
        },
        _ => Some(None),
    }
}

/// A method of a data type.
pub open spec fn method_of(module: ModuleView, inst: Instance, name: Seq<char>) -> Option<
    Instance,
> {
    if inst.ty < module.adts.len() {
        match index::lookup(index::entries(module.adts[inst.ty as int].methods), name) {
            Some(method) => Some(Instance { ty: method, args: inst.args }),
            None => None,
        }
    } else {
        None
    }
}

} // verus!
