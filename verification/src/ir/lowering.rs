//! What operations each kind of expression consists of, and what they work on.

use crate::ast::Constant;
use crate::gir::declaration::{ADTType, Declaration, LocalView, VariableView};
use crate::gir::expression::{constant_type, CastType, ExprView};
use crate::gir::module::ModuleView;
use crate::gir::types::{Instance, Type};
use crate::index;
use crate::ir::ops::{IRType, NumberCast, OpView, Value};
use crate::ir::rules::{
    emit_all, emit_block, emit_call, emit_cast, emit_expr, emit_return, emit_string, emit_weak,
    free_method, ir_type, number_cast, IRView,
};
use vstd::prelude::*;
use vstd::utf8::encode_utf8;

verus! {

/// Is there code for an expression?
pub open spec fn lowers(s: IRView, e: ExprView) -> bool {
    emit_expr(s, e) is Some
}

/// The state behind an expression.
pub open spec fn behind(s: IRView, e: ExprView) -> IRView {
    (emit_expr(s, e)->0).0
}

/// The value of an expression.
pub open spec fn value_of(s: IRView, e: ExprView) -> Value {
    (emit_expr(s, e)->0).1
}

/// Are these the values of expressions in a row, and the states between them?
pub open spec fn in_row(states: Seq<IRView>, exprs: Seq<ExprView>, values: Seq<Value>) -> bool {
    &&& states.len() == exprs.len() + 1
    &&& values.len() == exprs.len()
    &&& forall|i: int|
        0 <= i < exprs.len() ==> lowers(states[i], #[trigger] exprs[i]) && values[i] == value_of(
            states[i],
            exprs[i],
        ) && states[i + 1] == behind(states[i], exprs[i])
}

/// Were just these operations added, and results of these types?
pub open spec fn adds(before: IRView, now: IRView, ops: Seq<OpView>, types: Seq<IRType>) -> bool {
    &&& now.ops =~= before.ops + ops
    &&& now.results =~= before.results + types
    &&& now.module == before.module
    &&& now.variables == before.variables
}

/// The result with a number that is counted from the results so far.
pub open spec fn result(s: IRView, i: int, ty: IRType) -> Value {
    Value::Result { id: (s.results.len() + i) as usize, ty }
}

/// A local variable is one load from the pointer of that variable, and of no other,
/// with the type of the variable.
pub proof fn law_variables_are_loaded_from_their_own_pointer(s: IRView, var: LocalView)
    requires
        s.active,
    ensures
        ({
            let e = ExprView::Variable(VariableView::Local(var));
            let ty = ir_type(s.module, var.ty);
            &&& lowers(s, e) <==> var.id < s.variables.len() && s.variables[var.id as int] is Some
            &&& lowers(s, e) ==> adds(
                s,
                behind(s, e),
                seq![
                    OpView::Load {
                        id: s.results.len() as usize,
                        pointer: s.variables[var.id as int]->0,
                    },
                ],
                seq![ty],
            )
            &&& lowers(s, e) ==> value_of(s, e) == result(s, 0, ty)
            &&& lowers(s, e) ==> behind(s, e).locals == s.locals && behind(s, e).active
        }),
{
}

/// Variables with different pointers are loaded from different pointers.
pub proof fn law_different_variables_are_loaded_apart(s: IRView, a: LocalView, b: LocalView)
    requires
        s.active,
        a.id < s.variables.len(),
        b.id < s.variables.len(),
        s.variables[a.id as int] is Some,
        s.variables[b.id as int] is Some,
        s.variables[a.id as int] != s.variables[b.id as int],
    ensures
        ({
            let first = behind(s, ExprView::Variable(VariableView::Local(a))).ops.last();
            let second = behind(s, ExprView::Variable(VariableView::Local(b))).ops.last();
            first is Load && second is Load && first->Load_pointer != second->Load_pointer
        }),
{
    law_variables_are_loaded_from_their_own_pointer(s, a);
    law_variables_are_loaded_from_their_own_pointer(s, b);
}

/// A function as a value is one operation, the address of that function.
pub proof fn law_functions_are_their_address(s: IRView, func: Instance, name: Seq<char>)
    requires
        s.active,
    ensures
        ({
            let e = ExprView::Variable(VariableView::Function { func, name });
            &&& lowers(s, e)
            &&& adds(
                s,
                behind(s, e),
                seq![OpView::FunctionPointer { id: s.results.len() as usize, function: func }],
                seq![IRType::Pointer],
            )
            &&& value_of(s, e) == result(s, 0, IRType::Pointer)
            &&& behind(s, e).locals == s.locals && behind(s, e).active
        }),
{
}

/// A constant has the type of its kind, and needs no operation unless it is a
/// string.
pub proof fn law_constants_have_their_type(s: IRView, constant: Constant)
    requires
        s.active,
        !(constant is String),
    ensures
        ({
            let e = ExprView::Literal(constant);
            &&& lowers(s, e)
            &&& behind(s, e) == s
            &&& value_of(s, e).ty() == ir_type(s.module, constant_type(constant))
            &&& constant matches Constant::Bool(b) ==> value_of(s, e) == (Value::Int {
                bits: 1,
                value: if b {
                    1u64
                } else {
                    0
                },
            })
            &&& constant matches Constant::F32(bits) ==> value_of(s, e) == Value::F32(bits)
            &&& constant matches Constant::F64(bits) ==> value_of(s, e) == Value::F64(bits)
        }),
{
}

/// A string is made by the builder of strings, which gets the address of its
/// characters and their number, with the zero behind them. The scope holds it.
pub proof fn law_strings_are_built_from_their_text(s: IRView, text: String, builder: usize)
    requires
        s.active,
        s.locals.len() > 0,
        s.module.declarations.contains_key("std/intrinsics::build_string_literal"@),
        s.module.declarations["std/intrinsics::build_string_literal"@] == Declaration::Function(
            builder,
        ),
        encode_utf8(text@).len() < usize::MAX,
    ensures
        ({
            let e = ExprView::Literal(Constant::String(text));
            let n = s.results.len();
            let chars = result(s, 0, IRType::Pointer);
            let callee = result(s, 1, IRType::Pointer);
            let length = Value::Int { bits: 64, value: (encode_utf8(text@).len() + 1) as u64 };
            &&& lowers(s, e)
            &&& adds(
                s,
                behind(s, e),
                seq![
                    OpView::GlobalString { id: n as usize, text: text@ },
                    OpView::FunctionPointer {
                        id: (n + 1) as usize,
                        function: Instance::plain(builder),
                    },
                    OpView::Call {
                        id: (n + 2) as usize,
                        callee,
                        arguments: seq![chars, length],
                    },
                ],
                seq![IRType::Pointer, IRType::Pointer, IRType::Pointer],
            )
            &&& value_of(s, e) == result(s, 2, IRType::Pointer)
            &&& behind(s, e).locals.last() == s.locals.last().push(value_of(s, e))
            &&& behind(s, e).locals.drop_last() == s.locals.drop_last()
        }),
{
    let t = (emit_string(s, text@)->0).0;
    assert(t.locals.drop_last() =~= s.locals.drop_last());
    assert(t.ops =~= s.ops + seq![
        OpView::GlobalString { id: s.results.len() as usize, text: text@ },
        OpView::FunctionPointer {
            id: (s.results.len() + 1) as usize,
            function: Instance::plain(builder),
        },
        t.ops.last(),
    ]);
}

/// One operation for each of the values, in their order.
pub open spec fn increments(values: Seq<Value>) -> Seq<OpView> {
    Seq::new(values.len(), |i: int| OpView::IncrementRefcount(values[i]))
}

/// One operation for each of the values, in their order.
pub open spec fn decrements(values: Seq<Value>) -> Seq<OpView> {
    Seq::new(values.len(), |i: int| OpView::DecrementRefcount(values[i]))
}

proof fn lemma_increment(s: IRView, values: Seq<Value>, n: nat)
    requires
        s.active,
        n <= values.len(),
    ensures
        s.increment(values, n) == (IRView {
            ops: s.ops + increments(values.take(n as int)),
            ..s
        }),
    decreases n,
{
    if n > 0 {
        lemma_increment(s, values, (n - 1) as nat);
        assert(s.ops + increments(values.take(n as int)) =~= (s.ops + increments(
            values.take(n - 1),
        )).push(OpView::IncrementRefcount(values[n - 1])));
    } else {
        assert(s.ops + increments(values.take(0)) =~= s.ops);
    }
}

proof fn lemma_decrement(s: IRView, values: Seq<Value>, n: nat)
    requires
        s.active,
        n <= values.len(),
    ensures
        s.decrement(values, n) == (IRView {
            ops: s.ops + decrements(values.take(n as int)),
            ..s
        }),
    decreases n,
{
    if n > 0 {
        lemma_decrement(s, values, (n - 1) as nat);
        assert(s.ops + decrements(values.take(n as int)) =~= (s.ops + decrements(
            values.take(n - 1),
        )).push(OpView::DecrementRefcount(values[n - 1])));
    } else {
        assert(s.ops + decrements(values.take(0)) =~= s.ops);
    }
}

proof fn lemma_row_front(states: Seq<IRView>, exprs: Seq<ExprView>, values: Seq<Value>)
    requires
        in_row(states, exprs, values),
        exprs.len() > 0,
    ensures
        in_row(states.drop_last(), exprs.drop_last(), values.drop_last()),
        lowers(states[exprs.len() - 1], exprs.last()),
        values.last() == value_of(states[exprs.len() - 1], exprs.last()),
        states.last() == behind(states[exprs.len() - 1], exprs.last()),
{
    assert forall|i: int| 0 <= i < exprs.drop_last().len() implies lowers(
        states.drop_last()[i],
        #[trigger] exprs.drop_last()[i],
    ) && values.drop_last()[i] == value_of(states.drop_last()[i], exprs.drop_last()[i])
        && states.drop_last()[i + 1] == behind(states.drop_last()[i], exprs.drop_last()[i]) by {
        assert(exprs.drop_last()[i] == exprs[i]);
    }
    assert(exprs.last() == exprs[exprs.len() - 1]);
}

proof fn lemma_all(
    exprs: Seq<ExprView>,
    k: nat,
    states: Seq<IRView>,
    values: Seq<Value>,
    done: Seq<Value>,
)
    requires
        k <= exprs.len(),
        in_row(states, exprs.take(k as int), values),
    ensures
        emit_all(states[0], exprs, 0, done) == emit_all(
            states[k as int],
            exprs,
            k,
            done + values,
        ),
    decreases k,
{
    let front = exprs.take(k as int);
    if k > 0 {
        let j = (k - 1) as nat;
        lemma_row_front(states, front, values);
        assert(front.drop_last() =~= exprs.take(j as int));
        lemma_all(exprs, j, states.drop_last(), values.drop_last(), done);
        assert(front.last() == exprs[j as int]);
        assert((done + values.drop_last()).push(values.last()) =~= done + values);
    } else {
        assert(done + values =~= done);
    }
}

proof fn lemma_block(
    exprs: Seq<ExprView>,
    k: nat,
    states: Seq<IRView>,
    values: Seq<Value>,
    ret: Value,
)
    requires
        k <= exprs.len(),
        in_row(states, exprs.take(k as int), values),
    ensures
        emit_block(states[0], exprs, 0, ret) == emit_block(
            states[k as int],
            exprs,
            k,
            if k == 0 {
                ret
            } else {
                values.last()
            },
        ),
    decreases k,
{
    let front = exprs.take(k as int);
    if k > 0 {
        let j = (k - 1) as nat;
        lemma_row_front(states, front, values);
        assert(front.drop_last() =~= exprs.take(j as int));
        lemma_block(exprs, j, states.drop_last(), values.drop_last(), ret);
        assert(front.last() == exprs[j as int]);
    }
}

/// A call computes what is called first, then the arguments in their order. Every
/// argument lives through the call, which gets the values of the arguments in their
/// order; the scope holds the result, which has the type of the call.
pub proof fn law_calls_pass_their_values_in_order(
    s: IRView,
    callee: ExprView,
    arguments: Seq<ExprView>,
    ty: Type,
    states: Seq<IRView>,
    values: Seq<Value>,
)
    requires
        s.active,
        lowers(s, callee),
        value_of(s, callee).ty() is Pointer,
        in_row(states, arguments, values),
        states[0] == behind(s, callee),
        states.last().active,
        states.last().locals.len() > 0,
    ensures
        ({
            let e = ExprView::Call { callee: Box::new(callee), arguments, ty };
            let t = states.last();
            let to = ir_type(s.module, ty);
            let call = OpView::Call {
                id: t.results.len() as usize,
                callee: value_of(s, callee),
                arguments: values,
            };
            &&& lowers(s, e)
            &&& adds(
                t,
                behind(s, e),
                increments(values) + seq![call] + decrements(values),
                seq![to],
            )
            &&& value_of(s, e) == if to is NoneType {
                Value::NoneConst
            } else {
                result(t, 0, to)
            }
            &&& behind(s, e).locals.last() == t.locals.last().push(value_of(s, e))
            &&& behind(s, e).locals.drop_last() == t.locals.drop_last()
            &&& behind(s, e).active
        }),
{
    let e = ExprView::Call { callee: Box::new(callee), arguments, ty };
    let t = states.last();
    let to = ir_type(s.module, ty);
    let ptr = value_of(s, callee);
    assert(arguments.take(arguments.len() as int) =~= arguments);
    lemma_all(arguments, arguments.len(), states, values, Seq::empty());
    assert(Seq::<Value>::empty() + values =~= values);
    assert(emit_expr(s, e) == Some(emit_call(t, ptr, values, to)));
    let call = OpView::Call { id: t.results.len() as usize, callee: ptr, arguments: values };
    assert(values.take(values.len() as int) =~= values);
    lemma_increment(t, values, values.len());
    let t1 = t.increment(values, values.len());
    let t2 = t1.compute(call, to).with_local(value_of(s, e));
    lemma_decrement(t2, values, values.len());
    assert(behind(s, e).ops =~= t.ops + (increments(values) + seq![call] + decrements(values)));
    assert(behind(s, e).locals.drop_last() =~= t.locals.drop_last());
}

/// Only pointers are called.
pub proof fn law_only_pointers_are_called(
    s: IRView,
    callee: ExprView,
    arguments: Seq<ExprView>,
    ty: Type,
)
    requires
        s.active,
        lowers(s, ExprView::Call { callee: Box::new(callee), arguments, ty }),
    ensures
        lowers(s, callee),
        value_of(s, callee).ty() is Pointer,
{
}

/// A block has the value of its last expression. That value lives on in the scope
/// around the block, all values that the scope of the block held are released.
pub proof fn law_blocks_have_their_last_value(
    s: IRView,
    block: Seq<ExprView>,
    states: Seq<IRView>,
    values: Seq<Value>,
)
    requires
        s.active,
        s.locals.len() > 0,
        in_row(states, block, values),
        states[0] == s.push_scope(),
        states.last().active,
        states.last().locals.len() > 1,
    ensures
        ({
            let e = ExprView::Block(block);
            let t = states.last();
            let last = if block.len() == 0 {
                Value::NoneConst
            } else {
                values.last()
            };
            &&& lowers(s, e)
            &&& value_of(s, e) == last
            &&& adds(
                t,
                behind(s, e),
                seq![OpView::IncrementRefcount(last)] + decrements(t.locals.last()),
                Seq::empty(),
            )
            &&& behind(s, e).locals.len() == t.locals.len() - 1
            &&& behind(s, e).locals.last() == t.locals[t.locals.len() - 2].push(last)
            &&& behind(s, e).locals.drop_last() == t.locals.drop_last().drop_last()
            &&& behind(s, e).active
        }),
{
    let e = ExprView::Block(block);
    let t = states.last();
    assert(block.take(block.len() as int) =~= block);
    lemma_block(block, block.len(), states, values, Value::NoneConst);
    let last = value_of(s, e);
    assert(emit_expr(s, e) == Some((t.pop_lift(last), last)));
    let scope = t.locals.last();
    let t1 = t.emit(OpView::IncrementRefcount(last));
    let t2 = IRView { locals: t1.locals.drop_last(), ..t1 };
    assert(scope.take(scope.len() as int) =~= scope);
    lemma_decrement(t2, scope, scope.len());
    assert(behind(s, e).ops =~= t.ops + (seq![OpView::IncrementRefcount(last)] + decrements(
        scope,
    )));
    assert(behind(s, e).locals.drop_last() =~= t.locals.drop_last().drop_last());
    assert(behind(s, e).results =~= t.results + Seq::empty());
}

/// All values of the scopes, from the outermost inwards, in their order.
pub open spec fn all_values(scopes: Seq<Seq<Value>>) -> Seq<Value>
    decreases scopes.len(),
{
    if scopes.len() == 0 {
        Seq::empty()
    } else {
        all_values(scopes.drop_last()) + scopes.last()
    }
}

proof fn lemma_decrement_scopes(s: IRView, scopes: Seq<Seq<Value>>, n: nat)
    requires
        s.active,
        n <= scopes.len(),
    ensures
        s.decrement_scopes(scopes, n) == (IRView {
            ops: s.ops + decrements(all_values(scopes.take(n as int))),
            ..s
        }),
    decreases n,
{
    if n > 0 {
        lemma_decrement_scopes(s, scopes, (n - 1) as nat);
        let t = s.decrement_scopes(scopes, (n - 1) as nat);
        let scope = scopes[n - 1];
        assert(scope.take(scope.len() as int) =~= scope);
        lemma_decrement(t, scope, scope.len());
        assert(scopes.take(n as int).drop_last() =~= scopes.take(n - 1));
        assert(s.ops + decrements(all_values(scopes.take(n as int))) =~= (s.ops + decrements(
            all_values(scopes.take(n - 1)),
        )) + decrements(scope));
    } else {
        assert(s.ops + decrements(all_values(scopes.take(0))) =~= s.ops);
    }
}

/// A return computes its value, keeps it alive, releases all values of all scopes
/// and returns just that value, or nothing where there is no value. Behind it there
/// is no place for code.
pub proof fn law_returns_give_their_value(s: IRView, value: ExprView)
    requires
        s.active,
        lowers(s, value),
        behind(s, value).active,
    ensures
        ({
            let e = ExprView::Return(Box::new(value));
            let t = behind(s, value);
            let v = value_of(s, value);
            &&& lowers(s, e)
            &&& adds(
                t,
                behind(s, e),
                seq![OpView::IncrementRefcount(v)] + decrements(all_values(t.locals)) + seq![
                    if v.ty() is NoneType {
                        OpView::ReturnVoid
                    } else {
                        OpView::Return(v)
                    },
                ],
                Seq::empty(),
            )
            &&& behind(s, e).locals == t.locals
            &&& !behind(s, e).active
            &&& value_of(s, e) == Value::NoneConst
        }),
{
    let e = ExprView::Return(Box::new(value));
    let t = behind(s, value);
    let v = value_of(s, value);
    assert(emit_expr(s, e) == Some((emit_return(t, v), Value::NoneConst)));
    let t1 = t.emit(OpView::IncrementRefcount(v));
    assert(t.locals.take(t.locals.len() as int) =~= t.locals);
    lemma_decrement_scopes(t1, t.locals, t.locals.len());
    let last = behind(s, e).ops.last();
    assert(behind(s, e).ops =~= t.ops + (seq![OpView::IncrementRefcount(v)] + decrements(
        all_values(t.locals),
    ) + seq![last]));
    assert(behind(s, e).results =~= t.results + Seq::empty());
}

/// A cast is one operation on the value that is cast, with a result of the new
/// type. Numbers are converted by what they are and what they become, references
/// are read or turned into weak ones.
pub proof fn law_casts_work_on_their_value(s: IRView, inner: ExprView, to: Type, method: CastType)
    requires
        s.active,
        lowers(s, inner),
        behind(s, inner).active,
        !(method is StrongToWeak),
    ensures
        ({
            let e = ExprView::Cast { inner: Box::new(inner), to, method };
            let t = behind(s, inner);
            let v = value_of(s, inner);
            let ty = ir_type(t.module, to);
            let n = t.results.len() as usize;
            &&& lowers(s, e) ==> !(method is ToInterface) && value_of(s, e) == result(t, 0, ty)
            &&& method is Bitcast ==> lowers(s, e) && adds(
                t,
                behind(s, e),
                seq![OpView::Bitcast { id: n, value: v, to: ty }],
                seq![ty],
            )
            &&& method is ToValue ==> (lowers(s, e) <==> v.ty() is Pointer)
            &&& method is ToValue && lowers(s, e) ==> adds(
                t,
                behind(s, e),
                seq![OpView::Load { id: n, pointer: v }],
                seq![ty],
            )
            &&& method is Number ==> (lowers(s, e) <==> (v.ty() is Int || v.ty() is Float) && (ty
                is Int || ty is Float))
            &&& method is Number && lowers(s, e) ==> adds(
                t,
                behind(s, e),
                seq![
                    OpView::ConvertNumber {
                        id: n,
                        kind: match (v.ty() is Int, ty is Int) {
                            (true, true) => NumberCast::Int,
                            (false, false) => NumberCast::Float,
                            (true, false) => if to.signed() {
                                NumberCast::SignedToFloat
                            } else {
                                NumberCast::UnsignedToFloat
                            },
                            (false, true) => if to.signed() {
                                NumberCast::FloatToSigned
                            } else {
                                NumberCast::FloatToUnsigned
                            },
                        },
                        value: v,
                        to: ty,
                    },
                ],
                seq![ty],
            )
            &&& lowers(s, e) ==> behind(s, e).locals == t.locals && behind(s, e).active
        }),
{
    let e = ExprView::Cast { inner: Box::new(inner), to, method };
    assert(emit_expr(s, e) == emit_cast(behind(s, inner), value_of(s, inner), to, method));
}

/// A number is converted by what it is and what it becomes; where only one of the two
/// is an integer, by the sign of the integer.
pub proof fn law_conversions_follow_the_types(from: IRType, to: IRType, signed: bool)
    ensures
        from is Int && to is Int ==> number_cast(from, to, signed) == Some(NumberCast::Int),
        from is Float && to is Float ==> number_cast(from, to, signed) == Some(NumberCast::Float),
        from is Int && to is Float ==> number_cast(from, to, signed) == Some(
            if signed {
                NumberCast::SignedToFloat
            } else {
                NumberCast::UnsignedToFloat
            },
        ),
        from is Float && to is Int ==> number_cast(from, to, signed) == Some(
            if signed {
                NumberCast::FloatToSigned
            } else {
                NumberCast::FloatToUnsigned
            },
        ),
{
}

/// A weak reference points behind the count of the strong one, with its own type.
/// External classes have no count: the reference stays what it is.
pub proof fn law_weak_references_point_behind_the_count(s: IRView, sr: Value, inst: Instance)
    requires
        s.active,
        inst.ty < s.module.adts.len(),
    ensures
        ({
            let ty = Type::WeakRef(inst);
            let to = ir_type(s.module, ty);
            let n = s.results.len();
            let external = s.module.adts[inst.ty as int].ty == (ADTType::Class { external: true });
            &&& emit_weak(s, sr, ty) is Some
            &&& external ==> emit_weak(s, sr, ty) == Some((s, sr))
            &&& !external ==> adds(
                s,
                (emit_weak(s, sr, ty)->0).0,
                seq![
                    OpView::StructGep { id: n as usize, pointer: sr, index: 1 },
                    OpView::Bitcast {
                        id: (n + 1) as usize,
                        value: result(s, 0, IRType::Pointer),
                        to,
                    },
                ],
                seq![IRType::Pointer, to],
            ) && (emit_weak(s, sr, ty)->0).1 == result(s, 1, to)
        }),
{
    let t = (emit_weak(s, sr, Type::WeakRef(inst))->0).0;
    let to = ir_type(s.module, Type::WeakRef(inst));
    assert(!(s.module.adts[inst.ty as int].ty == (ADTType::Class { external: true }))
        ==> t.results =~= s.results + seq![IRType::Pointer, to]);
    assert(!(s.module.adts[inst.ty as int].ty == (ADTType::Class { external: true })) ==> t.ops
        =~= s.ops + seq![
        OpView::StructGep { id: s.results.len() as usize, pointer: sr, index: 1 },
        t.ops.last(),
    ]);
}

/// Values of a data type that is a reference are pointers, others are kept in
/// place, each by the number of its data type. So two data types that are kept in
/// place have different types.
pub proof fn law_data_types_are_told_apart(module: ModuleView, a: Instance, b: Instance)
    requires
        a.ty < module.adts.len(),
        b.ty < module.adts.len(),
    ensures
        ir_type(module, Type::Adt(a)) is Pointer <==> module.adts[a.ty as int].reference(),
        !module.adts[a.ty as int].reference() && !module.adts[b.ty as int].reference() ==> (ir_type(
            module,
            Type::Adt(a),
        ) == ir_type(module, Type::Adt(b)) <==> a.ty == b.ty),
{
}

/// References, strings, functions and closures are pointers, and no value of a
/// number, boolean or no value at all is one.
pub proof fn law_references_are_pointers(module: ModuleView, ty: Type)
    ensures
        ty is StrongRef || ty is WeakRef || ty is String || ty is Function || ty is Closure
            ==> ir_type(module, ty) is Pointer,
        ty.number() || ty is Bool ==> ir_type(module, ty) is Int || ir_type(module, ty) is Float,
        ty is F32 || ty is F64 <==> ir_type(module, ty) is Float,
        ty is NoneType || ty is Any <==> ir_type(module, ty) is NoneType,
        ty is Type ==> ir_type(module, ty) == IRType::Int(64),
{
}

/// What a reference refers to is freed by the method of its own data type for
/// references of its kind; nothing else is freed.
pub proof fn law_references_are_freed_by_their_kind(module: ModuleView, ty: Type, inst: Instance)
    ensures
        ({
            let methods = index::entries(module.adts[inst.ty as int].methods);
            let name = if ty is StrongRef {
                "free-sr"@
            } else {
                "free-wr"@
            };
            &&& ty == Type::StrongRef(inst) || ty == Type::WeakRef(inst) ==> {
                &&& free_method(module, ty) is Some <==> inst.ty < module.adts.len()
                    && index::lookup(methods, name) is Some
                &&& free_method(module, ty) matches Some(found) ==> found == Some(
                    Instance { ty: index::lookup(methods, name)->0, args: inst.args },
                )
            }
            &&& !(ty is StrongRef) && !(ty is WeakRef) ==> free_method(module, ty) == Some(
                None::<Instance>,
            )
        }),
{
}

} // verus!
