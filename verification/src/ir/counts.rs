//! References in the code of the backend: each is held by a value of a scope, and
//! is released once.

use crate::ast::Constant;
use crate::gir::declaration::VariableView;
use crate::gir::expression::{CastType, ExprView};
use crate::gir::types::{Instance, Type};
use crate::ir::ops::{IRType, OpView, Value};
use crate::ir::rules::{
    emit_all, emit_block, emit_call, emit_cast, emit_expr, emit_return, emit_string, emit_variable,
    emit_weak, ir_type, number_cast, string_builder, IRView,
};
use vstd::prelude::*;
use vstd::utf8::encode_utf8;

verus! {

/// How often a value stands in a row.
pub open spec fn times(values: Seq<Value>, v: Value) -> int
    decreases values.len(),
{
    if values.len() == 0 {
        0
    } else {
        times(values.drop_last(), v) + if values.last() == v {
            1int
        } else {
            0
        }
    }
}

/// How often a value stands in the scopes.
pub open spec fn owned(scopes: Seq<Seq<Value>>, v: Value) -> int
    decreases scopes.len(),
{
    if scopes.len() == 0 {
        0
    } else {
        owned(scopes.drop_last(), v) + times(scopes.last(), v)
    }
}

/// By how much an operation changes the number of references to a value. The
/// result of a call comes with a reference.
pub open spec fn effect(op: OpView, v: Value) -> int {
    match op {
        OpView::IncrementRefcount(value) => if value == v {
            1
        } else {
            0
        },
        OpView::DecrementRefcount(value) => if value == v {
            -1
        } else {
            0
        },
        OpView::Call { id, .. } => match v {
            Value::Result { id: own, .. } => if own == id {
                1
            } else {
                0
            },
            _ => 0,
        },
        _ => 0,
    }
}

/// How many references to a value there are behind the operations.
pub open spec fn references(ops: Seq<OpView>, v: Value) -> int
    decreases ops.len(),
{
    if ops.len() == 0 {
        0
    } else {
        references(ops.drop_last(), v) + effect(ops.last(), v)
    }
}

/// Can the value be a result, given the results so far? There are no references
/// to the results of operations that have none.
pub open spec fn fits(results: Seq<IRType>, v: Value) -> bool {
    match v {
        Value::Result { id, ty } => !(ty is NoneType) && (id < results.len() ==> results[id as int]
            == ty),
        _ => false,
    }
}

/// Was the value computed, if it is a result?
pub open spec fn known(results: Seq<IRType>, v: Value) -> bool {
    match v {
        Value::Result { id, ty } => id < results.len() && results[id as int] == ty,
        _ => true,
    }
}

/// Were all values of the scopes computed?
pub open spec fn locals_known(s: IRView) -> bool {
    forall|i: int, j: int|
        0 <= i < s.locals.len() && 0 <= j < s.locals[i].len() ==> known(
            s.results,
            #[trigger] s.locals[i][j],
        )
}

/// Are there as many references to a value as the scopes hold, and `more` of them?
/// Behind a return there is none, but for the value that was returned.
pub open spec fn counted_but(s: IRView, v: Value, more: int) -> bool {
    &&& locals_known(s)
    &&& fits(s.results, v) && s.active ==> references(s.ops, v) == owned(s.locals, v) + more
    &&& !s.active ==> s.ops.len() > 0
    &&& fits(s.results, v) && !s.active ==> references(s.ops, v) == (if s.ops.last()
        == OpView::Return(v) {
        1int
    } else {
        0
    })
}

/// Are there as many references to a value as the scopes hold?
pub open spec fn counted(s: IRView, v: Value) -> bool {
    counted_but(s, v, 0)
}

/// The same, while the results can be numbered.
spec fn in_order(s: IRView, v: Value) -> bool {
    s.results.len() <= usize::MAX ==> counted(s, v)
}

/// What lowering an expression leaves, and the value of it.
spec fn follows(t: IRView, s: IRView, v: Value) -> bool {
    &&& s.results.is_prefix_of(t.results)
    &&& t.locals.len() == s.locals.len()
    &&& in_order(t, v)
}

proof fn lemma_op(s: IRView, op: OpView, v: Value)
    ensures
        s.active ==> references(s.emit(op).ops, v) == references(s.ops, v) + effect(op, v),
{
    assert(s.ops.push(op).drop_last() =~= s.ops);
}

proof fn lemma_compute(s: IRView, op: OpView, ty: IRType, v: Value)
    requires
        counted(s, v),
        effect(op, v) == 0,
    ensures
        counted(s.compute(op, ty), v),
        s.results.is_prefix_of(s.compute(op, ty).results),
        s.results.len() < usize::MAX ==> known(s.compute(op, ty).results, s.next(ty)),
{
    let t = s.compute(op, ty);
    assert(s.results =~= t.results.subrange(0, s.results.len() as int));
    lemma_op(s, op, v);
    assert forall|i: int, j: int| 0 <= i < t.locals.len() && 0 <= j < t.locals[i].len() implies known(
        t.results,
        #[trigger] t.locals[i][j],
    ) by {
        assert(known(s.results, s.locals[i][j]));
    }
}

proof fn lemma_increment(s: IRView, values: Seq<Value>, n: nat, v: Value)
    requires
        n <= values.len(),
    ensures
        s.increment(values, n) == (IRView { ops: s.increment(values, n).ops, ..s }),
        s.active ==> references(s.increment(values, n).ops, v) == references(s.ops, v) + times(
            values.take(n as int),
            v,
        ),
        !s.active ==> s.increment(values, n) == s,
    decreases n,
{
    if n > 0 {
        let s1 = s.increment(values, (n - 1) as nat);
        lemma_increment(s, values, (n - 1) as nat, v);
        lemma_op(s1, OpView::IncrementRefcount(values[n - 1]), v);
        assert(values.take(n as int).drop_last() =~= values.take(n - 1));
    }
}

proof fn lemma_decrement(s: IRView, values: Seq<Value>, n: nat, v: Value)
    requires
        n <= values.len(),
    ensures
        s.decrement(values, n) == (IRView { ops: s.decrement(values, n).ops, ..s }),
        s.active ==> references(s.decrement(values, n).ops, v) == references(s.ops, v) - times(
            values.take(n as int),
            v,
        ),
        !s.active ==> s.decrement(values, n) == s,
    decreases n,
{
    if n > 0 {
        let s1 = s.decrement(values, (n - 1) as nat);
        lemma_decrement(s, values, (n - 1) as nat, v);
        lemma_op(s1, OpView::DecrementRefcount(values[n - 1]), v);
        assert(values.take(n as int).drop_last() =~= values.take(n - 1));
    }
}

proof fn lemma_decrement_scopes(s: IRView, scopes: Seq<Seq<Value>>, n: nat, v: Value)
    requires
        n <= scopes.len(),
    ensures
        s.decrement_scopes(scopes, n) == (IRView { ops: s.decrement_scopes(scopes, n).ops, ..s }),
        s.active ==> references(s.decrement_scopes(scopes, n).ops, v) == references(s.ops, v)
            - owned(scopes.take(n as int), v),
        !s.active ==> s.decrement_scopes(scopes, n) == s,
    decreases n,
{
    if n > 0 {
        let s1 = s.decrement_scopes(scopes, (n - 1) as nat);
        let values = scopes[n - 1];
        lemma_decrement_scopes(s, scopes, (n - 1) as nat, v);
        lemma_decrement(s1, values, values.len(), v);
        assert(scopes.take(n as int).drop_last() =~= scopes.take(n - 1));
        assert(values.take(values.len() as int) =~= values);
    }
}

/// One more value that holds a reference.
proof fn lemma_local(s: IRView, value: Value, v: Value)
    requires
        s.locals.len() > 0,
        locals_known(s),
        known(s.results, value),
    ensures
        locals_known(s.with_local(value)),
        owned(s.with_local(value).locals, v) == owned(s.locals, v) + if value == v {
            1int
        } else {
            0
        },
        s.with_local(value).locals.len() == s.locals.len(),
{
    let t = s.with_local(value);
    let n = s.locals.len() - 1;
    assert(t.locals.drop_last() =~= s.locals.drop_last());
    assert(t.locals.last().drop_last() =~= s.locals.last());
    assert forall|i: int, j: int| 0 <= i < t.locals.len() && 0 <= j < t.locals[i].len() implies known(
        t.results,
        #[trigger] t.locals[i][j],
    ) by {
        if i != n || j < s.locals[n].len() {
            assert(known(s.results, s.locals[i][j]));
        }
    }
}

/// The result of a call comes with a reference, which the scope holds.
proof fn lemma_result(
    s: IRView,
    callee: Value,
    arguments: Seq<Value>,
    ty: IRType,
    v: Value,
    more: int,
)
    requires
        s.locals.len() > 0,
        s.results.len() < usize::MAX,
        counted_but(s, v, more),
    ensures
        ({
            let op = OpView::Call { id: s.results.len() as usize, callee, arguments };
            let result = if ty is NoneType {
                Value::NoneConst
            } else {
                s.next(ty)
            };
            let t = s.compute(op, ty).with_local(result);
            &&& counted_but(t, v, more)
            &&& s.results.is_prefix_of(t.results)
            &&& t.locals.len() == s.locals.len()
            &&& known(t.results, result)
        }),
{
    let op = OpView::Call { id: s.results.len() as usize, callee, arguments };
    let result = if ty is NoneType {
        Value::NoneConst
    } else {
        s.next(ty)
    };
    let s1 = s.compute(op, ty);
    assert(s.results =~= s1.results.subrange(0, s.results.len() as int));
    lemma_op(s, op, v);
    assert forall|i: int, j: int| 0 <= i < s1.locals.len() && 0 <= j < s1.locals[i].len() implies known(
        s1.results,
        #[trigger] s1.locals[i][j],
    ) by {
        assert(known(s.results, s.locals[i][j]));
    }
    lemma_local(s1, result, v);
}

proof fn lemma_call(s: IRView, callee: Value, arguments: Seq<Value>, ty: IRType, v: Value)
    requires
        s.locals.len() > 0,
        in_order(s, v),
    ensures
        follows(emit_call(s, callee, arguments, ty).0, s, v),
        emit_call(s, callee, arguments, ty).0.results.len() <= usize::MAX ==> known(
            emit_call(s, callee, arguments, ty).0.results,
            emit_call(s, callee, arguments, ty).1,
        ),
{
    let n = arguments.len();
    assert(arguments.take(n as int) =~= arguments);
    let s1 = s.increment(arguments, n);
    lemma_increment(s, arguments, n, v);
    let op = OpView::Call { id: s1.results.len() as usize, callee, arguments };
    let result = emit_call(s, callee, arguments, ty).1;
    let s2 = s1.compute(op, ty).with_local(result);
    lemma_decrement(s2, arguments, n, v);
    assert(s.results =~= s2.results.subrange(0, s.results.len() as int));
    if s2.results.len() <= usize::MAX {
        lemma_result(s1, callee, arguments, ty, v, times(arguments, v));
    }
}

proof fn lemma_pop_lift(s: IRView, lift: Value, v: Value)
    requires
        s.locals.len() > 1,
        in_order(s, v),
        s.results.len() <= usize::MAX ==> known(s.results, lift),
    ensures
        in_order(s.pop_lift(lift), v),
        s.pop_lift(lift).results == s.results,
        s.pop_lift(lift).locals.len() == s.locals.len() - 1,
{
    let s1 = s.emit(OpView::IncrementRefcount(lift));
    lemma_op(s, OpView::IncrementRefcount(lift), v);
    let values = s1.locals.last();
    let s2 = IRView { locals: s1.locals.drop_last(), ..s1 };
    lemma_decrement(s2, values, values.len(), v);
    assert(values.take(values.len() as int) =~= values);
    let s3 = s2.decrement(values, values.len());
    if s.results.len() <= usize::MAX {
        assert forall|i: int, j: int| 0 <= i < s3.locals.len() && 0 <= j
            < s3.locals[i].len() implies known(s3.results, #[trigger] s3.locals[i][j]) by {
            assert(known(s.results, s.locals[i][j]));
        }
        lemma_local(s3, lift, v);
    }
}

proof fn lemma_return(s: IRView, value: Value, v: Value)
    requires
        in_order(s, v),
    ensures
        in_order(emit_return(s, value), v),
        emit_return(s, value).results == s.results,
        emit_return(s, value).locals == s.locals,
{
    let s0 = s.emit(OpView::IncrementRefcount(value));
    lemma_op(s, OpView::IncrementRefcount(value), v);
    let s1 = s0.decrement_scopes(s.locals, s.locals.len());
    lemma_decrement_scopes(s0, s.locals, s.locals.len(), v);
    assert(s.locals.take(s.locals.len() as int) =~= s.locals);
    lemma_op(s1, OpView::Return(value), v);
    lemma_op(s1, OpView::ReturnVoid, v);
}

/// What was emitted follows, and so does its value.
spec fn emitted(r: Option<(IRView, Value)>, s: IRView, v: Value) -> bool {
    r matches Some((t, value)) && follows(t, s, v) && (t.results.len() <= usize::MAX ==> known(
        t.results,
        value,
    ))
}

proof fn lemma_string(s: IRView, text: Seq<char>, v: Value)
    requires
        s.locals.len() > 0,
        in_order(s, v),
        emit_string(s, text) is Some,
    ensures
        emitted(emit_string(s, text), s, v),
{
    let (t, string) = emit_string(s, text)->0;
    assert(t.results =~= s.results.push(IRType::Pointer).push(IRType::Pointer).push(
        IRType::Pointer,
    ));
    assert(s.results =~= t.results.subrange(0, s.results.len() as int));
    if t.results.len() <= usize::MAX {
        let op = OpView::GlobalString { id: s.results.len() as usize, text };
        let s1 = s.compute(op, IRType::Pointer);
        lemma_compute(s, op, IRType::Pointer, v);
        let f = s.module.declarations[string_builder()]->Function_0;
        let op = OpView::FunctionPointer {
            id: s1.results.len() as usize,
            function: Instance::plain(f),
        };
        let s2 = s1.compute(op, IRType::Pointer);
        lemma_compute(s1, op, IRType::Pointer, v);
        let size = encode_utf8(text).len();
        lemma_result(
            s2,
            s1.next(IRType::Pointer),
            seq![
                s.next(IRType::Pointer),
                Value::Int { bits: 64, value: (size + 1) as u64 },
            ],
            IRType::Pointer,
            v,
            0,
        );
    }
}

proof fn lemma_weak(s: IRView, sr: Value, wr_ty: Type, v: Value)
    requires
        in_order(s, v),
        s.results.len() <= usize::MAX ==> known(s.results, sr),
        emit_weak(s, sr, wr_ty) is Some,
    ensures
        emitted(emit_weak(s, sr, wr_ty), s, v),
{
    let (t, value) = emit_weak(s, sr, wr_ty)->0;
    assert(s.results =~= t.results.subrange(0, s.results.len() as int));
    if t.results.len() <= usize::MAX && t.results.len() > s.results.len() {
        let op = OpView::StructGep { id: s.results.len() as usize, pointer: sr, index: 1 };
        let s1 = s.compute(op, IRType::Pointer);
        lemma_compute(s, op, IRType::Pointer, v);
        let to = ir_type(s.module, wr_ty);
        let op = OpView::Bitcast {
            id: s1.results.len() as usize,
            value: s.next(IRType::Pointer),
            to,
        };
        lemma_compute(s1, op, to, v);
    }
}

proof fn lemma_cast(
    s: IRView,
    value: Value,
    to: Type,
    method: CastType,
    v: Value,
)
    requires
        in_order(s, v),
        s.results.len() <= usize::MAX ==> known(s.results, value),
        emit_cast(s, value, to, method) is Some,
    ensures
        emitted(emit_cast(s, value, to, method), s, v),
{
    let ty = ir_type(s.module, to);
    if method is StrongToWeak {
        lemma_weak(s, value, to, v);
    } else {
        let (t, r) = emit_cast(s, value, to, method)->0;
        assert(s.results =~= t.results.subrange(0, s.results.len() as int));
        if t.results.len() <= usize::MAX {
            let id = s.results.len() as usize;
            let op = match method {
                CastType::Bitcast => OpView::Bitcast { id, value, to: ty },
                CastType::Number => OpView::ConvertNumber {
                    id,
                    kind: number_cast(value.ty(), ty, to.signed())->0,
                    value,
                    to: ty,
                },
                _ => OpView::Load { id, pointer: value },
            };
            lemma_compute(s, op, ty, v);
        }
    }
}

proof fn lemma_variable(s: IRView, var: VariableView, v: Value)
    requires
        in_order(s, v),
        emit_variable(s, var) is Some,
    ensures
        emitted(emit_variable(s, var), s, v),
{
    let (t, value) = emit_variable(s, var)->0;
    assert(s.results =~= t.results.subrange(0, s.results.len() as int));
    if t.results.len() <= usize::MAX {
        let id = s.results.len() as usize;
        match var {
            VariableView::Local(local) => {
                let pointer = s.variables[local.id as int]->0;
                lemma_compute(s, OpView::Load { id, pointer }, ir_type(s.module, local.ty), v);
            },
            VariableView::Function { func: function, .. } => {
                lemma_compute(
                    s,
                    OpView::FunctionPointer { id, function },
                    IRType::Pointer,
                    v,
                );
            },
        }
    }
}

proof fn lemma_prefix(a: Seq<IRType>, b: Seq<IRType>, c: Seq<IRType>)
    requires
        a.is_prefix_of(b),
        b.is_prefix_of(c),
    ensures
        a.is_prefix_of(c),
        a.len() <= b.len() <= c.len(),
        forall|v: Value| #[trigger] known(a, v) ==> known(b, v),
{
    let n = a.len() as int;
    assert(a =~= b.subrange(0, n));
    assert(b.subrange(0, n) =~= c.subrange(0, n));
}

proof fn lemma_expr(s: IRView, expr: ExprView, v: Value)
    requires
        s.locals.len() > 0,
        in_order(s, v),
        emit_expr(s, expr) is Some,
    ensures
        emitted(emit_expr(s, expr), s, v),
    decreases expr, 0nat,
{
    if s.active {
        let (t, value) = emit_expr(s, expr)->0;
        match expr {
            ExprView::Block(block) => {
                let s0 = s.push_scope();
                lemma_scope(s, v);
                lemma_block(s0, block, 0, Value::NoneConst, v);
                let (s1, ret) = emit_block(s0, block, 0, Value::NoneConst)->0;
                lemma_pop_lift(s1, ret, v);
            },
            ExprView::Literal(literal) => match literal {
                Constant::String(text) => lemma_string(s, text@, v),
                _ => {},
            },
            ExprView::Variable(var) => lemma_variable(s, var, v),
            ExprView::Call { callee, arguments, ty } => {
                lemma_expr(s, *callee, v);
                let (s1, ptr) = emit_expr(s, *callee)->0;
                lemma_all(s1, arguments, 0, Seq::empty(), v);
                let (s2, values) = emit_all(s1, arguments, 0, Seq::empty())->0;
                let to = ir_type(s.module, ty);
                lemma_call(s2, ptr, values, to, v);
                lemma_prefix(s.results, s1.results, s2.results);
                lemma_prefix(s.results, s2.results, t.results);
            },
            ExprView::Return(inner) => {
                lemma_expr(s, *inner, v);
                let (s1, val) = emit_expr(s, *inner)->0;
                lemma_return(s1, val, v);
            },
            ExprView::Cast { inner, to, method } => {
                lemma_expr(s, *inner, v);
                let (s1, val) = emit_expr(s, *inner)->0;
                lemma_cast(s1, val, to, method, v);
                lemma_prefix(s.results, s1.results, t.results);
            },
            _ => {},
        }
    }
}

proof fn lemma_scope(s: IRView, v: Value)
    requires
        in_order(s, v),
    ensures
        in_order(s.push_scope(), v),
{
    let t = s.push_scope();
    if s.results.len() <= usize::MAX {
        assert(t.locals.drop_last() =~= s.locals);
        assert(times(t.locals.last(), v) == 0);
        assert forall|i: int, j: int| 0 <= i < t.locals.len() && 0 <= j
            < t.locals[i].len() implies known(t.results, #[trigger] t.locals[i][j]) by {
            assert(known(s.results, s.locals[i][j]));
        }
    }
}

proof fn lemma_block(s: IRView, block: Seq<ExprView>, i: nat, ret: Value, v: Value)
    requires
        s.locals.len() > 0,
        in_order(s, v),
        s.results.len() <= usize::MAX ==> known(s.results, ret),
        emit_block(s, block, i, ret) is Some,
    ensures
        emitted(emit_block(s, block, i, ret), s, v),
    decreases block, block.len() - i,
{
    if i < block.len() {
        lemma_expr(s, block[i as int], v);
        let (s1, value) = emit_expr(s, block[i as int])->0;
        lemma_block(s1, block, i + 1, value, v);
        let (t, _) = emit_block(s1, block, i + 1, value)->0;
        lemma_prefix(s.results, s1.results, t.results);
    }
}

proof fn lemma_all(s: IRView, exprs: Seq<ExprView>, i: nat, done: Seq<Value>, v: Value)
    requires
        s.locals.len() > 0,
        in_order(s, v),
        emit_all(s, exprs, i, done) is Some,
    ensures
        follows((emit_all(s, exprs, i, done)->0).0, s, v),
    decreases exprs, exprs.len() - i,
{
    if i < exprs.len() {
        lemma_expr(s, exprs[i as int], v);
        let (s1, value) = emit_expr(s, exprs[i as int])->0;
        lemma_all(s1, exprs, i + 1, done.push(value), v);
        let (t, _) = emit_all(s1, exprs, i + 1, done.push(value))->0;
        lemma_prefix(s.results, s1.results, t.results);
    }
}

/// References are counted: where the scopes hold all references to a value, they
/// do so behind the code for an expression, and where the code returns, all were
/// released but for that to the value that it returns.
pub proof fn law_references_are_counted(s: IRView, expr: ExprView, v: Value)
    requires
        s.locals.len() > 0,
        counted(s, v),
        emit_expr(s, expr) is Some,
        (emit_expr(s, expr)->0).0.results.len() <= usize::MAX,
    ensures
        counted((emit_expr(s, expr)->0).0, v),
{
    lemma_expr(s, expr, v);
}

} // verus!
