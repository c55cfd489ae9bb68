//! The order of the operations: whatever an operation uses was computed before it.

use crate::ast::Constant;
use crate::gir::declaration::VariableView;
use crate::gir::expression::{CastType, ExprView};
use crate::gir::types::{Instance, Type};
use crate::ir::counts::{known, locals_known};
use crate::ir::ops::{IRType, OpView, Value};
use crate::ir::rules::{
    emit_all, emit_block, emit_call, emit_cast, emit_expr, emit_return, emit_string, emit_variable,
    emit_weak, ir_type, number_cast, string_builder, IRView,
};
use vstd::prelude::*;
use vstd::utf8::encode_utf8;

verus! {

/// The number of the result of an operation.
pub open spec fn number(op: OpView) -> Option<usize> {
    match op {
        OpView::Load { id, .. } => Some(id),
        OpView::FunctionPointer { id, .. } => Some(id),
        OpView::Call { id, .. } => Some(id),
        OpView::Bitcast { id, .. } => Some(id),
        OpView::ConvertNumber { id, .. } => Some(id),
        OpView::StructGep { id, .. } => Some(id),
        OpView::GlobalString { id, .. } => Some(id),
        OpView::IncrementRefcount(_) => None,
        OpView::DecrementRefcount(_) => None,
        OpView::ReturnVoid => None,
        OpView::Return(_) => None,
    }
}

/// The values that an operation uses.
pub open spec fn operands(op: OpView) -> Seq<Value> {
    match op {
        OpView::Load { pointer, .. } => seq![pointer],
        OpView::FunctionPointer { .. } => Seq::empty(),
        OpView::Call { callee, arguments, .. } => seq![callee] + arguments,
        OpView::Bitcast { value, .. } => seq![value],
        OpView::ConvertNumber { value, .. } => seq![value],
        OpView::StructGep { pointer, .. } => seq![pointer],
        OpView::GlobalString { .. } => Seq::empty(),
        OpView::IncrementRefcount(value) => seq![value],
        OpView::DecrementRefcount(value) => seq![value],
        OpView::ReturnVoid => Seq::empty(),
        OpView::Return(value) => seq![value],
    }
}

/// Does a value exist behind operations? Constants do, and so do the first `start`
/// results, which were there before.
pub open spec fn computed(ops: Seq<OpView>, start: nat, v: Value) -> bool {
    match v {
        Value::Result { id, .. } => id < start || exists|j: int|
            0 <= j < ops.len() && number(#[trigger] ops[j]) == Some(id),
        _ => true,
    }
}

/// Does every operation use only values that were computed before it?
pub open spec fn in_turn(ops: Seq<OpView>, start: nat) -> bool {
    forall|i: int, k: int|
        0 <= i < ops.len() && 0 <= k < operands(ops[i]).len() ==> computed(
            ops.take(i),
            start,
            #[trigger] operands(ops[i])[k],
        )
}

/// Do the pointers of the variables exist, and are they pointers?
pub open spec fn pointers_known(results: Seq<IRType>, variables: Seq<Option<Value>>) -> bool {
    forall|i: int|
        0 <= i < variables.len() ==> (#[trigger] variables[i] matches Some(p) ==> known(results, p)
            && p.ty() is Pointer)
}

/// Does every operation use only values that were computed before it, and do all
/// values exist that the next operation can use?
pub open spec fn ordered(s: IRView, start: nat) -> bool {
    &&& locals_known(s)
    &&& pointers_known(s.results, s.variables)
    &&& in_turn(s.ops, start)
    &&& s.active ==> forall|v: Value| #[trigger] known(s.results, v) ==> computed(s.ops, start, v)
}

/// The same, while the results can be numbered.
spec fn in_order(s: IRView, start: nat) -> bool {
    s.results.len() <= usize::MAX ==> ordered(s, start)
}

/// What lowering an expression leaves.
spec fn follows(t: IRView, s: IRView, start: nat) -> bool {
    &&& s.results.is_prefix_of(t.results)
    &&& t.locals.len() == s.locals.len()
    &&& t.variables == s.variables
    &&& in_order(t, start)
}

/// What was emitted follows, and its value exists.
spec fn emitted(r: Option<(IRView, Value)>, s: IRView, start: nat) -> bool {
    r matches Some((t, value)) && follows(t, s, start) && (t.results.len() <= usize::MAX ==> known(
        t.results,
        value,
    ))
}

/// Do all values of a row exist?
spec fn all_known(results: Seq<IRType>, values: Seq<Value>) -> bool {
    forall|i: int| 0 <= i < values.len() ==> known(results, #[trigger] values[i])
}

/// What exists goes on existing when there are more results.
proof fn lemma_more(a: Seq<IRType>, b: Seq<IRType>)
    requires
        a.is_prefix_of(b),
    ensures
        a.len() <= b.len(),
        forall|v: Value| #[trigger] known(a, v) ==> known(b, v),
        forall|values: Seq<Value>| #[trigger] all_known(a, values) ==> all_known(b, values),
        forall|variables: Seq<Option<Value>>| #[trigger]
            pointers_known(a, variables) ==> pointers_known(b, variables),
{
    assert forall|v: Value| #[trigger] known(a, v) implies known(b, v) by {
        if let Value::Result { id, .. } = v {
            assert(a[id as int] == b[id as int]);
        }
    }
    assert forall|variables: Seq<Option<Value>>| #[trigger]
        pointers_known(a, variables) implies pointers_known(b, variables) by {
        assert forall|i: int| 0 <= i < variables.len() implies (#[trigger] variables[i] matches Some(
            p,
        ) ==> known(b, p) && p.ty() is Pointer) by {
            if let Some(p) = variables[i] {
                assert(known(a, p));
            }
        }
    }
}

/// The pointers of variables go on existing when there are more results.
pub proof fn lemma_pointers_stay(
    a: Seq<IRType>,
    b: Seq<IRType>,
    variables: Seq<Option<Value>>,
)
    requires
        a.is_prefix_of(b),
        pointers_known(a, variables),
    ensures
        pointers_known(b, variables),
{
    lemma_more(a, b);
}

proof fn lemma_prefix(a: Seq<IRType>, b: Seq<IRType>, c: Seq<IRType>)
    requires
        a.is_prefix_of(b),
        b.is_prefix_of(c),
    ensures
        a.is_prefix_of(c),
{
    let n = a.len() as int;
    assert(a =~= b.subrange(0, n));
    assert(b.subrange(0, n) =~= c.subrange(0, n));
}

/// One more operation at the end, which uses what exists.
proof fn lemma_push(ops: Seq<OpView>, start: nat, op: OpView)
    requires
        in_turn(ops, start),
        forall|k: int|
            0 <= k < operands(op).len() ==> computed(ops, start, #[trigger] operands(op)[k]),
    ensures
        in_turn(ops.push(op), start),
        forall|v: Value| #[trigger] computed(ops, start, v) ==> computed(ops.push(op), start, v),
{
    let all = ops.push(op);
    assert forall|i: int, k: int| 0 <= i < all.len() && 0 <= k < operands(
        all[i],
    ).len() implies computed(all.take(i), start, #[trigger] operands(all[i])[k]) by {
        assert(all.take(i) =~= ops.take(i));
        if i < ops.len() {
            assert(all[i] == ops[i]);
            assert(computed(ops.take(i), start, operands(ops[i])[k]));
        } else {
            assert(ops.take(i) =~= ops);
        }
    }
    assert forall|v: Value| #[trigger] computed(ops, start, v) implies computed(all, start, v) by {
        if let Value::Result { id, .. } = v {
            if id >= start {
                let j = choose|j: int| 0 <= j < ops.len() && number(#[trigger] ops[j]) == Some(id);
                assert(all[j] == ops[j]);
            }
        }
    }
}

proof fn lemma_emit(s: IRView, op: OpView, start: nat)
    requires
        ordered(s, start),
        all_known(s.results, operands(op)),
    ensures
        ordered(s.emit(op), start),
{
    if s.active {
        assert forall|k: int| 0 <= k < operands(op).len() implies computed(
            s.ops,
            start,
            #[trigger] operands(op)[k],
        ) by {
            assert(known(s.results, operands(op)[k]));
        }
        lemma_push(s.ops, start, op);
    }
}

proof fn lemma_compute(s: IRView, op: OpView, ty: IRType, start: nat)
    requires
        s.results.len() < usize::MAX,
        ordered(s, start),
        all_known(s.results, operands(op)),
        number(op) == Some(s.results.len() as usize),
    ensures
        ordered(s.compute(op, ty), start),
        known(s.compute(op, ty).results, s.next(ty)),
        s.results.is_prefix_of(s.compute(op, ty).results),
{
    let t = s.compute(op, ty);
    assert(s.results =~= t.results.subrange(0, s.results.len() as int));
    lemma_more(s.results, t.results);
    lemma_emit(s, op, start);
    assert forall|i: int, j: int| 0 <= i < t.locals.len() && 0 <= j
        < t.locals[i].len() implies known(t.results, #[trigger] t.locals[i][j]) by {
        assert(known(s.results, s.locals[i][j]));
    }
    if s.active {
        assert forall|v: Value| #[trigger] known(t.results, v) implies computed(
            t.ops,
            start,
            v,
        ) by {
            if let Value::Result { id, .. } = v {
                if id == s.results.len() {
                    assert(number(t.ops[s.ops.len() as int]) == Some(id));
                } else {
                    assert(known(s.results, v));
                }
            }
        }
    }
}

proof fn lemma_increment(s: IRView, values: Seq<Value>, n: nat, start: nat)
    requires
        n <= values.len(),
        ordered(s, start),
        all_known(s.results, values),
    ensures
        ordered(s.increment(values, n), start),
        s.increment(values, n) == (IRView { ops: s.increment(values, n).ops, ..s }),
    decreases n,
{
    if n > 0 {
        lemma_increment(s, values, (n - 1) as nat, start);
        assert(known(s.results, values[n - 1]));
        lemma_emit(
            s.increment(values, (n - 1) as nat),
            OpView::IncrementRefcount(values[n - 1]),
            start,
        );
    }
}

proof fn lemma_decrement(s: IRView, values: Seq<Value>, n: nat, start: nat)
    requires
        n <= values.len(),
        ordered(s, start),
        all_known(s.results, values),
    ensures
        ordered(s.decrement(values, n), start),
        s.decrement(values, n) == (IRView { ops: s.decrement(values, n).ops, ..s }),
    decreases n,
{
    if n > 0 {
        lemma_decrement(s, values, (n - 1) as nat, start);
        assert(known(s.results, values[n - 1]));
        lemma_emit(
            s.decrement(values, (n - 1) as nat),
            OpView::DecrementRefcount(values[n - 1]),
            start,
        );
    }
}

proof fn lemma_decrement_scopes(s: IRView, n: nat, start: nat)
    requires
        n <= s.locals.len(),
        ordered(s, start),
    ensures
        ordered(s.decrement_scopes(s.locals, n), start),
        s.decrement_scopes(s.locals, n) == (IRView {
            ops: s.decrement_scopes(s.locals, n).ops,
            ..s
        }),
    decreases n,
{
    if n > 0 {
        lemma_decrement_scopes(s, (n - 1) as nat, start);
        let values = s.locals[n - 1];
        assert forall|i: int| 0 <= i < values.len() implies known(
            s.results,
            #[trigger] values[i],
        ) by {
            assert(known(s.results, s.locals[n - 1][i]));
        }
        lemma_decrement(
            s.decrement_scopes(s.locals, (n - 1) as nat),
            values,
            values.len(),
            start,
        );
    }
}

proof fn lemma_local(s: IRView, value: Value, start: nat)
    requires
        s.locals.len() > 0,
        ordered(s, start),
        known(s.results, value),
    ensures
        ordered(s.with_local(value), start),
        s.with_local(value).locals.len() == s.locals.len(),
{
    let t = s.with_local(value);
    let n = s.locals.len() - 1;
    assert forall|i: int, j: int| 0 <= i < t.locals.len() && 0 <= j
        < t.locals[i].len() implies known(t.results, #[trigger] t.locals[i][j]) by {
        if i != n || j < s.locals[n].len() {
            assert(known(s.results, s.locals[i][j]));
        }
    }
}

proof fn lemma_call(s: IRView, callee: Value, arguments: Seq<Value>, ty: IRType, start: nat)
    requires
        s.locals.len() > 0,
        in_order(s, start),
        s.results.len() <= usize::MAX ==> known(s.results, callee) && all_known(
            s.results,
            arguments,
        ),
    ensures
        emitted(Some(emit_call(s, callee, arguments, ty)), s, start),
{
    let n = arguments.len();
    let (t, result) = emit_call(s, callee, arguments, ty);
    let s1 = s.increment(arguments, n);
    lemma_shape(s, arguments, n);
    let op = OpView::Call { id: s1.results.len() as usize, callee, arguments };
    let s2 = s1.compute(op, ty);
    let s3 = s2.with_local(result);
    lemma_shape(s3, arguments, n);
    assert(s.results =~= s2.results.subrange(0, s.results.len() as int));
    if t.results.len() <= usize::MAX {
        lemma_increment(s, arguments, n, start);
        assert(all_known(s1.results, operands(op))) by {
            assert forall|k: int| 0 <= k < operands(op).len() implies known(
                s1.results,
                #[trigger] operands(op)[k],
            ) by {
                if k > 0 {
                    assert(operands(op)[k] == arguments[k - 1]);
                }
            }
        }
        lemma_compute(s1, op, ty, start);
        lemma_local(s2, result, start);
        lemma_more(s.results, s3.results);
        lemma_decrement(s3, arguments, n, start);
    }
}

/// References change nothing but the operations.
proof fn lemma_shape(s: IRView, values: Seq<Value>, n: nat)
    ensures
        s.increment(values, n) == (IRView { ops: s.increment(values, n).ops, ..s }),
        s.decrement(values, n) == (IRView { ops: s.decrement(values, n).ops, ..s }),
    decreases n,
{
    if n > 0 {
        lemma_shape(s, values, (n - 1) as nat);
    }
}

proof fn lemma_scopes_shape(s: IRView, scopes: Seq<Seq<Value>>, n: nat)
    ensures
        s.decrement_scopes(scopes, n) == (IRView { ops: s.decrement_scopes(scopes, n).ops, ..s }),
    decreases n,
{
    if n > 0 {
        lemma_scopes_shape(s, scopes, (n - 1) as nat);
        lemma_shape(
            s.decrement_scopes(scopes, (n - 1) as nat),
            scopes[n - 1],
            scopes[n - 1].len(),
        );
    }
}

proof fn lemma_pop_lift(s: IRView, lift: Value, start: nat)
    requires
        s.locals.len() > 1,
        in_order(s, start),
        s.results.len() <= usize::MAX ==> known(s.results, lift),
    ensures
        in_order(s.pop_lift(lift), start),
        s.pop_lift(lift).results == s.results,
        s.pop_lift(lift).variables == s.variables,
        s.pop_lift(lift).locals.len() == s.locals.len() - 1,
{
    let op = OpView::IncrementRefcount(lift);
    let s1 = s.emit(op);
    let values = s1.locals.last();
    let s2 = IRView { locals: s1.locals.drop_last(), ..s1 };
    lemma_shape(s2, values, values.len());
    let s3 = s2.decrement(values, values.len());
    if s.results.len() <= usize::MAX {
        lemma_emit(s, op, start);
        assert forall|i: int, j: int| 0 <= i < s2.locals.len() && 0 <= j
            < s2.locals[i].len() implies known(s2.results, #[trigger] s2.locals[i][j]) by {
            assert(known(s.results, s.locals[i][j]));
        }
        assert forall|i: int| 0 <= i < values.len() implies known(
            s.results,
            #[trigger] values[i],
        ) by {
            assert(known(s.results, s.locals[s.locals.len() - 1][i]));
        }
        lemma_decrement(s2, values, values.len(), start);
        lemma_local(s3, lift, start);
    }
}

proof fn lemma_return(s: IRView, value: Value, start: nat)
    requires
        in_order(s, start),
        s.results.len() <= usize::MAX ==> known(s.results, value),
    ensures
        in_order(emit_return(s, value), start),
        emit_return(s, value).results == s.results,
        emit_return(s, value).variables == s.variables,
        emit_return(s, value).locals == s.locals,
{
    let op = OpView::IncrementRefcount(value);
    let s0 = s.emit(op);
    lemma_scopes_shape(s0, s.locals, s.locals.len());
    let s1 = s0.decrement_scopes(s.locals, s.locals.len());
    let last = if value.ty() is NoneType {
        OpView::ReturnVoid
    } else {
        OpView::Return(value)
    };
    if s.results.len() <= usize::MAX {
        lemma_emit(s, op, start);
        lemma_decrement_scopes(s0, s0.locals.len(), start);
        lemma_emit(s1, last, start);
    }
}

proof fn lemma_string(s: IRView, text: Seq<char>, start: nat)
    requires
        s.locals.len() > 0,
        in_order(s, start),
        emit_string(s, text) is Some,
    ensures
        emitted(emit_string(s, text), s, start),
{
    let (t, string) = emit_string(s, text)->0;
    assert(t.results =~= s.results.push(IRType::Pointer).push(IRType::Pointer).push(
        IRType::Pointer,
    ));
    assert(s.results =~= t.results.subrange(0, s.results.len() as int));
    if t.results.len() <= usize::MAX {
        let pointer = IRType::Pointer;
        let op = OpView::GlobalString { id: s.results.len() as usize, text };
        let s1 = s.compute(op, pointer);
        lemma_compute(s, op, pointer, start);
        let f = s.module.declarations[string_builder()]->Function_0;
        let op = OpView::FunctionPointer {
            id: s1.results.len() as usize,
            function: Instance::plain(f),
        };
        let s2 = s1.compute(op, pointer);
        lemma_compute(s1, op, pointer, start);
        lemma_more(s1.results, s2.results);
        let size = encode_utf8(text).len();
        let arguments = seq![
            s.next(pointer),
            Value::Int { bits: 64, value: (size + 1) as u64 },
        ];
        let op = OpView::Call {
            id: s2.results.len() as usize,
            callee: s1.next(pointer),
            arguments,
        };
        assert(all_known(s2.results, operands(op))) by {
            assert(operands(op) =~= seq![
                s1.next(pointer),
                s.next(pointer),
                Value::Int { bits: 64, value: (size + 1) as u64 },
            ]);
        }
        let s3 = s2.compute(op, pointer);
        lemma_compute(s2, op, pointer, start);
        lemma_local(s3, string, start);
    }
}

proof fn lemma_weak(s: IRView, sr: Value, wr_ty: Type, start: nat)
    requires
        in_order(s, start),
        s.results.len() <= usize::MAX ==> known(s.results, sr),
        emit_weak(s, sr, wr_ty) is Some,
    ensures
        emitted(emit_weak(s, sr, wr_ty), s, start),
{
    let (t, value) = emit_weak(s, sr, wr_ty)->0;
    assert(s.results =~= t.results.subrange(0, s.results.len() as int));
    if t.results.len() <= usize::MAX && t.results.len() > s.results.len() {
        let op = OpView::StructGep { id: s.results.len() as usize, pointer: sr, index: 1 };
        let s1 = s.compute(op, IRType::Pointer);
        lemma_compute(s, op, IRType::Pointer, start);
        let to = ir_type(s.module, wr_ty);
        let op = OpView::Bitcast {
            id: s1.results.len() as usize,
            value: s.next(IRType::Pointer),
            to,
        };
        lemma_compute(s1, op, to, start);
    }
}

proof fn lemma_cast(s: IRView, value: Value, to: Type, method: CastType, start: nat)
    requires
        in_order(s, start),
        s.results.len() <= usize::MAX ==> known(s.results, value),
        emit_cast(s, value, to, method) is Some,
    ensures
        emitted(emit_cast(s, value, to, method), s, start),
{
    let ty = ir_type(s.module, to);
    if method is StrongToWeak {
        lemma_weak(s, value, to, start);
    } else {
        let (t, r) = emit_cast(s, value, to, method)->0;
        assert(s.results =~= t.results.subrange(0, s.results.len() as int));
        if t.results.len() <= usize::MAX {
            let id = s.results.len() as usize;
            let op = match method {
                CastType::Bitcast => OpView::Bitcast { id, value, to: ty },
                CastType::Number => OpView::ConvertNumber {
                    id,
                    kind: number_cast(value.ty(), ty, to.signed())->0,
                    value,
                    to: ty,
                },
                _ => OpView::Load { id, pointer: value },
            };
            lemma_compute(s, op, ty, start);
        }
    }
}

proof fn lemma_variable(s: IRView, var: VariableView, start: nat)
    requires
        in_order(s, start),
        emit_variable(s, var) is Some,
    ensures
        emitted(emit_variable(s, var), s, start),
{
    let (t, value) = emit_variable(s, var)->0;
    assert(s.results =~= t.results.subrange(0, s.results.len() as int));
    if t.results.len() <= usize::MAX {
        let id = s.results.len() as usize;
        match var {
            VariableView::Local(local) => {
                let pointer = s.variables[local.id as int]->0;
                lemma_compute(
                    s,
                    OpView::Load { id, pointer },
                    ir_type(s.module, local.ty),
                    start,
                );
            },
            VariableView::Function { func, .. } => {
                lemma_compute(
                    s,
                    OpView::FunctionPointer { id, function: func },
                    IRType::Pointer,
                    start,
                );
            },
        }
    }
}

proof fn lemma_scope(s: IRView, start: nat)
    requires
        in_order(s, start),
    ensures
        in_order(s.push_scope(), start),
{
    let t = s.push_scope();
    if s.results.len() <= usize::MAX {
        assert forall|i: int, j: int| 0 <= i < t.locals.len() && 0 <= j
            < t.locals[i].len() implies known(t.results, #[trigger] t.locals[i][j]) by {
            assert(known(s.results, s.locals[i][j]));
        }
    }
}

proof fn lemma_expr(s: IRView, expr: ExprView, start: nat)
    requires
        s.locals.len() > 0,
        in_order(s, start),
        emit_expr(s, expr) is Some,
    ensures
        emitted(emit_expr(s, expr), s, start),
    decreases expr, 0nat,
{
    if s.active {
        let (t, value) = emit_expr(s, expr)->0;
        match expr {
            ExprView::Block(block) => {
                let s0 = s.push_scope();
                lemma_scope(s, start);
                lemma_block(s0, block, 0, Value::NoneConst, start);
                let (s1, ret) = emit_block(s0, block, 0, Value::NoneConst)->0;
                lemma_pop_lift(s1, ret, start);
            },
            ExprView::Literal(literal) => match literal {
                Constant::String(text) => lemma_string(s, text@, start),
                _ => {},
            },
            ExprView::Variable(var) => lemma_variable(s, var, start),
            ExprView::Call { callee, arguments, ty } => {
                lemma_expr(s, *callee, start);
                let (s1, ptr) = emit_expr(s, *callee)->0;
                lemma_all(s1, arguments, 0, Seq::empty(), start);
                let (s2, values) = emit_all(s1, arguments, 0, Seq::empty())->0;
                let to = ir_type(s.module, ty);
                lemma_more(s1.results, s2.results);
                lemma_call(s2, ptr, values, to, start);
                lemma_prefix(s.results, s1.results, s2.results);
                lemma_prefix(s.results, s2.results, t.results);
            },
            ExprView::Return(inner) => {
                lemma_expr(s, *inner, start);
                let (s1, val) = emit_expr(s, *inner)->0;
                lemma_return(s1, val, start);
            },
            ExprView::Cast { inner, to, method } => {
                lemma_expr(s, *inner, start);
                let (s1, val) = emit_expr(s, *inner)->0;
                lemma_cast(s1, val, to, method, start);
                lemma_prefix(s.results, s1.results, t.results);
            },
            _ => {},
        }
    }
}

proof fn lemma_block(s: IRView, block: Seq<ExprView>, i: nat, ret: Value, start: nat)
    requires
        s.locals.len() > 0,
        in_order(s, start),
        s.results.len() <= usize::MAX ==> known(s.results, ret),
        emit_block(s, block, i, ret) is Some,
    ensures
        emitted(emit_block(s, block, i, ret), s, start),
    decreases block, block.len() - i,
{
    if i < block.len() {
        lemma_expr(s, block[i as int], start);
        let (s1, value) = emit_expr(s, block[i as int])->0;
        lemma_block(s1, block, i + 1, value, start);
        let (t, _) = emit_block(s1, block, i + 1, value)->0;
        lemma_prefix(s.results, s1.results, t.results);
    }
}

proof fn lemma_all(s: IRView, exprs: Seq<ExprView>, i: nat, done: Seq<Value>, start: nat)
    requires
        s.locals.len() > 0,
        in_order(s, start),
        s.results.len() <= usize::MAX ==> all_known(s.results, done),
        emit_all(s, exprs, i, done) is Some,
    ensures
        ({
            let (t, values) = emit_all(s, exprs, i, done)->0;
            &&& follows(t, s, start)
            &&& t.results.len() <= usize::MAX ==> all_known(t.results, values)
        }),
    decreases exprs, exprs.len() - i,
{
    if i < exprs.len() {
        lemma_expr(s, exprs[i as int], start);
        let (s1, value) = emit_expr(s, exprs[i as int])->0;
        lemma_more(s.results, s1.results);
        lemma_all(s1, exprs, i + 1, done.push(value), start);
        let (t, _) = emit_all(s1, exprs, i + 1, done.push(value))->0;
        lemma_prefix(s.results, s1.results, t.results);
    }
}

/// Every operation uses only values that were computed before it: where that holds
/// of the code so far, with the results that were there at the start, it holds
/// behind the code for an expression.
pub proof fn law_operands_are_computed(s: IRView, expr: ExprView, start: nat)
    requires
        s.locals.len() > 0,
        ordered(s, start),
        emit_expr(s, expr) is Some,
        (emit_expr(s, expr)->0).0.results.len() <= usize::MAX,
    ensures
        ordered((emit_expr(s, expr)->0).0, start),
{
    lemma_expr(s, expr, start);
}

/// A result that is computed is new: it is not the pointer of a variable.
pub proof fn law_results_are_no_pointers_of_variables(s: IRView, ty: IRType, i: int)
    requires
        pointers_known(s.results, s.variables),
        s.results.len() <= usize::MAX,
        0 <= i < s.variables.len(),
    ensures
        s.variables[i] != Some(s.next(ty)),
{
}

} // verus!
