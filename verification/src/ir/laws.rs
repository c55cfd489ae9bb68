//! What holds of the operations that are generated.

use crate::ast::Constant;
use crate::gir::expression::ExprView;
use crate::ir::ops::{IRType, OpView, Value};
use crate::ir::rules::{
    emit_all, emit_block, emit_call, emit_cast, emit_expr, emit_literal, emit_return, ir_type,
    number_cast, IRView,
};
use vstd::prelude::*;

verus! {

/// Does a state go on from an earlier one? Operations and results are only added,
/// and no operation behind a return; scopes, variables and the module stay.
pub open spec fn goes_on(after: IRView, before: IRView) -> bool {
    &&& before.ops.is_prefix_of(after.ops)
    &&& before.results.is_prefix_of(after.results)
    &&& after.active ==> before.active
    &&& !before.active ==> after.ops == before.ops
    &&& after.module == before.module
    &&& after.variables == before.variables
}

proof fn lemma_trans(a: IRView, b: IRView, c: IRView)
    requires
        goes_on(b, a),
        goes_on(c, b),
    ensures
        goes_on(c, a),
{
    let n = a.ops.len() as int;
    assert(a.ops =~= b.ops.subrange(0, n));
    assert(b.ops.subrange(0, n) =~= c.ops.subrange(0, n));
    let m = a.results.len() as int;
    assert(a.results =~= b.results.subrange(0, m));
    assert(b.results.subrange(0, m) =~= c.results.subrange(0, m));
}

proof fn lemma_emit(s: IRView, op: OpView, ty: IRType)
    ensures
        goes_on(s.emit(op), s),
        goes_on(s.compute(op, ty), s),
        s.emit(op).active == s.active,
        s.compute(op, ty).active == s.active,
{
}

proof fn lemma_increment(s: IRView, values: Seq<Value>, n: nat)
    ensures
        goes_on(s.increment(values, n), s),
    decreases n,
{
    if n > 0 {
        let s1 = s.increment(values, (n - 1) as nat);
        lemma_increment(s, values, (n - 1) as nat);
        let op = OpView::IncrementRefcount(values[n - 1]);
        lemma_emit(s1, op, IRType::NoneType);
        lemma_trans(s, s1, s1.emit(op));
    }
}

proof fn lemma_decrement(s: IRView, values: Seq<Value>, n: nat)
    ensures
        goes_on(s.decrement(values, n), s),
    decreases n,
{
    if n > 0 {
        let s1 = s.decrement(values, (n - 1) as nat);
        lemma_decrement(s, values, (n - 1) as nat);
        let op = OpView::DecrementRefcount(values[n - 1]);
        lemma_emit(s1, op, IRType::NoneType);
        lemma_trans(s, s1, s1.emit(op));
    }
}

proof fn lemma_decrement_scopes(s: IRView, scopes: Seq<Seq<Value>>, n: nat)
    ensures
        goes_on(s.decrement_scopes(scopes, n), s),
    decreases n,
{
    if n > 0 {
        let s1 = s.decrement_scopes(scopes, (n - 1) as nat);
        lemma_decrement_scopes(s, scopes, (n - 1) as nat);
        lemma_decrement(s1, scopes[n - 1], scopes[n - 1].len());
        lemma_trans(s, s1, s1.decrement(scopes[n - 1], scopes[n - 1].len()));
    }
}

proof fn lemma_pop_lift(s: IRView, lift: Value)
    ensures
        goes_on(s.pop_lift(lift), s),
{
    let op = OpView::IncrementRefcount(lift);
    let s1 = s.emit(op);
    lemma_emit(s, op, IRType::NoneType);
    let s2 = IRView { locals: s1.locals.drop_last(), ..s1 };
    let values = s1.locals.last();
    lemma_decrement(s2, values, values.len());
    assert(goes_on(s2, s));
    let s3 = s2.decrement(values, values.len());
    lemma_trans(s, s2, s3);
    assert(goes_on(s3.with_local(lift), s));
}

proof fn lemma_call(s: IRView, callee: Value, arguments: Seq<Value>, ty: IRType)
    ensures
        goes_on(emit_call(s, callee, arguments, ty).0, s),
{
    let s1 = s.increment(arguments, arguments.len());
    lemma_increment(s, arguments, arguments.len());
    let op = OpView::Call { id: s1.results.len() as usize, callee, arguments };
    let s2 = s1.compute(op, ty);
    lemma_emit(s1, op, ty);
    lemma_trans(s, s1, s2);
    let result = emit_call(s, callee, arguments, ty).1;
    let s3 = s2.with_local(result);
    assert(goes_on(s3, s));
    lemma_decrement(s3, arguments, arguments.len());
    lemma_trans(s, s3, s3.decrement(arguments, arguments.len()));
}

proof fn lemma_return(s: IRView, value: Value)
    ensures
        goes_on(emit_return(s, value), s),
        !emit_return(s, value).active,
{
    let op = OpView::IncrementRefcount(value);
    let s0 = s.emit(op);
    lemma_emit(s, op, IRType::NoneType);
    let s1 = s0.decrement_scopes(s.locals, s.locals.len());
    lemma_decrement_scopes(s0, s.locals, s.locals.len());
    lemma_trans(s, s0, s1);
    let op = if value.ty() is NoneType {
        OpView::ReturnVoid
    } else {
        OpView::Return(value)
    };
    lemma_emit(s1, op, IRType::NoneType);
    lemma_trans(s, s1, s1.emit(op));
}

/// The code for an expression goes behind the code that is there.
pub proof fn law_code_is_appended(s: IRView, expr: ExprView)
    requires
        emit_expr(s, expr) is Some,
    ensures
        goes_on((emit_expr(s, expr)->0).0, s),
    decreases expr, 0nat,
{
    if s.active {
        match expr {
            ExprView::Block(block) => {
                lemma_block(s.push_scope(), block, 0, Value::NoneConst);
                let (s1, ret) = emit_block(s.push_scope(), block, 0, Value::NoneConst)->0;
                lemma_pop_lift(s1, ret);
                assert(goes_on(s.push_scope(), s));
                lemma_trans(s, s.push_scope(), s1);
                lemma_trans(s, s1, s1.pop_lift(ret));
            },
            ExprView::Call { callee, arguments, ty } => {
                law_code_is_appended(s, *callee);
                let (s1, ptr) = emit_expr(s, *callee)->0;
                lemma_all(s1, arguments, 0, Seq::empty());
                let (s2, values) = emit_all(s1, arguments, 0, Seq::empty())->0;
                lemma_trans(s, s1, s2);
                let to = ir_type(s.module, ty);
                lemma_call(s2, ptr, values, to);
                lemma_trans(s, s2, emit_call(s2, ptr, values, to).0);
            },
            ExprView::Return(value) => {
                law_code_is_appended(s, *value);
                let (s1, v) = emit_expr(s, *value)->0;
                lemma_return(s1, v);
                lemma_trans(s, s1, emit_return(s1, v));
            },
            ExprView::Cast { inner, to, method } => {
                law_code_is_appended(s, *inner);
                let (s1, v) = emit_expr(s, *inner)->0;
                assert(goes_on((emit_cast(s1, v, to, method)->0).0, s1));
                lemma_trans(s, s1, (emit_cast(s1, v, to, method)->0).0);
            },
            _ => {},
        }
    }
}

proof fn lemma_block(s: IRView, block: Seq<ExprView>, i: nat, ret: Value)
    requires
        emit_block(s, block, i, ret) is Some,
    ensures
        goes_on((emit_block(s, block, i, ret)->0).0, s),
    decreases block, block.len() - i,
{
    if i < block.len() {
        law_code_is_appended(s, block[i as int]);
        let (s1, value) = emit_expr(s, block[i as int])->0;
        lemma_block(s1, block, i + 1, value);
        lemma_trans(s, s1, (emit_block(s1, block, i + 1, value)->0).0);
    }
}

proof fn lemma_all(s: IRView, exprs: Seq<ExprView>, i: nat, done: Seq<Value>)
    requires
        emit_all(s, exprs, i, done) is Some,
    ensures
        goes_on((emit_all(s, exprs, i, done)->0).0, s),
    decreases exprs, exprs.len() - i,
{
    if i < exprs.len() {
        law_code_is_appended(s, exprs[i as int]);
        let (s1, value) = emit_expr(s, exprs[i as int])->0;
        lemma_all(s1, exprs, i + 1, done.push(value));
        lemma_trans(s, s1, (emit_all(s1, exprs, i + 1, done.push(value))->0).0);
    }
}

/// Behind a return there is no code: whatever follows changes nothing and has no
/// value.
pub proof fn law_no_code_behind_return(s: IRView, value: ExprView, next: ExprView)
    requires
        s.active,
        emit_expr(s, ExprView::Return(Box::new(value))) is Some,
    ensures
        ({
            let after = (emit_expr(s, ExprView::Return(Box::new(value)))->0).0;
            emit_expr(after, next) == Some((after, Value::NoneConst))
        }),
{
}

/// Numbers can be converted between all numeric types, and nothing else can.
pub proof fn law_number_casts(from: IRType, to: IRType, signed: bool)
    ensures
        number_cast(from, to, signed) is Some <==> (from is Int || from is Float) && (to is Int
            || to is Float),
{
}

/// Signed and unsigned integers of a width and number are one constant, and need
/// no code.
pub proof fn law_integers_have_no_sign(s: IRView, num: u64)
    ensures
        emit_literal(s, Constant::I8(num)) == Some((s, (Value::Int { bits: 8, value: num }))),
        emit_literal(s, Constant::U8(num)) == Some((s, (Value::Int { bits: 8, value: num }))),
        emit_literal(s, Constant::I16(num)) == Some((s, (Value::Int { bits: 16, value: num }))),
        emit_literal(s, Constant::U16(num)) == Some((s, (Value::Int { bits: 16, value: num }))),
        emit_literal(s, Constant::I32(num)) == Some((s, (Value::Int { bits: 32, value: num }))),
        emit_literal(s, Constant::U32(num)) == Some((s, (Value::Int { bits: 32, value: num }))),
        emit_literal(s, Constant::I64(num)) == Some((s, (Value::Int { bits: 64, value: num }))),
        emit_literal(s, Constant::U64(num)) == Some((s, (Value::Int { bits: 64, value: num }))),
{
}

} // verus!
