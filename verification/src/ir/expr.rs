//! The generator of the backend.

use crate::ast::Constant;
use crate::gir::declaration::{Declaration, Variable};
use crate::gir::expression::{views, CastType, Expr};
use crate::gir::module::Module;
use crate::gir::types::{Instance, Type};
use crate::index;
use crate::ir::counts::{counted, law_references_are_counted, owned, times};
use crate::ir::laws::law_code_is_appended;
use crate::ir::ops::{op_views, IRType, NumberCast, Op, OpView, Value};
use crate::ir::order::{
    law_operands_are_computed, lemma_pointers_stay, ordered, pointers_known,
};
use crate::ir::rules::{
    emit_all, emit_block, emit_call, emit_cast, emit_expr, emit_literal, emit_return, emit_string,
    emit_variable, emit_weak, free_method, ir_type, IRView,
};
use vstd::prelude::*;

verus! {

/// Lowers the expressions of a module.
pub struct IRGenerator {
    /// The module that is compiled.
    pub module: Module,
    /// The operations so far.
    pub ops: Vec<Op>,
    /// The types of the results so far, by their numbers.
    pub results: Vec<IRType>,
    /// The values that hold a reference, from the outermost scope inwards.
    pub locals: Vec<Vec<Value>>,
    /// The pointers to the variables, by the numbers of the variables.
    pub variables: Vec<Option<Value>>,
    /// Is there a place for the next operation?
    pub active: bool,
}

/// The views of the scopes.
pub open spec fn local_views(locals: Seq<Vec<Value>>) -> Seq<Seq<Value>> {
    locals.map_values(|l: Vec<Value>| l@)
}

impl IRGenerator {
    pub open spec fn view(&self) -> IRView {
        IRView {
            module: self.module@,
            ops: op_views(self.ops@),
            results: self.results@,
            locals: local_views(self.locals@),
            variables: self.variables@,
            active: self.active,
        }
    }

    /// A generator for a function of a module. The results that are there already
    /// come first; the pointers of the variables are among them.
    pub fn new(module: Module, results: Vec<IRType>, variables: Vec<Option<Value>>) -> (r:
        IRGenerator)
        requires
            pointers_known(results@, variables@),
        ensures
            r@ == (IRView {
                module: module@,
                ops: Seq::empty(),
                results: results@,
                locals: seq![Seq::empty()],
                variables: variables@,
                active: true,
            }),
            forall|v: Value| counted(r@, v),
            ordered(r@, results@.len()),
    {
        let mut locals: Vec<Vec<Value>> = Vec::new();
        let scope: Vec<Value> = Vec::new();
        assert(scope@ =~= Seq::empty());
        locals.push(scope);
        let r = IRGenerator {
            module,
            ops: Vec::new(),
            results,
            locals,
            variables,
            active: true,
        };
        assert(r@.ops =~= Seq::empty());
        assert(r@.locals =~= seq![Seq::empty()]);
        assert forall|v: Value| counted(r@, v) by {
            assert(owned(r@.locals, v) == owned(r@.locals.drop_last(), v) + times(
                r@.locals.last(),
                v,
            ));
        }
        r
    }

    fn emit(&mut self, op: Op)
        ensures
            final(self)@ == old(self)@.emit(op@),
    {
        if self.active {
            self.ops.push(op);
            assert(self@.ops =~= old(self)@.ops.push(op@));
        }
    }

    fn compute(&mut self, op: Op, ty: IRType) -> (r: Value)
        ensures
            final(self)@ == old(self)@.compute(op@, ty),
            r == old(self)@.next(ty),
    {
        let id: usize = self.results.len();
        self.emit(op);
        self.results.push(ty);
        Value::Result { id, ty }
    }

    fn push_local(&mut self, value: Value)
        requires
            old(self)@.locals.len() > 0,
        ensures
            final(self)@ == old(self)@.with_local(value),
    {
        let last: usize = self.locals.len() - 1;
        self.locals[last].push(value);
        assert(self@.locals =~= old(self)@.with_local(value).locals);
    }

    fn push_local_scope(&mut self)
        ensures
            final(self)@ == old(self)@.push_scope(),
    {
        let scope: Vec<Value> = Vec::new();
        assert(scope@ =~= Seq::empty());
        self.locals.push(scope);
        assert(self@.locals =~= old(self)@.push_scope().locals);
    }

    fn increment_refcount(&mut self, value: Value)
        ensures
            final(self)@ == old(self)@.emit(OpView::IncrementRefcount(value)),
    {
        self.emit(Op::IncrementRefcount(value));
    }

    fn decrement_refcount(&mut self, value: Value)
        ensures
            final(self)@ == old(self)@.emit(OpView::DecrementRefcount(value)),
    {
        self.emit(Op::DecrementRefcount(value));
    }

    fn decrement_locals(&mut self, values: &Vec<Value>)
        ensures
            final(self)@ == old(self)@.decrement(values@, values@.len()),
    {
        let mut i: usize = 0;
        while i < values.len()
            invariant
                i <= values@.len(),
                self@ == old(self)@.decrement(values@, i as nat),
            decreases values.len() - i,
        {
            self.decrement_refcount(values[i]);
            i = i + 1;
        }
    }

    fn decrement_all_locals(&mut self)
        ensures
            final(self)@ == old(self)@.decrement_scopes(
                old(self)@.locals,
                old(self)@.locals.len(),
            ),
    {
        let ghost scopes = self@.locals;
        let mut i: usize = 0;
        while i < self.locals.len()
            invariant
                i <= self.locals@.len(),
                scopes == old(self)@.locals,
                self@.locals == scopes,
                self@ == old(self)@.decrement_scopes(scopes, i as nat),
            decreases self.locals.len() - i,
        {
            let mut values: Vec<Value> = Vec::new();
            let mut j: usize = 0;
            while j < self.locals[i].len()
                invariant
                    i < self.locals@.len(),
                    j <= self.locals@[i as int]@.len(),
                    values@ == self.locals@[i as int]@.take(j as int),
                decreases self.locals@[i as int]@.len() - j,
            {
                values.push(self.locals[i][j]);
                assert(values@ =~= self.locals@[i as int]@.take(j + 1));
                j = j + 1;
            }
            assert(values@ =~= scopes[i as int]);
            proof {
                lemma_decrement_locals(self@, values@, values@.len());
            }
            self.decrement_locals(&values);
            assert(self@.locals.len() == scopes.len());
            i = i + 1;
        }
    }

    fn pop_locals_lift(&mut self, lift: Value)
        requires
            old(self)@.locals.len() > 1,
        ensures
            final(self)@ == old(self)@.pop_lift(lift),
            final(self)@.locals.len() == old(self)@.locals.len() - 1,
            final(self)@.module == old(self)@.module,
            final(self)@.variables == old(self)@.variables,
    {
        self.increment_refcount(lift);
        let ghost s = self@;
        match self.locals.pop() {
            Some(values) => {
                assert(values@ == s.locals.last());
                assert(self@.locals =~= s.locals.drop_last());
                proof {
                    lemma_decrement_locals(self@, values@, values@.len());
                }
                self.decrement_locals(&values);
            },
            None => {},
        }
        self.push_local(lift);
    }

    /// The type that a type has in the backend.
    pub fn ir_ty_generic(&self, ty: &Type) -> (r: IRType)
        ensures
            r == ir_type(self@.module, *ty),
    {
        match ty {
            Type::Any => IRType::NoneType,
            Type::NoneType => IRType::NoneType,
            Type::Bool => IRType::Int(1),
            Type::I8 => IRType::Int(8),
            Type::U8 => IRType::Int(8),
            Type::I16 => IRType::Int(16),
            Type::U16 => IRType::Int(16),
            Type::I32 => IRType::Int(32),
            Type::U32 => IRType::Int(32),
            Type::I64 => IRType::Int(64),
            Type::U64 => IRType::Int(64),
            Type::F32 => IRType::Float(32),
            Type::F64 => IRType::Float(64),
            Type::Adt(inst) => if inst.ty < self.module.adts.len()
                && self.module.adts[inst.ty].is_ptr() {
                IRType::Pointer
            } else {
                IRType::Struct(inst.ty)
            },
            Type::Type(_) => IRType::Int(64),
            _ => IRType::Pointer,
        }
    }

    /// Lowers an expression. Behind a return there is no code, and no value. Every
    /// reference to a value that the code makes is held by a scope, or is returned,
    /// and every operation uses only values that were computed before it.
    pub fn expression(&mut self, expr: &Expr) -> (r: Value)
        requires
            old(self)@.locals.len() > 0,
            pointers_known(old(self)@.results, old(self)@.variables),
            emit_expr(old(self)@, expr@) is Some,
        ensures
            emit_expr(old(self)@, expr@) == Some((final(self)@, r)),
            final(self)@.locals.len() == old(self)@.locals.len(),
            final(self)@.module == old(self)@.module,
            final(self)@.variables == old(self)@.variables,
            pointers_known(final(self)@.results, final(self)@.variables),
            forall|v: Value| counted(old(self)@, v) ==> counted(final(self)@, v),
            forall|start: nat| ordered(old(self)@, start) ==> ordered(final(self)@, start),
        decreases *expr, 0nat,
    {
        if !self.active {
            return Value::NoneConst;
        }
        let value = match expr {
            Expr::Block(block) => {
                assert(expr@->Block_0 =~= views(block@));
                self.push_local_scope();
                let ret = self.block(block);
                self.pop_locals_lift(ret);
                ret
            },
            Expr::Literal(literal) => self.literal(literal),
            Expr::Variable(var) => self.variable(var),
            Expr::Call { callee, arguments, ty } => {
                assert(expr@->Call_arguments =~= views(arguments@));
                let callee = self.expression(callee);
                self.build_call(callee, arguments, ty)
            },
            Expr::Return(value) => {
                let value = self.expression(value);
                self.build_return(value);
                Value::NoneConst
            },
            Expr::Cast { inner, to, method } => {
                let value = self.expression(inner);
                self.cast(value, to, *method)
            },
            _ => vstd::pervasive::unreached(),
        };
        assert(self.results.len() <= usize::MAX);
        assert forall|v: Value| counted(old(self)@, v) implies counted(self@, v) by {
            law_references_are_counted(old(self)@, expr@, v);
        }
        assert forall|start: nat| ordered(old(self)@, start) implies ordered(self@, start) by {
            law_operands_are_computed(old(self)@, expr@, start);
        }
        proof {
            law_code_is_appended(old(self)@, expr@);
            lemma_pointers_stay(old(self)@.results, self@.results, self@.variables);
        }
        value
    }

    fn block(&mut self, block: &Vec<Expr>) -> (r: Value)
        requires
            old(self)@.locals.len() > 0,
            pointers_known(old(self)@.results, old(self)@.variables),
            emit_block(old(self)@, views(block@), 0, Value::NoneConst) is Some,
        ensures
            emit_block(old(self)@, views(block@), 0, Value::NoneConst) == Some(
                (final(self)@, r),
            ),
            final(self)@.locals.len() == old(self)@.locals.len(),
            final(self)@.module == old(self)@.module,
            final(self)@.variables == old(self)@.variables,
        decreases *block, 1nat,
    {
        let mut ret = Value::NoneConst;
        let mut i: usize = 0;
        while i < block.len()
            invariant
                i <= block@.len(),
                self@.locals.len() == old(self)@.locals.len(),
                self@.locals.len() > 0,
                self@.module == old(self)@.module,
                self@.variables == old(self)@.variables,
                pointers_known(self@.results, self@.variables),
                emit_block(old(self)@, views(block@), 0, Value::NoneConst) is Some,
                emit_block(old(self)@, views(block@), 0, Value::NoneConst) == emit_block(
                    self@,
                    views(block@),
                    i as nat,
                    ret,
                ),
            decreases block.len() - i,
        {
            assert(decreases_to!(block => block@[i as int]));
            assert(views(block@)[i as int] == block@[i as int]@);
            ret = self.expression(&block[i]);
            i = i + 1;
        }
        ret
    }

    fn variable(&mut self, var: &Variable) -> (r: Value)
        requires
            emit_variable(old(self)@, var@) is Some,
        ensures
            emit_variable(old(self)@, var@) == Some((final(self)@, r)),
            final(self)@.locals == old(self)@.locals,
            final(self)@.module == old(self)@.module,
            final(self)@.variables == old(self)@.variables,
    {
        let id: usize = self.results.len();
        match var {
            Variable::Local(local) => match self.variables[local.id] {
                Some(pointer) => {
                    let ty = self.ir_ty_generic(&local.ty);
                    self.compute(Op::Load { id, pointer }, ty)
                },
                None => vstd::pervasive::unreached(),
            },
            Variable::Function { func, .. } => self.compute(
                Op::FunctionPointer { id, function: func.copy() },
                IRType::Pointer,
            ),
        }
    }

    fn build_call(&mut self, ptr: Value, arguments: &Vec<Expr>, ty: &Type) -> (r: Value)
        requires
            old(self)@.locals.len() > 0,
            pointers_known(old(self)@.results, old(self)@.variables),
            emit_all(old(self)@, views(arguments@), 0, Seq::empty()) is Some,
        ensures
            emit_all(old(self)@, views(arguments@), 0, Seq::empty()) matches Some((s, values))
                && (final(self)@, r) == emit_call(
                s,
                ptr,
                values,
                ir_type(old(self)@.module, *ty),
            ),
            final(self)@.locals.len() == old(self)@.locals.len(),
            final(self)@.module == old(self)@.module,
            final(self)@.variables == old(self)@.variables,
        decreases *arguments, 1nat,
    {
        let mut values: Vec<Value> = Vec::new();
        let mut i: usize = 0;
        while i < arguments.len()
            invariant
                i <= arguments@.len(),
                self@.locals.len() == old(self)@.locals.len(),
                self@.locals.len() > 0,
                self@.module == old(self)@.module,
                self@.variables == old(self)@.variables,
                pointers_known(self@.results, self@.variables),
                emit_all(old(self)@, views(arguments@), 0, Seq::empty()) is Some,
                emit_all(old(self)@, views(arguments@), 0, Seq::empty()) == emit_all(
                    self@,
                    views(arguments@),
                    i as nat,
                    values@,
                ),
            decreases arguments.len() - i,
        {
            assert(decreases_to!(arguments => arguments@[i as int]));
            assert(views(arguments@)[i as int] == arguments@[i as int]@);
            let value = self.expression(&arguments[i]);
            values.push(value);
            i = i + 1;
        }
        let ghost s = self@;
        let mut i: usize = 0;
        while i < values.len()
            invariant
                i <= values@.len(),
                self@ == s.increment(values@, i as nat),
                s.locals.len() > 0,
            decreases values.len() - i,
        {
            self.increment_refcount(values[i]);
            i = i + 1;
        }
        proof {
            lemma_increment_locals(s, values@, values@.len());
        }
        let ir_ty = self.ir_ty_generic(ty);
        let id: usize = self.results.len();
        let mut copied: Vec<Value> = Vec::new();
        let mut i: usize = 0;
        while i < values.len()
            invariant
                i <= values@.len(),
                copied@ == values@.take(i as int),
            decreases values.len() - i,
        {
            copied.push(values[i]);
            assert(copied@ =~= values@.take(i + 1));
            i = i + 1;
        }
        assert(copied@ =~= values@);
        let result = self.compute(Op::Call { id, callee: ptr, arguments: copied }, ir_ty);
        let ret = if ir_ty == IRType::NoneType {
            Value::NoneConst
        } else {
            result
        };
        self.push_local(ret);
        proof {
            lemma_decrement_locals(self@, values@, values@.len());
        }
        self.decrement_locals(&values);
        ret
    }

    fn build_return(&mut self, value: Value)
        ensures
            final(self)@ == emit_return(old(self)@, value),
            final(self)@.locals == old(self)@.locals,
            final(self)@.module == old(self)@.module,
            final(self)@.variables == old(self)@.variables,
    {
        self.increment_refcount(value);
        proof {
            lemma_decrement_scopes_locals(self@, self@.locals, self@.locals.len());
        }
        self.decrement_all_locals();
        if value.get_type() == IRType::NoneType {
            self.emit(Op::ReturnVoid);
        } else {
            self.emit(Op::Return(value));
        }
        self.active = false;
    }

    /// Lowers a constant.
    pub fn literal(&mut self, literal: &Constant) -> (r: Value)
        requires
            old(self)@.locals.len() > 0,
            emit_literal(old(self)@, *literal) is Some,
        ensures
            emit_literal(old(self)@, *literal) == Some((final(self)@, r)),
            final(self)@.locals.len() == old(self)@.locals.len(),
            final(self)@.module == old(self)@.module,
            final(self)@.variables == old(self)@.variables,
    {
        match literal {
            Constant::Any => Value::NoneConst,
            Constant::NoneValue => Value::NoneConst,
            Constant::Bool(value) => Value::Int {
                bits: 1,
                value: if *value {
                    1
                } else {
                    0
                },
            },
            Constant::I8(num) => Value::Int { bits: 8, value: *num },
            Constant::U8(num) => Value::Int { bits: 8, value: *num },
            Constant::I16(num) => Value::Int { bits: 16, value: *num },
            Constant::U16(num) => Value::Int { bits: 16, value: *num },
            Constant::I32(num) => Value::Int { bits: 32, value: *num },
            Constant::U32(num) => Value::Int { bits: 32, value: *num },
            Constant::I64(num) => Value::Int { bits: 64, value: *num },
            Constant::U64(num) => Value::Int { bits: 64, value: *num },
            Constant::F32(num) => Value::F32(*num),
            Constant::F64(num) => Value::F64(*num),
            Constant::String(string) => self.string(string),
        }
    }

    /// Makes a string.
    fn string(&mut self, string: &String) -> (r: Value)
        requires
            old(self)@.locals.len() > 0,
            emit_string(old(self)@, string@) is Some,
        ensures
            emit_string(old(self)@, string@) == Some((final(self)@, r)),
            final(self)@.locals.len() == old(self)@.locals.len(),
            final(self)@.module == old(self)@.module,
            final(self)@.variables == old(self)@.variables,
    {
        let builder: usize = match self.module.declarations.get(
            "std/intrinsics::build_string_literal",
        ) {
            Some(Declaration::Function(f)) => *f,
            _ => vstd::pervasive::unreached(),
        };
        let size: usize = string.as_str().len();
        let id: usize = self.results.len();
        let chars = self.compute(
            Op::GlobalString { id, text: string.clone() },
            IRType::Pointer,
        );
        let id: usize = self.results.len();
        let callee = self.compute(
            Op::FunctionPointer { id, function: Instance::new_(builder) },
            IRType::Pointer,
        );
        let mut arguments: Vec<Value> = Vec::new();
        arguments.push(chars);
        arguments.push(Value::Int { bits: 64, value: (size + 1) as u64 });
        assert(arguments@ =~= seq![
            chars,
            Value::Int { bits: 64, value: (size + 1) as u64 },
        ]);
        let id: usize = self.results.len();
        let st = self.compute(Op::Call { id, callee, arguments }, IRType::Pointer);
        self.push_local(st);
        st
    }

    fn cast(&mut self, value: Value, to: &Type, method: CastType) -> (r: Value)
        requires
            emit_cast(old(self)@, value, *to, method) is Some,
        ensures
            emit_cast(old(self)@, value, *to, method) == Some((final(self)@, r)),
            final(self)@.locals == old(self)@.locals,
            final(self)@.module == old(self)@.module,
            final(self)@.variables == old(self)@.variables,
    {
        let cast_ty = self.ir_ty_generic(to);
        let id: usize = self.results.len();
        match method {
            CastType::ToInterface => vstd::pervasive::unreached(),
            CastType::Bitcast => self.compute(Op::Bitcast { id, value, to: cast_ty }, cast_ty),
            CastType::Number => {
                let kind = match (value.get_type(), cast_ty, to.is_signed_int()) {
                    (IRType::Int(_), IRType::Int(_), _) => NumberCast::Int,
                    (IRType::Float(_), IRType::Float(_), _) => NumberCast::Float,
                    (IRType::Float(_), IRType::Int(_), true) => NumberCast::FloatToSigned,
                    (IRType::Float(_), IRType::Int(_), false) => NumberCast::FloatToUnsigned,
                    (IRType::Int(_), IRType::Float(_), true) => NumberCast::SignedToFloat,
                    (IRType::Int(_), IRType::Float(_), false) => NumberCast::UnsignedToFloat,
                    _ => vstd::pervasive::unreached(),
                };
                self.compute(Op::ConvertNumber { id, kind, value, to: cast_ty }, cast_ty)
            },
            CastType::ToValue => self.compute(Op::Load { id, pointer: value }, cast_ty),
            CastType::StrongToWeak => self.cast_sr_to_wr(value, to),
        }
    }

    /// Turns a strong reference into a weak one.
    pub fn cast_sr_to_wr(&mut self, sr: Value, wr_ty: &Type) -> (r: Value)
        requires
            emit_weak(old(self)@, sr, *wr_ty) is Some,
        ensures
            emit_weak(old(self)@, sr, *wr_ty) == Some((final(self)@, r)),
            final(self)@.locals == old(self)@.locals,
            final(self)@.module == old(self)@.module,
            final(self)@.variables == old(self)@.variables,
    {
        let adt: usize = match wr_ty {
            Type::Adt(inst) => inst.ty,
            Type::StrongRef(inst) => inst.ty,
            Type::WeakRef(inst) => inst.ty,
            _ => vstd::pervasive::unreached(),
        };
        if self.module.adts[adt].ty.is_extern_class() {
            return sr;
        }
        let to = self.ir_ty_generic(wr_ty);
        let id: usize = self.results.len();
        let gep = self.compute(Op::StructGep { id, pointer: sr, index: 1 }, IRType::Pointer);
        let id: usize = self.results.len();
        self.compute(Op::Bitcast { id, value: gep, to }, to)
    }

    /// The method that frees what is behind a reference. Types that need none have
    /// a null pointer in its place.
    pub fn get_free_function(&self, ty: &Type) -> (r: Option<Instance>)
        requires
            free_method(self@.module, *ty) is Some,
        ensures
            Some(r) == free_method(self@.module, *ty),
    {
        match ty {
            Type::StrongRef(inst) => match index::get(
                &self.module.adts[inst.ty].methods,
                "free-sr",
            ) {
                Some(method) => Some(Instance::new(method, inst.args.copy())),
                None => vstd::pervasive::unreached(),
            },
            Type::WeakRef(inst) => match index::get(
                &self.module.adts[inst.ty].methods,
                "free-wr",
            ) {
                Some(method) => Some(Instance::new(method, inst.args.copy())),
                None => vstd::pervasive::unreached(),
            },
            _ => None,
        }
    }
}

proof fn lemma_increment_locals(s: IRView, values: Seq<Value>, n: nat)
    ensures
        s.increment(values, n) == (IRView { ops: s.increment(values, n).ops, ..s }),
    decreases n,
{
    if n > 0 {
        lemma_increment_locals(s, values, (n - 1) as nat);
    }
}

proof fn lemma_decrement_locals(s: IRView, values: Seq<Value>, n: nat)
    ensures
        s.decrement(values, n) == (IRView { ops: s.decrement(values, n).ops, ..s }),
    decreases n,
{
    if n > 0 {
        lemma_decrement_locals(s, values, (n - 1) as nat);
    }
}

proof fn lemma_decrement_scopes_locals(s: IRView, scopes: Seq<Seq<Value>>, n: nat)
    ensures
        s.decrement_scopes(scopes, n) == (IRView { ops: s.decrement_scopes(scopes, n).ops, ..s }),
    decreases n,
{
    if n > 0 {
        lemma_decrement_scopes_locals(s, scopes, (n - 1) as nat);
        lemma_decrement_locals(
            s.decrement_scopes(scopes, (n - 1) as nat),
            scopes[n - 1],
            scopes[n - 1].len(),
        );
    }
}

} // verus!
