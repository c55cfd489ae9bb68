//! Values and operations of the backend.

use crate::gir::types::Instance;
use vstd::prelude::*;

verus! {

/// The type of a value in the backend.
#[derive(Debug, Clone, Copy, PartialEq, Eq, Structural)]
pub enum IRType {
    /// The type of the value that stands for no value.
    NoneType,
    /// An integer of so many bits.
    Int(u32),
    /// A floating point number of so many bits.
    Float(u32),
    /// A pointer.
    Pointer,
    /// A data type that is kept in place.
    Struct(usize),
}

/// A value in the backend.
#[derive(Debug, Clone, Copy, PartialEq, Eq, Structural)]
pub enum Value {
    /// No value.
    NoneConst,
    /// An integer of so many bits.
    Int { bits: u32, value: u64 },
    /// The bits of a floating point number.
    F32(u32),
    /// The bits of a floating point number.
    F64(u64),
    /// The result of the operation with a number.
    Result { id: usize, ty: IRType },
}

impl Value {
    /// The type of the value.
    pub open spec fn ty(self) -> IRType {
        match self {
            Value::NoneConst => IRType::NoneType,
            Value::Int { bits, .. } => IRType::Int(bits),
            Value::F32(_) => IRType::Float(32),
            Value::F64(_) => IRType::Float(64),
            Value::Result { ty, .. } => ty,
        }
    }

    /// The type of the value.
    pub fn get_type(&self) -> (r: IRType)
        ensures
            r == self.ty(),
    {
        match *self {
            Value::NoneConst => IRType::NoneType,
            Value::Int { bits, .. } => IRType::Int(bits),
            Value::F32(_) => IRType::Float(32),
            Value::F64(_) => IRType::Float(64),
            Value::Result { ty, .. } => ty,
        }
    }
}

/// How a number is converted.
#[derive(Debug, Clone, Copy, PartialEq, Eq, Structural)]
pub enum NumberCast {
    Int,
    Float,
    FloatToSigned,
    FloatToUnsigned,
    SignedToFloat,
    UnsignedToFloat,
}

/// An operation. Those that give a value have its number.
#[derive(Debug)]
#[allow(inconsistent_fields)]
pub enum Op {
    /// The value behind a pointer.
    Load { id: usize, pointer: Value },
    /// The address of a function.
    FunctionPointer { id: usize, function: Instance },
    /// A call through a pointer.
    Call { id: usize, callee: Value, arguments: Vec<Value> },
    /// One more reference to a value.
    IncrementRefcount(Value),
    /// One reference to a value less.
    DecrementRefcount(Value),
    /// Returns nothing.
    ReturnVoid,
    /// Returns a value.
    Return(Value),
    /// The same bits as another type.
    Bitcast { id: usize, value: Value, to: IRType },
    /// A conversion between numbers.
    ConvertNumber { id: usize, kind: NumberCast, value: Value, to: IRType },
    /// The address of a member of a struct.
    StructGep { id: usize, pointer: Value, index: u32 },
    /// The address of the characters of a string.
    GlobalString { id: usize, text: String },
}

/// An operation as contracts speak of it.
#[allow(inconsistent_fields)]
pub ghost enum OpView {
    Load { id: usize, pointer: Value },
    FunctionPointer { id: usize, function: Instance },
    Call { id: usize, callee: Value, arguments: Seq<Value> },
    IncrementRefcount(Value),
    DecrementRefcount(Value),
    ReturnVoid,
    Return(Value),
    Bitcast { id: usize, value: Value, to: IRType },
    ConvertNumber { id: usize, kind: NumberCast, value: Value, to: IRType },
    StructGep { id: usize, pointer: Value, index: u32 },
    GlobalString { id: usize, text: Seq<char> },
}

impl Op {
    pub open spec fn view(&self) -> OpView {
        match *self {
            Op::Load { id, pointer } => OpView::Load { id, pointer },
            Op::FunctionPointer { id, function } => OpView::FunctionPointer { id, function },
            Op::Call { id, callee, arguments } => OpView::Call {
                id,
                callee,
                arguments: arguments@,
            },
            Op::IncrementRefcount(value) => OpView::IncrementRefcount(value),
            Op::DecrementRefcount(value) => OpView::DecrementRefcount(value),
            Op::ReturnVoid => OpView::ReturnVoid,
            Op::Return(value) => OpView::Return(value),
            Op::Bitcast { id, value, to } => OpView::Bitcast { id, value, to },
            Op::ConvertNumber { id, kind, value, to } => OpView::ConvertNumber {
                id,
                kind,
                value,
                to,
            },
            Op::StructGep { id, pointer, index } => OpView::StructGep { id, pointer, index },
            Op::GlobalString { id, text } => OpView::GlobalString { id, text: text@ },
        }
    }
}

/// The views of a row of operations.
pub open spec fn op_views(ops: Seq<Op>) -> Seq<OpView> {
    ops.map_values(|o: Op| o@)
}

} // verus!
