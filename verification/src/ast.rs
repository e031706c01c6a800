//! The statement tree that the lowering walks, and the per-function metadata
//! around it.
//!
//! Expression and value code generation is an external collaborator: an
//! `Expression` arrives here already rendered, and the lowering only splices
//! its text.  Branch depths are relative: `0` names the innermost enclosing
//! construct.  Every branch depth is guaranteed in range by the upstream
//! producer and is stated here as a precondition of the emission functions,
//! never checked at lowering time.

use vstd::prelude::*;

verus! {

/// A value type of the source machine; the lowering reads it only to pick a
/// canonical zero literal for local initialization.
pub enum ValueType {
    I32,
    I64,
    F32,
    F64,
}

/// The width and signedness tag of a store operation, read only to pick the
/// name of the store helper in the emitted text.
pub enum StoreKind {
    I32,
    I64,
    F32,
    F64,
    I32N8,
    I32N16,
    I64N8,
    I64N16,
    I64N32,
}

impl StoreKind {
    /// The suffix of the store helper named in the emitted text.
    pub open spec fn name_spec(self) -> Seq<char> {
        match self {
            StoreKind::I32 => "i32"@,
            StoreKind::I64 => "i64"@,
            StoreKind::F32 => "f32"@,
            StoreKind::F64 => "f64"@,
            StoreKind::I32N8 => "i32_n8"@,
            StoreKind::I32N16 => "i32_n16"@,
            StoreKind::I64N8 => "i64_n8"@,
            StoreKind::I64N16 => "i64_n16"@,
            StoreKind::I64N32 => "i64_n32"@,
        }
    }

    /// The suffix of the store helper, as text.
    pub fn name(&self) -> (r: &'static str)
        ensures
            r@ == self.name_spec(),
    {
        match self {
            StoreKind::I32 => "i32",
            StoreKind::I64 => "i64",
            StoreKind::F32 => "f32",
            StoreKind::F64 => "f64",
            StoreKind::I32N8 => "i32_n8",
            StoreKind::I32N16 => "i32_n16",
            StoreKind::I64N8 => "i64_n8",
            StoreKind::I64N16 => "i64_n16",
            StoreKind::I64N32 => "i64_n32",
        }
    }
}

/// An expression, opaque to the lowering: its text was produced by the
/// external expression code generator and is spliced verbatim.
pub struct Expression {
    pub text: String,
}

/// An unconditional branch to the enclosing construct `target` levels out.
pub struct Br {
    pub target: usize,
}

/// A conditional branch: taken when `cond` is non-zero.
pub struct BrIf {
    pub cond: Expression,
    pub target: usize,
}

/// A multi-way branch: `cond` selects a relative depth from `table` by index,
/// out-of-range values fall back to `default`.
pub struct BrTable {
    pub cond: Expression,
    pub table: Vec<u32>,
    pub default: u32,
}

/// What a block may end with in place of ordinary fall-through.
pub enum Terminator {
    Unreachable,
    Br(Br),
    BrTable(BrTable),
}

/// A call to the function at flat index `func`; a non-empty `result` range
/// names the ascending destination register slots.
pub struct Call {
    pub func: usize,
    pub param_list: Vec<Expression>,
    pub result: core::ops::Range<usize>,
}

/// A call through entry `index` of the externally indexed callable table
/// `table`.
pub struct CallIndirect {
    pub table: usize,
    pub index: Expression,
    pub param_list: Vec<Expression>,
    pub result: core::ops::Range<usize>,
}

/// Assignment to a temporary working register.
pub struct SetTemporary {
    pub var: usize,
    pub value: Expression,
}

/// Assignment to a parameter or declared local slot.
pub struct SetLocal {
    pub var: usize,
    pub value: Expression,
}

/// Assignment to an externally indexed global.
pub struct SetGlobal {
    pub var: usize,
    pub value: Expression,
}

/// A memory store of `value` at `pointer + offset`.
pub struct StoreAt {
    pub what: StoreKind,
    pub pointer: Expression,
    pub offset: u32,
    pub value: Expression,
}

/// An early return of the listed values.
pub struct Return {
    pub list: Vec<Expression>,
}

/// A block entered once and exited by falling through or by a branch of
/// depth `0`.
pub struct Forward {
    pub body: Vec<Statement>,
    pub tail: Option<Terminator>,
}

/// A loop re-entered by a branch of depth `0`, exited by falling through.
pub struct Backward {
    pub body: Vec<Statement>,
    pub tail: Option<Terminator>,
}

/// One or two bodies guarded by a truthiness test on `cond` (non-zero is
/// true).
pub struct If {
    pub cond: Expression,
    pub truthy: Vec<Statement>,
    pub falsey: Option<Vec<Statement>>,
}

/// One node of the statement tree, one variant per kind.
pub enum Statement {
    Forward(Forward),
    Backward(Backward),
    If(If),
    Br(Br),
    BrIf(BrIf),
    BrTable(BrTable),
    Call(Call),
    CallIndirect(CallIndirect),
    SetTemporary(SetTemporary),
    SetLocal(SetLocal),
    SetGlobal(SetGlobal),
    StoreAt(StoreAt),
    Return(Return),
    Unreachable,
}

/// A run of `count` declared locals sharing one value type.
pub struct LocalRun {
    pub count: u32,
    pub value_type: ValueType,
}

/// One function's metadata and code: parameter count, result count (read only
/// by the dialect that must emit an explicit trailing return), the declared
/// local runs, the number of temporary working slots, and the root statement
/// sequence.
pub struct FuncData {
    pub num_param: usize,
    pub num_result: usize,
    pub local_data: Vec<LocalRun>,
    pub num_stack: usize,
    pub code: Vec<Statement>,
}

} // verus!
