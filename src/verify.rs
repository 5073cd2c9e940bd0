//! The stack and type verifier: runs each block on a symbolic operand stack of
//! types, checks every instruction against it, and records the types that
//! lowering needs.
use vstd::prelude::*;
use crate::instr::{Function, InstrBlock, InstrK};
use crate::metadata::{BitWidthSign, BlockId, Metadata};
use crate::module::{FuncDef, Module, lookup_func, lookup_global};
use crate::numerics::{spec_type_bws, type_to_bws};
use crate::staticmem::SMItemRef;
use crate::ty::{Ty, TypeTable, TypeV, copy_tys, INT32_T, FLOAT32_T, PTR_T};

verus! {

/// Where a type check failed.
#[derive(PartialEq, Eq, Structural, Clone, Copy, Debug)]
pub enum Site {
    LdInt,
    IntegerOp,
    FloatOp,
    Not,
    Itof,
    Ftoi,
    FtoiTarget,
    IConv,
    IConvTarget,
    CallArgument,
    IndirectCallArgument,
    LocalStore,
    IfCondition,
    Read,
    Write,
    Offset,
    GetFieldPtr,
    Return,
    MemoryGrow,
    StGlobal,
}

/// Where a struct type was found where a value type is needed.
#[derive(PartialEq, Eq, Structural, Clone, Copy, Debug)]
pub enum StructSite {
    FunctionLocal,
    FunctionReturn,
    BlockReturn,
    Read,
    Write,
    Bitcast,
}

#[derive(Debug)]
#[allow(inconsistent_fields)]
pub enum VerifyError {
    StackUnderflow,
    InvalidType { expected: Ty, actual: Ty, reason: Site },
    UndefinedFunctionCall { func_name: String },
    OutOfBoundsLocalIndex,
    InvalidTypeCallIndirect,
    InvalidBlockType { block: BlockId, expected: Vec<Ty>, actual: Vec<Ty> },
    InvalidBlockId,
    UnexpectedStructType { where_: StructSite },
    GetFieldPtrExpectedStructType,
    OutOfBoundsStructIndex,
    UndefinedGlobal { name: String },
    IntegerSizeMismatch { left: Ty, right: Ty },
    ConstIntOverflow { value: u32, ty: Ty },
    ArgumentStore { idx: usize },
    /// A handle that refers to no type of the module.
    UndefinedType { ty: Ty },
    /// A handle that refers to no item of static memory.
    UndefinedStaticItem { item: SMItemRef },
}

/// The mathematical value of a [`VerifyError`].
#[allow(inconsistent_fields)]
pub enum VerifyErrorV {
    StackUnderflow,
    InvalidType { expected: Ty, actual: Ty, reason: Site },
    UndefinedFunctionCall { func_name: Seq<char> },
    OutOfBoundsLocalIndex,
    InvalidTypeCallIndirect,
    InvalidBlockType { block: BlockId, expected: Seq<Ty>, actual: Seq<Ty> },
    InvalidBlockId,
    UnexpectedStructType { where_: StructSite },
    GetFieldPtrExpectedStructType,
    OutOfBoundsStructIndex,
    UndefinedGlobal { name: Seq<char> },
    IntegerSizeMismatch { left: Ty, right: Ty },
    ConstIntOverflow { value: u32, ty: Ty },
    ArgumentStore { idx: usize },
    UndefinedType { ty: Ty },
    UndefinedStaticItem { item: SMItemRef },
}

impl View for VerifyError {
    type V = VerifyErrorV;

    open spec fn view(&self) -> VerifyErrorV {
        match self {
            VerifyError::StackUnderflow => VerifyErrorV::StackUnderflow,
            VerifyError::InvalidType { expected, actual, reason } => VerifyErrorV::InvalidType { expected: *expected, actual: *actual, reason: *reason },
            VerifyError::UndefinedFunctionCall { func_name } => VerifyErrorV::UndefinedFunctionCall { func_name: func_name@ },
            VerifyError::OutOfBoundsLocalIndex => VerifyErrorV::OutOfBoundsLocalIndex,
            VerifyError::InvalidTypeCallIndirect => VerifyErrorV::InvalidTypeCallIndirect,
            VerifyError::InvalidBlockType { block, expected, actual } => VerifyErrorV::InvalidBlockType { block: *block, expected: expected@, actual: actual@ },
            VerifyError::InvalidBlockId => VerifyErrorV::InvalidBlockId,
            VerifyError::UnexpectedStructType { where_ } => VerifyErrorV::UnexpectedStructType { where_: *where_ },
            VerifyError::GetFieldPtrExpectedStructType => VerifyErrorV::GetFieldPtrExpectedStructType,
            VerifyError::OutOfBoundsStructIndex => VerifyErrorV::OutOfBoundsStructIndex,
            VerifyError::UndefinedGlobal { name } => VerifyErrorV::UndefinedGlobal { name: name@ },
            VerifyError::IntegerSizeMismatch { left, right } => VerifyErrorV::IntegerSizeMismatch { left: *left, right: *right },
            VerifyError::ConstIntOverflow { value, ty } => VerifyErrorV::ConstIntOverflow { value: *value, ty: *ty },
            VerifyError::ArgumentStore { idx } => VerifyErrorV::ArgumentStore { idx: *idx },
            VerifyError::UndefinedType { ty } => VerifyErrorV::UndefinedType { ty: *ty },
            VerifyError::UndefinedStaticItem { item } => VerifyErrorV::UndefinedStaticItem { item: *item },
        }
    }
}

/// What the verifier records about one instruction.
#[derive(PartialEq, Eq, Structural, Clone, Copy, Debug)]
pub struct InstrAnnot {
    /// The function type popped by an indirect call.
    pub ty: Option<Ty>,
    /// The source type of a bitcast.
    pub from: Option<Ty>,
    /// The operand width and sign of a numeric instruction.
    pub bws: Option<BitWidthSign>,
}

pub open spec fn no_annot() -> InstrAnnot {
    InstrAnnot { ty: None, from: None, bws: None }
}

pub open spec fn bws_annot(b: Option<BitWidthSign>) -> InstrAnnot {
    InstrAnnot { ty: None, from: None, bws: b }
}

/// `n` empty annotations.
pub open spec fn no_annots(n: nat) -> Seq<InstrAnnot> {
    Seq::new(n, |_k: int| no_annot())
}

pub proof fn lemma_no_annots(n: nat)
    ensures
        no_annots(n).len() == n,
        forall|k: int| 0 <= k < n ==> #[trigger] no_annots(n)[k] == no_annot(),
{
}

/// The effect of one instruction on the stack.
pub enum StepV {
    /// Verification goes on with this stack.
    Next(Seq<Ty>, InstrAnnot),
    /// Control leaves the block here; the rest of it is not checked.
    Done,
    Error(VerifyErrorV),
}

pub open spec fn ty_ok(t: Seq<TypeV>, ty: Ty) -> bool {
    ty < t.len()
}

pub open spec fn ty_is_int(t: Seq<TypeV>, ty: Ty) -> bool {
    ty < t.len() && t[ty as int].is_int()
}

pub open spec fn ty_is_float(t: Seq<TypeV>, ty: Ty) -> bool {
    ty < t.len() && t[ty as int].is_float()
}

pub open spec fn ty_is_ptr(t: Seq<TypeV>, ty: Ty) -> bool {
    ty < t.len() && t[ty as int].is_ptr()
}

pub open spec fn ty_is_struct(t: Seq<TypeV>, ty: Ty) -> bool {
    ty < t.len() && t[ty as int].is_struct()
}

/// Whether the constant `v` (as 32 bits) lies in the range of the integer type `tv`.
pub open spec fn fits_const(v: u32, tv: TypeV) -> bool {
    match tv {
        TypeV::Int8 => v <= 0x7f || v >= 0xffff_ff80,
        TypeV::UInt8 => v <= 0xff,
        TypeV::Int16 => v <= 0x7fff || v >= 0xffff_8000,
        TypeV::UInt16 => v <= 0xffff,
        _ => true,
    }
}

/// Pop `args` off the top of `s`, last argument first.
pub open spec fn pop_args(s: Seq<Ty>, args: Seq<Ty>, site: Site) -> Result<Seq<Ty>, VerifyErrorV>
    decreases args.len(),
{
    if args.len() == 0 {
        Ok(s)
    } else if s.len() == 0 {
        Err(VerifyErrorV::StackUnderflow)
    } else if s.last() != args.last() {
        Err(VerifyErrorV::InvalidType { expected: args.last(), actual: s.last(), reason: site })
    } else {
        pop_args(s.drop_last(), args.drop_last(), site)
    }
}

/// Integer arithmetic, comparison and bitwise operations.
pub open spec fn step_int_binop(t: Seq<TypeV>, instr: InstrK, s: Seq<Ty>) -> StepV {
    if s.len() < 2 {
        StepV::Error(VerifyErrorV::StackUnderflow)
    } else {
        let lhs = s.last();
        let rhs = s[s.len() - 2];
        if !ty_is_int(t, lhs) {
            StepV::Error(VerifyErrorV::InvalidType { expected: if ty_is_int(t, rhs) { rhs } else { INT32_T }, actual: lhs, reason: Site::IntegerOp })
        } else if !ty_is_int(t, rhs) {
            StepV::Error(VerifyErrorV::InvalidType { expected: lhs, actual: rhs, reason: Site::IntegerOp })
        } else if lhs != rhs {
            StepV::Error(VerifyErrorV::IntegerSizeMismatch { left: lhs, right: rhs })
        } else {
            let res = if instr is ICmp { INT32_T } else { lhs };
            let annot = if instr is BitAnd || instr is BitOr { no_annot() } else { bws_annot(spec_type_bws(t, lhs)) };
            StepV::Next(s.take(s.len() - 2).push(res), annot)
        }
    }
}

/// Float arithmetic and comparison.
pub open spec fn step_float_binop(t: Seq<TypeV>, res: Ty, s: Seq<Ty>) -> StepV {
    if s.len() < 2 {
        StepV::Error(VerifyErrorV::StackUnderflow)
    } else {
        let lhs = s.last();
        let rhs = s[s.len() - 2];
        if ty_is_float(t, lhs) && ty_is_float(t, rhs) {
            StepV::Next(s.take(s.len() - 2).push(res), no_annot())
        } else if ty_is_float(t, lhs) {
            StepV::Error(VerifyErrorV::InvalidType { expected: FLOAT32_T, actual: rhs, reason: Site::FloatOp })
        } else {
            StepV::Error(VerifyErrorV::InvalidType { expected: FLOAT32_T, actual: lhs, reason: Site::FloatOp })
        }
    }
}

/// A call: pop the arguments, push the results.
pub open spec fn step_call(args: Seq<Ty>, rets: Seq<Ty>, s: Seq<Ty>, site: Site, annot: InstrAnnot) -> StepV {
    match pop_args(s, args, site) {
        Ok(s2) => StepV::Next(s2 + rets, annot),
        Err(e) => StepV::Error(e),
    }
}

/// The transfer function of one instruction, with its checks in order.
pub open spec fn spec_step(m: Module, f: Function, instr: InstrK, s: Seq<Ty>) -> StepV {
    let t = m.types@;
    let top = s.last();
    let rest = s.drop_last();
    match instr {
        InstrK::LdInt(v, ty) => {
            if !ty_is_int(t, ty) {
                StepV::Error(VerifyErrorV::InvalidType { expected: INT32_T, actual: ty, reason: Site::LdInt })
            } else if !fits_const(v, t[ty as int]) {
                StepV::Error(VerifyErrorV::ConstIntOverflow { value: v, ty })
            } else {
                StepV::Next(s.push(ty), no_annot())
            }
        },
        InstrK::LdFloat(_) => StepV::Next(s.push(FLOAT32_T), no_annot()),
        InstrK::IAdd | InstrK::ISub | InstrK::IMul | InstrK::IDiv | InstrK::ICmp(_) | InstrK::BitAnd | InstrK::BitOr => step_int_binop(t, instr, s),
        InstrK::FAdd | InstrK::FSub | InstrK::FMul | InstrK::FDiv => step_float_binop(t, FLOAT32_T, s),
        InstrK::FCmp(_) => step_float_binop(t, INT32_T, s),
        InstrK::Not => {
            if s.len() == 0 {
                StepV::Error(VerifyErrorV::StackUnderflow)
            } else if !ty_is_int(t, top) {
                StepV::Error(VerifyErrorV::InvalidType { expected: INT32_T, actual: top, reason: Site::Not })
            } else {
                StepV::Next(rest.push(INT32_T), no_annot())
            }
        },
        InstrK::Itof => {
            if s.len() == 0 {
                StepV::Error(VerifyErrorV::StackUnderflow)
            } else if !ty_is_int(t, top) {
                StepV::Error(VerifyErrorV::InvalidType { expected: INT32_T, actual: top, reason: Site::Itof })
            } else {
                StepV::Next(rest.push(FLOAT32_T), bws_annot(spec_type_bws(t, top)))
            }
        },
        InstrK::Ftoi { int_ty } => {
            if s.len() == 0 {
                StepV::Error(VerifyErrorV::StackUnderflow)
            } else if !ty_is_float(t, top) {
                StepV::Error(VerifyErrorV::InvalidType { expected: FLOAT32_T, actual: top, reason: Site::Ftoi })
            } else if !ty_is_int(t, int_ty) {
                StepV::Error(VerifyErrorV::InvalidType { expected: INT32_T, actual: int_ty, reason: Site::FtoiTarget })
            } else {
                StepV::Next(rest.push(int_ty), bws_annot(spec_type_bws(t, int_ty)))
            }
        },
        InstrK::IConv { target } => {
            if s.len() == 0 {
                StepV::Error(VerifyErrorV::StackUnderflow)
            } else if !ty_is_int(t, top) {
                StepV::Error(VerifyErrorV::InvalidType { expected: INT32_T, actual: top, reason: Site::IConv })
            } else if !ty_is_int(t, target) {
                StepV::Error(VerifyErrorV::InvalidType { expected: INT32_T, actual: target, reason: Site::IConvTarget })
            } else {
                StepV::Next(rest.push(target), bws_annot(spec_type_bws(t, top)))
            }
        },
        InstrK::CallDirect { func_name } => {
            match lookup_func(m, func_name@) {
                None => StepV::Error(VerifyErrorV::UndefinedFunctionCall { func_name: func_name@ }),
                Some(g) => step_call(g.spec_args(), g.spec_rets(), s, Site::CallArgument, no_annot()),
            }
        },
        InstrK::LdLocal { idx } => {
            if idx < f.all_locals_types@.len() {
                StepV::Next(s.push(f.all_locals_types@[idx as int]), no_annot())
            } else {
                StepV::Error(VerifyErrorV::OutOfBoundsLocalIndex)
            }
        },
        InstrK::StLocal { idx } => {
            if s.len() == 0 {
                StepV::Error(VerifyErrorV::StackUnderflow)
            } else if idx >= f.all_locals_types@.len() {
                StepV::Error(VerifyErrorV::OutOfBoundsLocalIndex)
            } else if f.all_locals_types@[idx as int] != top {
                StepV::Error(VerifyErrorV::InvalidType { expected: f.all_locals_types@[idx as int], actual: top, reason: Site::LocalStore })
            } else if idx < f.args@.len() {
                StepV::Error(VerifyErrorV::ArgumentStore { idx })
            } else {
                StepV::Next(rest, no_annot())
            }
        },
        InstrK::LdGlobalFunc { func_name } => {
            match lookup_func(m, func_name@) {
                None => StepV::Error(VerifyErrorV::UndefinedFunctionCall { func_name: func_name@ }),
                Some(g) => StepV::Next(s.push(g.spec_ty()), no_annot()),
            }
        },
        InstrK::CallIndirect => {
            if s.len() == 0 {
                StepV::Error(VerifyErrorV::StackUnderflow)
            } else if top < t.len() && t[top as int] is Func {
                let ft = t[top as int];
                step_call(ft->Func_args, ft->Func_ret, rest, Site::IndirectCallArgument,
                    InstrAnnot { ty: Some(top), from: None, bws: None })
            } else {
                StepV::Error(VerifyErrorV::InvalidTypeCallIndirect)
            }
        },
        InstrK::Bitcast { target } => {
            if !ty_ok(t, target) {
                StepV::Error(VerifyErrorV::UndefinedType { ty: target })
            } else if ty_is_struct(t, target) {
                StepV::Error(VerifyErrorV::UnexpectedStructType { where_: StructSite::Bitcast })
            } else if s.len() == 0 {
                StepV::Error(VerifyErrorV::StackUnderflow)
            } else {
                StepV::Next(rest.push(target), InstrAnnot { ty: None, from: Some(top), bws: None })
            }
        },
        InstrK::IfElse { then, else_ } => {
            if s.len() == 0 {
                StepV::Error(VerifyErrorV::StackUnderflow)
            } else if !ty_is_int(t, top) {
                StepV::Error(VerifyErrorV::InvalidType { expected: INT32_T, actual: top, reason: Site::IfCondition })
            } else if then.0 >= f.blocks@.len() {
                StepV::Error(VerifyErrorV::InvalidBlockId)
            } else {
                let then_rets = f.blocks@[then.0 as int].rets@;
                match else_ {
                    Some(e) => {
                        if e.0 >= f.blocks@.len() {
                            StepV::Error(VerifyErrorV::InvalidBlockId)
                        } else if f.blocks@[e.0 as int].rets@ != then_rets {
                            StepV::Error(VerifyErrorV::InvalidBlockType { block: e, expected: then_rets, actual: f.blocks@[e.0 as int].rets@ })
                        } else {
                            StepV::Next(rest + then_rets, no_annot())
                        }
                    },
                    None => {
                        if then_rets.len() != 0 {
                            StepV::Error(VerifyErrorV::InvalidBlockType { block: then, expected: Seq::empty(), actual: then_rets })
                        } else {
                            StepV::Next(rest + then_rets, no_annot())
                        }
                    },
                }
            }
        },
        InstrK::Read { ty } => {
            if !ty_ok(t, ty) {
                StepV::Error(VerifyErrorV::UndefinedType { ty })
            } else if ty_is_struct(t, ty) {
                StepV::Error(VerifyErrorV::UnexpectedStructType { where_: StructSite::Read })
            } else if s.len() == 0 {
                StepV::Error(VerifyErrorV::StackUnderflow)
            } else if !ty_is_ptr(t, top) {
                StepV::Error(VerifyErrorV::InvalidType { expected: PTR_T, actual: top, reason: Site::Read })
            } else {
                StepV::Next(rest.push(ty), no_annot())
            }
        },
        InstrK::Write { ty } => {
            if !ty_ok(t, ty) {
                StepV::Error(VerifyErrorV::UndefinedType { ty })
            } else if ty_is_struct(t, ty) {
                StepV::Error(VerifyErrorV::UnexpectedStructType { where_: StructSite::Write })
            } else if s.len() == 0 {
                StepV::Error(VerifyErrorV::StackUnderflow)
            } else if top != ty {
                StepV::Error(VerifyErrorV::InvalidType { expected: ty, actual: top, reason: Site::Write })
            } else if rest.len() == 0 {
                StepV::Error(VerifyErrorV::StackUnderflow)
            } else if !ty_is_ptr(t, rest.last()) {
                StepV::Error(VerifyErrorV::InvalidType { expected: PTR_T, actual: rest.last(), reason: Site::Write })
            } else {
                StepV::Next(rest.drop_last(), no_annot())
            }
        },
        InstrK::Offset { ty } => {
            if !ty_ok(t, ty) {
                StepV::Error(VerifyErrorV::UndefinedType { ty })
            } else if s.len() == 0 {
                StepV::Error(VerifyErrorV::StackUnderflow)
            } else if !ty_is_int(t, top) {
                StepV::Error(VerifyErrorV::InvalidType { expected: INT32_T, actual: top, reason: Site::Offset })
            } else if rest.len() == 0 {
                StepV::Error(VerifyErrorV::StackUnderflow)
            } else if !ty_is_ptr(t, rest.last()) {
                StepV::Error(VerifyErrorV::InvalidType { expected: PTR_T, actual: rest.last(), reason: Site::Offset })
            } else {
                StepV::Next(rest.drop_last().push(PTR_T), no_annot())
            }
        },
        InstrK::GetFieldPtr { struct_ty, field_idx } => {
            if !ty_is_struct(t, struct_ty) {
                StepV::Error(VerifyErrorV::GetFieldPtrExpectedStructType)
            } else if field_idx >= t[struct_ty as int]->Struct_fields.len() {
                StepV::Error(VerifyErrorV::OutOfBoundsStructIndex)
            } else if s.len() == 0 {
                StepV::Error(VerifyErrorV::StackUnderflow)
            } else if !ty_is_ptr(t, top) {
                StepV::Error(VerifyErrorV::InvalidType { expected: PTR_T, actual: top, reason: Site::GetFieldPtr })
            } else {
                StepV::Next(rest.push(PTR_T), no_annot())
            }
        },
        InstrK::Discard => {
            if s.len() == 0 {
                StepV::Error(VerifyErrorV::StackUnderflow)
            } else {
                StepV::Next(rest, no_annot())
            }
        },
        InstrK::Return => {
            if s.len() != f.rets@.len() {
                StepV::Error(VerifyErrorV::StackUnderflow)
            } else {
                match pop_args(s, f.rets@, Site::Return) {
                    Ok(_) => StepV::Done,
                    Err(e) => StepV::Error(e),
                }
            }
        },
        InstrK::MemorySize => StepV::Next(s.push(INT32_T), no_annot()),
        InstrK::MemoryGrow => {
            if s.len() == 0 {
                StepV::Error(VerifyErrorV::StackUnderflow)
            } else if !ty_is_int(t, top) {
                StepV::Error(VerifyErrorV::InvalidType { expected: INT32_T, actual: top, reason: Site::MemoryGrow })
            } else {
                StepV::Next(s, no_annot())
            }
        },
        InstrK::LdGlobal(name) => {
            match lookup_global(m, name@) {
                None => StepV::Error(VerifyErrorV::UndefinedGlobal { name: name@ }),
                Some(g) => StepV::Next(s.push(g.ty), no_annot()),
            }
        },
        InstrK::StGlobal(name) => {
            if s.len() == 0 {
                StepV::Error(VerifyErrorV::StackUnderflow)
            } else {
                match lookup_global(m, name@) {
                    None => StepV::Error(VerifyErrorV::UndefinedGlobal { name: name@ }),
                    Some(g) => if top != g.ty {
                        StepV::Error(VerifyErrorV::InvalidType { expected: g.ty, actual: top, reason: Site::StGlobal })
                    } else {
                        StepV::Next(rest, no_annot())
                    },
                }
            }
        },
        InstrK::Fail => StepV::Done,
        InstrK::Loop(body) => {
            if body.0 >= f.blocks@.len() {
                StepV::Error(VerifyErrorV::InvalidBlockId)
            } else if f.blocks@[body.0 as int].rets@.len() != 0 {
                StepV::Error(VerifyErrorV::InvalidBlockType { block: body, expected: Seq::empty(), actual: f.blocks@[body.0 as int].rets@ })
            } else {
                StepV::Next(s, no_annot())
            }
        },
        InstrK::Break => StepV::Done,
        InstrK::LdStaticMemPtr(h) => {
            if h.0 >= m.static_memory.items@.len() {
                StepV::Error(VerifyErrorV::UndefinedStaticItem { item: h })
            } else {
                StepV::Next(s.push(PTR_T), no_annot())
            }
        },
    }
}

/// Run the block `b` from instruction `i` on stack `s`: the annotations of
/// instructions `i..`, or the first error. At the end of the block the stack
/// must hold exactly the block's return types.
pub open spec fn spec_run(m: Module, f: Function, b: InstrBlock, i: int, s: Seq<Ty>) -> Result<Seq<InstrAnnot>, VerifyErrorV>
    decreases b.body@.len() - i,
{
    if i >= b.body@.len() {
        if s == b.rets@ {
            Ok(Seq::empty())
        } else {
            Err(VerifyErrorV::InvalidBlockType { block: b.idx, expected: b.rets@, actual: s })
        }
    } else {
        match spec_step(m, f, b.body@[i].kind, s) {
            StepV::Next(s2, a) => match spec_run(m, f, b, i + 1, s2) {
                Ok(rest) => Ok(seq![a] + rest),
                Err(e) => Err(e),
            },
            StepV::Done => Ok(no_annots((b.body@.len() - i) as nat)),
            StepV::Error(e) => Err(e),
        }
    }
}

/// Verifying a block: run it from an empty stack.
pub open spec fn spec_verify_block(m: Module, f: Function, b: InstrBlock) -> Result<Seq<InstrAnnot>, VerifyErrorV> {
    spec_run(m, f, b, 0, Seq::empty())
}

} // verus!

verus! {

fn is_int_ty(table: &TypeTable, ty: Ty) -> (r: bool)
    ensures
        r == ty_is_int(table@, ty),
{
    ty < table.len() && table.get(ty).is_int()
}

fn is_float_ty(table: &TypeTable, ty: Ty) -> (r: bool)
    ensures
        r == ty_is_float(table@, ty),
{
    ty < table.len() && table.get(ty).is_float()
}

fn is_ptr_ty(table: &TypeTable, ty: Ty) -> (r: bool)
    ensures
        r == ty_is_ptr(table@, ty),
{
    ty < table.len() && table.get(ty).is_ptr()
}

fn is_struct_ty(table: &TypeTable, ty: Ty) -> (r: bool)
    ensures
        r == ty_is_struct(table@, ty),
{
    ty < table.len() && table.get(ty).is_struct()
}

/// Pop `args` off the stack, last argument first, checking each type.
fn pop_args_exec(stack: &mut Vec<Ty>, args: &Vec<Ty>, site: Site) -> (r: Result<(), VerifyError>)
    ensures
        match pop_args(old(stack)@, args@, site) {
            Ok(s) => r is Ok && final(stack)@ == s,
            Err(e) => r matches Err(x) && x@ == e,
        },
{
    let mut k: usize = args.len();
    assert(args@.take(k as int) =~= args@);
    while k > 0
        invariant
            k <= args@.len(),
            pop_args(old(stack)@, args@, site) == pop_args(stack@, args@.take(k as int), site),
        decreases k,
    {
        let ghost pre = args@.take(k as int);
        assert(pre.last() == args@[k - 1]);
        assert(pre.drop_last() =~= args@.take(k - 1));
        if stack.len() == 0 {
            return Err(VerifyError::StackUnderflow);
        }
        let v = stack[stack.len() - 1];
        if v != args[k - 1] {
            return Err(VerifyError::InvalidType { expected: args[k - 1], actual: v, reason: site });
        }
        stack.pop();
        k = k - 1;
    }
    assert(args@.take(0) =~= Seq::<Ty>::empty());
    Ok(())
}

fn push_all(stack: &mut Vec<Ty>, v: &Vec<Ty>)
    ensures
        final(stack)@ == old(stack)@ + v@,
{
    let mut i: usize = 0;
    while i < v.len()
        invariant
            i <= v@.len(),
            stack@ == old(stack)@ + v@.take(i as int),
        decreases v@.len() - i,
    {
        stack.push(v[i]);
        i = i + 1;
        assert(old(stack)@ + v@.take(i as int) =~= (old(stack)@ + v@.take(i - 1)).push(v@[i - 1]));
    }
    assert(v@.take(i as int) =~= v@);
}

fn annot_bws(b: Option<BitWidthSign>) -> (r: InstrAnnot)
    ensures
        r == bws_annot(b),
{
    InstrAnnot { ty: None, from: None, bws: b }
}

fn annot_none() -> (r: InstrAnnot)
    ensures
        r == no_annot(),
{
    InstrAnnot { ty: None, from: None, bws: None }
}

/// Whether the 32-bit constant `v` fits the integer type `ty`.
fn fits_const_exec(table: &TypeTable, v: u32, ty: Ty) -> (r: bool)
    requires
        ty < table@.len(),
    ensures
        r == fits_const(v, table@[ty as int]),
{
    match table.get(ty) {
        crate::ty::Type::Int8 => v <= 0x7f || v >= 0xffff_ff80,
        crate::ty::Type::UInt8 => v <= 0xff,
        crate::ty::Type::Int16 => v <= 0x7fff || v >= 0xffff_8000,
        crate::ty::Type::UInt16 => v <= 0xffff,
        _ => true,
    }
}

/// Apply one instruction to the stack: the annotation to record, `None` if
/// control leaves the block here, or the error.
pub fn verify_instr(module: &Module, function: &Function, instr: &InstrK, stack: &mut Vec<Ty>) -> (r: Result<Option<InstrAnnot>, VerifyError>)
    requires
        module.wf(),
    ensures
        match spec_step(*module, *function, *instr, old(stack)@) {
            StepV::Next(s2, a) => r == Ok::<Option<InstrAnnot>, VerifyError>(Some(a)) && final(stack)@ == s2,
            StepV::Done => r matches Ok(None),
            StepV::Error(e) => r matches Err(x) && x@ == e,
        },
{
    let table = &module.types;
    let n = stack.len();
    match instr {
        InstrK::LdInt(v, ty) => {
            if !is_int_ty(table, *ty) {
                return Err(VerifyError::InvalidType { expected: INT32_T, actual: *ty, reason: Site::LdInt });
            }
            if !fits_const_exec(table, *v, *ty) {
                return Err(VerifyError::ConstIntOverflow { value: *v, ty: *ty });
            }
            stack.push(*ty);
            Ok(Some(annot_none()))
        },
        InstrK::LdFloat(_) => {
            stack.push(FLOAT32_T);
            Ok(Some(annot_none()))
        },
        InstrK::IAdd | InstrK::ISub | InstrK::IMul | InstrK::IDiv | InstrK::ICmp(_) | InstrK::BitAnd | InstrK::BitOr => {
            if n < 2 {
                return Err(VerifyError::StackUnderflow);
            }
            let lhs = stack[n - 1];
            let rhs = stack[n - 2];
            if !is_int_ty(table, lhs) {
                let expected = if is_int_ty(table, rhs) { rhs } else { INT32_T };
                return Err(VerifyError::InvalidType { expected, actual: lhs, reason: Site::IntegerOp });
            }
            if !is_int_ty(table, rhs) {
                return Err(VerifyError::InvalidType { expected: lhs, actual: rhs, reason: Site::IntegerOp });
            }
            if lhs != rhs {
                return Err(VerifyError::IntegerSizeMismatch { left: lhs, right: rhs });
            }
            let res = match instr {
                InstrK::ICmp(_) => INT32_T,
                _ => lhs,
            };
            let annot = match instr {
                InstrK::BitAnd | InstrK::BitOr => annot_none(),
                _ => annot_bws(type_to_bws(table, lhs)),
            };
            stack.pop();
            stack.pop();
            stack.push(res);
            assert(stack@ =~= old(stack)@.take(n - 2).push(res));
            Ok(Some(annot))
        },
        InstrK::FAdd | InstrK::FSub | InstrK::FMul | InstrK::FDiv | InstrK::FCmp(_) => {
            let res = match instr {
                InstrK::FCmp(_) => INT32_T,
                _ => FLOAT32_T,
            };
            if n < 2 {
                return Err(VerifyError::StackUnderflow);
            }
            let lhs = stack[n - 1];
            let rhs = stack[n - 2];
            if is_float_ty(table, lhs) && is_float_ty(table, rhs) {
                stack.pop();
                stack.pop();
                stack.push(res);
                assert(stack@ =~= old(stack)@.take(n - 2).push(res));
                Ok(Some(annot_none()))
            } else if is_float_ty(table, lhs) {
                Err(VerifyError::InvalidType { expected: FLOAT32_T, actual: rhs, reason: Site::FloatOp })
            } else {
                Err(VerifyError::InvalidType { expected: FLOAT32_T, actual: lhs, reason: Site::FloatOp })
            }
        },
        InstrK::Not => {
            if n == 0 {
                return Err(VerifyError::StackUnderflow);
            }
            let top = stack[n - 1];
            if !is_int_ty(table, top) {
                return Err(VerifyError::InvalidType { expected: INT32_T, actual: top, reason: Site::Not });
            }
            stack.pop();
            stack.push(INT32_T);
            Ok(Some(annot_none()))
        },
        InstrK::Itof => {
            if n == 0 {
                return Err(VerifyError::StackUnderflow);
            }
            let top = stack[n - 1];
            if !is_int_ty(table, top) {
                return Err(VerifyError::InvalidType { expected: INT32_T, actual: top, reason: Site::Itof });
            }
            stack.pop();
            stack.push(FLOAT32_T);
            Ok(Some(annot_bws(type_to_bws(table, top))))
        },
        InstrK::Ftoi { int_ty } => {
            if n == 0 {
                return Err(VerifyError::StackUnderflow);
            }
            let top = stack[n - 1];
            if !is_float_ty(table, top) {
                return Err(VerifyError::InvalidType { expected: FLOAT32_T, actual: top, reason: Site::Ftoi });
            }
            if !is_int_ty(table, *int_ty) {
                return Err(VerifyError::InvalidType { expected: INT32_T, actual: *int_ty, reason: Site::FtoiTarget });
            }
            stack.pop();
            stack.push(*int_ty);
            Ok(Some(annot_bws(type_to_bws(table, *int_ty))))
        },
        InstrK::IConv { target } => {
            if n == 0 {
                return Err(VerifyError::StackUnderflow);
            }
            let top = stack[n - 1];
            if !is_int_ty(table, top) {
                return Err(VerifyError::InvalidType { expected: INT32_T, actual: top, reason: Site::IConv });
            }
            if !is_int_ty(table, *target) {
                return Err(VerifyError::InvalidType { expected: INT32_T, actual: *target, reason: Site::IConvTarget });
            }
            stack.pop();
            stack.push(*target);
            Ok(Some(annot_bws(type_to_bws(table, top))))
        },
        InstrK::CallDirect { func_name } => {
            match module.find_function(func_name.as_str()) {
                None => Err(VerifyError::UndefinedFunctionCall { func_name: func_name.clone() }),
                Some(g) => {
                    match pop_args_exec(stack, g.arg_tys(), Site::CallArgument) {
                        Err(e) => Err(e),
                        Ok(()) => {
                            push_all(stack, g.ret_tys());
                            Ok(Some(annot_none()))
                        },
                    }
                },
            }
        },
        InstrK::LdLocal { idx } => {
            match function.local_ty(*idx) {
                Some(t) => {
                    stack.push(t);
                    Ok(Some(annot_none()))
                },
                None => Err(VerifyError::OutOfBoundsLocalIndex),
            }
        },
        InstrK::StLocal { idx } => {
            if n == 0 {
                return Err(VerifyError::StackUnderflow);
            }
            let top = stack[n - 1];
            match function.local_ty(*idx) {
                None => Err(VerifyError::OutOfBoundsLocalIndex),
                Some(lt) => {
                    if lt != top {
                        Err(VerifyError::InvalidType { expected: lt, actual: top, reason: Site::LocalStore })
                    } else if function.is_local_an_arg(*idx) {
                        Err(VerifyError::ArgumentStore { idx: *idx })
                    } else {
                        stack.pop();
                        Ok(Some(annot_none()))
                    }
                },
            }
        },
        InstrK::LdGlobalFunc { func_name } => {
            match module.find_function(func_name.as_str()) {
                None => Err(VerifyError::UndefinedFunctionCall { func_name: func_name.clone() }),
                Some(g) => {
                    stack.push(g.ty());
                    Ok(Some(annot_none()))
                },
            }
        },
        InstrK::CallIndirect => {
            if n == 0 {
                return Err(VerifyError::StackUnderflow);
            }
            let top = stack[n - 1];
            if top >= table.len() {
                return Err(VerifyError::InvalidTypeCallIndirect);
            }
            match table.get(top) {
                crate::ty::Type::Func { args, ret } => {
                    stack.pop();
                    match pop_args_exec(stack, args, Site::IndirectCallArgument) {
                        Err(e) => Err(e),
                        Ok(()) => {
                            push_all(stack, ret);
                            Ok(Some(InstrAnnot { ty: Some(top), from: None, bws: None }))
                        },
                    }
                },
                _ => Err(VerifyError::InvalidTypeCallIndirect),
            }
        },
        InstrK::Bitcast { target } => {
            if *target >= table.len() {
                return Err(VerifyError::UndefinedType { ty: *target });
            }
            if is_struct_ty(table, *target) {
                return Err(VerifyError::UnexpectedStructType { where_: StructSite::Bitcast });
            }
            if n == 0 {
                return Err(VerifyError::StackUnderflow);
            }
            let top = stack[n - 1];
            stack.pop();
            stack.push(*target);
            Ok(Some(InstrAnnot { ty: None, from: Some(top), bws: None }))
        },
        InstrK::IfElse { then, else_ } => {
            if n == 0 {
                return Err(VerifyError::StackUnderflow);
            }
            let top = stack[n - 1];
            if !is_int_ty(table, top) {
                return Err(VerifyError::InvalidType { expected: INT32_T, actual: top, reason: Site::IfCondition });
            }
            let then_block = match function.get_block(*then) {
                Some(b) => b,
                None => return Err(VerifyError::InvalidBlockId),
            };
            match else_ {
                Some(e) => {
                    let else_block = match function.get_block(*e) {
                        Some(b) => b,
                        None => return Err(VerifyError::InvalidBlockId),
                    };
                    if !crate::ty::tys_equal(&else_block.rets, &then_block.rets) {
                        return Err(VerifyError::InvalidBlockType { block: *e, expected: copy_tys(&then_block.rets), actual: copy_tys(&else_block.rets) });
                    }
                },
                None => {
                    if then_block.rets.len() != 0 {
                        return Err(VerifyError::InvalidBlockType { block: *then, expected: Vec::new(), actual: copy_tys(&then_block.rets) });
                    }
                },
            }
            stack.pop();
            push_all(stack, &then_block.rets);
            Ok(Some(annot_none()))
        },
        InstrK::Read { ty } => {
            if *ty >= table.len() {
                return Err(VerifyError::UndefinedType { ty: *ty });
            }
            if is_struct_ty(table, *ty) {
                return Err(VerifyError::UnexpectedStructType { where_: StructSite::Read });
            }
            if n == 0 {
                return Err(VerifyError::StackUnderflow);
            }
            let top = stack[n - 1];
            if !is_ptr_ty(table, top) {
                return Err(VerifyError::InvalidType { expected: PTR_T, actual: top, reason: Site::Read });
            }
            stack.pop();
            stack.push(*ty);
            Ok(Some(annot_none()))
        },
        InstrK::Write { ty } => {
            if *ty >= table.len() {
                return Err(VerifyError::UndefinedType { ty: *ty });
            }
            if is_struct_ty(table, *ty) {
                return Err(VerifyError::UnexpectedStructType { where_: StructSite::Write });
            }
            if n == 0 {
                return Err(VerifyError::StackUnderflow);
            }
            let top = stack[n - 1];
            if top != *ty {
                return Err(VerifyError::InvalidType { expected: *ty, actual: top, reason: Site::Write });
            }
            if n < 2 {
                return Err(VerifyError::StackUnderflow);
            }
            let ptr = stack[n - 2];
            if !is_ptr_ty(table, ptr) {
                return Err(VerifyError::InvalidType { expected: PTR_T, actual: ptr, reason: Site::Write });
            }
            stack.pop();
            stack.pop();
            assert(stack@ =~= old(stack)@.drop_last().drop_last());
            Ok(Some(annot_none()))
        },
        InstrK::Offset { ty } => {
            if *ty >= table.len() {
                return Err(VerifyError::UndefinedType { ty: *ty });
            }
            if n == 0 {
                return Err(VerifyError::StackUnderflow);
            }
            let top = stack[n - 1];
            if !is_int_ty(table, top) {
                return Err(VerifyError::InvalidType { expected: INT32_T, actual: top, reason: Site::Offset });
            }
            if n < 2 {
                return Err(VerifyError::StackUnderflow);
            }
            let ptr = stack[n - 2];
            if !is_ptr_ty(table, ptr) {
                return Err(VerifyError::InvalidType { expected: PTR_T, actual: ptr, reason: Site::Offset });
            }
            stack.pop();
            stack.pop();
            stack.push(PTR_T);
            assert(stack@ =~= old(stack)@.drop_last().drop_last().push(PTR_T));
            Ok(Some(annot_none()))
        },
        InstrK::GetFieldPtr { struct_ty, field_idx } => {
            if !is_struct_ty(table, *struct_ty) {
                return Err(VerifyError::GetFieldPtrExpectedStructType);
            }
            let count = match table.get(*struct_ty) {
                crate::ty::Type::Struct { fields } => fields.len(),
                _ => 0,
            };
            if *field_idx >= count {
                return Err(VerifyError::OutOfBoundsStructIndex);
            }
            if n == 0 {
                return Err(VerifyError::StackUnderflow);
            }
            let top = stack[n - 1];
            if !is_ptr_ty(table, top) {
                return Err(VerifyError::InvalidType { expected: PTR_T, actual: top, reason: Site::GetFieldPtr });
            }
            stack.pop();
            stack.push(PTR_T);
            Ok(Some(annot_none()))
        },
        InstrK::Discard => {
            if n == 0 {
                return Err(VerifyError::StackUnderflow);
            }
            stack.pop();
            Ok(Some(annot_none()))
        },
        InstrK::Return => {
            if n != function.ret_count() {
                return Err(VerifyError::StackUnderflow);
            }
            match pop_args_exec(stack, function.ret_tys(), Site::Return) {
                Err(e) => Err(e),
                Ok(()) => Ok(None),
            }
        },
        InstrK::MemorySize => {
            stack.push(INT32_T);
            Ok(Some(annot_none()))
        },
        InstrK::MemoryGrow => {
            if n == 0 {
                return Err(VerifyError::StackUnderflow);
            }
            let top = stack[n - 1];
            if !is_int_ty(table, top) {
                return Err(VerifyError::InvalidType { expected: INT32_T, actual: top, reason: Site::MemoryGrow });
            }
            Ok(Some(annot_none()))
        },
        InstrK::LdGlobal(name) => {
            match module.find_global(name.as_str()) {
                None => Err(VerifyError::UndefinedGlobal { name: name.clone() }),
                Some(g) => {
                    stack.push(g.ty);
                    Ok(Some(annot_none()))
                },
            }
        },
        InstrK::StGlobal(name) => {
            if n == 0 {
                return Err(VerifyError::StackUnderflow);
            }
            let top = stack[n - 1];
            match module.find_global(name.as_str()) {
                None => Err(VerifyError::UndefinedGlobal { name: name.clone() }),
                Some(g) => {
                    if top != g.ty {
                        Err(VerifyError::InvalidType { expected: g.ty, actual: top, reason: Site::StGlobal })
                    } else {
                        stack.pop();
                        Ok(Some(annot_none()))
                    }
                },
            }
        },
        InstrK::Fail => Ok(None),
        InstrK::Loop(body) => {
            match function.get_block(*body) {
                None => Err(VerifyError::InvalidBlockId),
                Some(b) => {
                    if b.rets.len() != 0 {
                        Err(VerifyError::InvalidBlockType { block: *body, expected: Vec::new(), actual: copy_tys(&b.rets) })
                    } else {
                        Ok(Some(annot_none()))
                    }
                },
            }
        },
        InstrK::Break => Ok(None),
        InstrK::LdStaticMemPtr(h) => {
            if h.0 >= module.static_memory.items.len() {
                return Err(VerifyError::UndefinedStaticItem { item: *h });
            }
            stack.push(PTR_T);
            Ok(Some(annot_none()))
        },
    }
}

} // verus!

verus! {

/// Check that each handle in `s` names a type of the table that is not a struct.
pub open spec fn check_value_tys(t: Seq<TypeV>, s: Seq<Ty>, site: StructSite) -> Result<(), VerifyErrorV>
    decreases s.len(),
{
    if s.len() == 0 {
        Ok(())
    } else if !ty_ok(t, s[0]) {
        Err(VerifyErrorV::UndefinedType { ty: s[0] })
    } else if ty_is_struct(t, s[0]) {
        Err(VerifyErrorV::UnexpectedStructType { where_: site })
    } else {
        check_value_tys(t, s.drop_first(), site)
    }
}

/// Check the return types of blocks `k..`.
pub open spec fn check_block_rets(t: Seq<TypeV>, bs: Seq<InstrBlock>, k: int) -> Result<(), VerifyErrorV>
    decreases bs.len() - k,
{
    if k >= bs.len() {
        Ok(())
    } else {
        match check_value_tys(t, bs[k].rets@, StructSite::BlockReturn) {
            Ok(()) => check_block_rets(t, bs, k + 1),
            Err(e) => Err(e),
        }
    }
}

/// No local, return value or block return of `f` has a struct type or an undefined one.
pub open spec fn spec_no_struct_types(t: Seq<TypeV>, f: Function) -> Result<(), VerifyErrorV> {
    match check_value_tys(t, f.all_locals_types@, StructSite::FunctionLocal) {
        Err(e) => Err(e),
        Ok(()) => match check_value_tys(t, f.rets@, StructSite::FunctionReturn) {
            Err(e) => Err(e),
            Ok(()) => check_block_rets(t, f.blocks@, 0),
        },
    }
}

/// Verify blocks `k..` of `f`, in id order.
pub open spec fn spec_run_blocks(m: Module, f: Function, k: int) -> Result<Seq<Seq<InstrAnnot>>, VerifyErrorV>
    decreases f.blocks@.len() - k,
{
    if k >= f.blocks@.len() {
        Ok(Seq::empty())
    } else {
        match spec_verify_block(m, f, f.blocks@[k]) {
            Err(e) => Err(e),
            Ok(a) => match spec_run_blocks(m, f, k + 1) {
                Err(e) => Err(e),
                Ok(rest) => Ok(seq![a] + rest),
            },
        }
    }
}

/// Verifying a function: its declared types, then each block.
pub open spec fn spec_verify_function(m: Module, f: Function) -> Result<Seq<Seq<InstrAnnot>>, VerifyErrorV> {
    match spec_no_struct_types(m.types@, f) {
        Err(e) => Err(e),
        Ok(()) => spec_run_blocks(m, f, 0),
    }
}

fn check_value_tys_exec(table: &TypeTable, s: &Vec<Ty>, site: StructSite) -> (r: Result<(), VerifyError>)
    ensures
        match check_value_tys(table@, s@, site) {
            Ok(()) => r is Ok,
            Err(e) => r matches Err(x) && x@ == e,
        },
{
    let mut i: usize = 0;
    assert(s@.skip(0) =~= s@);
    while i < s.len()
        invariant
            i <= s@.len(),
            check_value_tys(table@, s@, site) == check_value_tys(table@, s@.skip(i as int), site),
        decreases s@.len() - i,
    {
        let ghost rest = s@.skip(i as int);
        assert(rest[0] == s@[i as int]);
        assert(rest.drop_first() =~= s@.skip(i + 1));
        let ty = s[i];
        if ty >= table.len() {
            return Err(VerifyError::UndefinedType { ty });
        }
        if is_struct_ty(table, ty) {
            return Err(VerifyError::UnexpectedStructType { where_: site });
        }
        i = i + 1;
    }
    assert(s@.skip(i as int) =~= Seq::<Ty>::empty());
    Ok(())
}

/// The verifier pass. Its result records, per block and instruction, the
/// types that lowering needs.
pub struct Verifier {}

pub struct VerifierMutInfo {
    /// `annots[b][i]` belongs to instruction `i` of block `b`.
    pub annots: Vec<Vec<InstrAnnot>>,
}

impl Verifier {
    /// Reject struct-typed (or undefined) locals, return values and block returns.
    pub fn verify_no_struct_types(&self, module: &Module, function: &Function) -> (r: Result<(), VerifyError>)
        ensures
            match spec_no_struct_types(module.types@, *function) {
                Ok(()) => r is Ok,
                Err(e) => r matches Err(x) && x@ == e,
            },
    {
        let table = &module.types;
        match check_value_tys_exec(table, &function.all_locals_types, StructSite::FunctionLocal) {
            Err(e) => return Err(e),
            Ok(()) => {},
        }
        match check_value_tys_exec(table, &function.rets, StructSite::FunctionReturn) {
            Err(e) => return Err(e),
            Ok(()) => {},
        }
        let mut k: usize = 0;
        while k < function.blocks.len()
            invariant
                k <= function.blocks@.len(),
                check_block_rets(table@, function.blocks@, 0) == check_block_rets(table@, function.blocks@, k as int),
                table == &module.types,
                check_value_tys(table@, function.all_locals_types@, StructSite::FunctionLocal) is Ok,
                check_value_tys(table@, function.rets@, StructSite::FunctionReturn) is Ok,
            decreases function.blocks@.len() - k,
        {
            match check_value_tys_exec(table, &function.blocks[k].rets, StructSite::BlockReturn) {
                Err(e) => {
                    assert(check_block_rets(table@, function.blocks@, k as int) == Err::<(), VerifyErrorV>(e@));
                    return Err(e);
                },
                Ok(()) => {},
            }
            k = k + 1;
        }
        Ok(())
    }

    /// Run one block from an empty stack.
    pub fn verify_block(&self, module: &Module, function: &Function, block: &InstrBlock) -> (r: Result<Vec<InstrAnnot>, VerifyError>)
        requires
            module.wf(),
        ensures
            match spec_verify_block(*module, *function, *block) {
                Ok(a) => r matches Ok(v) && v@ == a,
                Err(e) => r matches Err(x) && x@ == e,
            },
    {
        let mut stack: Vec<Ty> = Vec::new();
        let mut annots: Vec<InstrAnnot> = Vec::new();
        let mut i: usize = 0;
        let ghost goal = spec_verify_block(*module, *function, *block);
        while i < block.body.len()
            invariant
                module.wf(),
                i <= block.body@.len(),
                annots@.len() == i,
                goal == spec_verify_block(*module, *function, *block),
                goal == match spec_run(*module, *function, *block, i as int, stack@) {
                    Ok(rest) => Ok(annots@ + rest),
                    Err(e) => Err(e),
                },
            decreases block.body@.len() - i,
        {
            let ghost s0 = stack@;
            match verify_instr(module, function, &block.body[i].kind, &mut stack) {
                Err(e) => return Err(e),
                Ok(Some(a)) => {
                    proof {
                        if let Ok(rest) = spec_run(*module, *function, *block, i + 1, stack@) {
                            assert(annots@.push(a) + rest =~= annots@ + (seq![a] + rest));
                        }
                    }
                    annots.push(a);
                    i = i + 1;
                },
                Ok(None) => {
                    let ghost tail = no_annots((block.body@.len() - i) as nat);
                    proof {
                        lemma_no_annots((block.body@.len() - i) as nat);
                    }
                    let ghost start = annots@;
                    while i < block.body.len()
                        invariant
                            i <= block.body@.len(),
                            annots@.len() == i,
                            annots@ =~= start + tail.take(i - start.len()),
                            start.len() <= i,
                            tail.len() == block.body@.len() - start.len(),
                            forall|k: int| 0 <= k < tail.len() ==> #[trigger] tail[k] == no_annot(),
                        decreases block.body@.len() - i,
                    {
                        assert(tail[i - start.len()] == no_annot());
                        assert(tail.take(i + 1 - start.len()) =~= tail.take(i - start.len()).push(no_annot()));
                        annots.push(annot_none());
                        i = i + 1;
                    }
                    assert(tail.take(i - start.len()) =~= tail);
                    return Ok(annots);
                },
            }
        }
        if !crate::ty::tys_equal(&stack, &block.rets) {
            return Err(VerifyError::InvalidBlockType { block: block.idx, expected: copy_tys(&block.rets), actual: stack });
        }
        assert(annots@ + Seq::<InstrAnnot>::empty() =~= annots@);
        Ok(annots)
    }

    /// Verify a whole function: its declared types, then each block in id order.
    pub fn visit_function(&self, module: &Module, function: &Function) -> (r: Result<VerifierMutInfo, VerifyError>)
        requires
            module.wf(),
        ensures
            match spec_verify_function(*module, *function) {
                Ok(a) => r matches Ok(info) && info.annots@.len() == a.len()
                    && forall|k: int| 0 <= k < a.len() ==> (#[trigger] info.annots@[k])@ == a[k],
                Err(e) => r matches Err(x) && x@ == e,
            },
    {
        match self.verify_no_struct_types(module, function) {
            Err(e) => {
                assert(spec_verify_function(*module, *function) == Err::<Seq<Seq<InstrAnnot>>, VerifyErrorV>(e@));
                return Err(e);
            },
            Ok(()) => {},
        }
        let mut annots: Vec<Vec<InstrAnnot>> = Vec::new();
        let mut k: usize = 0;
        let ghost goal = spec_run_blocks(*module, *function, 0);
        while k < function.blocks.len()
            invariant
                module.wf(),
                k <= function.blocks@.len(),
                annots@.len() == k,
                goal == spec_run_blocks(*module, *function, 0),
                spec_no_struct_types(module.types@, *function) is Ok,
                match spec_run_blocks(*module, *function, k as int) {
                    Ok(rest) => goal matches Ok(a) && a.len() == k + rest.len()
                        && (forall|j: int| 0 <= j < k ==> (#[trigger] annots@[j])@ == a[j])
                        && (forall|j: int| 0 <= j < rest.len() ==> a[k + j] == #[trigger] rest[j]),
                    Err(e) => goal == Err::<Seq<Seq<InstrAnnot>>, VerifyErrorV>(e),
                },
            decreases function.blocks@.len() - k,
        {
            match self.verify_block(module, function, &function.blocks[k]) {
                Err(e) => return Err(e),
                Ok(a) => {
                    proof {
                        if let Ok(rest) = spec_run_blocks(*module, *function, k + 1) {
                            let full = seq![a@] + rest;
                            assert(full[0] == a@);
                            assert forall|j: int| 0 <= j < rest.len() implies goal->Ok_0[k + 1 + j] == #[trigger] rest[j] by {
                                assert(full[j + 1] == rest[j]);
                            }
                        }
                    }
                    annots.push(a);
                    k = k + 1;
                },
            }
        }
        Ok(VerifierMutInfo { annots })
    }
}

} // verus!

verus! {

/// `m` with the values that `a` records written over it.
pub open spec fn apply_annot(m: Metadata, a: InstrAnnot) -> Metadata {
    Metadata {
        ty: if a.ty is Some { a.ty } else { m.ty },
        from: if a.from is Some { a.from } else { m.from },
        bws: if a.bws is Some { a.bws } else { m.bws },
        ..m
    }
}

/// `nb` is `ob` with the annotations of its first `upto` instructions applied.
pub open spec fn block_annotated(ob: InstrBlock, nb: InstrBlock, a: Seq<InstrAnnot>, upto: int) -> bool {
    &&& nb.idx == ob.idx
    &&& nb.tag == ob.tag
    &&& nb.block_ty == ob.block_ty
    &&& nb.rets == ob.rets
    &&& nb.meta == ob.meta
    &&& nb.body@.len() == ob.body@.len()
    &&& forall|j: int| 0 <= j < upto ==> (#[trigger] nb.body@[j]).kind == ob.body@[j].kind
        && nb.body@[j].meta == apply_annot(ob.body@[j].meta, a[j])
    &&& forall|j: int| upto <= j < nb.body@.len() ==> #[trigger] nb.body@[j] == ob.body@[j]
}

/// `nf` is `of` with every block annotated from `annots`.
pub open spec fn function_annotated(of: Function, nf: Function, annots: Seq<Seq<InstrAnnot>>) -> bool {
    &&& nf.name == of.name
    &&& nf.ty == of.ty
    &&& nf.args == of.args
    &&& nf.rets == of.rets
    &&& nf.all_locals_types == of.all_locals_types
    &&& nf.idx == of.idx
    &&& nf.blocks@.len() == of.blocks@.len()
    &&& forall|b: int| 0 <= b < nf.blocks@.len() ==> block_annotated(of.blocks@[b], #[trigger] nf.blocks@[b], annots[b], of.blocks@[b].body@.len() as int)
}

fn merge_annot(m: Metadata, a: InstrAnnot) -> (r: Metadata)
    ensures
        r == apply_annot(m, a),
{
    let mut r = m;
    if a.ty.is_some() {
        r.ty = a.ty;
    }
    if a.from.is_some() {
        r.from = a.from;
    }
    if a.bws.is_some() {
        r.bws = a.bws;
    }
    r
}

impl Verifier {
    /// Write what verification recorded into the instructions' metadata.
    pub fn mutate_function(&self, function: &mut Function, info: VerifierMutInfo)
        requires
            info.annots@.len() == old(function).blocks@.len(),
            forall|b: int| 0 <= b < info.annots@.len() ==> (#[trigger] info.annots@[b])@.len() == old(function).blocks@[b].body@.len(),
        ensures
            function_annotated(*old(function), *final(function), info.annots@.map_values(|v: Vec<InstrAnnot>| v@)),
    {
        let ghost annots = info.annots@.map_values(|v: Vec<InstrAnnot>| v@);
        let ghost of = *function;
        let mut b: usize = 0;
        while b < function.blocks.len()
            invariant
                b <= function.blocks@.len(),
                function.blocks@.len() == of.blocks@.len(),
                annots == info.annots@.map_values(|v: Vec<InstrAnnot>| v@),
                annots.len() == of.blocks@.len(),
                forall|k: int| 0 <= k < annots.len() ==> (#[trigger] annots[k]).len() == of.blocks@[k].body@.len(),
                function.name == of.name && function.ty == of.ty && function.args == of.args && function.rets == of.rets
                    && function.all_locals_types == of.all_locals_types && function.idx == of.idx,
                forall|k: int| 0 <= k < b ==> block_annotated(of.blocks@[k], #[trigger] function.blocks@[k], annots[k], of.blocks@[k].body@.len() as int),
                forall|k: int| b <= k < function.blocks@.len() ==> #[trigger] function.blocks@[k] == of.blocks@[k],
            decreases function.blocks@.len() - b,
        {
            let mut i: usize = 0;
            assert(annots[b as int] == info.annots@[b as int]@);
            while i < function.blocks[b].body.len()
                invariant
                    b < function.blocks@.len(),
                    i <= function.blocks@[b as int].body@.len(),
                    function.blocks@.len() == of.blocks@.len(),
                    annots == info.annots@.map_values(|v: Vec<InstrAnnot>| v@),
                    annots.len() == of.blocks@.len(),
                    annots[b as int] == info.annots@[b as int]@,
                    forall|k: int| 0 <= k < annots.len() ==> (#[trigger] annots[k]).len() == of.blocks@[k].body@.len(),
                    function.name == of.name && function.ty == of.ty && function.args == of.args && function.rets == of.rets
                        && function.all_locals_types == of.all_locals_types && function.idx == of.idx,
                    forall|k: int| 0 <= k < b ==> block_annotated(of.blocks@[k], #[trigger] function.blocks@[k], annots[k], of.blocks@[k].body@.len() as int),
                    forall|k: int| b < k < function.blocks@.len() ==> #[trigger] function.blocks@[k] == of.blocks@[k],
                    block_annotated(of.blocks@[b as int], function.blocks@[b as int], annots[b as int], i as int),
                decreases function.blocks@[b as int].body@.len() - i,
            {
                let a = info.annots[b][i];
                let m = function.blocks[b].body[i].meta;
                function.blocks[b].body[i].meta = merge_annot(m, a);
                i = i + 1;
            }
            b = b + 1;
        }
    }
}

} // verus!

verus! {

/// Two modules that agree on everything verification reads: types, globals,
/// static items, and the name and signature of every function.
pub open spec fn same_env(m1: Module, m2: Module) -> bool {
    &&& m1.wf()
    &&& m2.wf()
    &&& m1.types == m2.types
    &&& m1.globals() == m2.globals()
    &&& m1.static_memory.items@.len() == m2.static_memory.items@.len()
    &&& m1.funcs().len() == m2.funcs().len()
    &&& forall|i: int| 0 <= i < m1.funcs().len() ==> {
        &&& (#[trigger] m1.funcs()[i]).spec_name() == m2.funcs()[i].spec_name()
        &&& m1.funcs()[i].spec_ty() == m2.funcs()[i].spec_ty()
        &&& m1.funcs()[i].spec_args() == m2.funcs()[i].spec_args()
        &&& m1.funcs()[i].spec_rets() == m2.funcs()[i].spec_rets()
        &&& m1.funcs()[i].spec_idx() == m2.funcs()[i].spec_idx()
    }
}

pub proof fn lemma_lookup_env(m1: Module, m2: Module, name: Seq<char>)
    requires
        same_env(m1, m2),
    ensures
        lookup_func(m1, name) is Some <==> lookup_func(m2, name) is Some,
        lookup_func(m1, name) matches Some(g1) ==> lookup_func(m2, name) matches Some(g2)
            && g1.spec_ty() == g2.spec_ty() && g1.spec_args() == g2.spec_args() && g1.spec_rets() == g2.spec_rets()
            && g1.spec_idx() == g2.spec_idx() && g1.spec_name() == g2.spec_name(),
        lookup_global(m1, name) == lookup_global(m2, name),
{
    if exists|i: int| 0 <= i < m1.funcs().len() && (#[trigger] m1.funcs()[i]).spec_name() == name {
        let i1 = choose|i: int| 0 <= i < m1.funcs().len() && (#[trigger] m1.funcs()[i]).spec_name() == name;
        assert(m2.funcs()[i1].spec_name() == name);
        let i2 = choose|i: int| 0 <= i < m2.funcs().len() && (#[trigger] m2.funcs()[i]).spec_name() == name;
        if i1 < i2 {
            assert(m2.funcs()[i1].spec_name() != m2.funcs()[i2].spec_name());
        } else if i2 < i1 {
            assert(m2.funcs()[i2].spec_name() != m2.funcs()[i1].spec_name());
        }
    } else {
        assert forall|i: int| 0 <= i < m2.funcs().len() implies (#[trigger] m2.funcs()[i]).spec_name() != name by {
            assert(m1.funcs()[i].spec_name() == m2.funcs()[i].spec_name());
        }
    }
}

pub proof fn lemma_step_env(m1: Module, m2: Module, f: Function, instr: InstrK, s: Seq<Ty>)
    requires
        same_env(m1, m2),
    ensures
        spec_step(m1, f, instr, s) == spec_step(m2, f, instr, s),
{
    match instr {
        InstrK::CallDirect { func_name } => lemma_lookup_env(m1, m2, func_name@),
        InstrK::LdGlobalFunc { func_name } => lemma_lookup_env(m1, m2, func_name@),
        InstrK::LdGlobal(n) => lemma_lookup_env(m1, m2, n@),
        InstrK::StGlobal(n) => lemma_lookup_env(m1, m2, n@),
        _ => {},
    }
}

pub proof fn lemma_run_env(m1: Module, m2: Module, f: Function, b: InstrBlock, i: int, s: Seq<Ty>)
    requires
        same_env(m1, m2),
    ensures
        spec_run(m1, f, b, i, s) == spec_run(m2, f, b, i, s),
    decreases b.body@.len() - i,
{
    if i < b.body@.len() {
        lemma_step_env(m1, m2, f, b.body@[i].kind, s);
        if let StepV::Next(s2, a) = spec_step(m1, f, b.body@[i].kind, s) {
            lemma_run_env(m1, m2, f, b, i + 1, s2);
        }
    }
}

pub proof fn lemma_run_blocks_env(m1: Module, m2: Module, f: Function, k: int)
    requires
        same_env(m1, m2),
    ensures
        spec_run_blocks(m1, f, k) == spec_run_blocks(m2, f, k),
    decreases f.blocks@.len() - k,
{
    if k < f.blocks@.len() {
        lemma_run_env(m1, m2, f, f.blocks@[k], 0, Seq::empty());
        lemma_run_blocks_env(m1, m2, f, k + 1);
    }
}

/// Verifying a function depends on the rest of the module only through its environment.
pub proof fn lemma_verify_env(m1: Module, m2: Module, f: Function)
    requires
        same_env(m1, m2),
    ensures
        spec_verify_function(m1, f) == spec_verify_function(m2, f),
{
    lemma_run_blocks_env(m1, m2, f, 0);
}

/// Running a block from an empty stack: the stack at its end, if control
/// reaches the end without an error and without leaving the block early.
pub open spec fn simulate(m: Module, f: Function, b: InstrBlock, i: int, s: Seq<Ty>) -> Option<Seq<Ty>>
    decreases b.body@.len() - i,
{
    if i >= b.body@.len() {
        Some(s)
    } else {
        match spec_step(m, f, b.body@[i].kind, s) {
            StepV::Next(s2, _) => simulate(m, f, b, i + 1, s2),
            _ => None,
        }
    }
}

proof fn lemma_simulate_run(m: Module, f: Function, b: InstrBlock, i: int, s: Seq<Ty>)
    requires
        spec_run(m, f, b, i, s) is Ok,
    ensures
        simulate(m, f, b, i, s) matches Some(end) ==> end == b.rets@,
    decreases b.body@.len() - i,
{
    if i < b.body@.len() {
        if let StepV::Next(s2, a) = spec_step(m, f, b.body@[i].kind, s) {
            lemma_simulate_run(m, f, b, i + 1, s2);
        }
    }
}

/// A block that passes verification, run from an empty stack with the
/// transfer functions, leaves exactly its declared return types on the stack
/// whenever control reaches its end.
pub proof fn lemma_verified_block_exit(m: Module, f: Function, b: InstrBlock)
    requires
        spec_verify_block(m, f, b) is Ok,
    ensures
        simulate(m, f, b, 0, Seq::empty()) matches Some(end) ==> end == b.rets@,
{
    lemma_simulate_run(m, f, b, 0, Seq::empty());
}

} // verus!

verus! {

pub proof fn lemma_run_len(m: Module, f: Function, b: InstrBlock, i: int, s: Seq<Ty>)
    requires
        0 <= i <= b.body@.len(),
        spec_run(m, f, b, i, s) is Ok,
    ensures
        spec_run(m, f, b, i, s)->Ok_0.len() == b.body@.len() - i,
    decreases b.body@.len() - i,
{
    if i < b.body@.len() {
        if let StepV::Next(s2, a) = spec_step(m, f, b.body@[i].kind, s) {
            lemma_run_len(m, f, b, i + 1, s2);
        }
    }
}

pub proof fn lemma_run_blocks_len(m: Module, f: Function, k: int)
    requires
        0 <= k <= f.blocks@.len(),
        spec_run_blocks(m, f, k) is Ok,
    ensures
        spec_run_blocks(m, f, k)->Ok_0.len() == f.blocks@.len() - k,
        forall|j: int| 0 <= j < f.blocks@.len() - k ==> (#[trigger] spec_run_blocks(m, f, k)->Ok_0[j]).len() == f.blocks@[k + j].body@.len(),
    decreases f.blocks@.len() - k,
{
    if k < f.blocks@.len() {
        lemma_run_len(m, f, f.blocks@[k], 0, Seq::empty());
        lemma_run_blocks_len(m, f, k + 1);
        let a = spec_verify_block(m, f, f.blocks@[k])->Ok_0;
        let rest = spec_run_blocks(m, f, k + 1)->Ok_0;
        let all = spec_run_blocks(m, f, k)->Ok_0;
        assert(all == seq![a] + rest);
        assert forall|j: int| 0 <= j < f.blocks@.len() - k implies (#[trigger] all[j]).len() == f.blocks@[k + j].body@.len() by {
            if j > 0 {
                assert(all[j] == rest[j - 1]);
            }
        }
    }
}

/// A successful verification yields one annotation per instruction.
pub proof fn lemma_verify_function_len(m: Module, f: Function)
    requires
        spec_verify_function(m, f) is Ok,
    ensures
        spec_verify_function(m, f)->Ok_0.len() == f.blocks@.len(),
        forall|j: int| 0 <= j < f.blocks@.len() ==> (#[trigger] spec_verify_function(m, f)->Ok_0[j]).len() == f.blocks@[j].body@.len(),
{
    lemma_run_blocks_len(m, f, 0);
}

} // verus!
