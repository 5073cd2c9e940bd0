//! Emission: lowers a verified module to a [`TargetModule`].
use vstd::prelude::*;
use crate::abi::{Abi, BackendType, Wasm32Abi, spec_compile_type, type_size, type_align, fields_layout, sizes_fit, pow2};
use crate::instr::{Function, Instr, InstrBlock, InstrK};
use crate::metadata::BitWidthSign;
use crate::module::{FuncDef, Module, lookup_func, lookup_global};
use crate::numerics::{is_numeric, numeric_lowering, spec_type_bws, emit_numeric_instr, type_to_bws};
use crate::ty::{Ty, Type, TypeV};
use crate::wasm::{BlockType, MemArg, WInstr};

verus! {

#[derive(PartialEq, Eq, Structural, Clone, Copy, Debug)]
pub enum EmitError {
    /// An instruction lacks the metadata that verification attaches.
    MissingMetadata,
    UndefinedFunction,
    UndefinedGlobal,
    InvalidBlockId,
    /// A type handle that does not fit its use.
    InvalidType,
    /// A `Break` outside any loop.
    BreakOutsideLoop,
    /// Blocks nest deeper than the function has blocks.
    NestingTooDeep,
    UndefinedStaticItem,
    /// More items than 32-bit indices reach.
    TooManyItems,
    /// The static memory does not fit the 32-bit address space.
    StaticMemoryTooLarge,
}

/// The number of function types among the first `k` handles: the type index of handle `k`.
pub open spec fn func_types_before(t: Seq<TypeV>, k: int) -> nat
    decreases k,
{
    if k <= 0 {
        0
    } else {
        func_types_before(t, k - 1) + if t[k - 1] is Func { 1nat } else { 0nat }
    }
}

pub open spec fn mem_arg(t: Seq<TypeV>, ty: Ty) -> MemArg {
    MemArg { offset: 0, align: type_align(t, ty as nat) as u32, memory_index: 0 }
}

/// The smallest `k` from `from` up to 31 with `2^k == size`.
pub open spec fn exact_log2(size: nat, from: nat) -> Option<nat>
    decreases 32 - from,
{
    if from > 31 {
        None
    } else if pow2(from) == size {
        Some(from)
    } else {
        exact_log2(size, from + 1)
    }
}

/// Multiply the index on the stack by `size`: nothing for 1, a shift for
/// other powers of two, a multiplication otherwise.
pub open spec fn scale_code(size: nat) -> Seq<WInstr> {
    if size == 1 {
        Seq::empty()
    } else {
        match exact_log2(size, 0) {
            Some(k) => seq![WInstr::I32Const(k as i32), WInstr::I32Shl],
            None => seq![WInstr::I32Const((size as u32) as i32), WInstr::I32Mul],
        }
    }
}

pub open spec fn float_binop(k: InstrK) -> WInstr {
    match k {
        InstrK::FAdd => WInstr::F32Add,
        InstrK::FSub => WInstr::F32Sub,
        InstrK::FMul => WInstr::F32Mul,
        _ => WInstr::F32Div,
    }
}

pub open spec fn float_cmp(c: crate::instr::Cmp) -> WInstr {
    match c {
        crate::instr::Cmp::Eq => WInstr::F32Eq,
        crate::instr::Cmp::Ne => WInstr::F32Ne,
        crate::instr::Cmp::Lt => WInstr::F32Lt,
        crate::instr::Cmp::Le => WInstr::F32Le,
        crate::instr::Cmp::Gt => WInstr::F32Gt,
        crate::instr::Cmp::Ge => WInstr::F32Ge,
    }
}

pub open spec fn value_ty_ok(t: Seq<TypeV>, ty: Ty) -> bool {
    ty < t.len() && !t[ty as int].is_struct()
}

/// The lowering of a bitcast from `from` to `to`.
pub open spec fn bitcast_code(t: Seq<TypeV>, from: Ty, to: Ty) -> Seq<WInstr> {
    let a = spec_compile_type(t[from as int]);
    let b = spec_compile_type(t[to as int]);
    if a == b {
        Seq::empty()
    } else if a == BackendType::I32 {
        seq![WInstr::F32ReinterpretI32]
    } else {
        seq![WInstr::I32ReinterpretF32]
    }
}

/// The lowering of a memory read or write of `ty`.
pub open spec fn memory_code(t: Seq<TypeV>, kind: InstrK, ty: Ty) -> Seq<WInstr> {
    let mem = mem_arg(t, ty);
    let is_read = kind is Read;
    if t[ty as int].is_int() {
        numeric_lowering(kind, spec_type_bws(t, ty)->Some_0, BitWidthSign::S32, mem, false)
    } else if t[ty as int].is_float() {
        if is_read { seq![WInstr::F32Load(mem)] } else { seq![WInstr::F32Store(mem)] }
    } else {
        if is_read { seq![WInstr::I32Load(mem)] } else { seq![WInstr::I32Store(mem)] }
    }
}

/// The lowering of one instruction of block `cur`, with `fuel` levels of nesting left.
pub open spec fn lower_instr(m: Module, ti: Seq<u32>, addrs: Seq<u32>, f: Function, cur: InstrBlock, i: Instr, fuel: nat) -> Result<Seq<WInstr>, EmitError>
    decreases fuel, 0nat, 0nat,
{
    let t = m.types@;
    match i.kind {
        InstrK::LdInt(v, _) => Ok(seq![WInstr::I32Const(v as i32)]),
        InstrK::LdFloat(bits) => Ok(seq![WInstr::F32Const(bits)]),
        InstrK::IAdd | InstrK::ISub | InstrK::IMul | InstrK::IDiv | InstrK::ICmp(_) | InstrK::Itof => match i.meta.bws {
            Some(b) => Ok(numeric_lowering(i.kind, b, BitWidthSign::S32, MemArg { offset: 0, align: 0, memory_index: 0 }, m.conf.use_saturating_ftoi)),
            None => Err(EmitError::MissingMetadata),
        },
        InstrK::IConv { target } => match (i.meta.bws, spec_type_bws(t, target)) {
            (Some(b), Some(tb)) => Ok(numeric_lowering(i.kind, b, tb, MemArg { offset: 0, align: 0, memory_index: 0 }, m.conf.use_saturating_ftoi)),
            (None, _) => Err(EmitError::MissingMetadata),
            _ => Err(EmitError::InvalidType),
        },
        InstrK::Ftoi { int_ty } => match spec_type_bws(t, int_ty) {
            Some(b) => Ok(numeric_lowering(i.kind, b, BitWidthSign::S32, MemArg { offset: 0, align: 0, memory_index: 0 }, m.conf.use_saturating_ftoi)),
            None => Err(EmitError::InvalidType),
        },
        InstrK::FAdd | InstrK::FSub | InstrK::FMul | InstrK::FDiv => Ok(seq![float_binop(i.kind)]),
        InstrK::FCmp(c) => Ok(seq![float_cmp(c)]),
        InstrK::Not => Ok(seq![WInstr::I32Eqz]),
        InstrK::BitAnd => Ok(seq![WInstr::I32And]),
        InstrK::BitOr => Ok(seq![WInstr::I32Or]),
        InstrK::CallDirect { func_name } => match lookup_func(m, func_name@) {
            Some(g) => Ok(seq![WInstr::Call(g.spec_idx() as u32)]),
            None => Err(EmitError::UndefinedFunction),
        },
        InstrK::LdLocal { idx } => Ok(seq![WInstr::LocalGet(idx as u32)]),
        InstrK::StLocal { idx } => Ok(seq![WInstr::LocalSet(idx as u32)]),
        InstrK::LdGlobalFunc { func_name } => match lookup_func(m, func_name@) {
            Some(g) => if g.spec_idx() < u32::MAX {
                Ok(seq![WInstr::I32Const((g.spec_idx() + 1) as u32 as i32)])
            } else {
                Err(EmitError::TooManyItems)
            },
            None => Err(EmitError::UndefinedFunction),
        },
        InstrK::CallIndirect => match i.meta.ty {
            Some(fty) => if fty < t.len() && t[fty as int] is Func && fty < ti.len() {
                Ok(seq![WInstr::CallIndirect { ty: ti[fty as int], table: 0 }])
            } else {
                Err(EmitError::InvalidType)
            },
            None => Err(EmitError::MissingMetadata),
        },
        InstrK::Bitcast { target } => match i.meta.from {
            Some(from) => if value_ty_ok(t, from) && value_ty_ok(t, target) {
                Ok(bitcast_code(t, from, target))
            } else {
                Err(EmitError::InvalidType)
            },
            None => Err(EmitError::MissingMetadata),
        },
        InstrK::IfElse { then, else_ } => {
            if fuel == 0 {
                Err(EmitError::NestingTooDeep)
            } else if then.0 >= f.blocks@.len() {
                Err(EmitError::InvalidBlockId)
            } else {
                let bt = f.blocks@[then.0 as int].block_ty;
                if !(bt < t.len() && t[bt as int] is Func && bt < ti.len()) {
                    Err(EmitError::InvalidType)
                } else {
                    match compile_block(m, ti, addrs, f, then.0 as int, (fuel - 1) as nat) {
                        Err(e) => Err(e),
                        Ok(then_code) => match else_ {
                            None => Ok(seq![WInstr::If(BlockType::FunctionType(ti[bt as int]))] + then_code + seq![WInstr::End]),
                            Some(e) => match compile_block(m, ti, addrs, f, e.0 as int, (fuel - 1) as nat) {
                                Err(x) => Err(x),
                                Ok(else_code) => Ok(seq![WInstr::If(BlockType::FunctionType(ti[bt as int]))] + then_code + seq![WInstr::Else] + else_code + seq![WInstr::End]),
                            },
                        },
                    }
                }
            }
        },
        InstrK::Read { ty } | InstrK::Write { ty } => if value_ty_ok(t, ty) {
            Ok(memory_code(t, i.kind, ty))
        } else {
            Err(EmitError::InvalidType)
        },
        InstrK::Offset { ty } => if ty < t.len() {
            Ok(scale_code(type_size(t, ty as nat)) + seq![WInstr::I32Add])
        } else {
            Err(EmitError::InvalidType)
        },
        InstrK::GetFieldPtr { struct_ty, field_idx } => {
            if struct_ty < t.len() && t[struct_ty as int] is Struct && field_idx < t[struct_ty as int]->Struct_fields.len() {
                let off = fields_layout(t, t[struct_ty as int]->Struct_fields).0[field_idx as int];
                if off == 0 {
                    Ok(Seq::empty())
                } else {
                    Ok(seq![WInstr::I32Const((off as u32) as i32), WInstr::I32Add])
                }
            } else {
                Err(EmitError::InvalidType)
            }
        },
        InstrK::Discard => Ok(seq![WInstr::Drop]),
        InstrK::Return => Ok(seq![WInstr::Return]),
        InstrK::MemorySize => Ok(seq![WInstr::MemorySize]),
        InstrK::MemoryGrow => Ok(seq![WInstr::MemoryGrow]),
        InstrK::LdGlobal(name) => match lookup_global(m, name@) {
            Some(g) => Ok(seq![WInstr::GlobalGet(g.idx as u32)]),
            None => Err(EmitError::UndefinedGlobal),
        },
        InstrK::StGlobal(name) => match lookup_global(m, name@) {
            Some(g) => Ok(seq![WInstr::GlobalSet(g.idx as u32)]),
            None => Err(EmitError::UndefinedGlobal),
        },
        InstrK::Fail => Ok(seq![WInstr::Unreachable]),
        InstrK::Loop(body) => {
            if fuel == 0 {
                Err(EmitError::NestingTooDeep)
            } else {
                match compile_block(m, ti, addrs, f, body.0 as int, (fuel - 1) as nat) {
                    Err(e) => Err(e),
                    Ok(code) => Ok(seq![WInstr::Block(BlockType::Empty), WInstr::Loop(BlockType::Empty)] + code + seq![WInstr::Br(0), WInstr::End, WInstr::End]),
                }
            }
        },
        InstrK::Break => match cur.meta.innermost_loop_distance {
            Some(d) => if d < u32::MAX {
                Ok(seq![WInstr::Br((d + 1) as u32)])
            } else {
                Err(EmitError::NestingTooDeep)
            },
            None => Err(EmitError::BreakOutsideLoop),
        },
        InstrK::LdStaticMemPtr(h) => if h.0 < addrs.len() {
            Ok(seq![WInstr::I32Const(addrs[h.0 as int] as i32)])
        } else {
            Err(EmitError::UndefinedStaticItem)
        },
    }
}

/// The lowering of the first `k` instructions of block `b`.
pub open spec fn compile_body(m: Module, ti: Seq<u32>, addrs: Seq<u32>, f: Function, b: InstrBlock, k: int, fuel: nat) -> Result<Seq<WInstr>, EmitError>
    decreases fuel, 1nat, k,
{
    if k <= 0 {
        Ok(Seq::empty())
    } else {
        match compile_body(m, ti, addrs, f, b, k - 1, fuel) {
            Err(e) => Err(e),
            Ok(prev) => if k - 1 < b.body@.len() {
                match lower_instr(m, ti, addrs, f, b, b.body@[k - 1], fuel) {
                    Err(e) => Err(e),
                    Ok(code) => Ok(prev + code),
                }
            } else {
                Ok(prev)
            },
        }
    }
}

/// The lowering of block `id`, nested blocks included.
pub open spec fn compile_block(m: Module, ti: Seq<u32>, addrs: Seq<u32>, f: Function, id: int, fuel: nat) -> Result<Seq<WInstr>, EmitError>
    decreases fuel, 2nat, 0nat,
{
    if id < 0 || id >= f.blocks@.len() {
        Err(EmitError::InvalidBlockId)
    } else {
        let b = f.blocks@[id];
        compile_body(m, ti, addrs, f, b, b.body@.len() as int, fuel)
    }
}

} // verus!

verus! {

fn push_w(out: &mut Vec<WInstr>, i: WInstr)
    ensures
        final(out)@ == old(out)@ + seq![i],
{
    out.push(i);
    assert(final(out)@ =~= old(out)@ + seq![i]);
}

fn append_w(out: &mut Vec<WInstr>, v: Vec<WInstr>)
    ensures
        final(out)@ == old(out)@ + v@,
{
    let mut i: usize = 0;
    while i < v.len()
        invariant
            i <= v@.len(),
            out@ == old(out)@ + v@.take(i as int),
        decreases v@.len() - i,
    {
        out.push(v[i]);
        i = i + 1;
        assert(old(out)@ + v@.take(i as int) =~= (old(out)@ + v@.take(i - 1)).push(v@[i - 1]));
    }
    assert(v@.take(i as int) =~= v@);
}

/// The exponent `k <= 31` with `2^k == size`, if any.
fn exact_log2_exec(size: usize) -> (r: Option<u32>)
    ensures
        r matches Some(k) ==> exact_log2(size as nat, 0) == Some(k as nat),
        r is None ==> exact_log2(size as nat, 0) is None,
{
    let mut k: u32 = 0;
    let mut p: u64 = 1;
    while k <= 31
        invariant
            k <= 32,
            p as nat == pow2(k as nat),
            p <= 0x1_0000_0000,
            exact_log2(size as nat, 0) == exact_log2(size as nat, k as nat),
        decreases 32 - k,
    {
        if p == size as u64 {
            return Some(k);
        }
        proof {
            assert(pow2((k + 1) as nat) == 2 * pow2(k as nat));
            lemma_pow2_le(k as nat);
        }
        p = p * 2;
        k = k + 1;
    }
    None
}

proof fn lemma_pow2_le(k: nat)
    requires
        k <= 31,
    ensures
        pow2(k) <= 0x8000_0000,
    decreases 31 - k,
{
    if k < 31 {
        lemma_pow2_le(k + 1);
    } else {
        reveal_with_fuel(pow2, 32);
    }
}

/// Lowering state: the type index of each type handle and the address of each static item.
pub struct WasmEmitter {
    pub type_index: Vec<u32>,
    pub addresses: Vec<u32>,
}

impl WasmEmitter {
    fn lower_instr_exec(&self, m: &Module, f: &Function, cur: &InstrBlock, i: &Instr, fuel: usize, out: &mut Vec<WInstr>) -> (r: Result<(), EmitError>)
        requires
            m.wf(),
        ensures
            match lower_instr(*m, self.type_index@, self.addresses@, *f, *cur, *i, fuel as nat) {
                Ok(s) => r is Ok && final(out)@ == old(out)@ + s,
                Err(e) => r == Err::<(), EmitError>(e),
            },
        decreases fuel, 0nat, 2nat,
    {
        let table = &m.types;
        let sat = m.conf.use_saturating_ftoi;
        let no_mem = MemArg { offset: 0, align: 0, memory_index: 0 };
        match &i.kind {
            InstrK::LdInt(v, _) => { push_w(out, WInstr::I32Const(*v as i32)); Ok(()) },
            InstrK::LdFloat(bits) => { push_w(out, WInstr::F32Const(*bits)); Ok(()) },
            InstrK::IAdd | InstrK::ISub | InstrK::IMul | InstrK::IDiv | InstrK::ICmp(_) | InstrK::Itof => match i.meta.bws {
                Some(b) => {
                    append_w(out, emit_numeric_instr(&i.kind, b, BitWidthSign::S32, no_mem, sat));
                    Ok(())
                },
                None => Err(EmitError::MissingMetadata),
            },
            InstrK::IConv { target } => match (i.meta.bws, type_to_bws(table, *target)) {
                (Some(b), Some(tb)) => {
                    append_w(out, emit_numeric_instr(&i.kind, b, tb, no_mem, sat));
                    Ok(())
                },
                (None, _) => Err(EmitError::MissingMetadata),
                _ => Err(EmitError::InvalidType),
            },
            InstrK::Ftoi { int_ty } => match type_to_bws(table, *int_ty) {
                Some(b) => {
                    append_w(out, emit_numeric_instr(&i.kind, b, BitWidthSign::S32, no_mem, sat));
                    Ok(())
                },
                None => Err(EmitError::InvalidType),
            },
            InstrK::FAdd => { push_w(out, WInstr::F32Add); Ok(()) },
            InstrK::FSub => { push_w(out, WInstr::F32Sub); Ok(()) },
            InstrK::FMul => { push_w(out, WInstr::F32Mul); Ok(()) },
            InstrK::FDiv => { push_w(out, WInstr::F32Div); Ok(()) },
            InstrK::FCmp(c) => {
                let w = match c {
                    crate::instr::Cmp::Eq => WInstr::F32Eq,
                    crate::instr::Cmp::Ne => WInstr::F32Ne,
                    crate::instr::Cmp::Lt => WInstr::F32Lt,
                    crate::instr::Cmp::Le => WInstr::F32Le,
                    crate::instr::Cmp::Gt => WInstr::F32Gt,
                    crate::instr::Cmp::Ge => WInstr::F32Ge,
                };
                push_w(out, w);
                Ok(())
            },
            InstrK::Not => { push_w(out, WInstr::I32Eqz); Ok(()) },
            InstrK::BitAnd => { push_w(out, WInstr::I32And); Ok(()) },
            InstrK::BitOr => { push_w(out, WInstr::I32Or); Ok(()) },
            InstrK::CallDirect { func_name } => match m.find_function(func_name.as_str()) {
                Some(g) => { push_w(out, WInstr::Call(g.idx() as u32)); Ok(()) },
                None => Err(EmitError::UndefinedFunction),
            },
            InstrK::LdLocal { idx } => { push_w(out, WInstr::LocalGet(*idx as u32)); Ok(()) },
            InstrK::StLocal { idx } => { push_w(out, WInstr::LocalSet(*idx as u32)); Ok(()) },
            InstrK::LdGlobalFunc { func_name } => match m.find_function(func_name.as_str()) {
                Some(g) => {
                    let gi = g.idx();
                    if gi >= 0xffff_ffff {
                        return Err(EmitError::TooManyItems);
                    }
                    push_w(out, WInstr::I32Const((gi + 1) as u32 as i32));
                    Ok(())
                },
                None => Err(EmitError::UndefinedFunction),
            },
            InstrK::CallIndirect => match i.meta.ty {
                Some(fty) => {
                    if fty < table.len() && table.get(fty).is_func() && fty < self.type_index.len() {
                        push_w(out, WInstr::CallIndirect { ty: self.type_index[fty], table: 0 });
                        Ok(())
                    } else {
                        Err(EmitError::InvalidType)
                    }
                },
                None => Err(EmitError::MissingMetadata),
            },
            InstrK::Bitcast { target } => match i.meta.from {
                Some(from) => {
                    if from < table.len() && !table.get(from).is_struct() && *target < table.len() && !table.get(*target).is_struct() {
                        let a = Wasm32Abi::compile_type(table, from);
                        let b = Wasm32Abi::compile_type(table, *target);
                        if a == b {
                        } else if a == BackendType::I32 {
                            push_w(out, WInstr::F32ReinterpretI32);
                        } else {
                            push_w(out, WInstr::I32ReinterpretF32);
                        }
                        assert(old(out)@ + Seq::<WInstr>::empty() =~= old(out)@);
                        Ok(())
                    } else {
                        Err(EmitError::InvalidType)
                    }
                },
                None => Err(EmitError::MissingMetadata),
            },
            InstrK::IfElse { .. } | InstrK::Loop(_) => self.lower_control(m, f, i, fuel, out),
            InstrK::Read { .. } | InstrK::Write { .. } | InstrK::Offset { .. } | InstrK::GetFieldPtr { .. } => self.lower_memory(m, i, out),
            InstrK::Discard => { push_w(out, WInstr::Drop); Ok(()) },
            InstrK::Return => { push_w(out, WInstr::Return); Ok(()) },
            InstrK::MemorySize => { push_w(out, WInstr::MemorySize); Ok(()) },
            InstrK::MemoryGrow => { push_w(out, WInstr::MemoryGrow); Ok(()) },
            InstrK::LdGlobal(name) => match m.find_global(name.as_str()) {
                Some(g) => { push_w(out, WInstr::GlobalGet(g.idx as u32)); Ok(()) },
                None => Err(EmitError::UndefinedGlobal),
            },
            InstrK::StGlobal(name) => match m.find_global(name.as_str()) {
                Some(g) => { push_w(out, WInstr::GlobalSet(g.idx as u32)); Ok(()) },
                None => Err(EmitError::UndefinedGlobal),
            },
            InstrK::Fail => { push_w(out, WInstr::Unreachable); Ok(()) },
            InstrK::Break => match cur.meta.innermost_loop_distance {
                Some(d) => {
                    if d < 0xffff_ffff {
                        push_w(out, WInstr::Br((d + 1) as u32));
                        Ok(())
                    } else {
                        Err(EmitError::NestingTooDeep)
                    }
                },
                None => Err(EmitError::BreakOutsideLoop),
            },
            InstrK::LdStaticMemPtr(h) => {
                if h.0 < self.addresses.len() {
                    push_w(out, WInstr::I32Const(self.addresses[h.0] as i32));
                    Ok(())
                } else {
                    Err(EmitError::UndefinedStaticItem)
                }
            },
        }
    }


    fn lower_control(&self, m: &Module, f: &Function, i: &Instr, fuel: usize, out: &mut Vec<WInstr>) -> (r: Result<(), EmitError>)
        requires
            m.wf(),
            i.kind is IfElse || i.kind is Loop,
        ensures
            forall|cur: InstrBlock| match #[trigger] lower_instr(*m, self.type_index@, self.addresses@, *f, cur, *i, fuel as nat) {
                Ok(s) => r is Ok && final(out)@ == old(out)@ + s,
                Err(e) => r == Err::<(), EmitError>(e),
            },
        decreases fuel, 0nat, 1nat,
    {
        let table = &m.types;
        match &i.kind {
            InstrK::IfElse { then, else_ } => {
                if fuel == 0 {
                    return Err(EmitError::NestingTooDeep);
                }
                if then.0 >= f.blocks.len() {
                    return Err(EmitError::InvalidBlockId);
                }
                let bt = f.blocks[then.0].block_ty;
                if !(bt < table.len() && table.get(bt).is_func() && bt < self.type_index.len()) {
                    return Err(EmitError::InvalidType);
                }
                let mut then_code: Vec<WInstr> = Vec::new();
                match self.compile_block(m, f, then.0, fuel - 1, &mut then_code) {
                    Err(e) => return Err(e),
                    Ok(()) => {},
                }
                assert(then_code@ =~= Seq::<WInstr>::empty() + then_code@);
                match else_ {
                    None => {
                        push_w(out, WInstr::If(BlockType::FunctionType(self.type_index[bt])));
                        append_w(out, then_code);
                        push_w(out, WInstr::End);
                        Ok(())
                    },
                    Some(e) => {
                        let mut else_code: Vec<WInstr> = Vec::new();
                        match self.compile_block(m, f, e.0, fuel - 1, &mut else_code) {
                            Err(x) => return Err(x),
                            Ok(()) => {},
                        }
                        assert(else_code@ =~= Seq::<WInstr>::empty() + else_code@);
                        push_w(out, WInstr::If(BlockType::FunctionType(self.type_index[bt])));
                        append_w(out, then_code);
                        push_w(out, WInstr::Else);
                        append_w(out, else_code);
                        push_w(out, WInstr::End);
                        Ok(())
                    },
                }
            },
            InstrK::Loop(body) => {
                if fuel == 0 {
                    return Err(EmitError::NestingTooDeep);
                }
                let mut code: Vec<WInstr> = Vec::new();
                match self.compile_block(m, f, body.0, fuel - 1, &mut code) {
                    Err(e) => return Err(e),
                    Ok(()) => {},
                }
                assert(code@ =~= Seq::<WInstr>::empty() + code@);
                push_w(out, WInstr::Block(BlockType::Empty));
                push_w(out, WInstr::Loop(BlockType::Empty));
                append_w(out, code);
                push_w(out, WInstr::Br(0));
                push_w(out, WInstr::End);
                push_w(out, WInstr::End);
                Ok(())
            },
            _ => vstd::pervasive::unreached(),
        }
    }

    fn lower_memory(&self, m: &Module, i: &Instr, out: &mut Vec<WInstr>) -> (r: Result<(), EmitError>)
        requires
            m.wf(),
            i.kind is Read || i.kind is Write || i.kind is Offset || i.kind is GetFieldPtr,
        ensures
            forall|f: Function, cur: InstrBlock, fuel: nat| match #[trigger] lower_instr(*m, self.type_index@, self.addresses@, f, cur, *i, fuel) {
                Ok(s) => r is Ok && final(out)@ == old(out)@ + s,
                Err(e) => r == Err::<(), EmitError>(e),
            },
    {
        let table = &m.types;
        match &i.kind {
            InstrK::Read { ty } | InstrK::Write { ty } => {
                if !(*ty < table.len() && !table.get(*ty).is_struct()) {
                    return Err(EmitError::InvalidType);
                }
                let align = Wasm32Abi::type_alignment(table, *ty);
                let mem = MemArg { offset: 0, align: align as u32, memory_index: 0 };
                let is_read = match &i.kind {
                    InstrK::Read { .. } => true,
                    _ => false,
                };
                let tv = table.get(*ty);
                if tv.is_int() {
                    let b = match type_to_bws(table, *ty) {
                        Some(b) => b,
                        None => return Err(EmitError::InvalidType),
                    };
                    append_w(out, emit_numeric_instr(&i.kind, b, BitWidthSign::S32, mem, false));
                } else if tv.is_float() {
                    if is_read { push_w(out, WInstr::F32Load(mem)); } else { push_w(out, WInstr::F32Store(mem)); }
                } else {
                    if is_read { push_w(out, WInstr::I32Load(mem)); } else { push_w(out, WInstr::I32Store(mem)); }
                }
                Ok(())
            },
            InstrK::Offset { ty } => {
                if *ty >= table.len() {
                    return Err(EmitError::InvalidType);
                }
                let size = Wasm32Abi::type_sizeof(table, *ty);
                proof {
                    assert(type_size(table@, *ty as nat) <= u32::MAX);
                }
                if size != 1 {
                    match exact_log2_exec(size) {
                        Some(k) => {
                            push_w(out, WInstr::I32Const(k as i32));
                            push_w(out, WInstr::I32Shl);
                        },
                        None => {
                            push_w(out, WInstr::I32Const((size as u32) as i32));
                            push_w(out, WInstr::I32Mul);
                        },
                    }
                }
                push_w(out, WInstr::I32Add);
                assert(final(out)@ =~= old(out)@ + (scale_code(type_size(table@, *ty as nat)) + seq![WInstr::I32Add]));
                Ok(())
            },
            InstrK::GetFieldPtr { struct_ty, field_idx } => {
                if !(*struct_ty < table.len() && table.get(*struct_ty).is_struct()) {
                    return Err(EmitError::InvalidType);
                }
                let fields = match table.get(*struct_ty) {
                    Type::Struct { fields } => fields,
                    _ => return Err(EmitError::InvalidType),
                };
                if *field_idx >= fields.len() {
                    return Err(EmitError::InvalidType);
                }
                proof {
                    let t = table@;
                    let s = *struct_ty as nat;
                    assert(crate::ty::tys_in(fields@, s)) by {
                        assert forall|k: int| 0 <= k < fields@.len() implies #[trigger] fields@[k] < s by {
                            assert(t[s as int].children()[k] == fields@[k]);
                        }
                    }
                    assert(crate::ty::tys_in(fields@, t.len())) by {
                        assert forall|k: int| 0 <= k < fields@.len() implies #[trigger] fields@[k] < t.len() by {
                            assert(t[s as int].children()[k] == fields@[k]);
                        }
                    }
                    crate::abi::lemma_layout_owner(t, t.len(), s, fields@);
                    assert(type_size(t, s) <= u32::MAX);
                    crate::abi::lemma_layout_prefix(t, s, fields@, *field_idx as int + 1);
                    crate::abi::lemma_layout_align_bound(t, s, fields@.take(*field_idx as int + 1));
                    crate::abi::lemma_layout_align_bound(t, s, fields@);
                    crate::abi::lemma_layout_align_bound(t, s, fields@.take(*field_idx as int));
                    let pre = fields@.take(*field_idx as int + 1);
                    assert(pre.drop_last() =~= fields@.take(*field_idx as int));
                }
                let off = Wasm32Abi::struct_field_offset(table, fields, *field_idx);
                proof {
                    let t = table@;
                    let s = *struct_ty as nat;
                    let i = *field_idx as int;
                    let pre = fields@.take(i + 1);
                    let lp = crate::abi::struct_layout(t, s, pre);
                    let lq = crate::abi::struct_layout(t, s, fields@.take(i));
                    assert(pre.drop_last() =~= fields@.take(i));
                    assert(lq.0.len() == i);
                    assert(lp.0[i] <= lp.1);
                    assert(crate::abi::struct_layout(t, s, fields@).0[i] == lp.0[i]);
                    assert(struct_layout_offset_le(t, s, fields@, i));
                }
                if off != 0 {
                    push_w(out, WInstr::I32Const((off as u32) as i32));
                    push_w(out, WInstr::I32Add);
                    assert(final(out)@ =~= old(out)@ + seq![WInstr::I32Const((off as u32) as i32), WInstr::I32Add]);
                } else {
                    assert(old(out)@ + Seq::<WInstr>::empty() =~= old(out)@);
                }
                Ok(())
            },
            _ => vstd::pervasive::unreached(),
        }
    }

    /// Lower block `id` and the blocks nested in it, appending to `out`.
    pub fn compile_block(&self, m: &Module, f: &Function, id: usize, fuel: usize, out: &mut Vec<WInstr>) -> (r: Result<(), EmitError>)
        requires
            m.wf(),
        ensures
            match compile_block(*m, self.type_index@, self.addresses@, *f, id as int, fuel as nat) {
                Ok(s) => r is Ok && final(out)@ == old(out)@ + s,
                Err(e) => r == Err::<(), EmitError>(e),
            },
        decreases fuel, 2nat, 0nat,
    {
        if id >= f.blocks.len() {
            return Err(EmitError::InvalidBlockId);
        }
        let block = &f.blocks[id];
        let mut k: usize = 0;
        while k < block.body.len()
            invariant
                m.wf(),
                k <= block.body@.len(),
                id < f.blocks@.len(),
                block == &f.blocks@[id as int],
                compile_body(*m, self.type_index@, self.addresses@, *f, *block, k as int, fuel as nat) matches Ok(s) && out@ == old(out)@ + s,
            decreases block.body@.len() - k,
        {
            let ghost before = out@;
            match self.lower_instr_exec(m, f, block, &block.body[k], fuel, out) {
                Err(e) => {
                    proof {
                        lemma_compile_body_err(*m, self.type_index@, self.addresses@, *f, *block, k as int + 1, block.body@.len() as int, fuel as nat, e);
                    }
                    return Err(e);
                },
                Ok(()) => {},
            }
            k = k + 1;
        }
        Ok(())
    }
}

/// Once a prefix fails, every longer prefix fails the same way.
proof fn lemma_compile_body_err(m: Module, ti: Seq<u32>, addrs: Seq<u32>, f: Function, b: InstrBlock, k: int, n: int, fuel: nat, e: EmitError)
    requires
        0 <= k <= n,
        compile_body(m, ti, addrs, f, b, k, fuel) == Err::<Seq<WInstr>, EmitError>(e),
    ensures
        compile_body(m, ti, addrs, f, b, n, fuel) == Err::<Seq<WInstr>, EmitError>(e),
    decreases n - k,
{
    if k < n {
        lemma_compile_body_err(m, ti, addrs, f, b, k + 1, n, fuel, e);
    }
}

/// A field's offset lies within the struct.
pub open spec fn struct_layout_offset_le(t: Seq<TypeV>, s: nat, fields: Seq<Ty>, i: int) -> bool {
    crate::abi::struct_layout(t, s, fields).0[i] <= crate::abi::struct_layout(t, s, fields).1
}

} // verus!

verus! {

use crate::module::GlobalValueInit;
use crate::staticmem::{CompiledStaticMemory, spec_addresses, spec_image, addrs_nat};
use crate::wasm::{ExportW, FuncTypeW, FunctionBody, GlobalW, ImportW, TargetModule};

pub open spec fn backends(t: Seq<TypeV>, s: Seq<Ty>) -> Seq<BackendType> {
    s.map_values(|ty: Ty| spec_compile_type(t[ty as int]))
}

/// The number of extern functions, which come first.
pub open spec fn extern_count(fs: Seq<FuncDef>, k: int) -> nat
    decreases k,
{
    if k <= 0 {
        0
    } else {
        extern_count(fs, k - 1) + if fs[k - 1] is Extern { 1nat } else { 0nat }
    }
}

/// The code of a local function: its entry block with nested blocks, at most
/// as deep as it has blocks.
pub open spec fn function_code(m: Module, ti: Seq<u32>, addrs: Seq<u32>, f: Function) -> Result<Seq<WInstr>, EmitError> {
    compile_block(m, ti, addrs, f, 0, f.blocks@.len())
}

fn backends_exec(table: &crate::ty::TypeTable, s: &Vec<Ty>, from: usize) -> (r: Option<Vec<BackendType>>)
    requires
        from <= s@.len(),
    ensures
        r matches Some(v) ==> crate::ty::tys_in(s@.skip(from as int), table@.len()) && v@ == backends(table@, s@.skip(from as int)),
        r is None ==> !crate::ty::tys_in(s@.skip(from as int), table@.len()),
{
    let mut out: Vec<BackendType> = Vec::new();
    let mut k: usize = from;
    while k < s.len()
        invariant
            from <= k <= s@.len(),
            out@ == backends(table@, s@.subrange(from as int, k as int)),
            crate::ty::tys_in(s@.subrange(from as int, k as int), table@.len()),
        decreases s@.len() - k,
    {
        if s[k] >= table.len() {
            assert(s@.skip(from as int)[k - from] == s@[k as int]);
            return None;
        }
        let b = match table.get(s[k]) {
            Type::Float32 => BackendType::F32,
            _ => BackendType::I32,
        };
        out.push(b);
        k = k + 1;
        assert(s@.subrange(from as int, k as int) =~= s@.subrange(from as int, k - 1).push(s@[k - 1]));
        assert(out@ =~= backends(table@, s@.subrange(from as int, k as int)));
    }
    assert(s@.subrange(from as int, k as int) =~= s@.skip(from as int));
    assert(out@ =~= backends(table@, s@.skip(from as int)));
    Some(out)
}

impl WasmEmitter {
    /// The type index of every handle, and the compiled static memory.
    pub fn new(m: &Module) -> (r: Result<(WasmEmitter, CompiledStaticMemory), EmitError>)
        requires
            m.wf(),
        ensures
            r matches Ok((e, c)) ==> {
                &&& e.type_index@.len() == m.types@.len()
                &&& forall|h: int| 0 <= h < m.types@.len() ==> (#[trigger] e.type_index@[h]) as nat == func_types_before(m.types@, h)
                &&& addrs_nat(e.addresses@) == spec_addresses(m.static_memory.items@, m.static_memory.items@.len()).0
                &&& c.addresses@ == e.addresses@
                &&& m.types@.len() <= u32::MAX
                &&& spec_addresses(m.static_memory.items@, m.static_memory.items@.len()).1 <= crate::staticmem::MAX_IMAGE
                &&& c.buf@ == spec_image(m.static_memory.items@, m.static_memory.items@.len(), addrs_nat(c.addresses@))
            },
            r is Err ==> m.types@.len() > u32::MAX || spec_addresses(m.static_memory.items@, m.static_memory.items@.len()).1 > crate::staticmem::MAX_IMAGE,
    {
        let table = &m.types;
        if table.len() > 0xffff_ffff {
            return Err(EmitError::TooManyItems);
        }
        let mut ti: Vec<u32> = Vec::new();
        let mut count: u32 = 0;
        let mut h: usize = 0;
        while h < table.len()
            invariant
                h <= table@.len(),
                table@.len() <= u32::MAX,
                count as nat == func_types_before(table@, h as int),
                count <= h,
                ti@.len() == h,
                forall|j: int| 0 <= j < h ==> (#[trigger] ti@[j]) as nat == func_types_before(table@, j),
            decreases table@.len() - h,
        {
            ti.push(count);
            if table.get(h).is_func() {
                count = count + 1;
            }
            h = h + 1;
        }
        let compiled = match CompiledStaticMemory::compile(&m.static_memory) {
            Ok(c) => c,
            Err(_) => return Err(EmitError::StaticMemoryTooLarge),
        };
        let addresses = crate::ty::copy_u32s(&compiled.addresses);
        Ok((WasmEmitter { type_index: ti, addresses }, compiled))
    }
}

} // verus!

verus! {

pub proof fn lemma_func_types_before_le(t: Seq<TypeV>, h: int)
    requires
        0 <= h,
    ensures
        func_types_before(t, h) <= h,
    decreases h,
{
    if h > 0 {
        lemma_func_types_before_le(t, h - 1);
    }
}

/// The type index of every handle, as emission assigns it.
pub open spec fn spec_type_index(t: Seq<TypeV>) -> Seq<u32> {
    Seq::new(t.len(), |h: int| func_types_before(t, h) as u32)
}

/// The address of every static item, as emission assigns it.
pub open spec fn spec_addr_u32(m: Module) -> Seq<u32> {
    spec_addresses(m.static_memory.items@, m.static_memory.items@.len()).0.map_values(|a: nat| a as u32)
}

pub open spec fn local_of(d: FuncDef) -> Function {
    d->Local_0
}

/// What emission needs beyond a well-formed module: counts within 32-bit
/// indices, static memory within the address space, defined local types and
/// code that lowers.
pub open spec fn emit_ok(m: Module) -> bool {
    let fs = m.funcs();
    &&& m.types@.len() <= u32::MAX
    &&& fs.len() < u32::MAX
    &&& spec_addresses(m.static_memory.items@, m.static_memory.items@.len()).1 <= crate::staticmem::MAX_IMAGE
    &&& forall|i: int| 0 <= i < fs.len() && (#[trigger] fs[i]) is Local ==> {
        &&& crate::ty::tys_in(local_of(fs[i]).all_locals_types@, m.types@.len())
        &&& function_code(m, spec_type_index(m.types@), spec_addr_u32(m), local_of(fs[i])) is Ok
    }
}

/// Entry `j` of the function, export and code sections describes local function `c + j`.
pub open spec fn local_entry_ok(m: Module, ti: Seq<u32>, addrs: Seq<u32>, c: nat, j: int, functions: Seq<u32>, exports: Seq<ExportW>, code: Seq<FunctionBody>) -> bool {
    let fs = m.funcs();
    let f = local_of(fs[c + j]);
    &&& fs[c + j] is Local
    &&& functions[j] == ti[f.ty as int]
    &&& exports[j].name@ == f.name@
    &&& exports[j].function_index == c + j
    &&& code[j].instrs@ == function_code(m, ti, addrs, f)->Ok_0
    &&& code[j].locals@ == backends(m.types@, f.all_locals_types@.skip(f.args@.len() as int))
}

/// What emission produces from `m`: every section, the code of each local
/// function, and a global function table whose entry `i + 1` holds function `i`.
pub open spec fn emits(m: Module, tm: TargetModule) -> bool
{
    let t = m.types@;
    let fs = m.funcs();
    let n = fs.len();
    let ne = extern_count(fs, n as int);
    let ti = spec_type_index(t);
    let addrs = spec_addr_u32(m);
    &&& tm.types@.len() == func_types_before(t, t.len() as int)
    &&& forall|h: int| 0 <= h < t.len() && (#[trigger] t[h]) is Func ==> {
        &&& tm.types@[ti[h] as int].params@ == backends(t, t[h]->Func_args)
        &&& tm.types@[ti[h] as int].results@ == backends(t, t[h]->Func_ret)
    }
    &&& tm.imports@.len() == ne
    &&& forall|i: int| 0 <= i < ne ==> (#[trigger] tm.imports@[i]).name@ == fs[i].spec_name()
        && tm.imports@[i].type_index == ti[fs[i].spec_ty() as int]
    &&& tm.functions@.len() == n - ne
    &&& tm.exports@.len() == n - ne
    &&& tm.code@.len() == n - ne
    &&& forall|j: int| 0 <= j < n - ne ==> #[trigger] local_entry_ok(m, ti, addrs, ne, j, tm.functions@, tm.exports@, tm.code@)
    &&& tm.table_size == n + 1
    &&& tm.table_max == n + 1
    &&& tm.elements_offset == 1
    &&& tm.elements@.len() == n
    &&& forall|i: int| 0 <= i < n ==> #[trigger] tm.elements@[i] == i
    &&& tm.memory_pages == m.conf.initial_memory_size
    &&& tm.globals@.len() == m.globals().len()
    &&& forall|i: int| 0 <= i < m.globals().len() ==> (#[trigger] tm.globals@[i]).ty == spec_compile_type(t[m.globals()[i].ty as int])
        && tm.globals@[i].init == m.globals()[i].value
    &&& tm.data@ == spec_image(m.static_memory.items@, m.static_memory.items@.len(), spec_addresses(m.static_memory.items@, m.static_memory.items@.len()).0)
}

/// Extern functions form a prefix: the first `extern_count` are extern, the rest local.
pub proof fn lemma_extern_prefix(fs: Seq<FuncDef>, k: int)
    requires
        0 <= k <= fs.len(),
        forall|i: int, j: int| 0 <= i < j < fs.len() && (#[trigger] fs[j]) is Extern ==> (#[trigger] fs[i]) is Extern,
    ensures
        extern_count(fs, k) <= k,
        forall|i: int| 0 <= i < extern_count(fs, k) ==> (#[trigger] fs[i]) is Extern,
        forall|i: int| extern_count(fs, k) <= i < k ==> (#[trigger] fs[i]) is Local,
    decreases k,
{
    if k > 0 {
        lemma_extern_prefix(fs, k - 1);
        if fs[k - 1] is Extern {
            assert forall|i: int| 0 <= i < k - 1 implies (#[trigger] fs[i]) is Extern by {
                assert(fs[i] is Extern);
            }
        }
    }
}

/// Emit a whole module. Sections follow the target order; the global function
/// table has one more entry than there are functions, and entry `i + 1` holds
/// function `i`.
#[verifier::rlimit(100)]
pub fn emit_module(m: &Module) -> (r: Result<TargetModule, EmitError>)
    requires
        m.wf(),
    ensures
        r is Ok <==> emit_ok(*m),
        r matches Ok(tm) ==> emits(*m, tm),
{
    let t = Ghost(m.types@);
    let n = m.function_count();
    if n >= 0xffff_ffff || m.types.len() > 0xffff_ffff {
        return Err(EmitError::TooManyItems);
    }
    let (e, compiled) = match WasmEmitter::new(m) {
        Ok(x) => x,
        Err(err) => return Err(err),
    };
    let ghost ti = e.type_index@;
    let ghost addrs = e.addresses@;
    proof {
        assert(ti =~= spec_type_index(m.types@));
        crate::staticmem::lemma_addresses(m.static_memory.items@, m.static_memory.items@.len(), m.static_memory.items@.len());
        assert forall|k: int| 0 <= k < addrs.len() implies #[trigger] addrs[k] == spec_addr_u32(*m)[k] by {
            assert(addrs_nat(addrs)[k] == addrs[k] as nat);
        }
        assert(addrs =~= spec_addr_u32(*m));
    }
    let table = &m.types;
    // types
    let mut types: Vec<FuncTypeW> = Vec::new();
    let mut h: usize = 0;
    while h < table.len()
        invariant
            h <= table@.len(),
            table == &m.types,
            m.wf(),
            ti == spec_type_index(table@),
            types@.len() == func_types_before(table@, h as int),
            table@.len() <= u32::MAX,
            forall|g: int| 0 <= g < h && (#[trigger] table@[g]) is Func ==> ti[g] < types@.len() && {
                &&& types@[ti[g] as int].params@ == backends(table@, table@[g]->Func_args)
                &&& types@[ti[g] as int].results@ == backends(table@, table@[g]->Func_ret)
            },
        decreases table@.len() - h,
    {
        proof {
            lemma_func_types_before_le(table@, h as int);
            assert(ti[h as int] as nat == func_types_before(table@, h as int));
        }
        if let Type::Func { args, ret } = table.get(h) {
            proof {
                assert(crate::ty::tys_in(args@, table@.len())) by {
                    assert forall|k: int| 0 <= k < args@.len() implies #[trigger] args@[k] < table@.len() by {
                        assert(table@[h as int].children()[k] == args@[k]);
                    }
                }
                assert(crate::ty::tys_in(ret@, table@.len())) by {
                    assert forall|k: int| 0 <= k < ret@.len() implies #[trigger] ret@[k] < table@.len() by {
                        assert(table@[h as int].children()[args@.len() + k] == ret@[k]);
                    }
                }
                assert(args@.skip(0) =~= args@);
                assert(ret@.skip(0) =~= ret@);
            }
            let params = match backends_exec(table, args, 0) {
                Some(v) => v,
                None => return Err(EmitError::InvalidType),
            };
            let results = match backends_exec(table, ret, 0) {
                Some(v) => v,
                None => return Err(EmitError::InvalidType),
            };
            types.push(FuncTypeW { params, results });
        }
        h = h + 1;
    }
    // imports, functions, exports, code
    let ghost fs = m.funcs();
    proof {
        lemma_extern_prefix(fs, n as int);
    }
    let mut imports: Vec<ImportW> = Vec::new();
    let mut functions: Vec<u32> = Vec::new();
    let mut exports: Vec<ExportW> = Vec::new();
    let mut code: Vec<FunctionBody> = Vec::new();
    let mut i: usize = 0;
    while i < n
        invariant
            i <= n,
            n == fs.len(),
            n < u32::MAX,
            fs == m.funcs(),
            m.wf(),
            table == &m.types,
            ti == spec_type_index(table@),
            addrs == spec_addr_u32(*m),
            e.type_index@ == ti,
            e.addresses@ == addrs,
            imports@.len() == extern_count(fs, i as int),
            functions@.len() == i - extern_count(fs, i as int),
            exports@.len() == functions@.len(),
            code@.len() == functions@.len(),
            extern_count(fs, i as int) <= i,
            forall|k: int| 0 <= k < extern_count(fs, i as int) ==> (#[trigger] imports@[k]).name@ == fs[k].spec_name()
                && imports@[k].type_index == ti[fs[k].spec_ty() as int],
            forall|j: int| 0 <= j < functions@.len() ==> #[trigger] local_entry_ok(*m, ti, addrs, extern_count(fs, i as int), j, functions@, exports@, code@),
            forall|k: int| 0 <= k < i && (#[trigger] fs[k]) is Local ==> {
                &&& crate::ty::tys_in(local_of(fs[k]).all_locals_types@, table@.len())
                &&& function_code(*m, ti, addrs, local_of(fs[k])) is Ok
            },
        decreases n - i,
    {
        proof {
            lemma_extern_prefix(fs, i as int);
            lemma_extern_prefix(fs, i as int + 1);
        }
        let fd = m.function_get_by_idx(i);
        assert(crate::module::funcdef_typed(table@, fs[i as int]));
        match fd {
            FuncDef::Extern(x) => {
                proof {
                    assert forall|k: int| 0 <= k < i implies (#[trigger] fs[k]) is Extern by {
                        assert(fs[k] is Extern);
                    }
                }
                assert(functions@.len() == 0);
                imports.push(ImportW { name: x.name.clone(), type_index: e.type_index[x.ty] });
                assert forall|j: int| 0 <= j < functions@.len() implies #[trigger] local_entry_ok(*m, ti, addrs, extern_count(fs, i + 1), j, functions@, exports@, code@) by {}
            },
            FuncDef::Local(f) => {
                if f.all_locals_types.len() < f.args.len() {
                    return Err(EmitError::InvalidType);
                }
                let locals = match backends_exec(table, &f.all_locals_types, f.args.len()) {
                    Some(v) => v,
                    None => {
                        proof {
                            assert forall|k: int| 0 <= k < f.all_locals_types@.skip(f.args@.len() as int).len() implies #[trigger] f.all_locals_types@.skip(f.args@.len() as int)[k] == f.all_locals_types@[f.args@.len() + k] by {}
                        }
                        assert(!crate::ty::tys_in(f.all_locals_types@, table@.len()));
                        assert(!emit_ok(*m)) by {
                            assert(fs[i as int] is Local);
                        }
                        return Err(EmitError::InvalidType);
                    },
                };
                let mut body: Vec<WInstr> = Vec::new();
                match e.compile_block(m, f, 0, f.blocks.len(), &mut body) {
                    Err(x) => {
                        assert(!emit_ok(*m)) by {
                            assert(fs[i as int] is Local);
                        }
                        return Err(x);
                    },
                    Ok(()) => {},
                }
                assert(body@ =~= function_code(*m, ti, addrs, *f)->Ok_0);
                let ghost fun0 = functions@;
                let ghost exp0 = exports@;
                let ghost code0 = code@;
                let ghost c = extern_count(fs, i as int);
                functions.push(e.type_index[f.ty]);
                exports.push(ExportW { name: f.name.clone(), function_index: i as u32 });
                code.push(FunctionBody { locals, instrs: body });
                proof {
                    assert(extern_count(fs, i + 1) == c);
                    assert(c + fun0.len() == i);
                    assert forall|j: int| 0 <= j < functions@.len() implies #[trigger] local_entry_ok(*m, ti, addrs, extern_count(fs, i + 1), j, functions@, exports@, code@) by {
                        if j < fun0.len() {
                            assert(local_entry_ok(*m, ti, addrs, c, j, fun0, exp0, code0));
                            assert(functions@[j] == fun0[j]);
                            assert(exports@[j] == exp0[j]);
                            assert(code@[j] == code0[j]);
                        } else {
                            assert(j == fun0.len());
                            assert(c + j == i);
                            assert(fs[i as int] == FuncDef::Local(*f));
                        }
                    }
                }
                proof {
                    assert(crate::ty::tys_in(f.all_locals_types@, table@.len())) by {
                        assert forall|k: int| 0 <= k < f.all_locals_types@.len() implies #[trigger] f.all_locals_types@[k] < table@.len() by {
                            if k < f.args@.len() {
                                assert(f.all_locals_types@.take(f.args@.len() as int)[k] == f.args@[k]);
                                assert(table@[f.ty as int].children()[k] == f.args@[k]);
                                assert(table@[f.ty as int].children()[k] < f.ty);
                            } else {
                                assert(f.all_locals_types@.skip(f.args@.len() as int)[k - f.args@.len()] == f.all_locals_types@[k]);
                            }
                        }
                    }
                }
            },
        }
        i = i + 1;
    }
    proof {
        lemma_extern_prefix(fs, n as int);
    }
    // globals
    let mut globals: Vec<GlobalW> = Vec::new();
    let gn = m.global_count();
    let mut g: usize = 0;
    while g < gn
        invariant
            g <= gn,
            gn == m.globals().len(),
            m.wf(),
            table == &m.types,
            globals@.len() == g,
            forall|k: int| 0 <= k < g ==> (#[trigger] globals@[k]).ty == spec_compile_type(table@[m.globals()[k].ty as int])
                && globals@[k].init == m.globals()[k].value,
        decreases gn - g,
    {
        let gl = m.global_get_by_idx(g);
        let ty = if gl.ty < table.len() {
            match table.get(gl.ty) {
                Type::Float32 => BackendType::F32,
                _ => BackendType::I32,
            }
        } else {
            BackendType::I32
        };
        assert(gl.ty == crate::ty::INT32_T || gl.ty == crate::ty::FLOAT32_T);
        globals.push(GlobalW { ty, init: gl.value });
        g = g + 1;
    }
    // the global function table
    let mut elements: Vec<u32> = Vec::new();
    let mut k: usize = 0;
    while k < n
        invariant
            k <= n,
            n < u32::MAX,
            elements@.len() == k,
            forall|j: int| 0 <= j < k ==> #[trigger] elements@[j] == j,
        decreases n - k,
    {
        elements.push(k as u32);
        k = k + 1;
    }
    let tm = TargetModule {
        types,
        imports,
        functions,
        table_size: (n + 1) as u32,
        table_max: (n + 1) as u32,
        elements_offset: 1,
        memory_pages: m.conf.initial_memory_size,
        globals,
        exports,
        elements,
        code,
        data: compiled.buf,
    };
        proof {
            let t = m.types@;
            let fs = m.funcs();
            let n = fs.len();
            let ne = extern_count(fs, n as int);
            let ti = spec_type_index(t);
            let addrs = spec_addr_u32(*m);
            assert(tm.types@.len() == func_types_before(t, t.len() as int));
            assert(forall|h: int| 0 <= h < t.len() && (#[trigger] t[h]) is Func ==> {
            &&& tm.types@[ti[h] as int].params@ == backends(t, t[h]->Func_args)
            &&& tm.types@[ti[h] as int].results@ == backends(t, t[h]->Func_ret)
        });
            assert(tm.imports@.len() == ne);
            assert(forall|i: int| 0 <= i < ne ==> (#[trigger] tm.imports@[i]).name@ == fs[i].spec_name()
            && tm.imports@[i].type_index == ti[fs[i].spec_ty() as int]);
            assert(tm.functions@.len() == n - ne);
            assert(tm.exports@.len() == n - ne);
            assert(tm.code@.len() == n - ne);
            assert forall|j: int| 0 <= j < n - ne implies #[trigger] local_entry_ok(*m, ti, addrs, ne, j, tm.functions@, tm.exports@, tm.code@) by {}
            assert(tm.table_size == n + 1);
            assert(tm.table_max == n + 1);
            assert(tm.elements_offset == 1);
            assert(tm.elements@.len() == n);
            assert(forall|i: int| 0 <= i < n ==> #[trigger] tm.elements@[i] == i);
            assert(tm.memory_pages == m.conf.initial_memory_size);
            assert(tm.globals@.len() == m.globals().len());
            assert(forall|i: int| 0 <= i < m.globals().len() ==> (#[trigger] tm.globals@[i]).ty == spec_compile_type(t[m.globals()[i].ty as int])
            && tm.globals@[i].init == m.globals()[i].value);
            assert(tm.data@ == spec_image(m.static_memory.items@, m.static_memory.items@.len(), spec_addresses(m.static_memory.items@, m.static_memory.items@.len()).0));
            assert(emits(*m, tm));
        }
    Ok(tm)
}

} // verus!

verus! {

/// The global function table law, lowering side: a function value is its
/// module index plus one, so loading the value of the function at index `i`
/// pushes `i + 1`. On the table side, `emits` fixes `elements_offset == 1`
/// and `elements[i] == i`, so entry `i + 1` holds function `i` and entry 0
/// holds none.
pub proof fn lemma_gft_bijection(m: Module, ti: Seq<u32>, addrs: Seq<u32>, f: Function, cur: InstrBlock, i: int, meta: crate::metadata::Metadata)
    requires
        m.wf(),
        0 <= i < m.funcs().len(),
        m.funcs().len() < u32::MAX,
    ensures
        lower_instr(m, ti, addrs, f, cur, Instr { kind: InstrK::LdGlobalFunc { func_name: name_of(m.funcs()[i]) }, meta }, 0)
            == Ok::<Seq<WInstr>, EmitError>(seq![WInstr::I32Const((i + 1) as u32 as i32)]),
        m.funcs()[i].spec_idx() == i,
{
    let name = name_of(m.funcs()[i]);
    assert(m.funcs()[i].spec_name() == name@);
    let j = choose|j: int| 0 <= j < m.funcs().len() && (#[trigger] m.funcs()[j]).spec_name() == name@;
    if j < i {
        assert(m.funcs()[j].spec_name() != m.funcs()[i].spec_name());
    } else if i < j {
        assert(m.funcs()[i].spec_name() != m.funcs()[j].spec_name());
    }
}

/// The name of a function definition, as a string.
pub open spec fn name_of(d: FuncDef) -> String {
    match d {
        FuncDef::Local(f) => f.name,
        FuncDef::Extern(f) => f.name,
    }
}

} // verus!

verus! {

/// A `Break` in a block whose innermost loop distance is `d` branches out by
/// `d + 1`: one level per `IfElse` block between it and its loop, and one
/// for the outer `block` that wraps every lowered loop.
pub proof fn lemma_break_depth(m: Module, ti: Seq<u32>, addrs: Seq<u32>, f: Function, cur: InstrBlock, meta: crate::metadata::Metadata, fuel: nat, d: usize)
    requires
        cur.meta.innermost_loop_distance == Some(d),
        d < u32::MAX,
    ensures
        lower_instr(m, ti, addrs, f, cur, Instr { kind: InstrK::Break, meta }, fuel) == Ok::<Seq<WInstr>, EmitError>(seq![WInstr::Br((d + 1) as u32)]),
{
}

} // verus!
