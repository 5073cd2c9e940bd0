//! Width- and sign-aware lowering of numeric instructions.
use vstd::prelude::*;
use crate::metadata::BitWidthSign;
use crate::ty::{Ty, TypeTable, TypeV};

verus! {

/// The width and sign of an integer type; `None` for other types.
pub open spec fn spec_bws(v: TypeV) -> Option<BitWidthSign> {
    match v {
        TypeV::Int32 => Some(BitWidthSign::S32),
        TypeV::UInt32 => Some(BitWidthSign::U32),
        TypeV::Int16 => Some(BitWidthSign::S16),
        TypeV::UInt16 => Some(BitWidthSign::U16),
        TypeV::Int8 => Some(BitWidthSign::S8),
        TypeV::UInt8 => Some(BitWidthSign::U8),
        _ => None,
    }
}

pub open spec fn spec_type_bws(t: Seq<TypeV>, ty: Ty) -> Option<BitWidthSign> {
    if ty < t.len() {
        spec_bws(t[ty as int])
    } else {
        None
    }
}

/// The width and sign descriptor of the type at `ty`, if it is an integer type.
pub fn type_to_bws(table: &TypeTable, ty: Ty) -> (r: Option<BitWidthSign>)
    ensures
        r == spec_type_bws(table@, ty),
{
    if ty >= table.len() {
        return None;
    }
    match table.get(ty) {
        crate::ty::Type::Int32 => Some(BitWidthSign::S32),
        crate::ty::Type::UInt32 => Some(BitWidthSign::U32),
        crate::ty::Type::Int16 => Some(BitWidthSign::S16),
        crate::ty::Type::UInt16 => Some(BitWidthSign::U16),
        crate::ty::Type::Int8 => Some(BitWidthSign::S8),
        crate::ty::Type::UInt8 => Some(BitWidthSign::U8),
        _ => None,
    }
}

} // verus!

verus! {

use crate::instr::{Cmp, InstrK};
use crate::wasm::{MemArg, WInstr};

/// Follow `core` by the mask idiom.
pub open spec fn and_idiom(core: WInstr, n: i32) -> Seq<WInstr> {
    seq![core, WInstr::I32Const(n), WInstr::I32And]
}

/// Follow `core` by the shift idiom, which sign-extends from `32 - n` bits.
pub open spec fn shift_idiom(core: WInstr, n: i32) -> Seq<WInstr> {
    seq![core, WInstr::I32Const(n), WInstr::I32Shl, WInstr::I32Const(n), WInstr::I32ShrS]
}

/// Mask to the width of `bws` and re-extend the sign where it is signed.
pub open spec fn wrap_to(core: WInstr, bws: BitWidthSign) -> Seq<WInstr> {
    match bws {
        BitWidthSign::S32 | BitWidthSign::U32 => seq![core],
        BitWidthSign::U16 => and_idiom(core, 0xffff),
        BitWidthSign::S16 => shift_idiom(core, 16),
        BitWidthSign::U8 => and_idiom(core, 0xff),
        BitWidthSign::S8 => shift_idiom(core, 24),
    }
}

/// The conversion of an integer of width/sign `from` to the integer type `to`.
pub open spec fn iconv_lowering(to: BitWidthSign, from: BitWidthSign) -> Seq<WInstr> {
    match to {
        BitWidthSign::S32 | BitWidthSign::U32 => Seq::empty(),
        BitWidthSign::S16 => match from {
            BitWidthSign::U16 | BitWidthSign::U32 | BitWidthSign::S32 => seq![WInstr::I32Const(16), WInstr::I32Shl, WInstr::I32Const(16), WInstr::I32ShrS],
            _ => Seq::empty(),
        },
        BitWidthSign::U16 => match from {
            BitWidthSign::S8 | BitWidthSign::S16 | BitWidthSign::U32 | BitWidthSign::S32 => seq![WInstr::I32Const(0xffff), WInstr::I32And],
            _ => Seq::empty(),
        },
        BitWidthSign::S8 => match from {
            BitWidthSign::S8 => Seq::empty(),
            _ => seq![WInstr::I32Const(24), WInstr::I32Shl, WInstr::I32Const(24), WInstr::I32ShrS],
        },
        BitWidthSign::U8 => match from {
            BitWidthSign::U8 => Seq::empty(),
            _ => seq![WInstr::I32Const(0xff), WInstr::I32And],
        },
    }
}

/// Whether `numeric_lowering` is defined for this instruction kind.
pub open spec fn is_numeric(kind: InstrK) -> bool {
    kind is IAdd || kind is ISub || kind is IMul || kind is IDiv || kind is Itof || kind is Ftoi
        || kind is ICmp || kind is Read || kind is Write || kind is IConv
}

/// The target sequence of a numeric instruction with operand descriptor
/// `bws`; `target` is the descriptor of an `IConv` target and `mem` the
/// memory argument of a `Read` or `Write`.
pub open spec fn numeric_lowering(kind: InstrK, bws: BitWidthSign, target: BitWidthSign, mem: MemArg, saturating: bool) -> Seq<WInstr> {
    match kind {
        InstrK::IAdd => wrap_to(WInstr::I32Add, bws),
        InstrK::ISub => wrap_to(WInstr::I32Sub, bws),
        InstrK::IMul => wrap_to(WInstr::I32Mul, bws),
        InstrK::IDiv => match bws {
            BitWidthSign::U32 | BitWidthSign::U16 | BitWidthSign::U8 => seq![WInstr::I32DivU],
            BitWidthSign::S32 => seq![WInstr::I32DivS],
            BitWidthSign::S16 => shift_idiom(WInstr::I32DivS, 16),
            BitWidthSign::S8 => shift_idiom(WInstr::I32DivS, 24),
        },
        InstrK::Itof => if bws.spec_is_unsigned() { seq![WInstr::F32ConvertI32U] } else { seq![WInstr::F32ConvertI32S] },
        InstrK::Ftoi { .. } => if bws.spec_is_unsigned() {
            if saturating { seq![WInstr::I32TruncSatF32U] } else { seq![WInstr::I32TruncF32U] }
        } else {
            if saturating { seq![WInstr::I32TruncSatF32S] } else { seq![WInstr::I32TruncF32S] }
        },
        InstrK::ICmp(c) => match c {
            Cmp::Eq => seq![WInstr::I32Eq],
            Cmp::Ne => seq![WInstr::I32Ne],
            Cmp::Lt => if bws.spec_is_unsigned() { seq![WInstr::I32LtU] } else { seq![WInstr::I32LtS] },
            Cmp::Le => if bws.spec_is_unsigned() { seq![WInstr::I32LeU] } else { seq![WInstr::I32LeS] },
            Cmp::Gt => if bws.spec_is_unsigned() { seq![WInstr::I32GtU] } else { seq![WInstr::I32GtS] },
            Cmp::Ge => if bws.spec_is_unsigned() { seq![WInstr::I32GeU] } else { seq![WInstr::I32GeS] },
        },
        InstrK::Read { .. } => match bws {
            BitWidthSign::U32 | BitWidthSign::S32 => seq![WInstr::I32Load(mem)],
            BitWidthSign::U16 => seq![WInstr::I32Load16U(mem)],
            BitWidthSign::S16 => seq![WInstr::I32Load16S(mem)],
            BitWidthSign::U8 => seq![WInstr::I32Load8U(mem)],
            BitWidthSign::S8 => seq![WInstr::I32Load8S(mem)],
        },
        InstrK::Write { .. } => match bws {
            BitWidthSign::U32 | BitWidthSign::S32 => seq![WInstr::I32Store(mem)],
            BitWidthSign::U16 | BitWidthSign::S16 => seq![WInstr::I32Store16(mem)],
            BitWidthSign::U8 | BitWidthSign::S8 => seq![WInstr::I32Store8(mem)],
        },
        InstrK::IConv { .. } => iconv_lowering(target, bws),
        _ => Seq::empty(),
    }
}

fn and_vec(core: WInstr, n: i32) -> (r: Vec<WInstr>)
    ensures
        r@ == and_idiom(core, n),
{
    let r = vec![core, WInstr::I32Const(n), WInstr::I32And];
    assert(r@ =~= and_idiom(core, n));
    r
}

fn shift_vec(core: WInstr, n: i32) -> (r: Vec<WInstr>)
    ensures
        r@ == shift_idiom(core, n),
{
    let r = vec![core, WInstr::I32Const(n), WInstr::I32Shl, WInstr::I32Const(n), WInstr::I32ShrS];
    assert(r@ =~= shift_idiom(core, n));
    r
}

fn one(i: WInstr) -> (r: Vec<WInstr>)
    ensures
        r@ == seq![i],
{
    let r = vec![i];
    assert(r@ =~= seq![i]);
    r
}

fn wrap_vec(core: WInstr, bws: BitWidthSign) -> (r: Vec<WInstr>)
    ensures
        r@ == wrap_to(core, bws),
{
    match bws {
        BitWidthSign::S32 | BitWidthSign::U32 => one(core),
        BitWidthSign::U16 => and_vec(core, 0xffff),
        BitWidthSign::S16 => shift_vec(core, 16),
        BitWidthSign::U8 => and_vec(core, 0xff),
        BitWidthSign::S8 => shift_vec(core, 24),
    }
}

fn iconv_vec(to: BitWidthSign, from: BitWidthSign) -> (r: Vec<WInstr>)
    ensures
        r@ == iconv_lowering(to, from),
{
    let sext16 = vec![WInstr::I32Const(16), WInstr::I32Shl, WInstr::I32Const(16), WInstr::I32ShrS];
    let sext8 = vec![WInstr::I32Const(24), WInstr::I32Shl, WInstr::I32Const(24), WInstr::I32ShrS];
    let mask16 = vec![WInstr::I32Const(0xffff), WInstr::I32And];
    let mask8 = vec![WInstr::I32Const(0xff), WInstr::I32And];
    assert(sext16@ =~= seq![WInstr::I32Const(16), WInstr::I32Shl, WInstr::I32Const(16), WInstr::I32ShrS]);
    assert(sext8@ =~= seq![WInstr::I32Const(24), WInstr::I32Shl, WInstr::I32Const(24), WInstr::I32ShrS]);
    assert(mask16@ =~= seq![WInstr::I32Const(0xffff), WInstr::I32And]);
    assert(mask8@ =~= seq![WInstr::I32Const(0xff), WInstr::I32And]);
    let r = match to {
        BitWidthSign::S32 | BitWidthSign::U32 => Vec::new(),
        BitWidthSign::S16 => match from {
            BitWidthSign::U16 | BitWidthSign::U32 | BitWidthSign::S32 => sext16,
            _ => Vec::new(),
        },
        BitWidthSign::U16 => match from {
            BitWidthSign::S8 | BitWidthSign::S16 | BitWidthSign::U32 | BitWidthSign::S32 => mask16,
            _ => Vec::new(),
        },
        BitWidthSign::S8 => match from {
            BitWidthSign::S8 => Vec::new(),
            _ => sext8,
        },
        BitWidthSign::U8 => match from {
            BitWidthSign::U8 => Vec::new(),
            _ => mask8,
        },
    };
    assert(r@ =~= iconv_lowering(to, from));
    r
}

/// Emit the target instructions of a numeric instruction.
pub fn emit_numeric_instr(kind: &InstrK, bws: BitWidthSign, target: BitWidthSign, mem: MemArg, use_saturating_ftoi: bool) -> (r: Vec<WInstr>)
    requires
        is_numeric(*kind),
    ensures
        r@ == numeric_lowering(*kind, bws, target, mem, use_saturating_ftoi),
{
    let u = bws.is_unsigned();
    match kind {
        InstrK::IAdd => wrap_vec(WInstr::I32Add, bws),
        InstrK::ISub => wrap_vec(WInstr::I32Sub, bws),
        InstrK::IMul => wrap_vec(WInstr::I32Mul, bws),
        InstrK::IDiv => match bws {
            BitWidthSign::U32 | BitWidthSign::U16 | BitWidthSign::U8 => one(WInstr::I32DivU),
            BitWidthSign::S32 => one(WInstr::I32DivS),
            BitWidthSign::S16 => shift_vec(WInstr::I32DivS, 16),
            BitWidthSign::S8 => shift_vec(WInstr::I32DivS, 24),
        },
        InstrK::Itof => if u { one(WInstr::F32ConvertI32U) } else { one(WInstr::F32ConvertI32S) },
        InstrK::Ftoi { .. } => if u {
            if use_saturating_ftoi { one(WInstr::I32TruncSatF32U) } else { one(WInstr::I32TruncF32U) }
        } else {
            if use_saturating_ftoi { one(WInstr::I32TruncSatF32S) } else { one(WInstr::I32TruncF32S) }
        },
        InstrK::ICmp(c) => match c {
            Cmp::Eq => one(WInstr::I32Eq),
            Cmp::Ne => one(WInstr::I32Ne),
            Cmp::Lt => if u { one(WInstr::I32LtU) } else { one(WInstr::I32LtS) },
            Cmp::Le => if u { one(WInstr::I32LeU) } else { one(WInstr::I32LeS) },
            Cmp::Gt => if u { one(WInstr::I32GtU) } else { one(WInstr::I32GtS) },
            Cmp::Ge => if u { one(WInstr::I32GeU) } else { one(WInstr::I32GeS) },
        },
        InstrK::Read { .. } => match bws {
            BitWidthSign::U32 | BitWidthSign::S32 => one(WInstr::I32Load(mem)),
            BitWidthSign::U16 => one(WInstr::I32Load16U(mem)),
            BitWidthSign::S16 => one(WInstr::I32Load16S(mem)),
            BitWidthSign::U8 => one(WInstr::I32Load8U(mem)),
            BitWidthSign::S8 => one(WInstr::I32Load8S(mem)),
        },
        InstrK::Write { .. } => match bws {
            BitWidthSign::U32 | BitWidthSign::S32 => one(WInstr::I32Store(mem)),
            BitWidthSign::U16 | BitWidthSign::S16 => one(WInstr::I32Store16(mem)),
            BitWidthSign::U8 | BitWidthSign::S8 => one(WInstr::I32Store8(mem)),
        },
        InstrK::IConv { .. } => iconv_vec(target, bws),
        _ => vstd::pervasive::unreached(),
    }
}

} // verus!

verus! {

/// Whether two integer types have the same width and sign.
pub fn do_int_types_match(table: &TypeTable, l: Ty, r: Ty) -> (m: bool)
    ensures
        m == (spec_type_bws(table@, l) is Some && spec_type_bws(table@, l) == spec_type_bws(table@, r)),
{
    match (type_to_bws(table, l), type_to_bws(table, r)) {
        (Some(a), Some(b)) => a == b,
        _ => false,
    }
}

/// Whether verification attaches a width and sign descriptor to this instruction.
pub fn instr_needs_numeric_metadata(i: &crate::instr::Instr) -> (r: bool)
    ensures
        r == (i.kind is IAdd || i.kind is ISub || i.kind is IMul || i.kind is IDiv || i.kind is Itof || i.kind is ICmp || i.kind is IConv),
{
    match i.kind {
        InstrK::IAdd | InstrK::ISub | InstrK::IMul | InstrK::IDiv | InstrK::Itof | InstrK::ICmp(_) | InstrK::IConv { .. } => true,
        _ => false,
    }
}

} // verus!
