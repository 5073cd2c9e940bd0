//! The target side: WebAssembly instructions and the module description that
//! emission produces. Encoding to bytes happens outside the library.
use vstd::prelude::*;
use crate::abi::BackendType;
use crate::module::GlobalValueInit;

verus! {

#[derive(PartialEq, Eq, Structural, Clone, Copy, Debug)]
pub struct MemArg {
    pub offset: u64,
    /// Alignment, as an exponent of two.
    pub align: u32,
    pub memory_index: u32,
}

#[derive(PartialEq, Eq, Structural, Clone, Copy, Debug)]
pub enum BlockType {
    Empty,
    FunctionType(u32),
}

/// The WebAssembly instructions that lowering emits. A float constant is held as its bits.
#[derive(PartialEq, Eq, Structural, Clone, Copy, Debug)]
pub enum WInstr {
    I32Const(i32),
    F32Const(u32),
    I32Add,
    I32Sub,
    I32Mul,
    I32DivS,
    I32DivU,
    I32And,
    I32Or,
    I32Shl,
    I32ShrS,
    I32Eqz,
    I32Eq,
    I32Ne,
    I32LtS,
    I32LtU,
    I32LeS,
    I32LeU,
    I32GtS,
    I32GtU,
    I32GeS,
    I32GeU,
    F32Add,
    F32Sub,
    F32Mul,
    F32Div,
    F32Eq,
    F32Ne,
    F32Lt,
    F32Le,
    F32Gt,
    F32Ge,
    F32ConvertI32S,
    F32ConvertI32U,
    I32TruncF32S,
    I32TruncF32U,
    I32TruncSatF32S,
    I32TruncSatF32U,
    F32ReinterpretI32,
    I32ReinterpretF32,
    Call(u32),
    CallIndirect { ty: u32, table: u32 },
    LocalGet(u32),
    LocalSet(u32),
    GlobalGet(u32),
    GlobalSet(u32),
    I32Load(MemArg),
    I32Load16S(MemArg),
    I32Load16U(MemArg),
    I32Load8S(MemArg),
    I32Load8U(MemArg),
    F32Load(MemArg),
    I32Store(MemArg),
    I32Store16(MemArg),
    I32Store8(MemArg),
    F32Store(MemArg),
    Drop,
    Return,
    MemorySize,
    MemoryGrow,
    Unreachable,
    Block(BlockType),
    Loop(BlockType),
    If(BlockType),
    Else,
    End,
    Br(u32),
}

/// A function signature of the target.
#[derive(Debug)]
pub struct FuncTypeW {
    pub params: Vec<BackendType>,
    pub results: Vec<BackendType>,
}

#[derive(Debug)]
pub struct FunctionBody {
    /// The types of the locals after the arguments.
    pub locals: Vec<BackendType>,
    /// The body, without the final `end`.
    pub instrs: Vec<WInstr>,
}

#[derive(Debug)]
pub struct ImportW {
    pub name: String,
    pub type_index: u32,
}

#[derive(Debug)]
pub struct ExportW {
    pub name: String,
    pub function_index: u32,
}

#[derive(Debug)]
pub struct GlobalW {
    pub ty: BackendType,
    pub init: GlobalValueInit,
}

/// A complete target module, section by section.
#[derive(Debug)]
pub struct TargetModule {
    pub types: Vec<FuncTypeW>,
    pub imports: Vec<ImportW>,
    /// The type index of each local function.
    pub functions: Vec<u32>,
    /// The initial size of the global function table.
    pub table_size: u32,
    /// The largest size the global function table may grow to.
    pub table_max: u32,
    pub memory_pages: u32,
    pub globals: Vec<GlobalW>,
    pub exports: Vec<ExportW>,
    /// The table entry that the element segment starts at.
    pub elements_offset: u32,
    /// The function indices that fill the global function table from `elements_offset` on.
    pub elements: Vec<u32>,
    pub code: Vec<FunctionBody>,
    /// The static memory image, placed at address 0.
    pub data: Vec<u8>,
}

} // verus!
