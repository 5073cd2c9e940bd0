//! Instructions, blocks and functions.
use vstd::prelude::*;
use crate::metadata::{BlockId, Metadata};
use crate::staticmem::SMItemRef;
use crate::ty::{Ty, TypeV};

verus! {

#[derive(PartialEq, Eq, Structural, Clone, Copy, Debug)]
pub enum Cmp {
    Eq,
    Ne,
    Lt,
    Le,
    Gt,
    Ge,
}

/// The structural role of a block.
#[derive(PartialEq, Eq, Structural, Clone, Copy, Debug)]
pub enum BlockTag {
    Undefined,
    /// The entry block of a function.
    Main,
    /// A branch of an `IfElse` instruction.
    IfElse,
    /// The body of a `Loop` instruction.
    Loop,
}

/// The instruction kinds. A float constant is held as its IEEE-754 bits.
#[derive(PartialEq, Eq, Debug)]
pub enum InstrK {
    LdInt(u32, Ty),
    LdFloat(u32),
    IAdd,
    ISub,
    IMul,
    IDiv,
    FAdd,
    FSub,
    FMul,
    FDiv,
    Itof,
    Ftoi { int_ty: Ty },
    ICmp(Cmp),
    FCmp(Cmp),
    Not,
    BitAnd,
    BitOr,
    IConv { target: Ty },
    CallDirect { func_name: String },
    LdLocal { idx: usize },
    StLocal { idx: usize },
    LdGlobalFunc { func_name: String },
    CallIndirect,
    Bitcast { target: Ty },
    IfElse { then: BlockId, else_: Option<BlockId> },
    Read { ty: Ty },
    Write { ty: Ty },
    Offset { ty: Ty },
    GetFieldPtr { struct_ty: Ty, field_idx: usize },
    Discard,
    Return,
    MemorySize,
    MemoryGrow,
    LdGlobal(String),
    StGlobal(String),
    Fail,
    Loop(BlockId),
    Break,
    LdStaticMemPtr(SMItemRef),
}

/// An instruction with its metadata.
#[derive(Debug)]
pub struct Instr {
    pub kind: InstrK,
    pub meta: Metadata,
}

impl InstrK {
    pub open spec fn spec_is_diverging(&self) -> bool {
        self is Return || self is Fail || self is Break
    }

    /// A copy of this instruction kind.
    pub fn duplicate(&self) -> (r: InstrK)
        ensures
            r == *self,
    {
        match self {
            InstrK::LdInt(v, t) => InstrK::LdInt(*v, *t),
            InstrK::LdFloat(v) => InstrK::LdFloat(*v),
            InstrK::IAdd => InstrK::IAdd,
            InstrK::ISub => InstrK::ISub,
            InstrK::IMul => InstrK::IMul,
            InstrK::IDiv => InstrK::IDiv,
            InstrK::FAdd => InstrK::FAdd,
            InstrK::FSub => InstrK::FSub,
            InstrK::FMul => InstrK::FMul,
            InstrK::FDiv => InstrK::FDiv,
            InstrK::Itof => InstrK::Itof,
            InstrK::Ftoi { int_ty } => InstrK::Ftoi { int_ty: *int_ty },
            InstrK::ICmp(c) => InstrK::ICmp(*c),
            InstrK::FCmp(c) => InstrK::FCmp(*c),
            InstrK::Not => InstrK::Not,
            InstrK::BitAnd => InstrK::BitAnd,
            InstrK::BitOr => InstrK::BitOr,
            InstrK::IConv { target } => InstrK::IConv { target: *target },
            InstrK::CallDirect { func_name } => InstrK::CallDirect { func_name: func_name.clone() },
            InstrK::LdLocal { idx } => InstrK::LdLocal { idx: *idx },
            InstrK::StLocal { idx } => InstrK::StLocal { idx: *idx },
            InstrK::LdGlobalFunc { func_name } => InstrK::LdGlobalFunc { func_name: func_name.clone() },
            InstrK::CallIndirect => InstrK::CallIndirect,
            InstrK::Bitcast { target } => InstrK::Bitcast { target: *target },
            InstrK::IfElse { then, else_ } => InstrK::IfElse { then: *then, else_: *else_ },
            InstrK::Read { ty } => InstrK::Read { ty: *ty },
            InstrK::Write { ty } => InstrK::Write { ty: *ty },
            InstrK::Offset { ty } => InstrK::Offset { ty: *ty },
            InstrK::GetFieldPtr { struct_ty, field_idx } => InstrK::GetFieldPtr { struct_ty: *struct_ty, field_idx: *field_idx },
            InstrK::Discard => InstrK::Discard,
            InstrK::Return => InstrK::Return,
            InstrK::MemorySize => InstrK::MemorySize,
            InstrK::MemoryGrow => InstrK::MemoryGrow,
            InstrK::LdGlobal(n) => InstrK::LdGlobal(n.clone()),
            InstrK::StGlobal(n) => InstrK::StGlobal(n.clone()),
            InstrK::Fail => InstrK::Fail,
            InstrK::Loop(b) => InstrK::Loop(*b),
            InstrK::Break => InstrK::Break,
            InstrK::LdStaticMemPtr(r) => InstrK::LdStaticMemPtr(*r),
        }
    }
}

impl Instr {
    pub fn new(kind: InstrK) -> (r: Instr)
        ensures
            r.kind == kind,
            r.meta == Metadata::empty(),
    {
        Instr { kind, meta: Metadata::new() }
    }

    pub fn new_with_meta(kind: InstrK, meta: Metadata) -> (r: Instr)
        ensures
            r.kind == kind,
            r.meta == meta,
    {
        Instr { kind, meta }
    }

    /// A copy of this instruction, metadata included.
    pub fn duplicate(&self) -> (r: Instr)
        ensures
            r == *self,
    {
        Instr { kind: self.kind.duplicate(), meta: self.meta }
    }

    pub open spec fn spec_is_load(&self) -> bool {
        self.kind is LdInt || self.kind is LdFloat || self.kind is LdLocal || self.kind is LdGlobalFunc
    }

    /// Whether this instruction pops nothing and pushes one value.
    pub fn is_load(&self) -> (r: bool)
        ensures
            r == self.spec_is_load(),
    {
        match self.kind {
            InstrK::LdInt(..) | InstrK::LdFloat(_) | InstrK::LdLocal { .. } | InstrK::LdGlobalFunc { .. } => true,
            _ => false,
        }
    }

    /// Whether control never reaches the next instruction: `Return`, `Fail` or `Break`.
    pub fn is_diverging(&self) -> (r: bool)
        ensures
            r == self.kind.spec_is_diverging(),
    {
        match self.kind {
            InstrK::Return | InstrK::Fail | InstrK::Break => true,
            _ => false,
        }
    }
}

/// A series of instructions executed in order.
pub struct InstrBlock {
    pub idx: BlockId,
    pub tag: BlockTag,
    pub body: Vec<Instr>,
    /// The block's type: a function type with no arguments.
    pub block_ty: Ty,
    /// What the block leaves on the stack when it is exited.
    pub rets: Vec<Ty>,
    pub meta: Metadata,
}

impl InstrBlock {
    pub fn new(idx: BlockId, block_ty: Ty, rets: Vec<Ty>, tag: BlockTag) -> (r: InstrBlock)
        ensures
            r.idx == idx,
            r.block_ty == block_ty,
            r.rets@ == rets@,
            r.tag == tag,
            r.body@.len() == 0,
            r.meta == Metadata::empty(),
    {
        InstrBlock { idx, tag, body: Vec::new(), block_ty, rets, meta: Metadata::new() }
    }

    /// Append an instruction with empty metadata.
    pub fn add(&mut self, instr_k: InstrK)
        ensures
            final(self).body@ == old(self).body@.push(Instr { kind: instr_k, meta: Metadata::empty() }),
            final(self).idx == old(self).idx,
            final(self).tag == old(self).tag,
            final(self).block_ty == old(self).block_ty,
            final(self).rets == old(self).rets,
            final(self).meta == old(self).meta,
    {
        self.body.push(Instr::new(instr_k));
    }

    pub fn full_type(&self) -> (r: Ty)
        ensures
            r == self.block_ty,
    {
        self.block_ty
    }

    pub fn ret_tys(&self) -> (r: &Vec<Ty>)
        ensures
            r == &self.rets,
    {
        &self.rets
    }

    pub fn is_main(&self) -> (r: bool)
        ensures
            r == (self.idx.0 == 0),
    {
        self.idx.0 == 0
    }

    pub fn tag(&self) -> (r: BlockTag)
        ensures
            r == self.tag,
    {
        self.tag
    }
}

/// A function with a body. Block `i` is stored at position `i`; block 0 is the entry.
pub struct Function {
    pub name: String,
    pub ty: Ty,
    pub args: Vec<Ty>,
    pub rets: Vec<Ty>,
    pub blocks: Vec<InstrBlock>,
    /// The types of the locals, arguments first.
    pub all_locals_types: Vec<Ty>,
    /// The function's index in its module.
    pub idx: usize,
}

impl Function {
    /// Blocks are stored by id, the entry block exists, and the locals start with the arguments.
    pub open spec fn wf(&self) -> bool {
        &&& self.blocks@.len() >= 1
        &&& forall|i: int| 0 <= i < self.blocks@.len() ==> (#[trigger] self.blocks@[i]).idx.0 == i
        &&& self.args@.len() <= self.all_locals_types@.len()
        &&& self.all_locals_types@.take(self.args@.len() as int) == self.args@
    }

    /// The function's type in `t` agrees with its argument and return lists.
    pub open spec fn typed_in(&self, t: Seq<TypeV>) -> bool {
        &&& self.ty < t.len()
        &&& t[self.ty as int] == (TypeV::Func { args: self.args@, ret: self.rets@ })
    }

    pub fn new(name: String, ty: Ty, args: Vec<Ty>, rets: Vec<Ty>, blocks: Vec<InstrBlock>, all_locals_types: Vec<Ty>) -> (r: Function)
        ensures
            r.name@ == name@,
            r.ty == ty,
            r.args@ == args@,
            r.rets@ == rets@,
            r.blocks@ == blocks@,
            r.all_locals_types@ == all_locals_types@,
            r.idx == usize::MAX,
    {
        Function { name, ty, args, rets, blocks, all_locals_types, idx: usize::MAX }
    }

    pub fn name(&self) -> (r: &String)
        ensures
            r == &self.name,
    {
        &self.name
    }

    pub fn ty(&self) -> (r: Ty)
        ensures
            r == self.ty,
    {
        self.ty
    }

    pub fn entry_block(&self) -> (r: &InstrBlock)
        requires
            self.wf(),
        ensures
            r == &self.blocks@[0],
    {
        &self.blocks[0]
    }

    pub fn block_count(&self) -> (r: usize)
        ensures
            r == self.blocks@.len(),
    {
        self.blocks.len()
    }

    pub fn get_block(&self, id: BlockId) -> (r: Option<&InstrBlock>)
        ensures
            id.0 < self.blocks@.len() ==> r == Some(&self.blocks@[id.0 as int]),
            id.0 >= self.blocks@.len() ==> r is None,
    {
        if id.0 < self.blocks.len() {
            Some(&self.blocks[id.0])
        } else {
            None
        }
    }

    pub fn ret_tys(&self) -> (r: &Vec<Ty>)
        ensures
            r == &self.rets,
    {
        &self.rets
    }

    pub fn arg_tys(&self) -> (r: &Vec<Ty>)
        ensures
            r == &self.args,
    {
        &self.args
    }

    pub fn all_locals_ty(&self) -> (r: &Vec<Ty>)
        ensures
            r == &self.all_locals_types,
    {
        &self.all_locals_types
    }

    pub fn local_ty(&self, idx: usize) -> (r: Option<Ty>)
        ensures
            idx < self.all_locals_types@.len() ==> r == Some(self.all_locals_types@[idx as int]),
            idx >= self.all_locals_types@.len() ==> r is None,
    {
        if idx < self.all_locals_types.len() {
            Some(self.all_locals_types[idx])
        } else {
            None
        }
    }

    pub fn all_local_count(&self) -> (r: usize)
        ensures
            r == self.all_locals_types@.len(),
    {
        self.all_locals_types.len()
    }

    pub fn arg_count(&self) -> (r: usize)
        ensures
            r == self.args@.len(),
    {
        self.args.len()
    }

    pub fn ret_count(&self) -> (r: usize)
        ensures
            r == self.rets@.len(),
    {
        self.rets.len()
    }

    /// Whether local `n` is one of the arguments.
    pub fn is_local_an_arg(&self, n: usize) -> (r: bool)
        ensures
            r == (n < self.args@.len()),
    {
        n < self.args.len()
    }
}

} // verus!
