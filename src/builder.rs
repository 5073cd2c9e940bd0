//! Imperative construction of functions.
use vstd::prelude::*;
use crate::instr::{BlockTag, Cmp, Function, Instr, InstrBlock, InstrK};
use crate::metadata::{BlockId, Metadata};
use crate::module::{FuncDef, Module, ModuleError};
use crate::staticmem::SMItemRef;
use crate::ty::{Ty, Type, TypeV, copy_tys, tys_in};

verus! {

/// A reference to a local of the function being built.
#[derive(PartialEq, Eq, Structural, Clone, Copy, Debug, Hash)]
pub struct LocalRef(pub usize);

/// A block under construction.
pub struct BuilderBlock {
    pub rets: Vec<Ty>,
    pub tag: BlockTag,
    pub body: Vec<Instr>,
}

pub struct FunctionBuilder {
    /// Block `i` is stored at position `i`; block 0 is the entry.
    pub blocks: Vec<BuilderBlock>,
    /// The block that instructions go to.
    pub current_block: usize,
    /// The locals, arguments first.
    pub locals: Vec<Ty>,
    pub argc: usize,
    pub ret: Vec<Ty>,
    pub fname: String,
}

impl FunctionBuilder {
    pub open spec fn wf(&self) -> bool {
        &&& self.blocks@.len() >= 1
        &&& self.current_block < self.blocks@.len()
        &&& self.argc <= self.locals@.len()
        &&& self.blocks@[0].tag == BlockTag::Main
    }

    /// A builder whose entry block rets what the function rets.
    pub fn new(func_name: String, arguments: Vec<Ty>, rets: Vec<Ty>) -> (r: FunctionBuilder)
        ensures
            r.wf(),
            r.fname@ == func_name@,
            r.locals@ == arguments@,
            r.argc == arguments@.len(),
            r.ret@ == rets@,
            r.blocks@.len() == 1,
            r.blocks@[0].rets@ == rets@,
            r.blocks@[0].body@.len() == 0,
            r.current_block == 0,
    {
        let entry = BuilderBlock { rets: copy_tys(&rets), tag: BlockTag::Main, body: Vec::new() };
        let mut blocks: Vec<BuilderBlock> = Vec::new();
        blocks.push(entry);
        let argc = arguments.len();
        FunctionBuilder { blocks, current_block: 0, locals: arguments, argc, ret: rets, fname: func_name }
    }

    /// The `n`-th argument.
    pub fn get_arg(&self, arg_index: usize) -> (r: LocalRef)
        requires
            arg_index < self.argc,
        ensures
            r.0 == arg_index,
    {
        LocalRef(arg_index)
    }

    /// A new local of type `ty`.
    pub fn new_local(&mut self, ty: Ty) -> (r: LocalRef)
        requires
            old(self).wf(),
        ensures
            final(self).wf(),
            final(self).locals@ == old(self).locals@.push(ty),
            r.0 == old(self).locals@.len(),
            final(self).blocks == old(self).blocks,
            final(self).current_block == old(self).current_block,
            final(self).argc == old(self).argc,
            final(self).ret == old(self).ret,
            final(self).fname == old(self).fname,
    {
        let r = LocalRef(self.locals.len());
        self.locals.push(ty);
        r
    }

    /// A new empty block with these return types and this tag.
    pub fn new_block(&mut self, rets: Vec<Ty>, tag: BlockTag) -> (r: BlockId)
        requires
            old(self).wf(),
        ensures
            final(self).wf(),
            r.0 == old(self).blocks@.len(),
            final(self).blocks@.len() == old(self).blocks@.len() + 1,
            final(self).blocks@.take(old(self).blocks@.len() as int) == old(self).blocks@,
            final(self).blocks@.last().rets@ == rets@,
            final(self).blocks@.last().tag == tag,
            final(self).blocks@.last().body@.len() == 0,
            final(self).current_block == old(self).current_block,
            final(self).locals == old(self).locals,
            final(self).argc == old(self).argc,
            final(self).ret == old(self).ret,
            final(self).fname == old(self).fname,
    {
        let r = BlockId(self.blocks.len());
        let ghost before = self.blocks@;
        self.blocks.push(BuilderBlock { rets: rets, tag, body: Vec::new() });
        assert(self.blocks@.take(before.len() as int) =~= before);
        r
    }

    /// Send later instructions to block `id`.
    pub fn switch_block(&mut self, id: BlockId)
        requires
            old(self).wf(),
            id.0 < old(self).blocks@.len(),
        ensures
            final(self).wf(),
            final(self).current_block == id.0,
            final(self).blocks == old(self).blocks,
            final(self).locals == old(self).locals,
            final(self).argc == old(self).argc,
            final(self).ret == old(self).ret,
            final(self).fname == old(self).fname,
    {
        self.current_block = id.0;
    }

    pub fn current_block(&self) -> (r: BlockId)
        ensures
            r.0 == self.current_block,
    {
        BlockId(self.current_block)
    }

    /// Append an instruction to the current block.
    pub fn instr(&mut self, i: InstrK)
        requires
            old(self).wf(),
        ensures
            appended(*old(self), *final(self), i),
    {
        let c = self.current_block;
        self.blocks[c].body.push(Instr::new(i));
    }

    pub fn i_ld_int(&mut self, val: u32, ty: Ty)
        requires
            old(self).wf(),
        ensures
            appended(*old(self), *final(self), InstrK::LdInt(val, ty)),
    {
        self.instr(InstrK::LdInt(val, ty));
    }

    pub fn i_ld_float(&mut self, bits: u32)
        requires
            old(self).wf(),
        ensures
            appended(*old(self), *final(self), InstrK::LdFloat(bits)),
    {
        self.instr(InstrK::LdFloat(bits));
    }

    pub fn i_iadd(&mut self)
        requires
            old(self).wf(),
        ensures
            appended(*old(self), *final(self), InstrK::IAdd),
    {
        self.instr(InstrK::IAdd);
    }

    pub fn i_isub(&mut self)
        requires
            old(self).wf(),
        ensures
            appended(*old(self), *final(self), InstrK::ISub),
    {
        self.instr(InstrK::ISub);
    }

    pub fn i_imul(&mut self)
        requires
            old(self).wf(),
        ensures
            appended(*old(self), *final(self), InstrK::IMul),
    {
        self.instr(InstrK::IMul);
    }

    pub fn i_idiv(&mut self)
        requires
            old(self).wf(),
        ensures
            appended(*old(self), *final(self), InstrK::IDiv),
    {
        self.instr(InstrK::IDiv);
    }

    pub fn i_fadd(&mut self)
        requires
            old(self).wf(),
        ensures
            appended(*old(self), *final(self), InstrK::FAdd),
    {
        self.instr(InstrK::FAdd);
    }

    pub fn i_fsub(&mut self)
        requires
            old(self).wf(),
        ensures
            appended(*old(self), *final(self), InstrK::FSub),
    {
        self.instr(InstrK::FSub);
    }

    pub fn i_fmul(&mut self)
        requires
            old(self).wf(),
        ensures
            appended(*old(self), *final(self), InstrK::FMul),
    {
        self.instr(InstrK::FMul);
    }

    pub fn i_fdiv(&mut self)
        requires
            old(self).wf(),
        ensures
            appended(*old(self), *final(self), InstrK::FDiv),
    {
        self.instr(InstrK::FDiv);
    }

    pub fn i_itof(&mut self)
        requires
            old(self).wf(),
        ensures
            appended(*old(self), *final(self), InstrK::Itof),
    {
        self.instr(InstrK::Itof);
    }

    pub fn i_ftoi(&mut self, int_ty: Ty)
        requires
            old(self).wf(),
        ensures
            appended(*old(self), *final(self), InstrK::Ftoi { int_ty }),
    {
        self.instr(InstrK::Ftoi { int_ty });
    }

    pub fn i_icmp(&mut self, cmp: Cmp)
        requires
            old(self).wf(),
        ensures
            appended(*old(self), *final(self), InstrK::ICmp(cmp)),
    {
        self.instr(InstrK::ICmp(cmp));
    }

    pub fn i_fcmp(&mut self, cmp: Cmp)
        requires
            old(self).wf(),
        ensures
            appended(*old(self), *final(self), InstrK::FCmp(cmp)),
    {
        self.instr(InstrK::FCmp(cmp));
    }

    pub fn i_not(&mut self)
        requires
            old(self).wf(),
        ensures
            appended(*old(self), *final(self), InstrK::Not),
    {
        self.instr(InstrK::Not);
    }

    pub fn i_bit_and(&mut self)
        requires
            old(self).wf(),
        ensures
            appended(*old(self), *final(self), InstrK::BitAnd),
    {
        self.instr(InstrK::BitAnd);
    }

    pub fn i_bit_or(&mut self)
        requires
            old(self).wf(),
        ensures
            appended(*old(self), *final(self), InstrK::BitOr),
    {
        self.instr(InstrK::BitOr);
    }

    pub fn i_iconv(&mut self, target: Ty)
        requires
            old(self).wf(),
        ensures
            appended(*old(self), *final(self), InstrK::IConv { target }),
    {
        self.instr(InstrK::IConv { target });
    }

    pub fn i_call(&mut self, func_name: String)
        requires
            old(self).wf(),
        ensures
            appended(*old(self), *final(self), InstrK::CallDirect { func_name }),
    {
        self.instr(InstrK::CallDirect { func_name });
    }

    pub fn i_ld_local(&mut self, loc: LocalRef)
        requires
            old(self).wf(),
        ensures
            appended(*old(self), *final(self), InstrK::LdLocal { idx: loc.0 }),
    {
        self.instr(InstrK::LdLocal { idx: loc.0 });
    }

    pub fn i_st_local(&mut self, loc: LocalRef)
        requires
            old(self).wf(),
        ensures
            appended(*old(self), *final(self), InstrK::StLocal { idx: loc.0 }),
    {
        self.instr(InstrK::StLocal { idx: loc.0 });
    }

    pub fn i_ld_global_func(&mut self, func_name: String)
        requires
            old(self).wf(),
        ensures
            appended(*old(self), *final(self), InstrK::LdGlobalFunc { func_name }),
    {
        self.instr(InstrK::LdGlobalFunc { func_name });
    }

    pub fn i_call_indirect(&mut self)
        requires
            old(self).wf(),
        ensures
            appended(*old(self), *final(self), InstrK::CallIndirect),
    {
        self.instr(InstrK::CallIndirect);
    }

    pub fn i_bitcast(&mut self, target: Ty)
        requires
            old(self).wf(),
        ensures
            appended(*old(self), *final(self), InstrK::Bitcast { target }),
    {
        self.instr(InstrK::Bitcast { target });
    }

    pub fn i_if(&mut self, then: BlockId)
        requires
            old(self).wf(),
        ensures
            appended(*old(self), *final(self), InstrK::IfElse { then, else_: None }),
    {
        self.instr(InstrK::IfElse { then, else_: None });
    }

    pub fn i_if_else(&mut self, then: BlockId, else_block: BlockId)
        requires
            old(self).wf(),
        ensures
            appended(*old(self), *final(self), InstrK::IfElse { then, else_: Some(else_block) }),
    {
        self.instr(InstrK::IfElse { then, else_: Some(else_block) });
    }

    pub fn i_read(&mut self, ty: Ty)
        requires
            old(self).wf(),
        ensures
            appended(*old(self), *final(self), InstrK::Read { ty }),
    {
        self.instr(InstrK::Read { ty });
    }

    pub fn i_write(&mut self, ty: Ty)
        requires
            old(self).wf(),
        ensures
            appended(*old(self), *final(self), InstrK::Write { ty }),
    {
        self.instr(InstrK::Write { ty });
    }

    pub fn i_offset(&mut self, ty: Ty)
        requires
            old(self).wf(),
        ensures
            appended(*old(self), *final(self), InstrK::Offset { ty }),
    {
        self.instr(InstrK::Offset { ty });
    }

    pub fn i_get_field_ptr(&mut self, struct_ty: Ty, field_idx: usize)
        requires
            old(self).wf(),
        ensures
            appended(*old(self), *final(self), InstrK::GetFieldPtr { struct_ty, field_idx }),
    {
        self.instr(InstrK::GetFieldPtr { struct_ty, field_idx });
    }

    pub fn i_discard(&mut self)
        requires
            old(self).wf(),
        ensures
            appended(*old(self), *final(self), InstrK::Discard),
    {
        self.instr(InstrK::Discard);
    }

    pub fn i_return(&mut self)
        requires
            old(self).wf(),
        ensures
            appended(*old(self), *final(self), InstrK::Return),
    {
        self.instr(InstrK::Return);
    }

    pub fn i_memory_size(&mut self)
        requires
            old(self).wf(),
        ensures
            appended(*old(self), *final(self), InstrK::MemorySize),
    {
        self.instr(InstrK::MemorySize);
    }

    pub fn i_memory_grow(&mut self)
        requires
            old(self).wf(),
        ensures
            appended(*old(self), *final(self), InstrK::MemoryGrow),
    {
        self.instr(InstrK::MemoryGrow);
    }

    pub fn i_ld_global(&mut self, name: String)
        requires
            old(self).wf(),
        ensures
            appended(*old(self), *final(self), InstrK::LdGlobal(name)),
    {
        self.instr(InstrK::LdGlobal(name));
    }

    pub fn i_st_global(&mut self, name: String)
        requires
            old(self).wf(),
        ensures
            appended(*old(self), *final(self), InstrK::StGlobal(name)),
    {
        self.instr(InstrK::StGlobal(name));
    }

    pub fn i_fail(&mut self)
        requires
            old(self).wf(),
        ensures
            appended(*old(self), *final(self), InstrK::Fail),
    {
        self.instr(InstrK::Fail);
    }

    pub fn i_loop(&mut self, body: BlockId)
        requires
            old(self).wf(),
        ensures
            appended(*old(self), *final(self), InstrK::Loop(body)),
    {
        self.instr(InstrK::Loop(body));
    }

    pub fn i_break(&mut self)
        requires
            old(self).wf(),
        ensures
            appended(*old(self), *final(self), InstrK::Break),
    {
        self.instr(InstrK::Break);
    }

    pub fn i_ld_static_mem_ptr(&mut self, item: SMItemRef)
        requires
            old(self).wf(),
        ensures
            appended(*old(self), *final(self), InstrK::LdStaticMemPtr(item)),
    {
        self.instr(InstrK::LdStaticMemPtr(item));
    }

    /// Build the function and add it to `module`. Block `i` gets the type
    /// `() -> rets_i`, the function the type `args -> ret`.
    pub fn finish(self, module: &mut Module) -> (r: Result<(), ModuleError>)
        requires
            self.wf(),
            old(module).wf(),
            old(module).funcs().len() < usize::MAX,
            tys_in(self.locals@, old(module).types@.len()),
            tys_in(self.ret@, old(module).types@.len()),
            forall|b: int| 0 <= b < self.blocks@.len() ==> tys_in((#[trigger] self.blocks@[b]).rets@, old(module).types@.len()),
        ensures
            final(module).wf(),
            r is Ok <==> forall|i: int| 0 <= i < old(module).funcs().len() ==> (#[trigger] old(module).funcs()[i]).spec_name() != self.fname@,
            r is Err ==> final(module).funcs() == old(module).funcs(),
            r is Ok ==> final(module).funcs().len() == old(module).funcs().len() + 1
                && final(module).funcs().take(old(module).funcs().len() as int) == old(module).funcs()
                && (final(module).funcs().last() matches FuncDef::Local(f) && built_from(f, self, final(module).types@, old(module).funcs().len() as usize)),
    {
        let ghost fb = self;
        let n = self.blocks.len();
        let FunctionBuilder { blocks, current_block, locals, argc, ret, fname } = self;
        let mut blocks = blocks;
        let mut out: Vec<InstrBlock> = Vec::new();
        let ghost t0 = module.types@;
        // Take the blocks out from the back, then restore their order.
        let mut rev: Vec<InstrBlock> = Vec::new();
        let mut k: usize = n;
        while k > 0
            invariant
                k <= n,
                n == fb.blocks@.len(),
                blocks@ == fb.blocks@.take(k as int),
                rev@.len() == n - k,
                module.wf(),
                old(module).funcs() == module.funcs(),
                old(module).globals() == module.globals(),
                old(module).conf == module.conf,
                module.types@.len() >= t0.len(),
                module.types@.take(t0.len() as int) == t0,
                t0 == old(module).types@,
                forall|b: int| 0 <= b < fb.blocks@.len() ==> tys_in((#[trigger] fb.blocks@[b]).rets@, t0.len()),
                forall|j: int| 0 <= j < n - k ==> {
                    let b = #[trigger] rev@[j];
                    let src = fb.blocks@[n - 1 - j];
                    &&& b.idx.0 == n - 1 - j
                    &&& b.tag == src.tag
                    &&& b.body@ == src.body@
                    &&& b.rets@ == src.rets@
                    &&& b.meta == Metadata::empty()
                    &&& b.block_ty < module.types@.len()
                    &&& module.types@[b.block_ty as int] == (TypeV::Func { args: Seq::empty(), ret: src.rets@ })
                },
            decreases k,
        {
            let ghost before_blocks = blocks@;
            let bb = match blocks.pop() {
                Some(x) => x,
                None => vstd::pervasive::unreached(),
            };
            assert(bb == fb.blocks@[k - 1]);
            assert(blocks@ =~= fb.blocks@.take(k - 1));
            let BuilderBlock { rets, tag, body } = bb;
            let ghost tb = module.types@;
            proof {
                let tv = (TypeV::Func { args: Seq::empty(), ret: rets@ });
                assert(tys_in(rets@, tb.len())) by {
                    assert forall|q: int| 0 <= q < rets@.len() implies #[trigger] rets@[q] < tb.len() by {
                        assert(tys_in(fb.blocks@[k - 1].rets@, t0.len()));
                    }
                }
                assert(tv.children() =~= rets@);
            }
            let block_ty = module.intern_type(Type::Func { args: Vec::new(), ret: copy_tys(&rets) });
            proof {
                assert forall|j: int| 0 <= j < n - k implies (#[trigger] rev@[j]).block_ty < module.types@.len() && module.types@[rev@[j].block_ty as int] == tb[rev@[j].block_ty as int] by {
                    assert(module.types@.take(tb.len() as int)[rev@[j].block_ty as int] == module.types@[rev@[j].block_ty as int]);
                }
                assert(module.types@.take(t0.len() as int) =~= t0) by {
                    assert forall|q: int| 0 <= q < t0.len() implies module.types@[q] == t0[q] by {
                        assert(module.types@.take(tb.len() as int)[q] == module.types@[q]);
                        assert(tb.take(t0.len() as int)[q] == tb[q]);
                    }
                }
            }
            rev.push(InstrBlock { idx: BlockId(k - 1), tag, body, block_ty, rets, meta: Metadata::new() });
            k = k - 1;
        }
        while rev.len() > 0
            invariant
                rev@.len() + out@.len() == n,
                n == fb.blocks@.len(),
                forall|j: int| 0 <= j < out@.len() ==> {
                    let b = #[trigger] out@[j];
                    let src = fb.blocks@[j];
                    &&& b.idx.0 == j
                    &&& b.tag == src.tag
                    &&& b.body@ == src.body@
                    &&& b.rets@ == src.rets@
                    &&& b.meta == Metadata::empty()
                    &&& b.block_ty < module.types@.len()
                    &&& module.types@[b.block_ty as int] == (TypeV::Func { args: Seq::empty(), ret: src.rets@ })
                },
                forall|j: int| 0 <= j < rev@.len() ==> {
                    let b = #[trigger] rev@[j];
                    let src = fb.blocks@[n - 1 - j];
                    &&& b.idx.0 == n - 1 - j
                    &&& b.tag == src.tag
                    &&& b.body@ == src.body@
                    &&& b.rets@ == src.rets@
                    &&& b.meta == Metadata::empty()
                    &&& b.block_ty < module.types@.len()
                    &&& module.types@[b.block_ty as int] == (TypeV::Func { args: Seq::empty(), ret: src.rets@ })
                },
            decreases rev@.len(),
        {
            let b = match rev.pop() {
                Some(x) => x,
                None => vstd::pervasive::unreached(),
            };
            out.push(b);
        }
        let mut args: Vec<Ty> = Vec::new();
        let mut a: usize = 0;
        while a < argc
            invariant
                a <= argc,
                argc <= locals@.len(),
                args@ == locals@.take(a as int),
            decreases argc - a,
        {
            args.push(locals[a]);
            a = a + 1;
            assert(args@ =~= locals@.take(a as int));
        }
        let ghost tb = module.types@;
        proof {
            let tv = (TypeV::Func { args: args@, ret: ret@ });
            assert(tv.children() =~= args@ + ret@);
            assert forall|q: int| 0 <= q < tv.children().len() implies #[trigger] tv.children()[q] < tb.len() by {
                if q < args@.len() {
                    assert(args@[q] == locals@[q]);
                } else {
                    assert(tv.children()[q] == ret@[q - args@.len()]);
                }
            }
        }
        let func_ty = module.intern_type(Type::Func { args: copy_tys(&args), ret: copy_tys(&ret) });
        proof {
            assert forall|j: int| 0 <= j < out@.len() implies (#[trigger] out@[j]).block_ty < module.types@.len() && module.types@[out@[j].block_ty as int] == tb[out@[j].block_ty as int] by {
                assert(module.types@.take(tb.len() as int)[out@[j].block_ty as int] == module.types@[out@[j].block_ty as int]);
            }
        }
        let f = Function { name: fname, ty: func_ty, args, rets: ret, blocks: out, all_locals_types: locals, idx: usize::MAX };
        let ghost fv = f;
        assert(f.all_locals_types@.take(f.args@.len() as int) =~= f.args@);
        let r = module.add_function(f);
        proof {
            if r is Ok {
                let g = crate::module::with_idx(fv, old(module).funcs().len() as usize);
                assert(module.funcs().take(old(module).funcs().len() as int) =~= old(module).funcs());
                assert(built_from(g, fb, module.types@, old(module).funcs().len() as usize));
            }
        }
        r
    }
}

/// `after` is `before` with `i` appended to the current block.
pub open spec fn appended(before: FunctionBuilder, after: FunctionBuilder, i: InstrK) -> bool {
    let c = before.current_block as int;
    &&& after.wf()
    &&& after.blocks@.len() == before.blocks@.len()
    &&& after.blocks@[c].body@ == before.blocks@[c].body@.push(Instr { kind: i, meta: Metadata::empty() })
    &&& after.blocks@[c].rets == before.blocks@[c].rets
    &&& after.blocks@[c].tag == before.blocks@[c].tag
    &&& forall|b: int| 0 <= b < after.blocks@.len() && b != c ==> #[trigger] after.blocks@[b] == before.blocks@[b]
    &&& after.current_block == before.current_block
    &&& after.locals == before.locals
    &&& after.argc == before.argc
    &&& after.ret == before.ret
    &&& after.fname == before.fname
}

/// `f` is the function that builder `fb` describes, with index `idx`, typed in `t`.
pub open spec fn built_from(f: Function, fb: FunctionBuilder, t: Seq<TypeV>, idx: usize) -> bool {
    &&& f.name@ == fb.fname@
    &&& f.args@ == fb.locals@.take(fb.argc as int)
    &&& f.rets@ == fb.ret@
    &&& f.all_locals_types@ == fb.locals@
    &&& f.idx == idx
    &&& f.ty < t.len()
    &&& t[f.ty as int] == (TypeV::Func { args: f.args@, ret: f.rets@ })
    &&& f.blocks@.len() == fb.blocks@.len()
    &&& forall|j: int| 0 <= j < f.blocks@.len() ==> {
        let b = #[trigger] f.blocks@[j];
        let src = fb.blocks@[j];
        &&& b.idx.0 == j
        &&& b.tag == src.tag
        &&& b.body@ == src.body@
        &&& b.rets@ == src.rets@
        &&& b.meta == Metadata::empty()
        &&& b.block_ty < t.len()
        &&& t[b.block_ty as int] == (TypeV::Func { args: Seq::empty(), ret: src.rets@ })
    }
}

} // verus!
