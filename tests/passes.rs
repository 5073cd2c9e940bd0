use swarm_ir::builder::FunctionBuilder;
use swarm_ir::cf_verify::{ControlFlowVerifier, ControlFlowVerifierError};
use swarm_ir::correct::{CorrectionPass, CorrectionPassMutationInfo};
use swarm_ir::instr::{BlockTag, Cmp, Instr, InstrK};
use swarm_ir::instr_rewrite::{BlobRewriteData, InstrRewritePass};
use swarm_ir::metadata::{BitWidthSign, BlockId};
use swarm_ir::module::{Module, ModuleError, WasmModuleConf};
use swarm_ir::peephole_opt::PeepholeOpt;
use swarm_ir::verify::{Site, Verifier, VerifyError};

fn kinds(m: &Module, name: &str, block: usize) -> Vec<InstrK> {
    let f = m.get_function(name).unwrap().unwrap_local();
    f.blocks[block].body.iter().map(|i| i.kind.duplicate()).collect()
}

#[test]
fn instr_rewrite_pass_test() {
    let mut top = Module::new(WasmModuleConf::default_conf());
    let mut builder = FunctionBuilder::new("func".to_string(), vec![top.int32t()], vec![top.int32t()]);
    let arg0 = builder.get_arg(0);
    builder.i_ld_local(arg0);
    builder.i_ld_int(1, top.int32t());
    builder.i_iadd();
    builder.finish(&mut top).unwrap();

    let idx = top.get_function("func").unwrap().idx();
    let mut rewrite_pass = InstrRewritePass::new(
        idx,
        vec![(BlockId(0), vec![
            BlobRewriteData { start: 0, end: 2, instrs: vec![
                Instr::new(InstrK::LdInt(3, top.int32t())),
                Instr::new(InstrK::LdLocal { idx: 0 }),
            ] },
            BlobRewriteData { start: 3, end: 3, instrs: vec![
                Instr::new(InstrK::LdInt(4, top.int32t())),
                Instr::new(InstrK::ISub),
            ] },
        ])],
    ).unwrap();

    let f = top.get_function("func").unwrap().unwrap_local();
    rewrite_pass.visit_function(f).unwrap();
    let ph = top.placeholder_for(idx);
    let mut f = top.replace_local_function(idx, ph);
    rewrite_pass.mutate_function(&mut f).unwrap();
    top.replace_local_function(idx, f);

    assert_eq!(kinds(&top, "func", 0), vec![
        InstrK::LdInt(3, top.int32t()),
        InstrK::LdLocal { idx: 0 },
        InstrK::IAdd,
        InstrK::LdInt(4, top.int32t()),
        InstrK::ISub,
    ]);
    let _ = &mut rewrite_pass;
}

#[test]
fn overlapping_rewrites_are_rejected() {
    let r = InstrRewritePass::new(0, vec![(BlockId(0), vec![
        BlobRewriteData { start: 0, end: 2, instrs: vec![] },
        BlobRewriteData { start: 1, end: 3, instrs: vec![] },
    ])]);
    assert!(r.is_err());
    let ok = InstrRewritePass::new(0, vec![(BlockId(0), vec![
        BlobRewriteData { start: 0, end: 2, instrs: vec![] },
        BlobRewriteData { start: 2, end: 3, instrs: vec![] },
        BlobRewriteData { start: 5, end: 5, instrs: vec![] },
    ])]).unwrap();
    // ordered for application: last range first
    let starts: Vec<usize> = ok.modifications[0].1.iter().map(|e| e.start).collect();
    assert_eq!(starts, vec![5, 2, 0]);
}

#[test]
fn empty_rewrite_plan_changes_nothing() {
    let mut top = Module::new(WasmModuleConf::default_conf());
    let mut b = FunctionBuilder::new("f".to_string(), vec![], vec![]);
    b.i_ld_int(1, top.int32t());
    b.i_discard();
    b.finish(&mut top).unwrap();
    let before = kinds(&top, "f", 0);
    let pass = InstrRewritePass::new(0, vec![]).unwrap();
    let ph = top.placeholder_for(0);
    let mut f = top.replace_local_function(0, ph);
    pass.mutate_function(&mut f).unwrap();
    top.replace_local_function(0, f);
    assert_eq!(kinds(&top, "f", 0), before);
}

#[test]
fn rewrite_out_of_range_leaves_function_unchanged() {
    let mut top = Module::new(WasmModuleConf::default_conf());
    let mut b = FunctionBuilder::new("f".to_string(), vec![], vec![]);
    b.i_ld_int(1, top.int32t());
    b.i_discard();
    b.finish(&mut top).unwrap();
    let pass = InstrRewritePass::new(0, vec![(BlockId(0), vec![BlobRewriteData { start: 1, end: 5, instrs: vec![] }])]).unwrap();
    let f = top.get_function("f").unwrap().unwrap_local();
    assert!(pass.visit_function(f).is_ok());
    let ph = top.placeholder_for(0);
    let mut f = top.replace_local_function(0, ph);
    assert!(pass.mutate_function(&mut f).is_err());
    top.replace_local_function(0, f);
    assert_eq!(kinds(&top, "f", 0), vec![InstrK::LdInt(1, top.int32t()), InstrK::Discard]);
    let bad_block = InstrRewritePass::new(0, vec![(BlockId(7), vec![])]).unwrap();
    assert!(bad_block.visit_function(top.get_function("f").unwrap().unwrap_local()).is_err());
}

#[test]
fn correction_cuts_after_divergence_and_is_idempotent() {
    let mut top = Module::new(WasmModuleConf::default_conf());
    let mut b = FunctionBuilder::new("f".to_string(), vec![], vec![]);
    b.i_return();
    b.i_ld_int(1, top.int32t());
    b.i_fail();
    b.finish(&mut top).unwrap();
    top.run_correction();
    let once = kinds(&top, "f", 0);
    assert_eq!(once, vec![InstrK::Return]);
    top.run_correction();
    assert_eq!(kinds(&top, "f", 0), once);

    let ph = top.placeholder_for(0);
    let mut f = top.replace_local_function(0, ph);
    let pass = CorrectionPass {};
    let info = pass.visit_function(&f);
    pass.mutate_function(&mut f, info);
    let _ = CorrectionPassMutationInfo {};
    top.replace_local_function(0, f);
    assert_eq!(kinds(&top, "f", 0), once);
}

#[test]
fn control_flow_records_parents_and_loop_distances() {
    let mut top = Module::new(WasmModuleConf::default_conf());
    let mut b = FunctionBuilder::new("f".to_string(), vec![], vec![]);
    let body = b.new_block(vec![], BlockTag::Loop);
    let then = b.new_block(vec![], BlockTag::IfElse);
    let inner = b.new_block(vec![], BlockTag::IfElse);
    b.i_loop(body);
    b.i_return();
    b.switch_block(body);
    b.i_ld_int(1, top.int32t());
    b.i_if(then);
    b.switch_block(then);
    b.i_ld_int(1, top.int32t());
    b.i_if(inner);
    b.switch_block(inner);
    b.i_break();
    b.finish(&mut top).unwrap();
    let f = top.get_function("f").unwrap().unwrap_local();
    let d = ControlFlowVerifier {}.visit_function(f).unwrap();
    assert_eq!(d.block_parents, vec![None, Some(BlockId(0)), Some(BlockId(1)), Some(BlockId(2))]);
    assert_eq!(d.innermost_loop_distances, vec![None, Some(0), Some(1), Some(2)]);
}

#[test]
fn control_flow_errors() {
    let mut top = Module::new(WasmModuleConf::default_conf());
    let mut b = FunctionBuilder::new("twice".to_string(), vec![], vec![]);
    let child = b.new_block(vec![], BlockTag::IfElse);
    b.i_ld_int(1, top.int32t());
    b.i_if(child);
    b.i_ld_int(1, top.int32t());
    b.i_if(child);
    b.finish(&mut top).unwrap();
    let mut b = FunctionBuilder::new("tag".to_string(), vec![], vec![]);
    let child = b.new_block(vec![], BlockTag::IfElse);
    b.i_loop(child);
    b.finish(&mut top).unwrap();

    let f = top.get_function("twice").unwrap().unwrap_local();
    assert_eq!(ControlFlowVerifier {}.visit_function(f).err(), Some(ControlFlowVerifierError::MultipleParents {
        block: BlockId(1), parent: BlockId(0), other_parent: BlockId(0),
    }));
    let f = top.get_function("tag").unwrap().unwrap_local();
    assert_eq!(ControlFlowVerifier {}.visit_function(f).err(), Some(ControlFlowVerifierError::InvalidBlockTag {
        block: BlockId(1), expected: BlockTag::Loop, actual: BlockTag::IfElse,
    }));
    assert!(top.run_cf_verify().is_err());
}

#[test]
fn unreferenced_and_cyclic_blocks_are_rejected() {
    let mut top = Module::new(WasmModuleConf::default_conf());
    let mut b = FunctionBuilder::new("orphan".to_string(), vec![], vec![]);
    let _unused = b.new_block(vec![], BlockTag::IfElse);
    b.finish(&mut top).unwrap();
    let mut b = FunctionBuilder::new("cycle".to_string(), vec![], vec![]);
    let x = b.new_block(vec![], BlockTag::IfElse);
    let y = b.new_block(vec![], BlockTag::IfElse);
    b.switch_block(x);
    b.i_ld_int(1, top.int32t());
    b.i_if(y);
    b.switch_block(y);
    b.i_ld_int(1, top.int32t());
    b.i_if(x);
    b.finish(&mut top).unwrap();
    let f = top.get_function("orphan").unwrap().unwrap_local();
    assert_eq!(ControlFlowVerifier {}.visit_function(f).err(), Some(ControlFlowVerifierError::UnreachableBlock { block: BlockId(1) }));
    let f = top.get_function("cycle").unwrap().unwrap_local();
    assert_eq!(ControlFlowVerifier {}.visit_function(f).err(), Some(ControlFlowVerifierError::UnreachableBlock { block: BlockId(1) }));
}

#[test]
fn block_id_conversions() {
    let b: BlockId = 4usize.into();
    assert_eq!(b, BlockId(4));
    assert_eq!(usize::from(b), 4);
    assert_eq!(BlockId::default(), BlockId(usize::MAX));
    assert_eq!(BlockId::entry_block_id().id(), 0);
}

#[test]
fn control_flow_overwrites_stale_metadata() {
    let mut top = Module::new(WasmModuleConf::default_conf());
    let mut b = FunctionBuilder::new("f".to_string(), vec![], vec![]);
    let then = b.new_block(vec![], BlockTag::IfElse);
    b.i_ld_int(1, top.int32t());
    b.i_if(then);
    b.finish(&mut top).unwrap();
    let ph = top.placeholder_for(0);
    let mut f = top.replace_local_function(0, ph);
    f.blocks[0].meta.parent = Some(BlockId(7));
    f.blocks[1].meta.innermost_loop_distance = Some(5);
    let v = ControlFlowVerifier {};
    let d = v.visit_function(&f).unwrap();
    v.mutate_function(&mut f, d);
    assert_eq!(f.blocks[0].meta.parent, None);
    assert_eq!(f.blocks[1].meta.parent, Some(BlockId(0)));
    assert_eq!(f.blocks[1].meta.innermost_loop_distance, None);
    top.replace_local_function(0, f);
}

#[test]
fn rewrite_plan_naming_a_block_twice_is_rejected() {
    let r = InstrRewritePass::new(0, vec![
        (BlockId(0), vec![BlobRewriteData { start: 0, end: 1, instrs: vec![] }]),
        (BlockId(0), vec![BlobRewriteData { start: 2, end: 3, instrs: vec![] }]),
    ]);
    assert!(r.is_err());
}

fn verify_one(top: &Module, name: &str) -> Result<(), VerifyError> {
    let f = top.get_function(name).unwrap().unwrap_local();
    Verifier {}.visit_function(top, f).map(|_| ())
}

#[test]
fn verifier_errors() {
    let mut top = Module::new(WasmModuleConf::default_conf());
    let mut b = FunctionBuilder::new("underflow".to_string(), vec![], vec![]);
    b.i_iadd();
    b.finish(&mut top).unwrap();
    let mut b = FunctionBuilder::new("argstore".to_string(), vec![top.int32t()], vec![]);
    b.i_ld_int(1, top.int32t());
    let a = b.get_arg(0);
    b.i_st_local(a);
    b.finish(&mut top).unwrap();
    let mut b = FunctionBuilder::new("overflow".to_string(), vec![], vec![]);
    b.i_ld_int(300, top.uint8t());
    b.i_discard();
    b.finish(&mut top).unwrap();
    let mut b = FunctionBuilder::new("mismatch".to_string(), vec![], vec![]);
    b.i_ld_int(1, top.int32t());
    b.i_ld_int(1, top.int16t());
    b.i_iadd();
    b.i_discard();
    b.finish(&mut top).unwrap();
    let mut b = FunctionBuilder::new("undefined".to_string(), vec![], vec![]);
    b.i_call("nowhere".to_string());
    b.finish(&mut top).unwrap();
    let mut b = FunctionBuilder::new("leftover".to_string(), vec![], vec![]);
    b.i_ld_int(1, top.int32t());
    b.finish(&mut top).unwrap();
    let mut b = FunctionBuilder::new("float_int".to_string(), vec![], vec![]);
    b.i_ld_float(1.0f32.to_bits());
    b.i_ld_int(1, top.int32t());
    b.i_fadd();
    b.finish(&mut top).unwrap();

    assert!(matches!(verify_one(&top, "underflow"), Err(VerifyError::StackUnderflow)));
    assert!(matches!(verify_one(&top, "argstore"), Err(VerifyError::ArgumentStore { idx: 0 })));
    assert!(matches!(verify_one(&top, "overflow"), Err(VerifyError::ConstIntOverflow { value: 300, .. })));
    assert!(matches!(verify_one(&top, "mismatch"), Err(VerifyError::IntegerSizeMismatch { .. })));
    assert!(matches!(verify_one(&top, "undefined"), Err(VerifyError::UndefinedFunctionCall { .. })));
    match verify_one(&top, "leftover") {
        Err(VerifyError::InvalidBlockType { block, expected, actual }) => {
            assert_eq!(block, BlockId(0));
            assert!(expected.is_empty());
            assert_eq!(actual, vec![top.int32t()]);
        },
        other => panic!("unexpected {:?}", other),
    }
    assert!(matches!(verify_one(&top, "float_int"), Err(VerifyError::InvalidType { reason: Site::FloatOp, .. })));
}

#[test]
fn verifier_records_width_and_sign() {
    let mut top = Module::new(WasmModuleConf::default_conf());
    let mut b = FunctionBuilder::new("f".to_string(), vec![], vec![top.uint16t()]);
    b.i_ld_int(2, top.uint16t());
    b.i_ld_int(3, top.uint16t());
    b.i_imul();
    b.i_ld_int(3, top.uint16t());
    b.i_icmp(Cmp::Lt);
    b.i_discard();
    b.i_ld_int(65535, top.uint16t());
    b.i_return();
    b.finish(&mut top).unwrap();
    top.run_verifier().unwrap();
    let f = top.get_function("f").unwrap().unwrap_local();
    assert_eq!(f.blocks[0].body[2].meta.bws, Some(BitWidthSign::U16));
    assert_eq!(f.blocks[0].body[4].meta.bws, Some(BitWidthSign::U16));
    assert_eq!(f.blocks[0].body[0].meta.bws, None);
}

#[test]
fn module_rejects_duplicates_and_late_externs() {
    let mut top = Module::new(WasmModuleConf::default_conf());
    let b = FunctionBuilder::new("f".to_string(), vec![], vec![]);
    b.finish(&mut top).unwrap();
    let b = FunctionBuilder::new("f".to_string(), vec![], vec![]);
    assert_eq!(b.finish(&mut top), Err(ModuleError::DuplicateName));
    let ty = top.intern_type(swarm_ir::ty::Type::Func { args: vec![], ret: vec![] });
    let e = swarm_ir::module::ExternFunction::new("ext".to_string(), ty, vec![], vec![]);
    assert_eq!(top.add_extern_function(e), Err(ModuleError::ExternAfterLocal));
    assert_eq!(top.new_int_global("g".to_string(), 5), Ok(()));
    assert_eq!(top.new_int_global("g".to_string(), 6), Err(ModuleError::DuplicateName));
    assert_eq!(top.get_global("g").unwrap().idx, 0);
    assert!(top.get_function("missing").is_none());
    assert_eq!(top.function_count(), 1);
}

#[test]
fn peephole_plans_direct_calls() {
    let mut top = Module::new(WasmModuleConf::default_conf());
    let mut b = FunctionBuilder::new("g".to_string(), vec![], vec![]);
    b.i_ld_global_func("g".to_string());
    b.i_call_indirect();
    b.finish(&mut top).unwrap();
    let f = top.get_function("g").unwrap().unwrap_local();
    let plan = PeepholeOpt {}.visit_function(f);
    assert_eq!(plan.len(), 1);
    assert_eq!(plan[0].0, BlockId(0));
    assert_eq!(plan[0].1[0].start, 0);
    assert_eq!(plan[0].1[0].end, 2);
    assert_eq!(plan[0].1[0].instrs[0].kind, InstrK::CallDirect { func_name: "g".to_string() });
}
