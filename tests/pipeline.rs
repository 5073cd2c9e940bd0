use swarm_ir::builder::FunctionBuilder;
use swarm_ir::emit::emit_module;
use swarm_ir::instr::{BlockTag, InstrK};
use swarm_ir::metadata::BitWidthSign;
use swarm_ir::module::{Module, WasmModuleConf};
use swarm_ir::numerics::emit_numeric_instr;
use swarm_ir::staticmem::{Mutability, SMItem, SMValue, Sign};
use swarm_ir::verify::VerifyError;
use swarm_ir::wasm::{BlockType, MemArg, WInstr};
use swarm_ir::{pipeline_compile_module_to_wasm, PipelineError};

fn add_one(top: &mut Module) {
    let mut b = FunctionBuilder::new("add_one".to_string(), vec![top.int32t()], vec![top.int32t()]);
    let a = b.get_arg(0);
    b.i_ld_local(a);
    b.i_ld_int(1, top.int32t());
    b.i_iadd();
    b.i_return();
    b.finish(top).unwrap();
}

/// Run straight-line i32 code on the given arguments.
fn run_i32(code: &[WInstr], args: &[i32]) -> i32 {
    let mut stack: Vec<i32> = Vec::new();
    for i in code {
        match i {
            WInstr::LocalGet(l) => stack.push(args[*l as usize]),
            WInstr::I32Const(v) => stack.push(*v),
            WInstr::I32Add => {
                let b = stack.pop().unwrap();
                let a = stack.pop().unwrap();
                stack.push(a.wrapping_add(b));
            },
            WInstr::Return => break,
            other => panic!("not straight-line i32 code: {:?}", other),
        }
    }
    stack.pop().unwrap()
}

#[test]
fn add_one_compiles() {
    let mut top = Module::new(WasmModuleConf::default_conf());
    add_one(&mut top);
    let tm = pipeline_compile_module_to_wasm(top, false).unwrap();
    assert_eq!(tm.exports.len(), 1);
    assert_eq!(tm.exports[0].name, "add_one");
    assert_eq!(tm.exports[0].function_index, 0);
    assert_eq!(tm.code[0].instrs, vec![WInstr::LocalGet(0), WInstr::I32Const(1), WInstr::I32Add, WInstr::Return]);
    assert!(tm.code[0].locals.is_empty());
    assert_eq!(tm.memory_pages, 1);
    assert_eq!(run_i32(&tm.code[0].instrs, &[41]), 42);
}

fn caller(top: &mut Module) {
    let mut b = FunctionBuilder::new("caller".to_string(), vec![top.int32t()], vec![top.int32t()]);
    let a = b.get_arg(0);
    b.i_ld_local(a);
    b.i_ld_global_func("add_one".to_string());
    b.i_call_indirect();
    b.i_return();
    b.finish(top).unwrap();
}

#[test]
fn indirect_call_collapses_to_direct() {
    let mut top = Module::new(WasmModuleConf::default_conf());
    add_one(&mut top);
    caller(&mut top);
    let tm = pipeline_compile_module_to_wasm(top, true).unwrap();
    let code = &tm.code[1].instrs;
    assert!(code.contains(&WInstr::Call(0)));
    assert!(!code.iter().any(|i| matches!(i, WInstr::CallIndirect { .. })));
    assert!(!code.contains(&WInstr::I32Const(1)));

    let mut top = Module::new(WasmModuleConf::default_conf());
    add_one(&mut top);
    caller(&mut top);
    let tm = pipeline_compile_module_to_wasm(top, false).unwrap();
    let code = &tm.code[1].instrs;
    // the function value pushed is the index of add_one plus one
    assert_eq!(code[1], WInstr::I32Const(1));
    assert!(matches!(code[2], WInstr::CallIndirect { table: 0, .. }));
    assert!(!code.contains(&WInstr::Call(0)));
}

#[test]
fn global_function_table_is_offset_by_one() {
    let mut top = Module::new(WasmModuleConf::default_conf());
    add_one(&mut top);
    caller(&mut top);
    let tm = pipeline_compile_module_to_wasm(top, false).unwrap();
    assert_eq!(tm.table_size, 3);
    assert_eq!(tm.table_max, 3);
    assert_eq!(tm.elements_offset, 1);
    assert_eq!(tm.elements, vec![0, 1]);
}

#[test]
fn if_else_branches_must_join() {
    let mut top = Module::new(WasmModuleConf::default_conf());
    let mut b = FunctionBuilder::new("join".to_string(), vec![], vec![top.int32t()]);
    let t = b.new_block(vec![top.int32t()], BlockTag::IfElse);
    let e = b.new_block(vec![top.int32t()], BlockTag::IfElse);
    b.i_ld_int(1, top.int32t());
    b.i_if_else(t, e);
    b.i_return();
    b.switch_block(t);
    b.i_ld_int(2, top.int32t());
    b.switch_block(e);
    b.i_ld_int(3, top.int32t());
    b.finish(&mut top).unwrap();
    let tm = pipeline_compile_module_to_wasm(top, false).unwrap();
    let code = &tm.code[0].instrs;
    assert!(matches!(code[1], WInstr::If(BlockType::FunctionType(_))));
    assert!(code.contains(&WInstr::Else));

    let mut top = Module::new(WasmModuleConf::default_conf());
    let mut b = FunctionBuilder::new("split".to_string(), vec![], vec![top.int32t()]);
    let t = b.new_block(vec![top.int32t()], BlockTag::IfElse);
    let e = b.new_block(vec![top.float32t()], BlockTag::IfElse);
    b.i_ld_int(1, top.int32t());
    b.i_if_else(t, e);
    b.i_return();
    b.switch_block(t);
    b.i_ld_int(2, top.int32t());
    b.switch_block(e);
    b.i_ld_float(1.0f32.to_bits());
    b.finish(&mut top).unwrap();
    let r = pipeline_compile_module_to_wasm(top, false);
    assert!(matches!(r, Err(PipelineError::Verify(VerifyError::InvalidBlockType { .. }))));
}

#[test]
fn loop_break_branches_out_by_two() {
    let mut top = Module::new(WasmModuleConf::default_conf());
    let mut b = FunctionBuilder::new("spin".to_string(), vec![], vec![]);
    let body = b.new_block(vec![], BlockTag::Loop);
    let then = b.new_block(vec![], BlockTag::IfElse);
    b.i_loop(body);
    b.i_return();
    b.switch_block(body);
    b.i_ld_int(1, top.int32t());
    b.i_if(then);
    b.switch_block(then);
    b.i_break();
    b.finish(&mut top).unwrap();
    let tm = pipeline_compile_module_to_wasm(top, false).unwrap();
    let code = &tm.code[0].instrs;
    assert_eq!(code[0], WInstr::Block(BlockType::Empty));
    assert_eq!(code[1], WInstr::Loop(BlockType::Empty));
    assert!(code.contains(&WInstr::Br(2)));
    assert!(code.contains(&WInstr::Br(0)));
}

#[test]
fn control_flow_error_stops_the_pipeline() {
    let mut top = Module::new(WasmModuleConf::default_conf());
    let mut b = FunctionBuilder::new("bad".to_string(), vec![], vec![]);
    let child = b.new_block(vec![], BlockTag::IfElse);
    b.i_loop(child);
    b.finish(&mut top).unwrap();
    assert!(matches!(pipeline_compile_module_to_wasm(top, false), Err(PipelineError::ControlFlow(_))));
}

#[test]
fn static_memory_pointer_is_an_address() {
    let mut top = Module::new(WasmModuleConf::default_conf());
    let h = top.static_memory.add_item(SMItem { value: SMValue::Int32(5, Sign::S), mutability: Mutability::Const, unique: true });
    let mut b = FunctionBuilder::new("p".to_string(), vec![], vec![top.ptr_t()]);
    b.i_ld_static_mem_ptr(h);
    b.i_return();
    b.finish(&mut top).unwrap();
    let tm = pipeline_compile_module_to_wasm(top, false).unwrap();
    assert_eq!(tm.code[0].instrs[0], WInstr::I32Const(8));
    assert_eq!(tm.data.len(), 12);
    assert_eq!(&tm.data[8..12], &[5, 0, 0, 0]);
}

#[test]
fn emit_reports_missing_metadata() {
    let mut top = Module::new(WasmModuleConf::default_conf());
    let mut b = FunctionBuilder::new("f".to_string(), vec![], vec![top.int32t()]);
    b.i_ld_int(1, top.int32t());
    b.i_ld_int(2, top.int32t());
    b.i_iadd();
    b.i_return();
    b.finish(&mut top).unwrap();
    assert!(emit_module(&top).is_err());
}

#[test]
fn numeric_lowering_by_width_and_sign() {
    let mem = MemArg { offset: 0, align: 1, memory_index: 0 };
    assert_eq!(emit_numeric_instr(&InstrK::IAdd, BitWidthSign::U16, BitWidthSign::S32, mem, true),
        vec![WInstr::I32Add, WInstr::I32Const(65535), WInstr::I32And]);
    assert_eq!(emit_numeric_instr(&InstrK::IMul, BitWidthSign::S8, BitWidthSign::S32, mem, true),
        vec![WInstr::I32Mul, WInstr::I32Const(24), WInstr::I32Shl, WInstr::I32Const(24), WInstr::I32ShrS]);
    assert_eq!(emit_numeric_instr(&InstrK::IDiv, BitWidthSign::U8, BitWidthSign::S32, mem, true), vec![WInstr::I32DivU]);
    assert_eq!(emit_numeric_instr(&InstrK::Itof, BitWidthSign::U32, BitWidthSign::S32, mem, true), vec![WInstr::F32ConvertI32U]);
    assert_eq!(emit_numeric_instr(&InstrK::Ftoi { int_ty: 0 }, BitWidthSign::S32, BitWidthSign::S32, mem, false), vec![WInstr::I32TruncF32S]);
    assert_eq!(emit_numeric_instr(&InstrK::Ftoi { int_ty: 0 }, BitWidthSign::U32, BitWidthSign::S32, mem, true), vec![WInstr::I32TruncSatF32U]);
    assert_eq!(emit_numeric_instr(&InstrK::Read { ty: 0 }, BitWidthSign::S16, BitWidthSign::S32, mem, true), vec![WInstr::I32Load16S(mem)]);
    assert_eq!(emit_numeric_instr(&InstrK::IConv { target: 0 }, BitWidthSign::S32, BitWidthSign::U8, mem, true),
        vec![WInstr::I32Const(255), WInstr::I32And]);
    assert_eq!(emit_numeric_instr(&InstrK::IConv { target: 0 }, BitWidthSign::S8, BitWidthSign::S16, mem, true), vec![]);
}
