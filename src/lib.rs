//! A stack-based intermediate representation and the passes that check it
//! and lower it to a WebAssembly module description.
use vstd::prelude::*;

pub mod ty;
pub mod abi;
pub mod metadata;
pub mod instr;
pub mod staticmem;
pub mod module;
pub mod numerics;
pub mod verify;
pub mod correct;
pub mod cf_verify;
pub mod instr_rewrite;
pub mod peephole_opt;
pub mod wasm;
pub mod emit;
pub mod builder;
pub mod driver;

use crate::cf_verify::{ControlFlowVerifierError, spec_parents};
use crate::driver::{corrected_def, cf_annotated_def, keeps_frame, verified_def, peepholed_def};
use crate::emit::{EmitError, emit_module, emit_ok, emits};
use crate::module::{FuncDef, Module};
use crate::verify::{VerifyError, VerifyErrorV, InstrAnnot, spec_verify_function};
use crate::wasm::TargetModule;

verus! {

/// Why the pipeline rejected a module.
#[derive(Debug)]
pub enum PipelineError {
    ControlFlow(ControlFlowVerifierError),
    Verify(VerifyError),
    Emit(EmitError),
}

/// Every local function of `m` has fewer blocks than `usize::MAX`.
pub open spec fn block_counts_fit(m: Module) -> bool {
    forall|i: int| 0 <= i < m.funcs().len() ==> ((#[trigger] m.funcs()[i]) is Local ==> m.funcs()[i]->Local_0.blocks@.len() < usize::MAX)
}

pub open spec fn module_corrected(m0: Module, m1: Module) -> bool {
    &&& keeps_frame(m0, m1)
    &&& forall|i: int| 0 <= i < m0.funcs().len() ==> corrected_def(m0.funcs()[i], #[trigger] m1.funcs()[i])
}

pub open spec fn module_cf_annotated(m1: Module, m2: Module) -> bool {
    &&& keeps_frame(m1, m2)
    &&& forall|i: int| 0 <= i < m1.funcs().len() ==> cf_annotated_def(m1.funcs()[i], #[trigger] m2.funcs()[i])
}

pub open spec fn module_verified(m2: Module, m3: Module) -> bool {
    &&& keeps_frame(m2, m3)
    &&& forall|i: int| 0 <= i < m2.funcs().len() ==> verified_def(m2, m2.funcs()[i], #[trigger] m3.funcs()[i])
}

pub open spec fn module_peepholed(m3: Module, m4: Module) -> bool {
    &&& keeps_frame(m3, m4)
    &&& forall|i: int| 0 <= i < m3.funcs().len() ==> peepholed_def(m3.funcs()[i], #[trigger] m4.funcs()[i])
}

/// Every local function passes control-flow verification.
pub open spec fn all_cf_ok(m: Module) -> bool {
    forall|i: int| 0 <= i < m.funcs().len() && (#[trigger] m.funcs()[i]) is Local ==> spec_parents(m.funcs()[i]->Local_0) is Ok
}

/// Every local function passes stack and type verification.
pub open spec fn all_verify_ok(m: Module) -> bool {
    forall|i: int| 0 <= i < m.funcs().len() && (#[trigger] m.funcs()[i]) is Local ==> spec_verify_function(m, m.funcs()[i]->Local_0) is Ok
}

/// The modules after correction (`m1`), control-flow annotation (`m2`),
/// type annotation (`m3`) and, when `opt` holds, peephole rewriting (`m4`).
pub open spec fn stages(m0: Module, opt: bool, m1: Module, m2: Module, m3: Module, m4: Module) -> bool {
    &&& module_corrected(m0, m1)
    &&& module_cf_annotated(m1, m2)
    &&& module_verified(m2, m3)
    &&& if opt { module_peepholed(m3, m4) } else { m4 == m3 }
}

/// Every stage's condition holds, whatever modules the stages produce.
pub open spec fn success_owed(m0: Module, opt: bool) -> bool {
    &&& forall|m1: Module| #[trigger] module_corrected(m0, m1) ==> all_cf_ok(m1)
    &&& forall|m1: Module, m2: Module| #[trigger] module_corrected(m0, m1) && #[trigger] module_cf_annotated(m1, m2) ==> all_verify_ok(m2)
    &&& forall|m1: Module, m2: Module, m3: Module, m4: Module| #[trigger] stages(m0, opt, m1, m2, m3, m4) ==> emit_ok(m4)
}

/// Compile a module with the canonical pipeline: correction, control-flow
/// verification, stack and type verification, peephole rewriting when `opt`
/// holds, emission. Each error names the stage that failed.
pub fn pipeline_compile_module_to_wasm(module: Module, opt: bool) -> (r: Result<TargetModule, PipelineError>)
    requires
        module.wf(),
        block_counts_fit(module),
    ensures
        success_owed(module, opt) ==> r is Ok,
        r matches Err(PipelineError::ControlFlow(e)) ==> exists|m1: Module| #[trigger] module_corrected(module, m1)
            && exists|i: int| 0 <= i < m1.funcs().len() && (#[trigger] m1.funcs()[i]) is Local
                && spec_parents(m1.funcs()[i]->Local_0) == Err::<Seq<Option<crate::metadata::BlockId>>, ControlFlowVerifierError>(e),
        r matches Err(PipelineError::Verify(e)) ==> exists|m1: Module, m2: Module| #[trigger] module_corrected(module, m1) && #[trigger] module_cf_annotated(m1, m2)
            && all_cf_ok(m1)
            && exists|i: int| 0 <= i < m2.funcs().len() && (#[trigger] m2.funcs()[i]) is Local
                && spec_verify_function(m2, m2.funcs()[i]->Local_0) == Err::<Seq<Seq<InstrAnnot>>, VerifyErrorV>(e@),
        r matches Err(PipelineError::Emit(_)) ==> exists|m1: Module, m2: Module, m3: Module, m4: Module| #[trigger] stages(module, opt, m1, m2, m3, m4)
            && all_cf_ok(m1) && all_verify_ok(m2) && !emit_ok(m4),
        r matches Ok(tm) ==> exists|m1: Module, m2: Module, m3: Module, m4: Module| #[trigger] stages(module, opt, m1, m2, m3, m4)
            && all_cf_ok(m1) && all_verify_ok(m2) && emit_ok(m4) && emits(m4, tm),
{
    let mut module = module;
    let ghost m0 = module;
    module.run_correction();
    let ghost m1 = module;
    proof {
        assert forall|i: int| 0 <= i < m1.funcs().len() && (#[trigger] m1.funcs()[i]) is Local implies m1.funcs()[i]->Local_0.blocks@.len() < usize::MAX by {
            assert(corrected_def(m0.funcs()[i], m1.funcs()[i]));
        }
        assert(module_corrected(m0, m1));
    }
    match module.run_cf_verify() {
        Ok(()) => {},
        Err(e) => {
            return Err(PipelineError::ControlFlow(e));
        },
    }
    let ghost m2 = module;
    assert(module_cf_annotated(m1, m2));
    assert(all_cf_ok(m1));
    match module.run_verifier() {
        Ok(()) => {},
        Err(e) => {
            return Err(PipelineError::Verify(e));
        },
    }
    let ghost m3 = module;
    assert(module_verified(m2, m3));
    assert(all_verify_ok(m2));
    if opt {
        module.run_peephole();
    }
    let ghost m4 = module;
    assert(stages(m0, opt, m1, m2, m3, m4));
    match emit_module(&module) {
        Ok(tm) => Ok(tm),
        Err(e) => Err(PipelineError::Emit(e)),
    }
}

} // verus!
