//! Running the passes over every local function of a module.
use vstd::prelude::*;
use crate::cf_verify::{ControlFlowVerifier, ControlFlowVerifierError, cf_meta, spec_parents, spec_depth, tags_of};
use crate::correct::{CorrectionPass, CorrectionPassMutationInfo, function_corrected};
use crate::instr::Function;
use crate::instr_rewrite::InstrRewritePass;
use crate::module::{FuncDef, Module, same_signature};
use crate::peephole_opt::{PeepholeOpt, peephole_plan, rewritten, rev_plan, lemma_peephole_plan, lemma_window_plan};
use crate::instr_rewrite::{apply_plan, bodies_of, disjoint, edits_view, plan_view};
use crate::metadata::BlockId;
use crate::verify::{Verifier, VerifyError, VerifyErrorV, function_annotated, same_env, spec_verify_function, lemma_verify_env};

verus! {

pub open spec fn corrected_def(d: FuncDef, e: FuncDef) -> bool {
    match d {
        FuncDef::Local(f) => e matches FuncDef::Local(g) && function_corrected(f, g),
        FuncDef::Extern(_) => e == d,
    }
}

/// Module-wide facts that the passes keep.
pub open spec fn keeps_frame(m1: Module, m2: Module) -> bool {
    &&& m2.wf()
    &&& m1.types == m2.types
    &&& m1.globals() == m2.globals()
    &&& m1.static_memory == m2.static_memory
    &&& m1.conf == m2.conf
    &&& m1.funcs().len() == m2.funcs().len()
}

impl Module {
    /// The correction pass on every local function.
    pub fn run_correction(&mut self)
        requires
            old(self).wf(),
        ensures
            keeps_frame(*old(self), *final(self)),
            forall|i: int| 0 <= i < old(self).funcs().len() ==> corrected_def(old(self).funcs()[i], #[trigger] final(self).funcs()[i]),
    {
        let n = self.function_count();
        let mut i: usize = 0;
        while i < n
            invariant
                i <= n,
                n == old(self).funcs().len(),
                keeps_frame(*old(self), *self),
                forall|k: int| 0 <= k < i ==> corrected_def(old(self).funcs()[k], #[trigger] self.funcs()[k]),
                forall|k: int| i <= k < n ==> #[trigger] self.funcs()[k] == old(self).funcs()[k],
            decreases n - i,
        {
            if self.function_get_by_idx(i).is_local() {
                let ph = self.placeholder_for(i);
                let mut f = self.replace_local_function(i, ph);
                let pass = CorrectionPass {};
                pass.mutate_function(&mut f, CorrectionPassMutationInfo {});
                proof {
                    assert(f.blocks@.len() >= 1);
                    assert forall|b: int| 0 <= b < f.blocks@.len() implies (#[trigger] f.blocks@[b]).idx.0 == b by {
                        assert(crate::correct::block_corrected(old(self).funcs()[i as int]->Local_0.blocks@[b], f.blocks@[b]));
                    }
                }
                self.replace_local_function(i, f);
            }
            i = i + 1;
        }
    }

    /// Control-flow verification of every local function, stopping at the first error.
    pub fn run_cf_verify(&mut self) -> (r: Result<(), ControlFlowVerifierError>)
        requires
            old(self).wf(),
            forall|i: int| 0 <= i < old(self).funcs().len() ==> ((#[trigger] old(self).funcs()[i]) is Local ==> old(self).funcs()[i]->Local_0.blocks@.len() < usize::MAX),
        ensures
            keeps_frame(*old(self), *final(self)),
            r is Ok <==> forall|i: int| 0 <= i < old(self).funcs().len() && (#[trigger] old(self).funcs()[i]) is Local ==> spec_parents(old(self).funcs()[i]->Local_0) is Ok,
            r matches Err(e) ==> exists|i: int| 0 <= i < old(self).funcs().len() && (#[trigger] old(self).funcs()[i]) is Local
                && spec_parents(old(self).funcs()[i]->Local_0) == Err::<Seq<Option<crate::metadata::BlockId>>, ControlFlowVerifierError>(e),
            r is Ok ==> forall|i: int| 0 <= i < old(self).funcs().len() ==> cf_annotated_def(old(self).funcs()[i], #[trigger] final(self).funcs()[i]),
    {
        let n = self.function_count();
        let mut i: usize = 0;
        while i < n
            invariant
                i <= n,
                n == old(self).funcs().len(),
                keeps_frame(*old(self), *self),
                forall|k: int| 0 <= k < n ==> ((#[trigger] old(self).funcs()[k]) is Local ==> old(self).funcs()[k]->Local_0.blocks@.len() < usize::MAX),
                forall|k: int| 0 <= k < i && (#[trigger] old(self).funcs()[k]) is Local ==> spec_parents(old(self).funcs()[k]->Local_0) is Ok,
                forall|k: int| 0 <= k < i ==> cf_annotated_def(old(self).funcs()[k], #[trigger] self.funcs()[k]),
                forall|k: int| i <= k < n ==> #[trigger] self.funcs()[k] == old(self).funcs()[k],
            decreases n - i,
        {
            if self.function_get_by_idx(i).is_local() {
                let data = {
                    let f = self.function_get_by_idx(i).unwrap_local();
                    assert(crate::module::funcdef_typed(self.types@, self.funcs()[i as int]));
                    let v = ControlFlowVerifier {};
                    v.visit_function(f)
                };
                let data = match data {
                    Ok(d) => d,
                    Err(e) => {
                        assert(old(self).funcs()[i as int] is Local);
                        return Err(e);
                    },
                };
                let ph = self.placeholder_for(i);
                let mut f = self.replace_local_function(i, ph);
                let v = ControlFlowVerifier {};
                v.mutate_function(&mut f, data);
                self.replace_local_function(i, f);
            }
            i = i + 1;
        }
        Ok(())
    }
}

/// `e` is `d` with control-flow metadata written into its blocks.
pub open spec fn cf_annotated_def(d: FuncDef, e: FuncDef) -> bool {
    match d {
        FuncDef::Local(f) => e matches FuncDef::Local(g) && cf_annotated(f, g),
        FuncDef::Extern(_) => e == d,
    }
}

pub open spec fn cf_annotated(f: Function, g: Function) -> bool {
    let ps = spec_parents(f)->Ok_0;
    &&& spec_parents(f) is Ok
    &&& g.name == f.name && g.ty == f.ty && g.args == f.args && g.rets == f.rets
    &&& g.all_locals_types == f.all_locals_types && g.idx == f.idx
    &&& g.blocks@.len() == f.blocks@.len()
    &&& forall|b: int| 0 <= b < g.blocks@.len() ==> {
        let nb = #[trigger] g.blocks@[b];
        let ob = f.blocks@[b];
        &&& nb.idx == ob.idx && nb.tag == ob.tag && nb.block_ty == ob.block_ty && nb.rets == ob.rets && nb.body == ob.body
        &&& nb.meta.parent == ps[b]
        &&& crate::cf_verify::opt_nat(nb.meta.innermost_loop_distance) == spec_depth(tags_of(f), ps, b)
        &&& nb.meta.ty == ob.meta.ty && nb.meta.from == ob.meta.from && nb.meta.bws == ob.meta.bws
    }
}

} // verus!

verus! {

pub open spec fn verified_def(m: Module, d: FuncDef, e: FuncDef) -> bool {
    match d {
        FuncDef::Local(f) => e matches FuncDef::Local(g) && spec_verify_function(m, f) is Ok
            && function_annotated(f, g, spec_verify_function(m, f)->Ok_0),
        FuncDef::Extern(_) => e == d,
    }
}

impl Module {
    /// Stack and type verification of every local function, stopping at the
    /// first error; on success each instruction carries what lowering needs.
    pub fn run_verifier(&mut self) -> (r: Result<(), VerifyError>)
        requires
            old(self).wf(),
        ensures
            keeps_frame(*old(self), *final(self)),
            r is Ok <==> forall|i: int| 0 <= i < old(self).funcs().len() && (#[trigger] old(self).funcs()[i]) is Local ==> spec_verify_function(*old(self), old(self).funcs()[i]->Local_0) is Ok,
            r matches Err(e) ==> exists|i: int| 0 <= i < old(self).funcs().len() && (#[trigger] old(self).funcs()[i]) is Local
                && spec_verify_function(*old(self), old(self).funcs()[i]->Local_0) == Err::<Seq<Seq<crate::verify::InstrAnnot>>, VerifyErrorV>(e@),
            r is Ok ==> forall|i: int| 0 <= i < old(self).funcs().len() ==> verified_def(*old(self), old(self).funcs()[i], #[trigger] final(self).funcs()[i]),
    {
        let n = self.function_count();
        let mut i: usize = 0;
        while i < n
            invariant
                i <= n,
                n == old(self).funcs().len(),
                keeps_frame(*old(self), *self),
                same_env(*old(self), *self),
                forall|k: int| 0 <= k < i && (#[trigger] old(self).funcs()[k]) is Local ==> spec_verify_function(*old(self), old(self).funcs()[k]->Local_0) is Ok,
                forall|k: int| 0 <= k < i ==> verified_def(*old(self), old(self).funcs()[k], #[trigger] self.funcs()[k]),
                forall|k: int| i <= k < n ==> #[trigger] self.funcs()[k] == old(self).funcs()[k],
            decreases n - i,
        {
            if self.function_get_by_idx(i).is_local() {
                let info = {
                    let f = self.function_get_by_idx(i).unwrap_local();
                    proof {
                        lemma_verify_env(*old(self), *self, *f);
                        if spec_verify_function(*old(self), *f) is Ok {
                            crate::verify::lemma_verify_function_len(*old(self), *f);
                        }
                    }
                    let v = Verifier {};
                    v.visit_function(self, f)
                };
                let info = match info {
                    Ok(x) => x,
                    Err(e) => {
                        assert(old(self).funcs()[i as int] is Local);
                        return Err(e);
                    },
                };
                let ph = self.placeholder_for(i);
                let ghost before = *self;
                let mut f = self.replace_local_function(i, ph);
                let v = Verifier {};
                proof {
                    assert(info.annots@.len() == f.blocks@.len());
                    assert forall|b: int| 0 <= b < info.annots@.len() implies (#[trigger] info.annots@[b])@.len() == f.blocks@[b].body@.len() by {
                        let a = spec_verify_function(*old(self), old(self).funcs()[i as int]->Local_0)->Ok_0;
                        assert(info.annots@[b]@ == a[b]);
                    }
                }
                let ghost fbefore = f;
                v.mutate_function(&mut f, info);
                proof {
                    let a = spec_verify_function(*old(self), old(self).funcs()[i as int]->Local_0)->Ok_0;
                    assert(info.annots@.map_values(|v: Vec<crate::verify::InstrAnnot>| v@) =~= a) by {
                        assert forall|b: int| 0 <= b < a.len() implies info.annots@.map_values(|v: Vec<crate::verify::InstrAnnot>| v@)[b] == a[b] by {
                            assert(info.annots@[b]@ == a[b]);
                        }
                    }
                    assert forall|b: int| 0 <= b < f.blocks@.len() implies (#[trigger] f.blocks@[b]).idx.0 == b by {
                        let a = spec_verify_function(*old(self), old(self).funcs()[i as int]->Local_0)->Ok_0;
                        assert(crate::verify::block_annotated(old(self).funcs()[i as int]->Local_0.blocks@[b], f.blocks@[b], a[b], old(self).funcs()[i as int]->Local_0.blocks@[b].body@.len() as int));
                    }
                }
                self.replace_local_function(i, f);
                proof {
                    assert forall|k: int| 0 <= k < old(self).funcs().len() implies {
                        &&& (#[trigger] old(self).funcs()[k]).spec_name() == self.funcs()[k].spec_name()
                        &&& old(self).funcs()[k].spec_ty() == self.funcs()[k].spec_ty()
                        &&& old(self).funcs()[k].spec_args() == self.funcs()[k].spec_args()
                        &&& old(self).funcs()[k].spec_rets() == self.funcs()[k].spec_rets()
                        &&& old(self).funcs()[k].spec_idx() == self.funcs()[k].spec_idx()
                    } by {
                        assert(before.funcs()[k].spec_name() == old(self).funcs()[k].spec_name());
                    }
                }
            }
            i = i + 1;
        }
        Ok(())
    }

    /// Peephole rewriting of every local function through the splice pass.
    /// The plan that the peephole pass makes always splices in.
    pub fn run_peephole(&mut self)
        requires
            old(self).wf(),
        ensures
            keeps_frame(*old(self), *final(self)),
            forall|i: int| 0 <= i < old(self).funcs().len() ==> peepholed_def(old(self).funcs()[i], #[trigger] final(self).funcs()[i]),
    {
        let n = self.function_count();
        let mut i: usize = 0;
        while i < n
            invariant
                i <= n,
                n == old(self).funcs().len(),
                keeps_frame(*old(self), *self),
                forall|k: int| 0 <= k < i ==> peepholed_def(old(self).funcs()[k], #[trigger] self.funcs()[k]),
                forall|k: int| i <= k < n ==> #[trigger] self.funcs()[k] == old(self).funcs()[k],
            decreases n - i,
        {
            if self.function_get_by_idx(i).is_local() {
                let ghost f0 = self.funcs()[i as int]->Local_0;
                let plan = {
                    let f = self.function_get_by_idx(i).unwrap_local();
                    assert(crate::module::funcdef_typed(self.types@, self.funcs()[i as int]));
                    bodies_fit(f);
                    let p = PeepholeOpt {};
                    p.visit_function(f)
                };
                proof {
                    let nb = f0.blocks@.len() as int;
                    lemma_peephole_plan(f0, nb);
                    let pp = peephole_plan(f0, nb);
                    assert(plan_view(plan@) == pp);
                    assert forall|a: int| 0 <= a < plan@.len() implies disjoint(edits_view((#[trigger] plan@[a]).1@)) by {
                        assert(plan_view(plan@)[a] == (plan@[a].0, edits_view(plan@[a].1@)));
                        lemma_window_plan(f0.blocks@[pp[a].0.0 as int].body@);
                    }
                    assert forall|a: int, c: int| 0 <= a < c < plan@.len() implies (#[trigger] plan@[a]).0 != (#[trigger] plan@[c]).0 by {
                        assert(plan_view(plan@)[a].0 == plan@[a].0);
                        assert(plan_view(plan@)[c].0 == plan@[c].0);
                    }
                }
                let ghost plan_v = plan@;
                let pass = match InstrRewritePass::new(i, plan) {
                    Ok(p) => p,
                    Err(()) => vstd::pervasive::unreached(),
                };
                proof {
                    let nb = f0.blocks@.len() as int;
                    let pp = peephole_plan(f0, nb);
                    assert forall|a: int| 0 <= a < pass.modifications@.len() implies #[trigger] plan_view(pass.modifications@)[a] == rev_plan(pp)[a] by {
                        assert(plan_view(plan_v)[a] == (plan_v[a].0, edits_view(plan_v[a].1@)));
                        lemma_window_plan(f0.blocks@[pp[a].0.0 as int].body@);
                    }
                    assert(plan_view(pass.modifications@) =~= rev_plan(pp));
                }
                let ph = self.placeholder_for(i);
                let ghost before = *self;
                let mut f = self.replace_local_function(i, ph);
                assert(before.funcs()[i as int].spec_idx() == i);
                let ghost fa = f;
                match pass.mutate_function(&mut f) {
                    Ok(()) => {},
                    Err(()) => vstd::pervasive::unreached(),
                }
                proof {
                    let nbodies = apply_plan(bodies_of(fa), plan_view(pass.modifications@))->Some_0;
                    assert forall|b: int| 0 <= b < f.blocks@.len() implies (#[trigger] f.blocks@[b]).idx.0 == b by {
                        assert(fa.blocks@[b].idx.0 == b);
                    }
                    assert forall|b: int| 0 <= b < f.blocks@.len() implies (#[trigger] f.blocks@[b]).body@ == rewritten(fa.blocks@[b].body@) by {
                        assert(bodies_of(f)[b] == f.blocks@[b].body@);
                        assert(nbodies[b] == rewritten(fa.blocks@[b].body@));
                    }
                }
                self.replace_local_function(i, f);
            }
            i = i + 1;
        }
    }
}

/// Every body of a function is a vector, so its length fits in `usize`.
fn bodies_fit(f: &Function)
    ensures
        forall|b: int| 0 <= b < f.blocks@.len() ==> (#[trigger] f.blocks@[b]).body@.len() <= usize::MAX,
{
    let mut b: usize = 0;
    while b < f.blocks.len()
        invariant
            b <= f.blocks@.len(),
            forall|k: int| 0 <= k < b ==> (#[trigger] f.blocks@[k]).body@.len() <= usize::MAX,
        decreases f.blocks@.len() - b,
    {
        let _len = f.blocks[b].body.len();
        b = b + 1;
    }
}

/// `g` is `f` with the peephole rewrites applied to every block.
pub open spec fn peepholed(f: Function, g: Function) -> bool {
    &&& g.name == f.name && g.ty == f.ty && g.args == f.args && g.rets == f.rets
    &&& g.all_locals_types == f.all_locals_types && g.idx == f.idx
    &&& g.blocks@.len() == f.blocks@.len()
    &&& forall|b: int| 0 <= b < g.blocks@.len() ==> {
        let nb = #[trigger] g.blocks@[b];
        let ob = f.blocks@[b];
        &&& nb.idx == ob.idx && nb.tag == ob.tag && nb.block_ty == ob.block_ty && nb.rets == ob.rets && nb.meta == ob.meta
        &&& nb.body@ == rewritten(ob.body@)
    }
}

pub open spec fn peepholed_def(d: FuncDef, e: FuncDef) -> bool {
    match d {
        FuncDef::Local(f) => e matches FuncDef::Local(g) && peepholed(f, g),
        FuncDef::Extern(_) => e == d,
    }
}

} // verus!

verus! {

/// After control-flow annotation, an `IfElse` block carries loop distance `k` exactly when its `k`-th ancestor is its
/// nearest `Loop` ancestor with only `IfElse` blocks in between (chains no
/// longer than the block count), and carries none when no such chain exists.
pub proof fn lemma_annotated_loop_distance(f: Function, g: Function, b: int)
    requires
        cf_annotated(f, g),
        0 <= b < f.blocks@.len(),
        f.blocks@[b].tag == crate::instr::BlockTag::IfElse,
    ensures
        ({
            let ps = spec_parents(f)->Ok_0;
            let tags = tags_of(f);
            let dist = crate::cf_verify::opt_nat(g.blocks@[b].meta.innermost_loop_distance);
            &&& dist matches Some(k) ==> crate::cf_verify::loop_chain(tags, ps, b as nat, k)
            &&& forall|k: nat| k <= tags.len() && #[trigger] crate::cf_verify::loop_chain(tags, ps, b as nat, k) ==> dist == Some(k)
            &&& dist is None ==> forall|k: nat| k <= tags.len() ==> !#[trigger] crate::cf_verify::loop_chain(tags, ps, b as nat, k)
        }),
{
    let tags = tags_of(f);
    assert(tags[b] == f.blocks@[b].tag);
    let ps = spec_parents(f)->Ok_0;
    crate::cf_verify::lemma_loop_distance(tags, ps, b as nat);
}

} // verus!

verus! {

/// After control-flow annotation the entry block records no parent, every
/// other block records the block whose `IfElse` or `Loop` names it, and that
/// parent chain leads back to the entry block.
pub proof fn lemma_annotated_parents(f: Function, g: Function)
    requires
        f.wf(),
        cf_annotated(f, g),
    ensures
        g.blocks@[0].meta.parent is None,
        forall|b: int| 1 <= b < g.blocks@.len() ==> (#[trigger] g.blocks@[b]).meta.parent is Some
            && exists|k: int| 0 <= k < crate::cf_verify::blocks_edges(f.blocks@).len()
                && #[trigger] crate::cf_verify::blocks_edges(f.blocks@)[k] == (BlockId(b as usize), g.blocks@[b].meta.parent->Some_0, f.blocks@[b].tag),
        forall|b: int| 1 <= b < g.blocks@.len() ==> #[trigger] crate::cf_verify::reaches_entry(spec_parents(f)->Ok_0, b as nat, f.blocks@.len() as nat),
{
    crate::cf_verify::lemma_cf_forest(f);
    let ps = spec_parents(f)->Ok_0;
    let es = crate::cf_verify::blocks_edges(f.blocks@);
    assert forall|b: int| 1 <= b < g.blocks@.len() implies (#[trigger] g.blocks@[b]).meta.parent is Some
        && exists|k: int| 0 <= k < es.len() && #[trigger] es[k] == (BlockId(b as usize), g.blocks@[b].meta.parent->Some_0, f.blocks@[b].tag) by {
        assert(ps[b] is Some);
        let k = choose|k: int| 0 <= k < es.len() && (#[trigger] es[k]).0.0 == b;
        assert(es[k].0.0 < f.blocks@.len() && ps[es[k].0.0 as int] == Some(es[k].1) && crate::cf_verify::tags_of(f)[es[k].0.0 as int] == es[k].2);
        assert(crate::cf_verify::tags_of(f)[b] == f.blocks@[b].tag);
        assert(es[k] == (BlockId(b as usize), ps[b]->Some_0, f.blocks@[b].tag));
    }
}

} // verus!
