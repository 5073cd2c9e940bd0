//! Local window rewrites. A pair `[LdGlobalFunc f, CallIndirect]` becomes a
//! direct call to `f` that keeps the indirect call's metadata.
use vstd::prelude::*;
use crate::instr::{Function, Instr, InstrK};
use crate::instr_rewrite::{BlobRewriteData, EditV, PlanV, edits_view};
use crate::metadata::BlockId;

verus! {

/// The replacement for two consecutive instructions, if a rule applies.
pub open spec fn spec_replace_2(a: Instr, b: Instr) -> Option<Seq<Instr>> {
    match (a.kind, b.kind) {
        (InstrK::LdGlobalFunc { func_name }, InstrK::CallIndirect) => Some(seq![Instr { kind: InstrK::CallDirect { func_name }, meta: b.meta }]),
        _ => None,
    }
}

/// The rewrites for windows starting before position `k`, in position order.
pub open spec fn window_edits(s: Seq<Instr>, k: int) -> Seq<EditV>
    decreases k,
{
    if k <= 0 {
        Seq::empty()
    } else {
        let prev = window_edits(s, k - 1);
        let i = k - 1;
        if i + 1 < s.len() && spec_replace_2(s[i], s[i + 1]) is Some {
            prev.push((i as nat, (i + 2) as nat, spec_replace_2(s[i], s[i + 1])->Some_0))
        } else {
            prev
        }
    }
}

/// The rewrite plan for the first `k` blocks: one entry per block with at least one rewrite.
pub open spec fn peephole_plan(f: Function, k: int) -> PlanV
    decreases k,
{
    if k <= 0 {
        Seq::empty()
    } else {
        let prev = peephole_plan(f, k - 1);
        let b = f.blocks@[k - 1];
        let es = window_edits(b.body@, b.body@.len() as int);
        if es.len() > 0 {
            prev.push((b.idx, es))
        } else {
            prev
        }
    }
}

fn replace_2(i1: &Instr, i2: &Instr) -> (r: Option<Vec<Instr>>)
    ensures
        match spec_replace_2(*i1, *i2) {
            Some(s) => r matches Some(v) && v@ == s,
            None => r is None,
        },
{
    match (&i1.kind, &i2.kind) {
        (InstrK::LdGlobalFunc { func_name }, InstrK::CallIndirect) => {
            let mut v: Vec<Instr> = Vec::new();
            v.push(Instr::new_with_meta(InstrK::CallDirect { func_name: func_name.clone() }, i2.meta));
            assert(v@ =~= seq![Instr { kind: InstrK::CallDirect { func_name: *func_name }, meta: i2.meta }]);
            Some(v)
        },
        _ => None,
    }
}

pub struct PeepholeOpt {}

impl PeepholeOpt {
    /// The rewrite plan for a function, ready for the splice pass.
    pub fn visit_function(&self, function: &Function) -> (r: Vec<(BlockId, Vec<BlobRewriteData>)>)
        ensures
            crate::instr_rewrite::plan_view(r@) == peephole_plan(*function, function.blocks@.len() as int),
    {
        let mut plan: Vec<(BlockId, Vec<BlobRewriteData>)> = Vec::new();
        let mut b: usize = 0;
        while b < function.blocks.len()
            invariant
                b <= function.blocks@.len(),
                crate::instr_rewrite::plan_view(plan@) == peephole_plan(*function, b as int),
            decreases function.blocks@.len() - b,
        {
            let block = &function.blocks[b];
            let len = block.body.len();
            let mut edits: Vec<BlobRewriteData> = Vec::new();
            let mut i: usize = 0;
            while i < len
                invariant
                    i <= len,
                    len == block.body@.len(),
                    edits_view(edits@) == window_edits(block.body@, i as int),
                decreases len - i,
            {
                if i + 1 < len {
                    match replace_2(&block.body[i], &block.body[i + 1]) {
                        Some(new_instrs) => {
                            let ghost ni = new_instrs@;
                            edits.push(BlobRewriteData { start: i, end: i + 2, instrs: new_instrs });
                            assert(edits_view(edits@) =~= window_edits(block.body@, i as int).push((i as nat, (i + 2) as nat, ni)));
                        },
                        None => {},
                    }
                }
                i = i + 1;
            }
            if edits.len() > 0 {
                let ghost ev = edits_view(edits@);
                plan.push((block.idx, edits));
                assert(crate::instr_rewrite::plan_view(plan@) =~= peephole_plan(*function, b as int).push((block.idx, ev)));
            }
            b = b + 1;
        }
        plan
    }
}

} // verus!

verus! {

use crate::instr_rewrite::{apply_edits, apply_plan, bodies_of, chained, disjoint, edits_fit, splice, strictly_ascending, covers};

/// The body after the peephole rewrites: the windows applied last first.
pub open spec fn rewritten(s: Seq<Instr>) -> Seq<Instr> {
    apply_edits(s, window_edits(s, s.len() as int).reverse())
}

/// Each block's rewrites reversed, so that the last range comes first.
pub open spec fn rev_plan(p: PlanV) -> PlanV {
    p.map_values(|e: (BlockId, Seq<EditV>)| (e.0, e.1.reverse()))
}

/// The windows before position `k`: each replaces two instructions, starts
/// where a function value is loaded, and starts at least two after the one before.
pub proof fn lemma_windows(s: Seq<Instr>, k: int)
    requires
        0 <= k,
    ensures
        forall|a: int| 0 <= a < window_edits(s, k).len() ==> {
            let w = #[trigger] window_edits(s, k)[a];
            &&& w.1 == w.0 + 2
            &&& w.0 + 2 <= s.len()
            &&& w.0 < k
            &&& w.2.len() == 1
            &&& s[w.0 as int].kind is LdGlobalFunc
            &&& s[(w.0 + 1) as int].kind is CallIndirect
        },
        forall|a: int, b: int| 0 <= a < b < window_edits(s, k).len() ==> (#[trigger] window_edits(s, k)[a]).0 + 2 <= (#[trigger] window_edits(s, k)[b]).0,
    decreases k,
{
    if k > 0 {
        lemma_windows(s, k - 1);
        let prev = window_edits(s, k - 1);
        let i = k - 1;
        if i + 1 < s.len() && spec_replace_2(s[i], s[i + 1]) is Some {
            let cur = window_edits(s, k);
            assert(cur == prev.push((i as nat, (i + 2) as nat, spec_replace_2(s[i], s[i + 1])->Some_0)));
            assert forall|a: int| 0 <= a < prev.len() implies (#[trigger] prev[a]).0 + 2 <= i by {
                if prev[a].0 + 1 == i {
                    assert(s[i].kind is CallIndirect);
                }
            }
            assert forall|a: int, b: int| 0 <= a < b < cur.len() implies (#[trigger] cur[a]).0 + 2 <= (#[trigger] cur[b]).0 by {
                assert(cur[a] == prev[a]);
                if b < prev.len() {
                    assert(cur[b] == prev[b]);
                }
            }
            assert forall|a: int| 0 <= a < cur.len() implies {
                let w = #[trigger] cur[a];
                &&& w.1 == w.0 + 2
                &&& w.0 + 2 <= s.len()
                &&& w.0 < k
                &&& w.2.len() == 1
                &&& s[w.0 as int].kind is LdGlobalFunc
                &&& s[(w.0 + 1) as int].kind is CallIndirect
            } by {
                if a < prev.len() {
                    assert(cur[a] == prev[a]);
                }
            }
        }
    }
}

/// Rewrites that each replace two instructions by one, chained, fit the body.
pub proof fn lemma_pairs_fit(s: Seq<Instr>, es: Seq<EditV>)
    requires
        chained(es),
        forall|a: int| 0 <= a < es.len() ==> (#[trigger] es[a]).1 == es[a].0 + 2 && es[a].2.len() == 1,
        es.len() > 0 ==> es[0].1 <= s.len(),
        s.len() <= usize::MAX,
    ensures
        edits_fit(s, es),
    decreases es.len(),
{
    if es.len() > 0 {
        let rest = es.drop_first();
        assert forall|i: int| 0 <= i < rest.len() - 1 implies (#[trigger] rest[i + 1]).1 <= rest[i].0 by {
            assert(rest[i + 1] == es[i + 2]);
            assert(rest[i] == es[i + 1]);
        }
        assert forall|a: int| 0 <= a < rest.len() implies (#[trigger] rest[a]).1 == rest[a].0 + 2 && rest[a].2.len() == 1 by {
            assert(rest[a] == es[a + 1]);
        }
        if rest.len() > 0 {
            assert(rest[0] == es[1]);
        }
        lemma_pairs_fit(splice(s, es[0]), rest);
    }
}

/// The reversed windows of a body fit it, and the windows are strictly ascending and disjoint.
pub proof fn lemma_window_plan(s: Seq<Instr>)
    requires
        s.len() <= usize::MAX,
    ensures
        strictly_ascending(window_edits(s, s.len() as int)),
        disjoint(window_edits(s, s.len() as int)),
        edits_fit(s, window_edits(s, s.len() as int).reverse()),
{
    let w = window_edits(s, s.len() as int);
    lemma_windows(s, s.len() as int);
    assert forall|a: int, b: int| 0 <= a < b < w.len() implies (#[trigger] w[a]).0 < (#[trigger] w[b]).0 by {}
    assert forall|a: int, b: int, x: nat| 0 <= a < b < w.len() && #[trigger] covers(w[a], x) implies !#[trigger] covers(w[b], x) by {}
    let r = w.reverse();
    assert forall|i: int| 0 <= i < r.len() - 1 implies (#[trigger] r[i + 1]).1 <= r[i].0 by {
        assert(r[i + 1] == w[w.len() - 2 - i]);
        assert(r[i] == w[w.len() - 1 - i]);
    }
    assert forall|a: int| 0 <= a < r.len() implies (#[trigger] r[a]).1 == r[a].0 + 2 && r[a].2.len() == 1 by {
        assert(r[a] == w[w.len() - 1 - a]);
    }
    if r.len() > 0 {
        assert(r[0] == w[w.len() - 1]);
    }
    lemma_pairs_fit(s, r);
}

/// Applying `p` followed by `x` is applying `p`, then `x`.
pub proof fn lemma_apply_plan_push(bodies: Seq<Seq<Instr>>, p: PlanV, x: (BlockId, Seq<EditV>))
    ensures
        apply_plan(bodies, p.push(x)) == match apply_plan(bodies, p) {
            None => None,
            Some(b2) => apply_plan(b2, seq![x]),
        },
    decreases p.len(),
{
    if p.len() == 0 {
        assert(p.push(x) =~= seq![x]);
    } else {
        assert(p.push(x)[0] == p[0]);
        assert(p.push(x).drop_first() =~= p.drop_first().push(x));
        let b = p[0].0.0;
        if b < bodies.len() && edits_fit(bodies[b as int], p[0].1) {
            lemma_apply_plan_push(bodies.update(b as int, apply_edits(bodies[b as int], p[0].1)), p.drop_first(), x);
        }
    }
}

/// The peephole plan of the first `k` blocks, reversed per block, applies,
/// rewriting exactly those blocks; block ids increase along the plan.
pub proof fn lemma_peephole_plan(f: Function, k: int)
    requires
        f.wf(),
        0 <= k <= f.blocks@.len(),
        forall|b: int| 0 <= b < f.blocks@.len() ==> (#[trigger] f.blocks@[b]).body@.len() <= usize::MAX,
    ensures
        apply_plan(bodies_of(f), rev_plan(peephole_plan(f, k))) matches Some(nb) && nb.len() == f.blocks@.len()
            && forall|b: int| 0 <= b < nb.len() ==> #[trigger] nb[b] == if b < k { rewritten(f.blocks@[b].body@) } else { f.blocks@[b].body@ },
        forall|a: int| 0 <= a < peephole_plan(f, k).len() ==> (#[trigger] peephole_plan(f, k)[a]).0.0 < k
            && peephole_plan(f, k)[a].1 == window_edits(f.blocks@[peephole_plan(f, k)[a].0.0 as int].body@, f.blocks@[peephole_plan(f, k)[a].0.0 as int].body@.len() as int),
        forall|a: int, b: int| 0 <= a < b < peephole_plan(f, k).len() ==> (#[trigger] peephole_plan(f, k)[a]).0.0 < (#[trigger] peephole_plan(f, k)[b]).0.0,
    decreases k,
{
    let bs = bodies_of(f);
    if k == 0 {
        assert(rev_plan(peephole_plan(f, 0)) =~= Seq::<(BlockId, Seq<EditV>)>::empty());
        assert forall|b: int| 0 <= b < bs.len() implies #[trigger] bs[b] == f.blocks@[b].body@ by {}
    } else {
        lemma_peephole_plan(f, k - 1);
        let prev = peephole_plan(f, k - 1);
        let blk = f.blocks@[k - 1];
        let s = blk.body@;
        let es = window_edits(s, s.len() as int);
        let nb0 = apply_plan(bs, rev_plan(prev))->Some_0;
        assert(blk.idx.0 == k - 1);
        if es.len() > 0 {
            let x = (blk.idx, es.reverse());
            assert(rev_plan(prev.push((blk.idx, es))) =~= rev_plan(prev).push(x));
            lemma_apply_plan_push(bs, rev_plan(prev), x);
            lemma_window_plan(s);
            assert(nb0[k - 1] == s);
            assert(seq![x][0] == x);
            assert(seq![x].drop_first() =~= Seq::<(BlockId, Seq<EditV>)>::empty());
            let nb = nb0.update(k - 1, apply_edits(s, es.reverse()));
            assert(x.0.0 == k - 1);
            assert(edits_fit(nb0[k - 1], x.1));
            assert(apply_plan(nb, Seq::<(BlockId, Seq<EditV>)>::empty()) == Some(nb));
            reveal_with_fuel(apply_plan, 2);
            assert(apply_plan(nb0, seq![x]) == Some(nb));
            let cur = peephole_plan(f, k);
            assert(cur == prev.push((blk.idx, es)));
            assert forall|a: int, b: int| 0 <= a < b < cur.len() implies (#[trigger] cur[a]).0.0 < (#[trigger] cur[b]).0.0 by {
                assert(cur[a] == prev[a]);
                if b < prev.len() {
                    assert(cur[b] == prev[b]);
                }
            }
            assert forall|a: int| 0 <= a < cur.len() implies (#[trigger] cur[a]).0.0 < k
                && cur[a].1 == window_edits(f.blocks@[cur[a].0.0 as int].body@, f.blocks@[cur[a].0.0 as int].body@.len() as int) by {
                if a < prev.len() {
                    assert(cur[a] == prev[a]);
                }
            }
        } else {
            assert(es.reverse() =~= es);
            assert(apply_edits(s, es.reverse()) == s);
        }
    }
}

} // verus!
