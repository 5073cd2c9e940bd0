//! The correction pass: drops every instruction that follows a diverging one
//! (`Return`, `Fail` or `Break`) in its block.
use vstd::prelude::*;
use crate::instr::{Function, Instr, InstrBlock};

verus! {

/// `s` cut just after its first diverging instruction.
pub open spec fn corrected(s: Seq<Instr>) -> Seq<Instr>
    decreases s.len(),
{
    if s.len() == 0 {
        s
    } else if s[0].kind.spec_is_diverging() {
        s.take(1)
    } else {
        seq![s[0]] + corrected(s.drop_first())
    }
}

/// `nb` is `ob` with its body corrected.
pub open spec fn block_corrected(ob: InstrBlock, nb: InstrBlock) -> bool {
    &&& nb.idx == ob.idx
    &&& nb.tag == ob.tag
    &&& nb.block_ty == ob.block_ty
    &&& nb.rets == ob.rets
    &&& nb.meta == ob.meta
    &&& nb.body@ == corrected(ob.body@)
}

/// `nf` is `of` with every block corrected.
pub open spec fn function_corrected(of: Function, nf: Function) -> bool {
    &&& nf.name == of.name
    &&& nf.ty == of.ty
    &&& nf.args == of.args
    &&& nf.rets == of.rets
    &&& nf.all_locals_types == of.all_locals_types
    &&& nf.idx == of.idx
    &&& nf.blocks@.len() == of.blocks@.len()
    &&& forall|b: int| 0 <= b < nf.blocks@.len() ==> block_corrected(of.blocks@[b], #[trigger] nf.blocks@[b])
}

/// If `k` is the first diverging position, the corrected body ends there.
pub proof fn lemma_corrected_at(s: Seq<Instr>, k: int)
    requires
        0 <= k < s.len(),
        s[k].kind.spec_is_diverging(),
        forall|j: int| 0 <= j < k ==> !(#[trigger] s[j]).kind.spec_is_diverging(),
    ensures
        corrected(s) == s.take(k + 1),
    decreases k,
{
    if k > 0 {
        let d = s.drop_first();
        assert forall|j: int| 0 <= j < k - 1 implies !(#[trigger] d[j]).kind.spec_is_diverging() by {
            assert(d[j] == s[j + 1]);
        }
        lemma_corrected_at(d, k - 1);
        assert(seq![s[0]] + d.take(k) =~= s.take(k + 1));
    }
}

/// With no diverging instruction the body is unchanged.
pub proof fn lemma_corrected_none(s: Seq<Instr>)
    requires
        forall|j: int| 0 <= j < s.len() ==> !(#[trigger] s[j]).kind.spec_is_diverging(),
    ensures
        corrected(s) == s,
    decreases s.len(),
{
    if s.len() > 0 {
        let d = s.drop_first();
        assert forall|j: int| 0 <= j < d.len() implies !(#[trigger] d[j]).kind.spec_is_diverging() by {
            assert(d[j] == s[j + 1]);
        }
        lemma_corrected_none(d);
        assert(seq![s[0]] + d =~= s);
    }
}

/// Correcting a corrected body changes nothing.
pub proof fn lemma_corrected_idempotent(s: Seq<Instr>)
    ensures
        corrected(corrected(s)) == corrected(s),
    decreases s.len(),
{
    if s.len() > 0 {
        if s[0].kind.spec_is_diverging() {
            assert(corrected(s).drop_first() =~= Seq::<Instr>::empty());
        } else {
            let d = s.drop_first();
            lemma_corrected_idempotent(d);
            let c = corrected(s);
            assert(c[0] == s[0]);
            assert(c.drop_first() =~= corrected(d));
        }
    }
}

/// Running the correction pass twice gives the function that one run gives.
pub proof fn lemma_correction_idempotent(f0: Function, f1: Function, f2: Function)
    requires
        function_corrected(f0, f1),
        function_corrected(f1, f2),
    ensures
        f2.blocks@.len() == f1.blocks@.len(),
        forall|b: int| 0 <= b < f2.blocks@.len() ==> (#[trigger] f2.blocks@[b]).body@ == f1.blocks@[b].body@,
        forall|b: int| 0 <= b < f2.blocks@.len() ==> block_corrected(f1.blocks@[b], #[trigger] f2.blocks@[b]),
{
    assert forall|b: int| 0 <= b < f2.blocks@.len() implies (#[trigger] f2.blocks@[b]).body@ == f1.blocks@[b].body@ by {
        assert(block_corrected(f0.blocks@[b], f1.blocks@[b]));
        assert(block_corrected(f1.blocks@[b], f2.blocks@[b]));
        lemma_corrected_idempotent(f0.blocks@[b].body@);
    }
}

pub struct CorrectionPass {}

/// What the correction pass learns before it mutates a function: nothing.
pub struct CorrectionPassMutationInfo {}

impl CorrectionPass {
    pub fn visit_function(&self, function: &Function) -> (r: CorrectionPassMutationInfo) {
        CorrectionPassMutationInfo {}
    }

    /// Cut every block just after its first diverging instruction.
    pub fn mutate_function(&self, function: &mut Function, info: CorrectionPassMutationInfo)
        ensures
            function_corrected(*old(function), *final(function)),
    {
        let ghost of = *function;
        let mut b: usize = 0;
        while b < function.blocks.len()
            invariant
                b <= function.blocks@.len(),
                function.blocks@.len() == of.blocks@.len(),
                function.name == of.name && function.ty == of.ty && function.args == of.args && function.rets == of.rets
                    && function.all_locals_types == of.all_locals_types && function.idx == of.idx,
                forall|k: int| 0 <= k < b ==> block_corrected(of.blocks@[k], #[trigger] function.blocks@[k]),
                forall|k: int| b <= k < function.blocks@.len() ==> #[trigger] function.blocks@[k] == of.blocks@[k],
            decreases function.blocks@.len() - b,
        {
            let mut n: usize = 0;
            let len = function.blocks[b].body.len();
            while n < len && !function.blocks[b].body[n].is_diverging()
                invariant
                    b < function.blocks@.len(),
                    len == function.blocks@[b as int].body@.len(),
                    n <= len,
                    function.blocks@[b as int] == of.blocks@[b as int],
                    forall|j: int| 0 <= j < n ==> !(#[trigger] function.blocks@[b as int].body@[j]).kind.spec_is_diverging(),
                decreases len - n,
            {
                n = n + 1;
            }
            let found = n < len;
            proof {
                if found {
                    lemma_corrected_at(of.blocks@[b as int].body@, n as int);
                } else {
                    lemma_corrected_none(of.blocks@[b as int].body@);
                }
            }
            if found {
                function.blocks[b].body.truncate(n + 1);
            }
            proof {
                if !found {
                    assert(function.blocks@[b as int].body@ == of.blocks@[b as int].body@);
                }
            }
            b = b + 1;
        }
    }
}

} // verus!
