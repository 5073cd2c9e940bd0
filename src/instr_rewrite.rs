//! The instruction splice pass: replaces non-overlapping index ranges of
//! blocks with new instructions, applying the last range first so that
//! earlier indices stay valid.
use vstd::prelude::*;
use bit_set::BitSet;
use crate::instr::{Function, Instr};
use crate::metadata::BlockId;

verus! {

/// A set of instruction indices, held in a `bit_set::BitSet`.
#[verifier::external_body]
pub struct IndexBitSet {
    inner: BitSet,
}

/// The members of an index set.
pub uninterp spec fn bitset_members(s: IndexBitSet) -> Set<usize>;

/// Relies on `BitSet::new`: the set starts empty.
#[verifier::external_body]
fn bitset_new() -> (r: IndexBitSet)
    ensures
        bitset_members(r) == Set::<usize>::empty(),
{
    IndexBitSet { inner: BitSet::new() }
}

/// Relies on `BitSet::insert`: adds `value`, and tells whether it was absent.
#[verifier::external_body]
fn bitset_insert(s: &mut IndexBitSet, value: usize) -> (r: bool)
    requires
        value < usize::MAX,
    ensures
        r == !bitset_members(*old(s)).contains(value),
        bitset_members(*final(s)) == bitset_members(*old(s)).insert(value),
{
    s.inner.insert(value)
}

/// One rewrite: the instructions at indices `start..end` are replaced by the given ones.
pub struct BlobRewriteData {
    pub start: usize,
    pub end: usize,
    pub instrs: Vec<Instr>,
}

/// A rewrite as a mathematical value.
pub type EditV = (nat, nat, Seq<Instr>);

pub open spec fn edit_view(e: BlobRewriteData) -> EditV {
    (e.start as nat, e.end as nat, e.instrs@)
}

pub open spec fn edits_view(es: Seq<BlobRewriteData>) -> Seq<EditV> {
    es.map_values(|e: BlobRewriteData| edit_view(e))
}

pub open spec fn covers(e: EditV, x: nat) -> bool {
    e.0 <= x < e.1
}

/// No index is covered by two rewrites.
pub open spec fn disjoint(es: Seq<EditV>) -> bool {
    forall|i: int, j: int, x: nat| 0 <= i < j < es.len() && #[trigger] covers(es[i], x) ==> !#[trigger] covers(es[j], x)
}

/// Ordered by start, last first.
pub open spec fn sorted_desc(es: Seq<EditV>) -> bool {
    forall|i: int, j: int| 0 <= i < j < es.len() ==> (#[trigger] es[i]).0 >= (#[trigger] es[j]).0
}

pub open spec fn splice(s: Seq<Instr>, e: EditV) -> Seq<Instr> {
    s.take(e.0 as int) + e.2 + s.skip(e.1 as int)
}

/// Apply the rewrites in order.
pub open spec fn apply_edits(s: Seq<Instr>, es: Seq<EditV>) -> Seq<Instr>
    decreases es.len(),
{
    if es.len() == 0 {
        s
    } else {
        apply_edits(splice(s, es[0]), es.drop_first())
    }
}

/// Each rewrite applied is within the body that it meets.
pub open spec fn edits_in_bounds(s: Seq<Instr>, es: Seq<EditV>) -> bool
    decreases es.len(),
{
    if es.len() == 0 {
        true
    } else {
        es[0].0 <= es[0].1 <= s.len() && edits_in_bounds(splice(s, es[0]), es.drop_first())
    }
}

/// Each rewrite ends where the previous one (applied before it) starts, or earlier.
pub open spec fn chained(es: Seq<EditV>) -> bool {
    forall|i: int| 0 <= i < es.len() - 1 ==> (#[trigger] es[i + 1]).1 <= es[i].0
}

/// The pass for one function: for each block, the rewrites to apply.
pub struct InstrRewritePass {
    pub target_function_idx: usize,
    pub modifications: Vec<(BlockId, Vec<BlobRewriteData>)>,
}

} // verus!

verus! {

broadcast use vstd::seq_lib::to_multiset_build, vstd::seq_lib::to_multiset_insert;

/// `a` comes no later than `b` in application order: larger start first, then larger end.
pub open spec fn key_ge(a: EditV, b: EditV) -> bool {
    a.0 > b.0 || (a.0 == b.0 && a.1 >= b.1)
}

pub open spec fn sorted_for_apply(es: Seq<EditV>) -> bool {
    forall|i: int, j: int| 0 <= i < j < es.len() ==> key_ge(#[trigger] es[i], #[trigger] es[j])
}

/// Starts strictly increase along the sequence.
pub open spec fn strictly_ascending(es: Seq<EditV>) -> bool {
    forall|i: int, j: int| 0 <= i < j < es.len() ==> (#[trigger] es[i]).0 < (#[trigger] es[j]).0
}

/// No block is named by two entries of a plan.
pub open spec fn distinct_blocks(mods: Seq<(BlockId, Vec<BlobRewriteData>)>) -> bool {
    forall|a: int, b: int| 0 <= a < b < mods.len() ==> (#[trigger] mods[a]).0 != (#[trigger] mods[b]).0
}

/// The rewrite plan of a block is well formed: no index covered twice.
pub fn check_disjoint(changes: &Vec<BlobRewriteData>) -> (r: bool)
    ensures
        r == disjoint(edits_view(changes@)),
{
    let ghost es = edits_view(changes@);
    let mut seen = bitset_new();
    let mut c: usize = 0;
    while c < changes.len()
        invariant
            c <= changes@.len(),
            es == edits_view(changes@),
            es.len() == changes@.len(),
            disjoint(es.take(c as int)),
            forall|x: usize| #[trigger] bitset_members(seen).contains(x) <==> exists|k: int| 0 <= k < c && covers(es[k], x as nat),
        decreases changes@.len() - c,
    {
        let start = changes[c].start;
        let end = changes[c].end;
        let mut idx: usize = start;
        assert(es[c as int] == edit_view(changes@[c as int]));
        while idx < end
            invariant
                c < changes@.len(),
                es == edits_view(changes@),
                es.len() == changes@.len(),
                start == es[c as int].0,
                end == es[c as int].1,
                start <= idx,
                idx <= end || idx == start,
                disjoint(es.take(c as int)),
                forall|k: int, x: nat| 0 <= k < c && start <= x < idx ==> !#[trigger] covers(es[k], x),
                forall|x: usize| #[trigger] bitset_members(seen).contains(x) <==> (exists|k: int| 0 <= k < c && covers(es[k], x as nat)) || (start <= x < idx),
            decreases end - idx,
        {
            let ghost old_seen = bitset_members(seen);
            assert(old_seen.contains(idx) <==> (exists|k: int| 0 <= k < c && covers(es[k], idx as nat)) || (start <= idx < idx));
            if !bitset_insert(&mut seen, idx) {
                proof {
                    let k = choose|k: int| 0 <= k < c && covers(es[k], idx as nat);
                    assert(covers(es[k], idx as nat) && covers(es[c as int], idx as nat));
                    assert(!disjoint(es)) by {
                        if disjoint(es) {
                            assert(!covers(es[c as int], idx as nat));
                        }
                    }
                }
                return false;
            }
            proof {
                assert forall|x: usize| #[trigger] bitset_members(seen).contains(x) <==> (exists|k: int| 0 <= k < c && covers(es[k], x as nat)) || (start <= x < idx + 1) by {
                    assert(old_seen.contains(x) <==> (exists|k: int| 0 <= k < c && covers(es[k], x as nat)) || (start <= x < idx));
                }
            }
            idx = idx + 1;
        }
        proof {
            let t = es.take(c + 1);
            assert forall|i: int, j: int, x: nat| 0 <= i < j < t.len() && #[trigger] covers(t[i], x) implies !#[trigger] covers(t[j], x) by {
                if j < c {
                    assert(t[i] == es.take(c as int)[i]);
                    assert(t[j] == es.take(c as int)[j]);
                } else {
                    assert(t[j] == es[c as int]);
                    assert(t[i] == es[i]);
                    if covers(t[j], x) {
                        assert(!covers(es[i], x));
                    }
                }
            }
            assert forall|x: usize| #[trigger] bitset_members(seen).contains(x) <==> exists|k: int| 0 <= k < c + 1 && covers(es[k], x as nat) by {
                if start <= x < idx {
                    assert(covers(es[c as int], x as nat));
                }
                if exists|k: int| 0 <= k < c + 1 && covers(es[k], x as nat) {
                    let k = choose|k: int| 0 <= k < c + 1 && covers(es[k], x as nat);
                    if k == c {
                        assert(start <= x < idx);
                    }
                }
            }
        }
        c = c + 1;
    }
    assert(es.take(c as int) =~= es);
    true
}

/// Order a block's rewrites for application: larger start first, then larger
/// end; rewrites with equal ranges keep their order.
pub fn sort_for_apply(changes: Vec<BlobRewriteData>) -> (r: Vec<BlobRewriteData>)
    ensures
        edits_view(r@).to_multiset() == edits_view(changes@).to_multiset(),
        sorted_for_apply(edits_view(r@)),
        r@.len() == changes@.len(),
        strictly_ascending(edits_view(changes@)) ==> edits_view(r@) == edits_view(changes@).reverse(),
{
    broadcast use vstd::multiset::group_multiset_axioms;
    let ghost orig = edits_view(changes@);
    let mut rest = changes;
    let mut out: Vec<BlobRewriteData> = Vec::new();
    proof {
        assert(edits_view(out@) =~= Seq::<EditV>::empty());
        Seq::<EditV>::empty().to_multiset_ensures();
        vstd::multiset::lemma_multiset_empty_len(Seq::<EditV>::empty().to_multiset());
        assert(Seq::<EditV>::empty().to_multiset() =~= vstd::multiset::Multiset::<EditV>::empty());
        assert(edits_view(out@).to_multiset().add(edits_view(rest@).to_multiset()) =~= orig.to_multiset());
    }
    while rest.len() > 0
        invariant
            edits_view(out@).to_multiset().add(edits_view(rest@).to_multiset()) == orig.to_multiset(),
            sorted_for_apply(edits_view(out@)),
            out@.len() + rest@.len() == orig.len(),
            edits_view(rest@) == orig.take(rest@.len() as int),
            strictly_ascending(orig) ==> forall|k: int| 0 <= k < out@.len() ==> #[trigger] edits_view(out@)[k] == orig[orig.len() - 1 - k],
        decreases rest@.len(),
    {
        let ghost before = rest@;
        let e = match rest.pop() {
            Some(e) => e,
            None => vstd::pervasive::unreached(),
        };
        proof {
            assert(edits_view(before)[before.len() - 1] == edit_view(e));
            assert(orig.take(before.len() as int)[before.len() - 1] == orig[rest@.len() as int]);
            assert(edit_view(e) == orig[rest@.len() as int]);
            assert(edits_view(rest@) =~= orig.take(rest@.len() as int));
            assert(edits_view(before) =~= edits_view(rest@).push(edit_view(e)));
            assert(edits_view(before).to_multiset() =~= edits_view(rest@).to_multiset().insert(edit_view(e)));
        }
        let mut j: usize = 0;
        while j < out.len() && !(out[j].start < e.start || (out[j].start == e.start && out[j].end <= e.end))
            invariant
                j <= out@.len(),
                forall|i: int| 0 <= i < j ==> !key_ge(edit_view(e), #[trigger] edits_view(out@)[i]) || (edits_view(out@)[i].0 == e.start && edits_view(out@)[i].1 > e.end),
                forall|i: int| 0 <= i < j ==> key_ge(#[trigger] edits_view(out@)[i], edit_view(e)),
            decreases out@.len() - j,
        {
            j = j + 1;
        }
        proof {
            if strictly_ascending(orig) && j < out@.len() {
                assert(edits_view(out@)[j as int] == orig[orig.len() - 1 - j]);
                assert(orig.len() - 1 - j > rest@.len());
            }
        }
        let ghost ov = edits_view(out@);
        out.insert(j, e);
        proof {
            let nv = edits_view(out@);
            assert(nv =~= ov.insert(j as int, edit_view(e)));
            assert(nv.to_multiset() =~= ov.to_multiset().insert(edit_view(e)));
            assert(nv.to_multiset().add(edits_view(rest@).to_multiset()) =~= orig.to_multiset());
            assert forall|a: int, b: int| 0 <= a < b < nv.len() implies key_ge(#[trigger] nv[a], #[trigger] nv[b]) by {
                if b < j {
                } else if b == j {
                } else if a < j {
                    assert(nv[b] == ov[b - 1]);
                    if j < ov.len() {
                        assert(key_ge(ov[j as int], ov[b - 1]) || j == b - 1);
                    }
                } else if a == j {
                    assert(nv[b] == ov[b - 1]);
                    assert(key_ge(ov[j as int], ov[b - 1]) || j == b - 1);
                } else {
                    assert(nv[a] == ov[a - 1]);
                    assert(nv[b] == ov[b - 1]);
                }
            }
        }
    }
    proof {
        if strictly_ascending(orig) {
            assert(edits_view(out@) =~= orig.reverse());
        }
        assert(edits_view(rest@) =~= Seq::<EditV>::empty());
        Seq::<EditV>::empty().to_multiset_ensures();
        vstd::multiset::lemma_multiset_empty_len(Seq::<EditV>::empty().to_multiset());
        assert(Seq::<EditV>::empty().to_multiset() =~= vstd::multiset::Multiset::<EditV>::empty());
        assert(edits_view(out@).to_multiset() =~= edits_view(out@).to_multiset().add(edits_view(rest@).to_multiset()));
    }
    out
}

} // verus!

verus! {

/// Applying the rewrites of a block: each range lies within the body it
/// meets and the result stays addressable.
pub open spec fn edits_fit(s: Seq<Instr>, es: Seq<EditV>) -> bool
    decreases es.len(),
{
    if es.len() == 0 {
        true
    } else {
        es[0].0 <= es[0].1 <= s.len() && splice(s, es[0]).len() <= usize::MAX && edits_fit(splice(s, es[0]), es.drop_first())
    }
}

pub type PlanV = Seq<(BlockId, Seq<EditV>)>;

pub open spec fn plan_view(mods: Seq<(BlockId, Vec<BlobRewriteData>)>) -> PlanV {
    mods.map_values(|m: (BlockId, Vec<BlobRewriteData>)| (m.0, edits_view(m.1@)))
}

/// The bodies after applying each block's rewrites in turn, or `None` if a
/// block id or a range does not fit.
pub open spec fn apply_plan(bodies: Seq<Seq<Instr>>, plan: PlanV) -> Option<Seq<Seq<Instr>>>
    decreases plan.len(),
{
    if plan.len() == 0 {
        Some(bodies)
    } else {
        let b = plan[0].0.0;
        if b >= bodies.len() || !edits_fit(bodies[b as int], plan[0].1) {
            None
        } else {
            apply_plan(bodies.update(b as int, apply_edits(bodies[b as int], plan[0].1)), plan.drop_first())
        }
    }
}

pub open spec fn bodies_of(f: Function) -> Seq<Seq<Instr>> {
    f.blocks@.map_values(|b: crate::instr::InstrBlock| b.body@)
}

/// Splicing with an empty plan changes nothing.
pub proof fn lemma_empty_plan(bodies: Seq<Seq<Instr>>)
    ensures
        apply_plan(bodies, Seq::empty()) == Some(bodies),
{
}

/// Rewrites that stay inside `u` leave what follows `u` untouched.
pub proof fn lemma_apply_prefix(u: Seq<Instr>, v: Seq<Instr>, es: Seq<EditV>)
    requires
        chained(es),
        es.len() > 0 ==> es[0].0 <= es[0].1 <= u.len(),
        forall|i: int| 0 <= i < es.len() ==> (#[trigger] es[i]).0 <= es[i].1,
    ensures
        apply_edits(u + v, es) == apply_edits(u, es) + v,
    decreases es.len(),
{
    if es.len() > 0 {
        let e = es[0];
        assert(splice(u + v, e) =~= splice(u, e) + v);
        let rest = es.drop_first();
        assert forall|i: int| 0 <= i < rest.len() - 1 implies (#[trigger] rest[i + 1]).1 <= rest[i].0 by {
            assert(rest[i + 1] == es[i + 2]);
            assert(rest[i] == es[i + 1]);
        }
        if rest.len() > 0 {
            assert(rest[0] == es[1]);
        }
        lemma_apply_prefix(splice(u, e), v, rest);
    }
}

/// The splice law: when each rewrite ends where the one applied before it
/// starts, or earlier, applying them keeps every instruction after the first
/// rewrite's range as it was, metadata included, and so on for each rewrite.
pub proof fn lemma_splice_preserves(s: Seq<Instr>, es: Seq<EditV>)
    requires
        es.len() > 0,
        chained(es),
        es[0].1 <= s.len(),
        forall|i: int| 0 <= i < es.len() ==> (#[trigger] es[i]).0 <= es[i].1,
    ensures
        apply_edits(s, es) == apply_edits(s.take(es[0].0 as int), es.drop_first()) + es[0].2 + s.skip(es[0].1 as int),
{
    let e = es[0];
    let rest = es.drop_first();
    let u = s.take(e.0 as int);
    let v = e.2 + s.skip(e.1 as int);
    assert(splice(s, e) =~= u + v);
    assert forall|i: int| 0 <= i < rest.len() - 1 implies (#[trigger] rest[i + 1]).1 <= rest[i].0 by {
        assert(rest[i + 1] == es[i + 2]);
        assert(rest[i] == es[i + 1]);
    }
    if rest.len() > 0 {
        assert(rest[0] == es[1]);
    }
    lemma_apply_prefix(u, v, rest);
    assert(apply_edits(u, rest) + v =~= apply_edits(u, rest) + e.2 + s.skip(e.1 as int));
}

fn copy_instrs(s: &Vec<Instr>, from: usize, to: usize, out: &mut Vec<Instr>)
    requires
        from <= to <= s@.len(),
    ensures
        final(out)@ == old(out)@ + s@.subrange(from as int, to as int),
{
    let mut i: usize = from;
    while i < to
        invariant
            from <= i <= to,
            to <= s@.len(),
            out@ == old(out)@ + s@.subrange(from as int, i as int),
        decreases to - i,
    {
        out.push(s[i].duplicate());
        i = i + 1;
        assert(old(out)@ + s@.subrange(from as int, i as int) =~= (old(out)@ + s@.subrange(from as int, i - 1)).push(s@[i - 1]));
    }
}

/// `s` with `start..end` replaced by `new`.
pub fn splice_vec(s: &Vec<Instr>, start: usize, end: usize, new: &Vec<Instr>) -> (r: Vec<Instr>)
    requires
        start <= end <= s@.len(),
    ensures
        r@ == splice(s@, (start as nat, end as nat, new@)),
{
    let mut out: Vec<Instr> = Vec::new();
    copy_instrs(s, 0, start, &mut out);
    copy_instrs(new, 0, new.len(), &mut out);
    copy_instrs(s, end, s.len(), &mut out);
    assert(out@ =~= splice(s@, (start as nat, end as nat, new@)));
    out
}

impl InstrRewritePass {
    /// A rewrite pass for one function. Fails if two ranges of a block cover
    /// the same index, or if two entries name the same block; otherwise each
    /// block's rewrites are ordered for application, last range first.
    pub fn new(target_function_idx: usize, modifications: Vec<(BlockId, Vec<BlobRewriteData>)>) -> (r: Result<InstrRewritePass, ()>)
        ensures
            r is Ok <==> (forall|b: int| 0 <= b < modifications@.len() ==> disjoint(edits_view((#[trigger] modifications@[b]).1@)))
                && distinct_blocks(modifications@),
            r matches Ok(p) ==> p.target_function_idx == target_function_idx
                && p.modifications@.len() == modifications@.len()
                && forall|b: int| 0 <= b < modifications@.len() ==> {
                    &&& (#[trigger] p.modifications@[b]).0 == modifications@[b].0
                    &&& edits_view(p.modifications@[b].1@).to_multiset() == edits_view(modifications@[b].1@).to_multiset()
                    &&& sorted_for_apply(edits_view(p.modifications@[b].1@))
                    &&& strictly_ascending(edits_view(modifications@[b].1@)) ==> edits_view(p.modifications@[b].1@) == edits_view(modifications@[b].1@).reverse()
                },
    {
        let mut b: usize = 0;
        while b < modifications.len()
            invariant
                b <= modifications@.len(),
                forall|k: int| 0 <= k < b ==> disjoint(edits_view((#[trigger] modifications@[k]).1@)),
            decreases modifications@.len() - b,
        {
            if !check_disjoint(&modifications[b].1) {
                return Err(());
            }
            b = b + 1;
        }
        let mut a: usize = 0;
        while a < modifications.len()
            invariant
                a <= modifications@.len(),
                forall|k: int| 0 <= k < modifications@.len() ==> disjoint(edits_view((#[trigger] modifications@[k]).1@)),
                forall|x: int, y: int| 0 <= x < y < modifications@.len() && x < a ==> (#[trigger] modifications@[x]).0 != (#[trigger] modifications@[y]).0,
            decreases modifications@.len() - a,
        {
            let mut c: usize = a + 1;
            while c < modifications.len()
                invariant
                    a < c <= modifications@.len(),
                    forall|y: int| a < y < c ==> modifications@[a as int].0 != (#[trigger] modifications@[y]).0,
                decreases modifications@.len() - c,
            {
                if modifications[a].0 == modifications[c].0 {
                    assert(!distinct_blocks(modifications@)) by {
                        assert(modifications@[a as int].0 == modifications@[c as int].0);
                    }
                    return Err(());
                }
                c = c + 1;
            }
            a = a + 1;
        }
        let ghost orig = modifications@;
        let mut rest = modifications;
        let mut out: Vec<(BlockId, Vec<BlobRewriteData>)> = Vec::new();
        while rest.len() > 0
            invariant
                rest@.len() + out@.len() == orig.len(),
                rest@ == orig.take(rest@.len() as int),
                forall|k: int| 0 <= k < out@.len() ==> {
                    let o = orig[rest@.len() + k];
                    &&& (#[trigger] out@[k]).0 == o.0
                    &&& edits_view(out@[k].1@).to_multiset() == edits_view(o.1@).to_multiset()
                    &&& sorted_for_apply(edits_view(out@[k].1@))
                    &&& strictly_ascending(edits_view(o.1@)) ==> edits_view(out@[k].1@) == edits_view(o.1@).reverse()
                },
            decreases rest@.len(),
        {
            let ghost before = rest@;
            let (id, changes) = match rest.pop() {
                Some(x) => x,
                None => vstd::pervasive::unreached(),
            };
            assert(before.last() == orig[rest@.len() as int]);
            assert(rest@ =~= orig.take(rest@.len() as int));
            let sorted = sort_for_apply(changes);
            let ghost prev = out@;
            out.insert(0, (id, sorted));
            proof {
                assert forall|k: int| 0 <= k < out@.len() implies {
                    let o = orig[rest@.len() + k];
                    &&& (#[trigger] out@[k]).0 == o.0
                    &&& edits_view(out@[k].1@).to_multiset() == edits_view(o.1@).to_multiset()
                    &&& sorted_for_apply(edits_view(out@[k].1@))
                    &&& strictly_ascending(edits_view(o.1@)) ==> edits_view(out@[k].1@) == edits_view(o.1@).reverse()
                } by {
                    if k > 0 {
                        assert(out@[k] == prev[k - 1]);
                    }
                }
            }
        }
        Ok(InstrRewritePass { target_function_idx, modifications: out })
    }

    /// Check that every block the plan names exists in the target function.
    pub fn visit_function(&self, function: &Function) -> (r: Result<(), ()>)
        ensures
            r is Ok <==> (function.idx == self.target_function_idx ==> forall|b: int| 0 <= b < self.modifications@.len() ==> (#[trigger] self.modifications@[b]).0.0 < function.blocks@.len()),
    {
        if function.idx != self.target_function_idx {
            return Ok(());
        }
        let mut b: usize = 0;
        while b < self.modifications.len()
            invariant
                b <= self.modifications@.len(),
                function.idx == self.target_function_idx,
                forall|k: int| 0 <= k < b ==> (#[trigger] self.modifications@[k]).0.0 < function.blocks@.len(),
            decreases self.modifications@.len() - b,
        {
            if function.get_block(self.modifications[b].0).is_none() {
                assert(!(self.modifications@[b as int].0.0 < function.blocks@.len()));
                return Err(());
            }
            b = b + 1;
        }
        Ok(())
    }
}

} // verus!

verus! {

pub open spec fn bview(bodies: Seq<Vec<Instr>>) -> Seq<Seq<Instr>> {
    bodies.map_values(|v: Vec<Instr>| v@)
}

/// What is left of the plan once `es` remain for block `b` and `rest` for later blocks.
pub open spec fn finish_entry(bodies: Seq<Seq<Instr>>, b: int, es: Seq<EditV>, rest: PlanV) -> Option<Seq<Seq<Instr>>> {
    if edits_fit(bodies[b], es) {
        apply_plan(bodies.update(b, apply_edits(bodies[b], es)), rest)
    } else {
        None
    }
}

impl InstrRewritePass {
    /// Apply the plan to the target function. If a block id or a range does
    /// not fit, the function is left as it was and the result is an error.
    pub fn mutate_function(&self, function: &mut Function) -> (r: Result<(), ()>)
        ensures
            old(function).idx != self.target_function_idx ==> r is Ok && *final(function) == *old(function),
            old(function).idx == self.target_function_idx ==> match apply_plan(bodies_of(*old(function)), plan_view(self.modifications@)) {
                None => r is Err && *final(function) == *old(function),
                Some(nb) => r is Ok && bodies_of(*final(function)) == nb
                    && final(function).name == old(function).name && final(function).ty == old(function).ty
                    && final(function).args == old(function).args && final(function).rets == old(function).rets
                    && final(function).all_locals_types == old(function).all_locals_types && final(function).idx == old(function).idx
                    && final(function).blocks@.len() == old(function).blocks@.len()
                    && forall|b: int| 0 <= b < final(function).blocks@.len() ==> {
                        let nb2 = #[trigger] final(function).blocks@[b];
                        let ob = old(function).blocks@[b];
                        nb2.idx == ob.idx && nb2.tag == ob.tag && nb2.block_ty == ob.block_ty && nb2.rets == ob.rets && nb2.meta == ob.meta
                    },
            },
    {
        if function.idx != self.target_function_idx {
            return Ok(());
        }
        let ghost plan = plan_view(self.modifications@);
        let ghost goal = apply_plan(bodies_of(*function), plan);
        let n = function.blocks.len();
        let mut bodies: Vec<Vec<Instr>> = Vec::new();
        let mut k: usize = 0;
        while k < n
            invariant
                k <= n,
                n == function.blocks@.len(),
                *function == *old(function),
                bodies@.len() == k,
                forall|j: int| 0 <= j < k ==> (#[trigger] bodies@[j])@ == function.blocks@[j].body@,
            decreases n - k,
        {
            let mut copy: Vec<Instr> = Vec::new();
            copy_instrs(&function.blocks[k].body, 0, function.blocks[k].body.len(), &mut copy);
            assert(copy@ =~= function.blocks@[k as int].body@);
            bodies.push(copy);
            k = k + 1;
        }
        assert(bview(bodies@) =~= bodies_of(*function));
        let mut m: usize = 0;
        assert(plan.skip(0) =~= plan);
        while m < self.modifications.len()
            invariant
                m <= self.modifications@.len(),
                plan == plan_view(self.modifications@),
                bodies@.len() == n,
                n == function.blocks@.len(),
                *function == *old(function),
                function.idx == self.target_function_idx,
                goal == apply_plan(bodies_of(*old(function)), plan),
                goal == apply_plan(bview(bodies@), plan.skip(m as int)),
            decreases self.modifications@.len() - m,
        {
            let bid = self.modifications[m].0.0;
            let edits = &self.modifications[m].1;
            let ghost es = edits_view(edits@);
            proof {
                assert(plan.skip(m as int)[0] == plan[m as int]);
                assert(plan.skip(m as int).drop_first() =~= plan.skip(m + 1));
            }
            if bid >= bodies.len() {
                return Err(());
            }
            let mut e: usize = 0;
            assert(es.skip(0) =~= es);
            while e < edits.len()
                invariant
                    e <= edits@.len(),
                    bid < bodies@.len(),
                    bodies@.len() == n,
                    *function == *old(function),
                    function.idx == self.target_function_idx,
                    goal == apply_plan(bodies_of(*old(function)), plan),
                    plan == plan_view(self.modifications@),
                    es == edits_view(edits@),
                    goal == finish_entry(bview(bodies@), bid as int, es.skip(e as int), plan.skip(m + 1)),
                decreases edits@.len() - e,
            {
                let start = edits[e].start;
                let end = edits[e].end;
                proof {
                    assert(es.skip(e as int)[0] == es[e as int]);
                    assert(es.skip(e as int).drop_first() =~= es.skip(e + 1));
                    assert(es[e as int] == edit_view(edits@[e as int]));
                }
                let cur_len = bodies[bid].len();
                assert(bview(bodies@)[bid as int] == bodies@[bid as int]@);
                if !(start <= end && end <= cur_len) {
                    assert(!edits_fit(bview(bodies@)[bid as int], es.skip(e as int)));
                    return Err(());
                }
                let kept = cur_len - (end - start);
                if edits[e].instrs.len() > usize::MAX - kept {
                    assert(splice(bview(bodies@)[bid as int], es[e as int]).len() == kept + edits@[e as int].instrs@.len());
                    assert(!edits_fit(bview(bodies@)[bid as int], es.skip(e as int)));
                    return Err(());
                }
                let new_body = splice_vec(&bodies[bid], start, end, &edits[e].instrs);
                let ghost before = bview(bodies@);
                bodies[bid] = new_body;
                proof {
                    let sp = splice(before[bid as int], es[e as int]);
                    let tail = es.skip(e + 1);
                    assert(bview(bodies@) =~= before.update(bid as int, sp));
                    assert(bview(bodies@)[bid as int] == sp);
                    assert(sp.len() == kept + edits@[e as int].instrs@.len());
                    assert(bview(bodies@).update(bid as int, apply_edits(sp, tail)) =~= before.update(bid as int, apply_edits(sp, tail)));
                }
                e = e + 1;
            }
            proof {
                assert(es.skip(e as int) =~= Seq::<EditV>::empty());
                assert(bview(bodies@).update(bid as int, bview(bodies@)[bid as int]) =~= bview(bodies@));
            }
            m = m + 1;
        }
        assert(plan.skip(m as int) =~= Seq::<(BlockId, Seq<EditV>)>::empty());
        let ghost of = *function;
        assert forall|j: int| 0 <= j < n implies (#[trigger] bodies@[j])@ == goal->Some_0[j] by {
            assert(bview(bodies@)[j] == bodies@[j]@);
        }
        let mut b: usize = 0;
        while b < n
            invariant
                b <= n,
                n == function.blocks@.len(),
                bodies@.len() == n,
                goal is Some,
                of.blocks@.len() == n,
                of == *old(function),
                goal == apply_plan(bodies_of(*old(function)), plan),
                plan == plan_view(self.modifications@),
                function.name == of.name && function.ty == of.ty && function.args == of.args && function.rets == of.rets
                    && function.all_locals_types == of.all_locals_types && function.idx == of.idx,
                forall|j: int| 0 <= j < n ==> {
                    let nb2 = #[trigger] function.blocks@[j];
                    let ob = of.blocks@[j];
                    nb2.idx == ob.idx && nb2.tag == ob.tag && nb2.block_ty == ob.block_ty && nb2.rets == ob.rets && nb2.meta == ob.meta
                },
                forall|j: int| 0 <= j < b ==> (#[trigger] function.blocks@[j]).body@ == goal->Some_0[j],
                forall|j: int| b <= j < n ==> (#[trigger] bodies@[j])@ == goal->Some_0[j],
            decreases n - b,
        {
            let mut tmp: Vec<Instr> = Vec::new();
            std::mem::swap(&mut tmp, &mut bodies[b]);
            function.blocks[b].body = tmp;
            b = b + 1;
        }
        assert(bodies_of(*function) =~= goal->Some_0);
        Ok(())
    }
}

} // verus!

verus! {

/// Non-empty rewrites that cover no index twice, once ordered for
/// application, each end where the one applied before them starts, or earlier.
pub proof fn lemma_ordered_disjoint_chained(es: Seq<EditV>)
    requires
        sorted_for_apply(es),
        disjoint(es),
        forall|i: int| 0 <= i < es.len() ==> (#[trigger] es[i]).0 < es[i].1,
    ensures
        chained(es),
{
    assert forall|i: int| 0 <= i < es.len() - 1 implies (#[trigger] es[i + 1]).1 <= es[i].0 by {
        assert(key_ge(es[i], es[i + 1]));
        assert(es[i].0 < es[i].1);
        if es[i + 1].1 > es[i].0 {
            let x = es[i].0;
            assert(covers(es[i], x));
            assert(covers(es[i + 1], x));
        }
    }
}

} // verus!
