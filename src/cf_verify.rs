//! Control-flow verification: every block is referenced from at most one
//! place, referenced blocks carry the tag their use demands, and each block
//! learns its distance to the innermost enclosing loop.
use vstd::prelude::*;
use crate::instr::{BlockTag, Function, Instr, InstrBlock, InstrK};
use crate::metadata::BlockId;

verus! {

#[derive(PartialEq, Eq, Structural, Clone, Copy, Debug)]
pub enum ControlFlowVerifierError {
    MultipleParents { block: BlockId, parent: BlockId, other_parent: BlockId },
    InvalidBlockTag { block: BlockId, expected: BlockTag, actual: BlockTag },
    /// A block id that names no block of the function.
    InvalidBlockId { block: BlockId },
    /// A block whose chain of parents does not lead to the entry block: no
    /// instruction refers to it, or it lies on a cycle of blocks.
    UnreachableBlock { block: BlockId },
}

/// A reference from `parent` to `child`, which must carry the tag `expected`.
pub type Edge = (BlockId, BlockId, BlockTag);

pub open spec fn instr_edges(i: Instr, this: BlockId) -> Seq<Edge> {
    match i.kind {
        InstrK::IfElse { then, else_ } => match else_ {
            Some(e) => seq![(then, this, BlockTag::IfElse), (e, this, BlockTag::IfElse)],
            None => seq![(then, this, BlockTag::IfElse)],
        },
        InstrK::Loop(c) => seq![(c, this, BlockTag::Loop)],
        _ => Seq::empty(),
    }
}

/// The references made by the instructions `s` of block `this`, in order.
pub open spec fn body_edges(s: Seq<Instr>, this: BlockId) -> Seq<Edge>
    decreases s.len(),
{
    if s.len() == 0 {
        Seq::empty()
    } else {
        body_edges(s.drop_last(), this) + instr_edges(s.last(), this)
    }
}

/// The references made by the blocks `bs`, in block order.
pub open spec fn blocks_edges(bs: Seq<InstrBlock>) -> Seq<Edge>
    decreases bs.len(),
{
    if bs.len() == 0 {
        Seq::empty()
    } else {
        blocks_edges(bs.drop_last()) + body_edges(bs.last().body@, bs.last().idx)
    }
}

pub open spec fn tags_of(f: Function) -> Seq<BlockTag> {
    f.blocks@.map_values(|b: InstrBlock| b.tag)
}

/// Register one reference.
pub open spec fn edge_step(tags: Seq<BlockTag>, st: Result<Seq<Option<BlockId>>, ControlFlowVerifierError>, e: Edge) -> Result<Seq<Option<BlockId>>, ControlFlowVerifierError> {
    match st {
        Err(x) => Err(x),
        Ok(ps) => {
            let c = e.0;
            if c.0 >= tags.len() || c.0 >= ps.len() {
                Err(ControlFlowVerifierError::InvalidBlockId { block: c })
            } else if ps[c.0 as int] is Some {
                Err(ControlFlowVerifierError::MultipleParents { block: c, parent: ps[c.0 as int]->Some_0, other_parent: e.1 })
            } else if tags[c.0 as int] != e.2 {
                Err(ControlFlowVerifierError::InvalidBlockTag { block: c, expected: e.2, actual: tags[c.0 as int] })
            } else {
                Ok(ps.update(c.0 as int, Some(e.1)))
            }
        },
    }
}

pub open spec fn apply_edges(tags: Seq<BlockTag>, es: Seq<Edge>, init: Result<Seq<Option<BlockId>>, ControlFlowVerifierError>) -> Result<Seq<Option<BlockId>>, ControlFlowVerifierError>
    decreases es.len(),
{
    if es.len() == 0 {
        init
    } else {
        edge_step(tags, apply_edges(tags, es.drop_last(), init), es.last())
    }
}

pub open spec fn no_parents(n: nat) -> Seq<Option<BlockId>> {
    Seq::new(n, |_i: int| None::<BlockId>)
}

/// Phase one: the parent of each block, or the first violation.
pub open spec fn spec_parents(f: Function) -> Result<Seq<Option<BlockId>>, ControlFlowVerifierError> {
    let tags = tags_of(f);
    if tags[0] != BlockTag::Main {
        Err(ControlFlowVerifierError::InvalidBlockTag { block: BlockId(0), expected: BlockTag::Main, actual: tags[0] })
    } else {
        match apply_edges(tags, blocks_edges(f.blocks@), Ok(no_parents(tags.len()))) {
            Err(e) => Err(e),
            Ok(ps) => if ps[0] is Some {
                Err(ControlFlowVerifierError::MultipleParents { block: BlockId(0), parent: BlockId(0), other_parent: ps[0]->Some_0 })
            } else {
                match check_reach(ps, 1) {
                    Err(e) => Err(e),
                    Ok(()) => Ok(ps),
                }
            },
        }
    }
}

/// Following parents from block `b` leads to the entry block within `fuel` steps.
pub open spec fn reaches_entry(ps: Seq<Option<BlockId>>, b: nat, fuel: nat) -> bool
    decreases fuel,
{
    if b == 0 {
        true
    } else if fuel == 0 || b >= ps.len() {
        false
    } else {
        match ps[b as int] {
            None => false,
            Some(p) => reaches_entry(ps, p.0 as nat, (fuel - 1) as nat),
        }
    }
}

/// Blocks `k..` all lead to the entry block; otherwise the first that does not.
pub open spec fn check_reach(ps: Seq<Option<BlockId>>, k: int) -> Result<(), ControlFlowVerifierError>
    decreases ps.len() - k,
{
    if k >= ps.len() || k < 0 {
        Ok(())
    } else if !reaches_entry(ps, k as nat, ps.len()) {
        Err(ControlFlowVerifierError::UnreachableBlock { block: BlockId(k as usize) })
    } else {
        check_reach(ps, k + 1)
    }
}

pub proof fn lemma_check_reach(ps: Seq<Option<BlockId>>, k: int)
    requires
        0 <= k,
        check_reach(ps, k) is Ok,
    ensures
        forall|b: int| k <= b < ps.len() ==> #[trigger] reaches_entry(ps, b as nat, ps.len()),
    decreases ps.len() - k,
{
    if k < ps.len() {
        lemma_check_reach(ps, k + 1);
    }
}

/// Walk up from `cur` through `IfElse` blocks until a `Loop` block, counting
/// the blocks passed; at most `fuel` steps.
pub open spec fn walk(tags: Seq<BlockTag>, ps: Seq<Option<BlockId>>, cur: nat, d: nat, fuel: nat) -> Option<nat>
    decreases fuel,
{
    if fuel == 0 || cur >= ps.len() {
        None
    } else {
        match ps[cur as int] {
            None => None,
            Some(p) => if p.0 >= tags.len() {
                None
            } else if tags[p.0 as int] == BlockTag::Loop {
                Some(d)
            } else if tags[p.0 as int] == BlockTag::IfElse {
                walk(tags, ps, p.0 as nat, d + 1, (fuel - 1) as nat)
            } else {
                None
            },
        }
    }
}

/// Phase two: the innermost loop distance of block `b`.
pub open spec fn spec_depth(tags: Seq<BlockTag>, ps: Seq<Option<BlockId>>, b: int) -> Option<nat> {
    if tags[b] == BlockTag::Loop {
        Some(0)
    } else if tags[b] == BlockTag::IfElse {
        walk(tags, ps, b as nat, 1, tags.len())
    } else {
        None
    }
}

/// The `j`-th ancestor of block `b`, if the parent chain reaches that far.
pub open spec fn ancestor(ps: Seq<Option<BlockId>>, b: nat, j: nat) -> Option<nat>
    decreases j,
{
    if j == 0 {
        Some(b)
    } else {
        match ancestor(ps, b, (j - 1) as nat) {
            Some(c) => if c < ps.len() && ps[c as int] is Some {
                Some(ps[c as int]->Some_0.0 as nat)
            } else {
                None
            },
            None => None,
        }
    }
}

pub struct ControlFlowVerifier {}

/// What control-flow verification learns about a function.
pub struct ControlFlowVerifierData {
    /// The parent of each block, by block id.
    pub block_parents: Vec<Option<BlockId>>,
    /// The innermost loop distance of each block, by block id.
    pub innermost_loop_distances: Vec<Option<usize>>,
}

} // verus!

verus! {

pub open spec fn opt_nat(o: Option<usize>) -> Option<nat> {
    match o {
        Some(x) => Some(x as nat),
        None => None,
    }
}

/// Once an error is reached, later references do not change it.
pub proof fn lemma_apply_err(tags: Seq<BlockTag>, es: Seq<Edge>, x: ControlFlowVerifierError)
    ensures
        apply_edges(tags, es, Err(x)) == Err::<Seq<Option<BlockId>>, ControlFlowVerifierError>(x),
    decreases es.len(),
{
    if es.len() > 0 {
        lemma_apply_err(tags, es.drop_last(), x);
    }
}

/// Registering `a + b` is registering `a`, then `b`.
pub proof fn lemma_apply_concat(tags: Seq<BlockTag>, a: Seq<Edge>, b: Seq<Edge>, init: Result<Seq<Option<BlockId>>, ControlFlowVerifierError>)
    ensures
        apply_edges(tags, a + b, init) == apply_edges(tags, b, apply_edges(tags, a, init)),
    decreases b.len(),
{
    if b.len() == 0 {
        assert(a + b =~= a);
    } else {
        lemma_apply_concat(tags, a, b.drop_last(), init);
        assert((a + b).drop_last() =~= a + b.drop_last());
    }
}

impl ControlFlowVerifier {
    /// Register `child` as referenced from `parent`, requiring tag `expected`.
    fn assert_parent(&self, block_parents: &mut Vec<Option<BlockId>>, function: &Function, child: BlockId, parent: BlockId, expected: BlockTag) -> (r: Result<(), ControlFlowVerifierError>)
        requires
            old(block_parents)@.len() == function.blocks@.len(),
        ensures
            final(block_parents)@.len() == old(block_parents)@.len(),
            r is Err ==> final(block_parents)@ == old(block_parents)@,
            match edge_step(tags_of(*function), Ok(old(block_parents)@), (child, parent, expected)) {
                Ok(ps) => r is Ok && final(block_parents)@ == ps,
                Err(e) => r == Err::<(), ControlFlowVerifierError>(e),
            },
    {
        if child.0 >= function.blocks.len() {
            return Err(ControlFlowVerifierError::InvalidBlockId { block: child });
        }
        assert(tags_of(*function)[child.0 as int] == function.blocks@[child.0 as int].tag);
        if let Some(p) = block_parents[child.0] {
            return Err(ControlFlowVerifierError::MultipleParents { block: child, parent: p, other_parent: parent });
        }
        let actual = function.blocks[child.0].tag;
        if actual != expected {
            return Err(ControlFlowVerifierError::InvalidBlockTag { block: child, expected, actual });
        }
        block_parents[child.0] = Some(parent);
        Ok(())
    }

    fn register_instr(&self, block_parents: &mut Vec<Option<BlockId>>, function: &Function, instr: &Instr, this: BlockId) -> (r: Result<(), ControlFlowVerifierError>)
        requires
            old(block_parents)@.len() == function.blocks@.len(),
        ensures
            final(block_parents)@.len() == function.blocks@.len(),
            match apply_edges(tags_of(*function), instr_edges(*instr, this), Ok(old(block_parents)@)) {
                Ok(ps) => r is Ok && final(block_parents)@ == ps,
                Err(e) => r == Err::<(), ControlFlowVerifierError>(e),
            },
    {
        let ghost tags = tags_of(*function);
        let ghost init = Ok::<Seq<Option<BlockId>>, ControlFlowVerifierError>(old(block_parents)@);
        proof {
            reveal_with_fuel(apply_edges, 3);
        }
        match &instr.kind {
            InstrK::IfElse { then, else_ } => {
                let ghost e1 = (*then, this, BlockTag::IfElse);
                assert(seq![e1].drop_last() =~= Seq::<Edge>::empty());
                let r1 = self.assert_parent(block_parents, function, *then, this, BlockTag::IfElse);
                match else_ {
                    Some(e) => {
                        let ghost e2 = (*e, this, BlockTag::IfElse);
                        assert(seq![e1, e2].drop_last() =~= seq![e1]);
                        if r1.is_err() {
                            return r1;
                        }
                        self.assert_parent(block_parents, function, *e, this, BlockTag::IfElse)
                    },
                    None => r1,
                }
            },
            InstrK::Loop(c) => {
                assert(seq![(*c, this, BlockTag::Loop)].drop_last() =~= Seq::<Edge>::empty());
                self.assert_parent(block_parents, function, *c, this, BlockTag::Loop)
            },
            _ => Ok(()),
        }
    }

    /// Whether following parents from block `b` leads to the entry block within as many steps as there are blocks.
    fn reaches_entry_exec(ps: &Vec<Option<BlockId>>, b: usize) -> (r: bool)
        ensures
            r == reaches_entry(ps@, b as nat, ps@.len()),
    {
        let mut cur = b;
        let mut fuel = ps.len();
        while cur != 0
            invariant
                fuel <= ps@.len(),
                reaches_entry(ps@, b as nat, ps@.len()) == reaches_entry(ps@, cur as nat, fuel as nat),
            decreases fuel,
        {
            if fuel == 0 || cur >= ps.len() {
                return false;
            }
            match ps[cur] {
                None => return false,
                Some(p) => {
                    cur = p.0;
                    fuel = fuel - 1;
                },
            }
        }
        true
    }

    /// Walk up from an `IfElse` block to its innermost loop.
    fn loop_distance(&self, function: &Function, block_parents: &Vec<Option<BlockId>>, b: usize) -> (r: Option<usize>)
        requires
            block_parents@.len() == function.blocks@.len(),
            function.blocks@.len() < usize::MAX,
            b < function.blocks@.len(),
        ensures
            opt_nat(r) == walk(tags_of(*function), block_parents@, b as nat, 1, function.blocks@.len() as nat),
    {
        let ghost tags = tags_of(*function);
        let n = function.blocks.len();
        let mut d: usize = 1;
        let mut cur: usize = b;
        let mut fuel: usize = n;
        while fuel > 0 && cur < n
            invariant
                block_parents@.len() == n,
                n == function.blocks@.len(),
                n < usize::MAX,
                d + fuel == n + 1,
                tags == tags_of(*function),
                walk(tags, block_parents@, b as nat, 1, n as nat) == walk(tags, block_parents@, cur as nat, d as nat, fuel as nat),
            decreases fuel,
        {
            match block_parents[cur] {
                None => return None,
                Some(p) => {
                    if p.0 >= n {
                        return None;
                    }
                    assert(tags[p.0 as int] == function.blocks@[p.0 as int].tag);
                    let t = function.blocks[p.0].tag;
                    if t == BlockTag::Loop {
                        return Some(d);
                    } else if t == BlockTag::IfElse {
                        d = d + 1;
                        cur = p.0;
                        fuel = fuel - 1;
                    } else {
                        return None;
                    }
                },
            }
        }
        None
    }

    /// Compute each block's parent and innermost loop distance, or the first violation.
    pub fn visit_function(&self, function: &Function) -> (r: Result<ControlFlowVerifierData, ControlFlowVerifierError>)
        requires
            function.wf(),
            function.blocks@.len() < usize::MAX,
        ensures
            match spec_parents(*function) {
                Err(e) => r == Err::<ControlFlowVerifierData, ControlFlowVerifierError>(e),
                Ok(ps) => r matches Ok(d) && d.block_parents@ == ps
                    && d.block_parents@.len() == function.blocks@.len()
                    && d.innermost_loop_distances@.len() == function.blocks@.len()
                    && forall|b: int| 0 <= b < function.blocks@.len() ==> opt_nat(#[trigger] d.innermost_loop_distances@[b]) == spec_depth(tags_of(*function), ps, b),
            },
    {
        let ghost tags = tags_of(*function);
        let n = function.blocks.len();
        assert(tags[0] == function.blocks@[0].tag);
        if function.blocks[0].tag != BlockTag::Main {
            return Err(ControlFlowVerifierError::InvalidBlockTag { block: BlockId(0), expected: BlockTag::Main, actual: function.blocks[0].tag });
        }
        let mut ps: Vec<Option<BlockId>> = Vec::new();
        while ps.len() < n
            invariant
                ps@.len() <= n,
                n == function.blocks@.len(),
                forall|k: int| 0 <= k < ps@.len() ==> ps@[k] is None,
            decreases n - ps@.len(),
        {
            ps.push(None);
        }
        assert(ps@ =~= no_parents(n as nat));
        let ghost init = Ok::<Seq<Option<BlockId>>, ControlFlowVerifierError>(ps@);
        let ghost all = blocks_edges(function.blocks@);
        let mut b: usize = 0;
        assert(function.blocks@.take(0) =~= Seq::<InstrBlock>::empty());
        while b < n
            invariant
                b <= n,
                n == function.blocks@.len(),
                ps@.len() == n,
                tags == tags_of(*function),
                tags[0] == BlockTag::Main,
                init == Ok::<Seq<Option<BlockId>>, ControlFlowVerifierError>(no_parents(n as nat)),
                all == blocks_edges(function.blocks@),
                Ok::<Seq<Option<BlockId>>, ControlFlowVerifierError>(ps@) == apply_edges(tags, blocks_edges(function.blocks@.take(b as int)), init),
            decreases n - b,
        {
            let block = &function.blocks[b];
            let ghost pre = blocks_edges(function.blocks@.take(b as int));
            let mut i: usize = 0;
            assert(block.body@.take(0) =~= Seq::<Instr>::empty());
            assert(pre + body_edges(block.body@.take(0), block.idx) =~= pre);
            while i < block.body.len()
                invariant
                    i <= block.body@.len(),
                    b < n,
                    n == function.blocks@.len(),
                    ps@.len() == n,
                    block == &function.blocks@[b as int],
                    tags == tags_of(*function),
                    tags[0] == BlockTag::Main,
                    init == Ok::<Seq<Option<BlockId>>, ControlFlowVerifierError>(no_parents(n as nat)),
                    all == blocks_edges(function.blocks@),
                    pre == blocks_edges(function.blocks@.take(b as int)),
                    Ok::<Seq<Option<BlockId>>, ControlFlowVerifierError>(ps@) == apply_edges(tags, pre + body_edges(block.body@.take(i as int), block.idx), init),
                decreases block.body@.len() - i,
            {
                let ghost sofar = pre + body_edges(block.body@.take(i as int), block.idx);
                let ghost ie = instr_edges(block.body@[i as int], block.idx);
                proof {
                    assert(block.body@.take(i + 1).drop_last() =~= block.body@.take(i as int));
                    assert(pre + body_edges(block.body@.take(i + 1), block.idx) =~= sofar + ie);
                    lemma_apply_concat(tags, sofar, ie, init);
                }
                match self.register_instr(&mut ps, function, &block.body[i], block.idx) {
                    Err(e) => {
                        proof {
                            let rest_blocks = function.blocks@.skip(b + 1);
                            let tail = body_edges(block.body@.skip(i + 1), block.idx);
                            lemma_split_edges(function.blocks@, b as int, i + 1);
                            lemma_apply_concat(tags, sofar + ie, tail + blocks_edges_from(function.blocks@, b + 1), init);
                            lemma_apply_err(tags, tail + blocks_edges_from(function.blocks@, b + 1), e);
                        }
                        return Err(e);
                    },
                    Ok(()) => {},
                }
                i = i + 1;
            }
            proof {
                assert(block.body@.take(i as int) =~= block.body@);
                assert(function.blocks@.take(b + 1).drop_last() =~= function.blocks@.take(b as int));
            }
            b = b + 1;
        }
        proof {
            assert(function.blocks@.take(n as int) =~= function.blocks@);
        }
        if let Some(p) = ps[0] {
            return Err(ControlFlowVerifierError::MultipleParents { block: BlockId(0), parent: BlockId(0), other_parent: p });
        }
        let mut r: usize = 1;
        while r < n
            invariant
                1 <= r,
                n == ps@.len(),
                n == function.blocks@.len(),
                tags == tags_of(*function),
                tags[0] == BlockTag::Main,
                ps@[0] is None,
                Ok::<Seq<Option<BlockId>>, ControlFlowVerifierError>(ps@) == apply_edges(tags, blocks_edges(function.blocks@), Ok(no_parents(n as nat))),
                check_reach(ps@, 1) == check_reach(ps@, r as int),
            decreases n - r,
        {
            if !Self::reaches_entry_exec(&ps, r) {
                return Err(ControlFlowVerifierError::UnreachableBlock { block: BlockId(r) });
            }
            r = r + 1;
        }
        assert(spec_parents(*function) == Ok::<Seq<Option<BlockId>>, ControlFlowVerifierError>(ps@));
        let mut dists: Vec<Option<usize>> = Vec::new();
        let mut k: usize = 0;
        while k < n
            invariant
                k <= n,
                n == function.blocks@.len(),
                n < usize::MAX,
                ps@.len() == n,
                tags == tags_of(*function),
                spec_parents(*function) == Ok::<Seq<Option<BlockId>>, ControlFlowVerifierError>(ps@),
                dists@.len() == k,
                forall|j: int| 0 <= j < k ==> opt_nat(#[trigger] dists@[j]) == spec_depth(tags, ps@, j),
            decreases n - k,
        {
            assert(tags[k as int] == function.blocks@[k as int].tag);
            let t = function.blocks[k].tag;
            let dk = if t == BlockTag::Loop {
                Some(0usize)
            } else if t == BlockTag::IfElse {
                self.loop_distance(function, &ps, k)
            } else {
                None
            };
            dists.push(dk);
            k = k + 1;
        }
        Ok(ControlFlowVerifierData { block_parents: ps, innermost_loop_distances: dists })
    }
}

/// The references made by blocks `b..`, in block order.
pub open spec fn blocks_edges_from(bs: Seq<InstrBlock>, b: int) -> Seq<Edge>
    decreases bs.len() - b,
{
    if b >= bs.len() {
        Seq::empty()
    } else {
        body_edges(bs[b].body@, bs[b].idx) + blocks_edges_from(bs, b + 1)
    }
}

pub proof fn lemma_body_edges_split(s: Seq<Instr>, this: BlockId, i: int)
    requires
        0 <= i <= s.len(),
    ensures
        body_edges(s, this) == body_edges(s.take(i), this) + body_edges(s.skip(i), this),
    decreases s.len() - i,
{
    if i == s.len() {
        assert(s.take(i) =~= s);
        assert(s.skip(i) =~= Seq::<Instr>::empty());
        assert(body_edges(s, this) + Seq::<Edge>::empty() =~= body_edges(s, this));
    } else {
        lemma_body_edges_split(s, this, i + 1);
        let t = s.skip(i);
        lemma_body_edges_front(t, this);
        assert(t.drop_first() =~= s.skip(i + 1));
        assert(s.take(i + 1).drop_last() =~= s.take(i));
        assert(s.take(i + 1).last() == t[0]);
        assert(body_edges(s.take(i + 1), this) == body_edges(s.take(i), this) + instr_edges(t[0], this));
        assert(body_edges(s.take(i), this) + body_edges(t, this) =~= body_edges(s.take(i), this) + instr_edges(t[0], this) + body_edges(s.skip(i + 1), this));
    }
}

pub proof fn lemma_body_edges_front(t: Seq<Instr>, this: BlockId)
    requires
        t.len() > 0,
    ensures
        body_edges(t, this) == instr_edges(t[0], this) + body_edges(t.drop_first(), this),
    decreases t.len(),
{
    if t.len() == 1 {
        assert(t.drop_last() =~= Seq::<Instr>::empty());
        assert(t.drop_first() =~= Seq::<Instr>::empty());
        assert(body_edges(t, this) =~= instr_edges(t[0], this) + body_edges(t.drop_first(), this));
    } else {
        lemma_body_edges_front(t.drop_last(), this);
        assert(t.drop_last().drop_first() =~= t.drop_first().drop_last());
        assert(t.drop_first().last() == t.last());
        assert(body_edges(t, this) =~= instr_edges(t[0], this) + body_edges(t.drop_first(), this));
    }
}

pub proof fn lemma_blocks_edges_split(bs: Seq<InstrBlock>, b: int)
    requires
        0 <= b <= bs.len(),
    ensures
        blocks_edges(bs) == blocks_edges(bs.take(b)) + blocks_edges_from(bs, b),
    decreases bs.len() - b,
{
    if b == bs.len() {
        assert(bs.take(b) =~= bs);
        assert(blocks_edges(bs) + Seq::<Edge>::empty() =~= blocks_edges(bs));
    } else {
        lemma_blocks_edges_split(bs, b + 1);
        assert(bs.take(b + 1).drop_last() =~= bs.take(b));
        assert(bs.take(b + 1).last() == bs[b]);
        assert(blocks_edges(bs.take(b)) + blocks_edges_from(bs, b) =~= blocks_edges(bs.take(b + 1)) + blocks_edges_from(bs, b + 1));
    }
}

/// All references, split just after instruction `i - 1` of block `b`.
pub proof fn lemma_split_edges(bs: Seq<InstrBlock>, b: int, i: int)
    requires
        0 <= b < bs.len(),
        0 <= i <= bs[b].body@.len(),
    ensures
        blocks_edges(bs) == (blocks_edges(bs.take(b)) + body_edges(bs[b].body@.take(i), bs[b].idx))
            + (body_edges(bs[b].body@.skip(i), bs[b].idx) + blocks_edges_from(bs, b + 1)),
{
    lemma_blocks_edges_split(bs, b);
    lemma_body_edges_split(bs[b].body@, bs[b].idx, i);
    assert(blocks_edges_from(bs, b) == body_edges(bs[b].body@, bs[b].idx) + blocks_edges_from(bs, b + 1));
    assert(blocks_edges(bs) =~= (blocks_edges(bs.take(b)) + body_edges(bs[b].body@.take(i), bs[b].idx))
            + (body_edges(bs[b].body@.skip(i), bs[b].idx) + blocks_edges_from(bs, b + 1)));
}

} // verus!

verus! {

/// The metadata of block `b` after control-flow verification.
pub open spec fn cf_meta(m: crate::metadata::Metadata, parent: Option<BlockId>, dist: Option<usize>) -> crate::metadata::Metadata {
    crate::metadata::Metadata { parent, innermost_loop_distance: dist, ..m }
}

impl ControlFlowVerifier {
    /// Record each block's parent and innermost loop distance in its metadata.
    pub fn mutate_function(&self, function: &mut Function, info: ControlFlowVerifierData)
        requires
            info.block_parents@.len() == old(function).blocks@.len(),
            info.innermost_loop_distances@.len() == old(function).blocks@.len(),
        ensures
            final(function).name == old(function).name,
            final(function).ty == old(function).ty,
            final(function).args == old(function).args,
            final(function).rets == old(function).rets,
            final(function).all_locals_types == old(function).all_locals_types,
            final(function).idx == old(function).idx,
            final(function).blocks@.len() == old(function).blocks@.len(),
            forall|b: int| 0 <= b < final(function).blocks@.len() ==> {
                let nb = #[trigger] final(function).blocks@[b];
                let ob = old(function).blocks@[b];
                &&& nb.idx == ob.idx && nb.tag == ob.tag && nb.block_ty == ob.block_ty && nb.rets == ob.rets && nb.body == ob.body
                &&& nb.meta == cf_meta(ob.meta, info.block_parents@[b], info.innermost_loop_distances@[b])
            },
    {
        let ghost of = *function;
        let mut b: usize = 0;
        while b < function.blocks.len()
            invariant
                b <= function.blocks@.len(),
                function.blocks@.len() == of.blocks@.len(),
                info.block_parents@.len() == of.blocks@.len(),
                info.innermost_loop_distances@.len() == of.blocks@.len(),
                function.name == of.name && function.ty == of.ty && function.args == of.args && function.rets == of.rets
                    && function.all_locals_types == of.all_locals_types && function.idx == of.idx,
                forall|k: int| 0 <= k < b ==> {
                    let nb = #[trigger] function.blocks@[k];
                    let ob = of.blocks@[k];
                    &&& nb.idx == ob.idx && nb.tag == ob.tag && nb.block_ty == ob.block_ty && nb.rets == ob.rets && nb.body == ob.body
                    &&& nb.meta == cf_meta(ob.meta, info.block_parents@[k], info.innermost_loop_distances@[k])
                },
                forall|k: int| b <= k < function.blocks@.len() ==> #[trigger] function.blocks@[k] == of.blocks@[k],
            decreases function.blocks@.len() - b,
        {
            function.blocks[b].meta.parent = info.block_parents[b];
            function.blocks[b].meta.innermost_loop_distance = info.innermost_loop_distances[b];
            b = b + 1;
        }
    }
}

/// After a successful registration from no parents: every reference names a
/// block with the demanded tag and is recorded as its parent, no block is
/// referenced twice, and every recorded parent comes from a reference.
pub proof fn lemma_edges_registered(tags: Seq<BlockTag>, es: Seq<Edge>, ps: Seq<Option<BlockId>>)
    requires
        apply_edges(tags, es, Ok(no_parents(tags.len()))) == Ok::<Seq<Option<BlockId>>, ControlFlowVerifierError>(ps),
    ensures
        ps.len() == tags.len(),
        forall|k: int| 0 <= k < es.len() ==> (#[trigger] es[k]).0.0 < tags.len() && ps[es[k].0.0 as int] == Some(es[k].1) && tags[es[k].0.0 as int] == es[k].2,
        forall|k: int, l: int| 0 <= k < l < es.len() ==> (#[trigger] es[k]).0 != (#[trigger] es[l]).0,
        forall|c: int| 0 <= c < ps.len() && (#[trigger] ps[c]) is Some ==> exists|k: int| 0 <= k < es.len() && (#[trigger] es[k]).0.0 == c,
    decreases es.len(),
{
    if es.len() == 0 {
    } else {
        let d = es.drop_last();
        let e = es.last();
        let prev = apply_edges(tags, d, Ok(no_parents(tags.len())));
        assert(prev is Ok);
        {
            let pp = prev->Ok_0;
            lemma_edges_registered(tags, d, pp);
            let c = e.0.0 as int;
            assert(ps == pp.update(c, Some(e.1)));
            assert forall|k: int| 0 <= k < es.len() implies (#[trigger] es[k]).0.0 < tags.len() && ps[es[k].0.0 as int] == Some(es[k].1) && tags[es[k].0.0 as int] == es[k].2 by {
                if k < d.len() {
                    assert(es[k] == d[k]);
                    assert(pp[d[k].0.0 as int] is Some);
                }
            }
            assert forall|k: int, l: int| 0 <= k < l < es.len() implies (#[trigger] es[k]).0 != (#[trigger] es[l]).0 by {
                assert(es[k] == d[k]);
                if l < d.len() {
                    assert(es[l] == d[l]);
                } else {
                    assert(pp[d[k].0.0 as int] is Some);
                }
            }
            assert forall|c2: int| 0 <= c2 < ps.len() && (#[trigger] ps[c2]) is Some implies exists|k: int| 0 <= k < es.len() && (#[trigger] es[k]).0.0 == c2 by {
                if c2 == c {
                    assert(es[es.len() - 1].0.0 == c2);
                } else {
                    let k = choose|k: int| 0 <= k < d.len() && (#[trigger] d[k]).0.0 == c2;
                    assert(es[k] == d[k]);
                }
            }
        }
    }
}

/// The block graph of a function that passes control-flow verification is a
/// tree rooted at the entry block: the entry block is tagged `Main` and has
/// no parent; every other block has a parent, and following parents leads to
/// the entry block; every block that an `IfElse` or `Loop` names carries the
/// matching tag and has exactly that referencing block as parent; no block is
/// named twice; and a block has a parent only if some instruction names it.
pub proof fn lemma_cf_forest(f: Function)
    requires
        spec_parents(f) is Ok,
    ensures ({
        let ps = spec_parents(f)->Ok_0;
        let es = blocks_edges(f.blocks@);
        &&& tags_of(f)[0] == BlockTag::Main
        &&& ps[0] is None
        &&& forall|k: int| 0 <= k < es.len() ==> (#[trigger] es[k]).0.0 < f.blocks@.len() && ps[es[k].0.0 as int] == Some(es[k].1) && tags_of(f)[es[k].0.0 as int] == es[k].2
        &&& forall|k: int, l: int| 0 <= k < l < es.len() ==> (#[trigger] es[k]).0 != (#[trigger] es[l]).0
        &&& forall|c: int| 0 <= c < ps.len() && (#[trigger] ps[c]) is Some ==> exists|k: int| 0 <= k < es.len() && (#[trigger] es[k]).0.0 == c
        &&& ps.len() == f.blocks@.len()
        &&& forall|b: int| 1 <= b < ps.len() ==> (#[trigger] ps[b]) is Some && reaches_entry(ps, b as nat, ps.len())
    }),
{
    let tags = tags_of(f);
    let ps = apply_edges(tags, blocks_edges(f.blocks@), Ok(no_parents(tags.len())))->Ok_0;
    lemma_edges_registered(tags, blocks_edges(f.blocks@), ps);
    lemma_check_reach(ps, 1);
    assert forall|b: int| 1 <= b < ps.len() implies (#[trigger] ps[b]) is Some && reaches_entry(ps, b as nat, ps.len()) by {
        assert(reaches_entry(ps, b as nat, ps.len()));
    }
}

/// The `j`-th ancestor of `b` exists and carries tag `t`.
pub open spec fn anc_tagged(tags: Seq<BlockTag>, ps: Seq<Option<BlockId>>, b: nat, j: nat, t: BlockTag) -> bool {
    match ancestor(ps, b, j) {
        Some(c) => c < tags.len() && tags[c as int] == t,
        None => false,
    }
}

/// A chain of `k - 1` `IfElse` ancestors above block `b`, then a `Loop` block as its `k`-th ancestor.
pub open spec fn loop_chain(tags: Seq<BlockTag>, ps: Seq<Option<BlockId>>, b: nat, k: nat) -> bool {
    &&& k >= 1
    &&& anc_tagged(tags, ps, b, k, BlockTag::Loop)
    &&& forall|j: nat| 1 <= j < k ==> #[trigger] anc_tagged(tags, ps, b, j, BlockTag::IfElse)
}

proof fn lemma_walk(tags: Seq<BlockTag>, ps: Seq<Option<BlockId>>, b: nat, cur: nat, d: nat, fuel: nat)
    requires
        d >= 1,
        ancestor(ps, b, (d - 1) as nat) == Some(cur),
        forall|j: nat| 1 <= j < d ==> #[trigger] anc_tagged(tags, ps, b, j, BlockTag::IfElse),
    ensures
        walk(tags, ps, cur, d, fuel) matches Some(k) ==> loop_chain(tags, ps, b, k),
        forall|k: nat| d <= k < d + fuel && #[trigger] loop_chain(tags, ps, b, k) ==> walk(tags, ps, cur, d, fuel) == Some(k),
    decreases fuel,
{
    assert(ancestor(ps, b, d) == (if cur < ps.len() && ps[cur as int] is Some { Some(ps[cur as int]->Some_0.0 as nat) } else { None::<nat> }));
    if fuel > 0 && cur < ps.len() && ps[cur as int] is Some {
        let p = ps[cur as int]->Some_0;
        if p.0 < tags.len() && tags[p.0 as int] == BlockTag::IfElse {
            lemma_walk(tags, ps, b, p.0 as nat, d + 1, (fuel - 1) as nat);
        }
    }
    assert forall|k: nat| d <= k < d + fuel && #[trigger] loop_chain(tags, ps, b, k) implies walk(tags, ps, cur, d, fuel) == Some(k) by {
        if k > d {
            assert(anc_tagged(tags, ps, b, d, BlockTag::IfElse));
        } else {
            assert(anc_tagged(tags, ps, b, d, BlockTag::Loop));
        }
    }
}

/// For an `IfElse` block, the computed innermost loop distance is `k` exactly
/// when its `k`-th ancestor is its nearest `Loop` ancestor and every ancestor
/// in between is an `IfElse` block (chains no longer than the block count).
pub proof fn lemma_loop_distance(tags: Seq<BlockTag>, ps: Seq<Option<BlockId>>, b: nat)
    requires
        b < tags.len(),
        tags[b as int] == BlockTag::IfElse,
    ensures
        spec_depth(tags, ps, b as int) matches Some(k) ==> loop_chain(tags, ps, b, k),
        forall|k: nat| k <= tags.len() && #[trigger] loop_chain(tags, ps, b, k) ==> spec_depth(tags, ps, b as int) == Some(k),
        spec_depth(tags, ps, b as int) is None ==> forall|k: nat| k <= tags.len() ==> !#[trigger] loop_chain(tags, ps, b, k),
{
    assert(ancestor(ps, b, 0) == Some(b));
    lemma_walk(tags, ps, b, b, 1, tags.len());
}

} // verus!
