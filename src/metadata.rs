//! The metadata channel attached to instructions and blocks: a fixed set of
//! keys, each holding at most one value.
use vstd::prelude::*;
use crate::ty::Ty;

verus! {

/// The width and signedness of an integer operand, chosen at lowering.
#[derive(PartialEq, Eq, Structural, Clone, Copy, Debug)]
pub enum BitWidthSign {
    S32,
    U32,
    S16,
    U16,
    S8,
    U8,
}

impl BitWidthSign {
    pub open spec fn spec_is_unsigned(self) -> bool {
        self is U32 || self is U16 || self is U8
    }

    pub fn is_unsigned(self) -> (r: bool)
        ensures
            r == self.spec_is_unsigned(),
    {
        match self {
            BitWidthSign::U32 | BitWidthSign::U16 | BitWidthSign::U8 => true,
            _ => false,
        }
    }
}

/// A block's identity inside its function.
#[derive(PartialEq, Eq, Structural, Clone, Copy, Debug, Hash, PartialOrd, Ord)]
pub struct BlockId(pub usize);

impl BlockId {
    pub fn id(&self) -> (r: usize)
        ensures
            r == self.0,
    {
        self.0
    }

    /// The id of a function's entry block.
    pub fn entry_block_id() -> (r: Self)
        ensures
            r.0 == 0,
    {
        BlockId(0)
    }

    pub fn new(n: usize) -> (r: Self)
        ensures
            r.0 == n,
    {
        BlockId(n)
    }
}

impl From<usize> for BlockId {
    fn from(n: usize) -> (r: BlockId) {
        BlockId(n)
    }
}

impl vstd::std_specs::convert::FromSpecImpl<usize> for BlockId {
    open spec fn obeys_from_spec() -> bool {
        true
    }

    open spec fn from_spec(v: usize) -> BlockId {
        BlockId(v)
    }
}

impl From<BlockId> for usize {
    fn from(id: BlockId) -> (r: usize) {
        id.0
    }
}

impl vstd::std_specs::convert::FromSpecImpl<BlockId> for usize {
    open spec fn obeys_from_spec() -> bool {
        true
    }

    open spec fn from_spec(v: BlockId) -> usize {
        v.0
    }
}

/// The default block id is `usize::MAX`, which names no block.
impl Default for BlockId {
    fn default() -> (r: BlockId)
        ensures
            r.0 == usize::MAX,
    {
        BlockId(usize::MAX)
    }
}

/// Typed annotations keyed by `ty`, `from`, `bws`, `parent` and
/// `innermost_loop_distance`.
#[derive(PartialEq, Eq, Structural, Clone, Copy, Debug)]
pub struct Metadata {
    /// The resolved callee signature of an indirect call.
    pub ty: Option<Ty>,
    /// The source type of a bitcast.
    pub from: Option<Ty>,
    /// The operand width and signedness of a numeric instruction.
    pub bws: Option<BitWidthSign>,
    /// The block that refers to this block.
    pub parent: Option<BlockId>,
    /// How many branch levels separate this block from its enclosing loop.
    pub innermost_loop_distance: Option<usize>,
}

impl Metadata {
    pub open spec fn empty() -> Metadata {
        Metadata { ty: None, from: None, bws: None, parent: None, innermost_loop_distance: None }
    }

    pub fn new() -> (r: Metadata)
        ensures
            r == Metadata::empty(),
    {
        Metadata { ty: None, from: None, bws: None, parent: None, innermost_loop_distance: None }
    }
}

} // verus!
