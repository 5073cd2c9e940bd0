//! Static memory: items known at compile time that keep an address at run time.
use vstd::prelude::*;

verus! {

broadcast use vstd::std_specs::vec::axiom_vec_index_decreases;

/// A handle to an item of static memory: its position in insertion order.
#[derive(PartialEq, Eq, Structural, Clone, Copy, Debug, Hash)]
pub struct SMItemRef(pub usize);

#[derive(PartialEq, Eq, Structural, Clone, Copy, Debug)]
pub enum Mutability {
    Const,
    Mut,
}

#[derive(PartialEq, Eq, Structural, Clone, Copy, Debug)]
pub enum Sign {
    S,
    U,
}

/// A value in static memory. A float is held as its IEEE-754 bits.
#[derive(Debug)]
pub enum SMValue {
    Int8(u8, Sign),
    Int16(u16, Sign),
    Int32(u32, Sign),
    Float(u32),
    Struct(Vec<SMValue>),
    /// Arbitrary bytes.
    Blob(Vec<u8>),
    /// The address of another item.
    PtrTo(SMItemRef),
}

/// Every pointer inside `v` refers to one of `n` items.
pub open spec fn value_refs_in(v: SMValue, n: nat) -> bool
    decreases v,
{
    match v {
        SMValue::Struct(items) => forall|i: int| 0 <= i < items@.len() ==> value_refs_in(#[trigger] items@[i], n),
        SMValue::PtrTo(r) => r.0 < n,
        _ => true,
    }
}

/// A single item of static memory.
pub struct SMItem {
    pub value: SMValue,
    /// A `Const` item never changes at run time.
    pub mutability: Mutability,
    /// Whether the item's address must differ from every other item's.
    pub unique: bool,
}

pub struct StaticMemory {
    pub items: Vec<SMItem>,
}

impl StaticMemory {
    pub open spec fn wf(&self) -> bool {
        forall|i: int| 0 <= i < self.items@.len() ==> value_refs_in(#[trigger] self.items@[i].value, self.items@.len() as nat)
    }

    pub fn new() -> (r: StaticMemory)
        ensures
            r.wf(),
            r.items@.len() == 0,
    {
        StaticMemory { items: Vec::new() }
    }

    /// Add an item; its handle is its position. Pointers in it may refer to
    /// any item up to and including itself.
    pub fn add_item(&mut self, item: SMItem) -> (r: SMItemRef)
        requires
            old(self).wf(),
            old(self).items@.len() < usize::MAX,
            value_refs_in(item.value, old(self).items@.len() + 1),
        ensures
            final(self).wf(),
            final(self).items@ == old(self).items@.push(item),
            r.0 == old(self).items@.len(),
    {
        let ghost n = self.items@.len();
        self.items.push(item);
        proof {
            assert forall|i: int| 0 <= i < self.items@.len() implies value_refs_in(#[trigger] self.items@[i].value, self.items@.len() as nat) by {
                if i < n {
                    lemma_refs_widen(self.items@[i].value, n as nat, n + 1);
                }
            }
        }
        SMItemRef(self.items.len() - 1)
    }

    pub fn lookup_item(&self, item_ref: SMItemRef) -> (r: &SMItem)
        requires
            item_ref.0 < self.items@.len(),
        ensures
            *r == self.items@[item_ref.0 as int],
    {
        &self.items[item_ref.0]
    }
}

pub proof fn lemma_refs_widen(v: SMValue, n: nat, m: nat)
    requires
        value_refs_in(v, n),
        n <= m,
    ensures
        value_refs_in(v, m),
    decreases v,
{
    if let SMValue::Struct(items) = v {
        assert forall|i: int| 0 <= i < items@.len() implies value_refs_in(#[trigger] items@[i], m) by {
            lemma_refs_widen(items@[i], n, m);
        }
    }
}

} // verus!

verus! {

/// The largest image, and so the largest address, that 32-bit pointers reach.
pub const MAX_IMAGE: u64 = 0xffff_ffff;

/// The first address handed out: address 0 stays an invalid pointer.
pub const FIRST_ADDRESS: u64 = 8;

/// Size in bytes and alignment exponent of a value's type: a blob of `n`
/// bytes is laid out as a struct of `n` `uint8` fields.
pub open spec fn value_info(v: SMValue) -> (nat, nat)
    decreases v, 1nat, 0nat,
{
    match v {
        SMValue::Int8(..) => (1, 0),
        SMValue::Int16(..) => (2, 1),
        SMValue::Int32(..) | SMValue::Float(_) | SMValue::PtrTo(_) => (4, 2),
        SMValue::Blob(bs) => (bs@.len(), 0),
        SMValue::Struct(items) => {
            let l = value_struct_layout(v, items@.len());
            (l.1, l.2)
        },
    }
}

/// The padding algorithm over the first `k` fields of a struct value.
pub open spec fn value_struct_layout(v: SMValue, k: nat) -> (Seq<nat>, nat, nat)
    decreases v, 0nat, k,
{
    match v {
        SMValue::Struct(items) => {
            if k == 0 || k > items@.len() {
                (Seq::empty(), 0, 0)
            } else {
                let prev = value_struct_layout(v, (k - 1) as nat);
                let fi = value_info(items[k - 1]);
                let start = crate::abi::align_up(prev.1, crate::abi::pow2(fi.1));
                (prev.0.push(start), start + fi.0, if fi.1 > prev.2 { fi.1 } else { prev.2 })
            }
        },
        _ => (Seq::empty(), 0, 0),
    }
}

/// The `n` low bytes of `x`, least significant first.
pub open spec fn le_bytes(x: nat, n: nat) -> Seq<u8>
    decreases n,
{
    if n == 0 {
        Seq::empty()
    } else {
        seq![(x % 256) as u8] + le_bytes(x / 256, (n - 1) as nat)
    }
}

pub open spec fn zeros(n: nat) -> Seq<u8> {
    Seq::new(n, |_i: int| 0u8)
}

/// The bytes of a value, given the address of every item.
pub open spec fn encode(v: SMValue, addrs: Seq<nat>) -> Seq<u8>
    decreases v, 1nat, 0nat,
{
    match v {
        SMValue::Int8(b, _) => seq![b],
        SMValue::Int16(x, _) => le_bytes(x as nat, 2),
        SMValue::Int32(x, _) => le_bytes(x as nat, 4),
        SMValue::Float(x) => le_bytes(x as nat, 4),
        SMValue::Blob(bs) => bs@,
        SMValue::PtrTo(h) => le_bytes(if h.0 < addrs.len() { addrs[h.0 as int] } else { 0 }, 4),
        SMValue::Struct(items) => encode_fields(v, items@.len(), addrs),
    }
}

/// The bytes of the first `k` fields of a struct value, padding included.
pub open spec fn encode_fields(v: SMValue, k: nat, addrs: Seq<nat>) -> Seq<u8>
    decreases v, 0nat, k,
{
    match v {
        SMValue::Struct(items) => {
            if k == 0 || k > items@.len() {
                Seq::empty()
            } else {
                let prev = encode_fields(v, (k - 1) as nat, addrs);
                let off = value_struct_layout(v, k).0[k - 1];
                prev + zeros((off - prev.len()) as nat) + encode(items[k - 1], addrs)
            }
        },
        _ => Seq::empty(),
    }
}

/// The addresses of the first `k` items and the first free address after them.
pub open spec fn spec_addresses(items: Seq<SMItem>, k: nat) -> (Seq<nat>, nat)
    decreases k,
{
    if k == 0 || k > items.len() {
        (Seq::empty(), FIRST_ADDRESS as nat)
    } else {
        let prev = spec_addresses(items, (k - 1) as nat);
        let vi = value_info(items[k - 1].value);
        let a = crate::abi::align_up(prev.1, crate::abi::pow2(vi.1));
        (prev.0.push(a), a + vi.0)
    }
}

/// The memory image of the first `k` items: zeros, with each item's bytes at its address.
pub open spec fn spec_image(items: Seq<SMItem>, k: nat, addrs: Seq<nat>) -> Seq<u8>
    decreases k,
{
    if k == 0 || k > items.len() {
        zeros(FIRST_ADDRESS as nat)
    } else {
        let prev = spec_image(items, (k - 1) as nat, addrs);
        let a = spec_addresses(items, k).0[k - 1];
        prev + zeros((a - prev.len()) as nat) + encode(items[k - 1].value, addrs)
    }
}

} // verus!

verus! {

pub proof fn lemma_le_bytes_len(x: nat, n: nat)
    ensures
        le_bytes(x, n).len() == n,
    decreases n,
{
    if n > 0 {
        lemma_le_bytes_len(x / 256, (n - 1) as nat);
    }
}

/// Lengths of encodings agree with sizes, offsets never fall behind, and
/// alignment exponents stay at most 2.
pub proof fn lemma_encode_len(v: SMValue, addrs: Seq<nat>)
    ensures
        encode(v, addrs).len() == value_info(v).0,
        value_info(v).1 <= 2,
    decreases v, 1nat, 0nat,
{
    match v {
        SMValue::Int16(x, _) => lemma_le_bytes_len(x as nat, 2),
        SMValue::Int32(x, _) => lemma_le_bytes_len(x as nat, 4),
        SMValue::Float(x) => lemma_le_bytes_len(x as nat, 4),
        SMValue::PtrTo(h) => lemma_le_bytes_len(if h.0 < addrs.len() { addrs[h.0 as int] } else { 0 }, 4),
        SMValue::Struct(items) => lemma_fields_len(v, items@.len(), addrs),
        _ => {},
    }
}

pub proof fn lemma_fields_len(v: SMValue, k: nat, addrs: Seq<nat>)
    ensures
        encode_fields(v, k, addrs).len() == value_struct_layout(v, k).1,
        value_struct_layout(v, k).2 <= 2,
        v matches SMValue::Struct(items) && k <= items@.len() ==> value_struct_layout(v, k).0.len() == k,
    decreases v, 0nat, k,
{
    if let SMValue::Struct(items) = v {
        if k > 0 && k <= items@.len() {
            lemma_fields_len(v, (k - 1) as nat, addrs);
            lemma_encode_len(items[k - 1], addrs);
            let prev = value_struct_layout(v, (k - 1) as nat);
            crate::abi::lemma_align_up_ge(prev.1, value_info(items[k - 1]).1);
        }
    }
}

/// The size of a struct value grows with each field: a prefix is no larger,
/// and a field is no larger than the struct.
pub proof fn lemma_struct_monotone(v: SMValue, k: nat, n: nat)
    requires
        v is Struct,
        k <= n <= v->Struct_0@.len(),
    ensures
        value_struct_layout(v, k).1 <= value_struct_layout(v, n).1,
        k > 0 ==> value_info(v->Struct_0[k - 1]).0 <= value_struct_layout(v, n).1,
    decreases n - k,
{
    if k < n {
        lemma_struct_monotone(v, k + 1, n);
    }
}

pub open spec fn addrs_nat(a: Seq<u32>) -> Seq<nat> {
    a.map_values(|x: u32| x as nat)
}

/// The result of compiling static memory.
pub struct CompiledStaticMemory {
    /// The memory image, starting at address 0.
    pub buf: Vec<u8>,
    /// The address of each item, by handle.
    pub addresses: Vec<u32>,
}

#[derive(PartialEq, Eq, Structural, Clone, Copy, Debug)]
pub enum StaticMemoryError {
    /// The image would not fit in the 32-bit address space.
    TooLarge,
}

fn align_bytes64(e: u64) -> (r: u64)
    requires
        e <= 2,
    ensures
        r == crate::abi::pow2(e as nat),
        1 <= r <= 4,
{
    proof {
        reveal_with_fuel(crate::abi::pow2, 3);
    }
    if e == 0 {
        1
    } else if e == 1 {
        2
    } else {
        4
    }
}

/// Size and alignment exponent of a value, or `None` if its size exceeds `MAX_IMAGE`.
pub fn value_info_exec(v: &SMValue) -> (r: Option<(u64, u64)>)
    ensures
        r matches Some(x) ==> x.0 as nat == value_info(*v).0 && x.1 as nat == value_info(*v).1 && x.0 <= MAX_IMAGE,
        r is None ==> value_info(*v).0 > MAX_IMAGE,
    decreases v,
{
    proof {
        lemma_encode_len(*v, Seq::empty());
    }
    match v {
        SMValue::Int8(..) => Some((1, 0)),
        SMValue::Int16(..) => Some((2, 1)),
        SMValue::Int32(..) | SMValue::Float(_) | SMValue::PtrTo(_) => Some((4, 2)),
        SMValue::Blob(bs) => {
            if bs.len() as u64 > MAX_IMAGE {
                None
            } else {
                Some((bs.len() as u64, 0))
            }
        },
        SMValue::Struct(items) => {
            let mut size: u64 = 0;
            let mut align: u64 = 0;
            let mut k: usize = 0;
            while k < items.len()
                invariant
                    k <= items@.len(),
                    *v == SMValue::Struct(*items),
                    size as nat == value_struct_layout(*v, k as nat).1,
                    align as nat == value_struct_layout(*v, k as nat).2,
                    size <= MAX_IMAGE,
                    align <= 2,
                decreases items@.len() - k,
            {
                proof {
                    lemma_fields_len(*v, (k + 1) as nat, Seq::empty());
                    lemma_struct_monotone(*v, (k + 1) as nat, items@.len());
                }
                match value_info_exec(&items[k]) {
                    None => return None,
                    Some((fs, fa)) => {
                        let a = align_bytes64(fa);
                        if size % a != 0 {
                            size = size + (a - size % a);
                        }
                        if size + fs > MAX_IMAGE {
                            return None;
                        }
                        size = size + fs;
                        if fa > align {
                            align = fa;
                        }
                    },
                }
                k = k + 1;
            }
            Some((size, align))
        },
    }
}

/// Little-endian bytes of `x`, `n` of them.
fn push_le(out: &mut Vec<u8>, x: u32, n: usize)
    ensures
        final(out)@ == old(out)@ + le_bytes(x as nat, n as nat),
{
    let mut y: u32 = x;
    let mut i: usize = 0;
    while i < n
        invariant
            i <= n,
            old(out)@ + le_bytes(x as nat, n as nat) == out@ + le_bytes(y as nat, (n - i) as nat),
        decreases n - i,
    {
        proof {
            assert(le_bytes(y as nat, (n - i) as nat) == seq![(y % 256) as u8] + le_bytes((y / 256) as nat, (n - i - 1) as nat));
            assert(out@ + le_bytes(y as nat, (n - i) as nat) =~= out@.push((y % 256) as u8) + le_bytes((y / 256) as nat, (n - i - 1) as nat));
        }
        out.push((y % 256) as u8);
        y = y / 256;
        i = i + 1;
    }
    assert(out@ + le_bytes(y as nat, 0) =~= out@);
}

fn push_zeros(out: &mut Vec<u8>, n: u64)
    ensures
        final(out)@ == old(out)@ + zeros(n as nat),
{
    let mut i: u64 = 0;
    while i < n
        invariant
            i <= n,
            out@ =~= old(out)@ + zeros(i as nat),
        decreases n - i,
    {
        out.push(0);
        i = i + 1;
        assert(old(out)@ + zeros(i as nat) =~= (old(out)@ + zeros((i - 1) as nat)).push(0u8));
    }
}

/// Append the bytes of `v`.
pub fn write_value(out: &mut Vec<u8>, v: &SMValue, addresses: &Vec<u32>)
    requires
        value_info(*v).0 <= MAX_IMAGE,
    ensures
        final(out)@ == old(out)@ + encode(*v, addrs_nat(addresses@)),
    decreases v,
{
    let ghost addrs = addrs_nat(addresses@);
    match v {
        SMValue::Int8(b, _) => {
            out.push(*b);
        },
        SMValue::Int16(x, _) => push_le(out, *x as u32, 2),
        SMValue::Int32(x, _) => push_le(out, *x, 4),
        SMValue::Float(x) => push_le(out, *x, 4),
        SMValue::Blob(bs) => {
            let mut i: usize = 0;
            while i < bs.len()
                invariant
                    i <= bs@.len(),
                    out@ =~= old(out)@ + bs@.take(i as int),
                decreases bs@.len() - i,
            {
                out.push(bs[i]);
                i = i + 1;
                assert(old(out)@ + bs@.take(i as int) =~= (old(out)@ + bs@.take(i - 1)).push(bs@[i - 1]));
            }
            assert(bs@.take(i as int) =~= bs@);
        },
        SMValue::PtrTo(h) => {
            let a: u32 = if h.0 < addresses.len() { addresses[h.0] } else { 0 };
            proof {
                if h.0 < addresses@.len() {
                    assert(addrs[h.0 as int] == addresses@[h.0 as int] as nat);
                }
            }
            push_le(out, a, 4);
        },
        SMValue::Struct(items) => {
            let ghost start = out@;
            let mut size: u64 = 0;
            let mut k: usize = 0;
            proof {
                lemma_fields_len(*v, 0, addrs);
            }
            while k < items.len()
                invariant
                    k <= items@.len(),
                    *v == SMValue::Struct(*items),
                    value_info(*v).0 <= MAX_IMAGE,
                    addrs == addrs_nat(addresses@),
                    size as nat == value_struct_layout(*v, k as nat).1,
                    out@ == start + encode_fields(*v, k as nat, addrs),
                    start == old(out)@,
                decreases items@.len() - k,
            {
                proof {
                    lemma_fields_len(*v, (k + 1) as nat, addrs);
                    lemma_fields_len(*v, k as nat, addrs);
                    lemma_struct_monotone(*v, (k + 1) as nat, items@.len());
                    lemma_encode_len(items[k as int], addrs);
                }
                let fi = value_info_exec(&items[k]);
                let (fs, fa) = match fi {
                    Some(x) => x,
                    None => vstd::pervasive::unreached(),
                };
                let a = align_bytes64(fa);
                let mut pad: u64 = 0;
                if size % a != 0 {
                    pad = a - size % a;
                }
                push_zeros(out, pad);
                write_value(out, &items[k], addresses);
                size = size + pad + fs;
                k = k + 1;
                proof {
                    assert(start + encode_fields(*v, k as nat, addrs) =~= start + encode_fields(*v, (k - 1) as nat, addrs) + zeros(pad as nat) + encode(items[k - 1], addrs));
                }
            }
        },
    }
}

} // verus!

verus! {

pub proof fn lemma_addresses_step(items: Seq<SMItem>, k: nat)
    requires
        k <= items.len(),
    ensures
        spec_addresses(items, k).0.len() == k,
        spec_addresses(items, k).1 >= FIRST_ADDRESS,
        k > 0 ==> spec_addresses(items, k).0[k - 1] + value_info(items[k - 1].value).0 == spec_addresses(items, k).1,
        k > 0 ==> spec_addresses(items, k).0[k - 1] >= spec_addresses(items, (k - 1) as nat).1,
        k > 0 ==> spec_addresses(items, k).0.take(k - 1) == spec_addresses(items, (k - 1) as nat).0,
    decreases k,
{
    if k > 0 {
        lemma_addresses_step(items, (k - 1) as nat);
        let prev = spec_addresses(items, (k - 1) as nat);
        crate::abi::lemma_align_up_ge(prev.1, value_info(items[k - 1].value).1);
        assert(spec_addresses(items, k).0.take(k - 1) =~= prev.0);
    }
}

pub proof fn lemma_addresses(items: Seq<SMItem>, k: nat, n: nat)
    requires
        k <= n <= items.len(),
    ensures
        spec_addresses(items, k).0.len() == k,
        spec_addresses(items, n).0.len() == n,
        spec_addresses(items, k).1 <= spec_addresses(items, n).1,
        k > 0 ==> spec_addresses(items, n).0[k - 1] + value_info(items[k - 1].value).0 == spec_addresses(items, k).1,
        k > 0 ==> spec_addresses(items, n).0[k - 1] == spec_addresses(items, k).0[k - 1],
        forall|j: int| 0 <= j < k ==> #[trigger] spec_addresses(items, n).0[j] == spec_addresses(items, k).0[j],
        spec_addresses(items, k).1 >= FIRST_ADDRESS,
    decreases n - k,
{
    lemma_addresses_step(items, k);
    lemma_addresses_step(items, n);
    if k < n {
        lemma_addresses(items, k + 1, n);
        lemma_addresses_step(items, k + 1);
        assert forall|j: int| 0 <= j < k implies #[trigger] spec_addresses(items, n).0[j] == spec_addresses(items, k).0[j] by {
            assert(spec_addresses(items, k + 1).0.take(k as int)[j] == spec_addresses(items, k + 1).0[j]);
        }
    } else {
        assert(n == k);
    }
}

pub proof fn lemma_image_len(items: Seq<SMItem>, k: nat, addrs: Seq<nat>)
    requires
        k <= items.len(),
    ensures
        spec_image(items, k, addrs).len() == spec_addresses(items, k).1,
    decreases k,
{
    if k > 0 {
        lemma_image_len(items, (k - 1) as nat, addrs);
        lemma_addresses(items, (k - 1) as nat, k);
        lemma_addresses(items, k, k);
        lemma_encode_len(items[k - 1].value, addrs);
    }
}

/// In the image of the first `j` items, item `k`'s bytes stand at its address.
pub proof fn lemma_image_item(items: Seq<SMItem>, j: nat, k: nat, addrs: Seq<nat>)
    requires
        k < j <= items.len(),
    ensures
        ({
            let a = spec_addresses(items, j).0[k as int];
            let sz = value_info(items[k as int].value).0;
            spec_image(items, j, addrs).subrange(a as int, (a + sz) as int) == encode(items[k as int].value, addrs)
        }),
    decreases j,
{
    lemma_addresses(items, k + 1, j);
    lemma_addresses(items, j, j);
    lemma_encode_len(items[k as int].value, addrs);
    let a = spec_addresses(items, j).0[k as int];
    let sz = value_info(items[k as int].value).0;
    lemma_image_len(items, (j - 1) as nat, addrs);
    if j == k + 1 {
        let prev = spec_image(items, k, addrs);
        lemma_image_len(items, k, addrs);
        lemma_addresses(items, k, j);
        assert(spec_image(items, j, addrs).subrange(a as int, (a + sz) as int) =~= encode(items[k as int].value, addrs));
    } else {
        lemma_image_item(items, (j - 1) as nat, k, addrs);
        lemma_addresses(items, k + 1, (j - 1) as nat);
        lemma_addresses(items, (j - 1) as nat, j);
        assert(spec_addresses(items, j).0[k as int] == spec_addresses(items, (j - 1) as nat).0[k as int]);
        assert(spec_image(items, j, addrs).subrange(a as int, (a + sz) as int) =~= spec_image(items, (j - 1) as nat, addrs).subrange(a as int, (a + sz) as int));
    }
}

/// The static-memory fixpoint: in the compiled image, the bytes at each
/// item's address are that item's encoding; an item that points to item `h`
/// holds `h`'s address in four little-endian bytes, and the image at that
/// address starts with `h`'s own encoding.
pub proof fn lemma_static_memory_fixpoint(items: Seq<SMItem>, k: nat)
    requires
        k < items.len(),
    ensures
        ({
            let n = items.len();
            let addrs = spec_addresses(items, n).0;
            let img = spec_image(items, n, addrs);
            let a = addrs[k as int];
            &&& img.subrange(a as int, (a + value_info(items[k as int].value).0) as int) == encode(items[k as int].value, addrs)
            &&& (items[k as int].value matches SMValue::PtrTo(h) ==> h.0 < n ==> {
                &&& img.subrange(a as int, (a + 4) as int) == le_bytes(addrs[h.0 as int], 4)
                &&& img.subrange(addrs[h.0 as int] as int, (addrs[h.0 as int] + value_info(items[h.0 as int].value).0) as int) == encode(items[h.0 as int].value, addrs)
            })
        }),
{
    let n = items.len();
    let addrs = spec_addresses(items, n).0;
    lemma_addresses(items, n, n);
    lemma_image_item(items, n, k, addrs);
    if let SMValue::PtrTo(h) = items[k as int].value {
        if h.0 < n {
            lemma_image_item(items, n, h.0 as nat, addrs);
        }
    }
}

impl CompiledStaticMemory {
    /// Assign addresses from 8 upward, each aligned for its item, then build
    /// the image with every item's bytes at its address.
    pub fn compile(mem: &StaticMemory) -> (r: Result<CompiledStaticMemory, StaticMemoryError>)
        ensures
            (r is Ok) == (spec_addresses(mem.items@, mem.items@.len()).1 <= MAX_IMAGE),
            r matches Ok(c) ==> addrs_nat(c.addresses@) == spec_addresses(mem.items@, mem.items@.len()).0
                && c.buf@ == spec_image(mem.items@, mem.items@.len(), spec_addresses(mem.items@, mem.items@.len()).0),
    {
        let ghost items = mem.items@;
        let ghost n = items.len();
        let mut cursor: u64 = FIRST_ADDRESS;
        let mut addresses: Vec<u32> = Vec::new();
        let mut k: usize = 0;
        while k < mem.items.len()
            invariant
                k <= n,
                n == mem.items@.len(),
                items == mem.items@,
                cursor as nat == spec_addresses(items, k as nat).1,
                cursor <= MAX_IMAGE,
                addrs_nat(addresses@) == spec_addresses(items, k as nat).0,
            decreases n - k,
        {
            proof {
                lemma_addresses(items, (k + 1) as nat, n);
                lemma_addresses(items, k as nat, (k + 1) as nat);
                lemma_encode_len(items[k as int].value, Seq::empty());
                crate::abi::lemma_align_up_ge(cursor as nat, value_info(items[k as int].value).1);
            }
            let (size, al) = match value_info_exec(&mem.items[k].value) {
                Some(x) => x,
                None => return Err(StaticMemoryError::TooLarge),
            };
            let a = align_bytes64(al);
            let mut addr = cursor;
            if cursor % a != 0 {
                addr = cursor + (a - cursor % a);
            }
            if addr + size > MAX_IMAGE {
                return Err(StaticMemoryError::TooLarge);
            }
            addresses.push(addr as u32);
            cursor = addr + size;
            k = k + 1;
            assert(addrs_nat(addresses@) =~= spec_addresses(items, k as nat).0);
        }
        let ghost addrs = addrs_nat(addresses@);
        proof {
            lemma_addresses(items, n, n);
        }
        let mut buf: Vec<u8> = Vec::new();
        push_zeros(&mut buf, FIRST_ADDRESS);
        let mut k: usize = 0;
        while k < mem.items.len()
            invariant
                k <= n,
                n == mem.items@.len(),
                items == mem.items@,
                addrs == addrs_nat(addresses@),
                addrs == spec_addresses(items, n).0,
                addresses@.len() == n,
                spec_addresses(items, n).1 <= MAX_IMAGE,
                buf@ == spec_image(items, k as nat, addrs),
            decreases n - k,
        {
            proof {
                lemma_addresses(items, (k + 1) as nat, n);
                lemma_addresses(items, k as nat, (k + 1) as nat);
                lemma_addresses(items, (k + 1) as nat, (k + 1) as nat);
                lemma_image_len(items, k as nat, addrs);
                assert(addrs_nat(addresses@)[k as int] == addresses@[k as int] as nat);
            }
            let pad = addresses[k] as u64 - buf.len() as u64;
            push_zeros(&mut buf, pad);
            write_value(&mut buf, &mem.items[k].value, &addresses);
            k = k + 1;
        }
        Ok(CompiledStaticMemory { buf, addresses })
    }
}

} // verus!

verus! {

/// Within the bytes of a struct value, field `k`'s bytes stand at its offset.
/// With the item law this places every value, however deeply nested; a
/// pointer field holds the four little-endian bytes of its pointee's address.
pub proof fn lemma_field_bytes(v: SMValue, n: nat, k: nat, addrs: Seq<nat>)
    requires
        v is Struct,
        k < n <= v->Struct_0@.len(),
    ensures
        ({
            let off = value_struct_layout(v, n).0[k as int];
            let f = v->Struct_0[k as int];
            &&& encode_fields(v, n, addrs).subrange(off as int, (off + value_info(f).0) as int) == encode(f, addrs)
            &&& f matches SMValue::PtrTo(h) ==> encode(f, addrs) == le_bytes(if h.0 < addrs.len() { addrs[h.0 as int] } else { 0 }, 4)
        }),
    decreases n,
{
    let items = v->Struct_0;
    lemma_fields_len(v, n, addrs);
    lemma_fields_len(v, (n - 1) as nat, addrs);
    lemma_encode_len(items[(n - 1) as int], addrs);
    lemma_encode_len(items[k as int], addrs);
    let prev = encode_fields(v, (n - 1) as nat, addrs);
    let start = value_struct_layout(v, n).0[(n - 1) as int];
    crate::abi::lemma_align_up_ge(value_struct_layout(v, (n - 1) as nat).1, value_info(items[(n - 1) as int]).1);
    if k == n - 1 {
        assert(encode_fields(v, n, addrs).subrange(start as int, (start + value_info(items[k as int]).0) as int) =~= encode(items[k as int], addrs));
    } else {
        lemma_field_bytes(v, (n - 1) as nat, k, addrs);
        lemma_fields_len(v, (k + 1) as nat, addrs);
        lemma_struct_monotone(v, (k + 1) as nat, (n - 1) as nat);
        lemma_struct_prefix_offsets(v, (n - 1) as nat, k);
        let off = value_struct_layout(v, n).0[k as int];
        assert(value_struct_layout(v, (n - 1) as nat).0[k as int] == off);
        assert(off + value_info(items[k as int]).0 <= prev.len());
        assert(encode_fields(v, n, addrs).subrange(off as int, (off + value_info(items[k as int]).0) as int)
            =~= prev.subrange(off as int, (off + value_info(items[k as int]).0) as int));
    }
}

/// Adding a field keeps the earlier offsets; field `k` ends within the first `k + 1` fields.
proof fn lemma_struct_prefix_offsets(v: SMValue, m: nat, k: nat)
    requires
        v is Struct,
        k < m < v->Struct_0@.len(),
    ensures
        value_struct_layout(v, m + 1).0[k as int] == value_struct_layout(v, m).0[k as int],
        value_struct_layout(v, m).0[k as int] + value_info(v->Struct_0[k as int]).0 <= value_struct_layout(v, m).1,
    decreases m,
{
    lemma_fields_len(v, m, Seq::empty());
    lemma_fields_len(v, m + 1, Seq::empty());
    let items = v->Struct_0;
    crate::abi::lemma_align_up_ge(value_struct_layout(v, m).1, value_info(items[m as int]).1);
    if k + 1 == m {
        crate::abi::lemma_align_up_ge(value_struct_layout(v, k).1, value_info(items[k as int]).1);
        lemma_fields_len(v, k, Seq::empty());
    } else {
        lemma_struct_prefix_offsets(v, (m - 1) as nat, k);
        lemma_fields_len(v, (m - 1) as nat, Seq::empty());
        crate::abi::lemma_align_up_ge(value_struct_layout(v, (m - 1) as nat).1, value_info(items[(m - 1) as int]).1);
    }
}

} // verus!
