//! Type layout for the 32-bit little-endian WebAssembly target.
use vstd::prelude::*;
use crate::ty::{Ty, Type, TypeTable, TypeV, table_wf, tys_in};

verus! {

/// `2^e`.
pub open spec fn pow2(e: nat) -> nat
    decreases e,
{
    if e == 0 {
        1
    } else {
        2 * pow2((e - 1) as nat)
    }
}

/// `size` rounded up to the next multiple of `a`.
pub open spec fn align_up(size: nat, a: nat) -> nat {
    if a == 0 || size % a == 0 {
        size
    } else {
        size + (a - size % a) as nat
    }
}

/// Size in bytes and alignment exponent of the type at handle `ty`.
pub open spec fn type_info(t: Seq<TypeV>, ty: nat) -> (nat, nat)
    decreases ty + 1, 0nat,
{
    if ty >= t.len() {
        (0, 0)
    } else {
        match t[ty as int] {
            TypeV::Int8 | TypeV::UInt8 => (1, 0),
            TypeV::Int16 | TypeV::UInt16 => (2, 1),
            TypeV::Struct { fields } => {
                let l = struct_layout(t, ty, fields);
                (l.1, l.2)
            },
            _ => (4, 2),
        }
    }
}

/// The padding algorithm: the offsets of the fields, the size and the
/// alignment exponent of a struct with these fields. Fields at or above
/// `owner` are not followed (in a well-formed table none is).
pub open spec fn struct_layout(t: Seq<TypeV>, owner: nat, fields: Seq<Ty>) -> (Seq<nat>, nat, nat)
    decreases owner, fields.len(),
{
    if fields.len() == 0 {
        (Seq::empty(), 0, 0)
    } else {
        let prev = struct_layout(t, owner, fields.drop_last());
        let f = fields.last();
        let fi = if f < owner {
            type_info(t, f as nat)
        } else {
            (0nat, 0nat)
        };
        let start = align_up(prev.1, pow2(fi.1));
        (prev.0.push(start), start + fi.0, if fi.1 > prev.2 { fi.1 } else { prev.2 })
    }
}

pub open spec fn type_size(t: Seq<TypeV>, ty: nat) -> nat {
    type_info(t, ty).0
}

pub open spec fn type_align(t: Seq<TypeV>, ty: nat) -> nat {
    type_info(t, ty).1
}

/// The layout of a field list whose handles all refer into `t`.
pub open spec fn fields_layout(t: Seq<TypeV>, fields: Seq<Ty>) -> (Seq<nat>, nat, nat) {
    struct_layout(t, t.len(), fields)
}

/// Every type in the table fits in the 32-bit address space.
pub open spec fn sizes_fit(t: Seq<TypeV>) -> bool {
    forall|i: nat| i < t.len() ==> #[trigger] type_size(t, i) <= u32::MAX
}

/// The layout does not depend on the bound used to follow handles.
pub proof fn lemma_layout_owner(t: Seq<TypeV>, o1: nat, o2: nat, fields: Seq<Ty>)
    requires
        tys_in(fields, o1),
        tys_in(fields, o2),
    ensures
        struct_layout(t, o1, fields) == struct_layout(t, o2, fields),
    decreases fields.len(),
{
    if fields.len() > 0 {
        lemma_layout_owner(t, o1, o2, fields.drop_last());
    }
}

/// Alignment exponents never exceed 2.
pub proof fn lemma_align_bound(t: Seq<TypeV>, ty: nat)
    ensures
        type_align(t, ty) <= 2,
    decreases ty + 1, 0nat,
{
    if ty < t.len() {
        if let TypeV::Struct { fields } = t[ty as int] {
            lemma_layout_align_bound(t, ty, fields);
        }
    }
}

pub proof fn lemma_layout_align_bound(t: Seq<TypeV>, owner: nat, fields: Seq<Ty>)
    ensures
        struct_layout(t, owner, fields).2 <= 2,
        struct_layout(t, owner, fields).0.len() == fields.len(),
    decreases owner, fields.len(),
{
    if fields.len() > 0 {
        lemma_layout_align_bound(t, owner, fields.drop_last());
        let f = fields.last();
        if f < owner {
            lemma_align_bound(t, f as nat);
        }
    }
}

/// The layout of a prefix is a prefix of the layout, and its size is no larger.
pub proof fn lemma_layout_prefix(t: Seq<TypeV>, owner: nat, fields: Seq<Ty>, i: int)
    requires
        0 <= i <= fields.len(),
    ensures
        struct_layout(t, owner, fields.take(i)).1 <= struct_layout(t, owner, fields).1,
        struct_layout(t, owner, fields.take(i)).0 == struct_layout(t, owner, fields).0.take(i),
    decreases fields.len(),
{
    lemma_layout_align_bound(t, owner, fields);
    if i == fields.len() {
        assert(fields.take(i) =~= fields);
        assert(struct_layout(t, owner, fields).0.take(i) =~= struct_layout(t, owner, fields).0);
    } else {
        let d = fields.drop_last();
        lemma_layout_prefix(t, owner, d, i);
        assert(d.take(i) =~= fields.take(i));
        let prev = struct_layout(t, owner, d);
        lemma_layout_align_bound(t, owner, d);
        assert(struct_layout(t, owner, fields).0.take(i) =~= prev.0.take(i));
    }
}

/// The backend value types of the target.
#[derive(PartialEq, Eq, Structural, Clone, Copy, Debug)]
pub enum BackendType {
    I32,
    F32,
}

pub open spec fn spec_compile_type(v: TypeV) -> BackendType {
    if v is Float32 {
        BackendType::F32
    } else {
        BackendType::I32
    }
}

/// The 32-bit WebAssembly ABI.
pub struct Wasm32Abi {}

/// The alignment in bytes for an exponent of at most 2.
fn align_bytes(e: usize) -> (r: usize)
    requires
        e <= 2,
    ensures
        r == pow2(e as nat),
        1 <= r <= 4,
{
    proof {
        reveal_with_fuel(pow2, 3);
    }
    if e == 0 {
        1
    } else if e == 1 {
        2
    } else {
        4
    }
}

impl Wasm32Abi {
    /// The backend type of a value of this type; structs are not values.
    pub fn backend_type(table: &TypeTable, ty: Ty) -> (r: BackendType)
        requires
            ty < table@.len(),
            !table@[ty as int].is_struct(),
        ensures
            r == spec_compile_type(table@[ty as int]),
    {
        match table.get(ty) {
            Type::Float32 => BackendType::F32,
            _ => BackendType::I32,
        }
    }

    /// `sizeof` of a type.
    pub fn size_in_bytes(table: &TypeTable, ty: Ty) -> (r: usize)
        requires
            table.wf(),
            sizes_fit(table@),
            ty < table@.len(),
        ensures
            r == type_size(table@, ty as nat),
        decreases ty, 2nat,
    {
        Self::type_info_exec(table, ty).0
    }

    /// The alignment of a type, as an exponent of two.
    pub fn alignment_exponent(table: &TypeTable, ty: Ty) -> (r: usize)
        requires
            table.wf(),
            sizes_fit(table@),
            ty < table@.len(),
        ensures
            r == type_align(table@, ty as nat),
            r <= 2,
        decreases ty, 2nat,
    {
        Self::type_info_exec(table, ty).1
    }

    fn type_info_exec(table: &TypeTable, ty: Ty) -> (r: (usize, usize))
        requires
            table.wf(),
            sizes_fit(table@),
            ty < table@.len(),
        ensures
            r.0 == type_size(table@, ty as nat),
            r.1 == type_align(table@, ty as nat),
            r.1 <= 2,
        decreases ty, 1nat,
    {
        proof {
            lemma_align_bound(table@, ty as nat);
            assert(type_size(table@, ty as nat) <= u32::MAX);
        }
        match table.get(ty) {
            Type::Int8 | Type::UInt8 => (1, 0),
            Type::Int16 | Type::UInt16 => (2, 1),
            Type::Struct { fields } => {
                proof {
                    assert(tys_in(fields@, ty as nat)) by {
                        assert forall|k: int| 0 <= k < fields@.len() implies #[trigger] fields@[k] < ty by {
                            assert(table@[ty as int].children()[k] == fields@[k]);
                        }
                    }
                }
                let l = struct_calc_algorithm(table, ty, fields);
                (l.1, l.2)
            },
            _ => (4, 2),
        }
    }

    /// The offset at which field `field_n` starts inside a struct with these fields.
    pub fn field_offset(table: &TypeTable, struct_fields: &Vec<Ty>, field_n: usize) -> (r: usize)
        requires
            table.wf(),
            sizes_fit(table@),
            tys_in(struct_fields@, table@.len()),
            fields_layout(table@, struct_fields@).1 <= usize::MAX,
            field_n < struct_fields@.len(),
        ensures
            r == fields_layout(table@, struct_fields@).0[field_n as int],
    {
        let l = struct_calc_algorithm(table, table.len(), struct_fields);
        l.0[field_n]
    }
}

/// The padding algorithm over a field list: returns the start offset of each
/// field, the size and the alignment exponent of the struct.
pub fn struct_calc_algorithm(table: &TypeTable, owner: usize, struct_fields: &Vec<Ty>) -> (r: (Vec<usize>, usize, usize))
    requires
        table.wf(),
        sizes_fit(table@),
        owner <= table@.len(),
        tys_in(struct_fields@, owner as nat),
        owner < table@.len() ==> table@[owner as int] == (TypeV::Struct { fields: struct_fields@ }),
        owner == table@.len() ==> struct_layout(table@, owner as nat, struct_fields@).1 <= usize::MAX,
    ensures
        r.0@.len() == struct_fields@.len(),
        forall|k: int| 0 <= k < r.0@.len() ==> r.0@[k] == struct_layout(table@, owner as nat, struct_fields@).0[k],
        r.1 == struct_layout(table@, owner as nat, struct_fields@).1,
        r.2 == struct_layout(table@, owner as nat, struct_fields@).2,
    decreases owner, 0nat,
{
    let ghost t = table@;
    let ghost fs = struct_fields@;
    let ghost full = struct_layout(t, owner as nat, fs);
    proof {
        lemma_layout_align_bound(t, owner as nat, fs);
        if owner < t.len() {
            assert(type_size(t, owner as nat) <= u32::MAX);
        }
    }
    let mut offsets: Vec<usize> = Vec::new();
    let mut size: usize = 0;
    let mut align: usize = 0;
    let mut i: usize = 0;
    assert(fs.take(0) =~= Seq::<Ty>::empty());
    while i < struct_fields.len()
        invariant
            table.wf(),
            sizes_fit(t),
            t == table@,
            fs == struct_fields@,
            full == struct_layout(t, owner as nat, fs),
            full.1 <= usize::MAX,
            owner <= t.len(),
            tys_in(fs, owner as nat),
            i <= fs.len(),
            offsets@.len() == i,
            forall|k: int| 0 <= k < i ==> offsets@[k] == struct_layout(t, owner as nat, fs.take(i as int)).0[k],
            size == struct_layout(t, owner as nat, fs.take(i as int)).1,
            align == struct_layout(t, owner as nat, fs.take(i as int)).2,
            align <= 2,
        decreases fs.len() - i,
    {
        let field = struct_fields[i];
        let ghost pre = fs.take(i as int);
        let ghost nxt = fs.take(i + 1);
        proof {
            assert(nxt.drop_last() =~= pre);
            assert(nxt.last() == field);
            lemma_layout_prefix(t, owner as nat, fs, i + 1);
            lemma_layout_align_bound(t, owner as nat, nxt);
            lemma_layout_align_bound(t, owner as nat, pre);
        }
        let fsize = Wasm32Abi::size_in_bytes(table, field);
        let falign = Wasm32Abi::alignment_exponent(table, field);
        let a = align_bytes(falign);
        if size % a != 0 {
            size = size + (a - size % a);
        }
        offsets.push(size);
        size = size + fsize;
        if falign > align {
            align = falign;
        }
        i = i + 1;
        proof {
            assert forall|k: int| 0 <= k < i implies offsets@[k] == struct_layout(t, owner as nat, fs.take(i as int)).0[k] by {
                if k < i - 1 {
                    assert(struct_layout(t, owner as nat, nxt).0[k] == struct_layout(t, owner as nat, pre).0[k]);
                }
            }
        }
    }
    proof {
        assert(fs.take(i as int) =~= fs);
    }
    (offsets, size, align)
}

} // verus!

verus! {

/// A table of primitives alone has every size in range.
pub proof fn lemma_primitive_sizes(t: Seq<TypeV>)
    requires
        table_wf(t),
        t.len() == crate::ty::N_PRIMITIVES,
    ensures
        sizes_fit(t),
{
    assert forall|i: nat| i < t.len() implies #[trigger] type_size(t, i) <= u32::MAX by {
        assert(t[i as int] == crate::ty::primitive_at(i as int));
    }
}

/// Adding a type to the end of a table leaves the layout of the others unchanged.
pub proof fn lemma_info_push(t: Seq<TypeV>, x: TypeV, ty: nat)
    requires
        ty < t.len(),
    ensures
        type_info(t.push(x), ty) == type_info(t, ty),
    decreases ty + 1, 0nat,
{
    assert(t.push(x)[ty as int] == t[ty as int]);
    if let TypeV::Struct { fields } = t[ty as int] {
        lemma_layout_push(t, x, ty, fields);
    }
}

pub proof fn lemma_layout_push(t: Seq<TypeV>, x: TypeV, owner: nat, fields: Seq<Ty>)
    requires
        owner <= t.len(),
    ensures
        struct_layout(t.push(x), owner, fields) == struct_layout(t, owner, fields),
    decreases owner, fields.len(),
{
    if fields.len() > 0 {
        lemma_layout_push(t, x, owner, fields.drop_last());
        let f = fields.last();
        if f < owner {
            lemma_info_push(t, x, f as nat);
        }
    }
}

/// Sizes stay in range when a type of size in range is added.
pub proof fn lemma_sizes_fit_push(t: Seq<TypeV>, x: TypeV)
    requires
        sizes_fit(t),
        type_size(t.push(x), t.len()) <= u32::MAX,
    ensures
        sizes_fit(t.push(x)),
{
    assert forall|i: nat| i < t.push(x).len() implies #[trigger] type_size(t.push(x), i) <= u32::MAX by {
        if i < t.len() {
            lemma_info_push(t, x, i);
            assert(type_size(t, i) <= u32::MAX);
        }
    }
}

} // verus!

verus! {

pub proof fn lemma_pow2_pos(e: nat)
    ensures
        pow2(e) >= 1,
    decreases e,
{
    if e > 0 {
        lemma_pow2_pos((e - 1) as nat);
    }
}

/// Rounding up never goes below the value, and lands on a multiple.
pub proof fn lemma_align_up_ge(size: nat, e: nat)
    ensures
        align_up(size, pow2(e)) >= size,
        align_up(size, pow2(e)) < size + pow2(e),
        align_up(size, pow2(e)) % pow2(e) == 0,
{
    lemma_pow2_pos(e);
    let a = pow2(e);
    if size % a != 0 {
        let q = size / a;
        let r = size % a;
        vstd::arithmetic::div_mod::lemma_fundamental_div_mod(size as int, a as int);
        vstd::arithmetic::div_mod::lemma_mod_multiples_basic((q + 1) as int, a as int);
        assert(size + (a - r) == (q + 1) * a) by (nonlinear_arith)
            requires
                size == a * q + r,
        ;
    }
}

} // verus!

verus! {

/// The padding law: field `i` starts at the end of the fields before it
/// (their sizes plus their padding), rounded up to the next multiple of its
/// own alignment; the padding is smaller than that alignment, the first field
/// starts at 0, and the field ends where its size takes it.
pub proof fn lemma_struct_field_offset(t: Seq<TypeV>, owner: nat, fields: Seq<Ty>, i: int)
    requires
        0 <= i < fields.len(),
        tys_in(fields, owner),
    ensures
        struct_layout(t, owner, fields).0[i] == align_up(struct_layout(t, owner, fields.take(i)).1, pow2(type_align(t, fields[i] as nat))),
        struct_layout(t, owner, fields).0[i] % pow2(type_align(t, fields[i] as nat)) == 0,
        struct_layout(t, owner, fields.take(i)).1 <= struct_layout(t, owner, fields).0[i],
        struct_layout(t, owner, fields).0[i] < struct_layout(t, owner, fields.take(i)).1 + pow2(type_align(t, fields[i] as nat)),
        struct_layout(t, owner, fields.take(i + 1)).1 == struct_layout(t, owner, fields).0[i] + type_size(t, fields[i] as nat),
        i == 0 ==> struct_layout(t, owner, fields).0[i] == 0,
{
    lemma_layout_prefix(t, owner, fields, i + 1);
    let pre = fields.take(i + 1);
    assert(pre.drop_last() =~= fields.take(i));
    assert(pre.last() == fields[i]);
    lemma_layout_align_bound(t, owner, fields.take(i));
    lemma_layout_align_bound(t, owner, pre);
    lemma_layout_align_bound(t, owner, fields);
    let before = struct_layout(t, owner, fields.take(i)).1;
    lemma_align_up_ge(before, type_align(t, fields[i] as nat));
    assert(struct_layout(t, owner, fields).0.take(i + 1)[i] == struct_layout(t, owner, fields).0[i]);
    if i == 0 {
        assert(fields.take(0) =~= Seq::<Ty>::empty());
        assert(struct_layout(t, owner, fields.take(0)).1 == 0);
        let a0 = pow2(type_align(t, fields[i] as nat));
        lemma_pow2_pos(type_align(t, fields[i] as nat));
        assert(0nat % a0 == 0) by (nonlinear_arith)
            requires
                a0 >= 1,
        ;
        assert(align_up(0, a0) == 0);
    }
    let l = struct_layout(t, owner, fields);
    let a = pow2(type_align(t, fields[i] as nat));
    assert(l.0[i] == align_up(before, a));
    assert(l.0[i] % a == 0);
    assert(before <= l.0[i] && l.0[i] < before + a);
    assert(struct_layout(t, owner, fields.take(i + 1)).1 == l.0[i] + type_size(t, fields[i] as nat));
}

} // verus!

verus! {

/// Sizes carry no trailing padding. Rounding a type's size up to its
/// alignment gives the smallest multiple of that alignment that is no
/// smaller than the size.
pub proof fn lemma_trailing_padding(t: Seq<TypeV>, ty: nat)
    ensures
        align_up(type_size(t, ty), pow2(type_align(t, ty))) % pow2(type_align(t, ty)) == 0,
        type_size(t, ty) <= align_up(type_size(t, ty), pow2(type_align(t, ty))),
        align_up(type_size(t, ty), pow2(type_align(t, ty))) < type_size(t, ty) + pow2(type_align(t, ty)),
{
    lemma_align_up_ge(type_size(t, ty), type_align(t, ty));
}

} // verus!

verus! {

/// A target ABI: how types are represented, sized, aligned and laid out.
pub trait Abi {
    /// The backend value type of a (non-struct) type.
    spec fn backend_of(v: TypeV) -> BackendType;

    /// The size in bytes of the type at `ty`.
    spec fn size_of(t: Seq<TypeV>, ty: nat) -> nat;

    /// The alignment of the type at `ty`, as an exponent of two.
    spec fn align_of(t: Seq<TypeV>, ty: nat) -> nat;

    /// The start offset of each field of a struct with these fields, and its size.
    spec fn layout_of(t: Seq<TypeV>, fields: Seq<Ty>) -> (Seq<nat>, nat);

    /// Whether the table's types can be laid out on this target.
    spec fn table_fits(t: Seq<TypeV>) -> bool;

    spec fn little_endian() -> bool;

    fn compile_type(table: &TypeTable, ty: Ty) -> (r: BackendType)
        requires
            ty < table@.len(),
            !table@[ty as int].is_struct(),
        ensures
            r == Self::backend_of(table@[ty as int]);

    fn type_sizeof(table: &TypeTable, ty: Ty) -> (r: usize)
        requires
            table.wf(),
            Self::table_fits(table@),
            ty < table@.len(),
        ensures
            r == Self::size_of(table@, ty as nat);

    fn type_alignment(table: &TypeTable, ty: Ty) -> (r: usize)
        requires
            table.wf(),
            Self::table_fits(table@),
            ty < table@.len(),
        ensures
            r == Self::align_of(table@, ty as nat);

    fn struct_field_offset(table: &TypeTable, struct_fields: &Vec<Ty>, field_n: usize) -> (r: usize)
        requires
            table.wf(),
            Self::table_fits(table@),
            tys_in(struct_fields@, table@.len()),
            Self::layout_of(table@, struct_fields@).1 <= usize::MAX,
            field_n < struct_fields@.len(),
        ensures
            r == Self::layout_of(table@, struct_fields@).0[field_n as int];

    fn is_little_endian() -> (r: bool)
        ensures
            r == Self::little_endian();
}

impl Abi for Wasm32Abi {
    open spec fn backend_of(v: TypeV) -> BackendType {
        spec_compile_type(v)
    }

    open spec fn size_of(t: Seq<TypeV>, ty: nat) -> nat {
        type_size(t, ty)
    }

    open spec fn align_of(t: Seq<TypeV>, ty: nat) -> nat {
        type_align(t, ty)
    }

    open spec fn layout_of(t: Seq<TypeV>, fields: Seq<Ty>) -> (Seq<nat>, nat) {
        (fields_layout(t, fields).0, fields_layout(t, fields).1)
    }

    open spec fn table_fits(t: Seq<TypeV>) -> bool {
        sizes_fit(t)
    }

    open spec fn little_endian() -> bool {
        true
    }

    fn compile_type(table: &TypeTable, ty: Ty) -> (r: BackendType) {
        Wasm32Abi::backend_type(table, ty)
    }

    fn type_sizeof(table: &TypeTable, ty: Ty) -> (r: usize) {
        Wasm32Abi::size_in_bytes(table, ty)
    }

    fn type_alignment(table: &TypeTable, ty: Ty) -> (r: usize) {
        Wasm32Abi::alignment_exponent(table, ty)
    }

    fn struct_field_offset(table: &TypeTable, struct_fields: &Vec<Ty>, field_n: usize) -> (r: usize) {
        Wasm32Abi::field_offset(table, struct_fields, field_n)
    }

    fn is_little_endian() -> (r: bool) {
        true
    }
}

} // verus!

verus! {

/// The padding inserted before field `i`.
pub open spec fn padding_at(t: Seq<TypeV>, owner: nat, fields: Seq<Ty>, i: int) -> int {
    struct_layout(t, owner, fields).0[i] - struct_layout(t, owner, fields.take(i)).1
}

/// The sizes of the first `k` fields plus the padding before each of them.
pub open spec fn sizes_and_paddings(t: Seq<TypeV>, owner: nat, fields: Seq<Ty>, k: int) -> int
    decreases k,
{
    if k <= 0 {
        0
    } else {
        sizes_and_paddings(t, owner, fields, k - 1) + padding_at(t, owner, fields, k - 1) + type_size(t, fields[k - 1] as nat)
    }
}

proof fn lemma_end_is_sum(t: Seq<TypeV>, owner: nat, fields: Seq<Ty>, k: int)
    requires
        0 <= k <= fields.len(),
        tys_in(fields, owner),
    ensures
        struct_layout(t, owner, fields.take(k)).1 == sizes_and_paddings(t, owner, fields, k),
    decreases k,
{
    if k == 0 {
        assert(fields.take(0) =~= Seq::<Ty>::empty());
    } else {
        lemma_end_is_sum(t, owner, fields, k - 1);
        lemma_struct_field_offset(t, owner, fields, k - 1);
    }
}

/// The padding law in sum form: field `n` starts after the sizes of the
/// fields before it and the padding before each field up to and including
/// itself; each padding is the least that makes its field's start a multiple
/// of that field's alignment.
pub proof fn lemma_struct_field_offset_sum(t: Seq<TypeV>, owner: nat, fields: Seq<Ty>, n: int)
    requires
        0 <= n < fields.len(),
        tys_in(fields, owner),
    ensures
        struct_layout(t, owner, fields).0[n] == sizes_and_paddings(t, owner, fields, n) + padding_at(t, owner, fields, n),
        forall|i: int| 0 <= i <= n ==> {
            let before = struct_layout(t, owner, fields.take(i)).1;
            let a = pow2(type_align(t, fields[i] as nat));
            &&& #[trigger] padding_at(t, owner, fields, i) >= 0
            &&& (before + padding_at(t, owner, fields, i)) % (a as int) == 0
            &&& forall|p: int| 0 <= p < padding_at(t, owner, fields, i) ==> #[trigger] ((before + p) % (a as int)) != 0
        },
{
    lemma_end_is_sum(t, owner, fields, n);
    assert forall|i: int| 0 <= i <= n implies {
        let before = struct_layout(t, owner, fields.take(i)).1;
        let a = pow2(type_align(t, fields[i] as nat));
        &&& #[trigger] padding_at(t, owner, fields, i) >= 0
        &&& (before + padding_at(t, owner, fields, i)) % (a as int) == 0
        &&& forall|p: int| 0 <= p < padding_at(t, owner, fields, i) ==> #[trigger] ((before + p) % (a as int)) != 0
    } by {
        lemma_struct_field_offset(t, owner, fields, i);
        let before = struct_layout(t, owner, fields.take(i)).1;
        let a = pow2(type_align(t, fields[i] as nat)) as int;
        let start = struct_layout(t, owner, fields).0[i] as int;
        lemma_pow2_pos(type_align(t, fields[i] as nat));
        assert forall|p: int| 0 <= p < padding_at(t, owner, fields, i) implies #[trigger] ((before + p) % a) != 0 by {
            let x = before + p;
            if x % a == 0 {
                vstd::arithmetic::div_mod::lemma_fundamental_div_mod(x, a);
                vstd::arithmetic::div_mod::lemma_fundamental_div_mod(start, a);
                let q1 = x / a;
                let q2 = start / a;
                assert(x == a * q1);
                assert(start == a * q2);
                assert(q2 > q1) by (nonlinear_arith)
                    requires
                        x == a * q1,
                        start == a * q2,
                        x < start,
                        a >= 1,
                ;
                assert(start - x >= a) by (nonlinear_arith)
                    requires
                        x == a * q1,
                        start == a * q2,
                        q2 >= q1 + 1,
                        a >= 1,
                ;
            }
        }
    }
}

} // verus!
