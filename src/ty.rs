//! Structural types and the module-scoped type table.
//!
//! A type is referred to by its handle [`Ty`], an index into a [`TypeTable`].
//! The table never holds two structurally equal entries, so two handles are
//! equal exactly when the types they denote are equal.
use vstd::prelude::*;

verus! {

/// A handle to an interned type: its index in the [`TypeTable`].
pub type Ty = usize;

pub const INT32_T: Ty = 0;
pub const UINT32_T: Ty = 1;
pub const FLOAT32_T: Ty = 2;
pub const PTR_T: Ty = 3;
pub const INT16_T: Ty = 4;
pub const UINT16_T: Ty = 5;
pub const INT8_T: Ty = 6;
pub const UINT8_T: Ty = 7;

/// The number of pre-interned primitive types.
pub const N_PRIMITIVES: usize = 8;

/// A structural type whose components are handles into the same table.
pub enum Type {
    Int8,
    UInt8,
    Int16,
    UInt16,
    Int32,
    UInt32,
    Float32,
    Ptr,
    Func { args: Vec<Ty>, ret: Vec<Ty> },
    Struct { fields: Vec<Ty> },
}

/// The mathematical value of a [`Type`].
pub enum TypeV {
    Int8,
    UInt8,
    Int16,
    UInt16,
    Int32,
    UInt32,
    Float32,
    Ptr,
    Func { args: Seq<Ty>, ret: Seq<Ty> },
    Struct { fields: Seq<Ty> },
}

impl View for Type {
    type V = TypeV;

    open spec fn view(&self) -> TypeV {
        match self {
            Type::Int8 => TypeV::Int8,
            Type::UInt8 => TypeV::UInt8,
            Type::Int16 => TypeV::Int16,
            Type::UInt16 => TypeV::UInt16,
            Type::Int32 => TypeV::Int32,
            Type::UInt32 => TypeV::UInt32,
            Type::Float32 => TypeV::Float32,
            Type::Ptr => TypeV::Ptr,
            Type::Func { args, ret } => TypeV::Func { args: args@, ret: ret@ },
            Type::Struct { fields } => TypeV::Struct { fields: fields@ },
        }
    }
}

impl TypeV {
    pub open spec fn is_int(self) -> bool {
        match self {
            TypeV::Int8 | TypeV::UInt8 | TypeV::Int16 | TypeV::UInt16 | TypeV::Int32
            | TypeV::UInt32 => true,
            _ => false,
        }
    }

    pub open spec fn is_float(self) -> bool {
        self is Float32
    }

    pub open spec fn is_func(self) -> bool {
        self is Func
    }

    pub open spec fn is_ptr(self) -> bool {
        self is Ptr
    }

    pub open spec fn is_struct(self) -> bool {
        self is Struct
    }

    /// The handles that this type refers to.
    pub open spec fn children(self) -> Seq<Ty> {
        match self {
            TypeV::Func { args, ret } => args + ret,
            TypeV::Struct { fields } => fields,
            _ => Seq::empty(),
        }
    }
}

/// The primitive type stored at handle `i`, for `i < N_PRIMITIVES`.
pub open spec fn primitive_at(i: int) -> TypeV {
    if i == 0 {
        TypeV::Int32
    } else if i == 1 {
        TypeV::UInt32
    } else if i == 2 {
        TypeV::Float32
    } else if i == 3 {
        TypeV::Ptr
    } else if i == 4 {
        TypeV::Int16
    } else if i == 5 {
        TypeV::UInt16
    } else if i == 6 {
        TypeV::Int8
    } else {
        TypeV::UInt8
    }
}

impl Type {
    pub fn is_int(&self) -> (r: bool)
        ensures
            r == self@.is_int(),
    {
        match self {
            Type::Int8 | Type::UInt8 | Type::Int16 | Type::UInt16 | Type::Int32 | Type::UInt32 => true,
            _ => false,
        }
    }

    pub fn is_float(&self) -> (r: bool)
        ensures
            r == self@.is_float(),
    {
        match self {
            Type::Float32 => true,
            _ => false,
        }
    }

    pub fn is_func(&self) -> (r: bool)
        ensures
            r == self@.is_func(),
    {
        match self {
            Type::Func { .. } => true,
            _ => false,
        }
    }

    pub fn is_ptr(&self) -> (r: bool)
        ensures
            r == self@.is_ptr(),
    {
        match self {
            Type::Ptr => true,
            _ => false,
        }
    }

    pub fn is_struct(&self) -> (r: bool)
        ensures
            r == self@.is_struct(),
    {
        match self {
            Type::Struct { .. } => true,
            _ => false,
        }
    }

    /// A copy of this type.
    pub fn duplicate(&self) -> (r: Type)
        ensures
            r@ == self@,
    {
        match self {
            Type::Int8 => Type::Int8,
            Type::UInt8 => Type::UInt8,
            Type::Int16 => Type::Int16,
            Type::UInt16 => Type::UInt16,
            Type::Int32 => Type::Int32,
            Type::UInt32 => Type::UInt32,
            Type::Float32 => Type::Float32,
            Type::Ptr => Type::Ptr,
            Type::Func { args, ret } => Type::Func { args: copy_tys(args), ret: copy_tys(ret) },
            Type::Struct { fields } => Type::Struct { fields: copy_tys(fields) },
        }
    }
}

/// A fresh vector holding the same handles.
pub fn copy_tys(v: &Vec<Ty>) -> (r: Vec<Ty>)
    ensures
        r@ == v@,
{
    let mut r: Vec<Ty> = Vec::new();
    let mut i: usize = 0;
    while i < v.len()
        invariant
            i <= v@.len(),
            r@ == v@.subrange(0, i as int),
        decreases v@.len() - i,
    {
        r.push(v[i]);
        i = i + 1;
    }
    assert(r@ =~= v@);
    r
}

/// Whether two handle sequences are equal.
pub fn tys_equal(a: &Vec<Ty>, b: &Vec<Ty>) -> (r: bool)
    ensures
        r == (a@ == b@),
{
    if a.len() != b.len() {
        return false;
    }
    let mut i: usize = 0;
    while i < a.len()
        invariant
            a@.len() == b@.len(),
            i <= a@.len(),
            a@.subrange(0, i as int) == b@.subrange(0, i as int),
        decreases a@.len() - i,
    {
        if a[i] != b[i] {
            return false;
        }
        assert(a@.subrange(0, i + 1) =~= a@.subrange(0, i as int).push(a@[i as int]));
        assert(b@.subrange(0, i + 1) =~= b@.subrange(0, i as int).push(b@[i as int]));
        i = i + 1;
    }
    assert(a@ =~= a@.subrange(0, i as int));
    assert(b@ =~= b@.subrange(0, i as int));
    true
}

/// Whether two types are structurally equal.
pub fn types_equal(a: &Type, b: &Type) -> (r: bool)
    ensures
        r == (a@ == b@),
{
    match (a, b) {
        (Type::Int8, Type::Int8) => true,
        (Type::UInt8, Type::UInt8) => true,
        (Type::Int16, Type::Int16) => true,
        (Type::UInt16, Type::UInt16) => true,
        (Type::Int32, Type::Int32) => true,
        (Type::UInt32, Type::UInt32) => true,
        (Type::Float32, Type::Float32) => true,
        (Type::Ptr, Type::Ptr) => true,
        (Type::Func { args: a1, ret: r1 }, Type::Func { args: a2, ret: r2 }) => {
            tys_equal(a1, a2) && tys_equal(r1, r2)
        },
        (Type::Struct { fields: f1 }, Type::Struct { fields: f2 }) => tys_equal(f1, f2),
        _ => false,
    }
}

/// The interner: every type of a module, each stored once.
pub struct TypeTable {
    pub types: Vec<Type>,
}

impl View for TypeTable {
    type V = Seq<TypeV>;

    open spec fn view(&self) -> Seq<TypeV> {
        self.types@.map_values(|t: Type| t@)
    }
}

/// The well-formedness of a type table, stated on its contents.
pub open spec fn table_wf(t: Seq<TypeV>) -> bool {
    &&& t.len() >= N_PRIMITIVES
    &&& forall|i: int| 0 <= i < N_PRIMITIVES ==> #[trigger] t[i] == primitive_at(i)
    &&& forall|i: int, k: int|
        0 <= i < t.len() && 0 <= k < t[i].children().len() ==> #[trigger] t[i].children()[k] < i
    &&& forall|i: int, j: int| 0 <= i < j < t.len() ==> #[trigger] t[i] != #[trigger] t[j]
}

/// Whether every handle in `s` refers into a table of length `n`.
pub open spec fn tys_in(s: Seq<Ty>, n: nat) -> bool {
    forall|k: int| 0 <= k < s.len() ==> #[trigger] s[k] < n
}

impl TypeTable {
    pub open spec fn wf(&self) -> bool {
        table_wf(self@)
    }

    pub open spec fn spec_len(&self) -> nat {
        self.types@.len()
    }

    /// A table holding the primitive types alone.
    pub fn new() -> (r: TypeTable)
        ensures
            r.wf(),
            r@.len() == N_PRIMITIVES,
    {
        let mut types: Vec<Type> = Vec::new();
        types.push(Type::Int32);
        types.push(Type::UInt32);
        types.push(Type::Float32);
        types.push(Type::Ptr);
        types.push(Type::Int16);
        types.push(Type::UInt16);
        types.push(Type::Int8);
        types.push(Type::UInt8);
        let r = TypeTable { types };
        assert forall|i: int| 0 <= i < N_PRIMITIVES implies #[trigger] r@[i] == primitive_at(i) by {}
        r
    }

    pub fn len(&self) -> (r: usize)
        ensures
            r == self@.len(),
    {
        self.types.len()
    }

    /// The type behind a handle.
    pub fn get(&self, ty: Ty) -> (r: &Type)
        requires
            ty < self@.len(),
        ensures
            r@ == self@[ty as int],
    {
        &self.types[ty]
    }

    /// The handle of `ty`, adding it to the table if no equal type is there yet.
    pub fn intern(&mut self, ty: Type) -> (r: Ty)
        requires
            old(self).wf(),
            tys_in(ty@.children(), old(self)@.len()),
        ensures
            final(self).wf(),
            r < final(self)@.len(),
            final(self)@[r as int] == ty@,
            old(self)@.contains(ty@) ==> final(self)@ == old(self)@,
            !old(self)@.contains(ty@) ==> final(self)@ == old(self)@.push(ty@),
    {
        let mut i: usize = 0;
        while i < self.types.len()
            invariant
                self.wf(),
                i <= self@.len(),
                forall|j: int| 0 <= j < i ==> self@[j] != ty@,
            decreases self@.len() - i,
        {
            if types_equal(&self.types[i], &ty) {
                assert(self@[i as int] == ty@);
                return i;
            }
            i = i + 1;
        }
        proof {
            assert(!self@.contains(ty@));
        }
        let ghost before = self@;
        self.types.push(ty);
        assert(self@ =~= before.push(ty@));
        let n = self.types.len() - 1;
        proof {
            let t = self@;
            assert forall|a: int, k: int|
                0 <= a < t.len() && 0 <= k < t[a].children().len() implies #[trigger] t[a].children()[k] < a by {
                if a < before.len() {
                    assert(t[a] == before[a]);
                }
            }
            assert forall|a: int, b: int| 0 <= a < b < t.len() implies #[trigger] t[a] != #[trigger] t[b] by {
                if b < before.len() {
                    assert(t[a] == before[a]);
                    assert(t[b] == before[b]);
                } else {
                    assert(t[a] == before[a]);
                }
            }
            assert forall|a: int| 0 <= a < N_PRIMITIVES implies #[trigger] t[a] == primitive_at(a) by {
                assert(t[a] == before[a]);
            }
        }
        n
    }
}

} // verus!

verus! {

/// A fresh vector holding the same values.
pub fn copy_u32s(v: &Vec<u32>) -> (r: Vec<u32>)
    ensures
        r@ == v@,
{
    let mut r: Vec<u32> = Vec::new();
    let mut i: usize = 0;
    while i < v.len()
        invariant
            i <= v@.len(),
            r@ == v@.subrange(0, i as int),
        decreases v@.len() - i,
    {
        r.push(v[i]);
        i = i + 1;
    }
    assert(r@ =~= v@);
    r
}

} // verus!
