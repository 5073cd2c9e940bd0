//! The module: types, functions, globals, static memory and target settings.
use vstd::prelude::*;
use indexmap::IndexMap;
use crate::abi::{sizes_fit, type_size, lemma_sizes_fit_push};
use crate::instr::{BlockTag, Function, InstrBlock};
use crate::metadata::BlockId;
use crate::staticmem::StaticMemory;
use crate::ty::{Ty, Type, TypeTable, TypeV, tys_in, copy_tys, INT32_T, UINT32_T, INT16_T, UINT16_T, INT8_T, UINT8_T, FLOAT32_T, PTR_T};

verus! {

#[verifier::external_type_specification]
#[verifier::external_body]
#[verifier::reject_recursive_types(K)]
#[verifier::reject_recursive_types(V)]
#[verifier::reject_recursive_types(S)]
pub struct ExIndexMap<K, V, S>(IndexMap<K, V, S>);

/// The entries of a function map, in insertion order.
pub uninterp spec fn func_entries(m: IndexMap<String, FuncDef>) -> Seq<(Seq<char>, FuncDef)>;

/// The entries of a global map, in insertion order.
pub uninterp spec fn global_entries(m: IndexMap<String, Global>) -> Seq<(Seq<char>, Global)>;

/// Relies on `IndexMap::new`: the map starts empty.
#[verifier::external_body]
fn fmap_new() -> (r: IndexMap<String, FuncDef>)
    ensures
        func_entries(r) == Seq::<(Seq<char>, FuncDef)>::empty(),
{
    IndexMap::new()
}

/// Relies on `IndexMap::len`: the number of entries.
#[verifier::external_body]
fn fmap_len(m: &IndexMap<String, FuncDef>) -> (r: usize)
    ensures
        r == func_entries(*m).len(),
{
    m.len()
}

/// Relies on `IndexMap::get_index`: the value of the entry at position `i`.
#[verifier::external_body]
fn fmap_get_index(m: &IndexMap<String, FuncDef>, i: usize) -> (r: &FuncDef)
    requires
        i < func_entries(*m).len(),
    ensures
        *r == func_entries(*m)[i as int].1,
{
    m.get_index(i).unwrap().1
}

/// Relies on `IndexMap::get_index_of`: the position of the entry with this key.
#[verifier::external_body]
fn fmap_find(m: &IndexMap<String, FuncDef>, key: &str) -> (r: Option<usize>)
    ensures
        r matches Some(i) ==> i < func_entries(*m).len() && func_entries(*m)[i as int].0 == key@,
        r is None ==> forall|i: int| 0 <= i < func_entries(*m).len() ==> (#[trigger] func_entries(*m)[i]).0 != key@,
{
    m.get_index_of(key)
}

/// Relies on `IndexMap::insert`: a key not yet present is added last.
#[verifier::external_body]
fn fmap_push(m: &mut IndexMap<String, FuncDef>, key: String, value: FuncDef)
    requires
        forall|i: int| 0 <= i < func_entries(*old(m)).len() ==> (#[trigger] func_entries(*old(m))[i]).0 != key@,
    ensures
        func_entries(*final(m)) == func_entries(*old(m)).push((key@, value)),
{
    m.insert(key, value);
}

/// Relies on `IndexMap::get_index_mut`: the value at position `i` is swapped for `value`.
#[verifier::external_body]
fn fmap_replace_at(m: &mut IndexMap<String, FuncDef>, i: usize, value: FuncDef) -> (r: FuncDef)
    requires
        i < func_entries(*old(m)).len(),
    ensures
        r == func_entries(*old(m))[i as int].1,
        func_entries(*final(m)) == func_entries(*old(m)).update(i as int, (func_entries(*old(m))[i as int].0, value)),
{
    std::mem::replace(m.get_index_mut(i).unwrap().1, value)
}

/// Relies on `IndexMap::new`: the map starts empty.
#[verifier::external_body]
fn gmap_new() -> (r: IndexMap<String, Global>)
    ensures
        global_entries(r) == Seq::<(Seq<char>, Global)>::empty(),
{
    IndexMap::new()
}

/// Relies on `IndexMap::len`: the number of entries.
#[verifier::external_body]
fn gmap_len(m: &IndexMap<String, Global>) -> (r: usize)
    ensures
        r == global_entries(*m).len(),
{
    m.len()
}

/// Relies on `IndexMap::get_index`: the value of the entry at position `i`.
#[verifier::external_body]
fn gmap_get_index(m: &IndexMap<String, Global>, i: usize) -> (r: &Global)
    requires
        i < global_entries(*m).len(),
    ensures
        *r == global_entries(*m)[i as int].1,
{
    m.get_index(i).unwrap().1
}

/// Relies on `IndexMap::get_index_of`: the position of the entry with this key.
#[verifier::external_body]
fn gmap_find(m: &IndexMap<String, Global>, key: &str) -> (r: Option<usize>)
    ensures
        r matches Some(i) ==> i < global_entries(*m).len() && global_entries(*m)[i as int].0 == key@,
        r is None ==> forall|i: int| 0 <= i < global_entries(*m).len() ==> (#[trigger] global_entries(*m)[i]).0 != key@,
{
    m.get_index_of(key)
}

/// Relies on `IndexMap::insert`: a key not yet present is added last.
#[verifier::external_body]
fn gmap_push(m: &mut IndexMap<String, Global>, key: String, value: Global)
    requires
        forall|i: int| 0 <= i < global_entries(*old(m)).len() ==> (#[trigger] global_entries(*old(m))[i]).0 != key@,
    ensures
        global_entries(*final(m)) == global_entries(*old(m)).push((key@, value)),
{
    m.insert(key, value);
}

/// Settings of the emitted WebAssembly module.
#[derive(PartialEq, Eq, Structural, Clone, Copy, Debug)]
pub struct WasmModuleConf {
    /// The initial memory size, in pages.
    pub initial_memory_size: u32,
    /// Whether float-to-int conversions saturate instead of trapping.
    pub use_saturating_ftoi: bool,
}

impl WasmModuleConf {
    pub fn default_conf() -> (r: WasmModuleConf)
        ensures
            r.initial_memory_size == 1,
            r.use_saturating_ftoi,
    {
        WasmModuleConf { initial_memory_size: 1, use_saturating_ftoi: true }
    }
}

/// The initial value of a global. A float is held as its IEEE-754 bits.
#[derive(PartialEq, Eq, Structural, Clone, Copy, Debug)]
pub enum GlobalValueInit {
    ConstInt(i32),
    ConstFloat(u32),
}

pub struct Global {
    pub name: String,
    pub ty: Ty,
    pub value: GlobalValueInit,
    /// The global's index, in insertion order.
    pub idx: usize,
}

impl Global {
    pub fn is_int(&self) -> (r: bool)
        ensures
            r == (self.value is ConstInt),
    {
        match self.value {
            GlobalValueInit::ConstInt(_) => true,
            GlobalValueInit::ConstFloat(_) => false,
        }
    }

    pub fn is_float(&self) -> (r: bool)
        ensures
            r == (self.value is ConstFloat),
    {
        !self.is_int()
    }

    pub fn get_int_value(&self) -> (r: i32)
        requires
            self.value is ConstInt,
        ensures
            self.value == GlobalValueInit::ConstInt(r),
    {
        match self.value {
            GlobalValueInit::ConstInt(x) => x,
            GlobalValueInit::ConstFloat(_) => vstd::pervasive::unreached(),
        }
    }

    /// The bits of a float global's initial value.
    pub fn get_float_value(&self) -> (r: u32)
        requires
            self.value is ConstFloat,
        ensures
            self.value == GlobalValueInit::ConstFloat(r),
    {
        match self.value {
            GlobalValueInit::ConstFloat(x) => x,
            GlobalValueInit::ConstInt(_) => vstd::pervasive::unreached(),
        }
    }

    pub fn idx(&self) -> (r: usize)
        ensures
            r == self.idx,
    {
        self.idx
    }
}

/// A function implemented outside the module, known by its signature.
pub struct ExternFunction {
    pub name: String,
    pub ty: Ty,
    pub args: Vec<Ty>,
    pub rets: Vec<Ty>,
    pub idx: usize,
}

impl ExternFunction {
    pub fn new(name: String, ty: Ty, args: Vec<Ty>, rets: Vec<Ty>) -> (r: ExternFunction)
        ensures
            r.name@ == name@,
            r.ty == ty,
            r.args@ == args@,
            r.rets@ == rets@,
            r.idx == usize::MAX,
    {
        ExternFunction { name, ty, args, rets, idx: usize::MAX }
    }

    pub fn ret_tys(&self) -> (r: &Vec<Ty>)
        ensures
            r == &self.rets,
    {
        &self.rets
    }

    pub fn arg_tys(&self) -> (r: &Vec<Ty>)
        ensures
            r == &self.args,
    {
        &self.args
    }
}

pub enum FuncDef {
    Local(Function),
    Extern(ExternFunction),
}

impl FuncDef {
    pub open spec fn spec_name(&self) -> Seq<char> {
        match self {
            FuncDef::Local(f) => f.name@,
            FuncDef::Extern(f) => f.name@,
        }
    }

    pub open spec fn spec_ty(&self) -> Ty {
        match self {
            FuncDef::Local(f) => f.ty,
            FuncDef::Extern(f) => f.ty,
        }
    }

    pub open spec fn spec_idx(&self) -> usize {
        match self {
            FuncDef::Local(f) => f.idx,
            FuncDef::Extern(f) => f.idx,
        }
    }

    pub open spec fn spec_args(&self) -> Seq<Ty> {
        match self {
            FuncDef::Local(f) => f.args@,
            FuncDef::Extern(f) => f.args@,
        }
    }

    pub open spec fn spec_rets(&self) -> Seq<Ty> {
        match self {
            FuncDef::Local(f) => f.rets@,
            FuncDef::Extern(f) => f.rets@,
        }
    }

    pub fn is_local(&self) -> (r: bool)
        ensures
            r == (self is Local),
    {
        match self {
            FuncDef::Local(_) => true,
            FuncDef::Extern(_) => false,
        }
    }

    pub fn is_extern(&self) -> (r: bool)
        ensures
            r == (self is Extern),
    {
        !self.is_local()
    }

    pub fn unwrap_local(&self) -> (r: &Function)
        requires
            self is Local,
        ensures
            self == FuncDef::Local(*r),
    {
        match self {
            FuncDef::Local(f) => f,
            FuncDef::Extern(_) => vstd::pervasive::unreached(),
        }
    }

    pub fn name(&self) -> (r: &String)
        ensures
            r@ == self.spec_name(),
    {
        match self {
            FuncDef::Local(f) => &f.name,
            FuncDef::Extern(f) => &f.name,
        }
    }

    pub fn ty(&self) -> (r: Ty)
        ensures
            r == self.spec_ty(),
    {
        match self {
            FuncDef::Local(f) => f.ty,
            FuncDef::Extern(f) => f.ty,
        }
    }

    pub fn idx(&self) -> (r: usize)
        ensures
            r == self.spec_idx(),
    {
        match self {
            FuncDef::Local(f) => f.idx,
            FuncDef::Extern(f) => f.idx,
        }
    }

    pub fn arg_tys(&self) -> (r: &Vec<Ty>)
        ensures
            r@ == self.spec_args(),
    {
        match self {
            FuncDef::Local(f) => &f.args,
            FuncDef::Extern(f) => &f.args,
        }
    }

    pub fn ret_tys(&self) -> (r: &Vec<Ty>)
        ensures
            r@ == self.spec_rets(),
    {
        match self {
            FuncDef::Local(f) => &f.rets,
            FuncDef::Extern(f) => &f.rets,
        }
    }
}

/// Why a function or global could not be added to a module.
#[derive(PartialEq, Eq, Structural, Clone, Copy, Debug)]
pub enum ModuleError {
    /// A function or global of this name already exists.
    DuplicateName,
    /// An extern function was added after a local one.
    ExternAfterLocal,
    /// The function's signature does not agree with its type.
    InvalidSignature,
}

pub struct Module {
    pub types: TypeTable,
    pub functions: IndexMap<String, FuncDef>,
    pub globals: IndexMap<String, Global>,
    pub static_memory: StaticMemory,
    pub conf: WasmModuleConf,
}

/// A function definition agrees with the type table.
pub open spec fn funcdef_typed(t: Seq<TypeV>, f: FuncDef) -> bool {
    &&& f.spec_ty() < t.len()
    &&& t[f.spec_ty() as int] == (TypeV::Func { args: f.spec_args(), ret: f.spec_rets() })
    &&& f matches FuncDef::Local(lf) ==> lf.wf()
}

/// `f` with its module index set to `i`.
pub open spec fn with_idx(f: Function, i: usize) -> Function {
    Function { idx: i, ..f }
}

/// Two functions share name, type, argument and return lists, and index.
pub open spec fn same_signature(a: Function, b: Function) -> bool {
    &&& a.name@ == b.name@
    &&& a.ty == b.ty
    &&& a.args@ == b.args@
    &&& a.rets@ == b.rets@
    &&& a.idx == b.idx
}

impl Module {
    /// The function definitions, in index order.
    pub open spec fn funcs(&self) -> Seq<FuncDef> {
        func_entries(self.functions).map_values(|e: (Seq<char>, FuncDef)| e.1)
    }

    /// The globals, in index order.
    pub open spec fn globals(&self) -> Seq<Global> {
        global_entries(self.globals).map_values(|e: (Seq<char>, Global)| e.1)
    }

    pub open spec fn func_keys(&self) -> Seq<Seq<char>> {
        func_entries(self.functions).map_values(|e: (Seq<char>, FuncDef)| e.0)
    }

    pub open spec fn global_keys(&self) -> Seq<Seq<char>> {
        global_entries(self.globals).map_values(|e: (Seq<char>, Global)| e.0)
    }

    pub open spec fn wf(&self) -> bool {
        &&& self.types.wf()
        &&& sizes_fit(self.types@)
        &&& self.func_keys().len() == self.funcs().len()
        &&& self.global_keys().len() == self.globals().len()
        &&& forall|i: int| 0 <= i < self.funcs().len() ==> #[trigger] self.func_keys()[i] == self.funcs()[i].spec_name()
        &&& forall|i: int| 0 <= i < self.funcs().len() ==> #[trigger] self.funcs()[i].spec_idx() == i
        &&& forall|i: int| 0 <= i < self.funcs().len() ==> funcdef_typed(self.types@, #[trigger] self.funcs()[i])
        &&& forall|i: int, j: int| 0 <= i < j < self.funcs().len() && (#[trigger] self.funcs()[j]) is Extern ==> (#[trigger] self.funcs()[i]) is Extern
        &&& forall|i: int, j: int| 0 <= i < j < self.funcs().len() ==> (#[trigger] self.funcs()[i]).spec_name() != (#[trigger] self.funcs()[j]).spec_name()
        &&& forall|i: int| 0 <= i < self.globals().len() ==> #[trigger] self.global_keys()[i] == self.globals()[i].name@
        &&& forall|i: int| 0 <= i < self.globals().len() ==> (#[trigger] self.globals()[i]).idx == i
        &&& forall|i: int, j: int| 0 <= i < j < self.globals().len() ==> (#[trigger] self.globals()[i]).name@ != (#[trigger] self.globals()[j]).name@
        &&& forall|i: int| 0 <= i < self.globals().len() ==> ((#[trigger] self.globals()[i]).ty == INT32_T || self.globals()[i].ty == FLOAT32_T)
        &&& self.static_memory.wf()
    }

    proof fn lemma_views(&self)
        ensures
            self.funcs().len() == func_entries(self.functions).len(),
            self.func_keys().len() == func_entries(self.functions).len(),
            self.globals().len() == global_entries(self.globals).len(),
            self.global_keys().len() == global_entries(self.globals).len(),
            forall|i: int| 0 <= i < self.funcs().len() ==> #[trigger] self.funcs()[i] == func_entries(self.functions)[i].1,
            forall|i: int| 0 <= i < self.funcs().len() ==> #[trigger] self.func_keys()[i] == func_entries(self.functions)[i].0,
            forall|i: int| 0 <= i < self.globals().len() ==> #[trigger] self.globals()[i] == global_entries(self.globals)[i].1,
            forall|i: int| 0 <= i < self.globals().len() ==> #[trigger] self.global_keys()[i] == global_entries(self.globals)[i].0,
    {
    }

    pub fn new(conf: WasmModuleConf) -> (r: Module)
        ensures
            r.wf(),
            r.funcs().len() == 0,
            r.globals().len() == 0,
            r.types@.len() == crate::ty::N_PRIMITIVES,
            r.static_memory.items@.len() == 0,
            r.conf == conf,
    {
        let r = Module {
            types: TypeTable::new(),
            functions: fmap_new(),
            globals: gmap_new(),
            static_memory: StaticMemory::new(),
            conf,
        };
        proof {
            r.lemma_views();
            crate::abi::lemma_primitive_sizes(r.types@);
        }
        r
    }

    pub fn int32t(&self) -> (r: Ty) ensures r == INT32_T { INT32_T }
    pub fn uint32t(&self) -> (r: Ty) ensures r == UINT32_T { UINT32_T }
    pub fn int16t(&self) -> (r: Ty) ensures r == INT16_T { INT16_T }
    pub fn uint16t(&self) -> (r: Ty) ensures r == UINT16_T { UINT16_T }
    pub fn int8t(&self) -> (r: Ty) ensures r == INT8_T { INT8_T }
    pub fn uint8t(&self) -> (r: Ty) ensures r == UINT8_T { UINT8_T }
    pub fn float32t(&self) -> (r: Ty) ensures r == FLOAT32_T { FLOAT32_T }
    pub fn ptr_t(&self) -> (r: Ty) ensures r == PTR_T { PTR_T }

    /// The number of functions, extern and local.
    pub fn function_count(&self) -> (r: usize)
        ensures
            r == self.funcs().len(),
    {
        proof { self.lemma_views(); }
        fmap_len(&self.functions)
    }

    pub fn function_get_by_idx(&self, idx: usize) -> (r: &FuncDef)
        requires
            idx < self.funcs().len(),
        ensures
            *r == self.funcs()[idx as int],
    {
        proof { self.lemma_views(); }
        fmap_get_index(&self.functions, idx)
    }

    /// The function of this name, if there is one.
    pub fn get_function(&self, name: &str) -> (r: Option<&FuncDef>)
        requires
            self.wf(),
        ensures
            r matches Some(f) ==> exists|i: int| 0 <= i < self.funcs().len() && self.funcs()[i] == *f && f.spec_name() == name@,
            r is None ==> forall|i: int| 0 <= i < self.funcs().len() ==> (#[trigger] self.funcs()[i]).spec_name() != name@,
    {
        proof { self.lemma_views(); }
        match fmap_find(&self.functions, name) {
            Some(i) => {
                let f = fmap_get_index(&self.functions, i);
                assert(self.funcs()[i as int] == *f);
                assert(self.func_keys()[i as int] == name@);
                Some(f)
            },
            None => {
                assert forall|i: int| 0 <= i < self.funcs().len() implies (#[trigger] self.funcs()[i]).spec_name() != name@ by {
                    assert(self.func_keys()[i] == func_entries(self.functions)[i].0);
                }
                None
            },
        }
    }

    /// The global of this name, if there is one.
    pub fn get_global(&self, name: &str) -> (r: Option<&Global>)
        requires
            self.wf(),
        ensures
            r matches Some(g) ==> exists|i: int| 0 <= i < self.globals().len() && self.globals()[i] == *g && g.name@ == name@,
            r is None ==> forall|i: int| 0 <= i < self.globals().len() ==> (#[trigger] self.globals()[i]).name@ != name@,
    {
        proof { self.lemma_views(); }
        match gmap_find(&self.globals, name) {
            Some(i) => {
                let g = gmap_get_index(&self.globals, i);
                assert(self.globals()[i as int] == *g);
                assert(self.global_keys()[i as int] == name@);
                Some(g)
            },
            None => {
                assert forall|i: int| 0 <= i < self.globals().len() implies (#[trigger] self.globals()[i]).name@ != name@ by {
                    assert(self.global_keys()[i] == global_entries(self.globals)[i].0);
                }
                None
            },
        }
    }

    /// The handle of a type, interning it if needed.
    pub fn intern_type(&mut self, ty: Type) -> (r: Ty)
        requires
            old(self).wf(),
            tys_in(ty@.children(), old(self).types@.len()),
            type_size(old(self).types@.push(ty@), old(self).types@.len()) <= u32::MAX,
        ensures
            final(self).wf(),
            r < final(self).types@.len(),
            final(self).types@[r as int] == ty@,
            final(self).types@.len() >= old(self).types@.len(),
            final(self).types@.take(old(self).types@.len() as int) == old(self).types@,
            final(self).funcs() == old(self).funcs(),
            final(self).globals() == old(self).globals(),
            final(self).static_memory == old(self).static_memory,
            final(self).conf == old(self).conf,
    {
        let ghost before = self.types@;
        proof {
            self.lemma_views();
        }
        let r = self.types.intern(ty);
        proof {
            if !before.contains(ty@) {
                lemma_sizes_fit_push(before, ty@);
                assert forall|i: int| 0 <= i < self.funcs().len() implies funcdef_typed(self.types@, #[trigger] self.funcs()[i]) by {
                    assert(funcdef_typed(before, self.funcs()[i]));
                    assert(self.types@[self.funcs()[i].spec_ty() as int] == before[self.funcs()[i].spec_ty() as int]);
                }
            }
            assert(self.types@.take(before.len() as int) =~= before);
        }
        r
    }

    /// Add a local function; its index is the number of functions before it.
    pub fn add_function(&mut self, function: Function) -> (r: Result<(), ModuleError>)
        requires
            old(self).wf(),
            old(self).funcs().len() < usize::MAX,
            function.wf(),
            function.typed_in(old(self).types@),
        ensures
            final(self).wf(),
            final(self).types == old(self).types,
            final(self).globals() == old(self).globals(),
            final(self).conf == old(self).conf,
            r is Ok <==> forall|i: int| 0 <= i < old(self).funcs().len() ==> (#[trigger] old(self).funcs()[i]).spec_name() != function.name@,
            r is Ok ==> final(self).funcs() == old(self).funcs().push(FuncDef::Local(with_idx(function, old(self).funcs().len() as usize))),
            r is Err ==> r == Err::<(), ModuleError>(ModuleError::DuplicateName) && final(self).funcs() == old(self).funcs(),
    {
        proof { self.lemma_views(); }
        if let Some(j) = fmap_find(&self.functions, function.name.as_str()) {
            assert(self.func_keys()[j as int] == function.name@);
            assert(self.funcs()[j as int].spec_name() == function.name@);
            return Err(ModuleError::DuplicateName);
        }
        let n = fmap_len(&self.functions);
        let mut function = function;
        function.idx = n;
        let name = function.name.clone();
        let ghost before = *self;
        fmap_push(&mut self.functions, name, FuncDef::Local(function));
        proof {
            self.lemma_views();
            before.lemma_views();
            assert(self.funcs() =~= before.funcs().push(FuncDef::Local(function)));
            assert(self.func_keys() =~= before.func_keys().push(function.name@));
            assert forall|i: int| 0 <= i < before.funcs().len() implies (#[trigger] before.funcs()[i]).spec_name() != function.name@ by {
                assert(before.func_keys()[i] == func_entries(before.functions)[i].0);
            }
        }
        Ok(())
    }

    /// Add an extern function. Extern functions must all come before the first local one.
    pub fn add_extern_function(&mut self, function: ExternFunction) -> (r: Result<(), ModuleError>)
        requires
            old(self).wf(),
            old(self).funcs().len() < usize::MAX,
            function.ty < old(self).types@.len(),
            old(self).types@[function.ty as int] == (TypeV::Func { args: function.args@, ret: function.rets@ }),
        ensures
            final(self).wf(),
            final(self).types == old(self).types,
            final(self).globals() == old(self).globals(),
            final(self).conf == old(self).conf,
            r == Err::<(), ModuleError>(ModuleError::DuplicateName) <==> exists|i: int| 0 <= i < old(self).funcs().len() && (#[trigger] old(self).funcs()[i]).spec_name() == function.name@,
            r == Err::<(), ModuleError>(ModuleError::ExternAfterLocal) <==> (forall|i: int| 0 <= i < old(self).funcs().len() ==> (#[trigger] old(self).funcs()[i]).spec_name() != function.name@)
                && exists|i: int| 0 <= i < old(self).funcs().len() && (#[trigger] old(self).funcs()[i]) is Local,
            r is Ok ==> final(self).funcs() == old(self).funcs().push(FuncDef::Extern(ExternFunction { idx: old(self).funcs().len() as usize, ..function })),
            r is Err ==> final(self).funcs() == old(self).funcs(),
    {
        proof { self.lemma_views(); }
        if let Some(j) = fmap_find(&self.functions, function.name.as_str()) {
            assert(self.func_keys()[j as int] == function.name@);
            assert(self.funcs()[j as int].spec_name() == function.name@);
            return Err(ModuleError::DuplicateName);
        }
        proof {
            assert forall|i: int| 0 <= i < self.funcs().len() implies (#[trigger] self.funcs()[i]).spec_name() != function.name@ by {
                assert(self.func_keys()[i] == func_entries(self.functions)[i].0);
            }
        }
        let n = fmap_len(&self.functions);
        if n > 0 && fmap_get_index(&self.functions, n - 1).is_local() {
            assert(self.funcs()[n - 1] is Local);
            return Err(ModuleError::ExternAfterLocal);
        }
        proof {
            assert forall|i: int| 0 <= i < self.funcs().len() implies !((#[trigger] self.funcs()[i]) is Local) by {
                if i < n - 1 {
                    assert(self.funcs()[n - 1] is Extern);
                }
            }
        }
        let mut function = function;
        function.idx = n;
        let name = function.name.clone();
        let ghost before = *self;
        fmap_push(&mut self.functions, name, FuncDef::Extern(function));
        proof {
            self.lemma_views();
            before.lemma_views();
            assert(self.funcs() =~= before.funcs().push(FuncDef::Extern(function)));
            assert(self.func_keys() =~= before.func_keys().push(function.name@));
        }
        Ok(())
    }

    fn new_global(&mut self, name: String, ty: Ty, value: GlobalValueInit) -> (r: Result<(), ModuleError>)
        requires
            old(self).wf(),
            ty == INT32_T || ty == FLOAT32_T,
        ensures
            final(self).wf(),
            final(self).types == old(self).types,
            final(self).funcs() == old(self).funcs(),
            final(self).conf == old(self).conf,
            r is Ok <==> forall|i: int| 0 <= i < old(self).globals().len() ==> (#[trigger] old(self).globals()[i]).name@ != name@,
            r is Ok ==> final(self).globals().len() == old(self).globals().len() + 1
                && final(self).globals().take(old(self).globals().len() as int) == old(self).globals()
                && final(self).globals().last().name@ == name@
                && final(self).globals().last().ty == ty
                && final(self).globals().last().value == value
                && final(self).globals().last().idx == old(self).globals().len(),
            r is Err ==> r == Err::<(), ModuleError>(ModuleError::DuplicateName) && final(self).globals() == old(self).globals(),
    {
        proof { self.lemma_views(); }
        if let Some(j) = gmap_find(&self.globals, name.as_str()) {
            assert(self.global_keys()[j as int] == name@);
            assert(self.globals()[j as int].name@ == name@);
            return Err(ModuleError::DuplicateName);
        }
        proof {
            assert forall|i: int| 0 <= i < self.globals().len() implies (#[trigger] self.globals()[i]).name@ != name@ by {
                assert(self.global_keys()[i] == global_entries(self.globals)[i].0);
            }
        }
        let idx = gmap_len(&self.globals);
        let g = Global { name: name.clone(), ty, value, idx };
        let ghost before = *self;
        gmap_push(&mut self.globals, name, g);
        proof {
            self.lemma_views();
            before.lemma_views();
            assert(self.globals() =~= before.globals().push(g));
            assert(self.global_keys() =~= before.global_keys().push(g.name@));
            assert(self.globals().take(before.globals().len() as int) =~= before.globals());
        }
        Ok(())
    }

    /// Add a global of type `int32`.
    pub fn new_int_global(&mut self, name: String, value: i32) -> (r: Result<(), ModuleError>)
        requires
            old(self).wf(),
        ensures
            final(self).wf(),
            final(self).types == old(self).types,
            final(self).funcs() == old(self).funcs(),
            r is Ok <==> forall|i: int| 0 <= i < old(self).globals().len() ==> (#[trigger] old(self).globals()[i]).name@ != name@,
            r is Ok ==> final(self).globals().len() == old(self).globals().len() + 1
                && final(self).globals().take(old(self).globals().len() as int) == old(self).globals()
                && final(self).globals().last().name@ == name@
                && final(self).globals().last().ty == INT32_T
                && final(self).globals().last().value == GlobalValueInit::ConstInt(value)
                && final(self).globals().last().idx == old(self).globals().len(),
            r is Err ==> r == Err::<(), ModuleError>(ModuleError::DuplicateName) && final(self).globals() == old(self).globals(),
    {
        self.new_global(name, INT32_T, GlobalValueInit::ConstInt(value))
    }

    /// Add a global of type `float32`, given the bits of its initial value.
    pub fn new_float_global(&mut self, name: String, value_bits: u32) -> (r: Result<(), ModuleError>)
        requires
            old(self).wf(),
        ensures
            final(self).wf(),
            final(self).types == old(self).types,
            final(self).funcs() == old(self).funcs(),
            r is Ok <==> forall|i: int| 0 <= i < old(self).globals().len() ==> (#[trigger] old(self).globals()[i]).name@ != name@,
            r is Ok ==> final(self).globals().len() == old(self).globals().len() + 1
                && final(self).globals().take(old(self).globals().len() as int) == old(self).globals()
                && final(self).globals().last().name@ == name@
                && final(self).globals().last().ty == FLOAT32_T
                && final(self).globals().last().value == GlobalValueInit::ConstFloat(value_bits)
                && final(self).globals().last().idx == old(self).globals().len(),
            r is Err ==> r == Err::<(), ModuleError>(ModuleError::DuplicateName) && final(self).globals() == old(self).globals(),
    {
        self.new_global(name, FLOAT32_T, GlobalValueInit::ConstFloat(value_bits))
    }

    /// Swap the local function at `idx` for `f`, which has the same signature, and return the old one.
    pub fn replace_local_function(&mut self, idx: usize, f: Function) -> (r: Function)
        requires
            old(self).wf(),
            idx < old(self).funcs().len(),
            old(self).funcs()[idx as int] matches FuncDef::Local(g) && same_signature(g, f),
            f.wf(),
        ensures
            final(self).wf(),
            FuncDef::Local(r) == old(self).funcs()[idx as int],
            final(self).funcs() == old(self).funcs().update(idx as int, FuncDef::Local(f)),
            final(self).types == old(self).types,
            final(self).globals() == old(self).globals(),
            final(self).static_memory == old(self).static_memory,
            final(self).conf == old(self).conf,
    {
        let ghost before = *self;
        proof { self.lemma_views(); }
        let old_f = fmap_replace_at(&mut self.functions, idx, FuncDef::Local(f));
        proof {
            self.lemma_views();
            assert(self.funcs() =~= before.funcs().update(idx as int, FuncDef::Local(f)));
            assert(self.func_keys() =~= before.func_keys());
            assert(funcdef_typed(self.types@, before.funcs()[idx as int]));
            let fs = self.funcs();
            let bs = before.funcs();
            assert forall|i: int| 0 <= i < fs.len() implies #[trigger] fs[i].spec_name() == bs[i].spec_name()
                && (fs[i] is Extern <==> bs[i] is Extern) by {}
            assert forall|i: int| 0 <= i < fs.len() implies #[trigger] fs[i].spec_idx() == i by {
                assert(bs[i].spec_idx() == i);
            }
            assert forall|i: int| 0 <= i < fs.len() implies funcdef_typed(self.types@, #[trigger] fs[i]) by {
                assert(funcdef_typed(self.types@, bs[i]));
            }
            assert forall|i: int| 0 <= i < fs.len() implies #[trigger] self.func_keys()[i] == fs[i].spec_name() by {
                assert(before.func_keys()[i] == bs[i].spec_name());
                assert(fs[i].spec_name() == bs[i].spec_name());
            }
            assert forall|i: int, j: int| 0 <= i < j < fs.len() && (#[trigger] fs[j]) is Extern implies (#[trigger] fs[i]) is Extern by {
                assert(fs[j].spec_name() == bs[j].spec_name());
                assert(fs[i].spec_name() == bs[i].spec_name());
            }
            assert forall|i: int, j: int| 0 <= i < j < fs.len() implies (#[trigger] fs[i]).spec_name() != (#[trigger] fs[j]).spec_name() by {
                assert(fs[j].spec_name() == bs[j].spec_name());
                assert(fs[i].spec_name() == bs[i].spec_name());
            }
            assert(self.wf());
        }
        match old_f {
            FuncDef::Local(g) => g,
            FuncDef::Extern(_) => vstd::pervasive::unreached(),
        }
    }

    /// A stand-in with the same signature as the local function at `idx`.
    pub fn placeholder_for(&self, idx: usize) -> (r: Function)
        requires
            self.wf(),
            idx < self.funcs().len(),
            self.funcs()[idx as int] is Local,
        ensures
            self.funcs()[idx as int] matches FuncDef::Local(g) && same_signature(g, r),
            r.wf(),
    {
        let g = self.function_get_by_idx(idx).unwrap_local();
        let block = InstrBlock::new(BlockId(0), g.ty, Vec::new(), BlockTag::Main);
        let mut blocks: Vec<InstrBlock> = Vec::new();
        blocks.push(block);
        let args = copy_tys(&g.args);
        let locals = copy_tys(&g.args);
        assert(locals@.take(args@.len() as int) =~= args@);
        Function { name: g.name.clone(), ty: g.ty, args, rets: copy_tys(&g.rets), blocks, all_locals_types: locals, idx: g.idx }
    }

    pub fn global_count(&self) -> (r: usize)
        ensures
            r == self.globals().len(),
    {
        proof { self.lemma_views(); }
        gmap_len(&self.globals)
    }

    pub fn global_get_by_idx(&self, idx: usize) -> (r: &Global)
        requires
            idx < self.globals().len(),
        ensures
            *r == self.globals()[idx as int],
    {
        proof { self.lemma_views(); }
        gmap_get_index(&self.globals, idx)
    }
}

} // verus!

verus! {

/// The function of this name in `m`, if any.
pub open spec fn lookup_func(m: Module, name: Seq<char>) -> Option<FuncDef> {
    if exists|i: int| 0 <= i < m.funcs().len() && (#[trigger] m.funcs()[i]).spec_name() == name {
        Some(m.funcs()[choose|i: int| 0 <= i < m.funcs().len() && (#[trigger] m.funcs()[i]).spec_name() == name])
    } else {
        None
    }
}

/// The global of this name in `m`, if any.
pub open spec fn lookup_global(m: Module, name: Seq<char>) -> Option<Global> {
    if exists|i: int| 0 <= i < m.globals().len() && (#[trigger] m.globals()[i]).name@ == name {
        Some(m.globals()[choose|i: int| 0 <= i < m.globals().len() && (#[trigger] m.globals()[i]).name@ == name])
    } else {
        None
    }
}

impl Module {
    /// The function of this name, as [`lookup_func`] states it.
    pub fn find_function(&self, name: &str) -> (r: Option<&FuncDef>)
        requires
            self.wf(),
        ensures
            r matches Some(f) ==> lookup_func(*self, name@) == Some(*f),
            r is None ==> lookup_func(*self, name@) is None,
    {
        let r = self.get_function(name);
        proof {
            if let Some(f) = r {
                let i = choose|i: int| 0 <= i < self.funcs().len() && self.funcs()[i] == *f && f.spec_name() == name@;
                assert(self.funcs()[i].spec_name() == name@);
                let j = choose|j: int| 0 <= j < self.funcs().len() && (#[trigger] self.funcs()[j]).spec_name() == name@;
                if i < j {
                    assert(self.funcs()[i].spec_name() != self.funcs()[j].spec_name());
                } else if j < i {
                    assert(self.funcs()[j].spec_name() != self.funcs()[i].spec_name());
                }
            }
        }
        r
    }

    /// The global of this name, as [`lookup_global`] states it.
    pub fn find_global(&self, name: &str) -> (r: Option<&Global>)
        requires
            self.wf(),
        ensures
            r matches Some(g) ==> lookup_global(*self, name@) == Some(*g),
            r is None ==> lookup_global(*self, name@) is None,
    {
        let r = self.get_global(name);
        proof {
            self.lemma_views();
            if let Some(g) = r {
                let i = choose|i: int| 0 <= i < self.globals().len() && self.globals()[i] == *g && g.name@ == name@;
                assert(self.globals()[i].name@ == name@);
                let j = choose|j: int| 0 <= j < self.globals().len() && (#[trigger] self.globals()[j]).name@ == name@;
                if i < j {
                    assert(self.globals()[i].name@ != self.globals()[j].name@);
                } else if j < i {
                    assert(self.globals()[j].name@ != self.globals()[i].name@);
                }
            }
        }
        r
    }
}

} // verus!
