use swarm_ir::abi::{struct_calc_algorithm, Abi, Wasm32Abi};
use swarm_ir::module::{Module, WasmModuleConf};
use swarm_ir::ty::Type;

#[test]
fn struct_test() {
    let mut m = Module::new(WasmModuleConf::default_conf());
    let f1 = vec![m.int16t(), m.int32t(), m.int8t(), m.uint8t()];
    let struct_t1 = m.intern_type(Type::Struct { fields: f1.clone() });
    let struct_t2 = m.intern_type(Type::Struct { fields: vec![] });
    let f3 = vec![struct_t2, struct_t1, m.float32t(), struct_t1];
    let struct_t3 = m.intern_type(Type::Struct { fields: f3.clone() });

    assert_eq!(Wasm32Abi::type_sizeof(&m.types, struct_t1), 10);
    assert_eq!(Wasm32Abi::type_alignment(&m.types, struct_t1), 2);
    assert_eq!(Wasm32Abi::struct_field_offset(&m.types, &f1, 0), 0);
    assert_eq!(Wasm32Abi::struct_field_offset(&m.types, &f1, 1), 4);
    assert_eq!(Wasm32Abi::struct_field_offset(&m.types, &f1, 2), 8);
    assert_eq!(Wasm32Abi::struct_field_offset(&m.types, &f1, 3), 9);

    assert_eq!(Wasm32Abi::type_sizeof(&m.types, struct_t2), 0);
    assert_eq!(Wasm32Abi::type_alignment(&m.types, struct_t2), 0);

    assert_eq!(Wasm32Abi::type_sizeof(&m.types, struct_t3), 26);
    assert_eq!(Wasm32Abi::type_alignment(&m.types, struct_t3), 2);
    assert_eq!(Wasm32Abi::struct_field_offset(&m.types, &f3, 0), 0);
    assert_eq!(Wasm32Abi::struct_field_offset(&m.types, &f3, 1), 0);
    assert_eq!(Wasm32Abi::struct_field_offset(&m.types, &f3, 2), 12);
    assert_eq!(Wasm32Abi::struct_field_offset(&m.types, &f3, 3), 16);
}

#[test]
fn struct_layout_offsets_size_alignment() {
    let mut m = Module::new(WasmModuleConf::default_conf());
    let fields = vec![m.int16t(), m.int32t(), m.int8t(), m.uint8t()];
    let n = m.types.len();
    let (offsets, size, align) = struct_calc_algorithm(&m.types, n, &fields);
    assert_eq!(offsets, vec![0, 4, 8, 9]);
    assert_eq!(size, 10);
    assert_eq!(align, 2);
    // no trailing padding: the size is not a multiple of the alignment
    assert_ne!(size % 4, 0);
    let _ = m.intern_type(Type::Struct { fields });
}

#[test]
fn primitive_sizes_and_alignments() {
    let m = Module::new(WasmModuleConf::default_conf());
    let t = &m.types;
    assert_eq!(Wasm32Abi::type_sizeof(t, m.int8t()), 1);
    assert_eq!(Wasm32Abi::type_sizeof(t, m.uint16t()), 2);
    assert_eq!(Wasm32Abi::type_sizeof(t, m.int32t()), 4);
    assert_eq!(Wasm32Abi::type_sizeof(t, m.ptr_t()), 4);
    assert_eq!(Wasm32Abi::type_sizeof(t, m.float32t()), 4);
    assert_eq!(Wasm32Abi::type_alignment(t, m.uint8t()), 0);
    assert_eq!(Wasm32Abi::type_alignment(t, m.int16t()), 1);
    assert_eq!(Wasm32Abi::type_alignment(t, m.ptr_t()), 2);
}

#[test]
fn interning_returns_the_same_handle() {
    let mut m = Module::new(WasmModuleConf::default_conf());
    let a = m.intern_type(Type::Func { args: vec![m.int32t()], ret: vec![m.int32t()] });
    let n = m.types.len();
    let b = m.intern_type(Type::Func { args: vec![m.int32t()], ret: vec![m.int32t()] });
    assert_eq!(a, b);
    assert_eq!(m.types.len(), n);
    let c = m.intern_type(Type::Func { args: vec![], ret: vec![m.int32t()] });
    assert_ne!(a, c);
    assert_eq!(m.intern_type(Type::Int32), m.int32t());
}
