use swarm_ir::staticmem::{CompiledStaticMemory, Mutability, SMItem, SMValue, Sign, StaticMemory};

#[test]
fn staticmem_test() {
    let mut mem = StaticMemory::new();
    let i1 = mem.add_item(SMItem {
        value: SMValue::Struct(vec![
            SMValue::Int8(64, Sign::S),
            SMValue::Int16(65535, Sign::U),
            SMValue::Blob(vec![1, 2, 3, 4, 5, 6, 7, 8]),
        ]),
        mutability: Mutability::Const,
        unique: true,
    });
    let i2 = mem.add_item(SMItem {
        value: SMValue::Struct(vec![
            SMValue::Struct(vec![SMValue::PtrTo(i1)]),
            SMValue::Int32(0, Sign::S),
        ]),
        mutability: Mutability::Const,
        unique: true,
    });
    mem.add_item(SMItem {
        value: SMValue::Struct(vec![
            SMValue::Int8(1, Sign::U),
            SMValue::PtrTo(i2),
            SMValue::PtrTo(i1),
        ]),
        mutability: Mutability::Const,
        unique: true,
    });

    let compiled = CompiledStaticMemory::compile(&mem).unwrap();
    assert_eq!(compiled.buf, vec![
        0, 0, 0, 0, 0, 0, 0, 0,
        64,
        0,
        255, 255,
        1, 2, 3, 4, 5, 6, 7, 8,
        8, 0, 0, 0,
        0, 0, 0, 0,
        1,
        0, 0, 0,
        20, 0, 0, 0,
        8, 0, 0, 0
    ]);
}

#[test]
fn static_memory_addresses_and_pointers() {
    let mut mem = StaticMemory::new();
    let a = mem.add_item(SMItem { value: SMValue::Int8(7, Sign::U), mutability: Mutability::Mut, unique: false });
    let b = mem.add_item(SMItem { value: SMValue::Int32(0x0102_0304, Sign::U), mutability: Mutability::Const, unique: true });
    let _c = mem.add_item(SMItem { value: SMValue::PtrTo(b), mutability: Mutability::Const, unique: true });
    let compiled = CompiledStaticMemory::compile(&mem).unwrap();
    assert_eq!(compiled.addresses, vec![8, 12, 16]);
    assert_eq!(a.0, 0);
    assert_eq!(compiled.buf.len(), 20);
    assert_eq!(&compiled.buf[12..16], &[4, 3, 2, 1]);
    // the pointer holds the pointee's address, little-endian
    assert_eq!(&compiled.buf[16..20], &[12, 0, 0, 0]);
}

#[test]
fn empty_static_memory_keeps_the_null_area() {
    let mem = StaticMemory::new();
    let compiled = CompiledStaticMemory::compile(&mem).unwrap();
    assert_eq!(compiled.buf, vec![0; 8]);
    assert!(compiled.addresses.is_empty());
}

#[test]
fn float_items_are_stored_as_bits() {
    let mut mem = StaticMemory::new();
    mem.add_item(SMItem { value: SMValue::Float(1.5f32.to_bits()), mutability: Mutability::Const, unique: true });
    let compiled = CompiledStaticMemory::compile(&mem).unwrap();
    assert_eq!(&compiled.buf[8..12], &1.5f32.to_bits().to_le_bytes());
}
