use nlvm::bytecode::constant_pool::{ConstantPool, ConstantPoolEntry};
use nlvm::bytecode::error::BytecodeError;
use nlvm::bytecode::method_flags;
use nlvm::bytecode::module::{
    check_trailer, read_cp_entry, seal, write_cp_entry, ExceptionTableEntry, FieldDescriptor,
    HashAlgo, LineTableEntry, MethodDescriptor, Module, MAGIC, VERSION,
};
use nlvm::bytecode::opcode::Opcode;
use nlvm::bytecode::reader::Reader;
use sha2::{Digest, Sha256};

fn empty_module(hash_algo: HashAlgo) -> Module {
    Module {
        version: VERSION,
        constant_pool: ConstantPool::new(),
        this_class: 0,
        class_flags: 0,
        super_class: 0,
        interfaces: Vec::new(),
        fields: Vec::new(),
        methods: Vec::new(),
        hash_algo,
    }
}

const EMPTY_BODY: [u8; 20] =
    [0x4e, 0x4c, 0x4d, 0x00, 0, 2, 0, 1, 0, 0, 0, 0, 0, 0, 0, 0, 0, 0, 0, 0];

fn sample_module() -> Module {
    let mut pool = ConstantPool::new();
    let this_class = pool.add_class("app.Main");
    let super_class = pool.add_class("app.Base");
    let shape = pool.add_class("app.Shape");
    let name_index = pool.add_utf8("run");
    let descriptor_index = pool.add_type_desc("(I)I");
    let field_name = pool.add_utf8("count");
    let field_type = pool.add_type_desc("I");
    pool.add_int(-2);
    pool.add_float(1.5f64.to_bits());
    pool.add_field_ref(this_class, field_name, field_type);
    pool.add_method_ref(this_class, name_index, descriptor_index);
    pool.add_utf8("h\u{e9}llo \u{1f600}");
    Module {
        version: VERSION,
        constant_pool: pool,
        this_class,
        class_flags: 9,
        super_class,
        interfaces: vec![shape],
        fields: vec![FieldDescriptor { flags: 17, name_index: field_name, type_index: field_type }],
        methods: vec![MethodDescriptor {
            flags: method_flags::PUBLIC | method_flags::STATIC,
            name_index,
            descriptor_index,
            throws_types: vec![super_class],
            max_locals: 1,
            max_stack: 2,
            code: vec![1, 2, 3, 4],
            exception_table: vec![ExceptionTableEntry {
                start_pc: 0,
                end_pc: 2,
                handler_pc: 3,
                catch_type: 0,
            }],
            line_table: vec![
                LineTableEntry { start_pc: 0, line: 10 },
                LineTableEntry { start_pc: 2, line: 70000 },
            ],
        }],
        hash_algo: HashAlgo::Sha256,
    }
}

fn assert_same(a: &Module, b: &Module) {
    assert_eq!(a.version, b.version);
    assert_eq!(a.this_class, b.this_class);
    assert_eq!(a.class_flags, b.class_flags);
    assert_eq!(a.super_class, b.super_class);
    assert_eq!(a.interfaces, b.interfaces);
    assert_eq!(a.fields, b.fields);
    assert_eq!(a.methods, b.methods);
    assert_eq!(a.hash_algo, b.hash_algo);
    assert_eq!(a.constant_pool.entries().len(), b.constant_pool.entries().len());
    for (x, y) in a.constant_pool.entries().iter().zip(b.constant_pool.entries()) {
        assert!(x.same(y));
    }
}

fn decode_message(bytes: &[u8]) -> String {
    Module::decode(bytes).unwrap_err().message()
}

#[test]
fn empty_module_has_a_fixed_layout() {
    let body = empty_module(HashAlgo::NoHash).encode_body();
    assert_eq!(body, EMPTY_BODY.to_vec());
    let mut whole = EMPTY_BODY.to_vec();
    whole.push(0);
    assert_eq!(empty_module(HashAlgo::NoHash).encode(), whole);
}

#[test]
fn trailer_holds_the_sha256_of_the_body() {
    let bytes = empty_module(HashAlgo::Sha256).encode();
    assert_eq!(bytes.len(), 20 + 1 + 32);
    assert_eq!(bytes[20], 1);
    let digest: [u8; 32] = Sha256::digest(&bytes[..20]).into();
    assert_eq!(bytes[21..], digest);
}

#[test]
fn seal_ends_a_body() {
    let digest = [7u8; 32];
    assert_eq!(seal(vec![1, 2], HashAlgo::NoHash, &digest), vec![1, 2, 0]);
    let mut want = vec![1, 2, 1];
    want.extend_from_slice(&digest);
    assert_eq!(seal(vec![1, 2], HashAlgo::Sha256, &digest), want);
}

#[test]
fn trailer_is_checked_against_a_digest() {
    let digest = [7u8; 32];
    let other = [8u8; 32];
    let bytes = seal(vec![1, 2], HashAlgo::Sha256, &digest);
    assert!(matches!(check_trailer(&bytes, 2, &digest), Ok(HashAlgo::Sha256)));
    assert!(matches!(check_trailer(&bytes, 2, &other), Err(BytecodeError::HashMismatch)));
    let cut = &bytes[..bytes.len() - 1];
    assert!(matches!(check_trailer(cut, 2, &digest), Err(BytecodeError::UnexpectedEof)));
    assert!(matches!(check_trailer(&bytes[..2], 2, &digest), Err(BytecodeError::UnexpectedEof)));
    assert!(matches!(check_trailer(&[0], 0, &digest), Ok(HashAlgo::NoHash)));
    assert!(matches!(check_trailer(&[9], 0, &digest), Err(BytecodeError::UnknownHashAlgo(9))));
}

#[test]
fn encoded_module_decodes_to_itself() {
    let module = sample_module();
    let back = Module::decode(&module.encode()).unwrap();
    assert_same(&module, &back);
    let mut plain = sample_module();
    plain.hash_algo = HashAlgo::NoHash;
    assert_same(&plain, &Module::decode(&plain.encode()).unwrap());
}

#[test]
fn decoded_body_ends_at_the_trailer() {
    let module = sample_module();
    let body = module.encode_body();
    let (back, at) = Module::decode_body(&module.encode()).unwrap();
    assert_eq!(at, body.len());
    assert_eq!(back.hash_algo, HashAlgo::NoHash);
    assert_eq!(back.methods, module.methods);
}

#[test]
fn different_modules_have_different_bytes() {
    let a = sample_module();
    let mut b = sample_module();
    b.methods[0].line_table[1].line = 11;
    assert_ne!(a.encode(), b.encode());
}

#[test]
fn every_flipped_byte_of_a_hashed_body_is_found() {
    let module = sample_module();
    let bytes = module.encode();
    let body = module.encode_body().len();
    for k in 0..bytes.len() {
        let mut bad = bytes.clone();
        bad[k] ^= 0x40;
        assert!(Module::decode(&bad).is_err(), "byte {} of {}", k, body);
    }
}

#[test]
fn truncated_modules_are_refused() {
    let bytes = sample_module().encode();
    for n in 0..bytes.len() {
        assert!(matches!(Module::decode(&bytes[..n]), Err(BytecodeError::UnexpectedEof)));
    }
}

#[test]
fn bad_magic_is_refused() {
    let mut bytes = EMPTY_BODY.to_vec();
    bytes[0] = 0xca;
    bytes.push(0);
    assert!(matches!(Module::decode(&bytes), Err(BytecodeError::BadMagic(0xca4c_4d00))));
    assert_eq!(decode_message(&bytes), "bad magic number: 0xca4c4d00");
    assert_eq!(MAGIC, 0x4e4c_4d00);
}

#[test]
fn unexpected_end_is_refused() {
    assert_eq!(decode_message(&[0x4e]), "unexpected end of module bytes");
}

#[test]
fn unknown_constant_tag_is_refused() {
    let bytes = [0x4e, 0x4c, 0x4d, 0x00, 0, 2, 0, 2, 99];
    assert!(matches!(Module::decode(&bytes), Err(BytecodeError::UnknownConstantTag(99))));
    assert_eq!(decode_message(&bytes), "unknown constant pool tag: 99");
}

#[test]
fn text_that_is_not_utf8_is_refused() {
    let bytes = [0x4e, 0x4c, 0x4d, 0x00, 0, 2, 0, 2, 3, 0, 2, 0xc3, 0x28];
    assert!(matches!(Module::decode(&bytes), Err(BytecodeError::Malformed(_))));
    assert!(decode_message(&bytes).starts_with("malformed module: "));
}

#[test]
fn unknown_hash_algorithm_is_refused() {
    let mut bytes = EMPTY_BODY.to_vec();
    bytes.push(2);
    assert!(matches!(Module::decode(&bytes), Err(BytecodeError::UnknownHashAlgo(2))));
    assert_eq!(decode_message(&bytes), "unknown hash algorithm: 2");
}

#[test]
fn tampered_module_is_refused() {
    let mut bytes = empty_module(HashAlgo::Sha256).encode();
    let last = bytes.len() - 1;
    bytes[last] ^= 1;
    assert!(matches!(Module::decode(&bytes), Err(BytecodeError::HashMismatch)));
    assert_eq!(
        decode_message(&bytes),
        "integrity hash mismatch \u{2014} module is corrupted or tampered with"
    );
}

#[test]
fn count_of_zero_stands_for_an_empty_pool() {
    let mut bytes = EMPTY_BODY.to_vec();
    bytes[7] = 0;
    bytes.push(0);
    assert_eq!(Module::decode(&bytes).unwrap().constant_pool.entries().len(), 0);
}

#[test]
fn constants_are_interned_once() {
    let mut pool = ConstantPool::new();
    let a = pool.add_utf8("x");
    let b = pool.add_int(5);
    assert_eq!((a, b), (1, 2));
    assert_eq!(pool.add_utf8("x"), a);
    assert_eq!(pool.add_int(5), b);
    assert_eq!(pool.entries().len(), 2);
    assert_eq!(pool.utf8_at(a), Some("x"));
    assert_eq!(pool.utf8_at(b), None);
    assert!(pool.get(0).is_none());
    assert!(pool.get(3).is_none());
}

#[test]
fn floats_are_interned_by_their_bits() {
    let mut pool = ConstantPool::new();
    let zero = pool.add_float(0.0f64.to_bits());
    let minus = pool.add_float((-0.0f64).to_bits());
    assert_ne!(zero, minus);
    let nan = pool.add_float(f64::NAN.to_bits());
    assert_eq!(pool.add_float(f64::NAN.to_bits()), nan);
}

#[test]
fn class_and_descriptor_are_read_back() {
    let mut pool = ConstantPool::new();
    let c = pool.add_class("app.Main");
    let d = pool.add_type_desc("[I");
    assert_eq!(pool.class_name_at(c), Some("app.Main"));
    assert_eq!(pool.type_desc_at(d), Some("[I"));
    assert_eq!(pool.class_name_at(d), None);
    assert_eq!(pool.type_desc_at(c), None);
}

#[test]
fn entries_have_their_tags() {
    assert_eq!(ConstantPoolEntry::Int(0).tag(), 1);
    assert_eq!(ConstantPoolEntry::Float(0).tag(), 2);
    assert_eq!(ConstantPoolEntry::Utf8(String::new()).tag(), 3);
    assert_eq!(ConstantPoolEntry::Class { name_index: 0 }.tag(), 4);
    let field = ConstantPoolEntry::FieldRef { class_index: 0, name_index: 0, type_index: 0 };
    assert_eq!(field.tag(), 5);
    let method = ConstantPoolEntry::MethodRef { class_index: 0, name_index: 0, descriptor_index: 0 };
    assert_eq!(method.tag(), 6);
    assert_eq!(ConstantPoolEntry::TypeDesc { desc_index: 0 }.tag(), 7);
    assert!(!field.same(&method));
}

#[test]
fn members_are_found_by_name() {
    let module = sample_module();
    assert_eq!(module.this_class_name(), Some("app.Main"));
    assert_eq!(module.find_method("run").unwrap().max_stack, 2);
    assert!(module.find_method("count").is_none());
    assert_eq!(module.find_field("count").unwrap().flags, 17);
    assert!(module.find_field("run").is_none());
    assert!(module.find_method_by_descriptor("run", "(I)I").is_some());
    assert!(module.find_method_by_descriptor("run", "()I").is_none());
    assert!(module.find_method("run").unwrap().is_static());
}

#[test]
fn reader_reads_big_endian() {
    let bytes = [1, 0, 2, 0, 0, 0, 3, 0xff, 0xff, 0xff, 0xff, 0xff, 0xff, 0xff, 0xfe];
    let mut r = Reader::new(&bytes);
    assert_eq!(r.read_u8().unwrap(), 1);
    assert_eq!(r.read_u16().unwrap(), 2);
    assert_eq!(r.read_u32().unwrap(), 3);
    assert_eq!(r.read_i64().unwrap(), -2);
    assert_eq!(r.offset(), 15);
    assert!(r.read_u8().is_err());
    assert_eq!(r.offset(), 15);
}

#[test]
fn opcodes_have_distinct_bytes() {
    let ops = [
        Opcode::ConstNull, Opcode::Pop, Opcode::Dup, Opcode::Load, Opcode::Store, Opcode::Goto,
        Opcode::Return, Opcode::Throw, Opcode::SetStatic,
    ];
    for (i, a) in ops.iter().enumerate() {
        for (j, b) in ops.iter().enumerate() {
            assert_eq!(a.byte() == b.byte(), i == j);
        }
    }
}

#[test]
fn constants_read_back_with_anything_after_them() {
    let entries = vec![
        ConstantPoolEntry::Int(-2),
        ConstantPoolEntry::Float(1.5f64.to_bits()),
        ConstantPoolEntry::Utf8("h\u{e9}llo".to_string()),
        ConstantPoolEntry::Class { name_index: 3 },
        ConstantPoolEntry::FieldRef { class_index: 1, name_index: 2, type_index: 3 },
        ConstantPoolEntry::MethodRef { class_index: 1, name_index: 2, descriptor_index: 3 },
        ConstantPoolEntry::TypeDesc { desc_index: 9 },
    ];
    for (i, entry) in entries.iter().enumerate() {
        let mut buf = Vec::new();
        write_cp_entry(&mut buf, entry);
        assert_eq!(buf[0] as usize, i + 1);
        let length = buf.len();
        buf.extend([0xff, 0xff]);
        let mut r = Reader::new(&buf);
        assert_eq!(&read_cp_entry(&mut r).unwrap(), entry);
        assert_eq!(r.offset(), length);
    }
}

#[test]
fn failed_read_leaves_the_cursor() {
    let bytes = [1u8, 2, 3];
    let mut r = Reader::new(&bytes);
    assert_eq!(r.read_u8().unwrap(), 1);
    assert!(r.read_u32().is_err());
    assert_eq!(r.offset(), 1);
    assert!(r.read_u64().is_err() && r.read_i64().is_err());
    assert!(r.read_bytes(3).is_err());
    assert_eq!(r.offset(), 1);
    assert_eq!(r.read_u16().unwrap(), 0x0203);
    assert!(r.read_u16().is_err() && r.read_u8().is_err());
    assert_eq!(r.offset(), 3);
}
