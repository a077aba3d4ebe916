use daedalus::bits::{read_i32, read_u32};
use daedalus::file::{read_line, File, LoadError};
use daedalus::object_allocator::{AllocError, Handle, ObjectAllocator};
use daedalus::opcode::{decode, instruction_offsets, DecodeError, Operator, StackOpCode};
use daedalus::sym_table::{SymTable, SymTableError};
use daedalus::symbol::{BuildError, Data, Flag, Kind, Properties, SymbolBuilder};

fn word(out: &mut Vec<u8>, w: u32) {
    out.extend_from_slice(&w.to_le_bytes());
}

/// One symbol record: optional name, element word, payload, parent.
fn record(out: &mut Vec<u8>, name: Option<&[u8]>, element: u32, payload: &[u8], parent: u32) {
    match name {
        Some(n) => {
            word(out, 1);
            out.extend_from_slice(n);
            out.push(b'\n');
        }
        None => word(out, 0),
    }
    word(out, 0);
    word(out, element);
    for _ in 0..5 {
        word(out, 0);
    }
    out.extend_from_slice(payload);
    word(out, parent);
}

fn element(count: u32, kind: Kind, flags: u32) -> u32 {
    Properties::encode_element(count, kind, flags)
}

/// A file with a class, an int array, a string pair, a function and an instance.
fn sample() -> (Vec<u8>, Vec<u8>) {
    let mut out = vec![7u8];
    word(&mut out, 6);
    for k in [5u32, 4, 3, 2, 1, 0] {
        word(&mut out, k);
    }
    record(&mut out, None, element(0, Kind::Void, 0), &[], 0);
    let mut class_payload = vec![];
    word(&mut class_payload, 40);
    record(&mut out, Some(b"C_NPC"), element(0, Kind::Class, 0), &class_payload, 0);
    let mut ints = vec![];
    for v in [10u32, 20, 30] {
        word(&mut ints, v);
    }
    record(&mut out, Some(b"ARR"), element(3, Kind::Int, 0), &ints, 0);
    record(&mut out, Some(b"TX\xffT"), element(2, Kind::CharString, 1), b"ab\xff\ncd\n", 0);
    let mut addr = vec![];
    word(&mut addr, 1);
    record(&mut out, Some(b"MAIN"), element(0, Kind::Func, 1 | 2), &addr, 0);
    let mut inst = vec![];
    word(&mut inst, 0);
    record(&mut out, Some(b"MEMBER"), element(1, Kind::Int, 4), &[], 1);
    let code = vec![Operator::Ret.code(), 64, 7, 0, 0, 0, Operator::Ret.code()];
    out.extend_from_slice(&(code.len() as i32).to_le_bytes());
    out.extend_from_slice(&code);
    (out, code)
}

#[test]
fn loads_sample_file() {
    let (bytes, code) = sample();
    let f = File::open(&bytes).unwrap();
    assert_eq!(f.version, 7);
    assert_eq!(f.sym_table.len(), 6);
    assert_eq!(f.sym_table.get_sort_table(), &vec![5, 4, 3, 2, 1, 0]);
    assert_eq!(f.code, code);
    assert_eq!(f.get_stack().size, code.len());
    assert_eq!(f.get_stack().offset + code.len(), bytes.len());
}

#[test]
fn loaded_names_index_their_symbols() {
    let (bytes, _) = sample();
    let f = File::open(&bytes).unwrap();
    for (name, index) in [("C_NPC", 1usize), ("ARR", 2), ("TXT", 3), ("MAIN", 4), ("MEMBER", 5)] {
        assert_eq!(f.sym_table.get_symbol_index_by_name(name), Ok(index));
        assert!(f.sym_table.has_symbol_name(name));
    }
    assert_eq!(f.sym_table.get_symbol_index_by_name("NOPE"), Err(SymTableError::NotFound(b"NOPE".to_vec())));
    assert!(f.sym_table.get_symbol_by_index(0).unwrap().get_name().is_none());
}

#[test]
fn loaded_functions_index_their_addresses() {
    let (bytes, _) = sample();
    let f = File::open(&bytes).unwrap();
    assert_eq!(f.sym_table.get_function_index_by_address(1), Ok(4));
    assert_eq!(f.sym_table.get_function_index_by_address(2), Err(SymTableError::AddressNotFound(2)));
}

#[test]
fn loaded_data_matches_count() {
    let (bytes, _) = sample();
    let f = File::open(&bytes).unwrap();
    let arr = f.sym_table.get_symbol_by_name("ARR").unwrap();
    match arr.get_data() {
        Some(Data::IntSequence(v)) => assert_eq!(v, &vec![10, 20, 30]),
        _ => panic!("ARR has no ints"),
    }
    let txt = f.sym_table.get_symbol_by_name("TXT").unwrap();
    assert_eq!(txt.get_string(0), Some(&b"ab".to_vec()));
    assert_eq!(txt.get_string(1), Some(&b"cd".to_vec()));
    assert_eq!(txt.get_string(2), None);
    let member = f.sym_table.get_symbol_by_name("MEMBER").unwrap();
    assert!(member.get_data().is_none());
    assert_eq!(member.get_parent(), Some(1));
    let class = f.sym_table.get_symbol_by_name("C_NPC").unwrap();
    assert_eq!(class.class_member_offset, Some(40));
}

#[test]
fn truncated_file_is_malformed() {
    let (bytes, _) = sample();
    assert_eq!(File::open(&bytes[..3]).err(), Some(LoadError::Malformed(0)));
    assert!(matches!(File::open(&bytes[..40]), Err(LoadError::Malformed(_))));
}

#[test]
fn invalid_kind_is_malformed() {
    let mut out = vec![0u8];
    word(&mut out, 1);
    word(&mut out, 0);
    record(&mut out, None, 9 << 12, &[], 0);
    word(&mut out, 0);
    // header 5, sort table 4, name word 4, off_cls 4: the element word starts at 17
    assert_eq!(File::open(&out).err(), Some(LoadError::Malformed(17)));
}

#[test]
fn constant_function_without_address_is_malformed() {
    let mut out = vec![0u8];
    word(&mut out, 1);
    word(&mut out, 0);
    let mut addr = vec![];
    word(&mut addr, 0);
    record(&mut out, None, element(0, Kind::Func, 1), &addr, 0);
    word(&mut out, 0);
    // the address word follows the 28 property bytes at 13
    assert_eq!(File::open(&out).err(), Some(LoadError::Malformed(41)));
}

#[test]
fn truncated_record_reports_its_offset() {
    let mut out = vec![0u8];
    word(&mut out, 1);
    word(&mut out, 0);
    word(&mut out, 0);
    word(&mut out, 0);
    assert_eq!(File::open(&out).err(), Some(LoadError::Malformed(13)));
}

#[test]
fn code_size_mismatch_is_malformed() {
    let mut out = vec![0u8];
    word(&mut out, 0);
    word(&mut out, 5);
    out.push(60);
    assert!(matches!(File::open(&out), Err(LoadError::Malformed(_))));
}

#[test]
fn decodes_each_instruction_shape() {
    let mut code = vec![Operator::Call.code()];
    code.extend_from_slice(&300i32.to_le_bytes());
    code.push(Operator::PushArrayVar.code());
    code.extend_from_slice(&9i32.to_le_bytes());
    code.push(4);
    code.push(Operator::Add.code());
    let call = decode(&code, 0).unwrap();
    assert_eq!(call, StackOpCode::new(Operator::Call, 5).with_address(300));
    let arr = decode(&code, 5).unwrap();
    assert_eq!(arr.symbol, Some(9));
    assert_eq!(arr.index, Some(4));
    assert_eq!(arr.get_operator_size(), 6);
    let add = decode(&code, 11).unwrap();
    assert_eq!(add.get_operator(), Operator::Add);
    assert_eq!(add.operator_size, 1);
    assert_eq!(decode(&code, 12), Err(DecodeError::OutOfBounds));
}

#[test]
fn jump_takes_five_bytes() {
    let mut code = vec![Operator::Jump.code()];
    code.extend_from_slice(&3i32.to_le_bytes());
    assert_eq!(decode(&code, 0).unwrap().operator_size, 5);
    assert_eq!(decode(&code[..4], 0), Err(DecodeError::OutOfBounds));
}

#[test]
fn unknown_operator_is_reported() {
    assert_eq!(decode(&[200], 0), Err(DecodeError::UnknownOp(200)));
}

#[test]
fn instruction_walk_covers_code() {
    let mut code = vec![Operator::PushInt.code()];
    code.extend_from_slice(&1i32.to_le_bytes());
    code.push(Operator::Not.code());
    code.push(Operator::PushArrayVar.code());
    code.extend_from_slice(&2i32.to_le_bytes());
    code.push(0);
    code.push(Operator::Ret.code());
    assert_eq!(instruction_offsets(&code).unwrap(), vec![0, 5, 6, 12]);
    assert_eq!(instruction_offsets(&[]).unwrap(), Vec::<usize>::new());
    code.push(Operator::Call.code());
    assert_eq!(instruction_offsets(&code), Err((13, DecodeError::OutOfBounds)));
}

#[test]
fn element_word_round_trips() {
    for (count, kind, flags) in [(0u32, Kind::Void, 0u32), (4095, Kind::Instance, 63), (3, Kind::CharString, 5), (1, Kind::Prototype, 1)] {
        let e = Properties::encode_element(count, kind, flags);
        let p = Properties::new(0, e, 0, 0, 0, 0, 0);
        assert_eq!(p.get_count(), count);
        assert_eq!(p.get_kind(), Some(kind));
        assert_eq!(p.get_flags(), flags);
    }
}

#[test]
fn element_word_layout() {
    assert_eq!(Properties::encode_element(3, Kind::Int, 1 | 4), 3 | (2 << 12) | (5 << 16));
}

#[test]
fn built_symbol_keeps_properties() {
    let props = Properties::with_kind(Kind::Func, 2, Flag::Const.bit() | Flag::Return.bit());
    let s = SymbolBuilder::new(b"F".to_vec()).with_properties(props).with_address(33).build().unwrap();
    assert_eq!(s.properties.get_kind(), Some(Kind::Func));
    assert_eq!(s.properties.get_count(), 2);
    assert!(s.properties.has_flag(Flag::Const));
    assert!(s.properties.has_flag(Flag::Return));
    assert!(s.properties.is_not_flag(Flag::ClassVar));
    assert_eq!(s.get_address(), Some(33));
}

#[test]
fn reads_packed_source_positions() {
    let p = Properties::new(-1, 0, 0xfff8_0005, 0x0007_ffff, 0x0008_0001, 0xff00_0002, 0x00ff_ffff);
    assert_eq!(p.get_file_index(), 5);
    assert_eq!(p.get_line_start(), 0x7ffff);
    assert_eq!(p.get_line_count(), 1);
    assert_eq!(p.get_char_start(), 2);
    assert_eq!(p.get_char_count(), 0xffffff);
}

#[test]
fn invalid_kind_code_reads_as_none() {
    let p = Properties::new(0, 8 << 12, 0, 0, 0, 0, 0);
    assert_eq!(p.get_kind(), None);
}

#[test]
fn build_errors() {
    let no_props = SymbolBuilder::new(vec![]).build();
    assert_eq!(no_props.err(), Some(BuildError::MissingProperties));
    let no_data = SymbolBuilder::new(vec![]).with_properties(Properties::with_kind(Kind::Int, 1, 0)).build();
    assert_eq!(no_data.err(), Some(BuildError::MissingData));
    let class_var = SymbolBuilder::new(vec![]).with_properties(Properties::with_kind(Kind::Int, 1, 4)).build();
    assert!(class_var.is_ok());
}

#[test]
fn builder_zero_means_absent() {
    let s = SymbolBuilder::new(b"X".to_vec())
        .with_properties(Properties::with_kind(Kind::Void, 0, 0))
        .with_parent(0)
        .with_address(0)
        .with_class_offset(0)
        .with_class_array_size(0)
        .build()
        .unwrap();
    assert_eq!(s.get_parent(), None);
    assert_eq!(s.get_address(), None);
    assert_eq!(s.class_member_offset, None);
}

#[test]
fn table_lookup_errors() {
    let t = SymTable::with_capacity(4);
    assert_eq!(t.get_symbol_by_index(0).err(), Some(SymTableError::OutOfBounds(0)));
    assert_eq!(t.get_symbol_index_by_name("A"), Err(SymTableError::NotFound(b"A".to_vec())));
}

#[test]
fn duplicate_name_last_wins() {
    let mut t = SymTable::new();
    for _ in 0..2 {
        let s = SymbolBuilder::new(b"DUP".to_vec()).with_properties(Properties::with_kind(Kind::Void, 0, 0)).build().unwrap();
        t.push(s);
    }
    assert_eq!(t.get_symbol_index_by_name("DUP"), Ok(1));
}

#[test]
fn insert_at_end_indexes_position() {
    let mut t = SymTable::new();
    let s = SymbolBuilder::new(b"A".to_vec()).with_properties(Properties::with_kind(Kind::Void, 0, 0)).build().unwrap();
    assert_eq!(t.insert(0, s), 1);
    assert_eq!(t.get_symbol_index_by_name("A"), Ok(0));
}

#[test]
fn register_class_member_binds() {
    let mut t = SymTable::new();
    let s = SymbolBuilder::new(b"C_NPC.ID".to_vec()).with_properties(Properties::with_kind(Kind::Int, 1, 4)).build().unwrap();
    t.push(s);
    assert!(t.register_class_member("C_NPC.ID", 16, 1));
    let s = t.get_symbol_by_index(0).unwrap();
    assert_eq!(s.class_member_offset, Some(16));
    assert_eq!(s.class_member_array_size, Some(1));
    assert!(!t.register_class_member("NOPE", 1, 1));
}

#[test]
fn little_endian_reads() {
    let b = [0x78u8, 0x56, 0x34, 0x12, 0xff];
    assert_eq!(read_u32(&b, 0), Some(0x1234_5678));
    assert_eq!(read_u32(&b, 2), None);
    assert_eq!(read_i32(&[0xff, 0xff, 0xff, 0xff], 0), Some(-1));
}

#[test]
fn line_reads_skip_ff() {
    assert_eq!(read_line(b"a\xffb\nrest", 0), Some((b"ab".to_vec(), 4)));
    assert_eq!(read_line(b"abc", 0), None);
}

#[test]
fn allocator_limit_is_enforced() {
    let mut a: ObjectAllocator<u32> = ObjectAllocator::new(1);
    let h = a.create(5).unwrap();
    assert_eq!(a.create(6), Err(AllocError::NoSpaceLeft));
    assert_eq!(a.get(h), Some(&5));
    assert!(a.remove(h));
    assert_eq!(a.get(h), None);
    assert!(!a.remove(h));
    let h2 = a.create(7).unwrap();
    assert_ne!(h, h2);
    assert_eq!(a.get_count(), 1);
    assert_eq!(a.replace(h2, 8), Some(7));
    assert_eq!(a.get(h2), Some(&8));
}

#[test]
fn invalid_handle_finds_nothing() {
    let a: ObjectAllocator<u32> = ObjectAllocator::new(4);
    let mut h = Handle::new();
    assert!(!h.is_valid());
    assert_eq!(a.get(h), None);
    h.invalidate();
    assert!(!h.is_valid());
}
