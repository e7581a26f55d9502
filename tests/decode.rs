use class_parser::{
    lookup, parse_class_file, resolve_constant_pool, resolve_reference, ClassConstant, ClassFile,
    ClassFileParser, ClassParserError, ConstantPoolEntry, ConstantPoolReference, ConstantPoolTag,
    HexValue, HexValueExt, NameAndTypeConstant, ReferenceConstant, ReferenceType, StringConstant,
    UTF8Constant, CLASS_FILE_MAGIC,
};

fn header(count: u16) -> Vec<u8> {
    let mut v = vec![0xCA, 0xFE, 0xBA, 0xBE, 0x00, 0x00, 0x00, 0x34];
    v.push((count >> 8) as u8);
    v.push((count & 0xFF) as u8);
    v
}

fn with_pool(count: u16, pool: &[u8]) -> Vec<u8> {
    let mut v = header(count);
    v.extend_from_slice(pool);
    v
}

fn unresolved(index: u16) -> ConstantPoolReference {
    ConstantPoolReference::Unresolved { index }
}

#[test]
fn empty_pool_decodes() {
    let cf = parse_class_file(header(1)).unwrap();
    assert_eq!(cf.magic, HexValue { value: 0xCAFEBABE });
    assert_eq!(cf.minor_version, 0);
    assert_eq!(cf.major_version, 0x34);
    assert!(cf.constant_pool.is_empty());
    assert!(cf.trailing.is_empty());
}

#[test]
fn zero_magic_is_rejected() {
    let bytes = vec![0, 0, 0, 0, 0, 0, 0, 0x34, 0, 1];
    assert_eq!(
        parse_class_file(bytes).unwrap_err(),
        ClassParserError::InvalidMagic(HexValue { value: 0 })
    );
}

#[test]
fn other_magic_carries_observed_value() {
    let bytes = vec![0xDE, 0xAD, 0xBE, 0xEF];
    assert_eq!(
        parse_class_file(bytes).unwrap_err(),
        ClassParserError::InvalidMagic(HexValue { value: 0xDEADBEEF })
    );
}

#[test]
fn utf8_entry_decodes() {
    let cf = parse_class_file(with_pool(2, &[0x01, 0x00, 0x03, 0x66, 0x6F, 0x6F])).unwrap();
    assert_eq!(cf.constant_pool.len(), 1);
    assert_eq!(
        cf.constant_pool[0],
        Some(ConstantPoolEntry::Utf8(UTF8Constant { bytes: b"foo".to_vec() }))
    );
}

#[test]
fn long_entry_takes_two_slots() {
    let cf = parse_class_file(with_pool(3, &[0x05, 0, 0, 0, 1, 0, 0, 0, 2])).unwrap();
    assert_eq!(cf.constant_pool.len(), 2);
    assert_eq!(cf.constant_pool[0], Some(ConstantPoolEntry::Long(0x0000_0001_0000_0002)));
    assert_eq!(cf.constant_pool[1], None);
    assert_eq!(
        resolve_reference(&cf.constant_pool, unresolved(2)),
        Err(ClassParserError::UnresolvedReference(2))
    );
    assert_eq!(
        resolve_reference(&cf.constant_pool, unresolved(1)),
        Ok(ConstantPoolReference::Resolved { index: 1 })
    );
}

#[test]
fn forward_reference_resolves() {
    let pool = [0x07, 0x00, 0x02, 0x01, 0x00, 0x03, b'F', b'o', b'o'];
    let mut cf = parse_class_file(with_pool(3, &pool)).unwrap();
    assert_eq!(
        cf.constant_pool[0],
        Some(ConstantPoolEntry::Class(ClassConstant { name: unresolved(2) }))
    );
    assert_eq!(cf.resolve(), Ok(()));
    assert_eq!(
        cf.constant_pool[0],
        Some(ConstantPoolEntry::Class(ClassConstant {
            name: ConstantPoolReference::Resolved { index: 2 }
        }))
    );
    let name = match &cf.constant_pool[0] {
        Some(ConstantPoolEntry::Class(c)) => c.name,
        _ => panic!("expected a class entry"),
    };
    assert_eq!(
        lookup(&cf.constant_pool, name),
        Ok(&ConstantPoolEntry::Utf8(UTF8Constant { bytes: b"Foo".to_vec() }))
    );
}

#[test]
fn index_zero_never_resolves() {
    let cf = parse_class_file(with_pool(2, &[0x08, 0x00, 0x00])).unwrap();
    assert_eq!(
        resolve_reference(&cf.constant_pool, unresolved(0)),
        Err(ClassParserError::UnresolvedReference(0))
    );
    let mut copy = cf.clone();
    assert_eq!(copy.resolve(), Err(ClassParserError::UnresolvedReference(0)));
    assert_eq!(copy, cf);
}

#[test]
fn index_past_pool_never_resolves() {
    let cf = parse_class_file(with_pool(2, &[0x07, 0x00, 0x05])).unwrap();
    assert_eq!(
        resolve_constant_pool(&cf.constant_pool),
        Err(ClassParserError::UnresolvedReference(5))
    );
    assert_eq!(
        lookup(&cf.constant_pool, unresolved(2)),
        Err(ClassParserError::UnresolvedReference(2))
    );
}

#[test]
fn first_failing_reference_is_reported() {
    // NameAndType at 1 names 9 then 8; the name reference is checked first.
    let cf = parse_class_file(with_pool(2, &[0x0C, 0x00, 0x09, 0x00, 0x08])).unwrap();
    assert_eq!(
        resolve_constant_pool(&cf.constant_pool),
        Err(ClassParserError::UnresolvedReference(9))
    );
}

#[test]
fn decoding_is_deterministic() {
    let pool = [0x07, 0x00, 0x02, 0x01, 0x00, 0x01, b'A', 0x06, 1, 2, 3, 4, 5, 6, 7, 8];
    let bytes = with_pool(5, &pool);
    assert_eq!(parse_class_file(bytes.clone()), parse_class_file(bytes.clone()));
    let bad = with_pool(2, &[0x02]);
    assert_eq!(parse_class_file(bad.clone()), parse_class_file(bad));
}

#[test]
fn slot_count_matches_declared_count() {
    let pool = [
        0x05, 0, 0, 0, 0, 0, 0, 0, 1, // Long: slots 1, 2
        0x03, 0, 0, 0, 7, // Integer: slot 3
        0x06, 0x3F, 0xF0, 0, 0, 0, 0, 0, 0, // Double: slots 4, 5
        0x04, 0x3F, 0x80, 0, 0, // Float: slot 6
    ];
    let cf = parse_class_file(with_pool(7, &pool)).unwrap();
    assert_eq!(cf.constant_pool.len(), 6);
    assert_eq!(cf.constant_pool[1], None);
    assert_eq!(cf.constant_pool[2], Some(ConstantPoolEntry::Integer(7)));
    assert_eq!(cf.constant_pool[3], Some(ConstantPoolEntry::Double(1.0f64.to_bits())));
    assert_eq!(cf.constant_pool[4], None);
    assert_eq!(cf.constant_pool[5], Some(ConstantPoolEntry::Float(1.0f32.to_bits())));
}

#[test]
fn truncated_buffers_never_succeed() {
    let pool = [
        0x0A, 0x00, 0x02, 0x00, 0x03, // MethodRef
        0x01, 0x00, 0x02, b'h', b'i', // Utf8
        0x05, 1, 2, 3, 4, 5, 6, 7, 8, // Long
    ];
    let full = with_pool(5, &pool);
    assert!(parse_class_file(full.clone()).is_ok());
    for k in 0..full.len() {
        let r = parse_class_file(full[..k].to_vec());
        assert!(
            r == Err(ClassParserError::UnexpectedEndOfInput)
                || r == Err(ClassParserError::TruncatedConstantPool),
            "cut at {} gave {:?}",
            k,
            r
        );
    }
}

#[test]
fn missing_entries_truncate_the_pool() {
    let r = parse_class_file(with_pool(3, &[0x08, 0x00, 0x01]));
    assert_eq!(r, Err(ClassParserError::TruncatedConstantPool));
}

#[test]
fn entry_cut_mid_payload_is_end_of_input() {
    let r = parse_class_file(with_pool(2, &[0x01, 0x00, 0x05, b'a']));
    assert_eq!(r, Err(ClassParserError::UnexpectedEndOfInput));
}

#[test]
fn wide_entry_in_last_slot_is_rejected() {
    let r = parse_class_file(with_pool(2, &[0x05, 0, 0, 0, 0, 0, 0, 0, 0]));
    assert_eq!(r, Err(ClassParserError::TruncatedConstantPool));
}

#[test]
fn unknown_tag_is_an_error() {
    assert_eq!(
        parse_class_file(with_pool(2, &[0x02, 0, 0])),
        Err(ClassParserError::UnknownConstantTag(2))
    );
    assert_eq!(
        parse_class_file(with_pool(2, &[0x0D])),
        Err(ClassParserError::UnknownConstantTag(13))
    );
    assert_eq!(ConstantPoolTag::from_byte(0), Err(ClassParserError::UnknownConstantTag(0)));
    assert_eq!(ConstantPoolTag::from_byte(21), Err(ClassParserError::UnknownConstantTag(21)));
}

#[test]
fn every_tag_code_round_trips() {
    let codes = [1u8, 3, 4, 5, 6, 7, 8, 9, 10, 11, 12, 15, 16, 17, 18, 19, 20];
    for code in codes {
        let tag = ConstantPoolTag::from_byte(code).unwrap();
        assert_eq!(tag.code(), code);
    }
    assert_eq!(ConstantPoolTag::from_byte(7), Ok(ConstantPoolTag::Class));
    assert_eq!(ConstantPoolTag::from_byte(11), Ok(ConstantPoolTag::InterfaceMethodReference));
    assert_eq!(ConstantPoolTag::from_byte(20), Ok(ConstantPoolTag::Package));
}

#[test]
fn index_entries_decode() {
    let pool = [
        0x09, 0x00, 0x01, 0x00, 0x02, // FieldRef
        0x0B, 0x00, 0x03, 0x00, 0x04, // InterfaceMethodRef
        0x0C, 0x00, 0x05, 0x00, 0x06, // NameAndType
        0x08, 0x00, 0x07, // String
        0x0F, 0x06, 0x00, 0x08, // MethodHandle
        0x10, 0x00, 0x09, // MethodType
        0x11, 0x00, 0x00, 0x00, 0x0A, // Dynamic
        0x12, 0x00, 0x01, 0x00, 0x0B, // InvokeDynamic
        0x13, 0x00, 0x0C, // Module
        0x14, 0x00, 0x0D, // Package
    ];
    let cf = parse_class_file(with_pool(11, &pool)).unwrap();
    let expected = vec![
        Some(ConstantPoolEntry::Reference(ReferenceConstant {
            reference_type: ReferenceType::Field,
            class: unresolved(1),
            name_and_type: unresolved(2),
        })),
        Some(ConstantPoolEntry::Reference(ReferenceConstant {
            reference_type: ReferenceType::InterfaceMethod,
            class: unresolved(3),
            name_and_type: unresolved(4),
        })),
        Some(ConstantPoolEntry::NameAndType(NameAndTypeConstant {
            name: unresolved(5),
            descriptor: unresolved(6),
        })),
        Some(ConstantPoolEntry::String(StringConstant { string: unresolved(7) })),
        Some(ConstantPoolEntry::MethodHandle { reference_kind: 6, reference: unresolved(8) }),
        Some(ConstantPoolEntry::MethodType { descriptor: unresolved(9) }),
        Some(ConstantPoolEntry::Dynamic {
            bootstrap_method_attr_index: 0,
            name_and_type: unresolved(10),
        }),
        Some(ConstantPoolEntry::InvokeDynamic {
            bootstrap_method_attr_index: 1,
            name_and_type: unresolved(11),
        }),
        Some(ConstantPoolEntry::Module { name: unresolved(12) }),
        Some(ConstantPoolEntry::Package { name: unresolved(13) }),
    ];
    assert_eq!(cf.constant_pool, expected);
}

#[test]
fn signed_values_use_twos_complement() {
    let pool = [
        0x03, 0xFF, 0xFF, 0xFF, 0xFF, // Integer -1
        0x03, 0x80, 0x00, 0x00, 0x00, // Integer i32::MIN
        0x05, 0xFF, 0xFF, 0xFF, 0xFF, 0xFF, 0xFF, 0xFF, 0xFE, // Long -2
    ];
    let cf = parse_class_file(with_pool(5, &pool)).unwrap();
    assert_eq!(cf.constant_pool[0], Some(ConstantPoolEntry::Integer(-1)));
    assert_eq!(cf.constant_pool[1], Some(ConstantPoolEntry::Integer(i32::MIN)));
    assert_eq!(cf.constant_pool[2], Some(ConstantPoolEntry::Long(-2)));
}

#[test]
fn modified_utf8_forms_are_accepted() {
    // C0 80 is the null character; ED A0 BD ED B8 80 is a surrogate pair.
    let text = [0xC0, 0x80, 0xED, 0xA0, 0xBD, 0xED, 0xB8, 0x80, 0xC3, 0xA9];
    let mut pool = vec![0x01, 0x00, text.len() as u8];
    pool.extend_from_slice(&text);
    let cf = parse_class_file(with_pool(2, &pool)).unwrap();
    assert_eq!(
        cf.constant_pool[0],
        Some(ConstantPoolEntry::Utf8(UTF8Constant { bytes: text.to_vec() }))
    );
}

#[test]
fn invalid_text_is_rejected() {
    for text in [vec![0x00], vec![0xFF], vec![0xF0, 0x9F, 0x98, 0x80], vec![0xC1, 0x81], vec![0xE0, 0x80, 0x80], vec![0x80], vec![0xC3]] {
        let mut pool = vec![0x01, 0x00, text.len() as u8];
        pool.extend_from_slice(&text);
        assert_eq!(
            parse_class_file(with_pool(2, &pool)),
            Err(ClassParserError::InvalidTextEncoding),
            "text {:?}",
            text
        );
    }
}

#[test]
fn empty_text_at_end_of_input_decodes() {
    let cf = parse_class_file(with_pool(2, &[0x01, 0x00, 0x00])).unwrap();
    assert_eq!(
        cf.constant_pool[0],
        Some(ConstantPoolEntry::Utf8(UTF8Constant { bytes: vec![] }))
    );
}

#[test]
fn zero_pool_count_gives_empty_pool() {
    let cf = parse_class_file(header(0)).unwrap();
    assert!(cf.constant_pool.is_empty());
}

#[test]
fn short_header_is_end_of_input() {
    assert_eq!(parse_class_file(vec![]), Err(ClassParserError::UnexpectedEndOfInput));
    assert_eq!(
        parse_class_file(vec![0xCA, 0xFE, 0xBA, 0xBE, 0, 0, 0]),
        Err(ClassParserError::UnexpectedEndOfInput)
    );
}

#[test]
fn trailing_fields_pass_through() {
    let mut bytes = header(1);
    bytes.extend_from_slice(&[0x00, 0x21, 0x00, 0x07, 0x00, 0x02, 0xAA]);
    let cf = parse_class_file(bytes).unwrap();
    assert_eq!(cf.trailing, vec![0x00, 0x21, 0x00, 0x07, 0x00, 0x02, 0xAA]);
    assert_eq!(cf.access_flags(), Some(0x21));
    assert_eq!(cf.this_class(), Some(7));
    assert_eq!(cf.super_class(), Some(2));
    let short = parse_class_file(header(1)).unwrap();
    assert_eq!(short.access_flags(), None);
}

#[test]
fn encode_then_decode_gives_value_back() {
    let cf = ClassFile {
        magic: CLASS_FILE_MAGIC.hex(),
        minor_version: 3,
        major_version: 61,
        constant_pool: vec![
            Some(ConstantPoolEntry::Class(ClassConstant { name: unresolved(2) })),
            Some(ConstantPoolEntry::Utf8(UTF8Constant { bytes: b"Main".to_vec() })),
            Some(ConstantPoolEntry::Long(-5)),
            None,
            Some(ConstantPoolEntry::Integer(-300)),
            Some(ConstantPoolEntry::Double(2.5f64.to_bits())),
            None,
            Some(ConstantPoolEntry::Reference(ReferenceConstant {
                reference_type: ReferenceType::Method,
                class: unresolved(1),
                name_and_type: unresolved(9),
            })),
            Some(ConstantPoolEntry::NameAndType(NameAndTypeConstant {
                name: unresolved(2),
                descriptor: unresolved(2),
            })),
            Some(ConstantPoolEntry::MethodHandle { reference_kind: 5, reference: unresolved(8) }),
        ],
        trailing: vec![0x00, 0x21, 0x00, 0x01],
    };
    let bytes = cf.encode();
    assert_eq!(&bytes[..4], &[0xCA, 0xFE, 0xBA, 0xBE]);
    assert_eq!(&bytes[8..10], &[0x00, 0x0B]);
    assert_eq!(parse_class_file(bytes), Ok(cf));
}

#[test]
fn encoded_entry_bytes() {
    let mut out = Vec::new();
    ConstantPoolEntry::Integer(-2).encode_into(&mut out);
    assert_eq!(out, vec![0x03, 0xFF, 0xFF, 0xFF, 0xFE]);
    out.clear();
    ConstantPoolEntry::Utf8(UTF8Constant { bytes: b"ab".to_vec() }).encode_into(&mut out);
    assert_eq!(out, vec![0x01, 0x00, 0x02, b'a', b'b']);
}

#[test]
fn cursor_reads_big_endian() {
    let mut p = ClassFileParser::new(vec![0x12, 0x34, 0x56, 0x78, 0x9A, 0xBC, 0xDE]);
    assert_eq!(p.read_u2(), Ok(0x1234));
    assert_eq!(p.read_u1(), Ok(0x56));
    assert_eq!(p.read_n_bytes(5), Err(ClassParserError::UnexpectedEndOfInput));
    assert_eq!(p.remaining(), 4);
    assert_eq!(p.read_n_bytes(3), Ok(vec![0x78, 0x9A, 0xBC]));
    assert_eq!(p.read_n_bytes(0), Ok(vec![]));
    assert_eq!(p.read_u4(), Err(ClassParserError::UnexpectedEndOfInput));
    assert_eq!(p.read_u2(), Err(ClassParserError::UnexpectedEndOfInput));
    assert_eq!(p.read_u1(), Ok(0xDE));
    assert_eq!(p.read_n_bytes(0), Ok(vec![]));
    assert_eq!(p.read_u1(), Err(ClassParserError::UnexpectedEndOfInput));
    let mut q = ClassFileParser::new(vec![0xCA, 0xFE, 0xBA, 0xBE]);
    assert_eq!(q.read_u4(), Ok(0xCAFEBABE));
}

#[test]
fn reference_decoder_refuses_other_tags() {
    let mut p = ClassFileParser::new(vec![0, 1, 0, 2]);
    assert_eq!(
        ReferenceConstant::parse(&mut p, ConstantPoolTag::Class),
        Err(ClassParserError::UnknownConstantTag(7))
    );
    assert_eq!(
        ReferenceConstant::parse(&mut p, ConstantPoolTag::MethodReference),
        Ok(ReferenceConstant {
            reference_type: ReferenceType::Method,
            class: unresolved(1),
            name_and_type: unresolved(2),
        })
    );
}

#[test]
fn read_constant_pool_info_consumes_one_entry() {
    let mut p = ClassFileParser::new(vec![0x07, 0x00, 0x04, 0x08]);
    assert_eq!(
        p.read_constant_pool_info(),
        Ok(ConstantPoolEntry::Class(ClassConstant { name: unresolved(4) }))
    );
    assert_eq!(p.remaining(), 1);
}

#[test]
fn reference_from_index_is_unresolved() {
    assert_eq!(ConstantPoolReference::from(9u16), unresolved(9));
    assert_eq!(unresolved(9).index(), 9);
    assert_eq!(ConstantPoolReference::Resolved { index: 4 }.index(), 4);
    assert_eq!(0xCAFEBABEu32.hex(), HexValue { value: 0xCAFEBABE });
}
