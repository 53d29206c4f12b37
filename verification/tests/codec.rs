use pure_lang_binary::attrs::{
    ClassImplementationFlags, FieldAttr, FieldImplementationFlags, MethodAttr,
    MethodImplementationFlags, TypeAttr, TypeSpecificAttr, TypeSpecificAttrType, Visibility,
    FIELD_STATIC, METHOD_STATIC, METHOD_VIRTUAL,
};
use pure_lang_binary::instruction::{StringInstruction, StringInstructionType};
use pure_lang_binary::ty::TypeDefType;
use pure_lang_binary::{Error, File, NameMap, ReadFromFile, WriteToFile};

fn written<T: WriteToFile>(value: &T) -> File {
    let mut file = File::default();
    value.write_to_file(&mut file).unwrap();
    file
}

fn round_trip<T: WriteToFile + ReadFromFile>(value: &T) -> T {
    let mut file = written(value);
    let end = file.position();
    file.reader().set_position(0);
    let back = T::read_from_file(&mut file).unwrap();
    assert_eq!(file.position(), end);
    back
}

fn read_from<T: ReadFromFile>(payload: &[u8]) -> Result<T, Error> {
    let mut file = File::default();
    file.writer().write_all(payload);
    file.reader().set_position(0);
    T::read_from_file(&mut file)
}

#[test]
fn unsigned_integers_are_little_endian() {
    assert_eq!(written(&0x12u8).payload(), &vec![0x12]);
    assert_eq!(written(&0x1234u16).payload(), &vec![0x34, 0x12]);
    assert_eq!(written(&0x1234_5678u32).payload(), &vec![0x78, 0x56, 0x34, 0x12]);
    assert_eq!(
        written(&0x0102_0304_0506_0708u64).payload(),
        &vec![8, 7, 6, 5, 4, 3, 2, 1]
    );
    assert_eq!(written(&42u64).payload(), &vec![42, 0, 0, 0, 0, 0, 0, 0]);
    assert_eq!(written(&1u128).payload(), &1u128.to_le_bytes().to_vec());
    assert_eq!(written(&u128::MAX).payload(), &vec![0xff; 16]);
}

#[test]
fn signed_integers_are_twos_complement() {
    assert_eq!(written(&-1i8).payload(), &vec![0xff]);
    assert_eq!(written(&-2i16).payload(), &vec![0xfe, 0xff]);
    assert_eq!(written(&i32::MIN).payload(), &i32::MIN.to_le_bytes().to_vec());
    assert_eq!(written(&-123_456_789_012i64).payload(), &(-123_456_789_012i64).to_le_bytes().to_vec());
    assert_eq!(written(&i128::MIN).payload(), &i128::MIN.to_le_bytes().to_vec());
    assert_eq!(written(&-1i128).payload(), &vec![0xff; 16]);
    assert_eq!(written(&i128::MAX).payload(), &i128::MAX.to_le_bytes().to_vec());
}

#[test]
fn integers_round_trip_at_their_bounds() {
    for v in [0u8, 1, 0x7f, 0x80, u8::MAX] {
        assert_eq!(round_trip(&v), v);
    }
    for v in [0u16, 0xff, 0x100, u16::MAX] {
        assert_eq!(round_trip(&v), v);
    }
    for v in [0u32, 0xffff, 0x1_0000, u32::MAX] {
        assert_eq!(round_trip(&v), v);
    }
    for v in [0u64, 42, u64::MAX] {
        assert_eq!(round_trip(&v), v);
    }
    for v in [0u128, u64::MAX as u128 + 1, u128::MAX] {
        assert_eq!(round_trip(&v), v);
    }
    for v in [i8::MIN, -1, 0, 1, i8::MAX] {
        assert_eq!(round_trip(&v), v);
    }
    for v in [i16::MIN, -1, 0, 1, i16::MAX] {
        assert_eq!(round_trip(&v), v);
    }
    for v in [i32::MIN, -1, 0, 1, i32::MAX] {
        assert_eq!(round_trip(&v), v);
    }
    for v in [i64::MIN, -1, 0, 1, i64::MAX] {
        assert_eq!(round_trip(&v), v);
    }
    for v in [i128::MIN, -1, 0, 1, i128::MAX] {
        assert_eq!(round_trip(&v), v);
    }
}

#[test]
fn reading_an_integer_from_too_few_bytes_is_a_short_read() {
    assert_eq!(read_from::<u8>(&[]), Err(Error::ShortRead));
    assert_eq!(read_from::<u16>(&[1]), Err(Error::ShortRead));
    assert_eq!(read_from::<u32>(&[1, 2, 3]), Err(Error::ShortRead));
    assert_eq!(read_from::<u64>(&[1, 2, 3, 4, 5, 6, 7]), Err(Error::ShortRead));
    assert_eq!(read_from::<i128>(&[0; 15]), Err(Error::ShortRead));
}

#[test]
fn a_string_is_written_as_its_position() {
    let mut file = File::default();
    "alpha".to_string().write_to_file(&mut file).unwrap();
    "beta".to_string().write_to_file(&mut file).unwrap();
    "alpha".to_string().write_to_file(&mut file).unwrap();
    String::new().write_to_file(&mut file).unwrap();
    let mut expected = Vec::new();
    for position in [1u64, 2, 1, 0] {
        expected.extend_from_slice(&position.to_le_bytes());
    }
    assert_eq!(file.payload(), &expected);
    assert_eq!(file.get_string(1), Ok("alpha"));
    assert_eq!(file.get_string(2), Ok("beta"));
    assert_eq!(file.get_string(3), Err(Error::StringNotFound { index: 3 }));
}

#[test]
fn a_string_round_trips() {
    assert_eq!(round_trip(&"Test.Test".to_string()), "Test.Test");
    assert_eq!(round_trip(&String::new()), "");
}

#[test]
fn a_string_position_outside_the_table_is_not_found() {
    assert_eq!(
        read_from::<String>(&7u64.to_le_bytes()),
        Err(Error::StringNotFound { index: 7 })
    );
    assert_eq!(read_from::<String>(&0u64.to_le_bytes()), Ok(String::new()));
}

#[test]
fn an_option_is_a_tag_byte_and_the_value() {
    assert_eq!(written(&Some(0x0102u16)).payload(), &vec![1, 2, 1]);
    assert_eq!(written(&None::<u16>).payload(), &vec![0]);
    assert_eq!(round_trip(&Some(7u64)), Some(7));
    assert_eq!(round_trip(&None::<u64>), None);
    assert_eq!(round_trip(&Some("x".to_string())), Some("x".to_string()));
}

#[test]
fn an_option_tag_other_than_one_is_absent() {
    assert_eq!(read_from::<Option<u8>>(&[0, 9]), Ok(None));
    assert_eq!(read_from::<Option<u8>>(&[2, 9]), Ok(None));
    assert_eq!(read_from::<Option<u8>>(&[1, 9]), Ok(Some(9)));
    assert_eq!(read_from::<Option<u8>>(&[1]), Err(Error::ShortRead));
    assert_eq!(read_from::<Option<u8>>(&[]), Err(Error::ShortRead));
}

#[test]
fn a_sequence_is_its_length_and_its_items() {
    assert_eq!(
        written(&vec![1u8, 2, 3]).payload(),
        &vec![3, 0, 0, 0, 0, 0, 0, 0, 1, 2, 3]
    );
    assert_eq!(written(&Vec::<u8>::new()).payload(), &vec![0; 8]);
}

#[test]
fn sequences_keep_length_and_order() {
    for n in [0usize, 1, 2, 17, 300] {
        let items: Vec<u32> = (0..n as u32).map(|i| i * 3 + 1).collect();
        let back = round_trip(&items);
        assert_eq!(back.len(), n);
        assert_eq!(back, items);
    }
    let names: Vec<String> = vec!["b".into(), "a".into(), "b".into(), "".into()];
    assert_eq!(round_trip(&names), names);
    let nested: Vec<Vec<Option<u8>>> = vec![vec![], vec![None, Some(1)], vec![Some(2)]];
    assert_eq!(round_trip(&nested), nested);
}

#[test]
fn a_sequence_longer_than_its_bytes_is_a_short_read() {
    assert_eq!(
        read_from::<Vec<u8>>(&[3, 0, 0, 0, 0, 0, 0, 0, 1, 2]),
        Err(Error::ShortRead)
    );
    assert_eq!(read_from::<Vec<u8>>(&[0xff; 8]), Err(Error::ShortRead));
    assert_eq!(read_from::<Vec<u8>>(&[0xff; 7]), Err(Error::ShortRead));
}

#[test]
fn a_pair_is_its_parts_in_order() {
    assert_eq!(written(&(1u8, 0x0203u16)).payload(), &vec![1, 3, 2]);
    assert_eq!(round_trip(&(5u8, "five".to_string())), (5, "five".to_string()));
}

#[test]
fn a_map_keeps_the_order_of_its_names() {
    let mut map: NameMap<u8> = NameMap::new();
    assert!(map.is_empty());
    assert!(map.insert("b".to_string(), 1));
    assert!(map.insert("a".to_string(), 2));
    assert!(!map.insert("b".to_string(), 3));
    assert_eq!(map.len(), 2);
    assert_eq!(map.name_at(0), Some(&"b".to_string()));
    assert_eq!(map.value_at(0), Some(&3));
    assert_eq!(map.name_at(1), Some(&"a".to_string()));
    assert_eq!(map.get("a"), Some(&2));
    assert_eq!(map.get("c"), None);
    assert_eq!(map.get_index_of("a"), Some(1));
    assert_eq!(map.name_at(2), None);
    assert_eq!(map.value_at(2), None);
    let back = round_trip(&map);
    assert_eq!(back, map);
    assert_eq!(back.name_at(0), Some(&"b".to_string()));
}

#[test]
fn a_map_is_its_count_and_its_entries() {
    let mut map: NameMap<u8> = NameMap::new();
    map.insert("k".to_string(), 9);
    let file = written(&map);
    let mut expected = Vec::new();
    expected.extend_from_slice(&1u64.to_le_bytes());
    expected.extend_from_slice(&1u64.to_le_bytes());
    expected.push(9);
    assert_eq!(file.payload(), &expected);
    assert_eq!(written(&NameMap::<u8>::new()).payload(), &vec![0; 8]);
}

#[test]
fn reading_a_map_puts_a_repeated_name_in_once() {
    let mut file = File::default();
    2u64.write_to_file(&mut file).unwrap();
    ("k".to_string(), 1u8).write_to_file(&mut file).unwrap();
    ("k".to_string(), 2u8).write_to_file(&mut file).unwrap();
    file.reader().set_position(0);
    let map = NameMap::<u8>::read_from_file(&mut file).unwrap();
    assert_eq!(map.len(), 1);
    assert_eq!(map.get("k"), Some(&2));
}

#[test]
fn flags_are_their_bits() {
    let flags = MethodImplementationFlags::from_bits(METHOD_STATIC | METHOD_VIRTUAL).unwrap();
    assert_eq!(flags.bits(), 5);
    assert!(flags.contains(METHOD_STATIC));
    assert!(!flags.contains(0x0002));
    assert_eq!(written(&flags).payload(), &vec![5, 0]);
    assert_eq!(round_trip(&flags), flags);
    assert_eq!(MethodImplementationFlags::empty().bits(), 0);
    assert_eq!(round_trip(&ClassImplementationFlags::empty()).bits(), 0);
}

#[test]
fn flags_outside_the_known_set_are_rejected() {
    assert_eq!(MethodImplementationFlags::from_bits(0x0010), Err(Error::InvalidFlagBits));
    assert_eq!(FieldImplementationFlags::from_bits(0x0004), Err(Error::InvalidFlagBits));
    assert_eq!(
        read_from::<FieldImplementationFlags>(&[0x04, 0x00]),
        Err(Error::InvalidFlagBits)
    );
    assert_eq!(
        read_from::<ClassImplementationFlags>(&[0x00, 0x80]),
        Err(Error::InvalidFlagBits)
    );
    assert_eq!(
        read_from::<FieldImplementationFlags>(&[0x03, 0x00]).map(|f| f.bits()),
        Ok(3)
    );
    assert_eq!(read_from::<FieldImplementationFlags>(&[0x03]), Err(Error::ShortRead));
}

#[test]
fn every_discriminant_in_range_is_a_variant_and_no_other() {
    let all = [
        Visibility::Public,
        Visibility::Private,
        Visibility::Protected,
        Visibility::Internal,
    ];
    for d in 0..=u8::MAX {
        match Visibility::try_from_primitive(d) {
            Ok(v) => {
                assert!(d < 4);
                assert_eq!(v, all[d as usize]);
                assert_eq!(v.to_primitive(), d);
            }
            Err(e) => {
                assert!(d >= 4);
                assert_eq!(e, Error::EnumOutOfBounds("Visibility"));
            }
        }
        assert_eq!(TypeDefType::try_from_primitive(d).is_ok(), d < 2);
        assert_eq!(TypeSpecificAttrType::try_from_primitive(d).is_ok(), d < 3);
    }
    for d in 0..18u64 {
        assert_eq!(StringInstructionType::try_from_primitive(d).unwrap().to_primitive(), d);
    }
    for d in [18u64, 19, 255, 256, u64::MAX] {
        assert_eq!(
            StringInstructionType::try_from_primitive(d),
            Err(Error::EnumOutOfBounds("StringInstructionType"))
        );
    }
}

#[test]
fn reading_a_discriminant_out_of_range_is_an_error() {
    assert_eq!(read_from::<Visibility>(&[0]), Ok(Visibility::Public));
    assert_eq!(read_from::<Visibility>(&[3]), Ok(Visibility::Internal));
    assert_eq!(read_from::<Visibility>(&[4]), Err(Error::EnumOutOfBounds("Visibility")));
    assert_eq!(read_from::<Visibility>(&[]), Err(Error::ShortRead));
    assert_eq!(
        read_from::<StringInstruction>(&18u64.to_le_bytes()),
        Err(Error::EnumOutOfBounds("StringInstructionType"))
    );
    assert_eq!(
        read_from::<TypeSpecificAttr>(&[3, 0, 0]),
        Err(Error::EnumOutOfBounds("TypeSpecificAttrType"))
    );
}

#[test]
fn attributes_are_their_parts_in_order() {
    let attr = MethodAttr::new(
        Visibility::Private,
        MethodImplementationFlags::from_bits(METHOD_STATIC).unwrap(),
        10,
    );
    assert_eq!(
        written(&attr).payload(),
        &vec![1, 1, 0, 10, 0, 0, 0, 0, 0, 0, 0]
    );
    assert_eq!(round_trip(&attr), attr);
    assert_eq!(attr.vis(), Visibility::Private);
    assert_eq!(attr.impl_flags().bits(), 1);
    assert_eq!(attr.register_len(), 10);

    let field = FieldAttr::new(
        Visibility::Public,
        FieldImplementationFlags::from_bits(FIELD_STATIC).unwrap(),
    );
    assert_eq!(written(&field).payload(), &vec![0, 1, 0]);
    assert_eq!(round_trip(&field), field);

    let ty = TypeAttr::new(
        Visibility::Internal,
        TypeSpecificAttr::Struct(
            pure_lang_binary::attrs::StructImplementationFlags::from_bits(2).unwrap(),
        ),
    );
    // visibility 3, kind 1 (struct), flags 2 in two bytes
    assert_eq!(written(&ty).payload(), &vec![3, 1, 2, 0]);
    assert_eq!(round_trip(&ty), ty);
    assert_eq!(ty.specific().to_type(), TypeSpecificAttrType::Struct);
}

#[test]
fn an_instruction_is_its_kind_and_its_operands() {
    let load = StringInstruction::Load_u64 { register_addr: 0, val: 42 };
    let mut expected = Vec::new();
    expected.extend_from_slice(&9u64.to_le_bytes());
    expected.push(0);
    expected.extend_from_slice(&42u64.to_le_bytes());
    assert_eq!(written(&load).payload(), &expected);
    assert_eq!(load.to_type(), StringInstructionType::Load_u64);

    let ret = StringInstruction::ReturnVal { register_addr: 0 };
    let mut expected = Vec::new();
    expected.extend_from_slice(&16u64.to_le_bytes());
    expected.push(0);
    assert_eq!(written(&ret).payload(), &expected);
}

#[test]
fn every_kind_of_instruction_round_trips() {
    let all = vec![
        StringInstruction::LoadTrue { register_addr: 1 },
        StringInstruction::LoadFalse { register_addr: 2 },
        StringInstruction::Load_u8 { register_addr: 3, val: 200 },
        StringInstruction::Load_u8_0 { register_addr: 4 },
        StringInstruction::Load_u8_1 { register_addr: 5 },
        StringInstruction::Load_u8_2 { register_addr: 6 },
        StringInstruction::Load_u8_3 { register_addr: 7 },
        StringInstruction::Load_u8_4 { register_addr: 8 },
        StringInstruction::Load_u8_5 { register_addr: 9 },
        StringInstruction::Load_u64 { register_addr: 10, val: u64::MAX },
        StringInstruction::NewObject {
            ty: "[!]System.Object".to_string(),
            ctor_name: ".ctor()".to_string(),
            args: vec![1, 2],
            register_addr: 11,
        },
        StringInstruction::InstanceCall {
            val: 0,
            method: "ToString()".to_string(),
            args: vec![],
            ret_at: 1,
        },
        StringInstruction::StaticCall {
            ty: "[!]System.Console".to_string(),
            method: "WriteLine([!]System.String)".to_string(),
            args: vec![0],
            ret_at: 1,
        },
        StringInstruction::LoadArg { register_addr: 12, arg: 3 },
        StringInstruction::LoadAllArgsAsArray { register_addr: 13 },
        StringInstruction::LoadStatic {
            register_addr: 0,
            ty: "[Test]Test.Test".to_string(),
            name: "__test".to_string(),
        },
        StringInstruction::ReturnVal { register_addr: 14 },
        StringInstruction::SetField { register_addr: 1, field: "__test".to_string() },
    ];
    for (i, instruction) in all.iter().enumerate() {
        assert_eq!(instruction.to_type().to_primitive(), i as u64);
        assert_eq!(&round_trip(instruction), instruction);
    }
    assert_eq!(round_trip(&all), all);
}

#[test]
fn a_string_slice_is_written_as_a_string() {
    let mut file = File::default();
    "alpha".write_to_file(&mut file).unwrap();
    "alpha".to_string().write_to_file(&mut file).unwrap();
    let mut expected = Vec::new();
    expected.extend_from_slice(&1u64.to_le_bytes());
    expected.extend_from_slice(&1u64.to_le_bytes());
    assert_eq!(file.payload(), &expected);
}
