use pure_lang_binary::assembly::Header;
use pure_lang_binary::attrs::{
    ClassImplementationFlags, FieldAttr, FieldImplementationFlags, MethodAttr,
    MethodImplementationFlags, StructImplementationFlags, TypeAttr, TypeSpecificAttr, Visibility,
    FIELD_STATIC, METHOD_STATIC,
};
use pure_lang_binary::implement::Implementation;
use pure_lang_binary::instruction::StringInstruction;
use pure_lang_binary::traits::{decode, encode};
use pure_lang_binary::ty::class::ClassDef;
use pure_lang_binary::ty::field::Field;
use pure_lang_binary::ty::method::Method;
use pure_lang_binary::ty::structure::StructDef;
use pure_lang_binary::ty::{GenericBinding, TypeDef};
use pure_lang_binary::{Assembly, Error, File, NameMap, ReadFromFile, WriteToFile};

fn name(s: &str) -> String {
    s.to_string()
}

fn static_method(method_name: &str, instructions: Vec<StringInstruction>, args: Vec<String>) -> Method {
    Method::new(
        name(method_name),
        MethodAttr::new(
            Visibility::Public,
            MethodImplementationFlags::from_bits(METHOD_STATIC).unwrap(),
            10,
        ),
        instructions,
        name("[!]System.Void"),
        args,
        NameMap::new(),
    )
}

fn class_attr() -> TypeAttr {
    TypeAttr::new(
        Visibility::Public,
        TypeSpecificAttr::Class(ClassImplementationFlags::empty()),
    )
}

fn test_assembly() -> Assembly {
    let mut type_vars = NameMap::new();
    type_vars.insert(
        name("@T"),
        GenericBinding::new(
            vec![name("[!]System.IDisposable")],
            Some(name("[!]System.Array`1[@T:[!]System.Object]")),
        ),
    );
    type_vars.insert(name("@U"), GenericBinding::new(vec![], None));

    let mut methods = NameMap::new();
    methods.insert(
        name("PrintStaticsAndGenericType()"),
        static_method(
            "PrintStaticsAndGenericType()",
            vec![
                StringInstruction::LoadStatic {
                    register_addr: 0,
                    ty: name("[Test]Test.Test"),
                    name: name("__test"),
                },
                StringInstruction::StaticCall {
                    ty: name("[!]System.Console"),
                    method: name("WriteLine([!]System.String)"),
                    args: vec![0],
                    ret_at: 1,
                },
            ],
            vec![],
        ),
    );
    methods.insert(
        name("Main([!]System.Array`1[@T:[!]System.String])"),
        static_method(
            "Main([!]System.Array`1[@T:[!]System.String])",
            vec![
                StringInstruction::StaticCall {
                    ty: name("[Test]Test.Test"),
                    method: name("PrintStaticsAndGenericType()"),
                    args: vec![],
                    ret_at: 1,
                },
                StringInstruction::Load_u64 { register_addr: 1, val: 0 },
                StringInstruction::ReturnVal { register_addr: 1 },
            ],
            vec![name("[!]System.Array`1[@T:[!]System.String]")],
        ),
    );
    methods.insert(
        name(".sctor()"),
        static_method(
            ".sctor()",
            vec![
                StringInstruction::Load_u64 { register_addr: 0, val: 10 },
                StringInstruction::InstanceCall {
                    val: 0,
                    method: name("ToString()"),
                    args: vec![],
                    ret_at: 1,
                },
                StringInstruction::SetField { register_addr: 1, field: name("__test") },
            ],
            vec![],
        ),
    );

    let mut fields = NameMap::new();
    fields.insert(
        name("__test"),
        Field::new(
            name("__test"),
            FieldAttr::new(
                Visibility::Public,
                FieldImplementationFlags::from_bits(FIELD_STATIC).unwrap(),
            ),
            name("[!]System.String"),
        ),
    );

    let mut assem = Assembly::default();
    *assem.name_mut() = name("Test");
    assem.type_defs_mut().insert(
        name("Test.Test"),
        TypeDef::Class(ClassDef::new(
            Some(name("[!]System.Object")),
            type_vars,
            class_attr(),
            name("Test.Test"),
            methods,
            fields,
        )),
    );
    assem
}

#[test]
fn test_emit_get() {
    let assem = test_assembly();
    let b = assem.to_file_bytes().unwrap();
    let assem_gotten = Assembly::from_bytes(&b).unwrap();
    assert_eq!(assem_gotten, assem);
}

#[test]
fn the_empty_assembly_round_trips() {
    let assem = Assembly::new(name("Empty"), NameMap::new());
    let bytes = assem.to_file_bytes().unwrap();
    let back = Assembly::from_bytes(&bytes).unwrap();
    assert_eq!(back.name(), "Empty");
    assert!(back.type_defs().is_empty());
    assert_eq!(back, assem);
}

#[test]
fn the_empty_assembly_has_these_bytes() {
    let assem = Assembly::new(name("Empty"), NameMap::new());
    let bytes = assem.to_file_bytes().unwrap();
    let mut expected = Vec::new();
    // the table block: "" NUL "Empty", padded from six bytes to eight
    expected.extend_from_slice(&8u64.to_le_bytes());
    expected.extend_from_slice(&[0, b'E', b'm', b'p', b't', b'y', 0, 0]);
    // the name at position 1, then no types
    expected.extend_from_slice(&1u64.to_le_bytes());
    expected.extend_from_slice(&0u64.to_le_bytes());
    assert_eq!(bytes, expected);
}

#[test]
fn the_default_assembly_round_trips() {
    let assem = Assembly::default();
    let bytes = assem.to_file_bytes().unwrap();
    assert_eq!(bytes, vec![0u8; 24]);
    assert_eq!(Assembly::from_bytes(&bytes).unwrap(), assem);
}

#[test]
fn a_single_class_with_one_field_round_trips() {
    let mut fields = NameMap::new();
    fields.insert(
        name("x"),
        Field::new(
            name("x"),
            FieldAttr::new(
                Visibility::Private,
                FieldImplementationFlags::from_bits(3).unwrap(),
            ),
            name("[!]System.UInt64"),
        ),
    );
    let class = ClassDef::new(
        None,
        NameMap::new(),
        class_attr(),
        name("A"),
        NameMap::new(),
        fields,
    );
    let mut assem = Assembly::default();
    *assem.name_mut() = name("M");
    assert!(assem.type_defs_mut().insert(name("A"), TypeDef::Class(class)));

    let back = Assembly::from_bytes(&assem.to_file_bytes().unwrap()).unwrap();
    assert_eq!(back, assem);
    match back.type_defs().get("A") {
        Some(TypeDef::Class(class)) => {
            assert_eq!(class.name(), "A");
            assert_eq!(class.parent(), &None);
            assert!(class.type_vars().is_empty());
            assert!(class.methods().is_empty());
            assert_eq!(class.fields().len(), 1);
            let field = class.fields().get("x").unwrap();
            assert_eq!(field.name(), "x");
            assert_eq!(field.attr().vis(), Visibility::Private);
            assert_eq!(field.attr().impl_flags().bits(), 3);
            assert_eq!(field.ty(), "[!]System.UInt64");
        }
        _ => panic!("the class is gone"),
    }
}

#[test]
fn a_method_keeps_its_instructions() {
    let method = static_method(
        "Answer()",
        vec![
            StringInstruction::Load_u64 { register_addr: 0, val: 42 },
            StringInstruction::ReturnVal { register_addr: 0 },
        ],
        vec![],
    );
    let back: Method = decode(&encode(&method).unwrap()).unwrap();
    assert_eq!(back, method);
    assert_eq!(
        back.instructions(),
        &vec![
            StringInstruction::Load_u64 { register_addr: 0, val: 42 },
            StringInstruction::ReturnVal { register_addr: 0 },
        ]
    );
    assert_eq!(back.attr().register_len(), 10);
    assert_eq!(back.ret_type(), "[!]System.Void");
}

#[test]
fn a_file_without_its_last_byte_is_a_short_read() {
    for assem in [Assembly::default(), Assembly::new(name("Empty"), NameMap::new()), test_assembly()] {
        let mut bytes = assem.to_file_bytes().unwrap();
        bytes.pop();
        assert_eq!(Assembly::from_bytes(&bytes), Err(Error::ShortRead));
    }
}

#[test]
fn every_cut_of_the_payload_is_a_short_read() {
    let assem = test_assembly();
    let bytes = assem.to_file_bytes().unwrap();
    let block_len = u64::from_le_bytes(bytes[..8].try_into().unwrap()) as usize;
    for keep in (8 + block_len)..bytes.len() {
        assert_eq!(Assembly::from_bytes(&bytes[..keep]), Err(Error::ShortRead));
    }
    for keep in 0..(8 + block_len) {
        assert_eq!(Assembly::from_bytes(&bytes[..keep]), Err(Error::ShortRead));
    }
}

#[test]
fn bytes_behind_the_assembly_are_not_looked_at() {
    let assem = test_assembly();
    let mut bytes = assem.to_file_bytes().unwrap();
    bytes.extend_from_slice(&[1, 2, 3]);
    assert_eq!(Assembly::from_bytes(&bytes).unwrap(), assem);
}

#[test]
fn a_type_kind_out_of_range_is_an_error() {
    let mut file = File::default();
    name("M").write_to_file(&mut file).unwrap();
    1u64.write_to_file(&mut file).unwrap();
    name("T").write_to_file(&mut file).unwrap();
    2u8.write_to_file(&mut file).unwrap();
    let bytes = file.to_bytes().unwrap();
    assert_eq!(Assembly::from_bytes(&bytes), Err(Error::EnumOutOfBounds("TypeDefType")));
}

#[test]
fn a_struct_round_trips() {
    let def = StructDef::new(
        NameMap::new(),
        TypeAttr::new(
            Visibility::Internal,
            TypeSpecificAttr::Struct(StructImplementationFlags::from_bits(1).unwrap()),
        ),
        name("Point"),
        NameMap::new(),
        NameMap::new(),
    );
    let mut assem = Assembly::default();
    assem.type_defs_mut().insert(name("Point"), TypeDef::Struct(def));
    let back = Assembly::from_bytes(&assem.to_file_bytes().unwrap()).unwrap();
    assert_eq!(back, assem);
    assert!(matches!(back.type_defs().get("Point"), Some(TypeDef::Struct(_))));
}

#[test]
fn type_defs_mut_replaces_under_the_same_name() {
    let mut assem = Assembly::default();
    let first = TypeDef::Class(ClassDef::new(
        None,
        NameMap::new(),
        class_attr(),
        name("first"),
        NameMap::new(),
        NameMap::new(),
    ));
    let second = TypeDef::Class(ClassDef::new(
        None,
        NameMap::new(),
        class_attr(),
        name("second"),
        NameMap::new(),
        NameMap::new(),
    ));
    assert!(assem.type_defs_mut().insert(name("T"), first));
    assert!(!assem.type_defs_mut().insert(name("T"), second.clone()));
    assert_eq!(assem.type_defs().len(), 1);
    assert_eq!(assem.type_defs().get("T"), Some(&second));
}

#[test]
fn an_implementation_round_trips() {
    let mut methods = NameMap::new();
    methods.insert(
        name("Dispose()"),
        static_method("Dispose()", vec![StringInstruction::ReturnVal { register_addr: 0 }], vec![]),
    );
    let implementation = Implementation::new(
        name("[Test]Test.Test"),
        Some(name("[!]System.IDisposable")),
        methods,
    );
    let back: Implementation = decode(&encode(&implementation).unwrap()).unwrap();
    assert_eq!(back, implementation);
    assert_eq!(back.ty(), "[Test]Test.Test");
    assert_eq!(back.interface(), &Some(name("[!]System.IDisposable")));
    assert_eq!(back.methods().len(), 1);
}

#[test]
fn a_generic_binding_keeps_the_order_of_its_interfaces() {
    let binding = GenericBinding::new(
        vec![name("[!]B"), name("[!]A"), name("[!]C")],
        Some(name("[!]System.Object")),
    );
    let back: GenericBinding = decode(&encode(&binding).unwrap()).unwrap();
    assert_eq!(back, binding);
    assert_eq!(back.implemented_interfaces(), &vec![name("[!]B"), name("[!]A"), name("[!]C")]);
    assert_eq!(back.parent(), &Some(name("[!]System.Object")));
}

#[test]
fn the_header_is_checked_against_the_magic_bytes() {
    let header = Header::current();
    assert_eq!(header.magic(), *b"PL");
    assert_eq!(header.check(), Ok(()));
    assert_eq!(Header::new([b'P', b'M']).check(), Err(Error::WrongFileFormat));
    assert_eq!(Header::new([0, 0]).check(), Err(Error::WrongFileFormat));
}

#[test]
fn the_header_is_written_as_an_array() {
    let mut file = File::default();
    Header::current().write_to_file(&mut file).unwrap();
    assert_eq!(file.payload(), &vec![2, 0, 0, 0, 0, 0, 0, 0, b'P', b'L']);
    file.reader().set_position(0);
    assert_eq!(Header::read_from_file(&mut file), Ok(Header::current()));
}

#[test]
fn an_array_of_another_length_is_the_wrong_format() {
    let mut file = File::default();
    vec![1u8, 2, 3].write_to_file(&mut file).unwrap();
    file.reader().set_position(0);
    assert_eq!(<[u8; 2]>::read_from_file(&mut file), Err(Error::WrongFileFormat));
    file.reader().set_position(0);
    assert_eq!(<[u8; 3]>::read_from_file(&mut file), Ok([1, 2, 3]));
    file.reader().set_position(0);
    assert_eq!(<[u8; 4]>::read_from_file(&mut file), Err(Error::WrongFileFormat));
    let mut file = File::default();
    file.writer().write_all(&[2, 0, 0, 0, 0, 0, 0, 0, 9]);
    file.reader().set_position(0);
    assert_eq!(<[u8; 2]>::read_from_file(&mut file), Err(Error::ShortRead));
}

#[test]
fn arrays_round_trip() {
    let mut file = File::default();
    let names = [name("a"), name("b"), name("a")];
    names.write_to_file(&mut file).unwrap();
    [7u16; 0].write_to_file(&mut file).unwrap();
    file.reader().set_position(0);
    assert_eq!(<[String; 3]>::read_from_file(&mut file), Ok(names));
    assert_eq!(<[u16; 0]>::read_from_file(&mut file), Ok([]));
}

#[test]
fn a_name_with_the_zero_character_is_not_read_back() {
    let assem = Assembly::new(name("a\0b"), NameMap::new());
    let back = Assembly::from_bytes(&assem.to_file_bytes().unwrap()).unwrap();
    assert_eq!(back.name(), "a");
    assert!(back != assem);
}

#[test]
fn names_in_other_scripts_round_trip() {
    let mut assem = Assembly::new(name("模块"), NameMap::new());
    assem.type_defs_mut().insert(
        name("Ünïcödé"),
        TypeDef::Struct(StructDef::new(
            NameMap::new(),
            TypeAttr::new(
                Visibility::Public,
                TypeSpecificAttr::Struct(StructImplementationFlags::empty()),
            ),
            name("Ünïcödé"),
            NameMap::new(),
            NameMap::new(),
        )),
    );
    assert_eq!(Assembly::from_bytes(&assem.to_file_bytes().unwrap()).unwrap(), assem);
}

#[test]
fn name_mut_and_type_defs_mut_change_the_assembly_in_place() {
    let mut assem = Assembly::default();
    assert_eq!(assem.name(), "");
    assem.name_mut().push_str("Mod");
    assert_eq!(assem.name(), "Mod");
    assert_eq!(assem.type_defs().len(), 0);
    let def = TypeDef::Class(ClassDef::new(
        None,
        NameMap::new(),
        class_attr(),
        name("C"),
        NameMap::new(),
        NameMap::new(),
    ));
    assem.type_defs_mut().insert(name("C"), def.clone());
    assert_eq!(assem.type_defs().get("C"), Some(&def));
    assert_eq!(def.to_type(), pure_lang_binary::ty::TypeDefType::Class);
}
