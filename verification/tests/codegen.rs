use pure_lang_binary::codegen::{
    decimal, derive_read_from_file_impl, derive_write_to_file_impl, DataShape, DeriveError,
    ReadPlan, TypeShape, VariantShape, WriteArm, WritePlan,
};

fn named(names: &[&str]) -> Vec<Option<String>> {
    names.iter().map(|n| Some(n.to_string())).collect()
}

fn strings(names: &[&str]) -> Vec<String> {
    names.iter().map(|n| n.to_string()).collect()
}

fn variant(name: &str, discriminant: Option<&str>, fields: Vec<Option<String>>) -> VariantShape {
    VariantShape {
        name: name.to_string(),
        discriminant: discriminant.map(|d| d.to_string()),
        fields,
    }
}

fn shape(name: &str, repr: Option<&str>, data: DataShape) -> TypeShape {
    TypeShape { name: name.to_string(), repr: repr.map(|r| r.to_string()), data }
}

#[test]
fn decimal_has_no_leading_zeros() {
    assert_eq!(decimal(0), "0");
    assert_eq!(decimal(7), "7");
    assert_eq!(decimal(10), "10");
    assert_eq!(decimal(109), "109");
    assert_eq!(decimal(65_536), "65536");
    assert_eq!(decimal(usize::MAX), usize::MAX.to_string());
}

#[test]
fn a_record_is_read_and_written_field_by_field() {
    let field = shape("Field", None, DataShape::Struct(named(&["name", "attr", "ty"])));
    assert_eq!(
        derive_read_from_file_impl(&field),
        Ok(ReadPlan::Record { members: strings(&["name", "attr", "ty"]) })
    );
    assert_eq!(
        derive_write_to_file_impl(&field),
        Ok(WritePlan::Record { members: strings(&["name", "attr", "ty"]) })
    );
}

#[test]
fn a_record_without_names_is_read_by_place() {
    let pair = shape("Pair", None, DataShape::Struct(vec![None, None, None]));
    assert_eq!(
        derive_read_from_file_impl(&pair),
        Ok(ReadPlan::Record { members: strings(&["0", "1", "2"]) })
    );
    let unit = shape("Unit", Some("u8"), DataShape::Struct(vec![]));
    assert_eq!(derive_read_from_file_impl(&unit), Ok(ReadPlan::Record { members: vec![] }));
    assert_eq!(derive_write_to_file_impl(&unit), Ok(WritePlan::Record { members: vec![] }));
}

#[test]
fn a_union_with_a_representation_goes_by_discriminant() {
    let visibility = shape(
        "Visibility",
        Some("u8"),
        DataShape::Enum(vec![
            variant("Public", None, vec![]),
            variant("Private", Some("5"), vec![]),
            variant("Internal", None, vec![]),
        ]),
    );
    assert_eq!(
        derive_read_from_file_impl(&visibility),
        Ok(ReadPlan::Discriminant {
            repr: "u8".to_string(),
            arms: vec![
                ("0".to_string(), "Public".to_string()),
                ("5".to_string(), "Private".to_string()),
                ("2".to_string(), "Internal".to_string()),
            ],
        })
    );
    assert_eq!(
        derive_write_to_file_impl(&visibility),
        Ok(WritePlan::Discriminant { repr: "u8".to_string() })
    );
}

#[test]
fn a_union_without_a_representation_goes_by_kind() {
    let type_def = shape(
        "TypeDef",
        None,
        DataShape::Enum(vec![
            variant("Class", None, vec![None]),
            variant("Load", None, named(&["register_addr", "val"])),
            variant("Nothing", None, vec![]),
            variant("Two", None, vec![None, None]),
        ]),
    );
    assert_eq!(
        derive_read_from_file_impl(&type_def),
        Ok(ReadPlan::Tagged {
            kind_type: "TypeDefType".to_string(),
            variants: vec![
                ("Class".to_string(), strings(&["0"])),
                ("Load".to_string(), strings(&["register_addr", "val"])),
                ("Nothing".to_string(), vec![]),
                ("Two".to_string(), strings(&["0", "1"])),
            ],
        })
    );
    assert_eq!(
        derive_write_to_file_impl(&type_def),
        Ok(WritePlan::Tagged {
            arms: vec![
                WriteArm {
                    variant: "Class".to_string(),
                    unnamed: true,
                    members: strings(&["0"]),
                    bindings: strings(&["_0"]),
                },
                WriteArm {
                    variant: "Load".to_string(),
                    unnamed: false,
                    members: strings(&["register_addr", "val"]),
                    bindings: strings(&["register_addr", "val"]),
                },
                WriteArm {
                    variant: "Nothing".to_string(),
                    unnamed: false,
                    members: vec![],
                    bindings: vec![],
                },
                WriteArm {
                    variant: "Two".to_string(),
                    unnamed: true,
                    members: strings(&["0", "1"]),
                    bindings: strings(&["_0", "_1"]),
                },
            ],
        })
    );
}

#[test]
fn a_union_without_variants_still_has_a_plan() {
    let never = shape("Never", None, DataShape::Enum(vec![]));
    assert_eq!(
        derive_read_from_file_impl(&never),
        Ok(ReadPlan::Tagged { kind_type: "NeverType".to_string(), variants: vec![] })
    );
    assert_eq!(derive_write_to_file_impl(&never), Ok(WritePlan::Tagged { arms: vec![] }));
}

#[test]
fn unions_are_not_supported() {
    let union = shape("U", Some("u8"), DataShape::Union);
    assert_eq!(derive_read_from_file_impl(&union), Err(DeriveError::UnionsNotSupported));
    assert_eq!(derive_write_to_file_impl(&union), Err(DeriveError::UnionsNotSupported));
    assert_eq!(DeriveError::UnionsNotSupported.message(), "Unions are not supported");
}
