//! What the reader and the writer of a declared type consist of.
//!
//! A declaration of a record or of a tagged union fixes how its values are
//! written: a record as its fields in the order of their declaration, a
//! union with a numeric representation as its discriminant, and any other
//! union as a kind of a companion type followed by the fields of the
//! variant. The functions here work that out from the shape of a
//! declaration; turning the outcome into source text is left to the caller.

use vstd::prelude::*;

verus! {

/// Why no reader or writer can be made for a declaration.
#[derive(Clone, Copy, Debug, PartialEq, Eq)]
pub enum DeriveError {
    /// The declaration is an untagged union.
    UnionsNotSupported,
}

impl DeriveError {
    /// The words in which the error is reported.
    pub fn message(&self) -> (text: &'static str)
        ensures
            text@ == "Unions are not supported"@,
    {
        "Unions are not supported"
    }
}

/// One variant of a tagged union as it is declared.
#[derive(Clone, Debug, PartialEq, Eq)]
pub struct VariantShape {
    /// The name of the variant.
    pub name: String,
    /// The text of the discriminant, where the declaration gives one.
    pub discriminant: Option<String>,
    /// The fields of the variant in their order, each with its name where it has one.
    pub fields: Vec<Option<String>>,
}

/// What a [`VariantShape`] holds.
pub struct VariantShapeView {
    /// The name of the variant.
    pub name: Seq<char>,
    /// The text of the discriminant, where the declaration gives one.
    pub discriminant: Option<Seq<char>>,
    /// The fields of the variant in their order, each with its name where it has one.
    pub fields: Seq<Option<Seq<char>>>,
}

impl DeepView for VariantShape {
    type V = VariantShapeView;

    open spec fn deep_view(&self) -> VariantShapeView {
        VariantShapeView {
            name: self.name.deep_view(),
            discriminant: self.discriminant.deep_view(),
            fields: self.fields.deep_view(),
        }
    }
}

/// The body of a declaration.
#[derive(Clone, Debug, PartialEq, Eq)]
pub enum DataShape {
    /// A record: its fields in their order, each with its name where it has one.
    Struct(Vec<Option<String>>),
    /// A tagged union: its variants in their order.
    Enum(Vec<VariantShape>),
    /// An untagged union.
    Union,
}

/// What a [`DataShape`] holds.
pub enum DataShapeView {
    /// A record: its fields in their order.
    Struct(Seq<Option<Seq<char>>>),
    /// A tagged union: its variants in their order.
    Enum(Seq<VariantShapeView>),
    /// An untagged union.
    Union,
}

impl DeepView for DataShape {
    type V = DataShapeView;

    open spec fn deep_view(&self) -> DataShapeView {
        match self {
            DataShape::Struct(fields) => DataShapeView::Struct(fields.deep_view()),
            DataShape::Enum(variants) => DataShapeView::Enum(variants.deep_view()),
            DataShape::Union => DataShapeView::Union,
        }
    }
}

/// A declaration of a type, as far as its reader and writer depend on it.
#[derive(Clone, Debug, PartialEq, Eq)]
pub struct TypeShape {
    /// The name of the type.
    pub name: String,
    /// The numeric representation that the declaration fixes, where it fixes one.
    pub repr: Option<String>,
    /// The fields or variants.
    pub data: DataShape,
}

/// What a [`TypeShape`] holds.
pub struct TypeShapeView {
    /// The name of the type.
    pub name: Seq<char>,
    /// The numeric representation that the declaration fixes, where it fixes one.
    pub repr: Option<Seq<char>>,
    /// The fields or variants.
    pub data: DataShapeView,
}

impl DeepView for TypeShape {
    type V = TypeShapeView;

    open spec fn deep_view(&self) -> TypeShapeView {
        TypeShapeView {
            name: self.name.deep_view(),
            repr: self.repr.deep_view(),
            data: self.data.deep_view(),
        }
    }
}

/// How values of a type are read.
#[derive(Clone, Debug, PartialEq, Eq)]
pub enum ReadPlan {
    /// Read each member in this order and make the record of them.
    Record { members: Vec<String> },
    /// Read a number of the representation `repr` and take the variant of
    /// the first arm whose discriminant it equals; each arm is a
    /// discriminant and the name of its variant.
    Discriminant { repr: String, arms: Vec<(String, String)> },
    /// Read a kind of the type `kind_type` and then, for the variant of
    /// that name, each of its members in this order; each entry is the name
    /// of a variant and its members.
    Tagged { kind_type: String, variants: Vec<(String, Vec<String>)> },
}

/// What a [`ReadPlan`] holds.
pub enum ReadPlanView {
    /// A record read member by member.
    Record { members: Seq<Seq<char>> },
    /// A union read by its discriminant.
    Discriminant { repr: Seq<char>, arms: Seq<(Seq<char>, Seq<char>)> },
    /// A union read by the kind of its companion type.
    Tagged { kind_type: Seq<char>, variants: Seq<(Seq<char>, Seq<Seq<char>>)> },
}

impl DeepView for ReadPlan {
    type V = ReadPlanView;

    open spec fn deep_view(&self) -> ReadPlanView {
        match self {
            ReadPlan::Record { members } => ReadPlanView::Record { members: members.deep_view() },
            ReadPlan::Discriminant { repr, arms } => ReadPlanView::Discriminant {
                repr: repr.deep_view(),
                arms: arms.deep_view(),
            },
            ReadPlan::Tagged { kind_type, variants } => ReadPlanView::Tagged {
                kind_type: kind_type.deep_view(),
                variants: variants.deep_view(),
            },
        }
    }
}

/// How the values of one variant are written, behind their kind.
#[derive(Clone, Debug, PartialEq, Eq)]
pub struct WriteArm {
    /// The name of the variant.
    pub variant: String,
    /// Whether the variant is matched by position, because a field of it has no name.
    pub unnamed: bool,
    /// The members of the variant in the order in which they are written.
    pub members: Vec<String>,
    /// The name to which each member is bound while it is written.
    pub bindings: Vec<String>,
}

/// What a [`WriteArm`] holds.
pub struct WriteArmView {
    /// The name of the variant.
    pub variant: Seq<char>,
    /// Whether the variant is matched by position.
    pub unnamed: bool,
    /// The members of the variant in the order in which they are written.
    pub members: Seq<Seq<char>>,
    /// The name to which each member is bound while it is written.
    pub bindings: Seq<Seq<char>>,
}

impl DeepView for WriteArm {
    type V = WriteArmView;

    open spec fn deep_view(&self) -> WriteArmView {
        WriteArmView {
            variant: self.variant.deep_view(),
            unnamed: self.unnamed,
            members: self.members.deep_view(),
            bindings: self.bindings.deep_view(),
        }
    }
}

/// How values of a type are written.
#[derive(Clone, Debug, PartialEq, Eq)]
pub enum WritePlan {
    /// Write each member in this order.
    Record { members: Vec<String> },
    /// Write the value's discriminant as a number of the representation `repr`.
    Discriminant { repr: String },
    /// Write the value's kind, then the members of its variant as the arm
    /// of that variant says.
    Tagged { arms: Vec<WriteArm> },
}

/// What a [`WritePlan`] holds.
pub enum WritePlanView {
    /// A record written member by member.
    Record { members: Seq<Seq<char>> },
    /// A union written as its discriminant.
    Discriminant { repr: Seq<char> },
    /// A union written as its kind and the members of its variant.
    Tagged { arms: Seq<WriteArmView> },
}

impl DeepView for WritePlan {
    type V = WritePlanView;

    open spec fn deep_view(&self) -> WritePlanView {
        match self {
            WritePlan::Record { members } => WritePlanView::Record { members: members.deep_view() },
            WritePlan::Discriminant { repr } => WritePlanView::Discriminant {
                repr: repr.deep_view(),
            },
            WritePlan::Tagged { arms } => WritePlanView::Tagged { arms: arms.deep_view() },
        }
    }
}

/// The digit for a number below ten.
pub open spec fn digit_text(digit: nat) -> Seq<char> {
    if digit == 0 {
        "0"@
    } else if digit == 1 {
        "1"@
    } else if digit == 2 {
        "2"@
    } else if digit == 3 {
        "3"@
    } else if digit == 4 {
        "4"@
    } else if digit == 5 {
        "5"@
    } else if digit == 6 {
        "6"@
    } else if digit == 7 {
        "7"@
    } else if digit == 8 {
        "8"@
    } else {
        "9"@
    }
}

/// A number in decimal digits, without leading zeros.
pub open spec fn decimal_text(n: nat) -> Seq<char>
    decreases n,
{
    if n < 10 {
        digit_text(n)
    } else {
        decimal_text(n / 10) + digit_text(n % 10)
    }
}

/// How the field at place `index` is referred to: by its name, or by its
/// place where it has no name.
pub open spec fn member_text(index: int, field: Option<Seq<char>>) -> Seq<char> {
    match field {
        Some(name) => name,
        None => decimal_text(index as nat),
    }
}

/// How each of the fields is referred to, in their order.
pub open spec fn member_texts(fields: Seq<Option<Seq<char>>>) -> Seq<Seq<char>> {
    Seq::new(fields.len(), |i: int| member_text(i, fields[i]))
}

/// Some field has no name.
pub open spec fn has_unnamed(fields: Seq<Option<Seq<char>>>) -> bool {
    exists|i: int| 0 <= i < fields.len() && fields[i] is None
}

/// The name to which the field at place `index` is bound while a variant is
/// written: the field's own name where no field of the variant lacks one,
/// else an underscore and how the field is referred to.
pub open spec fn binding_text(unnamed: bool, index: int, field: Option<Seq<char>>) -> Seq<char> {
    if unnamed {
        "_"@ + member_text(index, field)
    } else {
        member_text(index, field)
    }
}

/// The binding of each field, in their order.
pub open spec fn binding_texts(fields: Seq<Option<Seq<char>>>) -> Seq<Seq<char>> {
    Seq::new(fields.len(), |i: int| binding_text(has_unnamed(fields), i, fields[i]))
}

/// The discriminant of the variant at place `index`: the one that the
/// declaration gives, or the place, counted from 0.
pub open spec fn discriminant_text(index: int, explicit: Option<Seq<char>>) -> Seq<char> {
    match explicit {
        Some(text) => text,
        None => decimal_text(index as nat),
    }
}

/// The name of the companion type that tells the variants of `name` apart.
pub open spec fn kind_type_name(name: Seq<char>) -> Seq<char> {
    name + "Type"@
}

/// The arms of a reader by discriminant: for each variant, in order, its
/// discriminant and its name.
pub open spec fn discriminant_arms(variants: Seq<VariantShapeView>) -> Seq<(Seq<char>, Seq<char>)> {
    Seq::new(
        variants.len(),
        |i: int| (discriminant_text(i, variants[i].discriminant), variants[i].name),
    )
}

/// The arms of a reader by kind: for each variant, in order, its name and
/// its members.
pub open spec fn tagged_read_arms(variants: Seq<VariantShapeView>) -> Seq<
    (Seq<char>, Seq<Seq<char>>),
> {
    Seq::new(variants.len(), |i: int| (variants[i].name, member_texts(variants[i].fields)))
}

/// The arm of a writer for one variant.
pub open spec fn write_arm(variant: VariantShapeView) -> WriteArmView {
    WriteArmView {
        variant: variant.name,
        unnamed: has_unnamed(variant.fields),
        members: member_texts(variant.fields),
        bindings: binding_texts(variant.fields),
    }
}

/// The arms of a writer by kind: one for each variant, in order.
pub open spec fn tagged_write_arms(variants: Seq<VariantShapeView>) -> Seq<WriteArmView> {
    Seq::new(variants.len(), |i: int| write_arm(variants[i]))
}

/// How values of the declared type are read: a record field by field; a
/// union with a representation by its discriminant; any other union by the
/// kind of its companion type. There is no reader for an untagged union.
pub open spec fn read_plan(shape: TypeShapeView) -> Result<ReadPlanView, DeriveError> {
    match shape.data {
        DataShapeView::Struct(fields) => Ok(ReadPlanView::Record { members: member_texts(fields) }),
        DataShapeView::Enum(variants) => match shape.repr {
            Some(repr) => Ok(
                ReadPlanView::Discriminant { repr, arms: discriminant_arms(variants) },
            ),
            None => Ok(
                ReadPlanView::Tagged {
                    kind_type: kind_type_name(shape.name),
                    variants: tagged_read_arms(variants),
                },
            ),
        },
        DataShapeView::Union => Err(DeriveError::UnionsNotSupported),
    }
}

/// How values of the declared type are written, in the same three ways.
pub open spec fn write_plan(shape: TypeShapeView) -> Result<WritePlanView, DeriveError> {
    match shape.data {
        DataShapeView::Struct(fields) => Ok(
            WritePlanView::Record { members: member_texts(fields) },
        ),
        DataShapeView::Enum(variants) => match shape.repr {
            Some(repr) => Ok(WritePlanView::Discriminant { repr }),
            None => Ok(WritePlanView::Tagged { arms: tagged_write_arms(variants) }),
        },
        DataShapeView::Union => Err(DeriveError::UnionsNotSupported),
    }
}

/// The digit for a number below ten.
fn digit_str(digit: usize) -> (text: &'static str)
    requires
        digit < 10,
    ensures
        text@ == digit_text(digit as nat),
{
    match digit {
        0 => "0",
        1 => "1",
        2 => "2",
        3 => "3",
        4 => "4",
        5 => "5",
        6 => "6",
        7 => "7",
        8 => "8",
        _ => "9",
    }
}

/// A number in decimal digits, without leading zeros.
pub fn decimal(n: usize) -> (text: String)
    ensures
        text@ == decimal_text(n as nat),
    decreases n,
{
    if n < 10 {
        digit_str(n).to_owned()
    } else {
        let mut text = decimal(n / 10);
        text.append(digit_str(n % 10));
        text
    }
}

/// How the field at place `index` is referred to.
fn member(index: usize, field: &Option<String>) -> (text: String)
    ensures
        text@ == member_text(index as int, field.deep_view()),
{
    match field {
        Some(name) => name.clone(),
        None => decimal(index),
    }
}

/// How each of the fields is referred to, in their order.
fn members(fields: &Vec<Option<String>>) -> (texts: Vec<String>)
    ensures
        texts.deep_view() == member_texts(fields.deep_view()),
{
    let mut texts: Vec<String> = Vec::new();
    let mut i: usize = 0;
    while i < fields.len()
        invariant
            0 <= i <= fields.len(),
            texts.len() == i,
            forall|j: int|
                0 <= j < i ==> (#[trigger] texts[j])@ == member_text(j, fields.deep_view()[j]),
        decreases fields.len() - i,
    {
        let text = member(i, &fields[i]);
        texts.push(text);
        i += 1;
    }
    assert(texts.deep_view() =~= member_texts(fields.deep_view()));
    texts
}

/// Whether some field has no name.
fn any_unnamed(fields: &Vec<Option<String>>) -> (unnamed: bool)
    ensures
        unnamed == has_unnamed(fields.deep_view()),
{
    let mut i: usize = 0;
    while i < fields.len()
        invariant
            0 <= i <= fields.len(),
            forall|j: int| 0 <= j < i ==> fields.deep_view()[j] is Some,
        decreases fields.len() - i,
    {
        if fields[i].is_none() {
            assert(fields.deep_view()[i as int] is None);
            return true;
        }
        i += 1;
    }
    false
}

/// The binding of each field, in their order.
fn bindings(fields: &Vec<Option<String>>) -> (texts: Vec<String>)
    ensures
        texts.deep_view() == binding_texts(fields.deep_view()),
{
    let unnamed = any_unnamed(fields);
    let mut texts: Vec<String> = Vec::new();
    let mut i: usize = 0;
    while i < fields.len()
        invariant
            0 <= i <= fields.len(),
            texts.len() == i,
            unnamed == has_unnamed(fields.deep_view()),
            forall|j: int|
                0 <= j < i ==> (#[trigger] texts[j])@ == binding_text(
                    unnamed,
                    j,
                    fields.deep_view()[j],
                ),
        decreases fields.len() - i,
    {
        let text = member(i, &fields[i]);
        if unnamed {
            let mut bound = "_".to_owned();
            bound.append(text.as_str());
            texts.push(bound);
        } else {
            texts.push(text);
        }
        i += 1;
    }
    assert(texts.deep_view() =~= binding_texts(fields.deep_view()));
    texts
}

/// How values of the declared type are read.
pub fn derive_read_from_file_impl(input: &TypeShape) -> (plan: Result<ReadPlan, DeriveError>)
    ensures
        match read_plan(input.deep_view()) {
            Ok(expected) => plan is Ok && plan->Ok_0.deep_view() == expected,
            Err(e) => plan == Err::<ReadPlan, DeriveError>(e),
        },
{
    match &input.data {
        DataShape::Struct(fields) => Ok(ReadPlan::Record { members: members(fields) }),
        DataShape::Enum(variants) => {
            let ghost shapes = variants.deep_view();
            match &input.repr {
                Some(repr) => {
                    let mut arms: Vec<(String, String)> = Vec::new();
                    let mut i: usize = 0;
                    while i < variants.len()
                        invariant
                            0 <= i <= variants.len(),
                            shapes == variants.deep_view(),
                            arms.len() == i,
                            forall|j: int|
                                0 <= j < i ==> (#[trigger] arms[j]).deep_view()
                                    == discriminant_arms(shapes)[j],
                        decreases variants.len() - i,
                    {
                        let value = match &variants[i].discriminant {
                            Some(text) => text.clone(),
                            None => decimal(i),
                        };
                        assert(shapes[i as int] == variants[i as int].deep_view());
                        arms.push((value, variants[i].name.clone()));
                        i += 1;
                    }
                    assert(arms.deep_view() =~= discriminant_arms(shapes));
                    Ok(ReadPlan::Discriminant { repr: repr.clone(), arms })
                },
                None => {
                    let mut arms: Vec<(String, Vec<String>)> = Vec::new();
                    let mut i: usize = 0;
                    while i < variants.len()
                        invariant
                            0 <= i <= variants.len(),
                            shapes == variants.deep_view(),
                            arms.len() == i,
                            forall|j: int|
                                0 <= j < i ==> (#[trigger] arms[j]).deep_view()
                                    == tagged_read_arms(shapes)[j],
                        decreases variants.len() - i,
                    {
                        assert(shapes[i as int] == variants[i as int].deep_view());
                        arms.push((variants[i].name.clone(), members(&variants[i].fields)));
                        i += 1;
                    }
                    assert(arms.deep_view() =~= tagged_read_arms(shapes));
                    let mut kind_type = input.name.clone();
                    kind_type.append("Type");
                    Ok(ReadPlan::Tagged { kind_type, variants: arms })
                },
            }
        },
        DataShape::Union => Err(DeriveError::UnionsNotSupported),
    }
}

/// How values of the declared type are written.
pub fn derive_write_to_file_impl(input: &TypeShape) -> (plan: Result<WritePlan, DeriveError>)
    ensures
        match write_plan(input.deep_view()) {
            Ok(expected) => plan is Ok && plan->Ok_0.deep_view() == expected,
            Err(e) => plan == Err::<WritePlan, DeriveError>(e),
        },
{
    match &input.data {
        DataShape::Struct(fields) => Ok(WritePlan::Record { members: members(fields) }),
        DataShape::Enum(variants) => {
            let ghost shapes = variants.deep_view();
            match &input.repr {
                Some(repr) => Ok(WritePlan::Discriminant { repr: repr.clone() }),
                None => {
                    let mut arms: Vec<WriteArm> = Vec::new();
                    let mut i: usize = 0;
                    while i < variants.len()
                        invariant
                            0 <= i <= variants.len(),
                            shapes == variants.deep_view(),
                            arms.len() == i,
                            forall|j: int|
                                0 <= j < i ==> (#[trigger] arms[j]).deep_view()
                                    == tagged_write_arms(shapes)[j],
                        decreases variants.len() - i,
                    {
                        assert(shapes[i as int] == variants[i as int].deep_view());
                        let fields = &variants[i].fields;
                        arms.push(
                            WriteArm {
                                variant: variants[i].name.clone(),
                                unnamed: any_unnamed(fields),
                                members: members(fields),
                                bindings: bindings(fields),
                            },
                        );
                        i += 1;
                    }
                    assert(arms.deep_view() =~= tagged_write_arms(shapes));
                    Ok(WritePlan::Tagged { arms })
                },
            }
        },
        DataShape::Union => Err(DeriveError::UnionsNotSupported),
    }
}

} // verus!
