//! The types of a module.

use crate::bytes::{le_bytes, lemma_agrees_split, lemma_le_value_bound, lemma_pow256_values};
use crate::error::Error;
use crate::file::{lemma_after_write_twice, File};
use crate::interner::Table;
use crate::names::StringTypeReference;
use crate::traits::{
    lemma_decode_fixed, parse_fixed, read_fixed, write_fixed, Codec, ReadFromFile, WriteToFile,
};
use crate::ty::class::{ClassDef, ClassDefView};
use crate::ty::structure::{StructDef, StructDefView};
use vstd::prelude::*;

pub mod class;
pub mod field;
pub mod method;
pub mod structure;

verus! {

/// The kinds of type definition.
#[derive(Clone, Copy, Debug, PartialEq, Eq)]
pub enum TypeDefType {
    /// A class.
    Class,
    /// A struct.
    Struct,
}

impl DeepView for TypeDefType {
    type V = TypeDefType;

    open spec fn deep_view(&self) -> TypeDefType {
        *self
    }
}

impl TypeDefType {
    /// The number that stands for the variant: its place in the declaration, from 0.
    pub open spec fn discriminant(self) -> nat {
        match self {
            TypeDefType::Class => 0,
            TypeDefType::Struct => 1,
        }
    }

    /// The variant that `d` stands for, where it stands for one.
    pub open spec fn of_discriminant(d: nat) -> Option<TypeDefType> {
        if d == 0 {
            Some(TypeDefType::Class)
        } else if d == 1 {
            Some(TypeDefType::Struct)
        } else {
            None
        }
    }

    /// The number that stands for the variant.
    pub fn to_primitive(self) -> (d: u8)
        ensures
            d == self.discriminant(),
            Self::of_discriminant(d as nat) == Some(self),
    {
        match self {
            TypeDefType::Class => 0,
            TypeDefType::Struct => 1,
        }
    }

    /// The variant that `d` stands for. Each of the 2 numbers from 0 on stands
    /// for one, and no other number does.
    pub fn try_from_primitive(d: u8) -> (found: Result<Self, Error>)
        ensures
            found is Ok <==> d < 2,
            match Self::of_discriminant(d as nat) {
                Some(v) => found == Ok::<Self, Error>(v) && v.discriminant() == d,
                None => found == Err::<Self, Error>(
                    Error::EnumOutOfBounds("TypeDefType"),
                ),
            },
    {
        match d {
            0 => Ok(TypeDefType::Class),
            1 => Ok(TypeDefType::Struct),
            _ => Err(Error::EnumOutOfBounds("TypeDefType")),
        }
    }
}

/// A `TypeDefType` is written as its discriminant in 1 byte.
impl WriteToFile for TypeDefType {
    open spec fn wire(v: TypeDefType, table: Table) -> Seq<u8> {
        le_bytes(v.discriminant(), 1)
    }

    open spec fn table_after(v: TypeDefType, table: Table) -> Table {
        table
    }

    proof fn lemma_table_grows(v: TypeDefType, table: Table) {
    }

    fn write_to_file(&self, file: &mut File) -> (done: Result<(), Error>) {
        write_fixed(file, self.to_primitive() as u128, 1);
        Ok(())
    }
}

impl ReadFromFile for TypeDefType {
    open spec fn parse(table: Table, bytes: Seq<u8>, at: int) -> Result<(TypeDefType, int), Error> {
        match parse_fixed(bytes, at, 1) {
            Ok((n, next)) => match Self::of_discriminant(n) {
                Some(v) => Ok((v, next)),
                None => Err(Error::EnumOutOfBounds("TypeDefType")),
            },
            Err(e) => Err(e),
        }
    }

    fn read_from_file(file: &mut File) -> (value: Result<Self, Error>) {
        let ghost start = file@.cursor as int;
        match read_fixed(file, 1) {
            Ok(raw) => {
                proof {
                    lemma_le_value_bound(file@.bytes.subrange(start, start + 1));
                    lemma_pow256_values();
                }
                Self::try_from_primitive(raw as u8)
            },
            Err(e) => Err(e),
        }
    }
}

impl Codec for TypeDefType {
    open spec fn valid(v: TypeDefType) -> bool {
        true
    }

    proof fn lemma_decode(
        v: TypeDefType,
        table: Table,
        final_table: Table,
        bytes: Seq<u8>,
        at: int,
    ) {
        lemma_pow256_values();
        lemma_decode_fixed(v.discriminant(), 1, bytes, at);
    }
}

/// The definition of a type.
#[derive(Clone, Debug, PartialEq, Eq)]
#[allow(inconsistent_fields)]
pub enum TypeDef {
    /// A class.
    Class(ClassDef),
    /// A struct.
    Struct(StructDef),
}

/// What a [`TypeDef`] holds.
#[allow(inconsistent_fields)]
pub enum TypeDefView {
    Class(ClassDefView),
    Struct(StructDefView),
}

impl DeepView for TypeDef {
    type V = TypeDefView;

    open spec fn deep_view(&self) -> TypeDefView {
        match self {
            TypeDef::Class(def) => TypeDefView::Class(def.deep_view()),
            TypeDef::Struct(def) => TypeDefView::Struct(def.deep_view()),
        }
    }
}

impl TypeDefView {
    /// Which variant the value is.
    pub open spec fn kind(self) -> TypeDefType {
        match self {
            TypeDefView::Class(..) => TypeDefType::Class,
            TypeDefView::Struct(..) => TypeDefType::Struct,
        }
    }

    /// The bytes that the parts of the variant are written as.
    pub open spec fn parts_wire(self, table: Table) -> Seq<u8> {
        match self {
            TypeDefView::Class(def) => <ClassDef as WriteToFile>::wire(def, table),
            TypeDefView::Struct(def) => <StructDef as WriteToFile>::wire(def, table),
        }
    }

    /// The table after the parts of the variant have been written.
    pub open spec fn parts_table_after(self, table: Table) -> Table {
        match self {
            TypeDefView::Class(def) => <ClassDef as WriteToFile>::table_after(def, table),
            TypeDefView::Struct(def) => <StructDef as WriteToFile>::table_after(def, table),
        }
    }

    /// Every part of the variant is one that its type's constructors can make.
    pub open spec fn parts_valid(self) -> bool {
        match self {
            TypeDefView::Class(def) => <ClassDef as Codec>::valid(def),
            TypeDefView::Struct(def) => <StructDef as Codec>::valid(def),
        }
    }

    /// The value of the kind `kind` whose parts stand at position `at`, and the
    /// position behind them.
    pub open spec fn parse_parts(
        kind: TypeDefType,
        table: Table,
        bytes: Seq<u8>,
        at: int,
    ) -> Result<(TypeDefView, int), Error> {
        match kind {
            TypeDefType::Class => match <ClassDef as ReadFromFile>::parse(table, bytes, at) {
                Ok((def, end)) => Ok((TypeDefView::Class(def), end)),
                Err(e) => Err(e),
            },
            TypeDefType::Struct => match <StructDef as ReadFromFile>::parse(table, bytes, at) {
                Ok((def, end)) => Ok((TypeDefView::Struct(def), end)),
                Err(e) => Err(e),
            },
        }
    }
}

impl TypeDef {
    /// Which variant the value is.
    pub fn to_type(&self) -> (kind: TypeDefType)
        ensures
            kind == self.deep_view().kind(),
    {
        match self {
            TypeDef::Class(..) => TypeDefType::Class,
            TypeDef::Struct(..) => TypeDefType::Struct,
        }
    }
}

/// A `TypeDef` is written as its kind, then the parts of its variant in the order
/// of their declaration.
impl WriteToFile for TypeDef {
    #[verifier::opaque]
    open spec fn wire(v: TypeDefView, table: Table) -> Seq<u8> {
        <TypeDefType as WriteToFile>::wire(v.kind(), table) + v.parts_wire(table)
    }

    #[verifier::opaque]
    open spec fn table_after(v: TypeDefView, table: Table) -> Table {
        v.parts_table_after(table)
    }

    proof fn lemma_table_grows(v: TypeDefView, table: Table) {
        reveal(<TypeDef as WriteToFile>::table_after);
        match v {
            TypeDefView::Class(def) => {
                <ClassDef as WriteToFile>::lemma_table_grows(def, table);
            },
            TypeDefView::Struct(def) => {
                <StructDef as WriteToFile>::lemma_table_grows(def, table);
            },
        }
    }

    fn write_to_file(&self, file: &mut File) -> (done: Result<(), Error>) {
        proof {
            reveal(<TypeDef as WriteToFile>::wire);
            reveal(<TypeDef as WriteToFile>::table_after);
        }
        let ghost before = file@;
        match self.to_type().write_to_file(file) {
            Ok(_) => {},
            Err(e) => {
                return Err(e);
            },
        }
        let done = match self {
            TypeDef::Class(def) => def.write_to_file(file),
            TypeDef::Struct(def) => def.write_to_file(file),
        };
        proof {
            let v = self.deep_view();
            lemma_after_write_twice(
                before,
                <TypeDefType as WriteToFile>::wire(v.kind(), before.strings),
                before.strings,
                v.parts_wire(before.strings),
                v.parts_table_after(before.strings),
            );
        }
        done
    }
}

impl ReadFromFile for TypeDef {
    #[verifier::opaque]
    open spec fn parse(table: Table, bytes: Seq<u8>, at: int) -> Result<(TypeDefView, int), Error> {
        match <TypeDefType as ReadFromFile>::parse(table, bytes, at) {
            Ok((kind, next)) => TypeDefView::parse_parts(kind, table, bytes, next),
            Err(e) => Err(e),
        }
    }

    fn read_from_file(file: &mut File) -> (value: Result<Self, Error>) {
        proof {
            reveal(<TypeDef as ReadFromFile>::parse);
        }
        match TypeDefType::read_from_file(file) {
            Ok(kind) => match kind {
                TypeDefType::Class => match <ClassDef>::read_from_file(file) {
                    Ok(def) => Ok(TypeDef::Class(def)),
                    Err(e) => Err(e),
                },
                TypeDefType::Struct => match <StructDef>::read_from_file(file) {
                    Ok(def) => Ok(TypeDef::Struct(def)),
                    Err(e) => Err(e),
                },
            },
            Err(e) => Err(e),
        }
    }
}

impl Codec for TypeDef {
    #[verifier::opaque]
    open spec fn valid(v: TypeDefView) -> bool {
        v.parts_valid()
    }

    proof fn lemma_decode(
        v: TypeDefView,
        table: Table,
        final_table: Table,
        bytes: Seq<u8>,
        at: int,
    ) {
        reveal(<TypeDef as WriteToFile>::wire);
        reveal(<TypeDef as WriteToFile>::table_after);
        reveal(<TypeDef as ReadFromFile>::parse);
        reveal(<TypeDef as Codec>::valid);
        let head = <TypeDefType as WriteToFile>::wire(v.kind(), table);
        Self::lemma_table_grows(v, table);
        lemma_agrees_split(bytes, at, head, v.parts_wire(table));
        <TypeDefType as Codec>::lemma_decode(v.kind(), table, final_table, bytes, at);
        if at + head.len() <= bytes.len() {
            let next = at + head.len();
            match v {
                TypeDefView::Class(def) => {
                    <ClassDef as Codec>::lemma_decode(def, table, final_table, bytes, next);
                },
                TypeDefView::Struct(def) => {
                    <StructDef as Codec>::lemma_decode(def, table, final_table, bytes, next);
                },
            }
        }
    }
}

/// What a generic parameter asks of the type that is put in its place.
#[derive(Clone, Debug, PartialEq, Eq)]
pub struct GenericBinding {
    implemented_interfaces: Vec<StringTypeReference>,
    parent: Option<StringTypeReference>,
}

/// What a [`GenericBinding`] holds.
pub struct GenericBindingView {
    /// The interfaces that the type has to implement.
    pub implemented_interfaces: Seq<Seq<char>>,
    /// The type that the type has to derive from, where there is one.
    pub parent: Option<Seq<char>>,
}

/// The parts of a [`GenericBinding`] in the order in which they are written.
pub type GenericBindingParts = (Vec<StringTypeReference>, Option<StringTypeReference>);

impl GenericBindingView {
    /// The parts in the order in which they are written.
    pub open spec fn parts(self) -> <GenericBindingParts as DeepView>::V {
        (self.implemented_interfaces, self.parent)
    }
}

impl DeepView for GenericBinding {
    type V = GenericBindingView;

    closed spec fn deep_view(&self) -> GenericBindingView {
        GenericBindingView {
            implemented_interfaces: self.implemented_interfaces.deep_view(),
            parent: self.parent.deep_view(),
        }
    }
}

impl GenericBinding {
    /// A value with the given parts.
    pub fn new(
        implemented_interfaces: Vec<StringTypeReference>,
        parent: Option<StringTypeReference>,
    ) -> (made: Self)
        ensures
            made.deep_view() == (GenericBindingView {
                implemented_interfaces: implemented_interfaces.deep_view(),
                parent: parent.deep_view(),
            }),
    {
        GenericBinding { implemented_interfaces, parent }
    }

    /// The interfaces that the type has to implement.
    pub fn implemented_interfaces(&self) -> (part: &Vec<StringTypeReference>)
        ensures
            part.deep_view() == self.deep_view().implemented_interfaces,
    {
        &self.implemented_interfaces
    }

    /// The type that the type has to derive from, where there is one.
    pub fn parent(&self) -> (part: &Option<StringTypeReference>)
        ensures
            part.deep_view() == self.deep_view().parent,
    {
        &self.parent
    }
}

/// A `GenericBinding` is written as its parts in the order of their declaration.
impl WriteToFile for GenericBinding {
    #[verifier::opaque]
    open spec fn wire(v: GenericBindingView, table: Table) -> Seq<u8> {
        <GenericBindingParts as WriteToFile>::wire(v.parts(), table)
    }

    #[verifier::opaque]
    open spec fn table_after(v: GenericBindingView, table: Table) -> Table {
        <GenericBindingParts as WriteToFile>::table_after(v.parts(), table)
    }

    proof fn lemma_table_grows(v: GenericBindingView, table: Table) {
        reveal(<GenericBinding as WriteToFile>::table_after);
        <GenericBindingParts as WriteToFile>::lemma_table_grows(v.parts(), table);
    }

    fn write_to_file(&self, file: &mut File) -> (done: Result<(), Error>) {
        proof {
            reveal(<GenericBinding as WriteToFile>::wire);
            reveal(<GenericBinding as WriteToFile>::table_after);
        }
        (&self.implemented_interfaces, &self.parent).write_to_file(file)
    }
}

impl ReadFromFile for GenericBinding {
    #[verifier::opaque]
    open spec fn parse(table: Table, bytes: Seq<u8>, at: int) -> Result<
        (GenericBindingView, int),
        Error,
    > {
        match <GenericBindingParts as ReadFromFile>::parse(table, bytes, at) {
            Ok(((implemented_interfaces, parent), next)) => Ok(
                (GenericBindingView { implemented_interfaces, parent }, next),
            ),
            Err(e) => Err(e),
        }
    }

    fn read_from_file(file: &mut File) -> (value: Result<Self, Error>) {
        proof {
            reveal(<GenericBinding as ReadFromFile>::parse);
        }
        match <GenericBindingParts>::read_from_file(file) {
            Ok((implemented_interfaces, parent)) => Ok(
                GenericBinding { implemented_interfaces, parent },
            ),
            Err(e) => Err(e),
        }
    }
}

impl Codec for GenericBinding {
    #[verifier::opaque]
    open spec fn valid(v: GenericBindingView) -> bool {
        <GenericBindingParts as Codec>::valid(v.parts())
    }

    proof fn lemma_decode(
        v: GenericBindingView,
        table: Table,
        final_table: Table,
        bytes: Seq<u8>,
        at: int,
    ) {
        reveal(<GenericBinding as WriteToFile>::wire);
        reveal(<GenericBinding as WriteToFile>::table_after);
        reveal(<GenericBinding as ReadFromFile>::parse);
        reveal(<GenericBinding as Codec>::valid);
        <GenericBindingParts as Codec>::lemma_decode(v.parts(), table, final_table, bytes, at);
    }
}

} // verus!
