//! Fields of types.

use crate::attrs::{FieldAttr, FieldAttrView};
use crate::error::Error;
use crate::file::File;
use crate::interner::Table;
use crate::names::{StringName, StringTypeReference};
use crate::traits::{Codec, ReadFromFile, WriteToFile};
use vstd::prelude::*;

verus! {

/// A field of a type.
#[derive(Clone, Debug, PartialEq, Eq)]
pub struct Field {
    name: StringName,
    attr: FieldAttr,
    ty: StringTypeReference,
}

/// What a [`Field`] holds.
pub struct FieldView {
    /// The name of the field.
    pub name: Seq<char>,
    /// The attributes of the field.
    pub attr: FieldAttrView,
    /// The type of the field.
    pub ty: Seq<char>,
}

/// The parts of a [`Field`] in the order in which they are written.
pub type FieldParts = (StringName, (FieldAttr, StringTypeReference));

impl FieldView {
    /// The parts in the order in which they are written.
    pub open spec fn parts(self) -> <FieldParts as DeepView>::V {
        (self.name, (self.attr, self.ty))
    }
}

impl DeepView for Field {
    type V = FieldView;

    closed spec fn deep_view(&self) -> FieldView {
        FieldView {
            name: self.name.deep_view(),
            attr: self.attr.deep_view(),
            ty: self.ty.deep_view(),
        }
    }
}

impl Field {
    /// A value with the given parts.
    pub fn new(name: StringName, attr: FieldAttr, ty: StringTypeReference) -> (made: Self)
        ensures
            made.deep_view() == (FieldView {
                name: name.deep_view(),
                attr: attr.deep_view(),
                ty: ty.deep_view(),
            }),
    {
        Field { name, attr, ty }
    }

    /// The name of the field.
    pub fn name(&self) -> (part: &StringName)
        ensures
            part.deep_view() == self.deep_view().name,
    {
        &self.name
    }

    /// The attributes of the field.
    pub fn attr(&self) -> (part: FieldAttr)
        ensures
            part.deep_view() == self.deep_view().attr,
    {
        self.attr
    }

    /// The type of the field.
    pub fn ty(&self) -> (part: &StringTypeReference)
        ensures
            part.deep_view() == self.deep_view().ty,
    {
        &self.ty
    }
}

/// A `Field` is written as its parts in the order of their declaration.
impl WriteToFile for Field {
    #[verifier::opaque]
    open spec fn wire(v: FieldView, table: Table) -> Seq<u8> {
        <FieldParts as WriteToFile>::wire(v.parts(), table)
    }

    #[verifier::opaque]
    open spec fn table_after(v: FieldView, table: Table) -> Table {
        <FieldParts as WriteToFile>::table_after(v.parts(), table)
    }

    proof fn lemma_table_grows(v: FieldView, table: Table) {
        reveal(<Field as WriteToFile>::table_after);
        <FieldParts as WriteToFile>::lemma_table_grows(v.parts(), table);
    }

    fn write_to_file(&self, file: &mut File) -> (done: Result<(), Error>) {
        proof {
            reveal(<Field as WriteToFile>::wire);
            reveal(<Field as WriteToFile>::table_after);
        }
        (&self.name, (&self.attr, &self.ty)).write_to_file(file)
    }
}

impl ReadFromFile for Field {
    #[verifier::opaque]
    open spec fn parse(table: Table, bytes: Seq<u8>, at: int) -> Result<(FieldView, int), Error> {
        match <FieldParts as ReadFromFile>::parse(table, bytes, at) {
            Ok(((name, (attr, ty)), next)) => Ok((FieldView { name, attr, ty }, next)),
            Err(e) => Err(e),
        }
    }

    fn read_from_file(file: &mut File) -> (value: Result<Self, Error>) {
        proof {
            reveal(<Field as ReadFromFile>::parse);
        }
        match <FieldParts>::read_from_file(file) {
            Ok((name, (attr, ty))) => Ok(Field { name, attr, ty }),
            Err(e) => Err(e),
        }
    }
}

impl Codec for Field {
    #[verifier::opaque]
    open spec fn valid(v: FieldView) -> bool {
        <FieldParts as Codec>::valid(v.parts())
    }

    proof fn lemma_decode(
        v: FieldView,
        table: Table,
        final_table: Table,
        bytes: Seq<u8>,
        at: int,
    ) {
        reveal(<Field as WriteToFile>::wire);
        reveal(<Field as WriteToFile>::table_after);
        reveal(<Field as ReadFromFile>::parse);
        reveal(<Field as Codec>::valid);
        <FieldParts as Codec>::lemma_decode(v.parts(), table, final_table, bytes, at);
    }
}

} // verus!
