//! Structs.

use crate::attrs::{TypeAttr, TypeAttrView};
use crate::error::Error;
use crate::file::File;
use crate::interner::Table;
use crate::map::NameMap;
use crate::names::StringName;
use crate::traits::{Codec, ReadFromFile, WriteToFile};
use crate::ty::field::{Field, FieldView};
use crate::ty::method::{Method, MethodView};
use crate::ty::{GenericBinding, GenericBindingView};
use vstd::prelude::*;

verus! {

/// A struct: a type whose values are held in place.
#[derive(Clone, Debug, PartialEq, Eq)]
pub struct StructDef {
    type_vars: NameMap<GenericBinding>,
    attr: TypeAttr,
    name: StringName,
    methods: NameMap<Method>,
    fields: NameMap<Field>,
}

/// What a [`StructDef`] holds.
pub struct StructDefView {
    /// The generic parameters of the struct, by name.
    pub type_vars: Seq<(Seq<char>, GenericBindingView)>,
    /// The attributes of the struct.
    pub attr: TypeAttrView,
    /// The name of the struct.
    pub name: Seq<char>,
    /// The methods of the struct, by name.
    pub methods: Seq<(Seq<char>, MethodView)>,
    /// The fields of the struct, by name.
    pub fields: Seq<(Seq<char>, FieldView)>,
}

/// The parts of a [`StructDef`] in the order in which they are written.
pub type StructDefParts = (
    NameMap<GenericBinding>,
    (TypeAttr, (StringName, (NameMap<Method>, NameMap<Field>))),
);

impl StructDefView {
    /// The parts in the order in which they are written.
    pub open spec fn parts(self) -> <StructDefParts as DeepView>::V {
        (self.type_vars, (self.attr, (self.name, (self.methods, self.fields))))
    }
}

impl DeepView for StructDef {
    type V = StructDefView;

    closed spec fn deep_view(&self) -> StructDefView {
        StructDefView {
            type_vars: self.type_vars.deep_view(),
            attr: self.attr.deep_view(),
            name: self.name.deep_view(),
            methods: self.methods.deep_view(),
            fields: self.fields.deep_view(),
        }
    }
}

impl StructDef {
    /// A value with the given parts.
    pub fn new(
        type_vars: NameMap<GenericBinding>,
        attr: TypeAttr,
        name: StringName,
        methods: NameMap<Method>,
        fields: NameMap<Field>,
    ) -> (made: Self)
        ensures
            made.deep_view() == (StructDefView {
                type_vars: type_vars.deep_view(),
                attr: attr.deep_view(),
                name: name.deep_view(),
                methods: methods.deep_view(),
                fields: fields.deep_view(),
            }),
    {
        StructDef { type_vars, attr, name, methods, fields }
    }

    /// The generic parameters of the struct, by name.
    pub fn type_vars(&self) -> (part: &NameMap<GenericBinding>)
        ensures
            part.deep_view() == self.deep_view().type_vars,
    {
        &self.type_vars
    }

    /// The attributes of the struct.
    pub fn attr(&self) -> (part: TypeAttr)
        ensures
            part.deep_view() == self.deep_view().attr,
    {
        self.attr
    }

    /// The name of the struct.
    pub fn name(&self) -> (part: &StringName)
        ensures
            part.deep_view() == self.deep_view().name,
    {
        &self.name
    }

    /// The methods of the struct, by name.
    pub fn methods(&self) -> (part: &NameMap<Method>)
        ensures
            part.deep_view() == self.deep_view().methods,
    {
        &self.methods
    }

    /// The fields of the struct, by name.
    pub fn fields(&self) -> (part: &NameMap<Field>)
        ensures
            part.deep_view() == self.deep_view().fields,
    {
        &self.fields
    }
}

/// A `StructDef` is written as its parts in the order of their declaration.
impl WriteToFile for StructDef {
    #[verifier::opaque]
    open spec fn wire(v: StructDefView, table: Table) -> Seq<u8> {
        <StructDefParts as WriteToFile>::wire(v.parts(), table)
    }

    #[verifier::opaque]
    open spec fn table_after(v: StructDefView, table: Table) -> Table {
        <StructDefParts as WriteToFile>::table_after(v.parts(), table)
    }

    proof fn lemma_table_grows(v: StructDefView, table: Table) {
        reveal(<StructDef as WriteToFile>::table_after);
        <StructDefParts as WriteToFile>::lemma_table_grows(v.parts(), table);
    }

    fn write_to_file(&self, file: &mut File) -> (done: Result<(), Error>) {
        proof {
            reveal(<StructDef as WriteToFile>::wire);
            reveal(<StructDef as WriteToFile>::table_after);
        }
        let parts = (
            &self.type_vars,
            (&self.attr, (&self.name, (&self.methods, &self.fields))),
        );
        parts.write_to_file(file)
    }
}

impl ReadFromFile for StructDef {
    #[verifier::opaque]
    open spec fn parse(table: Table, bytes: Seq<u8>, at: int) -> Result<
        (StructDefView, int),
        Error,
    > {
        match <StructDefParts as ReadFromFile>::parse(table, bytes, at) {
            Ok(((type_vars, (attr, (name, (methods, fields)))), next)) => Ok(
                (StructDefView { type_vars, attr, name, methods, fields }, next),
            ),
            Err(e) => Err(e),
        }
    }

    fn read_from_file(file: &mut File) -> (value: Result<Self, Error>) {
        proof {
            reveal(<StructDef as ReadFromFile>::parse);
        }
        match <StructDefParts>::read_from_file(file) {
            Ok((type_vars, (attr, (name, (methods, fields))))) => Ok(
                StructDef { type_vars, attr, name, methods, fields },
            ),
            Err(e) => Err(e),
        }
    }
}

impl Codec for StructDef {
    #[verifier::opaque]
    open spec fn valid(v: StructDefView) -> bool {
        <StructDefParts as Codec>::valid(v.parts())
    }

    proof fn lemma_decode(
        v: StructDefView,
        table: Table,
        final_table: Table,
        bytes: Seq<u8>,
        at: int,
    ) {
        reveal(<StructDef as WriteToFile>::wire);
        reveal(<StructDef as WriteToFile>::table_after);
        reveal(<StructDef as ReadFromFile>::parse);
        reveal(<StructDef as Codec>::valid);
        <StructDefParts as Codec>::lemma_decode(v.parts(), table, final_table, bytes, at);
    }
}

} // verus!
