//! Classes.

use crate::attrs::{TypeAttr, TypeAttrView};
use crate::error::Error;
use crate::file::File;
use crate::interner::Table;
use crate::map::NameMap;
use crate::names::{StringName, StringTypeReference};
use crate::traits::{Codec, ReadFromFile, WriteToFile};
use crate::ty::field::{Field, FieldView};
use crate::ty::method::{Method, MethodView};
use crate::ty::{GenericBinding, GenericBindingView};
use vstd::prelude::*;

verus! {

/// A class.
#[derive(Clone, Debug, PartialEq, Eq)]
pub struct ClassDef {
    parent: Option<StringTypeReference>,
    type_vars: NameMap<GenericBinding>,
    attr: TypeAttr,
    name: StringName,
    methods: NameMap<Method>,
    fields: NameMap<Field>,
}

/// What a [`ClassDef`] holds.
pub struct ClassDefView {
    /// The class that this one derives from, where there is one.
    pub parent: Option<Seq<char>>,
    /// The generic parameters of the class, by name.
    pub type_vars: Seq<(Seq<char>, GenericBindingView)>,
    /// The attributes of the class.
    pub attr: TypeAttrView,
    /// The name of the class.
    pub name: Seq<char>,
    /// The methods of the class, by name.
    pub methods: Seq<(Seq<char>, MethodView)>,
    /// The fields of the class, by name.
    pub fields: Seq<(Seq<char>, FieldView)>,
}

/// The parts of a [`ClassDef`] in the order in which they are written.
pub type ClassDefParts = (
    Option<StringTypeReference>,
    (NameMap<GenericBinding>, (TypeAttr, (StringName, (NameMap<Method>, NameMap<Field>)))),
);

impl ClassDefView {
    /// The parts in the order in which they are written.
    pub open spec fn parts(self) -> <ClassDefParts as DeepView>::V {
        (self.parent, (self.type_vars, (self.attr, (self.name, (self.methods, self.fields)))))
    }
}

impl DeepView for ClassDef {
    type V = ClassDefView;

    closed spec fn deep_view(&self) -> ClassDefView {
        ClassDefView {
            parent: self.parent.deep_view(),
            type_vars: self.type_vars.deep_view(),
            attr: self.attr.deep_view(),
            name: self.name.deep_view(),
            methods: self.methods.deep_view(),
            fields: self.fields.deep_view(),
        }
    }
}

impl ClassDef {
    /// A value with the given parts.
    pub fn new(
        parent: Option<StringTypeReference>,
        type_vars: NameMap<GenericBinding>,
        attr: TypeAttr,
        name: StringName,
        methods: NameMap<Method>,
        fields: NameMap<Field>,
    ) -> (made: Self)
        ensures
            made.deep_view() == (ClassDefView {
                parent: parent.deep_view(),
                type_vars: type_vars.deep_view(),
                attr: attr.deep_view(),
                name: name.deep_view(),
                methods: methods.deep_view(),
                fields: fields.deep_view(),
            }),
    {
        ClassDef { parent, type_vars, attr, name, methods, fields }
    }

    /// The class that this one derives from, where there is one.
    pub fn parent(&self) -> (part: &Option<StringTypeReference>)
        ensures
            part.deep_view() == self.deep_view().parent,
    {
        &self.parent
    }

    /// The generic parameters of the class, by name.
    pub fn type_vars(&self) -> (part: &NameMap<GenericBinding>)
        ensures
            part.deep_view() == self.deep_view().type_vars,
    {
        &self.type_vars
    }

    /// The attributes of the class.
    pub fn attr(&self) -> (part: TypeAttr)
        ensures
            part.deep_view() == self.deep_view().attr,
    {
        self.attr
    }

    /// The name of the class.
    pub fn name(&self) -> (part: &StringName)
        ensures
            part.deep_view() == self.deep_view().name,
    {
        &self.name
    }

    /// The methods of the class, by name.
    pub fn methods(&self) -> (part: &NameMap<Method>)
        ensures
            part.deep_view() == self.deep_view().methods,
    {
        &self.methods
    }

    /// The fields of the class, by name.
    pub fn fields(&self) -> (part: &NameMap<Field>)
        ensures
            part.deep_view() == self.deep_view().fields,
    {
        &self.fields
    }
}

/// A `ClassDef` is written as its parts in the order of their declaration.
impl WriteToFile for ClassDef {
    #[verifier::opaque]
    open spec fn wire(v: ClassDefView, table: Table) -> Seq<u8> {
        <ClassDefParts as WriteToFile>::wire(v.parts(), table)
    }

    #[verifier::opaque]
    open spec fn table_after(v: ClassDefView, table: Table) -> Table {
        <ClassDefParts as WriteToFile>::table_after(v.parts(), table)
    }

    proof fn lemma_table_grows(v: ClassDefView, table: Table) {
        reveal(<ClassDef as WriteToFile>::table_after);
        <ClassDefParts as WriteToFile>::lemma_table_grows(v.parts(), table);
    }

    fn write_to_file(&self, file: &mut File) -> (done: Result<(), Error>) {
        proof {
            reveal(<ClassDef as WriteToFile>::wire);
            reveal(<ClassDef as WriteToFile>::table_after);
        }
        let parts = (
            &self.parent,
            (&self.type_vars, (&self.attr, (&self.name, (&self.methods, &self.fields)))),
        );
        parts.write_to_file(file)
    }
}

impl ReadFromFile for ClassDef {
    #[verifier::opaque]
    open spec fn parse(table: Table, bytes: Seq<u8>, at: int) -> Result<
        (ClassDefView, int),
        Error,
    > {
        match <ClassDefParts as ReadFromFile>::parse(table, bytes, at) {
            Ok(((parent, (type_vars, (attr, (name, (methods, fields))))), next)) => Ok(
                (ClassDefView { parent, type_vars, attr, name, methods, fields }, next),
            ),
            Err(e) => Err(e),
        }
    }

    fn read_from_file(file: &mut File) -> (value: Result<Self, Error>) {
        proof {
            reveal(<ClassDef as ReadFromFile>::parse);
        }
        match <ClassDefParts>::read_from_file(file) {
            Ok((parent, (type_vars, (attr, (name, (methods, fields)))))) => Ok(
                ClassDef { parent, type_vars, attr, name, methods, fields },
            ),
            Err(e) => Err(e),
        }
    }
}

impl Codec for ClassDef {
    #[verifier::opaque]
    open spec fn valid(v: ClassDefView) -> bool {
        <ClassDefParts as Codec>::valid(v.parts())
    }

    proof fn lemma_decode(
        v: ClassDefView,
        table: Table,
        final_table: Table,
        bytes: Seq<u8>,
        at: int,
    ) {
        reveal(<ClassDef as WriteToFile>::wire);
        reveal(<ClassDef as WriteToFile>::table_after);
        reveal(<ClassDef as ReadFromFile>::parse);
        reveal(<ClassDef as Codec>::valid);
        <ClassDefParts as Codec>::lemma_decode(v.parts(), table, final_table, bytes, at);
    }
}

} // verus!
