//! Implementations of interfaces.

use crate::error::Error;
use crate::file::File;
use crate::interner::Table;
use crate::map::NameMap;
use crate::names::StringTypeReference;
use crate::traits::{Codec, ReadFromFile, WriteToFile};
use crate::ty::method::{Method, MethodView};
use vstd::prelude::*;

verus! {

/// The methods with which a type implements an interface, or its own methods where it names none.
#[derive(Clone, Debug, PartialEq, Eq)]
pub struct Implementation {
    ty: StringTypeReference,
    interface: Option<StringTypeReference>,
    methods: NameMap<Method>,
}

/// What a [`Implementation`] holds.
pub struct ImplementationView {
    /// The type that implements.
    pub ty: Seq<char>,
    /// The interface that is implemented, where there is one.
    pub interface: Option<Seq<char>>,
    /// The implementing methods, by name.
    pub methods: Seq<(Seq<char>, MethodView)>,
}

/// The parts of a [`Implementation`] in the order in which they are written.
pub type ImplementationParts = (
    StringTypeReference,
    (Option<StringTypeReference>, NameMap<Method>),
);

impl ImplementationView {
    /// The parts in the order in which they are written.
    pub open spec fn parts(self) -> <ImplementationParts as DeepView>::V {
        (self.ty, (self.interface, self.methods))
    }
}

impl DeepView for Implementation {
    type V = ImplementationView;

    closed spec fn deep_view(&self) -> ImplementationView {
        ImplementationView {
            ty: self.ty.deep_view(),
            interface: self.interface.deep_view(),
            methods: self.methods.deep_view(),
        }
    }
}

impl Implementation {
    /// A value with the given parts.
    pub fn new(
        ty: StringTypeReference,
        interface: Option<StringTypeReference>,
        methods: NameMap<Method>,
    ) -> (made: Self)
        ensures
            made.deep_view() == (ImplementationView {
                ty: ty.deep_view(),
                interface: interface.deep_view(),
                methods: methods.deep_view(),
            }),
    {
        Implementation { ty, interface, methods }
    }

    /// The type that implements.
    pub fn ty(&self) -> (part: &StringTypeReference)
        ensures
            part.deep_view() == self.deep_view().ty,
    {
        &self.ty
    }

    /// The interface that is implemented, where there is one.
    pub fn interface(&self) -> (part: &Option<StringTypeReference>)
        ensures
            part.deep_view() == self.deep_view().interface,
    {
        &self.interface
    }

    /// The implementing methods, by name.
    pub fn methods(&self) -> (part: &NameMap<Method>)
        ensures
            part.deep_view() == self.deep_view().methods,
    {
        &self.methods
    }
}

/// A `Implementation` is written as its parts in the order of their declaration.
impl WriteToFile for Implementation {
    #[verifier::opaque]
    open spec fn wire(v: ImplementationView, table: Table) -> Seq<u8> {
        <ImplementationParts as WriteToFile>::wire(v.parts(), table)
    }

    #[verifier::opaque]
    open spec fn table_after(v: ImplementationView, table: Table) -> Table {
        <ImplementationParts as WriteToFile>::table_after(v.parts(), table)
    }

    proof fn lemma_table_grows(v: ImplementationView, table: Table) {
        reveal(<Implementation as WriteToFile>::table_after);
        <ImplementationParts as WriteToFile>::lemma_table_grows(v.parts(), table);
    }

    fn write_to_file(&self, file: &mut File) -> (done: Result<(), Error>) {
        proof {
            reveal(<Implementation as WriteToFile>::wire);
            reveal(<Implementation as WriteToFile>::table_after);
        }
        (&self.ty, (&self.interface, &self.methods)).write_to_file(file)
    }
}

impl ReadFromFile for Implementation {
    #[verifier::opaque]
    open spec fn parse(table: Table, bytes: Seq<u8>, at: int) -> Result<
        (ImplementationView, int),
        Error,
    > {
        match <ImplementationParts as ReadFromFile>::parse(table, bytes, at) {
            Ok(((ty, (interface, methods)), next)) => Ok(
                (ImplementationView { ty, interface, methods }, next),
            ),
            Err(e) => Err(e),
        }
    }

    fn read_from_file(file: &mut File) -> (value: Result<Self, Error>) {
        proof {
            reveal(<Implementation as ReadFromFile>::parse);
        }
        match <ImplementationParts>::read_from_file(file) {
            Ok((ty, (interface, methods))) => Ok(Implementation { ty, interface, methods }),
            Err(e) => Err(e),
        }
    }
}

impl Codec for Implementation {
    #[verifier::opaque]
    open spec fn valid(v: ImplementationView) -> bool {
        <ImplementationParts as Codec>::valid(v.parts())
    }

    proof fn lemma_decode(
        v: ImplementationView,
        table: Table,
        final_table: Table,
        bytes: Seq<u8>,
        at: int,
    ) {
        reveal(<Implementation as WriteToFile>::wire);
        reveal(<Implementation as WriteToFile>::table_after);
        reveal(<Implementation as ReadFromFile>::parse);
        reveal(<Implementation as Codec>::valid);
        <ImplementationParts as Codec>::lemma_decode(v.parts(), table, final_table, bytes, at);
    }
}

} // verus!
