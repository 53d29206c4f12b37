//! A compiled module and its reading from and writing to bytes.

use crate::bytes::lemma_le_bytes_len;
use crate::error::Error;
use crate::file::File;
use crate::interner::{position_in, Table};
use crate::map::NameMap;
use crate::names::StringName;
use crate::traits::{
    decode, encode, file_bytes_of, fresh_table, lemma_round_trip, lemma_truncated, storable,
    value_of_file_bytes, Codec, ReadFromFile, WriteToFile,
};
use crate::ty::{TypeDef, TypeDefView};
use vstd::prelude::*;

verus! {

/// A compiled module: a name and the types that the module defines, by name.
#[derive(Clone, Debug, PartialEq, Eq)]
pub struct Assembly {
    name: StringName,
    type_defs: NameMap<TypeDef>,
}

/// What a [`Assembly`] holds.
pub struct AssemblyView {
    /// The name of the module.
    pub name: Seq<char>,
    /// The types of the module, by name.
    pub type_defs: Seq<(Seq<char>, TypeDefView)>,
}

/// The parts of a [`Assembly`] in the order in which they are written.
pub type AssemblyParts = (StringName, NameMap<TypeDef>);

impl AssemblyView {
    /// The parts in the order in which they are written.
    pub open spec fn parts(self) -> <AssemblyParts as DeepView>::V {
        (self.name, self.type_defs)
    }
}

impl DeepView for Assembly {
    type V = AssemblyView;

    closed spec fn deep_view(&self) -> AssemblyView {
        AssemblyView {
            name: self.name.deep_view(),
            type_defs: self.type_defs.deep_view(),
        }
    }
}

impl Assembly {
    /// A value with the given parts.
    pub fn new(name: StringName, type_defs: NameMap<TypeDef>) -> (made: Self)
        ensures
            made.deep_view() == (AssemblyView {
                name: name.deep_view(),
                type_defs: type_defs.deep_view(),
            }),
    {
        Assembly { name, type_defs }
    }

    /// The name of the module.
    pub fn name(&self) -> (part: &StringName)
        ensures
            part.deep_view() == self.deep_view().name,
    {
        &self.name
    }

    /// The types of the module, by name.
    pub fn type_defs(&self) -> (part: &NameMap<TypeDef>)
        ensures
            part.deep_view() == self.deep_view().type_defs,
    {
        &self.type_defs
    }
}

/// A `Assembly` is written as its parts in the order of their declaration.
impl WriteToFile for Assembly {
    #[verifier::opaque]
    open spec fn wire(v: AssemblyView, table: Table) -> Seq<u8> {
        <AssemblyParts as WriteToFile>::wire(v.parts(), table)
    }

    #[verifier::opaque]
    open spec fn table_after(v: AssemblyView, table: Table) -> Table {
        <AssemblyParts as WriteToFile>::table_after(v.parts(), table)
    }

    proof fn lemma_table_grows(v: AssemblyView, table: Table) {
        reveal(<Assembly as WriteToFile>::table_after);
        <AssemblyParts as WriteToFile>::lemma_table_grows(v.parts(), table);
    }

    fn write_to_file(&self, file: &mut File) -> (done: Result<(), Error>) {
        proof {
            reveal(<Assembly as WriteToFile>::wire);
            reveal(<Assembly as WriteToFile>::table_after);
        }
        (&self.name, &self.type_defs).write_to_file(file)
    }
}

impl ReadFromFile for Assembly {
    #[verifier::opaque]
    open spec fn parse(table: Table, bytes: Seq<u8>, at: int) -> Result<
        (AssemblyView, int),
        Error,
    > {
        match <AssemblyParts as ReadFromFile>::parse(table, bytes, at) {
            Ok(((name, type_defs), next)) => Ok((AssemblyView { name, type_defs }, next)),
            Err(e) => Err(e),
        }
    }

    fn read_from_file(file: &mut File) -> (value: Result<Self, Error>) {
        proof {
            reveal(<Assembly as ReadFromFile>::parse);
        }
        match <AssemblyParts>::read_from_file(file) {
            Ok((name, type_defs)) => Ok(Assembly { name, type_defs }),
            Err(e) => Err(e),
        }
    }
}

impl Codec for Assembly {
    #[verifier::opaque]
    open spec fn valid(v: AssemblyView) -> bool {
        <AssemblyParts as Codec>::valid(v.parts())
    }

    proof fn lemma_decode(
        v: AssemblyView,
        table: Table,
        final_table: Table,
        bytes: Seq<u8>,
        at: int,
    ) {
        reveal(<Assembly as WriteToFile>::wire);
        reveal(<Assembly as WriteToFile>::table_after);
        reveal(<Assembly as ReadFromFile>::parse);
        reveal(<Assembly as Codec>::valid);
        <AssemblyParts as Codec>::lemma_decode(v.parts(), table, final_table, bytes, at);
    }
}

/// The identification that may stand in front of a file.
#[derive(Clone, Copy, Debug, PartialEq, Eq)]
pub struct Header {
    magic: [u8; 2],
}

/// What a [`Header`] holds.
pub struct HeaderView {
    /// The two identifying bytes.
    pub magic: Seq<u8>,
}

/// The parts of a [`Header`] in the order in which they are written.
pub type HeaderParts = [u8; 2];

impl HeaderView {
    /// The parts in the order in which they are written.
    pub open spec fn parts(self) -> <HeaderParts as DeepView>::V {
        self.magic
    }
}

impl DeepView for Header {
    type V = HeaderView;

    closed spec fn deep_view(&self) -> HeaderView {
        HeaderView {
            magic: self.magic.deep_view(),
        }
    }
}

impl Header {
    /// A value with the given parts.
    pub fn new(magic: [u8; 2]) -> (made: Self)
        ensures
            made.deep_view() == (HeaderView {
                magic: magic.deep_view(),
            }),
    {
        Header { magic }
    }

    /// The two identifying bytes.
    pub fn magic(&self) -> (part: [u8; 2])
        ensures
            part.deep_view() == self.deep_view().magic,
    {
        self.magic
    }
}

/// A `Header` is written as its parts in the order of their declaration.
impl WriteToFile for Header {
    #[verifier::opaque]
    open spec fn wire(v: HeaderView, table: Table) -> Seq<u8> {
        <HeaderParts as WriteToFile>::wire(v.parts(), table)
    }

    #[verifier::opaque]
    open spec fn table_after(v: HeaderView, table: Table) -> Table {
        <HeaderParts as WriteToFile>::table_after(v.parts(), table)
    }

    proof fn lemma_table_grows(v: HeaderView, table: Table) {
        reveal(<Header as WriteToFile>::table_after);
        <HeaderParts as WriteToFile>::lemma_table_grows(v.parts(), table);
    }

    fn write_to_file(&self, file: &mut File) -> (done: Result<(), Error>) {
        proof {
            reveal(<Header as WriteToFile>::wire);
            reveal(<Header as WriteToFile>::table_after);
        }
        self.magic.write_to_file(file)
    }
}

impl ReadFromFile for Header {
    #[verifier::opaque]
    open spec fn parse(table: Table, bytes: Seq<u8>, at: int) -> Result<(HeaderView, int), Error> {
        match <HeaderParts as ReadFromFile>::parse(table, bytes, at) {
            Ok((magic, next)) => Ok((HeaderView { magic }, next)),
            Err(e) => Err(e),
        }
    }

    fn read_from_file(file: &mut File) -> (value: Result<Self, Error>) {
        proof {
            reveal(<Header as ReadFromFile>::parse);
        }
        match <HeaderParts>::read_from_file(file) {
            Ok(magic) => Ok(Header { magic }),
            Err(e) => Err(e),
        }
    }
}

impl Codec for Header {
    #[verifier::opaque]
    open spec fn valid(v: HeaderView) -> bool {
        <HeaderParts as Codec>::valid(v.parts())
    }

    proof fn lemma_decode(
        v: HeaderView,
        table: Table,
        final_table: Table,
        bytes: Seq<u8>,
        at: int,
    ) {
        reveal(<Header as WriteToFile>::wire);
        reveal(<Header as WriteToFile>::table_after);
        reveal(<Header as ReadFromFile>::parse);
        reveal(<Header as Codec>::valid);
        <HeaderParts as Codec>::lemma_decode(v.parts(), table, final_table, bytes, at);
    }
}

impl Default for Assembly {
    /// The module without a name and without types.
    fn default() -> (made: Self)
        ensures
            made.deep_view() == (AssemblyView {
                name: Seq::<char>::empty(),
                type_defs: Seq::<(Seq<char>, TypeDefView)>::empty(),
            }),
    {
        Assembly { name: String::new(), type_defs: NameMap::new() }
    }
}

impl Assembly {
    /// The name of the module, to be changed in place.
    pub fn name_mut(&mut self) -> (name: &mut StringName)
        ensures
            name.deep_view() == old(self).deep_view().name,
            final(self).deep_view() == (AssemblyView {
                name: final(name).deep_view(),
                type_defs: old(self).deep_view().type_defs,
            }),
    {
        &mut self.name
    }

    /// The types of the module, to be changed in place.
    pub fn type_defs_mut(&mut self) -> (type_defs: &mut NameMap<TypeDef>)
        ensures
            type_defs.deep_view() == old(self).deep_view().type_defs,
            final(self).deep_view() == (AssemblyView {
                name: old(self).deep_view().name,
                type_defs: final(type_defs).deep_view(),
            }),
    {
        &mut self.type_defs
    }

    /// The module that stands at the start of the payload of the file that
    /// `bytes` hold. What follows the module in the payload is not looked at.
    pub fn from_bytes(bytes: &[u8]) -> (module: Result<Self, Error>)
        ensures
            match value_of_file_bytes::<Assembly>(bytes@) {
                Ok(v) => module is Ok && module->Ok_0.deep_view() == v,
                Err(e) => module is Err && module->Err_0 == e,
            },
    {
        decode::<Assembly>(bytes)
    }

    /// The bytes of the file that holds the module and nothing else.
    pub fn to_file_bytes(&self) -> (bytes: Result<Vec<u8>, Error>)
        ensures
            bytes is Ok,
            bytes->Ok_0@ == file_bytes_of::<Assembly>(self.deep_view()),
    {
        encode(self)
    }
}

/// Reading back the bytes that a module was written as gives the module:
/// the same name, and the same types under the same names in the same order.
pub proof fn lemma_assembly_round_trip(v: AssemblyView)
    requires
        storable::<Assembly>(v),
    ensures
        value_of_file_bytes::<Assembly>(file_bytes_of::<Assembly>(v)) == Ok::<AssemblyView, Error>(
            v,
        ),
{
    lemma_round_trip::<Assembly>(v);
}

/// Where the last byte of a module's file is taken away, reading the file
/// reports a short read: it never gives a module.
pub proof fn lemma_assembly_truncated(v: AssemblyView)
    requires
        storable::<Assembly>(v),
    ensures
        value_of_file_bytes::<Assembly>(file_bytes_of::<Assembly>(v).drop_last()) == Err::<
            AssemblyView,
            Error,
        >(Error::ShortRead),
{
    let wire = <Assembly as WriteToFile>::wire(v, fresh_table());
    assert(wire.len() >= 8) by {
        reveal(<Assembly as WriteToFile>::wire);
        lemma_le_bytes_len(position_in(fresh_table(), v.name) as nat, 8);
    }
    lemma_truncated::<Assembly>(v, (wire.len() - 1) as nat);
}

/// The two bytes that open a file of this format: the letters `PL`.
pub const MAGIC: [u8; 2] = [0x50, 0x4c];

impl Header {
    /// The header of this format.
    pub fn current() -> (header: Self)
        ensures
            header.deep_view().magic == seq![0x50u8, 0x4cu8],
    {
        let header = Header { magic: MAGIC };
        assert(header.magic.deep_view() =~= seq![0x50u8, 0x4cu8]);
        header
    }

    /// Whether the header is the one of this format.
    pub fn check(&self) -> (checked: Result<(), Error>)
        ensures
            self.deep_view().magic == seq![0x50u8, 0x4cu8] ==> checked is Ok,
            self.deep_view().magic != seq![0x50u8, 0x4cu8] ==> checked == Err::<(), Error>(
                Error::WrongFileFormat,
            ),
    {
        if self.magic[0] == 0x50 && self.magic[1] == 0x4c {
            assert(self.magic.deep_view() =~= seq![0x50u8, 0x4cu8]);
            Ok(())
        } else {
            assert(self.magic.deep_view()[0] == self.magic[0]);
            assert(self.magic.deep_view()[1] == self.magic[1]);
            Err(Error::WrongFileFormat)
        }
    }
}

} // verus!
