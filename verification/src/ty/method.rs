//! Methods of types.

use crate::attrs::{MethodAttr, MethodAttrView};
use crate::error::Error;
use crate::file::File;
use crate::instruction::{StringInstruction, StringInstructionView};
use crate::interner::Table;
use crate::map::NameMap;
use crate::names::{StringName, StringTypeReference};
use crate::traits::{Codec, ReadFromFile, WriteToFile};
use crate::ty::{GenericBinding, GenericBindingView};
use vstd::prelude::*;

verus! {

/// A method of a type.
#[derive(Clone, Debug, PartialEq, Eq)]
pub struct Method {
    name: StringName,
    attr: MethodAttr,
    instructions: Vec<StringInstruction>,
    ret_type: StringTypeReference,
    args: Vec<StringTypeReference>,
    type_vars: NameMap<GenericBinding>,
}

/// What a [`Method`] holds.
pub struct MethodView {
    /// The name of the method.
    pub name: Seq<char>,
    /// The attributes of the method.
    pub attr: MethodAttrView,
    /// The instructions of the method, in the order in which they run.
    pub instructions: Seq<StringInstructionView>,
    /// The type of what the method returns.
    pub ret_type: Seq<char>,
    /// The types of the arguments, in their order.
    pub args: Seq<Seq<char>>,
    /// The generic parameters of the method, by name.
    pub type_vars: Seq<(Seq<char>, GenericBindingView)>,
}

/// The parts of a [`Method`] in the order in which they are written.
pub type MethodParts = (
    StringName,
    (
        MethodAttr,
        (
            Vec<StringInstruction>,
            (StringTypeReference, (Vec<StringTypeReference>, NameMap<GenericBinding>)),
        ),
    ),
);

impl MethodView {
    /// The parts in the order in which they are written.
    pub open spec fn parts(self) -> <MethodParts as DeepView>::V {
        (self.name, (self.attr, (self.instructions, (self.ret_type, (self.args, self.type_vars)))))
    }
}

impl DeepView for Method {
    type V = MethodView;

    closed spec fn deep_view(&self) -> MethodView {
        MethodView {
            name: self.name.deep_view(),
            attr: self.attr.deep_view(),
            instructions: self.instructions.deep_view(),
            ret_type: self.ret_type.deep_view(),
            args: self.args.deep_view(),
            type_vars: self.type_vars.deep_view(),
        }
    }
}

impl Method {
    /// A value with the given parts.
    pub fn new(
        name: StringName,
        attr: MethodAttr,
        instructions: Vec<StringInstruction>,
        ret_type: StringTypeReference,
        args: Vec<StringTypeReference>,
        type_vars: NameMap<GenericBinding>,
    ) -> (made: Self)
        ensures
            made.deep_view() == (MethodView {
                name: name.deep_view(),
                attr: attr.deep_view(),
                instructions: instructions.deep_view(),
                ret_type: ret_type.deep_view(),
                args: args.deep_view(),
                type_vars: type_vars.deep_view(),
            }),
    {
        Method { name, attr, instructions, ret_type, args, type_vars }
    }

    /// The name of the method.
    pub fn name(&self) -> (part: &StringName)
        ensures
            part.deep_view() == self.deep_view().name,
    {
        &self.name
    }

    /// The attributes of the method.
    pub fn attr(&self) -> (part: MethodAttr)
        ensures
            part.deep_view() == self.deep_view().attr,
    {
        self.attr
    }

    /// The instructions of the method, in the order in which they run.
    pub fn instructions(&self) -> (part: &Vec<StringInstruction>)
        ensures
            part.deep_view() == self.deep_view().instructions,
    {
        &self.instructions
    }

    /// The type of what the method returns.
    pub fn ret_type(&self) -> (part: &StringTypeReference)
        ensures
            part.deep_view() == self.deep_view().ret_type,
    {
        &self.ret_type
    }

    /// The types of the arguments, in their order.
    pub fn args(&self) -> (part: &Vec<StringTypeReference>)
        ensures
            part.deep_view() == self.deep_view().args,
    {
        &self.args
    }

    /// The generic parameters of the method, by name.
    pub fn type_vars(&self) -> (part: &NameMap<GenericBinding>)
        ensures
            part.deep_view() == self.deep_view().type_vars,
    {
        &self.type_vars
    }
}

/// A `Method` is written as its parts in the order of their declaration.
impl WriteToFile for Method {
    #[verifier::opaque]
    open spec fn wire(v: MethodView, table: Table) -> Seq<u8> {
        <MethodParts as WriteToFile>::wire(v.parts(), table)
    }

    #[verifier::opaque]
    open spec fn table_after(v: MethodView, table: Table) -> Table {
        <MethodParts as WriteToFile>::table_after(v.parts(), table)
    }

    proof fn lemma_table_grows(v: MethodView, table: Table) {
        reveal(<Method as WriteToFile>::table_after);
        <MethodParts as WriteToFile>::lemma_table_grows(v.parts(), table);
    }

    fn write_to_file(&self, file: &mut File) -> (done: Result<(), Error>) {
        proof {
            reveal(<Method as WriteToFile>::wire);
            reveal(<Method as WriteToFile>::table_after);
        }
        let parts = (
            &self.name,
            (&self.attr, (&self.instructions, (&self.ret_type, (&self.args, &self.type_vars)))),
        );
        parts.write_to_file(file)
    }
}

impl ReadFromFile for Method {
    #[verifier::opaque]
    open spec fn parse(table: Table, bytes: Seq<u8>, at: int) -> Result<(MethodView, int), Error> {
        match <MethodParts as ReadFromFile>::parse(table, bytes, at) {
            Ok(((name, (attr, (instructions, (ret_type, (args, type_vars))))), next)) => Ok(
                (MethodView { name, attr, instructions, ret_type, args, type_vars }, next),
            ),
            Err(e) => Err(e),
        }
    }

    fn read_from_file(file: &mut File) -> (value: Result<Self, Error>) {
        proof {
            reveal(<Method as ReadFromFile>::parse);
        }
        match <MethodParts>::read_from_file(file) {
            Ok((name, (attr, (instructions, (ret_type, (args, type_vars)))))) => Ok(
                Method { name, attr, instructions, ret_type, args, type_vars },
            ),
            Err(e) => Err(e),
        }
    }
}

impl Codec for Method {
    #[verifier::opaque]
    open spec fn valid(v: MethodView) -> bool {
        <MethodParts as Codec>::valid(v.parts())
    }

    proof fn lemma_decode(
        v: MethodView,
        table: Table,
        final_table: Table,
        bytes: Seq<u8>,
        at: int,
    ) {
        reveal(<Method as WriteToFile>::wire);
        reveal(<Method as WriteToFile>::table_after);
        reveal(<Method as ReadFromFile>::parse);
        reveal(<Method as Codec>::valid);
        <MethodParts as Codec>::lemma_decode(v.parts(), table, final_table, bytes, at);
    }
}

} // verus!
