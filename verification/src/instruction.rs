//! The instructions of a method.

use crate::bytes::{le_bytes, lemma_agrees_split, lemma_le_value_bound, lemma_pow256_values};
use crate::error::Error;
use crate::file::{lemma_after_write_twice, File};
use crate::interner::Table;
use crate::names::{StringMethodReference, StringName, StringTypeReference};
use crate::traits::{
    lemma_decode_fixed, parse_fixed, read_fixed, write_fixed, Codec, ReadFromFile, WriteToFile,
};
use vstd::prelude::*;

verus! {

/// The kinds of instruction, one for each operation.
#[derive(Clone, Copy, Debug, PartialEq, Eq)]
#[allow(non_camel_case_types)]
pub enum StringInstructionType {
    /// Puts `true` into a register.
    LoadTrue,
    /// Puts `false` into a register.
    LoadFalse,
    /// Puts a number of eight bits into a register.
    Load_u8,
    /// Puts the number 0 into a register.
    Load_u8_0,
    /// Puts the number 1 into a register.
    Load_u8_1,
    /// Puts the number 2 into a register.
    Load_u8_2,
    /// Puts the number 3 into a register.
    Load_u8_3,
    /// Puts the number 4 into a register.
    Load_u8_4,
    /// Puts the number 5 into a register.
    Load_u8_5,
    /// Puts a number of sixty-four bits into a register.
    Load_u64,
    /// Makes an object with a constructor and puts it into a register.
    NewObject,
    /// Calls a method of the object in a register.
    InstanceCall,
    /// Calls a static method of a type.
    StaticCall,
    /// Puts an argument of the method into a register.
    LoadArg,
    /// Puts all arguments of the method, as an array, into a register.
    LoadAllArgsAsArray,
    /// Puts a static field of a type into a register.
    LoadStatic,
    /// Returns the value in a register.
    ReturnVal,
    /// Sets a field from a register.
    SetField,
}

impl DeepView for StringInstructionType {
    type V = StringInstructionType;

    open spec fn deep_view(&self) -> StringInstructionType {
        *self
    }
}

impl StringInstructionType {
    /// The number that stands for the variant: its place in the declaration, from 0.
    pub open spec fn discriminant(self) -> nat {
        match self {
            StringInstructionType::LoadTrue => 0,
            StringInstructionType::LoadFalse => 1,
            StringInstructionType::Load_u8 => 2,
            StringInstructionType::Load_u8_0 => 3,
            StringInstructionType::Load_u8_1 => 4,
            StringInstructionType::Load_u8_2 => 5,
            StringInstructionType::Load_u8_3 => 6,
            StringInstructionType::Load_u8_4 => 7,
            StringInstructionType::Load_u8_5 => 8,
            StringInstructionType::Load_u64 => 9,
            StringInstructionType::NewObject => 10,
            StringInstructionType::InstanceCall => 11,
            StringInstructionType::StaticCall => 12,
            StringInstructionType::LoadArg => 13,
            StringInstructionType::LoadAllArgsAsArray => 14,
            StringInstructionType::LoadStatic => 15,
            StringInstructionType::ReturnVal => 16,
            StringInstructionType::SetField => 17,
        }
    }

    /// The variant that `d` stands for, where it stands for one.
    pub open spec fn of_discriminant(d: nat) -> Option<StringInstructionType> {
        if d == 0 {
            Some(StringInstructionType::LoadTrue)
        } else if d == 1 {
            Some(StringInstructionType::LoadFalse)
        } else if d == 2 {
            Some(StringInstructionType::Load_u8)
        } else if d == 3 {
            Some(StringInstructionType::Load_u8_0)
        } else if d == 4 {
            Some(StringInstructionType::Load_u8_1)
        } else if d == 5 {
            Some(StringInstructionType::Load_u8_2)
        } else if d == 6 {
            Some(StringInstructionType::Load_u8_3)
        } else if d == 7 {
            Some(StringInstructionType::Load_u8_4)
        } else if d == 8 {
            Some(StringInstructionType::Load_u8_5)
        } else if d == 9 {
            Some(StringInstructionType::Load_u64)
        } else if d == 10 {
            Some(StringInstructionType::NewObject)
        } else if d == 11 {
            Some(StringInstructionType::InstanceCall)
        } else if d == 12 {
            Some(StringInstructionType::StaticCall)
        } else if d == 13 {
            Some(StringInstructionType::LoadArg)
        } else if d == 14 {
            Some(StringInstructionType::LoadAllArgsAsArray)
        } else if d == 15 {
            Some(StringInstructionType::LoadStatic)
        } else if d == 16 {
            Some(StringInstructionType::ReturnVal)
        } else if d == 17 {
            Some(StringInstructionType::SetField)
        } else {
            None
        }
    }

    /// The number that stands for the variant.
    pub fn to_primitive(self) -> (d: u64)
        ensures
            d == self.discriminant(),
            Self::of_discriminant(d as nat) == Some(self),
    {
        match self {
            StringInstructionType::LoadTrue => 0,
            StringInstructionType::LoadFalse => 1,
            StringInstructionType::Load_u8 => 2,
            StringInstructionType::Load_u8_0 => 3,
            StringInstructionType::Load_u8_1 => 4,
            StringInstructionType::Load_u8_2 => 5,
            StringInstructionType::Load_u8_3 => 6,
            StringInstructionType::Load_u8_4 => 7,
            StringInstructionType::Load_u8_5 => 8,
            StringInstructionType::Load_u64 => 9,
            StringInstructionType::NewObject => 10,
            StringInstructionType::InstanceCall => 11,
            StringInstructionType::StaticCall => 12,
            StringInstructionType::LoadArg => 13,
            StringInstructionType::LoadAllArgsAsArray => 14,
            StringInstructionType::LoadStatic => 15,
            StringInstructionType::ReturnVal => 16,
            StringInstructionType::SetField => 17,
        }
    }

    /// The variant that `d` stands for. Each of the 18 numbers from 0 on stands
    /// for one, and no other number does.
    pub fn try_from_primitive(d: u64) -> (found: Result<Self, Error>)
        ensures
            found is Ok <==> d < 18,
            match Self::of_discriminant(d as nat) {
                Some(v) => found == Ok::<Self, Error>(v) && v.discriminant() == d,
                None => found == Err::<Self, Error>(
                    Error::EnumOutOfBounds("StringInstructionType"),
                ),
            },
    {
        match d {
            0 => Ok(StringInstructionType::LoadTrue),
            1 => Ok(StringInstructionType::LoadFalse),
            2 => Ok(StringInstructionType::Load_u8),
            3 => Ok(StringInstructionType::Load_u8_0),
            4 => Ok(StringInstructionType::Load_u8_1),
            5 => Ok(StringInstructionType::Load_u8_2),
            6 => Ok(StringInstructionType::Load_u8_3),
            7 => Ok(StringInstructionType::Load_u8_4),
            8 => Ok(StringInstructionType::Load_u8_5),
            9 => Ok(StringInstructionType::Load_u64),
            10 => Ok(StringInstructionType::NewObject),
            11 => Ok(StringInstructionType::InstanceCall),
            12 => Ok(StringInstructionType::StaticCall),
            13 => Ok(StringInstructionType::LoadArg),
            14 => Ok(StringInstructionType::LoadAllArgsAsArray),
            15 => Ok(StringInstructionType::LoadStatic),
            16 => Ok(StringInstructionType::ReturnVal),
            17 => Ok(StringInstructionType::SetField),
            _ => Err(Error::EnumOutOfBounds("StringInstructionType")),
        }
    }
}

/// A `StringInstructionType` is written as its discriminant in 8 bytes.
impl WriteToFile for StringInstructionType {
    open spec fn wire(v: StringInstructionType, table: Table) -> Seq<u8> {
        le_bytes(v.discriminant(), 8)
    }

    open spec fn table_after(v: StringInstructionType, table: Table) -> Table {
        table
    }

    proof fn lemma_table_grows(v: StringInstructionType, table: Table) {
    }

    fn write_to_file(&self, file: &mut File) -> (done: Result<(), Error>) {
        write_fixed(file, self.to_primitive() as u128, 8);
        Ok(())
    }
}

impl ReadFromFile for StringInstructionType {
    open spec fn parse(table: Table, bytes: Seq<u8>, at: int) -> Result<
        (StringInstructionType, int),
        Error,
    > {
        match parse_fixed(bytes, at, 8) {
            Ok((n, next)) => match Self::of_discriminant(n) {
                Some(v) => Ok((v, next)),
                None => Err(Error::EnumOutOfBounds("StringInstructionType")),
            },
            Err(e) => Err(e),
        }
    }

    fn read_from_file(file: &mut File) -> (value: Result<Self, Error>) {
        let ghost start = file@.cursor as int;
        match read_fixed(file, 8) {
            Ok(raw) => {
                proof {
                    lemma_le_value_bound(file@.bytes.subrange(start, start + 8));
                    lemma_pow256_values();
                }
                Self::try_from_primitive(raw as u64)
            },
            Err(e) => Err(e),
        }
    }
}

impl Codec for StringInstructionType {
    open spec fn valid(v: StringInstructionType) -> bool {
        true
    }

    proof fn lemma_decode(
        v: StringInstructionType,
        table: Table,
        final_table: Table,
        bytes: Seq<u8>,
        at: int,
    ) {
        lemma_pow256_values();
        lemma_decode_fixed(v.discriminant(), 8, bytes, at);
    }
}

/// One instruction of a method: an operation with its operands. References to
/// types and methods are in their string form.
#[derive(Clone, Debug, PartialEq, Eq)]
#[allow(non_camel_case_types)]
#[allow(inconsistent_fields)]
pub enum StringInstruction {
    /// Puts `true` into a register.
    LoadTrue { register_addr: u8 },
    /// Puts `false` into a register.
    LoadFalse { register_addr: u8 },
    /// Puts a number of eight bits into a register.
    Load_u8 { register_addr: u8, val: u8 },
    /// Puts the number 0 into a register.
    Load_u8_0 { register_addr: u8 },
    /// Puts the number 1 into a register.
    Load_u8_1 { register_addr: u8 },
    /// Puts the number 2 into a register.
    Load_u8_2 { register_addr: u8 },
    /// Puts the number 3 into a register.
    Load_u8_3 { register_addr: u8 },
    /// Puts the number 4 into a register.
    Load_u8_4 { register_addr: u8 },
    /// Puts the number 5 into a register.
    Load_u8_5 { register_addr: u8 },
    /// Puts a number of sixty-four bits into a register.
    Load_u64 { register_addr: u8, val: u64 },
    /// Makes an object with a constructor and puts it into a register.
    NewObject {
        ty: StringTypeReference,
        ctor_name: StringMethodReference,
        args: Vec<u8>,
        register_addr: u8,
    },
    /// Calls a method of the object in a register.
    InstanceCall { val: u8, method: StringMethodReference, args: Vec<u8>, ret_at: u8 },
    /// Calls a static method of a type.
    StaticCall {
        ty: StringTypeReference,
        method: StringMethodReference,
        args: Vec<u8>,
        ret_at: u8,
    },
    /// Puts an argument of the method into a register.
    LoadArg { register_addr: u8, arg: u64 },
    /// Puts all arguments of the method, as an array, into a register.
    LoadAllArgsAsArray { register_addr: u8 },
    /// Puts a static field of a type into a register.
    LoadStatic { register_addr: u8, ty: StringTypeReference, name: StringName },
    /// Returns the value in a register.
    ReturnVal { register_addr: u8 },
    /// Sets a field from a register.
    SetField { register_addr: u8, field: StringName },
}

/// What a [`StringInstruction`] holds.
#[allow(non_camel_case_types)]
#[allow(inconsistent_fields)]
pub enum StringInstructionView {
    LoadTrue { register_addr: u8 },
    LoadFalse { register_addr: u8 },
    Load_u8 { register_addr: u8, val: u8 },
    Load_u8_0 { register_addr: u8 },
    Load_u8_1 { register_addr: u8 },
    Load_u8_2 { register_addr: u8 },
    Load_u8_3 { register_addr: u8 },
    Load_u8_4 { register_addr: u8 },
    Load_u8_5 { register_addr: u8 },
    Load_u64 { register_addr: u8, val: u64 },
    NewObject { ty: Seq<char>, ctor_name: Seq<char>, args: Seq<u8>, register_addr: u8 },
    InstanceCall { val: u8, method: Seq<char>, args: Seq<u8>, ret_at: u8 },
    StaticCall { ty: Seq<char>, method: Seq<char>, args: Seq<u8>, ret_at: u8 },
    LoadArg { register_addr: u8, arg: u64 },
    LoadAllArgsAsArray { register_addr: u8 },
    LoadStatic { register_addr: u8, ty: Seq<char>, name: Seq<char> },
    ReturnVal { register_addr: u8 },
    SetField { register_addr: u8, field: Seq<char> },
}

impl DeepView for StringInstruction {
    type V = StringInstructionView;

    open spec fn deep_view(&self) -> StringInstructionView {
        match self {
            StringInstruction::LoadTrue { register_addr } => {
                StringInstructionView::LoadTrue {
                    register_addr: register_addr.deep_view(),
                }
            },
            StringInstruction::LoadFalse { register_addr } => {
                StringInstructionView::LoadFalse {
                    register_addr: register_addr.deep_view(),
                }
            },
            StringInstruction::Load_u8 { register_addr, val } => {
                StringInstructionView::Load_u8 {
                    register_addr: register_addr.deep_view(),
                    val: val.deep_view(),
                }
            },
            StringInstruction::Load_u8_0 { register_addr } => {
                StringInstructionView::Load_u8_0 {
                    register_addr: register_addr.deep_view(),
                }
            },
            StringInstruction::Load_u8_1 { register_addr } => {
                StringInstructionView::Load_u8_1 {
                    register_addr: register_addr.deep_view(),
                }
            },
            StringInstruction::Load_u8_2 { register_addr } => {
                StringInstructionView::Load_u8_2 {
                    register_addr: register_addr.deep_view(),
                }
            },
            StringInstruction::Load_u8_3 { register_addr } => {
                StringInstructionView::Load_u8_3 {
                    register_addr: register_addr.deep_view(),
                }
            },
            StringInstruction::Load_u8_4 { register_addr } => {
                StringInstructionView::Load_u8_4 {
                    register_addr: register_addr.deep_view(),
                }
            },
            StringInstruction::Load_u8_5 { register_addr } => {
                StringInstructionView::Load_u8_5 {
                    register_addr: register_addr.deep_view(),
                }
            },
            StringInstruction::Load_u64 { register_addr, val } => {
                StringInstructionView::Load_u64 {
                    register_addr: register_addr.deep_view(),
                    val: val.deep_view(),
                }
            },
            StringInstruction::NewObject { ty, ctor_name, args, register_addr } => {
                StringInstructionView::NewObject {
                    ty: ty.deep_view(),
                    ctor_name: ctor_name.deep_view(),
                    args: args.deep_view(),
                    register_addr: register_addr.deep_view(),
                }
            },
            StringInstruction::InstanceCall { val, method, args, ret_at } => {
                StringInstructionView::InstanceCall {
                    val: val.deep_view(),
                    method: method.deep_view(),
                    args: args.deep_view(),
                    ret_at: ret_at.deep_view(),
                }
            },
            StringInstruction::StaticCall { ty, method, args, ret_at } => {
                StringInstructionView::StaticCall {
                    ty: ty.deep_view(),
                    method: method.deep_view(),
                    args: args.deep_view(),
                    ret_at: ret_at.deep_view(),
                }
            },
            StringInstruction::LoadArg { register_addr, arg } => {
                StringInstructionView::LoadArg {
                    register_addr: register_addr.deep_view(),
                    arg: arg.deep_view(),
                }
            },
            StringInstruction::LoadAllArgsAsArray { register_addr } => {
                StringInstructionView::LoadAllArgsAsArray {
                    register_addr: register_addr.deep_view(),
                }
            },
            StringInstruction::LoadStatic { register_addr, ty, name } => {
                StringInstructionView::LoadStatic {
                    register_addr: register_addr.deep_view(),
                    ty: ty.deep_view(),
                    name: name.deep_view(),
                }
            },
            StringInstruction::ReturnVal { register_addr } => {
                StringInstructionView::ReturnVal {
                    register_addr: register_addr.deep_view(),
                }
            },
            StringInstruction::SetField { register_addr, field } => {
                StringInstructionView::SetField {
                    register_addr: register_addr.deep_view(),
                    field: field.deep_view(),
                }
            },
        }
    }
}

impl StringInstructionView {
    /// Which variant the value is.
    pub open spec fn kind(self) -> StringInstructionType {
        match self {
            StringInstructionView::LoadTrue { .. } => StringInstructionType::LoadTrue,
            StringInstructionView::LoadFalse { .. } => StringInstructionType::LoadFalse,
            StringInstructionView::Load_u8 { .. } => StringInstructionType::Load_u8,
            StringInstructionView::Load_u8_0 { .. } => StringInstructionType::Load_u8_0,
            StringInstructionView::Load_u8_1 { .. } => StringInstructionType::Load_u8_1,
            StringInstructionView::Load_u8_2 { .. } => StringInstructionType::Load_u8_2,
            StringInstructionView::Load_u8_3 { .. } => StringInstructionType::Load_u8_3,
            StringInstructionView::Load_u8_4 { .. } => StringInstructionType::Load_u8_4,
            StringInstructionView::Load_u8_5 { .. } => StringInstructionType::Load_u8_5,
            StringInstructionView::Load_u64 { .. } => StringInstructionType::Load_u64,
            StringInstructionView::NewObject { .. } => StringInstructionType::NewObject,
            StringInstructionView::InstanceCall { .. } => StringInstructionType::InstanceCall,
            StringInstructionView::StaticCall { .. } => StringInstructionType::StaticCall,
            StringInstructionView::LoadArg { .. } => StringInstructionType::LoadArg,
            StringInstructionView::LoadAllArgsAsArray { .. } => {
                StringInstructionType::LoadAllArgsAsArray
            },
            StringInstructionView::LoadStatic { .. } => StringInstructionType::LoadStatic,
            StringInstructionView::ReturnVal { .. } => StringInstructionType::ReturnVal,
            StringInstructionView::SetField { .. } => StringInstructionType::SetField,
        }
    }

    /// The bytes that the parts of the variant are written as.
    pub open spec fn parts_wire(self, table: Table) -> Seq<u8> {
        match self {
            StringInstructionView::LoadTrue { register_addr } => {
                <u8 as WriteToFile>::wire(register_addr, table)
            },
            StringInstructionView::LoadFalse { register_addr } => {
                <u8 as WriteToFile>::wire(register_addr, table)
            },
            StringInstructionView::Load_u8 { register_addr, val } => {
                <(u8, u8) as WriteToFile>::wire((register_addr, val), table)
            },
            StringInstructionView::Load_u8_0 { register_addr } => {
                <u8 as WriteToFile>::wire(register_addr, table)
            },
            StringInstructionView::Load_u8_1 { register_addr } => {
                <u8 as WriteToFile>::wire(register_addr, table)
            },
            StringInstructionView::Load_u8_2 { register_addr } => {
                <u8 as WriteToFile>::wire(register_addr, table)
            },
            StringInstructionView::Load_u8_3 { register_addr } => {
                <u8 as WriteToFile>::wire(register_addr, table)
            },
            StringInstructionView::Load_u8_4 { register_addr } => {
                <u8 as WriteToFile>::wire(register_addr, table)
            },
            StringInstructionView::Load_u8_5 { register_addr } => {
                <u8 as WriteToFile>::wire(register_addr, table)
            },
            StringInstructionView::Load_u64 { register_addr, val } => {
                <(u8, u64) as WriteToFile>::wire((register_addr, val), table)
            },
            StringInstructionView::NewObject { ty, ctor_name, args, register_addr } => {
                <(
                    StringTypeReference,
                    (StringMethodReference, (Vec<u8>, u8)),
                ) as WriteToFile>::wire(
                    (ty, (ctor_name, (args, register_addr))),
                    table,
                )
            },
            StringInstructionView::InstanceCall { val, method, args, ret_at } => {
                <(u8, (StringMethodReference, (Vec<u8>, u8))) as WriteToFile>::wire(
                    (val, (method, (args, ret_at))),
                    table,
                )
            },
            StringInstructionView::StaticCall { ty, method, args, ret_at } => {
                <(
                    StringTypeReference,
                    (StringMethodReference, (Vec<u8>, u8)),
                ) as WriteToFile>::wire(
                    (ty, (method, (args, ret_at))),
                    table,
                )
            },
            StringInstructionView::LoadArg { register_addr, arg } => {
                <(u8, u64) as WriteToFile>::wire((register_addr, arg), table)
            },
            StringInstructionView::LoadAllArgsAsArray { register_addr } => {
                <u8 as WriteToFile>::wire(register_addr, table)
            },
            StringInstructionView::LoadStatic { register_addr, ty, name } => {
                <(u8, (StringTypeReference, StringName)) as WriteToFile>::wire(
                    (register_addr, (ty, name)),
                    table,
                )
            },
            StringInstructionView::ReturnVal { register_addr } => {
                <u8 as WriteToFile>::wire(register_addr, table)
            },
            StringInstructionView::SetField { register_addr, field } => {
                <(u8, StringName) as WriteToFile>::wire((register_addr, field), table)
            },
        }
    }

    /// The table after the parts of the variant have been written.
    pub open spec fn parts_table_after(self, table: Table) -> Table {
        match self {
            StringInstructionView::LoadTrue { register_addr } => {
                <u8 as WriteToFile>::table_after(register_addr, table)
            },
            StringInstructionView::LoadFalse { register_addr } => {
                <u8 as WriteToFile>::table_after(register_addr, table)
            },
            StringInstructionView::Load_u8 { register_addr, val } => {
                <(u8, u8) as WriteToFile>::table_after((register_addr, val), table)
            },
            StringInstructionView::Load_u8_0 { register_addr } => {
                <u8 as WriteToFile>::table_after(register_addr, table)
            },
            StringInstructionView::Load_u8_1 { register_addr } => {
                <u8 as WriteToFile>::table_after(register_addr, table)
            },
            StringInstructionView::Load_u8_2 { register_addr } => {
                <u8 as WriteToFile>::table_after(register_addr, table)
            },
            StringInstructionView::Load_u8_3 { register_addr } => {
                <u8 as WriteToFile>::table_after(register_addr, table)
            },
            StringInstructionView::Load_u8_4 { register_addr } => {
                <u8 as WriteToFile>::table_after(register_addr, table)
            },
            StringInstructionView::Load_u8_5 { register_addr } => {
                <u8 as WriteToFile>::table_after(register_addr, table)
            },
            StringInstructionView::Load_u64 { register_addr, val } => {
                <(u8, u64) as WriteToFile>::table_after((register_addr, val), table)
            },
            StringInstructionView::NewObject { ty, ctor_name, args, register_addr } => {
                <(
                    StringTypeReference,
                    (StringMethodReference, (Vec<u8>, u8)),
                ) as WriteToFile>::table_after(
                    (ty, (ctor_name, (args, register_addr))),
                    table,
                )
            },
            StringInstructionView::InstanceCall { val, method, args, ret_at } => {
                <(u8, (StringMethodReference, (Vec<u8>, u8))) as WriteToFile>::table_after(
                    (val, (method, (args, ret_at))),
                    table,
                )
            },
            StringInstructionView::StaticCall { ty, method, args, ret_at } => {
                <(
                    StringTypeReference,
                    (StringMethodReference, (Vec<u8>, u8)),
                ) as WriteToFile>::table_after(
                    (ty, (method, (args, ret_at))),
                    table,
                )
            },
            StringInstructionView::LoadArg { register_addr, arg } => {
                <(u8, u64) as WriteToFile>::table_after((register_addr, arg), table)
            },
            StringInstructionView::LoadAllArgsAsArray { register_addr } => {
                <u8 as WriteToFile>::table_after(register_addr, table)
            },
            StringInstructionView::LoadStatic { register_addr, ty, name } => {
                <(u8, (StringTypeReference, StringName)) as WriteToFile>::table_after(
                    (register_addr, (ty, name)),
                    table,
                )
            },
            StringInstructionView::ReturnVal { register_addr } => {
                <u8 as WriteToFile>::table_after(register_addr, table)
            },
            StringInstructionView::SetField { register_addr, field } => {
                <(u8, StringName) as WriteToFile>::table_after((register_addr, field), table)
            },
        }
    }

    /// Every part of the variant is one that its type's constructors can make.
    pub open spec fn parts_valid(self) -> bool {
        match self {
            StringInstructionView::LoadTrue { register_addr } => {
                <u8 as Codec>::valid(register_addr)
            },
            StringInstructionView::LoadFalse { register_addr } => {
                <u8 as Codec>::valid(register_addr)
            },
            StringInstructionView::Load_u8 { register_addr, val } => {
                <(u8, u8) as Codec>::valid((register_addr, val))
            },
            StringInstructionView::Load_u8_0 { register_addr } => {
                <u8 as Codec>::valid(register_addr)
            },
            StringInstructionView::Load_u8_1 { register_addr } => {
                <u8 as Codec>::valid(register_addr)
            },
            StringInstructionView::Load_u8_2 { register_addr } => {
                <u8 as Codec>::valid(register_addr)
            },
            StringInstructionView::Load_u8_3 { register_addr } => {
                <u8 as Codec>::valid(register_addr)
            },
            StringInstructionView::Load_u8_4 { register_addr } => {
                <u8 as Codec>::valid(register_addr)
            },
            StringInstructionView::Load_u8_5 { register_addr } => {
                <u8 as Codec>::valid(register_addr)
            },
            StringInstructionView::Load_u64 { register_addr, val } => {
                <(u8, u64) as Codec>::valid((register_addr, val))
            },
            StringInstructionView::NewObject { ty, ctor_name, args, register_addr } => {
                <(StringTypeReference, (StringMethodReference, (Vec<u8>, u8))) as Codec>::valid(
                    (ty, (ctor_name, (args, register_addr))),
                )
            },
            StringInstructionView::InstanceCall { val, method, args, ret_at } => {
                <(u8, (StringMethodReference, (Vec<u8>, u8))) as Codec>::valid(
                    (val, (method, (args, ret_at))),
                )
            },
            StringInstructionView::StaticCall { ty, method, args, ret_at } => {
                <(StringTypeReference, (StringMethodReference, (Vec<u8>, u8))) as Codec>::valid(
                    (ty, (method, (args, ret_at))),
                )
            },
            StringInstructionView::LoadArg { register_addr, arg } => {
                <(u8, u64) as Codec>::valid((register_addr, arg))
            },
            StringInstructionView::LoadAllArgsAsArray { register_addr } => {
                <u8 as Codec>::valid(register_addr)
            },
            StringInstructionView::LoadStatic { register_addr, ty, name } => {
                <(u8, (StringTypeReference, StringName)) as Codec>::valid(
                    (register_addr, (ty, name)),
                )
            },
            StringInstructionView::ReturnVal { register_addr } => {
                <u8 as Codec>::valid(register_addr)
            },
            StringInstructionView::SetField { register_addr, field } => {
                <(u8, StringName) as Codec>::valid((register_addr, field))
            },
        }
    }

    /// The value of the kind `kind` whose parts stand at position `at`, and the
    /// position behind them.
    pub open spec fn parse_parts(
        kind: StringInstructionType,
        table: Table,
        bytes: Seq<u8>,
        at: int,
    ) -> Result<(StringInstructionView, int), Error> {
        match kind {
            StringInstructionType::LoadTrue => match <u8 as ReadFromFile>::parse(table, bytes, at) {
                Ok((register_addr, end)) => Ok(
                    (StringInstructionView::LoadTrue { register_addr }, end),
                ),
                Err(e) => Err(e),
            },
            StringInstructionType::LoadFalse => match <u8 as ReadFromFile>::parse(
                table,
                bytes,
                at,
            ) {
                Ok((register_addr, end)) => Ok(
                    (StringInstructionView::LoadFalse { register_addr }, end),
                ),
                Err(e) => Err(e),
            },
            StringInstructionType::Load_u8 => match <(u8, u8) as ReadFromFile>::parse(
                table,
                bytes,
                at,
            ) {
                Ok(((register_addr, val), end)) => Ok(
                    (StringInstructionView::Load_u8 { register_addr, val }, end),
                ),
                Err(e) => Err(e),
            },
            StringInstructionType::Load_u8_0 => match <u8 as ReadFromFile>::parse(
                table,
                bytes,
                at,
            ) {
                Ok((register_addr, end)) => Ok(
                    (StringInstructionView::Load_u8_0 { register_addr }, end),
                ),
                Err(e) => Err(e),
            },
            StringInstructionType::Load_u8_1 => match <u8 as ReadFromFile>::parse(
                table,
                bytes,
                at,
            ) {
                Ok((register_addr, end)) => Ok(
                    (StringInstructionView::Load_u8_1 { register_addr }, end),
                ),
                Err(e) => Err(e),
            },
            StringInstructionType::Load_u8_2 => match <u8 as ReadFromFile>::parse(
                table,
                bytes,
                at,
            ) {
                Ok((register_addr, end)) => Ok(
                    (StringInstructionView::Load_u8_2 { register_addr }, end),
                ),
                Err(e) => Err(e),
            },
            StringInstructionType::Load_u8_3 => match <u8 as ReadFromFile>::parse(
                table,
                bytes,
                at,
            ) {
                Ok((register_addr, end)) => Ok(
                    (StringInstructionView::Load_u8_3 { register_addr }, end),
                ),
                Err(e) => Err(e),
            },
            StringInstructionType::Load_u8_4 => match <u8 as ReadFromFile>::parse(
                table,
                bytes,
                at,
            ) {
                Ok((register_addr, end)) => Ok(
                    (StringInstructionView::Load_u8_4 { register_addr }, end),
                ),
                Err(e) => Err(e),
            },
            StringInstructionType::Load_u8_5 => match <u8 as ReadFromFile>::parse(
                table,
                bytes,
                at,
            ) {
                Ok((register_addr, end)) => Ok(
                    (StringInstructionView::Load_u8_5 { register_addr }, end),
                ),
                Err(e) => Err(e),
            },
            StringInstructionType::Load_u64 => match <(u8, u64) as ReadFromFile>::parse(
                table,
                bytes,
                at,
            ) {
                Ok(((register_addr, val), end)) => Ok(
                    (StringInstructionView::Load_u64 { register_addr, val }, end),
                ),
                Err(e) => Err(e),
            },
            StringInstructionType::NewObject => match <(
                StringTypeReference,
                (StringMethodReference, (Vec<u8>, u8)),
            ) as ReadFromFile>::parse(
                table,
                bytes,
                at,
            ) {
                Ok(((ty, (ctor_name, (args, register_addr))), end)) => Ok(
                    (StringInstructionView::NewObject { ty, ctor_name, args, register_addr }, end),
                ),
                Err(e) => Err(e),
            },
            StringInstructionType::InstanceCall => match <(
                u8,
                (StringMethodReference, (Vec<u8>, u8)),
            ) as ReadFromFile>::parse(
                table,
                bytes,
                at,
            ) {
                Ok(((val, (method, (args, ret_at))), end)) => Ok(
                    (StringInstructionView::InstanceCall { val, method, args, ret_at }, end),
                ),
                Err(e) => Err(e),
            },
            StringInstructionType::StaticCall => match <(
                StringTypeReference,
                (StringMethodReference, (Vec<u8>, u8)),
            ) as ReadFromFile>::parse(
                table,
                bytes,
                at,
            ) {
                Ok(((ty, (method, (args, ret_at))), end)) => Ok(
                    (StringInstructionView::StaticCall { ty, method, args, ret_at }, end),
                ),
                Err(e) => Err(e),
            },
            StringInstructionType::LoadArg => match <(u8, u64) as ReadFromFile>::parse(
                table,
                bytes,
                at,
            ) {
                Ok(((register_addr, arg), end)) => Ok(
                    (StringInstructionView::LoadArg { register_addr, arg }, end),
                ),
                Err(e) => Err(e),
            },
            StringInstructionType::LoadAllArgsAsArray => match <u8 as ReadFromFile>::parse(
                table,
                bytes,
                at,
            ) {
                Ok((register_addr, end)) => Ok(
                    (StringInstructionView::LoadAllArgsAsArray { register_addr }, end),
                ),
                Err(e) => Err(e),
            },
            StringInstructionType::LoadStatic => match <(
                u8,
                (StringTypeReference, StringName),
            ) as ReadFromFile>::parse(
                table,
                bytes,
                at,
            ) {
                Ok(((register_addr, (ty, name)), end)) => Ok(
                    (StringInstructionView::LoadStatic { register_addr, ty, name }, end),
                ),
                Err(e) => Err(e),
            },
            StringInstructionType::ReturnVal => match <u8 as ReadFromFile>::parse(
                table,
                bytes,
                at,
            ) {
                Ok((register_addr, end)) => Ok(
                    (StringInstructionView::ReturnVal { register_addr }, end),
                ),
                Err(e) => Err(e),
            },
            StringInstructionType::SetField => match <(u8, StringName) as ReadFromFile>::parse(
                table,
                bytes,
                at,
            ) {
                Ok(((register_addr, field), end)) => Ok(
                    (StringInstructionView::SetField { register_addr, field }, end),
                ),
                Err(e) => Err(e),
            },
        }
    }
}

impl StringInstruction {
    /// Which variant the value is.
    pub fn to_type(&self) -> (kind: StringInstructionType)
        ensures
            kind == self.deep_view().kind(),
    {
        match self {
            StringInstruction::LoadTrue { .. } => StringInstructionType::LoadTrue,
            StringInstruction::LoadFalse { .. } => StringInstructionType::LoadFalse,
            StringInstruction::Load_u8 { .. } => StringInstructionType::Load_u8,
            StringInstruction::Load_u8_0 { .. } => StringInstructionType::Load_u8_0,
            StringInstruction::Load_u8_1 { .. } => StringInstructionType::Load_u8_1,
            StringInstruction::Load_u8_2 { .. } => StringInstructionType::Load_u8_2,
            StringInstruction::Load_u8_3 { .. } => StringInstructionType::Load_u8_3,
            StringInstruction::Load_u8_4 { .. } => StringInstructionType::Load_u8_4,
            StringInstruction::Load_u8_5 { .. } => StringInstructionType::Load_u8_5,
            StringInstruction::Load_u64 { .. } => StringInstructionType::Load_u64,
            StringInstruction::NewObject { .. } => StringInstructionType::NewObject,
            StringInstruction::InstanceCall { .. } => StringInstructionType::InstanceCall,
            StringInstruction::StaticCall { .. } => StringInstructionType::StaticCall,
            StringInstruction::LoadArg { .. } => StringInstructionType::LoadArg,
            StringInstruction::LoadAllArgsAsArray { .. } => {
                StringInstructionType::LoadAllArgsAsArray
            },
            StringInstruction::LoadStatic { .. } => StringInstructionType::LoadStatic,
            StringInstruction::ReturnVal { .. } => StringInstructionType::ReturnVal,
            StringInstruction::SetField { .. } => StringInstructionType::SetField,
        }
    }
}

/// A `StringInstruction` is written as its kind, then the parts of its variant in the order
/// of their declaration.
impl WriteToFile for StringInstruction {
    #[verifier::opaque]
    open spec fn wire(v: StringInstructionView, table: Table) -> Seq<u8> {
        <StringInstructionType as WriteToFile>::wire(v.kind(), table) + v.parts_wire(table)
    }

    #[verifier::opaque]
    open spec fn table_after(v: StringInstructionView, table: Table) -> Table {
        v.parts_table_after(table)
    }

    proof fn lemma_table_grows(v: StringInstructionView, table: Table) {
        reveal(<StringInstruction as WriteToFile>::table_after);
        match v {
            StringInstructionView::LoadTrue { register_addr } => {
                <u8 as WriteToFile>::lemma_table_grows(register_addr, table);
            },
            StringInstructionView::LoadFalse { register_addr } => {
                <u8 as WriteToFile>::lemma_table_grows(register_addr, table);
            },
            StringInstructionView::Load_u8 { register_addr, val } => {
                <(u8, u8) as WriteToFile>::lemma_table_grows((register_addr, val), table);
            },
            StringInstructionView::Load_u8_0 { register_addr } => {
                <u8 as WriteToFile>::lemma_table_grows(register_addr, table);
            },
            StringInstructionView::Load_u8_1 { register_addr } => {
                <u8 as WriteToFile>::lemma_table_grows(register_addr, table);
            },
            StringInstructionView::Load_u8_2 { register_addr } => {
                <u8 as WriteToFile>::lemma_table_grows(register_addr, table);
            },
            StringInstructionView::Load_u8_3 { register_addr } => {
                <u8 as WriteToFile>::lemma_table_grows(register_addr, table);
            },
            StringInstructionView::Load_u8_4 { register_addr } => {
                <u8 as WriteToFile>::lemma_table_grows(register_addr, table);
            },
            StringInstructionView::Load_u8_5 { register_addr } => {
                <u8 as WriteToFile>::lemma_table_grows(register_addr, table);
            },
            StringInstructionView::Load_u64 { register_addr, val } => {
                <(u8, u64) as WriteToFile>::lemma_table_grows((register_addr, val), table);
            },
            StringInstructionView::NewObject { ty, ctor_name, args, register_addr } => {
                <(
                    StringTypeReference,
                    (StringMethodReference, (Vec<u8>, u8)),
                ) as WriteToFile>::lemma_table_grows(
                    (ty, (ctor_name, (args, register_addr))),
                    table,
                );
            },
            StringInstructionView::InstanceCall { val, method, args, ret_at } => {
                <(u8, (StringMethodReference, (Vec<u8>, u8))) as WriteToFile>::lemma_table_grows(
                    (val, (method, (args, ret_at))),
                    table,
                );
            },
            StringInstructionView::StaticCall { ty, method, args, ret_at } => {
                <(
                    StringTypeReference,
                    (StringMethodReference, (Vec<u8>, u8)),
                ) as WriteToFile>::lemma_table_grows(
                    (ty, (method, (args, ret_at))),
                    table,
                );
            },
            StringInstructionView::LoadArg { register_addr, arg } => {
                <(u8, u64) as WriteToFile>::lemma_table_grows((register_addr, arg), table);
            },
            StringInstructionView::LoadAllArgsAsArray { register_addr } => {
                <u8 as WriteToFile>::lemma_table_grows(register_addr, table);
            },
            StringInstructionView::LoadStatic { register_addr, ty, name } => {
                <(u8, (StringTypeReference, StringName)) as WriteToFile>::lemma_table_grows(
                    (register_addr, (ty, name)),
                    table,
                );
            },
            StringInstructionView::ReturnVal { register_addr } => {
                <u8 as WriteToFile>::lemma_table_grows(register_addr, table);
            },
            StringInstructionView::SetField { register_addr, field } => {
                <(u8, StringName) as WriteToFile>::lemma_table_grows((register_addr, field), table);
            },
        }
    }

    fn write_to_file(&self, file: &mut File) -> (done: Result<(), Error>) {
        proof {
            reveal(<StringInstruction as WriteToFile>::wire);
            reveal(<StringInstruction as WriteToFile>::table_after);
        }
        let ghost before = file@;
        match self.to_type().write_to_file(file) {
            Ok(_) => {},
            Err(e) => {
                return Err(e);
            },
        }
        let done = match self {
            StringInstruction::LoadTrue { register_addr } => register_addr.write_to_file(file),
            StringInstruction::LoadFalse { register_addr } => register_addr.write_to_file(file),
            StringInstruction::Load_u8 { register_addr, val } => {
                (register_addr, val).write_to_file(file)
            },
            StringInstruction::Load_u8_0 { register_addr } => register_addr.write_to_file(file),
            StringInstruction::Load_u8_1 { register_addr } => register_addr.write_to_file(file),
            StringInstruction::Load_u8_2 { register_addr } => register_addr.write_to_file(file),
            StringInstruction::Load_u8_3 { register_addr } => register_addr.write_to_file(file),
            StringInstruction::Load_u8_4 { register_addr } => register_addr.write_to_file(file),
            StringInstruction::Load_u8_5 { register_addr } => register_addr.write_to_file(file),
            StringInstruction::Load_u64 { register_addr, val } => {
                (register_addr, val).write_to_file(file)
            },
            StringInstruction::NewObject { ty, ctor_name, args, register_addr } => {
                (ty, (ctor_name, (args, register_addr))).write_to_file(file)
            },
            StringInstruction::InstanceCall { val, method, args, ret_at } => {
                (val, (method, (args, ret_at))).write_to_file(file)
            },
            StringInstruction::StaticCall { ty, method, args, ret_at } => {
                (ty, (method, (args, ret_at))).write_to_file(file)
            },
            StringInstruction::LoadArg { register_addr, arg } => {
                (register_addr, arg).write_to_file(file)
            },
            StringInstruction::LoadAllArgsAsArray { register_addr } => {
                register_addr.write_to_file(file)
            },
            StringInstruction::LoadStatic { register_addr, ty, name } => {
                (register_addr, (ty, name)).write_to_file(file)
            },
            StringInstruction::ReturnVal { register_addr } => register_addr.write_to_file(file),
            StringInstruction::SetField { register_addr, field } => {
                (register_addr, field).write_to_file(file)
            },
        };
        proof {
            let v = self.deep_view();
            lemma_after_write_twice(
                before,
                <StringInstructionType as WriteToFile>::wire(v.kind(), before.strings),
                before.strings,
                v.parts_wire(before.strings),
                v.parts_table_after(before.strings),
            );
        }
        done
    }
}

impl ReadFromFile for StringInstruction {
    #[verifier::opaque]
    open spec fn parse(table: Table, bytes: Seq<u8>, at: int) -> Result<
        (StringInstructionView, int),
        Error,
    > {
        match <StringInstructionType as ReadFromFile>::parse(table, bytes, at) {
            Ok((kind, next)) => StringInstructionView::parse_parts(kind, table, bytes, next),
            Err(e) => Err(e),
        }
    }

    fn read_from_file(file: &mut File) -> (value: Result<Self, Error>) {
        proof {
            reveal(<StringInstruction as ReadFromFile>::parse);
        }
        match StringInstructionType::read_from_file(file) {
            Ok(kind) => match kind {
                StringInstructionType::LoadTrue => match <u8>::read_from_file(file) {
                    Ok(register_addr) => Ok(StringInstruction::LoadTrue { register_addr }),
                    Err(e) => Err(e),
                },
                StringInstructionType::LoadFalse => match <u8>::read_from_file(file) {
                    Ok(register_addr) => Ok(StringInstruction::LoadFalse { register_addr }),
                    Err(e) => Err(e),
                },
                StringInstructionType::Load_u8 => match <(u8, u8)>::read_from_file(file) {
                    Ok((register_addr, val)) => Ok(
                        StringInstruction::Load_u8 { register_addr, val },
                    ),
                    Err(e) => Err(e),
                },
                StringInstructionType::Load_u8_0 => match <u8>::read_from_file(file) {
                    Ok(register_addr) => Ok(StringInstruction::Load_u8_0 { register_addr }),
                    Err(e) => Err(e),
                },
                StringInstructionType::Load_u8_1 => match <u8>::read_from_file(file) {
                    Ok(register_addr) => Ok(StringInstruction::Load_u8_1 { register_addr }),
                    Err(e) => Err(e),
                },
                StringInstructionType::Load_u8_2 => match <u8>::read_from_file(file) {
                    Ok(register_addr) => Ok(StringInstruction::Load_u8_2 { register_addr }),
                    Err(e) => Err(e),
                },
                StringInstructionType::Load_u8_3 => match <u8>::read_from_file(file) {
                    Ok(register_addr) => Ok(StringInstruction::Load_u8_3 { register_addr }),
                    Err(e) => Err(e),
                },
                StringInstructionType::Load_u8_4 => match <u8>::read_from_file(file) {
                    Ok(register_addr) => Ok(StringInstruction::Load_u8_4 { register_addr }),
                    Err(e) => Err(e),
                },
                StringInstructionType::Load_u8_5 => match <u8>::read_from_file(file) {
                    Ok(register_addr) => Ok(StringInstruction::Load_u8_5 { register_addr }),
                    Err(e) => Err(e),
                },
                StringInstructionType::Load_u64 => match <(u8, u64)>::read_from_file(file) {
                    Ok((register_addr, val)) => Ok(
                        StringInstruction::Load_u64 { register_addr, val },
                    ),
                    Err(e) => Err(e),
                },
                StringInstructionType::NewObject => match <(
                    StringTypeReference,
                    (StringMethodReference, (Vec<u8>, u8)),
                )>::read_from_file(
                    file,
                ) {
                    Ok((ty, (ctor_name, (args, register_addr)))) => Ok(
                        StringInstruction::NewObject { ty, ctor_name, args, register_addr },
                    ),
                    Err(e) => Err(e),
                },
                StringInstructionType::InstanceCall => match <(
                    u8,
                    (StringMethodReference, (Vec<u8>, u8)),
                )>::read_from_file(
                    file,
                ) {
                    Ok((val, (method, (args, ret_at)))) => Ok(
                        StringInstruction::InstanceCall { val, method, args, ret_at },
                    ),
                    Err(e) => Err(e),
                },
                StringInstructionType::StaticCall => match <(
                    StringTypeReference,
                    (StringMethodReference, (Vec<u8>, u8)),
                )>::read_from_file(
                    file,
                ) {
                    Ok((ty, (method, (args, ret_at)))) => Ok(
                        StringInstruction::StaticCall { ty, method, args, ret_at },
                    ),
                    Err(e) => Err(e),
                },
                StringInstructionType::LoadArg => match <(u8, u64)>::read_from_file(file) {
                    Ok((register_addr, arg)) => Ok(
                        StringInstruction::LoadArg { register_addr, arg },
                    ),
                    Err(e) => Err(e),
                },
                StringInstructionType::LoadAllArgsAsArray => match <u8>::read_from_file(file) {
                    Ok(register_addr) => Ok(
                        StringInstruction::LoadAllArgsAsArray { register_addr },
                    ),
                    Err(e) => Err(e),
                },
                StringInstructionType::LoadStatic => match <(
                    u8,
                    (StringTypeReference, StringName),
                )>::read_from_file(
                    file,
                ) {
                    Ok((register_addr, (ty, name))) => Ok(
                        StringInstruction::LoadStatic { register_addr, ty, name },
                    ),
                    Err(e) => Err(e),
                },
                StringInstructionType::ReturnVal => match <u8>::read_from_file(file) {
                    Ok(register_addr) => Ok(StringInstruction::ReturnVal { register_addr }),
                    Err(e) => Err(e),
                },
                StringInstructionType::SetField => match <(u8, StringName)>::read_from_file(file) {
                    Ok((register_addr, field)) => Ok(
                        StringInstruction::SetField { register_addr, field },
                    ),
                    Err(e) => Err(e),
                },
            },
            Err(e) => Err(e),
        }
    }
}

impl Codec for StringInstruction {
    #[verifier::opaque]
    open spec fn valid(v: StringInstructionView) -> bool {
        v.parts_valid()
    }

    proof fn lemma_decode(
        v: StringInstructionView,
        table: Table,
        final_table: Table,
        bytes: Seq<u8>,
        at: int,
    ) {
        reveal(<StringInstruction as WriteToFile>::wire);
        reveal(<StringInstruction as WriteToFile>::table_after);
        reveal(<StringInstruction as ReadFromFile>::parse);
        reveal(<StringInstruction as Codec>::valid);
        let head = <StringInstructionType as WriteToFile>::wire(v.kind(), table);
        Self::lemma_table_grows(v, table);
        lemma_agrees_split(bytes, at, head, v.parts_wire(table));
        <StringInstructionType as Codec>::lemma_decode(v.kind(), table, final_table, bytes, at);
        if at + head.len() <= bytes.len() {
            let next = at + head.len();
            match v {
                StringInstructionView::LoadTrue { register_addr } => {
                    <u8 as Codec>::lemma_decode(register_addr, table, final_table, bytes, next);
                },
                StringInstructionView::LoadFalse { register_addr } => {
                    <u8 as Codec>::lemma_decode(register_addr, table, final_table, bytes, next);
                },
                StringInstructionView::Load_u8 { register_addr, val } => {
                    <(u8, u8) as Codec>::lemma_decode(
                        (register_addr, val),
                        table,
                        final_table,
                        bytes,
                        next,
                    );
                },
                StringInstructionView::Load_u8_0 { register_addr } => {
                    <u8 as Codec>::lemma_decode(register_addr, table, final_table, bytes, next);
                },
                StringInstructionView::Load_u8_1 { register_addr } => {
                    <u8 as Codec>::lemma_decode(register_addr, table, final_table, bytes, next);
                },
                StringInstructionView::Load_u8_2 { register_addr } => {
                    <u8 as Codec>::lemma_decode(register_addr, table, final_table, bytes, next);
                },
                StringInstructionView::Load_u8_3 { register_addr } => {
                    <u8 as Codec>::lemma_decode(register_addr, table, final_table, bytes, next);
                },
                StringInstructionView::Load_u8_4 { register_addr } => {
                    <u8 as Codec>::lemma_decode(register_addr, table, final_table, bytes, next);
                },
                StringInstructionView::Load_u8_5 { register_addr } => {
                    <u8 as Codec>::lemma_decode(register_addr, table, final_table, bytes, next);
                },
                StringInstructionView::Load_u64 { register_addr, val } => {
                    <(u8, u64) as Codec>::lemma_decode(
                        (register_addr, val),
                        table,
                        final_table,
                        bytes,
                        next,
                    );
                },
                StringInstructionView::NewObject { ty, ctor_name, args, register_addr } => {
                    <(
                        StringTypeReference,
                        (StringMethodReference, (Vec<u8>, u8)),
                    ) as Codec>::lemma_decode(
                        (ty, (ctor_name, (args, register_addr))),
                        table,
                        final_table,
                        bytes,
                        next,
                    );
                },
                StringInstructionView::InstanceCall { val, method, args, ret_at } => {
                    <(u8, (StringMethodReference, (Vec<u8>, u8))) as Codec>::lemma_decode(
                        (val, (method, (args, ret_at))),
                        table,
                        final_table,
                        bytes,
                        next,
                    );
                },
                StringInstructionView::StaticCall { ty, method, args, ret_at } => {
                    <(
                        StringTypeReference,
                        (StringMethodReference, (Vec<u8>, u8)),
                    ) as Codec>::lemma_decode(
                        (ty, (method, (args, ret_at))),
                        table,
                        final_table,
                        bytes,
                        next,
                    );
                },
                StringInstructionView::LoadArg { register_addr, arg } => {
                    <(u8, u64) as Codec>::lemma_decode(
                        (register_addr, arg),
                        table,
                        final_table,
                        bytes,
                        next,
                    );
                },
                StringInstructionView::LoadAllArgsAsArray { register_addr } => {
                    <u8 as Codec>::lemma_decode(register_addr, table, final_table, bytes, next);
                },
                StringInstructionView::LoadStatic { register_addr, ty, name } => {
                    <(u8, (StringTypeReference, StringName)) as Codec>::lemma_decode(
                        (register_addr, (ty, name)),
                        table,
                        final_table,
                        bytes,
                        next,
                    );
                },
                StringInstructionView::ReturnVal { register_addr } => {
                    <u8 as Codec>::lemma_decode(register_addr, table, final_table, bytes, next);
                },
                StringInstructionView::SetField { register_addr, field } => {
                    <(u8, StringName) as Codec>::lemma_decode(
                        (register_addr, field),
                        table,
                        final_table,
                        bytes,
                        next,
                    );
                },
            }
        }
    }
}

} // verus!
