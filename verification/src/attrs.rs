//! Attributes of types, methods and fields: who may see them, and how they
//! are implemented.

use crate::bytes::{le_bytes, lemma_agrees_split, lemma_le_value_bound, lemma_pow256_values};
use crate::error::Error;
use crate::file::{lemma_after_write_twice, File};
use crate::interner::Table;
use crate::traits::{
    lemma_decode_fixed, parse_fixed, read_fixed, write_fixed, Codec, ReadFromFile, WriteToFile,
};
use vstd::prelude::*;

verus! {

/// Who may see a type, a method or a field.
#[derive(Clone, Copy, Debug, PartialEq, Eq)]
pub enum Visibility {
    /// Everyone.
    Public,
    /// The type that declares it.
    Private,
    /// The type that declares it and the types derived from it.
    Protected,
    /// The module that declares it.
    Internal,
}

impl DeepView for Visibility {
    type V = Visibility;

    open spec fn deep_view(&self) -> Visibility {
        *self
    }
}

impl Visibility {
    /// The number that stands for the variant: its place in the declaration, from 0.
    pub open spec fn discriminant(self) -> nat {
        match self {
            Visibility::Public => 0,
            Visibility::Private => 1,
            Visibility::Protected => 2,
            Visibility::Internal => 3,
        }
    }

    /// The variant that `d` stands for, where it stands for one.
    pub open spec fn of_discriminant(d: nat) -> Option<Visibility> {
        if d == 0 {
            Some(Visibility::Public)
        } else if d == 1 {
            Some(Visibility::Private)
        } else if d == 2 {
            Some(Visibility::Protected)
        } else if d == 3 {
            Some(Visibility::Internal)
        } else {
            None
        }
    }

    /// The number that stands for the variant.
    pub fn to_primitive(self) -> (d: u8)
        ensures
            d == self.discriminant(),
            Self::of_discriminant(d as nat) == Some(self),
    {
        match self {
            Visibility::Public => 0,
            Visibility::Private => 1,
            Visibility::Protected => 2,
            Visibility::Internal => 3,
        }
    }

    /// The variant that `d` stands for. Each of the 4 numbers from 0 on stands
    /// for one, and no other number does.
    pub fn try_from_primitive(d: u8) -> (found: Result<Self, Error>)
        ensures
            found is Ok <==> d < 4,
            match Self::of_discriminant(d as nat) {
                Some(v) => found == Ok::<Self, Error>(v) && v.discriminant() == d,
                None => found == Err::<Self, Error>(
                    Error::EnumOutOfBounds("Visibility"),
                ),
            },
    {
        match d {
            0 => Ok(Visibility::Public),
            1 => Ok(Visibility::Private),
            2 => Ok(Visibility::Protected),
            3 => Ok(Visibility::Internal),
            _ => Err(Error::EnumOutOfBounds("Visibility")),
        }
    }
}

/// A `Visibility` is written as its discriminant in 1 byte.
impl WriteToFile for Visibility {
    open spec fn wire(v: Visibility, table: Table) -> Seq<u8> {
        le_bytes(v.discriminant(), 1)
    }

    open spec fn table_after(v: Visibility, table: Table) -> Table {
        table
    }

    proof fn lemma_table_grows(v: Visibility, table: Table) {
    }

    fn write_to_file(&self, file: &mut File) -> (done: Result<(), Error>) {
        write_fixed(file, self.to_primitive() as u128, 1);
        Ok(())
    }
}

impl ReadFromFile for Visibility {
    open spec fn parse(table: Table, bytes: Seq<u8>, at: int) -> Result<(Visibility, int), Error> {
        match parse_fixed(bytes, at, 1) {
            Ok((n, next)) => match Self::of_discriminant(n) {
                Some(v) => Ok((v, next)),
                None => Err(Error::EnumOutOfBounds("Visibility")),
            },
            Err(e) => Err(e),
        }
    }

    fn read_from_file(file: &mut File) -> (value: Result<Self, Error>) {
        let ghost start = file@.cursor as int;
        match read_fixed(file, 1) {
            Ok(raw) => {
                proof {
                    lemma_le_value_bound(file@.bytes.subrange(start, start + 1));
                    lemma_pow256_values();
                }
                Self::try_from_primitive(raw as u8)
            },
            Err(e) => Err(e),
        }
    }
}

impl Codec for Visibility {
    open spec fn valid(v: Visibility) -> bool {
        true
    }

    proof fn lemma_decode(
        v: Visibility,
        table: Table,
        final_table: Table,
        bytes: Seq<u8>,
        at: int,
    ) {
        lemma_pow256_values();
        lemma_decode_fixed(v.discriminant(), 1, bytes, at);
    }
}

/// `bits` holds no bit outside `all`.
pub open spec fn flags_within(bits: u16, all: u16) -> bool {
    bits & !all == 0
}

/// The bit of a class that has no instances.
pub const CLASS_STATIC: u16 = 0x0001;

/// The bit of a class that cannot be instantiated itself.
pub const CLASS_ABSTRACT: u16 = 0x0002;

/// The bit of a class that no class can derive from.
pub const CLASS_SEALED: u16 = 0x0004;

/// How a class is implemented. A set holds none but the flags that this module names
/// for classes.
#[derive(Clone, Copy, Debug, PartialEq, Eq)]
pub struct ClassImplementationFlags {
    bits: u16,
}

impl DeepView for ClassImplementationFlags {
    type V = u16;

    closed spec fn deep_view(&self) -> u16 {
        self.bits
    }
}

impl ClassImplementationFlags {
    /// The bits of all the flags of classes.
    pub const ALL: u16 = 0x0007;

    /// The set holds known flags only. Every set that this module hands out does.
    pub open spec fn wf(&self) -> bool {
        flags_within(self.deep_view(), 0x0007)
    }

    /// The set of no flags.
    pub fn empty() -> (flags: Self)
        ensures
            flags.deep_view() == 0,
            flags.wf(),
    {
        assert(0u16 & !0x0007u16 == 0) by (bit_vector);
        ClassImplementationFlags { bits: 0 }
    }

    /// The set with the flags whose bits `bits` has; an error where `bits`
    /// has a bit that is no known flag.
    pub fn from_bits(bits: u16) -> (flags: Result<Self, Error>)
        ensures
            flags_within(bits, 0x0007) ==> flags is Ok && flags->Ok_0.deep_view() == bits
                && flags->Ok_0.wf(),
            !flags_within(bits, 0x0007) ==> flags == Err::<Self, Error>(Error::InvalidFlagBits),
    {
        if bits & !0x0007u16 == 0 {
            Ok(ClassImplementationFlags { bits })
        } else {
            Err(Error::InvalidFlagBits)
        }
    }

    /// The bits of the flags that the set holds.
    pub fn bits(&self) -> (bits: u16)
        ensures
            bits == self.deep_view(),
    {
        self.bits
    }

    /// Whether the set holds every flag whose bit `flags` has.
    pub fn contains(&self, flags: u16) -> (held: bool)
        ensures
            held == (self.deep_view() & flags == flags),
    {
        self.bits & flags == flags
    }
}

/// A set of flags is written as its bits in two bytes.
impl WriteToFile for ClassImplementationFlags {
    open spec fn wire(v: u16, table: Table) -> Seq<u8> {
        le_bytes(v as nat, 2)
    }

    open spec fn table_after(v: u16, table: Table) -> Table {
        table
    }

    proof fn lemma_table_grows(v: u16, table: Table) {
    }

    fn write_to_file(&self, file: &mut File) -> (done: Result<(), Error>) {
        write_fixed(file, self.bits as u128, 2);
        Ok(())
    }
}

/// A set of flags is read as its bits; bits that are no known flag are an error.
impl ReadFromFile for ClassImplementationFlags {
    open spec fn parse(table: Table, bytes: Seq<u8>, at: int) -> Result<(u16, int), Error> {
        match parse_fixed(bytes, at, 2) {
            Ok((n, next)) => if flags_within(n as u16, 0x0007) {
                Ok((n as u16, next))
            } else {
                Err(Error::InvalidFlagBits)
            },
            Err(e) => Err(e),
        }
    }

    fn read_from_file(file: &mut File) -> (value: Result<Self, Error>)
        ensures
            value is Ok ==> value->Ok_0.wf(),
    {
        let ghost start = file@.cursor as int;
        match read_fixed(file, 2) {
            Ok(raw) => {
                proof {
                    lemma_le_value_bound(file@.bytes.subrange(start, start + 2));
                    lemma_pow256_values();
                }
                Self::from_bits(raw as u16)
            },
            Err(e) => Err(e),
        }
    }
}

impl Codec for ClassImplementationFlags {
    open spec fn valid(v: u16) -> bool {
        flags_within(v, 0x0007)
    }

    proof fn lemma_decode(v: u16, table: Table, final_table: Table, bytes: Seq<u8>, at: int) {
        lemma_pow256_values();
        lemma_decode_fixed(v as nat, 2, bytes, at);
    }
}

/// The bit of a struct that lives on the stack only.
pub const STRUCT_REF: u16 = 0x0001;

/// The bit of a struct whose fields never change.
pub const STRUCT_READ_ONLY: u16 = 0x0002;

/// How a struct is implemented. A set holds none but the flags that this module names
/// for structs.
#[derive(Clone, Copy, Debug, PartialEq, Eq)]
pub struct StructImplementationFlags {
    bits: u16,
}

impl DeepView for StructImplementationFlags {
    type V = u16;

    closed spec fn deep_view(&self) -> u16 {
        self.bits
    }
}

impl StructImplementationFlags {
    /// The bits of all the flags of structs.
    pub const ALL: u16 = 0x0003;

    /// The set holds known flags only. Every set that this module hands out does.
    pub open spec fn wf(&self) -> bool {
        flags_within(self.deep_view(), 0x0003)
    }

    /// The set of no flags.
    pub fn empty() -> (flags: Self)
        ensures
            flags.deep_view() == 0,
            flags.wf(),
    {
        assert(0u16 & !0x0003u16 == 0) by (bit_vector);
        StructImplementationFlags { bits: 0 }
    }

    /// The set with the flags whose bits `bits` has; an error where `bits`
    /// has a bit that is no known flag.
    pub fn from_bits(bits: u16) -> (flags: Result<Self, Error>)
        ensures
            flags_within(bits, 0x0003) ==> flags is Ok && flags->Ok_0.deep_view() == bits
                && flags->Ok_0.wf(),
            !flags_within(bits, 0x0003) ==> flags == Err::<Self, Error>(Error::InvalidFlagBits),
    {
        if bits & !0x0003u16 == 0 {
            Ok(StructImplementationFlags { bits })
        } else {
            Err(Error::InvalidFlagBits)
        }
    }

    /// The bits of the flags that the set holds.
    pub fn bits(&self) -> (bits: u16)
        ensures
            bits == self.deep_view(),
    {
        self.bits
    }

    /// Whether the set holds every flag whose bit `flags` has.
    pub fn contains(&self, flags: u16) -> (held: bool)
        ensures
            held == (self.deep_view() & flags == flags),
    {
        self.bits & flags == flags
    }
}

/// A set of flags is written as its bits in two bytes.
impl WriteToFile for StructImplementationFlags {
    open spec fn wire(v: u16, table: Table) -> Seq<u8> {
        le_bytes(v as nat, 2)
    }

    open spec fn table_after(v: u16, table: Table) -> Table {
        table
    }

    proof fn lemma_table_grows(v: u16, table: Table) {
    }

    fn write_to_file(&self, file: &mut File) -> (done: Result<(), Error>) {
        write_fixed(file, self.bits as u128, 2);
        Ok(())
    }
}

/// A set of flags is read as its bits; bits that are no known flag are an error.
impl ReadFromFile for StructImplementationFlags {
    open spec fn parse(table: Table, bytes: Seq<u8>, at: int) -> Result<(u16, int), Error> {
        match parse_fixed(bytes, at, 2) {
            Ok((n, next)) => if flags_within(n as u16, 0x0003) {
                Ok((n as u16, next))
            } else {
                Err(Error::InvalidFlagBits)
            },
            Err(e) => Err(e),
        }
    }

    fn read_from_file(file: &mut File) -> (value: Result<Self, Error>)
        ensures
            value is Ok ==> value->Ok_0.wf(),
    {
        let ghost start = file@.cursor as int;
        match read_fixed(file, 2) {
            Ok(raw) => {
                proof {
                    lemma_le_value_bound(file@.bytes.subrange(start, start + 2));
                    lemma_pow256_values();
                }
                Self::from_bits(raw as u16)
            },
            Err(e) => Err(e),
        }
    }
}

impl Codec for StructImplementationFlags {
    open spec fn valid(v: u16) -> bool {
        flags_within(v, 0x0003)
    }

    proof fn lemma_decode(v: u16, table: Table, final_table: Table, bytes: Seq<u8>, at: int) {
        lemma_pow256_values();
        lemma_decode_fixed(v as nat, 2, bytes, at);
    }
}

/// The bit of an interface whose methods all have a body.
pub const INTERFACE_DEFAULTED: u16 = 0x0001;

/// How an interface is implemented. A set holds none but the flags that this module names
/// for interfaces.
#[derive(Clone, Copy, Debug, PartialEq, Eq)]
pub struct InterfaceImplementationFlags {
    bits: u16,
}

impl DeepView for InterfaceImplementationFlags {
    type V = u16;

    closed spec fn deep_view(&self) -> u16 {
        self.bits
    }
}

impl InterfaceImplementationFlags {
    /// The bits of all the flags of interfaces.
    pub const ALL: u16 = 0x0001;

    /// The set holds known flags only. Every set that this module hands out does.
    pub open spec fn wf(&self) -> bool {
        flags_within(self.deep_view(), 0x0001)
    }

    /// The set of no flags.
    pub fn empty() -> (flags: Self)
        ensures
            flags.deep_view() == 0,
            flags.wf(),
    {
        assert(0u16 & !0x0001u16 == 0) by (bit_vector);
        InterfaceImplementationFlags { bits: 0 }
    }

    /// The set with the flags whose bits `bits` has; an error where `bits`
    /// has a bit that is no known flag.
    pub fn from_bits(bits: u16) -> (flags: Result<Self, Error>)
        ensures
            flags_within(bits, 0x0001) ==> flags is Ok && flags->Ok_0.deep_view() == bits
                && flags->Ok_0.wf(),
            !flags_within(bits, 0x0001) ==> flags == Err::<Self, Error>(Error::InvalidFlagBits),
    {
        if bits & !0x0001u16 == 0 {
            Ok(InterfaceImplementationFlags { bits })
        } else {
            Err(Error::InvalidFlagBits)
        }
    }

    /// The bits of the flags that the set holds.
    pub fn bits(&self) -> (bits: u16)
        ensures
            bits == self.deep_view(),
    {
        self.bits
    }

    /// Whether the set holds every flag whose bit `flags` has.
    pub fn contains(&self, flags: u16) -> (held: bool)
        ensures
            held == (self.deep_view() & flags == flags),
    {
        self.bits & flags == flags
    }
}

/// A set of flags is written as its bits in two bytes.
impl WriteToFile for InterfaceImplementationFlags {
    open spec fn wire(v: u16, table: Table) -> Seq<u8> {
        le_bytes(v as nat, 2)
    }

    open spec fn table_after(v: u16, table: Table) -> Table {
        table
    }

    proof fn lemma_table_grows(v: u16, table: Table) {
    }

    fn write_to_file(&self, file: &mut File) -> (done: Result<(), Error>) {
        write_fixed(file, self.bits as u128, 2);
        Ok(())
    }
}

/// A set of flags is read as its bits; bits that are no known flag are an error.
impl ReadFromFile for InterfaceImplementationFlags {
    open spec fn parse(table: Table, bytes: Seq<u8>, at: int) -> Result<(u16, int), Error> {
        match parse_fixed(bytes, at, 2) {
            Ok((n, next)) => if flags_within(n as u16, 0x0001) {
                Ok((n as u16, next))
            } else {
                Err(Error::InvalidFlagBits)
            },
            Err(e) => Err(e),
        }
    }

    fn read_from_file(file: &mut File) -> (value: Result<Self, Error>)
        ensures
            value is Ok ==> value->Ok_0.wf(),
    {
        let ghost start = file@.cursor as int;
        match read_fixed(file, 2) {
            Ok(raw) => {
                proof {
                    lemma_le_value_bound(file@.bytes.subrange(start, start + 2));
                    lemma_pow256_values();
                }
                Self::from_bits(raw as u16)
            },
            Err(e) => Err(e),
        }
    }
}

impl Codec for InterfaceImplementationFlags {
    open spec fn valid(v: u16) -> bool {
        flags_within(v, 0x0001)
    }

    proof fn lemma_decode(v: u16, table: Table, final_table: Table, bytes: Seq<u8>, at: int) {
        lemma_pow256_values();
        lemma_decode_fixed(v as nat, 2, bytes, at);
    }
}

/// The bit of a method that belongs to its type, not to an instance.
pub const METHOD_STATIC: u16 = 0x0001;

/// The bit of a method without a body.
pub const METHOD_ABSTRACT: u16 = 0x0002;

/// The bit of a method that a derived type may replace.
pub const METHOD_VIRTUAL: u16 = 0x0004;

/// The bit of a method that replaces one of a parent type.
pub const METHOD_OVERRIDE: u16 = 0x0008;

/// How a method is implemented. A set holds none but the flags that this module names
/// for methods.
#[derive(Clone, Copy, Debug, PartialEq, Eq)]
pub struct MethodImplementationFlags {
    bits: u16,
}

impl DeepView for MethodImplementationFlags {
    type V = u16;

    closed spec fn deep_view(&self) -> u16 {
        self.bits
    }
}

impl MethodImplementationFlags {
    /// The bits of all the flags of methods.
    pub const ALL: u16 = 0x000f;

    /// The set holds known flags only. Every set that this module hands out does.
    pub open spec fn wf(&self) -> bool {
        flags_within(self.deep_view(), 0x000f)
    }

    /// The set of no flags.
    pub fn empty() -> (flags: Self)
        ensures
            flags.deep_view() == 0,
            flags.wf(),
    {
        assert(0u16 & !0x000fu16 == 0) by (bit_vector);
        MethodImplementationFlags { bits: 0 }
    }

    /// The set with the flags whose bits `bits` has; an error where `bits`
    /// has a bit that is no known flag.
    pub fn from_bits(bits: u16) -> (flags: Result<Self, Error>)
        ensures
            flags_within(bits, 0x000f) ==> flags is Ok && flags->Ok_0.deep_view() == bits
                && flags->Ok_0.wf(),
            !flags_within(bits, 0x000f) ==> flags == Err::<Self, Error>(Error::InvalidFlagBits),
    {
        if bits & !0x000fu16 == 0 {
            Ok(MethodImplementationFlags { bits })
        } else {
            Err(Error::InvalidFlagBits)
        }
    }

    /// The bits of the flags that the set holds.
    pub fn bits(&self) -> (bits: u16)
        ensures
            bits == self.deep_view(),
    {
        self.bits
    }

    /// Whether the set holds every flag whose bit `flags` has.
    pub fn contains(&self, flags: u16) -> (held: bool)
        ensures
            held == (self.deep_view() & flags == flags),
    {
        self.bits & flags == flags
    }
}

/// A set of flags is written as its bits in two bytes.
impl WriteToFile for MethodImplementationFlags {
    open spec fn wire(v: u16, table: Table) -> Seq<u8> {
        le_bytes(v as nat, 2)
    }

    open spec fn table_after(v: u16, table: Table) -> Table {
        table
    }

    proof fn lemma_table_grows(v: u16, table: Table) {
    }

    fn write_to_file(&self, file: &mut File) -> (done: Result<(), Error>) {
        write_fixed(file, self.bits as u128, 2);
        Ok(())
    }
}

/// A set of flags is read as its bits; bits that are no known flag are an error.
impl ReadFromFile for MethodImplementationFlags {
    open spec fn parse(table: Table, bytes: Seq<u8>, at: int) -> Result<(u16, int), Error> {
        match parse_fixed(bytes, at, 2) {
            Ok((n, next)) => if flags_within(n as u16, 0x000f) {
                Ok((n as u16, next))
            } else {
                Err(Error::InvalidFlagBits)
            },
            Err(e) => Err(e),
        }
    }

    fn read_from_file(file: &mut File) -> (value: Result<Self, Error>)
        ensures
            value is Ok ==> value->Ok_0.wf(),
    {
        let ghost start = file@.cursor as int;
        match read_fixed(file, 2) {
            Ok(raw) => {
                proof {
                    lemma_le_value_bound(file@.bytes.subrange(start, start + 2));
                    lemma_pow256_values();
                }
                Self::from_bits(raw as u16)
            },
            Err(e) => Err(e),
        }
    }
}

impl Codec for MethodImplementationFlags {
    open spec fn valid(v: u16) -> bool {
        flags_within(v, 0x000f)
    }

    proof fn lemma_decode(v: u16, table: Table, final_table: Table, bytes: Seq<u8>, at: int) {
        lemma_pow256_values();
        lemma_decode_fixed(v as nat, 2, bytes, at);
    }
}

/// The bit of a field that belongs to its type, not to an instance.
pub const FIELD_STATIC: u16 = 0x0001;

/// The bit of a field that is set once.
pub const FIELD_READ_ONLY: u16 = 0x0002;

/// How a field is implemented. A set holds none but the flags that this module names
/// for fields.
#[derive(Clone, Copy, Debug, PartialEq, Eq)]
pub struct FieldImplementationFlags {
    bits: u16,
}

impl DeepView for FieldImplementationFlags {
    type V = u16;

    closed spec fn deep_view(&self) -> u16 {
        self.bits
    }
}

impl FieldImplementationFlags {
    /// The bits of all the flags of fields.
    pub const ALL: u16 = 0x0003;

    /// The set holds known flags only. Every set that this module hands out does.
    pub open spec fn wf(&self) -> bool {
        flags_within(self.deep_view(), 0x0003)
    }

    /// The set of no flags.
    pub fn empty() -> (flags: Self)
        ensures
            flags.deep_view() == 0,
            flags.wf(),
    {
        assert(0u16 & !0x0003u16 == 0) by (bit_vector);
        FieldImplementationFlags { bits: 0 }
    }

    /// The set with the flags whose bits `bits` has; an error where `bits`
    /// has a bit that is no known flag.
    pub fn from_bits(bits: u16) -> (flags: Result<Self, Error>)
        ensures
            flags_within(bits, 0x0003) ==> flags is Ok && flags->Ok_0.deep_view() == bits
                && flags->Ok_0.wf(),
            !flags_within(bits, 0x0003) ==> flags == Err::<Self, Error>(Error::InvalidFlagBits),
    {
        if bits & !0x0003u16 == 0 {
            Ok(FieldImplementationFlags { bits })
        } else {
            Err(Error::InvalidFlagBits)
        }
    }

    /// The bits of the flags that the set holds.
    pub fn bits(&self) -> (bits: u16)
        ensures
            bits == self.deep_view(),
    {
        self.bits
    }

    /// Whether the set holds every flag whose bit `flags` has.
    pub fn contains(&self, flags: u16) -> (held: bool)
        ensures
            held == (self.deep_view() & flags == flags),
    {
        self.bits & flags == flags
    }
}

/// A set of flags is written as its bits in two bytes.
impl WriteToFile for FieldImplementationFlags {
    open spec fn wire(v: u16, table: Table) -> Seq<u8> {
        le_bytes(v as nat, 2)
    }

    open spec fn table_after(v: u16, table: Table) -> Table {
        table
    }

    proof fn lemma_table_grows(v: u16, table: Table) {
    }

    fn write_to_file(&self, file: &mut File) -> (done: Result<(), Error>) {
        write_fixed(file, self.bits as u128, 2);
        Ok(())
    }
}

/// A set of flags is read as its bits; bits that are no known flag are an error.
impl ReadFromFile for FieldImplementationFlags {
    open spec fn parse(table: Table, bytes: Seq<u8>, at: int) -> Result<(u16, int), Error> {
        match parse_fixed(bytes, at, 2) {
            Ok((n, next)) => if flags_within(n as u16, 0x0003) {
                Ok((n as u16, next))
            } else {
                Err(Error::InvalidFlagBits)
            },
            Err(e) => Err(e),
        }
    }

    fn read_from_file(file: &mut File) -> (value: Result<Self, Error>)
        ensures
            value is Ok ==> value->Ok_0.wf(),
    {
        let ghost start = file@.cursor as int;
        match read_fixed(file, 2) {
            Ok(raw) => {
                proof {
                    lemma_le_value_bound(file@.bytes.subrange(start, start + 2));
                    lemma_pow256_values();
                }
                Self::from_bits(raw as u16)
            },
            Err(e) => Err(e),
        }
    }
}

impl Codec for FieldImplementationFlags {
    open spec fn valid(v: u16) -> bool {
        flags_within(v, 0x0003)
    }

    proof fn lemma_decode(v: u16, table: Table, final_table: Table, bytes: Seq<u8>, at: int) {
        lemma_pow256_values();
        lemma_decode_fixed(v as nat, 2, bytes, at);
    }
}

/// The kinds of type that a [`TypeSpecificAttr`] tells apart.
#[derive(Clone, Copy, Debug, PartialEq, Eq)]
pub enum TypeSpecificAttrType {
    /// A class.
    Class,
    /// A struct.
    Struct,
    /// An interface.
    Interface,
}

impl DeepView for TypeSpecificAttrType {
    type V = TypeSpecificAttrType;

    open spec fn deep_view(&self) -> TypeSpecificAttrType {
        *self
    }
}

impl TypeSpecificAttrType {
    /// The number that stands for the variant: its place in the declaration, from 0.
    pub open spec fn discriminant(self) -> nat {
        match self {
            TypeSpecificAttrType::Class => 0,
            TypeSpecificAttrType::Struct => 1,
            TypeSpecificAttrType::Interface => 2,
        }
    }

    /// The variant that `d` stands for, where it stands for one.
    pub open spec fn of_discriminant(d: nat) -> Option<TypeSpecificAttrType> {
        if d == 0 {
            Some(TypeSpecificAttrType::Class)
        } else if d == 1 {
            Some(TypeSpecificAttrType::Struct)
        } else if d == 2 {
            Some(TypeSpecificAttrType::Interface)
        } else {
            None
        }
    }

    /// The number that stands for the variant.
    pub fn to_primitive(self) -> (d: u8)
        ensures
            d == self.discriminant(),
            Self::of_discriminant(d as nat) == Some(self),
    {
        match self {
            TypeSpecificAttrType::Class => 0,
            TypeSpecificAttrType::Struct => 1,
            TypeSpecificAttrType::Interface => 2,
        }
    }

    /// The variant that `d` stands for. Each of the 3 numbers from 0 on stands
    /// for one, and no other number does.
    pub fn try_from_primitive(d: u8) -> (found: Result<Self, Error>)
        ensures
            found is Ok <==> d < 3,
            match Self::of_discriminant(d as nat) {
                Some(v) => found == Ok::<Self, Error>(v) && v.discriminant() == d,
                None => found == Err::<Self, Error>(
                    Error::EnumOutOfBounds("TypeSpecificAttrType"),
                ),
            },
    {
        match d {
            0 => Ok(TypeSpecificAttrType::Class),
            1 => Ok(TypeSpecificAttrType::Struct),
            2 => Ok(TypeSpecificAttrType::Interface),
            _ => Err(Error::EnumOutOfBounds("TypeSpecificAttrType")),
        }
    }
}

/// A `TypeSpecificAttrType` is written as its discriminant in 1 byte.
impl WriteToFile for TypeSpecificAttrType {
    open spec fn wire(v: TypeSpecificAttrType, table: Table) -> Seq<u8> {
        le_bytes(v.discriminant(), 1)
    }

    open spec fn table_after(v: TypeSpecificAttrType, table: Table) -> Table {
        table
    }

    proof fn lemma_table_grows(v: TypeSpecificAttrType, table: Table) {
    }

    fn write_to_file(&self, file: &mut File) -> (done: Result<(), Error>) {
        write_fixed(file, self.to_primitive() as u128, 1);
        Ok(())
    }
}

impl ReadFromFile for TypeSpecificAttrType {
    open spec fn parse(table: Table, bytes: Seq<u8>, at: int) -> Result<
        (TypeSpecificAttrType, int),
        Error,
    > {
        match parse_fixed(bytes, at, 1) {
            Ok((n, next)) => match Self::of_discriminant(n) {
                Some(v) => Ok((v, next)),
                None => Err(Error::EnumOutOfBounds("TypeSpecificAttrType")),
            },
            Err(e) => Err(e),
        }
    }

    fn read_from_file(file: &mut File) -> (value: Result<Self, Error>) {
        let ghost start = file@.cursor as int;
        match read_fixed(file, 1) {
            Ok(raw) => {
                proof {
                    lemma_le_value_bound(file@.bytes.subrange(start, start + 1));
                    lemma_pow256_values();
                }
                Self::try_from_primitive(raw as u8)
            },
            Err(e) => Err(e),
        }
    }
}

impl Codec for TypeSpecificAttrType {
    open spec fn valid(v: TypeSpecificAttrType) -> bool {
        true
    }

    proof fn lemma_decode(
        v: TypeSpecificAttrType,
        table: Table,
        final_table: Table,
        bytes: Seq<u8>,
        at: int,
    ) {
        lemma_pow256_values();
        lemma_decode_fixed(v.discriminant(), 1, bytes, at);
    }
}

/// The implementation flags of a type, by the kind of the type.
#[derive(Clone, Copy, Debug, PartialEq, Eq)]
#[allow(inconsistent_fields)]
pub enum TypeSpecificAttr {
    /// The flags of a class.
    Class(ClassImplementationFlags),
    /// The flags of a struct.
    Struct(StructImplementationFlags),
    /// The flags of an interface.
    Interface(InterfaceImplementationFlags),
}

/// What a [`TypeSpecificAttr`] holds.
#[allow(inconsistent_fields)]
pub enum TypeSpecificAttrView {
    Class(u16),
    Struct(u16),
    Interface(u16),
}

impl DeepView for TypeSpecificAttr {
    type V = TypeSpecificAttrView;

    open spec fn deep_view(&self) -> TypeSpecificAttrView {
        match self {
            TypeSpecificAttr::Class(flags) => TypeSpecificAttrView::Class(flags.deep_view()),
            TypeSpecificAttr::Struct(flags) => TypeSpecificAttrView::Struct(flags.deep_view()),
            TypeSpecificAttr::Interface(flags) => {
                TypeSpecificAttrView::Interface(flags.deep_view())
            },
        }
    }
}

impl TypeSpecificAttrView {
    /// Which variant the value is.
    pub open spec fn kind(self) -> TypeSpecificAttrType {
        match self {
            TypeSpecificAttrView::Class(..) => TypeSpecificAttrType::Class,
            TypeSpecificAttrView::Struct(..) => TypeSpecificAttrType::Struct,
            TypeSpecificAttrView::Interface(..) => TypeSpecificAttrType::Interface,
        }
    }

    /// The bytes that the parts of the variant are written as.
    pub open spec fn parts_wire(self, table: Table) -> Seq<u8> {
        match self {
            TypeSpecificAttrView::Class(flags) => {
                <ClassImplementationFlags as WriteToFile>::wire(flags, table)
            },
            TypeSpecificAttrView::Struct(flags) => {
                <StructImplementationFlags as WriteToFile>::wire(flags, table)
            },
            TypeSpecificAttrView::Interface(flags) => {
                <InterfaceImplementationFlags as WriteToFile>::wire(flags, table)
            },
        }
    }

    /// The table after the parts of the variant have been written.
    pub open spec fn parts_table_after(self, table: Table) -> Table {
        match self {
            TypeSpecificAttrView::Class(flags) => {
                <ClassImplementationFlags as WriteToFile>::table_after(flags, table)
            },
            TypeSpecificAttrView::Struct(flags) => {
                <StructImplementationFlags as WriteToFile>::table_after(flags, table)
            },
            TypeSpecificAttrView::Interface(flags) => {
                <InterfaceImplementationFlags as WriteToFile>::table_after(flags, table)
            },
        }
    }

    /// Every part of the variant is one that its type's constructors can make.
    pub open spec fn parts_valid(self) -> bool {
        match self {
            TypeSpecificAttrView::Class(flags) => <ClassImplementationFlags as Codec>::valid(flags),
            TypeSpecificAttrView::Struct(flags) => {
                <StructImplementationFlags as Codec>::valid(flags)
            },
            TypeSpecificAttrView::Interface(flags) => {
                <InterfaceImplementationFlags as Codec>::valid(flags)
            },
        }
    }

    /// The value of the kind `kind` whose parts stand at position `at`, and the
    /// position behind them.
    pub open spec fn parse_parts(
        kind: TypeSpecificAttrType,
        table: Table,
        bytes: Seq<u8>,
        at: int,
    ) -> Result<(TypeSpecificAttrView, int), Error> {
        match kind {
            TypeSpecificAttrType::Class => match <ClassImplementationFlags as ReadFromFile>::parse(
                table,
                bytes,
                at,
            ) {
                Ok((flags, end)) => Ok((TypeSpecificAttrView::Class(flags), end)),
                Err(e) => Err(e),
            },
            TypeSpecificAttrType::Struct => {
                match <StructImplementationFlags as ReadFromFile>::parse(table, bytes, at) {
                    Ok((flags, end)) => Ok((TypeSpecificAttrView::Struct(flags), end)),
                    Err(e) => Err(e),
                }
            },
            TypeSpecificAttrType::Interface => {
                match <InterfaceImplementationFlags as ReadFromFile>::parse(table, bytes, at) {
                    Ok((flags, end)) => Ok((TypeSpecificAttrView::Interface(flags), end)),
                    Err(e) => Err(e),
                }
            },
        }
    }
}

impl TypeSpecificAttr {
    /// Which variant the value is.
    pub fn to_type(&self) -> (kind: TypeSpecificAttrType)
        ensures
            kind == self.deep_view().kind(),
    {
        match self {
            TypeSpecificAttr::Class(..) => TypeSpecificAttrType::Class,
            TypeSpecificAttr::Struct(..) => TypeSpecificAttrType::Struct,
            TypeSpecificAttr::Interface(..) => TypeSpecificAttrType::Interface,
        }
    }
}

/// A `TypeSpecificAttr` is written as its kind, then the parts of its variant in the order
/// of their declaration.
impl WriteToFile for TypeSpecificAttr {
    #[verifier::opaque]
    open spec fn wire(v: TypeSpecificAttrView, table: Table) -> Seq<u8> {
        <TypeSpecificAttrType as WriteToFile>::wire(v.kind(), table) + v.parts_wire(table)
    }

    #[verifier::opaque]
    open spec fn table_after(v: TypeSpecificAttrView, table: Table) -> Table {
        v.parts_table_after(table)
    }

    proof fn lemma_table_grows(v: TypeSpecificAttrView, table: Table) {
        reveal(<TypeSpecificAttr as WriteToFile>::table_after);
        match v {
            TypeSpecificAttrView::Class(flags) => {
                <ClassImplementationFlags as WriteToFile>::lemma_table_grows(flags, table);
            },
            TypeSpecificAttrView::Struct(flags) => {
                <StructImplementationFlags as WriteToFile>::lemma_table_grows(flags, table);
            },
            TypeSpecificAttrView::Interface(flags) => {
                <InterfaceImplementationFlags as WriteToFile>::lemma_table_grows(flags, table);
            },
        }
    }

    fn write_to_file(&self, file: &mut File) -> (done: Result<(), Error>) {
        proof {
            reveal(<TypeSpecificAttr as WriteToFile>::wire);
            reveal(<TypeSpecificAttr as WriteToFile>::table_after);
        }
        let ghost before = file@;
        match self.to_type().write_to_file(file) {
            Ok(_) => {},
            Err(e) => {
                return Err(e);
            },
        }
        let done = match self {
            TypeSpecificAttr::Class(flags) => flags.write_to_file(file),
            TypeSpecificAttr::Struct(flags) => flags.write_to_file(file),
            TypeSpecificAttr::Interface(flags) => flags.write_to_file(file),
        };
        proof {
            let v = self.deep_view();
            lemma_after_write_twice(
                before,
                <TypeSpecificAttrType as WriteToFile>::wire(v.kind(), before.strings),
                before.strings,
                v.parts_wire(before.strings),
                v.parts_table_after(before.strings),
            );
        }
        done
    }
}

impl ReadFromFile for TypeSpecificAttr {
    #[verifier::opaque]
    open spec fn parse(table: Table, bytes: Seq<u8>, at: int) -> Result<
        (TypeSpecificAttrView, int),
        Error,
    > {
        match <TypeSpecificAttrType as ReadFromFile>::parse(table, bytes, at) {
            Ok((kind, next)) => TypeSpecificAttrView::parse_parts(kind, table, bytes, next),
            Err(e) => Err(e),
        }
    }

    fn read_from_file(file: &mut File) -> (value: Result<Self, Error>) {
        proof {
            reveal(<TypeSpecificAttr as ReadFromFile>::parse);
        }
        match TypeSpecificAttrType::read_from_file(file) {
            Ok(kind) => match kind {
                TypeSpecificAttrType::Class => match <ClassImplementationFlags>::read_from_file(
                    file,
                ) {
                    Ok(flags) => Ok(TypeSpecificAttr::Class(flags)),
                    Err(e) => Err(e),
                },
                TypeSpecificAttrType::Struct => match <StructImplementationFlags>::read_from_file(
                    file,
                ) {
                    Ok(flags) => Ok(TypeSpecificAttr::Struct(flags)),
                    Err(e) => Err(e),
                },
                TypeSpecificAttrType::Interface => {
                    match <InterfaceImplementationFlags>::read_from_file(file) {
                        Ok(flags) => Ok(TypeSpecificAttr::Interface(flags)),
                        Err(e) => Err(e),
                    }
                },
            },
            Err(e) => Err(e),
        }
    }
}

impl Codec for TypeSpecificAttr {
    #[verifier::opaque]
    open spec fn valid(v: TypeSpecificAttrView) -> bool {
        v.parts_valid()
    }

    proof fn lemma_decode(
        v: TypeSpecificAttrView,
        table: Table,
        final_table: Table,
        bytes: Seq<u8>,
        at: int,
    ) {
        reveal(<TypeSpecificAttr as WriteToFile>::wire);
        reveal(<TypeSpecificAttr as WriteToFile>::table_after);
        reveal(<TypeSpecificAttr as ReadFromFile>::parse);
        reveal(<TypeSpecificAttr as Codec>::valid);
        let head = <TypeSpecificAttrType as WriteToFile>::wire(v.kind(), table);
        Self::lemma_table_grows(v, table);
        lemma_agrees_split(bytes, at, head, v.parts_wire(table));
        <TypeSpecificAttrType as Codec>::lemma_decode(v.kind(), table, final_table, bytes, at);
        if at + head.len() <= bytes.len() {
            let next = at + head.len();
            match v {
                TypeSpecificAttrView::Class(flags) => {
                    <ClassImplementationFlags as Codec>::lemma_decode(
                        flags,
                        table,
                        final_table,
                        bytes,
                        next,
                    );
                },
                TypeSpecificAttrView::Struct(flags) => {
                    <StructImplementationFlags as Codec>::lemma_decode(
                        flags,
                        table,
                        final_table,
                        bytes,
                        next,
                    );
                },
                TypeSpecificAttrView::Interface(flags) => {
                    <InterfaceImplementationFlags as Codec>::lemma_decode(
                        flags,
                        table,
                        final_table,
                        bytes,
                        next,
                    );
                },
            }
        }
    }
}

/// The attributes of a type.
#[derive(Clone, Copy, Debug, PartialEq, Eq)]
pub struct TypeAttr {
    vis: Visibility,
    specific: TypeSpecificAttr,
}

/// What a [`TypeAttr`] holds.
pub struct TypeAttrView {
    /// Who may see the type.
    pub vis: Visibility,
    /// How the type is implemented.
    pub specific: TypeSpecificAttrView,
}

/// The parts of a [`TypeAttr`] in the order in which they are written.
pub type TypeAttrParts = (Visibility, TypeSpecificAttr);

impl TypeAttrView {
    /// The parts in the order in which they are written.
    pub open spec fn parts(self) -> <TypeAttrParts as DeepView>::V {
        (self.vis, self.specific)
    }
}

impl DeepView for TypeAttr {
    type V = TypeAttrView;

    closed spec fn deep_view(&self) -> TypeAttrView {
        TypeAttrView {
            vis: self.vis.deep_view(),
            specific: self.specific.deep_view(),
        }
    }
}

impl TypeAttr {
    /// A value with the given parts.
    pub fn new(vis: Visibility, specific: TypeSpecificAttr) -> (made: Self)
        ensures
            made.deep_view() == (TypeAttrView {
                vis: vis.deep_view(),
                specific: specific.deep_view(),
            }),
    {
        TypeAttr { vis, specific }
    }

    /// Who may see the type.
    pub fn vis(&self) -> (part: Visibility)
        ensures
            part.deep_view() == self.deep_view().vis,
    {
        self.vis
    }

    /// How the type is implemented.
    pub fn specific(&self) -> (part: TypeSpecificAttr)
        ensures
            part.deep_view() == self.deep_view().specific,
    {
        self.specific
    }
}

/// A `TypeAttr` is written as its parts in the order of their declaration.
impl WriteToFile for TypeAttr {
    #[verifier::opaque]
    open spec fn wire(v: TypeAttrView, table: Table) -> Seq<u8> {
        <TypeAttrParts as WriteToFile>::wire(v.parts(), table)
    }

    #[verifier::opaque]
    open spec fn table_after(v: TypeAttrView, table: Table) -> Table {
        <TypeAttrParts as WriteToFile>::table_after(v.parts(), table)
    }

    proof fn lemma_table_grows(v: TypeAttrView, table: Table) {
        reveal(<TypeAttr as WriteToFile>::table_after);
        <TypeAttrParts as WriteToFile>::lemma_table_grows(v.parts(), table);
    }

    fn write_to_file(&self, file: &mut File) -> (done: Result<(), Error>) {
        proof {
            reveal(<TypeAttr as WriteToFile>::wire);
            reveal(<TypeAttr as WriteToFile>::table_after);
        }
        (&self.vis, &self.specific).write_to_file(file)
    }
}

impl ReadFromFile for TypeAttr {
    #[verifier::opaque]
    open spec fn parse(table: Table, bytes: Seq<u8>, at: int) -> Result<
        (TypeAttrView, int),
        Error,
    > {
        match <TypeAttrParts as ReadFromFile>::parse(table, bytes, at) {
            Ok(((vis, specific), next)) => Ok((TypeAttrView { vis, specific }, next)),
            Err(e) => Err(e),
        }
    }

    fn read_from_file(file: &mut File) -> (value: Result<Self, Error>) {
        proof {
            reveal(<TypeAttr as ReadFromFile>::parse);
        }
        match <TypeAttrParts>::read_from_file(file) {
            Ok((vis, specific)) => Ok(TypeAttr { vis, specific }),
            Err(e) => Err(e),
        }
    }
}

impl Codec for TypeAttr {
    #[verifier::opaque]
    open spec fn valid(v: TypeAttrView) -> bool {
        <TypeAttrParts as Codec>::valid(v.parts())
    }

    proof fn lemma_decode(
        v: TypeAttrView,
        table: Table,
        final_table: Table,
        bytes: Seq<u8>,
        at: int,
    ) {
        reveal(<TypeAttr as WriteToFile>::wire);
        reveal(<TypeAttr as WriteToFile>::table_after);
        reveal(<TypeAttr as ReadFromFile>::parse);
        reveal(<TypeAttr as Codec>::valid);
        <TypeAttrParts as Codec>::lemma_decode(v.parts(), table, final_table, bytes, at);
    }
}

/// The attributes of a method.
#[derive(Clone, Copy, Debug, PartialEq, Eq)]
pub struct MethodAttr {
    vis: Visibility,
    impl_flags: MethodImplementationFlags,
    register_len: u64,
}

/// What a [`MethodAttr`] holds.
pub struct MethodAttrView {
    /// Who may see the method.
    pub vis: Visibility,
    /// How the method is implemented.
    pub impl_flags: u16,
    /// How many registers the method uses at most.
    pub register_len: u64,
}

/// The parts of a [`MethodAttr`] in the order in which they are written.
pub type MethodAttrParts = (Visibility, (MethodImplementationFlags, u64));

impl MethodAttrView {
    /// The parts in the order in which they are written.
    pub open spec fn parts(self) -> <MethodAttrParts as DeepView>::V {
        (self.vis, (self.impl_flags, self.register_len))
    }
}

impl DeepView for MethodAttr {
    type V = MethodAttrView;

    closed spec fn deep_view(&self) -> MethodAttrView {
        MethodAttrView {
            vis: self.vis.deep_view(),
            impl_flags: self.impl_flags.deep_view(),
            register_len: self.register_len.deep_view(),
        }
    }
}

impl MethodAttr {
    /// A value with the given parts.
    pub fn new(
        vis: Visibility,
        impl_flags: MethodImplementationFlags,
        register_len: u64,
    ) -> (made: Self)
        ensures
            made.deep_view() == (MethodAttrView {
                vis: vis.deep_view(),
                impl_flags: impl_flags.deep_view(),
                register_len: register_len.deep_view(),
            }),
    {
        MethodAttr { vis, impl_flags, register_len }
    }

    /// Who may see the method.
    pub fn vis(&self) -> (part: Visibility)
        ensures
            part.deep_view() == self.deep_view().vis,
    {
        self.vis
    }

    /// How the method is implemented.
    pub fn impl_flags(&self) -> (part: MethodImplementationFlags)
        ensures
            part.deep_view() == self.deep_view().impl_flags,
    {
        self.impl_flags
    }

    /// How many registers the method uses at most.
    pub fn register_len(&self) -> (part: u64)
        ensures
            part.deep_view() == self.deep_view().register_len,
    {
        self.register_len
    }
}

/// A `MethodAttr` is written as its parts in the order of their declaration.
impl WriteToFile for MethodAttr {
    #[verifier::opaque]
    open spec fn wire(v: MethodAttrView, table: Table) -> Seq<u8> {
        <MethodAttrParts as WriteToFile>::wire(v.parts(), table)
    }

    #[verifier::opaque]
    open spec fn table_after(v: MethodAttrView, table: Table) -> Table {
        <MethodAttrParts as WriteToFile>::table_after(v.parts(), table)
    }

    proof fn lemma_table_grows(v: MethodAttrView, table: Table) {
        reveal(<MethodAttr as WriteToFile>::table_after);
        <MethodAttrParts as WriteToFile>::lemma_table_grows(v.parts(), table);
    }

    fn write_to_file(&self, file: &mut File) -> (done: Result<(), Error>) {
        proof {
            reveal(<MethodAttr as WriteToFile>::wire);
            reveal(<MethodAttr as WriteToFile>::table_after);
        }
        (&self.vis, (&self.impl_flags, &self.register_len)).write_to_file(file)
    }
}

impl ReadFromFile for MethodAttr {
    #[verifier::opaque]
    open spec fn parse(table: Table, bytes: Seq<u8>, at: int) -> Result<
        (MethodAttrView, int),
        Error,
    > {
        match <MethodAttrParts as ReadFromFile>::parse(table, bytes, at) {
            Ok(((vis, (impl_flags, register_len)), next)) => Ok(
                (MethodAttrView { vis, impl_flags, register_len }, next),
            ),
            Err(e) => Err(e),
        }
    }

    fn read_from_file(file: &mut File) -> (value: Result<Self, Error>) {
        proof {
            reveal(<MethodAttr as ReadFromFile>::parse);
        }
        match <MethodAttrParts>::read_from_file(file) {
            Ok((vis, (impl_flags, register_len))) => Ok(
                MethodAttr { vis, impl_flags, register_len },
            ),
            Err(e) => Err(e),
        }
    }
}

impl Codec for MethodAttr {
    #[verifier::opaque]
    open spec fn valid(v: MethodAttrView) -> bool {
        <MethodAttrParts as Codec>::valid(v.parts())
    }

    proof fn lemma_decode(
        v: MethodAttrView,
        table: Table,
        final_table: Table,
        bytes: Seq<u8>,
        at: int,
    ) {
        reveal(<MethodAttr as WriteToFile>::wire);
        reveal(<MethodAttr as WriteToFile>::table_after);
        reveal(<MethodAttr as ReadFromFile>::parse);
        reveal(<MethodAttr as Codec>::valid);
        <MethodAttrParts as Codec>::lemma_decode(v.parts(), table, final_table, bytes, at);
    }
}

/// The attributes of a field.
#[derive(Clone, Copy, Debug, PartialEq, Eq)]
pub struct FieldAttr {
    vis: Visibility,
    impl_flags: FieldImplementationFlags,
}

/// What a [`FieldAttr`] holds.
pub struct FieldAttrView {
    /// Who may see the field.
    pub vis: Visibility,
    /// How the field is implemented.
    pub impl_flags: u16,
}

/// The parts of a [`FieldAttr`] in the order in which they are written.
pub type FieldAttrParts = (Visibility, FieldImplementationFlags);

impl FieldAttrView {
    /// The parts in the order in which they are written.
    pub open spec fn parts(self) -> <FieldAttrParts as DeepView>::V {
        (self.vis, self.impl_flags)
    }
}

impl DeepView for FieldAttr {
    type V = FieldAttrView;

    closed spec fn deep_view(&self) -> FieldAttrView {
        FieldAttrView {
            vis: self.vis.deep_view(),
            impl_flags: self.impl_flags.deep_view(),
        }
    }
}

impl FieldAttr {
    /// A value with the given parts.
    pub fn new(vis: Visibility, impl_flags: FieldImplementationFlags) -> (made: Self)
        ensures
            made.deep_view() == (FieldAttrView {
                vis: vis.deep_view(),
                impl_flags: impl_flags.deep_view(),
            }),
    {
        FieldAttr { vis, impl_flags }
    }

    /// Who may see the field.
    pub fn vis(&self) -> (part: Visibility)
        ensures
            part.deep_view() == self.deep_view().vis,
    {
        self.vis
    }

    /// How the field is implemented.
    pub fn impl_flags(&self) -> (part: FieldImplementationFlags)
        ensures
            part.deep_view() == self.deep_view().impl_flags,
    {
        self.impl_flags
    }
}

/// A `FieldAttr` is written as its parts in the order of their declaration.
impl WriteToFile for FieldAttr {
    #[verifier::opaque]
    open spec fn wire(v: FieldAttrView, table: Table) -> Seq<u8> {
        <FieldAttrParts as WriteToFile>::wire(v.parts(), table)
    }

    #[verifier::opaque]
    open spec fn table_after(v: FieldAttrView, table: Table) -> Table {
        <FieldAttrParts as WriteToFile>::table_after(v.parts(), table)
    }

    proof fn lemma_table_grows(v: FieldAttrView, table: Table) {
        reveal(<FieldAttr as WriteToFile>::table_after);
        <FieldAttrParts as WriteToFile>::lemma_table_grows(v.parts(), table);
    }

    fn write_to_file(&self, file: &mut File) -> (done: Result<(), Error>) {
        proof {
            reveal(<FieldAttr as WriteToFile>::wire);
            reveal(<FieldAttr as WriteToFile>::table_after);
        }
        (&self.vis, &self.impl_flags).write_to_file(file)
    }
}

impl ReadFromFile for FieldAttr {
    #[verifier::opaque]
    open spec fn parse(table: Table, bytes: Seq<u8>, at: int) -> Result<
        (FieldAttrView, int),
        Error,
    > {
        match <FieldAttrParts as ReadFromFile>::parse(table, bytes, at) {
            Ok(((vis, impl_flags), next)) => Ok((FieldAttrView { vis, impl_flags }, next)),
            Err(e) => Err(e),
        }
    }

    fn read_from_file(file: &mut File) -> (value: Result<Self, Error>) {
        proof {
            reveal(<FieldAttr as ReadFromFile>::parse);
        }
        match <FieldAttrParts>::read_from_file(file) {
            Ok((vis, impl_flags)) => Ok(FieldAttr { vis, impl_flags }),
            Err(e) => Err(e),
        }
    }
}

impl Codec for FieldAttr {
    #[verifier::opaque]
    open spec fn valid(v: FieldAttrView) -> bool {
        <FieldAttrParts as Codec>::valid(v.parts())
    }

    proof fn lemma_decode(
        v: FieldAttrView,
        table: Table,
        final_table: Table,
        bytes: Seq<u8>,
        at: int,
    ) {
        reveal(<FieldAttr as WriteToFile>::wire);
        reveal(<FieldAttr as WriteToFile>::table_after);
        reveal(<FieldAttr as ReadFromFile>::parse);
        reveal(<FieldAttr as Codec>::valid);
        <FieldAttrParts as Codec>::lemma_decode(v.parts(), table, final_table, bytes, at);
    }
}

} // verus!
