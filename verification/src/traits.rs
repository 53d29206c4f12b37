//! Writing values into a file and reading them back.
//!
//! Each type that can stand in a file says, over its deep view, which bytes
//! a value is written as, what writing it does to the string table, and
//! which value a reader finds at a position of a payload. The executable
//! functions are proved against those statements, and [`Codec`] proves that
//! a reader finds what a writer wrote.

use crate::bytes::{
    agrees, le_bytes, le_value, lemma_agrees_whole, lemma_le_round_trip, pow256, written,
};
use crate::error::Error;
use crate::file::{
    decode_le, encode_le, file_bytes, file_of_bytes, lemma_file_round_trip, File, FileView,
};
use crate::interner::{table_bytes, table_extends, table_nul_free, table_wf, Table};
use vstd::prelude::*;

verus! {

/// A value that can be written into a file.
pub trait WriteToFile: DeepView {
    /// The bytes that `v` is written as when the string table is `table`.
    spec fn wire(v: Self::V, table: Table) -> Seq<u8>;

    /// The string table after `v` has been written, when it was `table` before.
    spec fn table_after(v: Self::V, table: Table) -> Table;

    /// Writing only ever adds to the end of the table, and keeps it well formed.
    proof fn lemma_table_grows(v: Self::V, table: Table)
        requires
            table_wf(table),
        ensures
            table_wf(Self::table_after(v, table)),
            table_extends(Self::table_after(v, table), table),
    ;

    /// Writes the value at the cursor of `file` and takes its strings into
    /// the table of `file`.
    fn write_to_file(&self, file: &mut File) -> (done: Result<(), Error>)
        ensures
            done is Ok,
            final(file)@ == old(file)@.after_write(
                Self::wire(self.deep_view(), old(file)@.strings),
                Self::table_after(self.deep_view(), old(file)@.strings),
            ),
    ;
}

/// A value that can be read from a file.
pub trait ReadFromFile: DeepView + Sized {
    /// The value that stands at position `at` of `bytes` and the position
    /// behind it, or the reason why none stands there, when the string table
    /// is `table`.
    spec fn parse(table: Table, bytes: Seq<u8>, at: int) -> Result<(Self::V, int), Error>;

    /// Reads a value at the cursor of `file` and moves the cursor behind it.
    fn read_from_file(file: &mut File) -> (value: Result<Self, Error>)
        ensures
            reads(
                old(file)@,
                final(file)@,
                value,
                Self::parse(old(file)@.strings, old(file)@.bytes, old(file)@.cursor as int),
            ),
    ;
}

/// What a read leaves behind: table and payload as they were, and either
/// the expected value with the cursor behind it, or the expected error.
pub open spec fn reads<T: DeepView>(
    before: FileView,
    after: FileView,
    got: Result<T, Error>,
    expected: Result<(T::V, int), Error>,
) -> bool {
    &&& after.strings == before.strings
    &&& after.bytes == before.bytes
    &&& match expected {
        Ok((v, next)) => got is Ok && got->Ok_0.deep_view() == v && after.cursor == next,
        Err(e) => got is Err && got->Err_0 == e,
    }
}

/// What a reader finds where `width` bytes of a value `v` were written at
/// `at` and `available` bytes are there in all: the value, or, where the
/// bytes end before the value does, a short read.
pub open spec fn decoded<V>(v: V, at: int, width: nat, available: nat) -> Result<(V, int), Error> {
    if at + width <= available {
        Ok((v, at + width))
    } else {
        Err(Error::ShortRead)
    }
}

/// A type whose reader finds what its writer wrote.
pub trait Codec: WriteToFile + ReadFromFile {
    /// The values that the type's own constructors can make.
    spec fn valid(v: Self::V) -> bool;

    /// Where `bytes` holds from `at` on what `v` was written as, as far as
    /// `bytes` reaches, a reader at `at` finds `v` and stops behind it; where
    /// `bytes` ends before that, it reports a short read. The reader may use
    /// any table that extends the one that the writer left.
    proof fn lemma_decode(v: Self::V, table: Table, final_table: Table, bytes: Seq<u8>, at: int)
        requires
            Self::valid(v),
            table_wf(table),
            table_extends(final_table, Self::table_after(v, table)),
            final_table.len() <= u64::MAX,
            0 <= at <= bytes.len(),
            agrees(bytes, at, Self::wire(v, table)),
        ensures
            Self::parse(final_table, bytes, at) == decoded(
                v,
                at,
                Self::wire(v, table).len(),
                bytes.len(),
            ),
    ;
}

/// The number that the `width` bytes at position `at` spell, and the
/// position behind them.
pub open spec fn parse_fixed(bytes: Seq<u8>, at: int, width: nat) -> Result<(nat, int), Error> {
    if 0 <= at && at + width <= bytes.len() {
        Ok((le_value(bytes.subrange(at, at + width)), at + width))
    } else {
        Err(Error::ShortRead)
    }
}

/// A number of `width` bytes that was written is found again.
pub proof fn lemma_decode_fixed(value: nat, width: nat, bytes: Seq<u8>, at: int)
    requires
        value < pow256(width),
        0 <= at <= bytes.len(),
        agrees(bytes, at, le_bytes(value, width)),
    ensures
        parse_fixed(bytes, at, width) == decoded(value, at, width, bytes.len()),
        le_bytes(value, width).len() == width,
{
    lemma_le_round_trip(value, width);
    if at + width <= bytes.len() {
        lemma_agrees_whole(bytes, at, le_bytes(value, width));
    }
}

/// Writes the `width` low bytes of `value` at the cursor.
pub(crate) fn write_fixed(file: &mut File, value: u128, width: usize)
    ensures
        final(file)@ == old(file)@.after_write(
            le_bytes(value as nat, width as nat),
            old(file)@.strings,
        ),
{
    let bytes = encode_le(value, width);
    file.writer().write_all(bytes.as_slice());
}

/// Reads the number that the `width` bytes at the cursor spell.
pub(crate) fn read_fixed(file: &mut File, width: usize) -> (value: Result<u128, Error>)
    requires
        width <= 16,
    ensures
        final(file)@.strings == old(file)@.strings,
        final(file)@.bytes == old(file)@.bytes,
        match parse_fixed(old(file)@.bytes, old(file)@.cursor as int, width as nat) {
            Ok((n, next)) => value == Ok::<u128, Error>(n as u128) && n <= u128::MAX
                && final(file)@.cursor == next,
            Err(e) => value == Err::<u128, Error>(e),
        },
{
    match file.reader().read_exact(width) {
        Ok(bytes) => {
            let value = decode_le(bytes.as_slice());
            Ok(value)
        },
        Err(e) => Err(e),
    }
}

/// The table of a file that nothing has been written into yet.
pub open spec fn fresh_table() -> Table {
    seq![Seq::<char>::empty()]
}

/// The bytes of the file that holds the value `v` and nothing else.
pub open spec fn file_bytes_of<T: WriteToFile>(v: T::V) -> Seq<u8> {
    file_bytes(T::table_after(v, fresh_table()), T::wire(v, fresh_table()))
}

/// The value that stands at the start of the payload of the file that
/// `bytes` hold.
pub open spec fn value_of_file_bytes<T: ReadFromFile>(bytes: Seq<u8>) -> Result<T::V, Error> {
    match file_of_bytes(bytes) {
        Ok(file) => match T::parse(file.strings, file.bytes, 0) {
            Ok((v, next)) => Ok(v),
            Err(e) => Err(e),
        },
        Err(e) => Err(e),
    }
}

/// A value that a file can hold: one that the constructors of its type can
/// make, with no zero character in any of its strings, and with a string table
/// that fits the widths of the file's counts.
pub open spec fn storable<T: Codec>(v: T::V) -> bool {
    let strings = T::table_after(v, fresh_table());
    &&& T::valid(v)
    &&& table_nul_free(strings)
    &&& strings.len() <= u64::MAX
    &&& table_bytes(strings).len() < pow256(8)
}

/// The bytes of the file that holds `value` and nothing else.
pub fn encode<T: WriteToFile>(value: &T) -> (bytes: Result<Vec<u8>, Error>)
    ensures
        bytes is Ok,
        bytes->Ok_0@ == file_bytes_of::<T>(value.deep_view()),
{
    let mut file = File::default();
    match value.write_to_file(&mut file) {
        Ok(_) => {},
        Err(e) => {
            return Err(e);
        },
    }
    proof {
        let wire = T::wire(value.deep_view(), fresh_table());
        assert(written(Seq::<u8>::empty(), 0, wire) =~= wire);
    }
    file.to_bytes()
}

/// The value that stands at the start of the payload of the file that
/// `bytes` hold. What follows the value in the payload is not looked at.
pub fn decode<T: ReadFromFile>(bytes: &[u8]) -> (value: Result<T, Error>)
    ensures
        match value_of_file_bytes::<T>(bytes@) {
            Ok(v) => value is Ok && value->Ok_0.deep_view() == v,
            Err(e) => value is Err && value->Err_0 == e,
        },
{
    match File::new(bytes) {
        Ok(file) => {
            let mut file = file;
            T::read_from_file(&mut file)
        },
        Err(e) => Err(e),
    }
}

/// Reading back the bytes that a value was written as gives the value.
pub proof fn lemma_round_trip<T: Codec>(v: T::V)
    requires
        storable::<T>(v),
    ensures
        value_of_file_bytes::<T>(file_bytes_of::<T>(v)) == Ok::<T::V, Error>(v),
{
    let start = fresh_table();
    let strings = T::table_after(v, start);
    let wire = T::wire(v, start);
    T::lemma_table_grows(v, start);
    lemma_file_round_trip(strings, wire);
    T::lemma_decode(v, start, strings, wire, 0);
}

/// Where the payload of a value's file is cut short, by its last byte or
/// by more, reading the file reports a short read: it never gives a value.
pub proof fn lemma_truncated<T: Codec>(v: T::V, keep: nat)
    requires
        storable::<T>(v),
        keep < T::wire(v, fresh_table()).len(),
    ensures
        value_of_file_bytes::<T>(
            file_bytes(
                T::table_after(v, fresh_table()),
                T::wire(v, fresh_table()).take(keep as int),
            ),
        ) == Err::<T::V, Error>(Error::ShortRead),
        keep + 1 == T::wire(v, fresh_table()).len() ==> value_of_file_bytes::<T>(
            file_bytes_of::<T>(v).drop_last(),
        ) == Err::<T::V, Error>(Error::ShortRead),
{
    let start = fresh_table();
    let strings = T::table_after(v, start);
    let wire = T::wire(v, start);
    let kept = wire.take(keep as int);
    T::lemma_table_grows(v, start);
    lemma_file_round_trip(strings, kept);
    T::lemma_decode(v, start, strings, kept, 0);
    if keep + 1 == wire.len() {
        assert(file_bytes_of::<T>(v).drop_last() =~= file_bytes(strings, kept));
    }
}

} // verus!
