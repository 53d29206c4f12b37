//! Strings, optional values and sequences.

use crate::bytes::{
    agrees, le_bytes, lemma_agrees_split, lemma_le_bytes_byte, lemma_le_value_bound,
    lemma_pow256_values,
};
use crate::error::Error;
use crate::file::{lemma_after_write_twice, File};
use crate::interner::{
    intern, lemma_intern_extends, lemma_position_in_bounds, position_in, table_extends, table_wf,
    Table,
};
use crate::traits::{
    decoded, lemma_decode_fixed, parse_fixed, read_fixed, write_fixed, Codec, ReadFromFile,
    WriteToFile,
};
use vstd::prelude::*;

verus! {

/// A string slice is written as its position in the string table, in eight
/// bytes; the table takes it in where it does not hold it yet.
impl WriteToFile for str {
    open spec fn wire(v: Seq<char>, table: Table) -> Seq<u8> {
        le_bytes(position_in(table, v) as nat, 8)
    }

    open spec fn table_after(v: Seq<char>, table: Table) -> Table {
        intern(table, v)
    }

    proof fn lemma_table_grows(v: Seq<char>, table: Table) {
        lemma_intern_extends(table, v);
    }

    fn write_to_file(&self, file: &mut File) -> (done: Result<(), Error>) {
        proof {
            lemma_position_in_bounds(file@.strings, self@);
        }
        match file.string_position_of(self) {
            Ok(position) => {
                write_fixed(file, position as u128, 8);
                Ok(())
            },
            Err(e) => Err(e),
        }
    }
}

/// A string is written as the slice that it holds.
impl WriteToFile for String {
    open spec fn wire(v: Seq<char>, table: Table) -> Seq<u8> {
        <str as WriteToFile>::wire(v, table)
    }

    open spec fn table_after(v: Seq<char>, table: Table) -> Table {
        <str as WriteToFile>::table_after(v, table)
    }

    proof fn lemma_table_grows(v: Seq<char>, table: Table) {
        <str as WriteToFile>::lemma_table_grows(v, table);
    }

    fn write_to_file(&self, file: &mut File) -> (done: Result<(), Error>) {
        self.as_str().write_to_file(file)
    }
}

/// A string is read as a position of eight bytes and looked up in the table.
impl ReadFromFile for String {
    open spec fn parse(table: Table, bytes: Seq<u8>, at: int) -> Result<(Seq<char>, int), Error> {
        match parse_fixed(bytes, at, 8) {
            Ok((n, next)) => if n < table.len() {
                Ok((table[n as int], next))
            } else {
                Err(Error::StringNotFound { index: n as u64 })
            },
            Err(e) => Err(e),
        }
    }

    fn read_from_file(file: &mut File) -> (value: Result<Self, Error>) {
        let ghost start = file@.cursor as int;
        match read_fixed(file, 8) {
            Ok(raw) => {
                proof {
                    lemma_le_value_bound(file@.bytes.subrange(start, start + 8));
                    lemma_pow256_values();
                }
                match file.get_string(raw as u64) {
                    Ok(found) => Ok(found.to_owned()),
                    Err(e) => Err(e),
                }
            },
            Err(e) => Err(e),
        }
    }
}

impl Codec for String {
    open spec fn valid(v: Seq<char>) -> bool {
        true
    }

    proof fn lemma_decode(
        v: Seq<char>,
        table: Table,
        final_table: Table,
        bytes: Seq<u8>,
        at: int,
    ) {
        lemma_pow256_values();
        lemma_position_in_bounds(table, v);
        lemma_intern_extends(table, v);
        lemma_decode_fixed(position_in(table, v) as nat, 8, bytes, at);
    }
}

/// An optional value is written as one byte, 1 where the value is there
/// and 0 where it is not, and behind a 1 the value.
impl<T: WriteToFile> WriteToFile for Option<T> {
    open spec fn wire(v: Option<T::V>, table: Table) -> Seq<u8> {
        match v {
            Some(inner) => seq![1u8] + T::wire(inner, table),
            None => seq![0u8],
        }
    }

    open spec fn table_after(v: Option<T::V>, table: Table) -> Table {
        match v {
            Some(inner) => T::table_after(inner, table),
            None => table,
        }
    }

    proof fn lemma_table_grows(v: Option<T::V>, table: Table) {
        if let Some(inner) = v {
            T::lemma_table_grows(inner, table);
        }
    }

    fn write_to_file(&self, file: &mut File) -> (done: Result<(), Error>) {
        let ghost before = file@;
        match self {
            Some(inner) => {
                write_fixed(file, 1u128, 1);
                let done = inner.write_to_file(file);
                proof {
                    lemma_le_bytes_byte(1u8);
                    lemma_after_write_twice(
                        before,
                        seq![1u8],
                        before.strings,
                        T::wire(inner.deep_view(), before.strings),
                        T::table_after(inner.deep_view(), before.strings),
                    );
                }
                done
            },
            None => {
                write_fixed(file, 0u128, 1);
                proof {
                    lemma_le_bytes_byte(0u8);
                }
                Ok(())
            },
        }
    }
}

impl<T: ReadFromFile> ReadFromFile for Option<T> {
    open spec fn parse(table: Table, bytes: Seq<u8>, at: int) -> Result<
        (Option<T::V>, int),
        Error,
    > {
        match parse_fixed(bytes, at, 1) {
            Ok((tag, next)) => if tag == 1 {
                match T::parse(table, bytes, next) {
                    Ok((inner, end)) => Ok((Some(inner), end)),
                    Err(e) => Err(e),
                }
            } else {
                Ok((None, next))
            },
            Err(e) => Err(e),
        }
    }

    fn read_from_file(file: &mut File) -> (value: Result<Self, Error>) {
        match read_fixed(file, 1) {
            Ok(tag) => {
                if tag == 1 {
                    match T::read_from_file(file) {
                        Ok(inner) => Ok(Some(inner)),
                        Err(e) => Err(e),
                    }
                } else {
                    Ok(None)
                }
            },
            Err(e) => Err(e),
        }
    }
}

impl<T: Codec> Codec for Option<T> {
    open spec fn valid(v: Option<T::V>) -> bool {
        match v {
            Some(inner) => T::valid(inner),
            None => true,
        }
    }

    proof fn lemma_decode(
        v: Option<T::V>,
        table: Table,
        final_table: Table,
        bytes: Seq<u8>,
        at: int,
    ) {
        lemma_pow256_values();
        match v {
            Some(inner) => {
                let rest = T::wire(inner, table);
                lemma_le_bytes_byte(1u8);
                lemma_agrees_split(bytes, at, seq![1u8], rest);
                lemma_decode_fixed(1, 1, bytes, at);
                if at + 1 <= bytes.len() {
                    T::lemma_decode(inner, table, final_table, bytes, at + 1);
                }
            },
            None => {
                lemma_le_bytes_byte(0u8);
                lemma_decode_fixed(0, 1, bytes, at);
            },
        }
    }
}

/// A reference is written as what it points to.
impl<'a, T: WriteToFile> WriteToFile for &'a T {
    open spec fn wire(v: T::V, table: Table) -> Seq<u8> {
        T::wire(v, table)
    }

    open spec fn table_after(v: T::V, table: Table) -> Table {
        T::table_after(v, table)
    }

    proof fn lemma_table_grows(v: T::V, table: Table) {
        T::lemma_table_grows(v, table);
    }

    fn write_to_file(&self, file: &mut File) -> (done: Result<(), Error>) {
        (*self).write_to_file(file)
    }
}

/// A pair is written as its first part, then its second.
impl<A: WriteToFile, B: WriteToFile> WriteToFile for (A, B) {
    open spec fn wire(v: (A::V, B::V), table: Table) -> Seq<u8> {
        A::wire(v.0, table) + B::wire(v.1, A::table_after(v.0, table))
    }

    open spec fn table_after(v: (A::V, B::V), table: Table) -> Table {
        B::table_after(v.1, A::table_after(v.0, table))
    }

    proof fn lemma_table_grows(v: (A::V, B::V), table: Table) {
        A::lemma_table_grows(v.0, table);
        B::lemma_table_grows(v.1, A::table_after(v.0, table));
    }

    fn write_to_file(&self, file: &mut File) -> (done: Result<(), Error>) {
        let ghost before = file@;
        match self.0.write_to_file(file) {
            Ok(_) => {},
            Err(e) => {
                return Err(e);
            },
        }
        let ghost between = file@.strings;
        let done = self.1.write_to_file(file);
        proof {
            lemma_after_write_twice(
                before,
                A::wire(self.0.deep_view(), before.strings),
                between,
                B::wire(self.1.deep_view(), between),
                file@.strings,
            );
        }
        done
    }
}

impl<A: ReadFromFile, B: ReadFromFile> ReadFromFile for (A, B) {
    open spec fn parse(table: Table, bytes: Seq<u8>, at: int) -> Result<
        ((A::V, B::V), int),
        Error,
    > {
        match A::parse(table, bytes, at) {
            Ok((first, next)) => match B::parse(table, bytes, next) {
                Ok((second, end)) => Ok(((first, second), end)),
                Err(e) => Err(e),
            },
            Err(e) => Err(e),
        }
    }

    fn read_from_file(file: &mut File) -> (value: Result<Self, Error>) {
        match A::read_from_file(file) {
            Ok(first) => match B::read_from_file(file) {
                Ok(second) => Ok((first, second)),
                Err(e) => Err(e),
            },
            Err(e) => Err(e),
        }
    }
}

impl<A: Codec, B: Codec> Codec for (A, B) {
    open spec fn valid(v: (A::V, B::V)) -> bool {
        A::valid(v.0) && B::valid(v.1)
    }

    proof fn lemma_decode(
        v: (A::V, B::V),
        table: Table,
        final_table: Table,
        bytes: Seq<u8>,
        at: int,
    ) {
        let first = A::wire(v.0, table);
        let between = A::table_after(v.0, table);
        let second = B::wire(v.1, between);
        assert(<(A, B) as Codec>::valid(v));
        lemma_agrees_split(bytes, at, first, second);
        A::lemma_table_grows(v.0, table);
        B::lemma_table_grows(v.1, between);
        A::lemma_decode(v.0, table, final_table, bytes, at);
        if at + first.len() <= bytes.len() {
            B::lemma_decode(v.1, between, final_table, bytes, at + first.len());
        }
    }
}

/// The bytes that the items of `items` from index `from` on are written as,
/// one behind the other, each with the table that the one before it left.
pub open spec fn wire_from<T: WriteToFile>(items: Seq<T::V>, from: int, table: Table) -> Seq<u8>
    decreases items.len() - from,
{
    if 0 <= from < items.len() {
        T::wire(items[from], table) + wire_from::<T>(
            items,
            from + 1,
            T::table_after(items[from], table),
        )
    } else {
        Seq::empty()
    }
}

/// The table after the items of `items` from index `from` on have been written.
pub open spec fn table_from<T: WriteToFile>(items: Seq<T::V>, from: int, table: Table) -> Table
    decreases items.len() - from,
{
    if 0 <= from < items.len() {
        table_from::<T>(items, from + 1, T::table_after(items[from], table))
    } else {
        table
    }
}

/// The `count` values that stand one behind the other from position `at`
/// on, behind the values of `found`, and the position behind the last.
pub open spec fn parse_items<T: ReadFromFile>(
    table: Table,
    bytes: Seq<u8>,
    at: int,
    count: nat,
    found: Seq<T::V>,
) -> Result<(Seq<T::V>, int), Error>
    decreases count,
{
    if count == 0 {
        Ok((found, at))
    } else {
        match T::parse(table, bytes, at) {
            Ok((item, next)) => parse_items::<T>(
                table,
                bytes,
                next,
                (count - 1) as nat,
                found.push(item),
            ),
            Err(e) => Err(e),
        }
    }
}

/// Every item is one that its type's constructors can make.
pub open spec fn all_valid<T: Codec>(items: Seq<T::V>) -> bool {
    forall|i: int| 0 <= i < items.len() ==> T::valid(#[trigger] items[i])
}

/// Writing items only ever adds to the end of the table, and keeps it well formed.
pub proof fn lemma_table_from_grows<T: WriteToFile>(items: Seq<T::V>, from: int, table: Table)
    requires
        table_wf(table),
        0 <= from,
    ensures
        table_wf(table_from::<T>(items, from, table)),
        table_extends(table_from::<T>(items, from, table), table),
    decreases items.len() - from,
{
    if from < items.len() {
        T::lemma_table_grows(items[from], table);
        lemma_table_from_grows::<T>(items, from + 1, T::table_after(items[from], table));
    }
}

/// Items that were written one behind the other are found again, in their
/// order; where the bytes end before the last of them does, the reader
/// reports a short read.
pub proof fn lemma_decode_items<T: Codec>(
    items: Seq<T::V>,
    from: int,
    table: Table,
    final_table: Table,
    bytes: Seq<u8>,
    at: int,
    found: Seq<T::V>,
)
    requires
        all_valid::<T>(items),
        0 <= from <= items.len(),
        table_wf(table),
        table_extends(final_table, table_from::<T>(items, from, table)),
        final_table.len() <= u64::MAX,
        0 <= at <= bytes.len(),
        agrees(bytes, at, wire_from::<T>(items, from, table)),
    ensures
        parse_items::<T>(final_table, bytes, at, (items.len() - from) as nat, found) == decoded(
            found + items.skip(from),
            at,
            wire_from::<T>(items, from, table).len(),
            bytes.len(),
        ),
    decreases items.len() - from,
{
    if from == items.len() {
        assert(found + items.skip(from) =~= found);
    } else {
        let item = items[from];
        let first = T::wire(item, table);
        let next_table = T::table_after(item, table);
        let rest = wire_from::<T>(items, from + 1, next_table);
        lemma_agrees_split(bytes, at, first, rest);
        T::lemma_table_grows(item, table);
        lemma_table_from_grows::<T>(items, from + 1, next_table);
        T::lemma_decode(item, table, final_table, bytes, at);
        if at + first.len() <= bytes.len() {
            lemma_decode_items::<T>(
                items,
                from + 1,
                next_table,
                final_table,
                bytes,
                at + first.len(),
                found.push(item),
            );
            assert(found.push(item) + items.skip(from + 1) =~= found + items.skip(from));
        }
    }
}

/// Writes the number of `items` in eight bytes, then the items in their order.
pub fn write_items<T: WriteToFile>(items: &[T], file: &mut File) -> (done: Result<(), Error>)
    ensures
        done is Ok,
        final(file)@ == old(file)@.after_write(
            le_bytes(items.deep_view().len(), 8) + wire_from::<T>(
                items.deep_view(),
                0,
                old(file)@.strings,
            ),
            table_from::<T>(items.deep_view(), 0, old(file)@.strings),
        ),
{
    let ghost before = file@;
    let ghost views = items.deep_view();
    let ghost head = le_bytes(views.len(), 8);
    let ghost body = Seq::<u8>::empty();
    write_fixed(file, items.len() as u128, 8);
    proof {
        assert(head + body =~= head);
    }
    let mut i: usize = 0;
    while i < items.len()
        invariant
            0 <= i <= items.len(),
            views == items.deep_view(),
            views.len() == items.len(),
            head == le_bytes(views.len(), 8),
            before == old(file)@,
            file@ == before.after_write(head + body, file@.strings),
            body + wire_from::<T>(views, i as int, file@.strings) == wire_from::<T>(
                views,
                0,
                before.strings,
            ),
            table_from::<T>(views, i as int, file@.strings) == table_from::<T>(
                views,
                0,
                before.strings,
            ),
        decreases items.len() - i,
    {
        let ghost table = file@.strings;
        let ghost item = views[i as int];
        match items[i].write_to_file(file) {
            Ok(_) => {},
            Err(e) => {
                return Err(e);
            },
        }
        proof {
            let piece = T::wire(item, table);
            lemma_after_write_twice(before, head + body, table, piece, file@.strings);
            assert(head + body + piece =~= head + (body + piece));
            assert(body + piece + wire_from::<T>(views, i + 1, file@.strings) =~= body + (piece
                + wire_from::<T>(views, i + 1, file@.strings)));
            body = body + piece;
        }
        i += 1;
    }
    proof {
        assert(wire_from::<T>(views, i as int, file@.strings) =~= Seq::<u8>::empty());
        assert(body + Seq::<u8>::empty() =~= body);
        assert(table_from::<T>(views, i as int, file@.strings) == file@.strings);
    }
    Ok(())
}

/// Reads `count` items that stand one behind the other at the cursor.
pub fn read_items<T: ReadFromFile>(file: &mut File, count: u64) -> (items: Result<Vec<T>, Error>)
    ensures
        final(file)@.strings == old(file)@.strings,
        final(file)@.bytes == old(file)@.bytes,
        match parse_items::<T>(
            old(file)@.strings,
            old(file)@.bytes,
            old(file)@.cursor as int,
            count as nat,
            Seq::empty(),
        ) {
            Ok((found, next)) => items is Ok && items->Ok_0.deep_view() == found
                && final(file)@.cursor == next,
            Err(e) => items is Err && items->Err_0 == e,
        },
{
    let ghost before = file@;
    let ghost expected = parse_items::<T>(
        before.strings,
        before.bytes,
        before.cursor as int,
        count as nat,
        Seq::empty(),
    );
    let mut items: Vec<T> = Vec::new();
    proof {
        assert(items.deep_view() =~= Seq::<T::V>::empty());
    }
    let mut i: u64 = 0;
    while i < count
        invariant
            0 <= i <= count,
            before == old(file)@,
            file@.strings == before.strings,
            file@.bytes == before.bytes,
            parse_items::<T>(
                before.strings,
                before.bytes,
                file@.cursor as int,
                (count - i) as nat,
                items.deep_view(),
            ) == expected,
            expected == parse_items::<T>(
                before.strings,
                before.bytes,
                before.cursor as int,
                count as nat,
                Seq::empty(),
            ),
        decreases count - i,
    {
        let ghost so_far = items.deep_view();
        match T::read_from_file(file) {
            Ok(item) => {
                items.push(item);
                proof {
                    assert(items.deep_view() =~= so_far.push(item.deep_view()));
                }
            },
            Err(e) => {
                return Err(e);
            },
        }
        i += 1;
    }
    Ok(items)
}

/// A sequence is written as the number of its items in eight bytes, then
/// the items in their order.
impl<T: WriteToFile> WriteToFile for Vec<T> {
    open spec fn wire(v: Seq<T::V>, table: Table) -> Seq<u8> {
        le_bytes(v.len(), 8) + wire_from::<T>(v, 0, table)
    }

    open spec fn table_after(v: Seq<T::V>, table: Table) -> Table {
        table_from::<T>(v, 0, table)
    }

    proof fn lemma_table_grows(v: Seq<T::V>, table: Table) {
        lemma_table_from_grows::<T>(v, 0, table);
    }

    fn write_to_file(&self, file: &mut File) -> (done: Result<(), Error>) {
        let ghost before = file@;
        let items = self.as_slice();
        proof {
            assert(items.deep_view() =~= self.deep_view());
        }
        let done = write_items(items, file);
        proof {
            let v = self.deep_view();
            assert(<Vec<T> as WriteToFile>::wire(v, before.strings) == le_bytes(v.len(), 8)
                + wire_from::<T>(v, 0, before.strings));
            assert(<Vec<T> as WriteToFile>::table_after(v, before.strings) == table_from::<T>(
                v,
                0,
                before.strings,
            ));
        }
        done
    }
}

impl<T: ReadFromFile> ReadFromFile for Vec<T> {
    open spec fn parse(table: Table, bytes: Seq<u8>, at: int) -> Result<(Seq<T::V>, int), Error> {
        match parse_fixed(bytes, at, 8) {
            Ok((count, next)) => parse_items::<T>(table, bytes, next, count, Seq::empty()),
            Err(e) => Err(e),
        }
    }

    fn read_from_file(file: &mut File) -> (value: Result<Self, Error>) {
        let ghost before = file@;
        match read_fixed(file, 8) {
            Ok(raw) => {
                proof {
                    lemma_le_value_bound(
                        before.bytes.subrange(before.cursor as int, before.cursor as int + 8),
                    );
                    lemma_pow256_values();
                }
                read_items(file, raw as u64)
            },
            Err(e) => Err(e),
        }
    }
}

impl<T: Codec> Codec for Vec<T> {
    open spec fn valid(v: Seq<T::V>) -> bool {
        v.len() <= u64::MAX && all_valid::<T>(v)
    }

    proof fn lemma_decode(
        v: Seq<T::V>,
        table: Table,
        final_table: Table,
        bytes: Seq<u8>,
        at: int,
    ) {
        let head = le_bytes(v.len(), 8);
        let body = wire_from::<T>(v, 0, table);
        lemma_pow256_values();
        lemma_agrees_split(bytes, at, head, body);
        lemma_decode_fixed(v.len(), 8, bytes, at);
        if at + 8 <= bytes.len() {
            lemma_decode_items::<T>(v, 0, table, final_table, bytes, at + 8, Seq::empty());
            assert(Seq::<T::V>::empty() + v.skip(0) =~= v);
        }
    }
}

/// `<[T; N]>::try_from` on a vector of `N` items: the array of the same
/// items in the same order.
#[verifier::external_body]
fn array_from_vec<T, const N: usize>(items: Vec<T>) -> (array: [T; N])
    requires
        items@.len() == N,
    ensures
        array@ == items@,
{
    <[T; N]>::try_from(items).ok().unwrap()
}

/// An array is written as a sequence is: the number of its items in eight
/// bytes, then the items in their order.
impl<T: WriteToFile, const N: usize> WriteToFile for [T; N] {
    open spec fn wire(v: Seq<T::V>, table: Table) -> Seq<u8> {
        le_bytes(v.len(), 8) + wire_from::<T>(v, 0, table)
    }

    open spec fn table_after(v: Seq<T::V>, table: Table) -> Table {
        table_from::<T>(v, 0, table)
    }

    proof fn lemma_table_grows(v: Seq<T::V>, table: Table) {
        lemma_table_from_grows::<T>(v, 0, table);
    }

    fn write_to_file(&self, file: &mut File) -> (done: Result<(), Error>) {
        let ghost before = file@;
        let items = vstd::array::array_as_slice(self);
        proof {
            assert(items.deep_view() =~= self.deep_view());
        }
        let done = write_items(items, file);
        proof {
            let v = self.deep_view();
            assert(<[T; N] as WriteToFile>::wire(v, before.strings) == le_bytes(v.len(), 8)
                + wire_from::<T>(v, 0, before.strings));
            assert(<[T; N] as WriteToFile>::table_after(v, before.strings) == table_from::<T>(
                v,
                0,
                before.strings,
            ));
        }
        done
    }
}

/// An array is read as a sequence of as many items as the array has; any
/// other number in front of the items is the wrong format.
impl<T: ReadFromFile, const N: usize> ReadFromFile for [T; N] {
    open spec fn parse(table: Table, bytes: Seq<u8>, at: int) -> Result<(Seq<T::V>, int), Error> {
        match parse_fixed(bytes, at, 8) {
            Ok((count, next)) => if count == N {
                parse_items::<T>(table, bytes, next, count, Seq::empty())
            } else {
                Err(Error::WrongFileFormat)
            },
            Err(e) => Err(e),
        }
    }

    fn read_from_file(file: &mut File) -> (value: Result<Self, Error>) {
        let ghost before = file@;
        match read_fixed(file, 8) {
            Ok(raw) => {
                proof {
                    lemma_le_value_bound(
                        before.bytes.subrange(before.cursor as int, before.cursor as int + 8),
                    );
                    lemma_pow256_values();
                }
                if raw != N as u128 {
                    return Err(Error::WrongFileFormat);
                }
                let ghost start = file@.cursor as int;
                match read_items::<T>(file, raw as u64) {
                    Ok(items) => {
                        proof {
                            lemma_parse_items_len::<T>(
                                before.strings,
                                before.bytes,
                                start,
                                N as nat,
                                Seq::empty(),
                            );
                        }
                        let array: [T; N] = array_from_vec(items);
                        proof {
                            assert(array.deep_view() =~= items.deep_view());
                        }
                        Ok(array)
                    },
                    Err(e) => Err(e),
                }
            },
            Err(e) => Err(e),
        }
    }
}

impl<T: Codec, const N: usize> Codec for [T; N] {
    open spec fn valid(v: Seq<T::V>) -> bool {
        v.len() == N && all_valid::<T>(v)
    }

    proof fn lemma_decode(
        v: Seq<T::V>,
        table: Table,
        final_table: Table,
        bytes: Seq<u8>,
        at: int,
    ) {
        let head = le_bytes(v.len(), 8);
        let body = wire_from::<T>(v, 0, table);
        lemma_pow256_values();
        lemma_agrees_split(bytes, at, head, body);
        lemma_decode_fixed(v.len(), 8, bytes, at);
        if at + 8 <= bytes.len() {
            lemma_decode_items::<T>(v, 0, table, final_table, bytes, at + 8, Seq::empty());
            assert(Seq::<T::V>::empty() + v.skip(0) =~= v);
        }
    }
}

/// Where `count` items are found, there are `count` more than there were.
pub proof fn lemma_parse_items_len<T: ReadFromFile>(
    table: Table,
    bytes: Seq<u8>,
    at: int,
    count: nat,
    found: Seq<T::V>,
)
    ensures
        parse_items::<T>(table, bytes, at, count, found) matches Ok((all, next)) ==> all.len()
            == found.len() + count,
    decreases count,
{
    if count > 0 {
        if let Ok((item, next)) = T::parse(table, bytes, at) {
            lemma_parse_items_len::<T>(table, bytes, next, (count - 1) as nat, found.push(item));
        }
    }
}

/// A sequence of any length, the empty one too, is read back with the same
/// number of items, each the one that was written at its place.
pub proof fn lemma_sequence_round_trip<T: Codec>(
    items: Seq<T::V>,
    table: Table,
    rest: Seq<u8>,
)
    requires
        <Vec<T> as Codec>::valid(items),
        table_wf(table),
        <Vec<T> as WriteToFile>::table_after(items, table).len() <= u64::MAX,
    ensures
        <Vec<T> as ReadFromFile>::parse(
            <Vec<T> as WriteToFile>::table_after(items, table),
            <Vec<T> as WriteToFile>::wire(items, table) + rest,
            0,
        ) matches Ok((found, next)) && found.len() == items.len() && found == items && next
            == <Vec<T> as WriteToFile>::wire(items, table).len(),
{
    let wire = <Vec<T> as WriteToFile>::wire(items, table);
    <Vec<T> as Codec>::lemma_decode(
        items,
        table,
        <Vec<T> as WriteToFile>::table_after(items, table),
        wire + rest,
        0,
    );
}

} // verus!
