//! A file in memory: its string table and its payload with a cursor.

use crate::bytes::{
    le_bytes, le_value, lemma_le_round_trip, lemma_le_value_bound, lemma_pow256_monotonic,
    lemma_pow256_values, lemma_written_twice, pow256, written, zeros,
};
use crate::error::Error;
use crate::interner::{
    intern, lemma_table_bytes_round_trip, position_in, table_bytes, table_nul_free,
    table_of_bytes, table_wf, StringInterner, Table,
};
use vstd::prelude::*;
use vstd::slice::slice_subrange;

verus! {

/// What a [`File`] holds.
pub struct FileView {
    /// The string table.
    pub strings: Table,
    /// The whole payload.
    pub bytes: Seq<u8>,
    /// Where in the payload the next read or write takes place.
    pub cursor: nat,
}

impl FileView {
    /// The file after `data` has been written at the cursor and the table
    /// has become `strings`.
    pub open spec fn after_write(self, data: Seq<u8>, strings: Table) -> FileView {
        FileView {
            strings,
            bytes: written(self.bytes, self.cursor, data),
            cursor: self.cursor + data.len(),
        }
    }

    /// The file with its cursor at `cursor`.
    pub open spec fn at(self, cursor: nat) -> FileView {
        FileView { strings: self.strings, bytes: self.bytes, cursor }
    }
}

/// Two writes in a row are one write of both pieces; the table is the one
/// that the second write leaves.
pub proof fn lemma_after_write_twice(
    file: FileView,
    first: Seq<u8>,
    between: Table,
    second: Seq<u8>,
    strings: Table,
)
    ensures
        file.after_write(first, between).after_write(second, strings) == file.after_write(
            first + second,
            strings,
        ),
{
    lemma_written_twice(file.bytes, file.cursor, first, second);
}

/// The bytes of a file on disk: the length of the table block in eight
/// bytes, the table block, the payload.
pub open spec fn file_bytes(strings: Table, payload: Seq<u8>) -> Seq<u8> {
    let block = table_bytes(strings);
    le_bytes(block.len(), 8) + block + payload
}

/// The file that bytes on disk hold, with its cursor at the start of the payload.
pub open spec fn file_of_bytes(bytes: Seq<u8>) -> Result<FileView, Error> {
    if bytes.len() < 8 {
        Err(Error::ShortRead)
    } else {
        let block_len = le_value(bytes.take(8));
        if 8 + block_len > bytes.len() {
            Err(Error::ShortRead)
        } else {
            Ok(
                FileView {
                    strings: table_of_bytes(bytes.subrange(8, 8 + block_len as int)),
                    bytes: bytes.skip(8 + block_len as int),
                    cursor: 0,
                },
            )
        }
    }
}

/// A file that was written is read back as it was, with its cursor at the
/// start, where no string of its table holds the zero character.
pub proof fn lemma_file_round_trip(strings: Table, payload: Seq<u8>)
    requires
        table_wf(strings),
        table_nul_free(strings),
        table_bytes(strings).len() < pow256(8),
    ensures
        file_of_bytes(file_bytes(strings, payload)) == Ok::<FileView, Error>(
            FileView { strings, bytes: payload, cursor: 0 },
        ),
{
    let block = table_bytes(strings);
    let all = file_bytes(strings, payload);
    lemma_le_round_trip(block.len(), 8);
    assert(all.take(8) =~= le_bytes(block.len(), 8));
    assert(all.subrange(8, 8 + block.len() as int) =~= block);
    assert(all.skip(8 + block.len() as int) =~= payload);
    lemma_table_bytes_round_trip(strings);
}

/// The number that at most sixteen bytes spell, least significant byte first.
pub(crate) fn decode_le(bytes: &[u8]) -> (value: u128)
    requires
        bytes@.len() <= 16,
    ensures
        value == le_value(bytes@),
{
    let mut value: u128 = 0;
    let mut i: usize = bytes.len();
    proof {
        assert(bytes@.skip(i as int) =~= Seq::<u8>::empty());
    }
    while i > 0
        invariant
            0 <= i <= bytes@.len() <= 16,
            value == le_value(bytes@.skip(i as int)),
        decreases i,
    {
        proof {
            let tail = bytes@.skip(i as int);
            let more = bytes@.skip(i - 1);
            lemma_le_value_bound(tail);
            lemma_pow256_monotonic(tail.len(), 15);
            reveal_with_fuel(pow256, 17);
            assert(more.drop_first() =~= tail);
            assert(more[0] == bytes@[i - 1]);
        }
        i -= 1;
        value = value * 256 + bytes[i] as u128;
    }
    proof {
        assert(bytes@.skip(0) =~= bytes@);
    }
    value
}

/// The `width` low bytes of `value`, least significant first.
pub(crate) fn encode_le(value: u128, width: usize) -> (bytes: Vec<u8>)
    ensures
        bytes@ == le_bytes(value as nat, width as nat),
{
    let mut out: Vec<u8> = Vec::new();
    let mut rest: u128 = value;
    let mut i: usize = 0;
    while i < width
        invariant
            0 <= i <= width,
            out@ + le_bytes(rest as nat, (width - i) as nat) == le_bytes(
                value as nat,
                width as nat,
            ),
        decreases width - i,
    {
        proof {
            let tail = le_bytes((rest / 256) as nat, (width - i - 1) as nat);
            assert(out@.push((rest % 256) as u8) + tail =~= out@ + (seq![(rest % 256) as u8]
                + tail));
        }
        out.push((rest % 256) as u8);
        rest = rest / 256;
        i += 1;
    }
    out
}

/// What a [`Cursor`] holds.
pub struct CursorView {
    /// All the bytes.
    pub bytes: Seq<u8>,
    /// Where the next read or write takes place.
    pub position: nat,
}

impl CursorView {
    /// The cursor after `data` has been written at its position.
    pub open spec fn after_write(self, data: Seq<u8>) -> CursorView {
        CursorView {
            bytes: written(self.bytes, self.position, data),
            position: self.position + data.len(),
        }
    }

    /// The cursor at `position`.
    pub open spec fn at(self, position: nat) -> CursorView {
        CursorView { bytes: self.bytes, position }
    }
}

/// Bytes in memory with a position at which they are read and written.
#[derive(Clone, Debug)]
pub struct Cursor {
    data: Vec<u8>,
    pos: usize,
}

impl View for Cursor {
    type V = CursorView;

    closed spec fn view(&self) -> CursorView {
        CursorView { bytes: self.data@, position: self.pos as nat }
    }
}

impl Cursor {
    /// A cursor at the start of `data`.
    pub fn new(data: Vec<u8>) -> (cursor: Self)
        ensures
            cursor@ == (CursorView { bytes: data@, position: 0 }),
    {
        Cursor { data, pos: 0 }
    }

    /// All the bytes, whatever the position.
    pub fn get_ref(&self) -> (bytes: &Vec<u8>)
        ensures
            bytes@ == self@.bytes,
    {
        &self.data
    }

    /// Where the next read or write takes place.
    pub fn position(&self) -> (position: usize)
        ensures
            position == self@.position,
    {
        self.pos
    }

    /// Moves the cursor.
    pub fn set_position(&mut self, position: usize)
        ensures
            final(self)@ == old(self)@.at(position as nat),
    {
        self.pos = position;
    }

    /// Writes `data` at the position and moves the position behind it.
    pub fn write_all(&mut self, data: &[u8])
        ensures
            final(self)@ == old(self)@.after_write(data@),
    {
        let ghost before = self.data@;
        let ghost start = self.pos as nat;
        while self.data.len() < self.pos
            invariant
                self.pos == start,
                before.len() <= self.data@.len() <= start || start <= before.len()
                    == self.data@.len(),
                self.data@ == before + zeros((self.data@.len() - before.len()) as nat),
            decreases self.pos - self.data.len(),
        {
            let ghost so_far = self.data@;
            self.data.push(0u8);
            assert(self.data@ =~= before + zeros((so_far.len() + 1 - before.len()) as nat));
        }
        assert(self.data@ =~= before + zeros((self.data@.len() - before.len()) as nat));
        let ghost padded = self.data@;
        let mut i: usize = 0;
        while i < data.len()
            invariant
                0 <= i <= data.len(),
                self.pos == start + i,
                self.pos <= self.data@.len(),
                start <= padded.len(),
                self.data@ == written(padded, start, data@.take(i as int)),
            decreases data.len() - i,
        {
            if self.pos < self.data.len() {
                self.data.set(self.pos, data[i]);
            } else {
                self.data.push(data[i]);
            }
            let len_now: usize = self.data.len();
            assert(self.pos < len_now);
            self.pos += 1;
            proof {
                assert(data@.take(i + 1) =~= data@.take(i as int).push(data@[i as int]));
                assert(self.data@ =~= written(padded, start, data@.take(i + 1)));
            }
            i += 1;
        }
        proof {
            assert(data@.take(i as int) =~= data@);
            assert(written(padded, start, data@) =~= written(before, start, data@));
        }
    }

    /// Reads `count` bytes at the position and moves the position behind
    /// them. Where fewer are left, nothing is read and the position goes to
    /// the end.
    pub fn read_exact(&mut self, count: usize) -> (data: Result<Vec<u8>, Error>)
        ensures
            old(self)@.position + count <= old(self)@.bytes.len() ==> data is Ok && data->Ok_0@
                == old(self)@.bytes.subrange(
                old(self)@.position as int,
                old(self)@.position + count,
            ) && final(self)@ == old(self)@.at(old(self)@.position + count as nat),
            old(self)@.position + count > old(self)@.bytes.len() ==> data == Err::<Vec<u8>, Error>(
                Error::ShortRead,
            ) && final(self)@ == old(self)@.at(old(self)@.bytes.len()),
    {
        if self.pos > self.data.len() || count > self.data.len() - self.pos {
            self.pos = self.data.len();
            return Err(Error::ShortRead);
        }
        let end: usize = self.pos + count;
        let out = vstd::slice::slice_to_vec(slice_subrange(self.data.as_slice(), self.pos, end));
        self.pos = end;
        Ok(out)
    }
}

/// A string table and a payload with a cursor, as one pass of reading or
/// writing uses them.
#[derive(Clone, Debug)]
pub struct File {
    interner: StringInterner,
    data: Cursor,
}

impl View for File {
    type V = FileView;

    closed spec fn view(&self) -> FileView {
        FileView { strings: self.interner@, bytes: self.data@.bytes, cursor: self.data@.position }
    }
}

impl File {
    /// The file that `bytes` hold.
    pub fn new(bytes: &[u8]) -> (file: Result<Self, Error>)
        ensures
            match file_of_bytes(bytes@) {
                Ok(view) => file is Ok && file->Ok_0@ == view && table_wf(view.strings),
                Err(e) => file is Err && file->Err_0 == e,
            },
    {
        if bytes.len() < 8 {
            return Err(Error::ShortRead);
        }
        let block_len = decode_le(slice_subrange(bytes, 0, 8));
        proof {
            lemma_le_value_bound(bytes@.take(8));
            lemma_pow256_values();
        }
        if block_len > (bytes.len() - 8) as u128 {
            return Err(Error::ShortRead);
        }
        let end: usize = 8 + block_len as usize;
        let interner = StringInterner::new(slice_subrange(bytes, 8, end));
        let data = vstd::slice::slice_to_vec(slice_subrange(bytes, end, bytes.len()));
        Ok(File { interner, data: Cursor::new(data) })
    }

    /// The bytes of the file on disk. The cursor plays no part in them.
    pub fn to_bytes(&self) -> (bytes: Result<Vec<u8>, Error>)
        ensures
            bytes is Ok,
            bytes->Ok_0@ == file_bytes(self@.strings, self@.bytes),
            table_bytes(self@.strings).len() < pow256(8),
    {
        let block = self.interner.to_bytes();
        proof {
            lemma_pow256_values();
        }
        let mut out = encode_le(block.len() as u128, 8);
        out.extend_from_slice(block.as_slice());
        out.extend_from_slice(self.data.get_ref().as_slice());
        assert(out@ =~= file_bytes(self@.strings, self@.bytes));
        Ok(out)
    }

    /// The payload with its cursor, for writing.
    pub fn writer(&mut self) -> (cursor: &mut Cursor)
        ensures
            cursor@ == (CursorView { bytes: old(self)@.bytes, position: old(self)@.cursor }),
            final(self)@ == (FileView {
                strings: old(self)@.strings,
                bytes: final(cursor)@.bytes,
                cursor: final(cursor)@.position,
            }),
    {
        &mut self.data
    }

    /// The payload with its cursor, for reading.
    pub fn reader(&mut self) -> (cursor: &mut Cursor)
        ensures
            cursor@ == (CursorView { bytes: old(self)@.bytes, position: old(self)@.cursor }),
            final(self)@ == (FileView {
                strings: old(self)@.strings,
                bytes: final(cursor)@.bytes,
                cursor: final(cursor)@.position,
            }),
    {
        &mut self.data
    }

    /// The whole payload, whatever the cursor.
    pub fn payload(&self) -> (bytes: &Vec<u8>)
        ensures
            bytes@ == self@.bytes,
    {
        self.data.get_ref()
    }

    /// Where in the payload the next read or write takes place.
    pub fn position(&self) -> (cursor: usize)
        ensures
            cursor == self@.cursor,
    {
        self.data.position()
    }

    /// The position of `s` in the string table, which takes it in where it
    /// does not hold it yet.
    pub fn string_position_of(&mut self, s: &str) -> (position: Result<u64, Error>)
        ensures
            position == Ok::<u64, Error>(position_in(old(self)@.strings, s@) as u64),
            position_in(old(self)@.strings, s@) <= u64::MAX,
            final(self)@ == (FileView { strings: intern(old(self)@.strings, s@), ..old(self)@ }),
    {
        self.interner.position_of(s)
    }

    /// The string at position `i` of the string table.
    pub fn get_string(&self, i: u64) -> (found: Result<&str, Error>)
        ensures
            i < self@.strings.len() ==> found is Ok && found->Ok_0@ == self@.strings[i as int],
            i >= self@.strings.len() ==> found == Err::<&str, Error>(
                Error::StringNotFound { index: i },
            ),
    {
        self.interner.get(i)
    }
}

impl Default for File {
    /// An empty payload with a table that holds the empty string alone.
    fn default() -> (file: Self)
        ensures
            file@ == (FileView {
                strings: seq![Seq::<char>::empty()],
                bytes: Seq::<u8>::empty(),
                cursor: 0,
            }),
    {
        File { interner: StringInterner::default(), data: Cursor::new(Vec::new()) }
    }
}

} // verus!
