//! The string table of a file.
//!
//! Every string that a file mentions is stored once, and the payload refers
//! to it by its position. Position 0 always holds the empty string, and a
//! position, once given out, keeps its string for as long as the table lives.

use crate::bytes::zeros;
use crate::error::Error;
use vstd::prelude::*;
use vstd::slice::slice_subrange;
use vstd::utf8::*;

verus! {

/// The contents of a string table: its strings in the order of their positions.
pub type Table = Seq<Seq<char>>;

/// A table as every interner holds it: the empty string at position 0 and no
/// string twice.
pub open spec fn table_wf(table: Table) -> bool {
    &&& table.len() >= 1
    &&& table[0].len() == 0
    &&& forall|i: int, j: int| 0 <= i < j < table.len() ==> table[i] != table[j]
}

/// `small` is the beginning of `big`: every position of `small` holds the same
/// string in `big`.
pub open spec fn table_extends(big: Table, small: Table) -> bool {
    &&& small.len() <= big.len()
    &&& forall|i: int| 0 <= i < small.len() ==> big[i] == small[i]
}

/// The position of the first occurrence of `s` in `table`, or the length of
/// the table where it does not occur.
pub open spec fn position_in(table: Table, s: Seq<char>) -> int
    decreases table.len(),
{
    if table.len() == 0 {
        0
    } else if table[0] == s {
        0
    } else {
        1 + position_in(table.drop_first(), s)
    }
}

/// The table after `s` has been asked for: unchanged where `s` occurs,
/// else with `s` at a new last position.
pub open spec fn intern(table: Table, s: Seq<char>) -> Table {
    if position_in(table, s) < table.len() {
        table
    } else {
        table.push(s)
    }
}

/// The table after each of `strings` has been asked for, in order.
pub open spec fn intern_all(table: Table, strings: Seq<Seq<char>>) -> Table
    decreases strings.len(),
{
    if strings.len() == 0 {
        table
    } else {
        intern_all(intern(table, strings[0]), strings.drop_first())
    }
}

/// The index of the first zero byte of `bytes`, or their length where there is none.
pub open spec fn first_nul(bytes: Seq<u8>) -> int
    decreases bytes.len(),
{
    if bytes.len() == 0 {
        0
    } else if bytes[0] == 0 {
        0
    } else {
        1 + first_nul(bytes.drop_first())
    }
}

/// No byte of `bytes` is zero.
pub open spec fn nul_free(bytes: Seq<u8>) -> bool {
    forall|i: int| 0 <= i < bytes.len() ==> bytes[i] != 0
}

/// The pieces of `bytes` between its zero bytes. There is one piece more than
/// there are zero bytes, so no bytes at all make one empty piece.
pub open spec fn split_nul(bytes: Seq<u8>) -> Seq<Seq<u8>>
    decreases bytes.len(),
{
    let cut = first_nul(bytes);
    if 0 <= cut < bytes.len() {
        seq![bytes.take(cut)] + split_nul(bytes.skip(cut + 1))
    } else {
        seq![bytes]
    }
}

/// The pieces with one zero byte between each two neighbours.
pub open spec fn join_nul(pieces: Seq<Seq<u8>>) -> Seq<u8>
    decreases pieces.len(),
{
    if pieces.len() == 0 {
        Seq::empty()
    } else if pieces.len() == 1 {
        pieces[0]
    } else {
        join_nul(pieces.drop_last()) + seq![0u8] + pieces.last()
    }
}

/// How many zero bytes follow `len` bytes of strings so that the block ends
/// on a multiple of eight.
pub open spec fn padding_len(len: nat) -> nat {
    ((8 - len % 8) % 8) as nat
}

/// What `String::from_utf8_lossy` makes of bytes that are not UTF-8.
pub uninterp spec fn lossy_text(bytes: Seq<u8>) -> Seq<char>;

/// The string that a piece of a table block stands for: the text that the
/// bytes encode in UTF-8, and for other bytes their lossy conversion.
pub open spec fn piece_text(bytes: Seq<u8>) -> Seq<char> {
    if valid_utf8(bytes) {
        decode_utf8(bytes)
    } else {
        lossy_text(bytes)
    }
}

/// The string of each piece.
pub open spec fn piece_texts(pieces: Seq<Seq<u8>>) -> Seq<Seq<char>> {
    pieces.map_values(|p: Seq<u8>| piece_text(p))
}

/// The UTF-8 bytes of each string.
pub open spec fn text_pieces(table: Table) -> Seq<Seq<u8>> {
    table.map_values(|s: Seq<char>| encode_utf8(s))
}

/// The table that a block of bytes holds: the empty string, then the string
/// of each piece between zero bytes, each at the position of its first
/// occurrence.
pub open spec fn table_of_bytes(bytes: Seq<u8>) -> Table {
    intern_all(seq![Seq::<char>::empty()], piece_texts(split_nul(bytes)))
}

/// The block of bytes that holds `table`: its strings in UTF-8 with a zero
/// byte between each two, then zero bytes up to the next multiple of eight.
pub open spec fn table_bytes(table: Table) -> Seq<u8> {
    let joined = join_nul(text_pieces(table));
    joined + zeros(padding_len(joined.len()))
}

/// No character of `text` is the zero character.
pub open spec fn text_nul_free(text: Seq<char>) -> bool {
    forall|i: int| 0 <= i < text.len() ==> text[i] as u32 != 0
}

/// No string of the table holds the zero character.
pub open spec fn table_nul_free(table: Table) -> bool {
    forall|i: int| 0 <= i < table.len() ==> text_nul_free(#[trigger] table[i])
}

/// The views of the strings of a vector.
pub open spec fn texts_of(strings: Seq<String>) -> Table {
    strings.map_values(|s: String| s@)
}

/// The position of a string lies within the table or just behind it; within
/// the table the string stands there, and nowhere before.
pub proof fn lemma_position_in_bounds(table: Table, s: Seq<char>)
    ensures
        0 <= position_in(table, s) <= table.len(),
        position_in(table, s) < table.len() ==> table[position_in(table, s)] == s,
        forall|j: int| 0 <= j < position_in(table, s) ==> table[j] != s,
    decreases table.len(),
{
    if table.len() != 0 && table[0] != s {
        let rest = table.drop_first();
        lemma_position_in_bounds(rest, s);
        assert forall|j: int| 0 <= j < position_in(table, s) implies table[j] != s by {
            if j > 0 {
                assert(table[j] == rest[j - 1]);
            }
        }
    }
}

/// The position of `s` is `at` where `s` stands at `at` and nowhere before it.
pub proof fn lemma_position_in_first(table: Table, s: Seq<char>, at: int)
    requires
        0 <= at <= table.len(),
        at < table.len() ==> table[at] == s,
        forall|j: int| 0 <= j < at ==> table[j] != s,
    ensures
        position_in(table, s) == at,
{
    lemma_position_in_bounds(table, s);
}

/// Asking for a string only ever adds to the end of a table, and keeps it well formed.
pub proof fn lemma_intern_extends(table: Table, s: Seq<char>)
    requires
        table_wf(table),
    ensures
        table_wf(intern(table, s)),
        table_extends(intern(table, s), table),
        position_in(intern(table, s), s) == position_in(table, s),
        position_in(table, s) < intern(table, s).len(),
        intern(table, s)[position_in(table, s)] == s,
{
    lemma_position_in_bounds(table, s);
    let after = intern(table, s);
    if position_in(table, s) >= table.len() {
        assert(after.len() == table.len() + 1);
        assert(after[table.len() as int] == s);
        assert forall|i: int, j: int| 0 <= i < j < after.len() implies after[i] != after[j] by {
            if j == table.len() {
                assert(after[i] == table[i]);
            }
        }
        lemma_position_in_first(after, s, table.len() as int);
    }
}

/// A string that stands in a well-formed table keeps its position in every
/// table that extends it.
pub proof fn lemma_position_stable(small: Table, big: Table, s: Seq<char>)
    requires
        table_extends(big, small),
        position_in(small, s) < small.len(),
    ensures
        position_in(big, s) == position_in(small, s),
{
    lemma_position_in_bounds(small, s);
    lemma_position_in_first(big, s, position_in(small, s));
}

/// Asking twice for the same string gives the same position both times, and
/// the second call leaves the table as the first left it.
pub proof fn lemma_intern_idempotent(table: Table, s: Seq<char>)
    requires
        table_wf(table),
    ensures
        position_in(intern(table, s), s) == position_in(table, s),
        intern(intern(table, s), s) == intern(table, s),
        intern(intern(table, s), s).len() == intern(table, s).len(),
{
    lemma_intern_extends(table, s);
}

/// Asking for strings only ever adds to the end of a table, and keeps it well
/// formed.
pub proof fn lemma_intern_all_extends(table: Table, strings: Seq<Seq<char>>)
    requires
        table_wf(table),
    ensures
        table_wf(intern_all(table, strings)),
        table_extends(intern_all(table, strings), table),
    decreases strings.len(),
{
    if strings.len() != 0 {
        lemma_intern_extends(table, strings[0]);
        lemma_intern_all_extends(intern(table, strings[0]), strings.drop_first());
    }
}

/// Asking for a first string and then for more is asking for all of them.
proof fn lemma_intern_all_step(table: Table, first: Seq<char>, rest: Seq<Seq<char>>)
    ensures
        intern_all(table, seq![first] + rest) == intern_all(intern(table, first), rest),
{
    let all = seq![first] + rest;
    assert(all[0] == first);
    assert(all.drop_first() =~= rest);
}

/// The first zero byte is at `at` where one stands there and none before.
proof fn lemma_first_nul_at(bytes: Seq<u8>, at: int)
    requires
        0 <= at <= bytes.len(),
        at < bytes.len() ==> bytes[at] == 0,
        forall|j: int| 0 <= j < at ==> bytes[j] != 0,
    ensures
        first_nul(bytes) == at,
    decreases at,
{
    if at > 0 {
        let rest = bytes.drop_first();
        assert forall|j: int| 0 <= j < at - 1 implies rest[j] != 0 by {
            assert(rest[j] == bytes[j + 1]);
        }
        lemma_first_nul_at(rest, at - 1);
    }
}

/// No character but the zero character has a zero byte in its UTF-8 form.
proof fn lemma_scalar_nul_free(scalar: u32)
    requires
        scalar != 0,
    ensures
        nul_free(encode_scalar(scalar)),
{
    assert(0 < scalar <= 0x7F ==> (scalar & 0x7F) as u8 != 0) by (bit_vector);
    assert(0xC0u8 | ((scalar >> 6) & 0x1F) as u8 != 0) by (bit_vector);
    assert(0xE0u8 | ((scalar >> 12) & 0x0F) as u8 != 0) by (bit_vector);
    assert(0xF0u8 | ((scalar >> 18) & 0x7) as u8 != 0) by (bit_vector);
    assert(0x80u8 | (scalar & 0x3F) as u8 != 0) by (bit_vector);
    assert(0x80u8 | ((scalar >> 6) & 0x3F) as u8 != 0) by (bit_vector);
    assert(0x80u8 | ((scalar >> 12) & 0x3F) as u8 != 0) by (bit_vector);
}

/// A string without the zero character has no zero byte in its UTF-8 form.
pub proof fn lemma_text_nul_free(text: Seq<char>)
    requires
        text_nul_free(text),
    ensures
        nul_free(encode_utf8(text)),
    decreases text.len(),
{
    if text.len() > 0 {
        let rest = text.drop_first();
        assert forall|i: int| 0 <= i < rest.len() implies rest[i] as u32 != 0 by {
            assert(rest[i] == text[i + 1]);
        }
        lemma_scalar_nul_free(text[0] as u32);
        lemma_text_nul_free(rest);
    }
}

/// `count` empty pieces.
pub open spec fn empty_pieces(count: nat) -> Seq<Seq<u8>> {
    Seq::new(count, |i: int| Seq::<u8>::empty())
}

/// Joined pieces are the first piece, a zero byte and the other pieces joined.
proof fn lemma_join_front(pieces: Seq<Seq<u8>>)
    requires
        pieces.len() >= 2,
    ensures
        join_nul(pieces) == pieces[0] + seq![0u8] + join_nul(pieces.drop_first()),
    decreases pieces.len(),
{
    let front = pieces.drop_last();
    let rest = pieces.drop_first();
    if pieces.len() == 2 {
        assert(front.len() == 1 && rest.len() == 1);
        assert(join_nul(front) == pieces[0]);
        assert(join_nul(rest) == pieces[1]);
    } else {
        lemma_join_front(front);
        assert(front.drop_first() =~= rest.drop_last());
        assert(front[0] == pieces[0]);
        assert(rest.last() == pieces.last());
        assert(join_nul(rest) == join_nul(rest.drop_last()) + seq![0u8] + rest.last());
        assert(join_nul(pieces) =~= pieces[0] + seq![0u8] + join_nul(rest));
    }
}

/// Zero bytes behind joined pieces are as many empty pieces more.
proof fn lemma_join_padding(pieces: Seq<Seq<u8>>, count: nat)
    requires
        pieces.len() >= 1,
    ensures
        join_nul(pieces + empty_pieces(count)) == join_nul(pieces) + zeros(count),
    decreases count,
{
    let all = pieces + empty_pieces(count);
    if count == 0 {
        assert(all =~= pieces);
        assert(join_nul(pieces) + zeros(0) =~= join_nul(pieces));
    } else {
        let fewer = pieces + empty_pieces((count - 1) as nat);
        lemma_join_padding(pieces, (count - 1) as nat);
        assert(all.drop_last() =~= fewer);
        assert(all.last() =~= Seq::<u8>::empty());
        assert(join_nul(all) =~= join_nul(pieces) + zeros(count));
    }
}

/// Pieces without zero bytes are split again as they were joined.
proof fn lemma_split_join(pieces: Seq<Seq<u8>>)
    requires
        pieces.len() >= 1,
        forall|i: int| 0 <= i < pieces.len() ==> nul_free(#[trigger] pieces[i]),
    ensures
        split_nul(join_nul(pieces)) == pieces,
    decreases pieces.len(),
{
    let bytes = join_nul(pieces);
    if pieces.len() == 1 {
        assert(nul_free(pieces[0]));
        lemma_first_nul_at(bytes, bytes.len() as int);
        assert(split_nul(bytes) =~= pieces);
    } else {
        let rest = pieces.drop_first();
        lemma_join_front(pieces);
        assert(nul_free(pieces[0]));
        let cut = pieces[0].len() as int;
        assert(bytes[cut] == 0);
        lemma_first_nul_at(bytes, cut);
        assert(bytes.take(cut) =~= pieces[0]);
        assert(bytes.skip(cut + 1) =~= join_nul(rest));
        assert forall|i: int| 0 <= i < rest.len() implies nul_free(#[trigger] rest[i]) by {
            assert(rest[i] == pieces[i + 1]);
        }
        lemma_split_join(rest);
        assert(split_nul(bytes) =~= pieces);
    }
}

/// Asking for the strings of a well-formed table in their order builds up
/// that table.
proof fn lemma_intern_all_known(table: Table, upto: int, extra: Seq<Seq<char>>)
    requires
        table_wf(table),
        1 <= upto <= table.len(),
    ensures
        intern_all(table.take(upto), table.skip(upto) + extra) == intern_all(table, extra),
    decreases table.len() - upto,
{
    let strings = table.skip(upto) + extra;
    if upto == table.len() {
        assert(table.take(upto) =~= table);
        assert(strings =~= extra);
    } else {
        let have = table.take(upto);
        assert(strings[0] == table[upto]);
        assert forall|j: int| 0 <= j < have.len() implies have[j] != table[upto] by {
            assert(have[j] == table[j]);
        }
        lemma_position_in_first(have, table[upto], upto);
        assert(intern(have, table[upto]) =~= table.take(upto + 1));
        assert(strings.drop_first() =~= table.skip(upto + 1) + extra);
        lemma_intern_all_known(table, upto + 1, extra);
    }
}

/// Asking for the empty string leaves a well-formed table as it is.
proof fn lemma_intern_all_empties(table: Table, count: nat)
    requires
        table_wf(table),
    ensures
        intern_all(table, Seq::new(count, |i: int| Seq::<char>::empty())) == table,
    decreases count,
{
    let strings = Seq::new(count, |i: int| Seq::<char>::empty());
    if count > 0 {
        assert(strings[0] =~= table[0]);
        lemma_position_in_first(table, strings[0], 0);
        assert(strings.drop_first() =~= Seq::new(
            (count - 1) as nat,
            |i: int| Seq::<char>::empty(),
        ));
        lemma_intern_all_empties(table, (count - 1) as nat);
    }
}

/// A well-formed table whose strings hold no zero character is read back
/// from its block of bytes as it was written.
pub proof fn lemma_table_bytes_round_trip(table: Table)
    requires
        table_wf(table),
        table_nul_free(table),
    ensures
        table_of_bytes(table_bytes(table)) == table,
{
    broadcast use {encode_utf8_valid_utf8, encode_utf8_decode_utf8};

    let pieces = text_pieces(table);
    let pad = padding_len(join_nul(pieces).len());
    let all = pieces + empty_pieces(pad);
    lemma_join_padding(pieces, pad);
    assert forall|i: int| 0 <= i < all.len() implies nul_free(#[trigger] all[i]) by {
        if i < pieces.len() {
            assert(all[i] == encode_utf8(table[i]));
            lemma_text_nul_free(table[i]);
        }
    }
    lemma_split_join(all);
    let empties = Seq::new(pad, |i: int| Seq::<char>::empty());
    assert(piece_texts(all) =~= table + empties) by {
        assert forall|i: int| 0 <= i < all.len() implies piece_texts(all)[i] == (table
            + empties)[i] by {
            if i < pieces.len() {
                assert(all[i] == encode_utf8(table[i]));
            } else {
                assert(all[i] =~= Seq::<u8>::empty());
                assert(valid_utf8(all[i]));
                assert(decode_utf8(all[i]) =~= Seq::<char>::empty());
            }
        }
    }
    let start = seq![Seq::<char>::empty()];
    assert(table[0] =~= Seq::<char>::empty());
    assert(start =~= table.take(1));
    assert(table + empties =~= seq![table[0]] + (table.skip(1) + empties));
    lemma_intern_all_step(start, table[0], table.skip(1) + empties);
    lemma_position_in_first(start, table[0], 0);
    lemma_intern_all_known(table, 1, empties);
    lemma_intern_all_empties(table, pad);
}

/// `String::from_utf8_lossy`, with the result made an owned `String`: bytes
/// that are UTF-8 give the text they encode; for other bytes the result is
/// only given a name.
#[verifier::external_body]
fn text_from_utf8_lossy(bytes: &[u8]) -> (text: String)
    ensures
        text@ == (if valid_utf8(bytes@) {
            decode_utf8(bytes@)
        } else {
            lossy_text(bytes@)
        }),
{
    String::from_utf8_lossy(bytes).into_owned()
}

/// Looks `s` up in `entries` and appends it where it is missing.
fn intern_into(entries: &mut Vec<String>, s: String) -> (position: usize)
    ensures
        texts_of(final(entries)@) == intern(texts_of(old(entries)@), s@),
        position == position_in(texts_of(old(entries)@), s@),
        table_wf(texts_of(old(entries)@)) ==> table_wf(texts_of(final(entries)@)),
{
    let ghost table = texts_of(entries@);
    let mut i: usize = 0;
    while i < entries.len()
        invariant
            0 <= i <= entries.len(),
            entries@ == old(entries)@,
            table == texts_of(entries@),
            forall|j: int| 0 <= j < i ==> table[j] != s@,
        decreases entries.len() - i,
    {
        if entries[i] == s {
            proof {
                lemma_position_in_first(table, s@, i as int);
            }
            return i;
        }
        i += 1;
    }
    proof {
        lemma_position_in_first(table, s@, i as int);
        if table_wf(table) {
            lemma_intern_extends(table, s@);
        }
    }
    entries.push(s);
    assert(texts_of(entries@) =~= table.push(s@));
    i
}

/// A table of unique strings in the order in which they were first asked for.
#[derive(Clone, Debug)]
pub struct StringInterner {
    entries: Vec<String>,
}

impl View for StringInterner {
    type V = Table;

    closed spec fn view(&self) -> Table {
        texts_of(self.entries@)
    }
}

impl StringInterner {
    /// The table is well formed. Every interner that this module hands out
    /// is, and stays so.
    pub open spec fn wf(&self) -> bool {
        table_wf(self@)
    }

    /// The table that a block of bytes holds.
    pub fn new(bytes: &[u8]) -> (interner: Self)
        ensures
            interner@ == table_of_bytes(bytes@),
            interner.wf(),
    {
        let mut entries: Vec<String> = Vec::new();
        entries.push(String::new());
        assert(texts_of(entries@) =~= seq![Seq::<char>::empty()]);
        let mut start: usize = 0;
        let mut i: usize = 0;
        assert(bytes@.skip(0) =~= bytes@);
        while i < bytes.len()
            invariant
                0 <= start <= i <= bytes.len(),
                forall|j: int| start <= j < i ==> bytes@[j] != 0,
                table_wf(texts_of(entries@)),
                intern_all(texts_of(entries@), piece_texts(split_nul(bytes@.skip(start as int))))
                    == table_of_bytes(bytes@),
            decreases bytes.len() - i,
        {
            if bytes[i] == 0 {
                let piece = slice_subrange(bytes, start, i);
                let text = text_from_utf8_lossy(piece);
                proof {
                    let rest = bytes@.skip(start as int);
                    lemma_first_nul_at(rest, i - start);
                    assert(rest.take(i - start) =~= piece@);
                    assert(rest.skip(i - start + 1) =~= bytes@.skip(i + 1));
                    let later = split_nul(bytes@.skip(i + 1));
                    assert(split_nul(rest) == seq![piece@] + later);
                    assert(piece_texts(seq![piece@] + later) =~= seq![piece_text(piece@)]
                        + piece_texts(later));
                    lemma_intern_all_step(texts_of(entries@), text@, piece_texts(later));
                }
                intern_into(&mut entries, text);
                start = i + 1;
            }
            i += 1;
        }
        let piece = slice_subrange(bytes, start, i);
        let text = text_from_utf8_lossy(piece);
        proof {
            let rest = bytes@.skip(start as int);
            lemma_first_nul_at(rest, rest.len() as int);
            assert(rest =~= piece@);
            assert(piece_texts(seq![piece@]) =~= seq![piece_text(piece@)]);
            lemma_intern_all_step(texts_of(entries@), text@, Seq::empty());
            assert(seq![text@] + Seq::<Seq<char>>::empty() =~= seq![text@]);
        }
        intern_into(&mut entries, text);
        StringInterner { entries }
    }

    /// How many strings the table holds.
    pub fn len(&self) -> (n: usize)
        ensures
            n == self@.len(),
    {
        self.entries.len()
    }

    /// The position of `s`, which is added at the end where the table does
    /// not hold it yet.
    pub fn position_of(&mut self, s: &str) -> (position: Result<u64, Error>)
        ensures
            position == Ok::<u64, Error>(position_in(old(self)@, s@) as u64),
            position_in(old(self)@, s@) <= u64::MAX,
            final(self)@ == intern(old(self)@, s@),
            old(self).wf() ==> final(self).wf(),
    {
        let at = intern_into(&mut self.entries, s.to_owned());
        Ok(at as u64)
    }

    /// The string at position `i`.
    pub fn get(&self, i: u64) -> (found: Result<&str, Error>)
        ensures
            i < self@.len() ==> found is Ok && found->Ok_0@ == self@[i as int],
            i >= self@.len() ==> found == Err::<&str, Error>(Error::StringNotFound { index: i }),
            self.wf() && i == 0 ==> found is Ok && found->Ok_0@.len() == 0,
    {
        if i < self.entries.len() as u64 {
            Ok(self.entries[i as usize].as_str())
        } else {
            Err(Error::StringNotFound { index: i })
        }
    }

    /// The block of bytes that holds the table.
    pub fn to_bytes(&self) -> (bytes: Vec<u8>)
        ensures
            bytes@ == table_bytes(self@),
    {
        let mut out: Vec<u8> = Vec::new();
        let mut i: usize = 0;
        while i < self.entries.len()
            invariant
                0 <= i <= self.entries.len(),
                out@ == join_nul(text_pieces(self@).take(i as int)),
                self@ == texts_of(self.entries@),
            decreases self.entries.len() - i,
        {
            let ghost before = out@;
            if i > 0 {
                out.push(0u8);
            }
            out.extend_from_slice(self.entries[i].as_str().as_bytes());
            proof {
                let pieces = text_pieces(self@);
                let upto = pieces.take(i + 1);
                assert(upto.drop_last() =~= pieces.take(i as int));
                assert(upto.last() == encode_utf8(self.entries@[i as int]@));
                if i == 0 {
                    assert(out@ =~= upto[0]);
                } else {
                    assert(out@ =~= before + seq![0u8] + upto.last());
                }
            }
            i += 1;
        }
        assert(text_pieces(self@).take(i as int) =~= text_pieces(self@));
        let pad = (8 - out.len() % 8) % 8;
        let ghost joined = out@;
        let mut k: usize = 0;
        while k < pad
            invariant
                0 <= k <= pad,
                out@ == joined + zeros(k as nat),
            decreases pad - k,
        {
            out.push(0u8);
            assert(out@ =~= joined + zeros((k + 1) as nat));
            k += 1;
        }
        out
    }
}

impl Default for StringInterner {
    /// The table that holds the empty string alone.
    fn default() -> (interner: Self)
        ensures
            interner@ == seq![Seq::<char>::empty()],
            interner.wf(),
    {
        let mut entries: Vec<String> = Vec::new();
        entries.push(String::new());
        assert(texts_of(entries@) =~= seq![Seq::<char>::empty()]);
        StringInterner { entries }
    }
}

} // verus!
