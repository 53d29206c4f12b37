//! Maps from names to values that keep the order in which the names came in.

use crate::bytes::{agrees, le_bytes, lemma_agrees_split, lemma_le_value_bound, lemma_pow256_values};
use crate::composite::{lemma_table_from_grows, table_from, wire_from};
use crate::error::Error;
use crate::file::File;
use crate::interner::{table_extends, table_wf, Table};
use crate::traits::{
    decoded, lemma_decode_fixed, parse_fixed, read_fixed, Codec, ReadFromFile, WriteToFile,
};
use vstd::prelude::*;

verus! {

/// The index of the first entry of `entries` under `key`, or their number
/// where there is none.
pub open spec fn key_position<X>(entries: Seq<(Seq<char>, X)>, key: Seq<char>) -> int
    decreases entries.len(),
{
    if entries.len() == 0 {
        0
    } else if entries[0].0 == key {
        0
    } else {
        1 + key_position(entries.drop_first(), key)
    }
}

/// The entries after `value` has been put under `key`: in place of the value
/// that stood under `key`, or as a new last entry.
pub open spec fn map_insert<X>(entries: Seq<(Seq<char>, X)>, key: Seq<char>, value: X) -> Seq<
    (Seq<char>, X),
> {
    let at = key_position(entries, key);
    if 0 <= at < entries.len() {
        entries.update(at, (key, value))
    } else {
        entries.push((key, value))
    }
}

/// No two entries have the same key.
pub open spec fn keys_distinct<X>(entries: Seq<(Seq<char>, X)>) -> bool {
    forall|i: int, j: int| 0 <= i < j < entries.len() ==> entries[i].0 != entries[j].0
}

/// The position of a key lies within the entries or just behind them; within
/// them the key stands there, and nowhere before.
pub proof fn lemma_key_position_bounds<X>(entries: Seq<(Seq<char>, X)>, key: Seq<char>)
    ensures
        0 <= key_position(entries, key) <= entries.len(),
        key_position(entries, key) < entries.len() ==> entries[key_position(entries, key)].0
            == key,
        forall|j: int| 0 <= j < key_position(entries, key) ==> entries[j].0 != key,
    decreases entries.len(),
{
    if entries.len() != 0 && entries[0].0 != key {
        let rest = entries.drop_first();
        lemma_key_position_bounds(rest, key);
        assert forall|j: int| 0 <= j < key_position(entries, key) implies entries[j].0 != key by {
            if j > 0 {
                assert(entries[j] == rest[j - 1]);
            }
        }
    }
}

/// The position of `key` is `at` where an entry under `key` stands at `at`
/// and none before it.
pub proof fn lemma_key_position_first<X>(entries: Seq<(Seq<char>, X)>, key: Seq<char>, at: int)
    requires
        0 <= at <= entries.len(),
        at < entries.len() ==> entries[at].0 == key,
        forall|j: int| 0 <= j < at ==> entries[j].0 != key,
    ensures
        key_position(entries, key) == at,
{
    lemma_key_position_bounds(entries, key);
}

/// Putting a value under a key keeps the keys distinct.
pub proof fn lemma_map_insert_distinct<X>(entries: Seq<(Seq<char>, X)>, key: Seq<char>, value: X)
    requires
        keys_distinct(entries),
    ensures
        keys_distinct(map_insert(entries, key, value)),
{
    lemma_key_position_bounds(entries, key);
    let after = map_insert(entries, key, value);
    let at = key_position(entries, key);
    assert forall|i: int, j: int| 0 <= i < j < after.len() implies after[i].0 != after[j].0 by {
        if at < entries.len() {
            assert(after[i].0 == entries[i].0);
            assert(after[j].0 == entries[j].0);
        } else if j < entries.len() {
            assert(after[i] == entries[i] && after[j] == entries[j]);
        } else {
            assert(after[i] == entries[i]);
        }
    }
}

/// A map from names to values. Its entries stand in the order in which
/// their names were first put in, and no name stands twice.
#[derive(Clone, Debug, PartialEq, Eq)]
pub struct NameMap<V> {
    entries: Vec<(String, V)>,
}

impl<V: DeepView> DeepView for NameMap<V> {
    type V = Seq<(Seq<char>, V::V)>;

    closed spec fn deep_view(&self) -> Seq<(Seq<char>, V::V)> {
        self.entries.deep_view()
    }
}

impl<V: DeepView> NameMap<V> {
    /// No two entries have the same name. Every map that this module hands
    /// out is so, and stays so.
    pub open spec fn wf(&self) -> bool {
        keys_distinct(self.deep_view())
    }

    /// A map without entries.
    pub fn new() -> (map: Self)
        ensures
            map.deep_view() == Seq::<(Seq<char>, V::V)>::empty(),
            map.wf(),
    {
        let map = NameMap { entries: Vec::new() };
        assert(map.entries.deep_view() =~= Seq::<(Seq<char>, V::V)>::empty());
        map
    }

    /// How many entries the map has.
    pub fn len(&self) -> (n: usize)
        ensures
            n == self.deep_view().len(),
    {
        self.entries.len()
    }

    /// Whether the map has no entries.
    pub fn is_empty(&self) -> (empty: bool)
        ensures
            empty == (self.deep_view().len() == 0),
    {
        self.entries.len() == 0
    }

    /// The index of the entry under `name`, where there is one.
    pub fn get_index_of(&self, name: &str) -> (index: Option<usize>)
        ensures
            match index {
                Some(i) => i == key_position(self.deep_view(), name@) && i < self.deep_view().len(),
                None => key_position(self.deep_view(), name@) == self.deep_view().len(),
            },
    {
        let wanted = name.to_owned();
        let mut i: usize = 0;
        while i < self.entries.len()
            invariant
                0 <= i <= self.entries.len(),
                wanted@ == name@,
                forall|j: int| 0 <= j < i ==> self.deep_view()[j].0 != name@,
            decreases self.entries.len() - i,
        {
            if self.entries[i].0 == wanted {
                proof {
                    lemma_key_position_first(self.deep_view(), name@, i as int);
                }
                return Some(i);
            }
            i += 1;
        }
        proof {
            lemma_key_position_first(self.deep_view(), name@, i as int);
        }
        None
    }

    /// The value under `name`, where there is one.
    pub fn get(&self, name: &str) -> (value: Option<&V>)
        ensures
            match value {
                Some(found) => key_position(self.deep_view(), name@) < self.deep_view().len()
                    && found.deep_view() == self.deep_view()[key_position(
                    self.deep_view(),
                    name@,
                )].1,
                None => key_position(self.deep_view(), name@) == self.deep_view().len(),
            },
    {
        match self.get_index_of(name) {
            Some(i) => Some(&self.entries[i].1),
            None => None,
        }
    }

    /// The name of the entry at `index`, where there is one.
    pub fn name_at(&self, index: usize) -> (name: Option<&String>)
        ensures
            match name {
                Some(found) => index < self.deep_view().len() && found@
                    == self.deep_view()[index as int].0,
                None => index >= self.deep_view().len(),
            },
    {
        if index < self.entries.len() {
            Some(&self.entries[index].0)
        } else {
            None
        }
    }

    /// The value of the entry at `index`, where there is one.
    pub fn value_at(&self, index: usize) -> (value: Option<&V>)
        ensures
            match value {
                Some(found) => index < self.deep_view().len() && found.deep_view()
                    == self.deep_view()[index as int].1,
                None => index >= self.deep_view().len(),
            },
    {
        if index < self.entries.len() {
            Some(&self.entries[index].1)
        } else {
            None
        }
    }

    /// Puts `value` under `name`: in place of the value that stood there, or
    /// as a new last entry. Says whether the name is new.
    pub fn insert(&mut self, name: String, value: V) -> (new_name: bool)
        ensures
            final(self).deep_view() == map_insert(
                old(self).deep_view(),
                name@,
                value.deep_view(),
            ),
            new_name == (key_position(old(self).deep_view(), name@) == old(
                self,
            ).deep_view().len()),
            old(self).wf() ==> final(self).wf(),
    {
        let ghost before = self.deep_view();
        proof {
            lemma_key_position_bounds(before, name@);
            if keys_distinct(before) {
                lemma_map_insert_distinct(before, name@, value.deep_view());
            }
        }
        match self.get_index_of(name.as_str()) {
            Some(i) => {
                self.entries.set(i, (name, value));
                assert(self.entries.deep_view() =~= before.update(
                    i as int,
                    (name@, value.deep_view()),
                ));
                false
            },
            None => {
                self.entries.push((name, value));
                assert(self.entries.deep_view() =~= before.push((name@, value.deep_view())));
                true
            },
        }
    }
}

/// The `count` entries that stand one behind the other from position `at`
/// on, each put into `found` as it comes, and the position behind the last.
pub open spec fn parse_entries<V: ReadFromFile>(
    table: Table,
    bytes: Seq<u8>,
    at: int,
    count: nat,
    found: Seq<(Seq<char>, V::V)>,
) -> Result<(Seq<(Seq<char>, V::V)>, int), Error>
    decreases count,
{
    if count == 0 {
        Ok((found, at))
    } else {
        match <(String, V) as ReadFromFile>::parse(table, bytes, at) {
            Ok((entry, next)) => parse_entries::<V>(
                table,
                bytes,
                next,
                (count - 1) as nat,
                map_insert(found, entry.0, entry.1),
            ),
            Err(e) => Err(e),
        }
    }
}

/// Every value of the entries is one that its type's constructors can make.
pub open spec fn values_valid<V: Codec>(entries: Seq<(Seq<char>, V::V)>) -> bool {
    forall|i: int| 0 <= i < entries.len() ==> V::valid((#[trigger] entries[i]).1)
}

/// Entries with distinct names that were written one behind the other are
/// found again, in their order; where the bytes end before the last of them
/// does, the reader reports a short read.
pub proof fn lemma_decode_entries<V: Codec>(
    entries: Seq<(Seq<char>, V::V)>,
    from: int,
    table: Table,
    final_table: Table,
    bytes: Seq<u8>,
    at: int,
)
    requires
        keys_distinct(entries),
        values_valid::<V>(entries),
        0 <= from <= entries.len(),
        table_wf(table),
        table_extends(final_table, table_from::<(String, V)>(entries, from, table)),
        final_table.len() <= u64::MAX,
        0 <= at <= bytes.len(),
        agrees(bytes, at, wire_from::<(String, V)>(entries, from, table)),
    ensures
        parse_entries::<V>(
            final_table,
            bytes,
            at,
            (entries.len() - from) as nat,
            entries.take(from),
        ) == decoded(
            entries,
            at,
            wire_from::<(String, V)>(entries, from, table).len(),
            bytes.len(),
        ),
    decreases entries.len() - from,
{
    if from == entries.len() {
        assert(entries.take(from) =~= entries);
    } else {
        let entry = entries[from];
        let first = <(String, V) as WriteToFile>::wire(entry, table);
        let next_table = <(String, V) as WriteToFile>::table_after(entry, table);
        let rest = wire_from::<(String, V)>(entries, from + 1, next_table);
        lemma_agrees_split(bytes, at, first, rest);
        <(String, V) as WriteToFile>::lemma_table_grows(entry, table);
        lemma_table_from_grows::<(String, V)>(entries, from + 1, next_table);
        assert(V::valid(entry.1));
        <(String, V) as Codec>::lemma_decode(entry, table, final_table, bytes, at);
        if at + first.len() <= bytes.len() {
            let have = entries.take(from);
            assert forall|j: int| 0 <= j < have.len() implies have[j].0 != entry.0 by {
                assert(have[j] == entries[j]);
            }
            lemma_key_position_first(have, entry.0, from);
            assert(map_insert(have, entry.0, entry.1) =~= entries.take(from + 1));
            lemma_decode_entries::<V>(
                entries,
                from + 1,
                next_table,
                final_table,
                bytes,
                at + first.len(),
            );
        }
    }
}

/// A map is written as the number of its entries in eight bytes, then for
/// each entry, in the map's order, its name and its value.
impl<V: WriteToFile> WriteToFile for NameMap<V> {
    open spec fn wire(v: Seq<(Seq<char>, V::V)>, table: Table) -> Seq<u8> {
        le_bytes(v.len(), 8) + wire_from::<(String, V)>(v, 0, table)
    }

    open spec fn table_after(v: Seq<(Seq<char>, V::V)>, table: Table) -> Table {
        table_from::<(String, V)>(v, 0, table)
    }

    proof fn lemma_table_grows(v: Seq<(Seq<char>, V::V)>, table: Table) {
        lemma_table_from_grows::<(String, V)>(v, 0, table);
    }

    fn write_to_file(&self, file: &mut File) -> (done: Result<(), Error>) {
        self.entries.write_to_file(file)
    }
}

/// A map is read by putting each entry in as it comes: of two entries under
/// one name, the first gives the place and the second the value.
impl<V: ReadFromFile> ReadFromFile for NameMap<V> {
    open spec fn parse(table: Table, bytes: Seq<u8>, at: int) -> Result<
        (Seq<(Seq<char>, V::V)>, int),
        Error,
    > {
        match parse_fixed(bytes, at, 8) {
            Ok((count, next)) => parse_entries::<V>(table, bytes, next, count, Seq::empty()),
            Err(e) => Err(e),
        }
    }

    fn read_from_file(file: &mut File) -> (value: Result<Self, Error>)
        ensures
            value is Ok ==> value->Ok_0.wf(),
    {
        let ghost before = file@;
        match read_fixed(file, 8) {
            Ok(raw) => {
                proof {
                    lemma_le_value_bound(
                        before.bytes.subrange(before.cursor as int, before.cursor as int + 8),
                    );
                    lemma_pow256_values();
                }
                let count: u64 = raw as u64;
                let ghost expected = parse_entries::<V>(
                    before.strings,
                    before.bytes,
                    file@.cursor as int,
                    count as nat,
                    Seq::empty(),
                );
                let mut map: NameMap<V> = NameMap::new();
                let mut i: u64 = 0;
                while i < count
                    invariant
                        0 <= i <= count,
                        before == old(file)@,
                        file@.strings == before.strings,
                        file@.bytes == before.bytes,
                        Self::parse(before.strings, before.bytes, before.cursor as int)
                            == expected,
                        parse_entries::<V>(
                            before.strings,
                            before.bytes,
                            file@.cursor as int,
                            (count - i) as nat,
                            map.deep_view(),
                        ) == expected,
                        map.wf(),
                    decreases count - i,
                {
                    match <(String, V)>::read_from_file(file) {
                        Ok(entry) => {
                            map.insert(entry.0, entry.1);
                        },
                        Err(e) => {
                            return Err(e);
                        },
                    }
                    i += 1;
                }
                Ok(map)
            },
            Err(e) => Err(e),
        }
    }
}

impl<V: Codec> Codec for NameMap<V> {
    open spec fn valid(v: Seq<(Seq<char>, V::V)>) -> bool {
        v.len() <= u64::MAX && keys_distinct(v) && values_valid::<V>(v)
    }

    proof fn lemma_decode(
        v: Seq<(Seq<char>, V::V)>,
        table: Table,
        final_table: Table,
        bytes: Seq<u8>,
        at: int,
    ) {
        let head = le_bytes(v.len(), 8);
        let body = wire_from::<(String, V)>(v, 0, table);
        lemma_pow256_values();
        lemma_agrees_split(bytes, at, head, body);
        lemma_decode_fixed(v.len(), 8, bytes, at);
        if at + 8 <= bytes.len() {
            lemma_decode_entries::<V>(v, 0, table, final_table, bytes, at + 8);
            assert(v.take(0) =~= Seq::<(Seq<char>, V::V)>::empty());
        }
    }
}

} // verus!
