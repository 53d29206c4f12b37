//! The fixed-width integers: each is written as its bytes, least
//! significant first, the signed ones in two's complement.

use crate::bytes::{
    from_twos_complement, le_bytes, lemma_le_value_bound, lemma_pow256_values,
    lemma_twos_complement_round_trip, twos_complement,
};
use crate::error::Error;
use crate::file::File;
use crate::interner::Table;
use crate::traits::{
    lemma_decode_fixed, parse_fixed, read_fixed, write_fixed, Codec, ReadFromFile, WriteToFile,
};
use vstd::prelude::*;

verus! {

impl WriteToFile for u8 {
    open spec fn wire(v: u8, table: Table) -> Seq<u8> {
        le_bytes(v as nat, 1)
    }

    open spec fn table_after(v: u8, table: Table) -> Table {
        table
    }

    proof fn lemma_table_grows(v: u8, table: Table) {
    }

    fn write_to_file(&self, file: &mut File) -> (done: Result<(), Error>) {
        write_fixed(file, *self as u128, 1);
        Ok(())
    }
}

impl ReadFromFile for u8 {
    open spec fn parse(table: Table, bytes: Seq<u8>, at: int) -> Result<(u8, int), Error> {
        match parse_fixed(bytes, at, 1) {
            Ok((n, next)) => Ok((n as u8, next)),
            Err(e) => Err(e),
        }
    }

    fn read_from_file(file: &mut File) -> (value: Result<Self, Error>) {
        let ghost start = file@.cursor as int;
        match read_fixed(file, 1) {
            Ok(raw) => {
                proof {
                    lemma_le_value_bound(file@.bytes.subrange(start, start + 1));
                    lemma_pow256_values();
                }
                Ok(raw as u8)
            },
            Err(e) => Err(e),
        }
    }
}

impl Codec for u8 {
    open spec fn valid(v: u8) -> bool {
        true
    }

    proof fn lemma_decode(v: u8, table: Table, final_table: Table, bytes: Seq<u8>, at: int) {
        lemma_pow256_values();
        lemma_decode_fixed(v as nat, 1, bytes, at);
    }
}

impl WriteToFile for u16 {
    open spec fn wire(v: u16, table: Table) -> Seq<u8> {
        le_bytes(v as nat, 2)
    }

    open spec fn table_after(v: u16, table: Table) -> Table {
        table
    }

    proof fn lemma_table_grows(v: u16, table: Table) {
    }

    fn write_to_file(&self, file: &mut File) -> (done: Result<(), Error>) {
        write_fixed(file, *self as u128, 2);
        Ok(())
    }
}

impl ReadFromFile for u16 {
    open spec fn parse(table: Table, bytes: Seq<u8>, at: int) -> Result<(u16, int), Error> {
        match parse_fixed(bytes, at, 2) {
            Ok((n, next)) => Ok((n as u16, next)),
            Err(e) => Err(e),
        }
    }

    fn read_from_file(file: &mut File) -> (value: Result<Self, Error>) {
        let ghost start = file@.cursor as int;
        match read_fixed(file, 2) {
            Ok(raw) => {
                proof {
                    lemma_le_value_bound(file@.bytes.subrange(start, start + 2));
                    lemma_pow256_values();
                }
                Ok(raw as u16)
            },
            Err(e) => Err(e),
        }
    }
}

impl Codec for u16 {
    open spec fn valid(v: u16) -> bool {
        true
    }

    proof fn lemma_decode(v: u16, table: Table, final_table: Table, bytes: Seq<u8>, at: int) {
        lemma_pow256_values();
        lemma_decode_fixed(v as nat, 2, bytes, at);
    }
}

impl WriteToFile for u32 {
    open spec fn wire(v: u32, table: Table) -> Seq<u8> {
        le_bytes(v as nat, 4)
    }

    open spec fn table_after(v: u32, table: Table) -> Table {
        table
    }

    proof fn lemma_table_grows(v: u32, table: Table) {
    }

    fn write_to_file(&self, file: &mut File) -> (done: Result<(), Error>) {
        write_fixed(file, *self as u128, 4);
        Ok(())
    }
}

impl ReadFromFile for u32 {
    open spec fn parse(table: Table, bytes: Seq<u8>, at: int) -> Result<(u32, int), Error> {
        match parse_fixed(bytes, at, 4) {
            Ok((n, next)) => Ok((n as u32, next)),
            Err(e) => Err(e),
        }
    }

    fn read_from_file(file: &mut File) -> (value: Result<Self, Error>) {
        let ghost start = file@.cursor as int;
        match read_fixed(file, 4) {
            Ok(raw) => {
                proof {
                    lemma_le_value_bound(file@.bytes.subrange(start, start + 4));
                    lemma_pow256_values();
                }
                Ok(raw as u32)
            },
            Err(e) => Err(e),
        }
    }
}

impl Codec for u32 {
    open spec fn valid(v: u32) -> bool {
        true
    }

    proof fn lemma_decode(v: u32, table: Table, final_table: Table, bytes: Seq<u8>, at: int) {
        lemma_pow256_values();
        lemma_decode_fixed(v as nat, 4, bytes, at);
    }
}

impl WriteToFile for u64 {
    open spec fn wire(v: u64, table: Table) -> Seq<u8> {
        le_bytes(v as nat, 8)
    }

    open spec fn table_after(v: u64, table: Table) -> Table {
        table
    }

    proof fn lemma_table_grows(v: u64, table: Table) {
    }

    fn write_to_file(&self, file: &mut File) -> (done: Result<(), Error>) {
        write_fixed(file, *self as u128, 8);
        Ok(())
    }
}

impl ReadFromFile for u64 {
    open spec fn parse(table: Table, bytes: Seq<u8>, at: int) -> Result<(u64, int), Error> {
        match parse_fixed(bytes, at, 8) {
            Ok((n, next)) => Ok((n as u64, next)),
            Err(e) => Err(e),
        }
    }

    fn read_from_file(file: &mut File) -> (value: Result<Self, Error>) {
        let ghost start = file@.cursor as int;
        match read_fixed(file, 8) {
            Ok(raw) => {
                proof {
                    lemma_le_value_bound(file@.bytes.subrange(start, start + 8));
                    lemma_pow256_values();
                }
                Ok(raw as u64)
            },
            Err(e) => Err(e),
        }
    }
}

impl Codec for u64 {
    open spec fn valid(v: u64) -> bool {
        true
    }

    proof fn lemma_decode(v: u64, table: Table, final_table: Table, bytes: Seq<u8>, at: int) {
        lemma_pow256_values();
        lemma_decode_fixed(v as nat, 8, bytes, at);
    }
}

impl WriteToFile for u128 {
    open spec fn wire(v: u128, table: Table) -> Seq<u8> {
        le_bytes(v as nat, 16)
    }

    open spec fn table_after(v: u128, table: Table) -> Table {
        table
    }

    proof fn lemma_table_grows(v: u128, table: Table) {
    }

    fn write_to_file(&self, file: &mut File) -> (done: Result<(), Error>) {
        write_fixed(file, *self as u128, 16);
        Ok(())
    }
}

impl ReadFromFile for u128 {
    open spec fn parse(table: Table, bytes: Seq<u8>, at: int) -> Result<(u128, int), Error> {
        match parse_fixed(bytes, at, 16) {
            Ok((n, next)) => Ok((n as u128, next)),
            Err(e) => Err(e),
        }
    }

    fn read_from_file(file: &mut File) -> (value: Result<Self, Error>) {
        let ghost start = file@.cursor as int;
        match read_fixed(file, 16) {
            Ok(raw) => {
                proof {
                    lemma_le_value_bound(file@.bytes.subrange(start, start + 16));
                    lemma_pow256_values();
                }
                Ok(raw as u128)
            },
            Err(e) => Err(e),
        }
    }
}

impl Codec for u128 {
    open spec fn valid(v: u128) -> bool {
        true
    }

    proof fn lemma_decode(v: u128, table: Table, final_table: Table, bytes: Seq<u8>, at: int) {
        lemma_pow256_values();
        lemma_decode_fixed(v as nat, 16, bytes, at);
    }
}

impl WriteToFile for i8 {
    open spec fn wire(v: i8, table: Table) -> Seq<u8> {
        le_bytes(twos_complement(v as int, 1), 1)
    }

    open spec fn table_after(v: i8, table: Table) -> Table {
        table
    }

    proof fn lemma_table_grows(v: i8, table: Table) {
    }

    fn write_to_file(&self, file: &mut File) -> (done: Result<(), Error>) {
        proof {
            lemma_pow256_values();
        }
        let raw: u128 = if *self >= 0 {
            *self as u128
        } else {
            (*self as i128 + 0x100i128) as u128
        };
        write_fixed(file, raw, 1);
        Ok(())
    }
}

impl ReadFromFile for i8 {
    open spec fn parse(table: Table, bytes: Seq<u8>, at: int) -> Result<(i8, int), Error> {
        match parse_fixed(bytes, at, 1) {
            Ok((n, next)) => Ok((from_twos_complement(n, 1) as i8, next)),
            Err(e) => Err(e),
        }
    }

    fn read_from_file(file: &mut File) -> (value: Result<Self, Error>) {
        let ghost start = file@.cursor as int;
        match read_fixed(file, 1) {
            Ok(raw) => {
                proof {
                    lemma_le_value_bound(file@.bytes.subrange(start, start + 1));
                    lemma_pow256_values();
                }
                let v: i8 = if raw < 0x80u128 {
                    raw as i8
                } else {
                    (raw as i128 - 0x100i128) as i8
                };
                Ok(v)
            },
            Err(e) => Err(e),
        }
    }
}

impl Codec for i8 {
    open spec fn valid(v: i8) -> bool {
        true
    }

    proof fn lemma_decode(v: i8, table: Table, final_table: Table, bytes: Seq<u8>, at: int) {
        lemma_pow256_values();
        lemma_twos_complement_round_trip(v as int, 1);
        lemma_decode_fixed(twos_complement(v as int, 1), 1, bytes, at);
    }
}

impl WriteToFile for i16 {
    open spec fn wire(v: i16, table: Table) -> Seq<u8> {
        le_bytes(twos_complement(v as int, 2), 2)
    }

    open spec fn table_after(v: i16, table: Table) -> Table {
        table
    }

    proof fn lemma_table_grows(v: i16, table: Table) {
    }

    fn write_to_file(&self, file: &mut File) -> (done: Result<(), Error>) {
        proof {
            lemma_pow256_values();
        }
        let raw: u128 = if *self >= 0 {
            *self as u128
        } else {
            (*self as i128 + 0x1_0000i128) as u128
        };
        write_fixed(file, raw, 2);
        Ok(())
    }
}

impl ReadFromFile for i16 {
    open spec fn parse(table: Table, bytes: Seq<u8>, at: int) -> Result<(i16, int), Error> {
        match parse_fixed(bytes, at, 2) {
            Ok((n, next)) => Ok((from_twos_complement(n, 2) as i16, next)),
            Err(e) => Err(e),
        }
    }

    fn read_from_file(file: &mut File) -> (value: Result<Self, Error>) {
        let ghost start = file@.cursor as int;
        match read_fixed(file, 2) {
            Ok(raw) => {
                proof {
                    lemma_le_value_bound(file@.bytes.subrange(start, start + 2));
                    lemma_pow256_values();
                }
                let v: i16 = if raw < 0x8000u128 {
                    raw as i16
                } else {
                    (raw as i128 - 0x1_0000i128) as i16
                };
                Ok(v)
            },
            Err(e) => Err(e),
        }
    }
}

impl Codec for i16 {
    open spec fn valid(v: i16) -> bool {
        true
    }

    proof fn lemma_decode(v: i16, table: Table, final_table: Table, bytes: Seq<u8>, at: int) {
        lemma_pow256_values();
        lemma_twos_complement_round_trip(v as int, 2);
        lemma_decode_fixed(twos_complement(v as int, 2), 2, bytes, at);
    }
}

impl WriteToFile for i32 {
    open spec fn wire(v: i32, table: Table) -> Seq<u8> {
        le_bytes(twos_complement(v as int, 4), 4)
    }

    open spec fn table_after(v: i32, table: Table) -> Table {
        table
    }

    proof fn lemma_table_grows(v: i32, table: Table) {
    }

    fn write_to_file(&self, file: &mut File) -> (done: Result<(), Error>) {
        proof {
            lemma_pow256_values();
        }
        let raw: u128 = if *self >= 0 {
            *self as u128
        } else {
            (*self as i128 + 0x1_0000_0000i128) as u128
        };
        write_fixed(file, raw, 4);
        Ok(())
    }
}

impl ReadFromFile for i32 {
    open spec fn parse(table: Table, bytes: Seq<u8>, at: int) -> Result<(i32, int), Error> {
        match parse_fixed(bytes, at, 4) {
            Ok((n, next)) => Ok((from_twos_complement(n, 4) as i32, next)),
            Err(e) => Err(e),
        }
    }

    fn read_from_file(file: &mut File) -> (value: Result<Self, Error>) {
        let ghost start = file@.cursor as int;
        match read_fixed(file, 4) {
            Ok(raw) => {
                proof {
                    lemma_le_value_bound(file@.bytes.subrange(start, start + 4));
                    lemma_pow256_values();
                }
                let v: i32 = if raw < 0x8000_0000u128 {
                    raw as i32
                } else {
                    (raw as i128 - 0x1_0000_0000i128) as i32
                };
                Ok(v)
            },
            Err(e) => Err(e),
        }
    }
}

impl Codec for i32 {
    open spec fn valid(v: i32) -> bool {
        true
    }

    proof fn lemma_decode(v: i32, table: Table, final_table: Table, bytes: Seq<u8>, at: int) {
        lemma_pow256_values();
        lemma_twos_complement_round_trip(v as int, 4);
        lemma_decode_fixed(twos_complement(v as int, 4), 4, bytes, at);
    }
}

impl WriteToFile for i64 {
    open spec fn wire(v: i64, table: Table) -> Seq<u8> {
        le_bytes(twos_complement(v as int, 8), 8)
    }

    open spec fn table_after(v: i64, table: Table) -> Table {
        table
    }

    proof fn lemma_table_grows(v: i64, table: Table) {
    }

    fn write_to_file(&self, file: &mut File) -> (done: Result<(), Error>) {
        proof {
            lemma_pow256_values();
        }
        let raw: u128 = if *self >= 0 {
            *self as u128
        } else {
            (*self as i128 + 0x1_0000_0000_0000_0000i128) as u128
        };
        write_fixed(file, raw, 8);
        Ok(())
    }
}

impl ReadFromFile for i64 {
    open spec fn parse(table: Table, bytes: Seq<u8>, at: int) -> Result<(i64, int), Error> {
        match parse_fixed(bytes, at, 8) {
            Ok((n, next)) => Ok((from_twos_complement(n, 8) as i64, next)),
            Err(e) => Err(e),
        }
    }

    fn read_from_file(file: &mut File) -> (value: Result<Self, Error>) {
        let ghost start = file@.cursor as int;
        match read_fixed(file, 8) {
            Ok(raw) => {
                proof {
                    lemma_le_value_bound(file@.bytes.subrange(start, start + 8));
                    lemma_pow256_values();
                }
                let v: i64 = if raw < 0x8000_0000_0000_0000u128 {
                    raw as i64
                } else {
                    (raw as i128 - 0x1_0000_0000_0000_0000i128) as i64
                };
                Ok(v)
            },
            Err(e) => Err(e),
        }
    }
}

impl Codec for i64 {
    open spec fn valid(v: i64) -> bool {
        true
    }

    proof fn lemma_decode(v: i64, table: Table, final_table: Table, bytes: Seq<u8>, at: int) {
        lemma_pow256_values();
        lemma_twos_complement_round_trip(v as int, 8);
        lemma_decode_fixed(twos_complement(v as int, 8), 8, bytes, at);
    }
}

impl WriteToFile for i128 {
    open spec fn wire(v: i128, table: Table) -> Seq<u8> {
        le_bytes(twos_complement(v as int, 16), 16)
    }

    open spec fn table_after(v: i128, table: Table) -> Table {
        table
    }

    proof fn lemma_table_grows(v: i128, table: Table) {
    }

    fn write_to_file(&self, file: &mut File) -> (done: Result<(), Error>) {
        proof {
            lemma_pow256_values();
        }
        let raw: u128 = if *self >= 0 {
            *self as u128
        } else {
            (*self - i128::MIN) as u128 + 0x8000_0000_0000_0000_0000_0000_0000_0000u128
        };
        write_fixed(file, raw, 16);
        Ok(())
    }
}

impl ReadFromFile for i128 {
    open spec fn parse(table: Table, bytes: Seq<u8>, at: int) -> Result<(i128, int), Error> {
        match parse_fixed(bytes, at, 16) {
            Ok((n, next)) => Ok((from_twos_complement(n, 16) as i128, next)),
            Err(e) => Err(e),
        }
    }

    fn read_from_file(file: &mut File) -> (value: Result<Self, Error>) {
        let ghost start = file@.cursor as int;
        match read_fixed(file, 16) {
            Ok(raw) => {
                proof {
                    lemma_le_value_bound(file@.bytes.subrange(start, start + 16));
                    lemma_pow256_values();
                }
                let v: i128 = if raw < 0x8000_0000_0000_0000_0000_0000_0000_0000u128 {
                    raw as i128
                } else {
                    (raw - 0x8000_0000_0000_0000_0000_0000_0000_0000u128) as i128 + i128::MIN
                };
                Ok(v)
            },
            Err(e) => Err(e),
        }
    }
}

impl Codec for i128 {
    open spec fn valid(v: i128) -> bool {
        true
    }

    proof fn lemma_decode(v: i128, table: Table, final_table: Table, bytes: Seq<u8>, at: int) {
        lemma_pow256_values();
        lemma_twos_complement_round_trip(v as int, 16);
        lemma_decode_fixed(twos_complement(v as int, 16), 16, bytes, at);
    }
}

} // verus!
