use pure_lang_binary::{Error, StringInterner};

#[test]
fn default_interner_holds_the_empty_string() {
    let interner = StringInterner::default();
    assert_eq!(interner.len(), 1);
    assert_eq!(interner.get(0), Ok(""));
}

#[test]
fn position_of_is_idempotent() {
    let mut interner = StringInterner::default();
    let first = interner.position_of("alpha").unwrap();
    let len_after_first = interner.len();
    let second = interner.position_of("alpha").unwrap();
    assert_eq!(first, 1);
    assert_eq!(second, 1);
    assert_eq!(interner.len(), len_after_first);
}

#[test]
fn position_of_the_empty_string_is_zero() {
    let mut interner = StringInterner::default();
    assert_eq!(interner.position_of("").unwrap(), 0);
    assert_eq!(interner.len(), 1);
}

#[test]
fn get_out_of_range_is_string_not_found() {
    let interner = StringInterner::default();
    assert_eq!(interner.get(1), Err(Error::StringNotFound { index: 1 }));
    assert_eq!(interner.get(u64::MAX), Err(Error::StringNotFound { index: u64::MAX }));
}

#[test]
fn to_bytes_joins_with_nul_and_pads_to_eight() {
    let mut interner = StringInterner::default();
    interner.position_of("ab").unwrap();
    interner.position_of("c").unwrap();
    // "" NUL "ab" NUL "c" is five bytes; three zero bytes reach eight.
    assert_eq!(interner.to_bytes(), vec![0, b'a', b'b', 0, b'c', 0, 0, 0]);
}

#[test]
fn to_bytes_of_the_default_interner_is_empty() {
    assert_eq!(StringInterner::default().to_bytes(), Vec::<u8>::new());
}

#[test]
fn new_splits_on_nul_and_skips_repeats() {
    let interner = StringInterner::new(&[0, b'a', b'b', 0, b'c', 0, 0, 0]);
    assert_eq!(interner.len(), 3);
    assert_eq!(interner.get(0), Ok(""));
    assert_eq!(interner.get(1), Ok("ab"));
    assert_eq!(interner.get(2), Ok("c"));
}

#[test]
fn new_forces_the_empty_string_to_position_zero() {
    let interner = StringInterner::new(b"x\0y");
    assert_eq!(interner.get(0), Ok(""));
    assert_eq!(interner.get(1), Ok("x"));
    assert_eq!(interner.get(2), Ok("y"));
    assert_eq!(interner.len(), 3);
}

#[test]
fn new_of_no_bytes_is_the_default_table() {
    let interner = StringInterner::new(&[]);
    assert_eq!(interner.len(), 1);
    assert_eq!(interner.get(0), Ok(""));
}

#[test]
fn new_converts_bytes_that_are_not_utf8_lossily() {
    let interner = StringInterner::new(&[0xff]);
    assert_eq!(interner.get(1), Ok("\u{fffd}"));
}

#[test]
fn interner_round_trips_through_bytes() {
    let mut interner = StringInterner::default();
    for s in ["Test", "Test.Test", "[!]System.Object", "héllo", "日本語"] {
        interner.position_of(s).unwrap();
    }
    let back = StringInterner::new(&interner.to_bytes());
    assert_eq!(back.len(), interner.len());
    for i in 0..interner.len() as u64 {
        assert_eq!(back.get(i), interner.get(i));
    }
}
