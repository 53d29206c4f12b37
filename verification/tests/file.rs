use pure_lang_binary::{Error, File};

#[test]
fn a_file_is_a_length_a_table_block_and_a_payload() {
    let mut file = File::default();
    assert_eq!(file.string_position_of("ab"), Ok(1));
    file.writer().write_all(&[9, 8, 7]);
    let bytes = file.to_bytes().unwrap();
    let mut expected = Vec::new();
    expected.extend_from_slice(&8u64.to_le_bytes());
    expected.extend_from_slice(&[0, b'a', b'b', 0, 0, 0, 0, 0]);
    expected.extend_from_slice(&[9, 8, 7]);
    assert_eq!(bytes, expected);
}

#[test]
fn the_default_file_is_eight_zero_bytes() {
    assert_eq!(File::default().to_bytes().unwrap(), vec![0u8; 8]);
}

#[test]
fn a_file_round_trips_with_its_cursor_at_the_start() {
    let mut file = File::default();
    for s in ["one", "two", "three", "one"] {
        file.string_position_of(s).unwrap();
    }
    file.writer().write_all(&[1, 2, 3, 4, 5]);
    assert_eq!(file.position(), 5);
    let back = File::new(&file.to_bytes().unwrap()).unwrap();
    assert_eq!(back.position(), 0);
    assert_eq!(back.payload(), file.payload());
    for i in 0..5 {
        assert_eq!(back.get_string(i), file.get_string(i));
    }
    assert_eq!(back.get_string(3), Ok("three"));
    assert_eq!(back.get_string(4), Err(Error::StringNotFound { index: 4 }));
}

#[test]
fn new_needs_the_length_and_the_whole_table_block() {
    assert!(matches!(File::new(&[]), Err(Error::ShortRead)));
    assert!(matches!(File::new(&[0; 7]), Err(Error::ShortRead)));
    assert!(File::new(&[0; 8]).is_ok());
    let mut bytes = 3u64.to_le_bytes().to_vec();
    bytes.extend_from_slice(b"ab");
    assert!(matches!(File::new(&bytes), Err(Error::ShortRead)));
    bytes.push(b'c');
    let file = File::new(&bytes).unwrap();
    assert_eq!(file.get_string(1), Ok("abc"));
    assert!(file.payload().is_empty());
    assert!(matches!(File::new(&[0xff; 8]), Err(Error::ShortRead)));
    assert!(matches!(File::new(&[0xff; 64]), Err(Error::ShortRead)));
}

#[test]
fn read_exact_moves_the_cursor_or_reports_a_short_read() {
    let mut file = File::default();
    file.writer().write_all(&[1, 2, 3]);
    file.reader().set_position(0);
    assert_eq!(file.reader().read_exact(2), Ok(vec![1, 2]));
    assert_eq!(file.position(), 2);
    assert_eq!(file.reader().read_exact(2), Err(Error::ShortRead));
    assert_eq!(file.position(), 3);
    assert_eq!(file.reader().read_exact(0), Ok(vec![]));
    file.reader().set_position(1);
    assert_eq!(file.reader().read_exact(2), Ok(vec![2, 3]));
}

#[test]
fn write_all_replaces_at_the_cursor_and_grows_at_the_end() {
    let mut file = File::default();
    file.writer().write_all(&[1, 2, 3, 4]);
    file.reader().set_position(1);
    file.writer().write_all(&[9, 9]);
    assert_eq!(file.payload(), &vec![1, 9, 9, 4]);
    assert_eq!(file.position(), 3);
    file.writer().write_all(&[7, 7, 7]);
    assert_eq!(file.payload(), &vec![1, 9, 9, 7, 7, 7]);
    assert_eq!(file.position(), 6);
}

#[test]
fn write_all_behind_the_end_fills_the_gap_with_zeros() {
    let mut file = File::default();
    file.writer().write_all(&[1]);
    file.reader().set_position(3);
    file.writer().write_all(&[5]);
    assert_eq!(file.payload(), &vec![1, 0, 0, 5]);
    assert_eq!(file.position(), 4);
}

#[test]
fn string_positions_are_stable() {
    let mut file = File::default();
    assert_eq!(file.string_position_of(""), Ok(0));
    assert_eq!(file.string_position_of("a"), Ok(1));
    assert_eq!(file.string_position_of("b"), Ok(2));
    assert_eq!(file.string_position_of("a"), Ok(1));
    assert_eq!(file.get_string(0), Ok(""));
    assert_eq!(file.get_string(2), Ok("b"));
}
