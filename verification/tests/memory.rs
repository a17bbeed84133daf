use rustynes::memory::{is_misaligned, Memory, MemoryError};

#[test]
fn new_gives_empty_store() {
    let mem = Memory::new();
    assert_eq!(mem.raw(), &Vec::<u8>::new());
}

#[test]
fn empty_string_gives_empty_store() {
    let mem = Memory::new_from_string("").unwrap();
    assert_eq!(mem.raw(), &Vec::<u8>::new());
}

#[test]
fn simple_string() {
    let mem = Memory::new_from_string("DEADBEEF").unwrap();
    assert_eq!(mem.raw(), &vec![0xDE, 0xAD, 0xBE, 0xEF]);
}

#[test]
fn simple_string_with_linebreak() {
    let mem = Memory::new_from_string("DEAD\nBEEF").unwrap();
    assert_eq!(mem.raw(), &vec![0xDE, 0xAD, 0xBE, 0xEF]);
}

#[test]
fn simple_string_with_linebreak_and_spaces() {
    let mem = Memory::new_from_string("DE AD\nBE EF").unwrap();
    assert_eq!(mem.raw(), &vec![0xDE, 0xAD, 0xBE, 0xEF]);
}

#[test]
fn simple_string_with_linebreaks() {
    let mem = Memory::new_from_string("DE\nAD\nBE\nEF").unwrap();
    assert_eq!(mem.raw(), &vec![0xDE, 0xAD, 0xBE, 0xEF]);
}

#[test]
fn lower_case_digits_decode_too() {
    let mem = Memory::new_from_string("deadbeef").unwrap();
    assert_eq!(mem.raw(), &vec![0xDE, 0xAD, 0xBE, 0xEF]);
}

#[test]
fn odd_length_fails() {
    assert_eq!(Memory::new_from_string("D").err(), Some(MemoryError::DecodeError));
}

#[test]
fn odd_length_valid_characters_prior_fails() {
    assert_eq!(Memory::new_from_string("DEADB").err(), Some(MemoryError::DecodeError));
}

#[test]
fn invalid_character_fails() {
    assert_eq!(Memory::new_from_string("ZZ").err(), Some(MemoryError::DecodeError));
}

#[test]
fn odd_digit_count_with_much_whitespace_fails() {
    assert_eq!(Memory::new_from_string(" D EA DB \n").err(), Some(MemoryError::DecodeError));
}

#[test]
fn whitespace_only_gives_empty_store() {
    let mem = Memory::new_from_string(" \n \n ").unwrap();
    assert_eq!(mem.raw(), &Vec::<u8>::new());
}

#[test]
fn text_file_style_dump_decodes() {
    // The shape a hex dump read out of a program file takes: digit
    // pairs separated by spaces, lines separated by newlines.
    let mem = Memory::new_from_string("AA BB CC DD\nEE FF 00 11\n12 34 56 78\n").unwrap();
    assert_eq!(
        mem.raw(),
        &vec![0xAA, 0xBB, 0xCC, 0xDD, 0xEE, 0xFF, 0x00, 0x11, 0x12, 0x34, 0x56, 0x78]
    );
}

#[test]
fn binary_image_at_zero() {
    let mem = Memory::new_from_binary(vec![0xDE, 0xAD, 0xBE, 0xEF], 0);
    assert_eq!(mem.raw(), &vec![0xDE, 0xAD, 0xBE, 0xEF]);
}

#[test]
fn binary_image_at_eight_prepends_two_zeros() {
    let mem = Memory::new_from_binary(vec![0xDE, 0xAD, 0xBE, 0xEF], 8);
    assert_eq!(mem.raw(), &vec![0x00, 0x00, 0xDE, 0xAD, 0xBE, 0xEF]);
}

#[test]
fn empty_binary_image() {
    let mem = Memory::new_from_binary(vec![], 0);
    assert_eq!(mem.raw(), &Vec::<u8>::new());
}

#[test]
fn read_from_aligned_address() {
    let mem = Memory::new_from_string("DEADBEEF").unwrap();
    assert_eq!(mem.read(4), Ok(0xAD));
}

#[test]
fn read_from_misaligned_address() {
    let mem = Memory::new_from_string("DEADBEEF").unwrap();
    assert_eq!(mem.read(5), Ok(0xAD));
}

#[test]
fn read_last_logical_addresses() {
    let mem = Memory::new_from_string("DEADBEEF").unwrap();
    assert_eq!(mem.read(12), Ok(0xEF));
    assert_eq!(mem.read(15), Ok(0xEF));
}

#[test]
fn misaligned_means_not_a_multiple_of_four() {
    assert!(!is_misaligned(0));
    assert!(!is_misaligned(4));
    assert!(is_misaligned(5));
    assert!(is_misaligned(7));
}

#[test]
fn read_past_the_end_fails() {
    let mem = Memory::new_from_string("DEADBEEF").unwrap();
    assert_eq!(mem.read(16), Err(MemoryError::OutOfBoundsError));
}

#[test]
fn read_from_empty_store_fails() {
    let mem = Memory::new();
    assert_eq!(mem.read(0), Err(MemoryError::OutOfBoundsError));
}
