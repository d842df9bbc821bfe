use stack_vm::loader::words_from_bytes;

#[test]
fn test_words_from_bytes_little_endian() {
    let bytes: Vec<u8> = vec![0x78, 0x56, 0x34, 0x12, 0x01, 0x00, 0x00, 0x40];
    let words = words_from_bytes(&bytes);
    assert_eq!(vec![0x12345678u32, 0x40000001u32], words);
}

#[test]
fn test_words_from_bytes_empty() {
    let bytes: Vec<u8> = Vec::new();
    assert_eq!(Vec::<u32>::new(), words_from_bytes(&bytes));
}

#[test]
fn test_words_from_bytes_single_byte_significance() {
    assert_eq!(vec![1u32], words_from_bytes(&vec![1, 0, 0, 0]));
    assert_eq!(vec![0x100u32], words_from_bytes(&vec![0, 1, 0, 0]));
    assert_eq!(vec![0x10000u32], words_from_bytes(&vec![0, 0, 1, 0]));
    assert_eq!(vec![0x1000000u32], words_from_bytes(&vec![0, 0, 0, 1]));
}
