use sunspec_rs::modbus_test_harness::string_to_vec_word;

#[test]
fn test_stvw() {
    let s = "test".to_string();
    assert_eq!(vec![0x7465, 0x7374], string_to_vec_word(s));
}

#[test]
fn test_stvw_empty() {
    assert_eq!(Vec::<u16>::new(), string_to_vec_word(String::new()));
}

#[test]
fn test_stvw_odd_byte_dropped() {
    // a trailing odd byte contributes no word
    assert_eq!(vec![0x7465], string_to_vec_word("tes".to_string()));
}
