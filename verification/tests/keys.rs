use metgen::keys::{decrypt_key, encrypt_key, key_from_bytes};

#[test]
fn key_is_stored_in_base64() {
    assert_eq!(encrypt_key("secret"), "c2VjcmV0");
    assert_eq!(encrypt_key("abc"), "YWJj");
    assert_eq!(encrypt_key("ab"), "YWI=");
    assert_eq!(encrypt_key("a"), "YQ==");
    assert_eq!(encrypt_key(""), "");
    assert_eq!(encrypt_key("ключ"), "0LrQu9GO0Yc=");
}

#[test]
fn stored_key_is_read_back() {
    assert_eq!(decrypt_key("c2VjcmV0"), "secret");
    assert_eq!(decrypt_key("YQ=="), "a");
    assert_eq!(decrypt_key(""), "");
    for key in ["", "a", "0123456789abcdef0123456789abcdef", "ключ"] {
        assert_eq!(decrypt_key(&encrypt_key(key)), key);
    }
}

#[test]
fn stored_key_that_is_no_base64_reads_as_empty() {
    assert_eq!(decrypt_key("not base64!"), "");
    assert_eq!(decrypt_key("YQ"), "");
    assert_eq!(decrypt_key("c2VjcmV0\n"), "");
}

#[test]
fn stored_key_that_is_no_text_reads_as_empty() {
    // The single byte 0xff.
    assert_eq!(decrypt_key("/w=="), "");
}

#[test]
fn key_from_decoded_bytes() {
    assert_eq!(key_from_bytes(Some(vec![b'a', b'b', b'c'])), "abc");
    assert_eq!(key_from_bytes(Some(vec![0xd0, 0xba])), "к");
    assert_eq!(key_from_bytes(Some(Vec::new())), "");
    assert_eq!(key_from_bytes(Some(vec![0xff])), "");
    assert_eq!(key_from_bytes(Some(vec![b'a', 0xc3])), "");
    assert_eq!(key_from_bytes(None), "");
}
