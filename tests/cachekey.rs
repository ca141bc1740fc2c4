use demongrep::cachekey::{cache_key, cache_key_material, hex_lower};

#[test]
fn cache_key_is_hex_sha256_of_hash_and_model() {
    assert_eq!(
        cache_key("abc123", "jina-code"),
        "b577d62a74c640fd2548f8d6ed80a7a235c9c75ea72d6906f4dae16427ff14e7"
    );
}

#[test]
fn switching_model_changes_key() {
    let a = cache_key("abc123", "jina-code");
    let b = cache_key("abc123", "bge-small-q");
    assert_eq!(b, "39ebd860b7982f487da1a4e55fd7a149dce8e735706f36cd1043b7ede85dee8e");
    assert_ne!(a, b);
    assert_eq!(cache_key_material("ab", "m"), vec![b'a', b'b', b':', b'm']);
}

#[test]
fn hex_lower_two_digits_per_byte() {
    assert_eq!(hex_lower(&vec![0x00, 0x0f, 0xa5, 0xff]), "000fa5ff");
    assert_eq!(hex_lower(&vec![]), "");
}
