use sj_probe::fnv::{fnv1a, hostname_hash};

#[test]
fn fnv1a_known_values() {
    assert_eq!(fnv1a(""), 0xcbf29ce484222325);
    assert_eq!(fnv1a("a"), 0xaf63dc4c8601ec8c);
    assert_eq!(fnv1a("foobar"), 0x85944171f73967e8);
}

#[test]
fn hostname_hash_is_sixteen_hex_digits() {
    assert_eq!(hostname_hash("my-laptop"), "97b8d85b46e14582");
    assert_eq!(hostname_hash(""), "cbf29ce484222325");
    let h = hostname_hash("a");
    assert_eq!(h, "af63dc4c8601ec8c");
    assert_eq!(h.len(), 16);
}
