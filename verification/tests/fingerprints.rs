use onvif_discovery::fingerprint::{fingerprint, fold_text, to_hex, FNV_OFFSET};
use onvif_discovery::text::chars_of;

#[test]
fn fingerprints_have_known_values() {
    assert_eq!(fingerprint("10.0.0.5", "00:11:22:33:44:55"), "adb1a6999187a14b");
    assert_eq!(fingerprint("192.168.1.10", "AA:BB:CC:DD:EE:FF"), "7fb2b43f269cdc24");
    assert_eq!(fingerprint("", ""), "cbf29ce484222325");
    assert_eq!(fingerprint("a", ""), "af63dc4c8601ec8c");
}

#[test]
fn the_same_pair_has_the_same_fingerprint() {
    let a = fingerprint("10.0.0.5", "00:11:22:33:44:55");
    let b = fingerprint("10.0.0.5", "00:11:22:33:44:55");
    assert_eq!(a, b);
    assert_eq!(a.len(), 16);
    assert!(a.chars().all(|c| c.is_ascii_hexdigit() && !c.is_ascii_uppercase()));
}

#[test]
fn another_hardware_address_has_another_fingerprint() {
    let a = fingerprint("10.0.0.5", "00:11:22:33:44:55");
    let b = fingerprint("10.0.0.5", "00:11:22:33:44:56");
    assert_eq!(b, "adb1a7999187a2fe");
    assert_ne!(a, b);
    assert_ne!(a, fingerprint("10.0.0.6", "00:11:22:33:44:55"));
}

#[test]
fn the_hash_goes_over_the_address_and_then_the_hardware_address() {
    let h = fold_text(FNV_OFFSET, &chars_of("10.0.0.500:11:22:33:44:55"));
    assert_eq!(to_hex(h), fingerprint("10.0.0.5", "00:11:22:33:44:55"));
}

#[test]
fn numbers_are_written_with_all_their_digits() {
    assert_eq!(to_hex(0), "0000000000000000");
    assert_eq!(to_hex(0xf), "000000000000000f");
    assert_eq!(to_hex(0x0123_4567_89ab_cdef), "0123456789abcdef");
    assert_eq!(to_hex(u64::MAX), "ffffffffffffffff");
}
