use fastcarve::carve::output_path;
use fastcarve::digest::{md5_hex, sha256_hex, to_hex16};

#[test]
fn md5_of_abc() {
    assert_eq!(md5_hex(b"abc"), "900150983cd24fb0d6963f7d28e17f72");
}

#[test]
fn sha256_of_abc() {
    assert_eq!(
        sha256_hex(b"abc"),
        "ba7816bf8f01cfea414140de5dae2223b00361a396177a9cb410ff61f20015ad"
    );
}

#[test]
fn hex16_is_zero_padded_lowercase() {
    assert_eq!(to_hex16(0), "0000000000000000");
    assert_eq!(to_hex16(0xABCDEF), "0000000000abcdef");
    assert_eq!(to_hex16(u64::MAX), "ffffffffffffffff");
}

#[test]
fn output_path_layout() {
    assert_eq!(output_path("jpeg", "jpg", 4096), "carved/jpeg_0000000000001000.jpg");
}
