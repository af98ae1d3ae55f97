//! Reader-name matching.

use ykoath::reader::is_yubikey_reader;

#[test]
fn matches_a_real_reader_name() {
    assert!(is_yubikey_reader(b"Yubico YubiKey OTP+FIDO+CCID 00 00"));
}

#[test]
fn matches_case_insensitively() {
    assert!(is_yubikey_reader(b"YUBICO YUBIKEY"));
    assert!(is_yubikey_reader(b"yubico yubikey"));
}

#[test]
fn matches_in_the_middle() {
    assert!(is_yubikey_reader(b"usb yubico yubikey 5c nano"));
}

#[test]
fn rejects_other_readers() {
    assert!(!is_yubikey_reader(b"ACME SmartCard Reader 01"));
    assert!(!is_yubikey_reader(b"yubico"));
    assert!(!is_yubikey_reader(b""));
}

#[test]
fn rejects_a_near_miss() {
    assert!(!is_yubikey_reader(b"yubico-yubikey"));
}
