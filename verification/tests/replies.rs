//! Operation decoders on assembled reply buffers.

use ykoath::{calculate, calculate_all, list, select};
use ykoath::{Algorithm, Error, Type};

#[test]
fn select_with_version_and_name_only() {
    // A token that does not enforce validation ends its reply after NAME;
    // that is not an error.
    let reply = [0x79u8, 0x03, 0x05, 0x04, 0x03, 0x71, 0x02, 0xaa, 0xbb];
    let r = select::decode(&reply).unwrap();
    assert_eq!(r.version, vec![0x05, 0x04, 0x03]);
    assert_eq!(r.name, vec![0xaa, 0xbb]);
    assert!(r.inner.is_none());
}

#[test]
fn select_with_challenge_and_algorithm() {
    let reply = [
        0x79u8, 0x03, 0x05, 0x04, 0x03, 0x71, 0x01, 0xaa, 0x74, 0x02, 0x01, 0x02, 0x7b, 0x01,
        0x02,
    ];
    let r = select::decode(&reply).unwrap();
    let inner = r.inner.unwrap();
    assert_eq!(inner.challenge, vec![0x01, 0x02]);
    assert_eq!(inner.algorithm, Algorithm::HmacSha256);
}

#[test]
fn select_rejects_unknown_algorithm_byte() {
    let reply = [
        0x79u8, 0x01, 0x05, 0x71, 0x01, 0xaa, 0x74, 0x01, 0x01, 0x7b, 0x01, 0x04,
    ];
    assert_eq!(select::decode(&reply).unwrap_err(), Error::UnexpectedValue(0x04));
}

#[test]
fn select_rejects_overlong_algorithm_record() {
    let reply = [
        0x79u8, 0x01, 0x05, 0x71, 0x01, 0xaa, 0x74, 0x01, 0x01, 0x7b, 0x02, 0x01, 0x02,
    ];
    assert_eq!(select::decode(&reply).unwrap_err(), Error::UnexpectedValue(0x02));
}

#[test]
fn select_rejects_wrong_leading_tag() {
    let reply = [0x71u8, 0x01, 0xaa];
    assert_eq!(select::decode(&reply).unwrap_err(), Error::UnexpectedValue(0x71));
}

#[test]
fn list_empty_reply_is_empty_listing() {
    let reply: [u8; 0] = [];
    let r = list::decode(&reply).unwrap();
    assert!(r.is_empty());
}

#[test]
fn list_decodes_records() {
    let reply = [
        0x72u8, 0x05, 0x21, 0x6e, 0x61, 0x6d, 0x65, 0x72, 0x02, 0x12, 0x78,
    ];
    let r = list::decode(&reply).unwrap();
    assert_eq!(r.len(), 2);
    assert_eq!(r[0].type_, Type::Totp);
    assert_eq!(r[0].algorithm, Algorithm::HmacSha1);
    assert_eq!(r[0].name, b"name".to_vec());
    assert_eq!(r[1].type_, Type::Hotp);
    assert_eq!(r[1].algorithm, Algorithm::HmacSha256);
    assert_eq!(r[1].name, vec![0x78]);
}

#[test]
fn list_rejects_record_without_type_byte() {
    let reply = [0x72u8, 0x00];
    assert_eq!(list::decode(&reply).unwrap_err(), Error::InsufficientData);
}

#[test]
fn list_rejects_unknown_type_nibble() {
    let reply = [0x72u8, 0x01, 0x31];
    assert_eq!(list::decode(&reply).unwrap_err(), Error::UnexpectedValue(0x30));
}

#[test]
fn list_rejects_unknown_algorithm_nibble() {
    let reply = [0x72u8, 0x01, 0x24];
    assert_eq!(list::decode(&reply).unwrap_err(), Error::UnexpectedValue(0x04));
}

#[test]
fn list_rejects_truncated_record() {
    let reply = [0x72u8, 0x0a, 0x21, 0x61, 0x62];
    assert_eq!(list::decode(&reply).unwrap_err(), Error::InsufficientData);
}

#[test]
fn calculate_decodes_truncated_response() {
    let reply = [0x76u8, 0x05, 0x06, 0x3e, 0xd0, 0x61, 0x01];
    let r = calculate::decode(&reply, true).unwrap();
    assert_eq!(r.digits, 6);
    assert_eq!(r.response, vec![0x3e, 0xd0, 0x61, 0x01]);
}

#[test]
fn calculate_expects_full_tag_without_truncation() {
    let reply = [0x75u8, 0x02, 0x06, 0xaa];
    let r = calculate::decode(&reply, false).unwrap();
    assert_eq!(r.digits, 6);
    assert_eq!(r.response, vec![0xaa]);
    assert_eq!(
        calculate::decode(&reply, true).unwrap_err(),
        Error::UnexpectedValue(0x75),
    );
}

#[test]
fn calculate_rejects_empty_response_record() {
    let reply = [0x76u8, 0x00];
    assert_eq!(calculate::decode(&reply, true).unwrap_err(), Error::InsufficientData);
}

#[test]
fn calculate_all_empty_reply_is_empty_sequence() {
    let reply: [u8; 0] = [];
    let r = calculate_all::decode(&reply, true).unwrap();
    assert!(r.is_empty());
}

#[test]
fn calculate_all_decodes_responses() {
    let reply = [
        0x71u8, 0x01, 0x61, 0x76, 0x05, 0x06, 0x3e, 0xd0, 0x61, 0x01,
    ];
    let r = calculate_all::decode(&reply, true).unwrap();
    assert_eq!(r.len(), 1);
    assert_eq!(r[0].name, vec![0x61]);
    match &r[0].inner {
        calculate_all::Inner::Response(resp) => {
            assert_eq!(resp.digits, 6);
            assert_eq!(resp.response, vec![0x3e, 0xd0, 0x61, 0x01]);
        }
        _ => panic!("expected a response"),
    }
}

#[test]
fn calculate_all_hotp_record_is_not_a_response() {
    // The bytes after an HOTP marker are the next record, never response
    // data for the marked name.
    let reply = [
        0x71u8, 0x03, 0x61, 0x62, 0x63, 0x77, 0x00, 0x71, 0x01, 0x64, 0x76, 0x03, 0x06, 0xab,
        0xcd,
    ];
    let r = calculate_all::decode(&reply, true).unwrap();
    assert_eq!(r.len(), 2);
    assert_eq!(r[0].name, b"abc".to_vec());
    assert!(matches!(r[0].inner, calculate_all::Inner::Hotp));
    assert_eq!(r[1].name, vec![0x64]);
    match &r[1].inner {
        calculate_all::Inner::Response(resp) => {
            assert_eq!(resp.digits, 6);
            assert_eq!(resp.response, vec![0xab, 0xcd]);
        }
        _ => panic!("expected a response"),
    }
}

#[test]
fn calculate_all_touch_record() {
    let reply = [0x71u8, 0x01, 0x61, 0x7c, 0x00];
    let r = calculate_all::decode(&reply, true).unwrap();
    assert_eq!(r.len(), 1);
    assert!(matches!(r[0].inner, calculate_all::Inner::Touch));
}

#[test]
fn calculate_all_rejects_bad_inner_tag() {
    let reply = [0x71u8, 0x01, 0x61, 0x75, 0x02, 0x06, 0xaa];
    assert_eq!(
        calculate_all::decode(&reply, true).unwrap_err(),
        Error::UnexpectedValue(0x75),
    );
}

#[test]
fn calculate_all_rejects_truncated_name_record() {
    let reply = [0x71u8, 0x0a, 0x61, 0x62, 0x63];
    assert_eq!(
        calculate_all::decode(&reply, true).unwrap_err(),
        Error::InsufficientData,
    );
}
