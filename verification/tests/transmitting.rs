//! Status-word mapping and multi-part reply chaining.

use ykoath::chain;
use ykoath::status::{status, Status};
use ykoath::Error;

#[test]
fn status_success() {
    assert_eq!(status(0x9000), Ok(Status::Success));
}

#[test]
fn status_more_data_across_whole_range() {
    assert_eq!(status(0x6100), Ok(Status::MoreData));
    assert_eq!(status(0x6142), Ok(Status::MoreData));
    assert_eq!(status(0x61ff), Ok(Status::MoreData));
}

#[test]
fn status_error_words() {
    assert_eq!(status(0x6a84), Err(Error::NoSpace));
    assert_eq!(status(0x6984), Err(Error::NoSuchObject));
    assert_eq!(status(0x6982), Err(Error::AuthRequired));
    assert_eq!(status(0x6a80), Err(Error::WrongSyntax));
    assert_eq!(status(0x6581), Err(Error::GenericError));
}

#[test]
fn status_unknown_word_carried_verbatim() {
    assert_eq!(status(0x1234), Err(Error::UnknownCode(0x1234)));
    assert_eq!(status(0x9001), Err(Error::UnknownCode(0x9001)));
    assert_eq!(status(0x6200), Err(Error::UnknownCode(0x6200)));
}

#[test]
fn chain_step_success_appends_and_stops() {
    let mut acc = vec![0x01u8];
    let more = chain_step_ok(&mut acc, &[0x02, 0x03, 0x90, 0x00]);
    assert!(!more);
    assert_eq!(acc, vec![0x01, 0x02, 0x03]);
}

#[test]
fn chain_step_more_data_appends_and_continues() {
    let mut acc = Vec::new();
    let more = chain_step_ok(&mut acc, &[0xaa, 0x61, 0x10]);
    assert!(more);
    assert_eq!(acc, vec![0xaa]);
}

#[test]
fn chain_step_error_leaves_buffer_unchanged() {
    let mut acc = vec![0x01u8];
    let r = chain::chain_step(&mut acc, &[0xaa, 0x69, 0x82]);
    assert_eq!(r, Err(Error::AuthRequired));
    assert_eq!(acc, vec![0x01]);
}

#[test]
fn chain_step_short_reply_is_insufficient_data() {
    let mut acc = Vec::new();
    let r = chain::chain_step(&mut acc, &[0x90]);
    assert_eq!(r, Err(Error::InsufficientData));
    assert!(acc.is_empty());
}

#[test]
fn assemble_single_transmission() {
    let replies = vec![vec![0x01u8, 0x02, 0x90, 0x00]];
    let (data, used) = chain::assemble(&replies).unwrap();
    assert_eq!(data, vec![0x01, 0x02]);
    assert_eq!(used, 1);
}

#[test]
fn assemble_issues_one_continuation_per_more_data_word() {
    let replies = vec![
        vec![0x01u8, 0x61, 0x02],
        vec![0x02u8, 0x61, 0xff],
        vec![0x03u8, 0x90, 0x00],
    ];
    let (data, used) = chain::assemble(&replies).unwrap();
    assert_eq!(data, vec![0x01, 0x02, 0x03]);
    assert_eq!(used, 3);
}

#[test]
fn assemble_stops_at_first_terminal_word() {
    let replies = vec![
        vec![0x01u8, 0x61, 0x00],
        vec![0x02u8, 0x90, 0x00],
        vec![0xffu8, 0xff, 0xff],
    ];
    let (data, used) = chain::assemble(&replies).unwrap();
    assert_eq!(data, vec![0x01, 0x02]);
    assert_eq!(used, 2);
}

#[test]
fn assemble_propagates_first_error() {
    let replies = vec![vec![0x01u8, 0x61, 0x00], vec![0x69u8, 0x82]];
    assert_eq!(chain::assemble(&replies), Err(Error::AuthRequired));
}

#[test]
fn assemble_running_out_of_replies_is_insufficient_data() {
    let replies = vec![vec![0x01u8, 0x61, 0x00]];
    assert_eq!(chain::assemble(&replies), Err(Error::InsufficientData));
}

#[test]
fn assemble_empty_data_parts() {
    let replies = vec![vec![0x61u8, 0x00], vec![0x90u8, 0x00]];
    let (data, used) = chain::assemble(&replies).unwrap();
    assert!(data.is_empty());
    assert_eq!(used, 2);
}

fn chain_step_ok(acc: &mut Vec<u8>, reply: &[u8]) -> bool {
    chain::chain_step(acc, reply).unwrap()
}
