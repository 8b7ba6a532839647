use bytes::Bytes;
use heyrnode::kiss::{escape_slice, KISS};

// The frame end goes out as FESC, TFEND, as the escaping is documented and
// as the receiver decodes it; a bare FEND in the payload would end the frame.
#[test]
fn escape() {
    assert_eq!(
        KISS::escape(Bytes::from_iter([KISS::FEND.byte(), 54, 45, 53, 54])),
        vec![KISS::FESC.byte(), KISS::TFEND.byte(), 54, 45, 53, 54]
    );
}

#[test]
fn escape_codes() {
    assert_eq!(KISS::FEND.byte(), 0xC0);
    assert_eq!(KISS::FESC.byte(), 0xDB);
    assert_eq!(KISS::TFEND.byte(), 0xDC);
    assert_eq!(KISS::TFESC.byte(), 0xDD);
}

#[test]
fn escape_frame_escape_byte() {
    assert_eq!(
        KISS::escape(Bytes::from_static(&[1, 0xDB, 2])),
        vec![1, 0xDB, 0xDD, 2]
    );
}

#[test]
fn escape_both_codes_and_length() {
    let input = [0xC0, 0xDB, 0xC0, 7, 0xDB];
    let out = KISS::escape(Bytes::copy_from_slice(&input));
    assert_eq!(out, vec![0xDB, 0xDC, 0xDB, 0xDD, 0xDB, 0xDC, 7, 0xDB, 0xDD]);
    assert!(!out.contains(&0xC0));
    assert_eq!(out.len(), input.len() + 4);
}

#[test]
fn escape_plain_is_unchanged() {
    let input = [1u8, 2, 3, 0xDC, 0xDD];
    assert_eq!(KISS::escape(Bytes::copy_from_slice(&input)), input.to_vec());
    assert_eq!(KISS::escape(Bytes::new()), Vec::<u8>::new());
}

#[test]
fn escape_slice_matches_escape() {
    let input = [0xC0u8, 1, 0xDB];
    assert_eq!(escape_slice(&input), vec![0xDB, 0xDC, 1, 0xDB, 0xDD]);
    assert_eq!(escape_slice(&[]), Vec::<u8>::new());
}
