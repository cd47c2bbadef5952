use ambilight::codec::{decode_line, encode_line};
use ambilight::color::Rgb8;

fn rgb(r: u8, g: u8, b: u8) -> Rgb8 {
    Rgb8 { r, g, b }
}

#[test]
fn two_led_example() {
    // A red LED then a green LED is sent as one line with no separator.
    let line = encode_line(&vec![rgb(255, 0, 0), rgb(0, 255, 0)]);
    assert_eq!(line, b"FF000000FF00\n".to_vec());
}

#[test]
fn digits_are_uppercase() {
    let line = encode_line(&vec![rgb(171, 205, 239)]);
    assert_eq!(line, b"ABCDEF\n".to_vec());
}

#[test]
fn empty_ring_is_a_bare_newline() {
    let line = encode_line(&vec![]);
    assert_eq!(line, b"\n".to_vec());
    assert_eq!(decode_line(&line).unwrap(), vec![]);
}

#[test]
fn decode_reads_groups_of_six() {
    let decoded = decode_line(&b"000000FFFFFF\n".to_vec()).unwrap();
    assert_eq!(decoded, vec![rgb(0, 0, 0), rgb(255, 255, 255)]);
}

#[test]
fn round_trip_reproduces_the_ring() {
    let ring = vec![
        rgb(0, 0, 0),
        rgb(255, 255, 255),
        rgb(1, 2, 3),
        rgb(16, 32, 64),
        rgb(200, 50, 50),
        rgb(255, 0, 0),
    ];
    let line = encode_line(&ring);
    assert_eq!(decode_line(&line).unwrap(), ring);
}

#[test]
fn missing_newline_is_rejected() {
    assert!(decode_line(&b"FF0000".to_vec()).is_none());
    assert!(decode_line(&b"".to_vec()).is_none());
}

#[test]
fn ragged_length_is_rejected() {
    assert!(decode_line(&b"FF000\n".to_vec()).is_none());
    assert!(decode_line(&b"FF00000\n".to_vec()).is_none());
}

#[test]
fn newline_inside_the_body_is_rejected() {
    assert!(decode_line(&b"FF0000\n\n".to_vec()).is_none());
}

#[test]
fn non_hex_characters_are_rejected() {
    assert!(decode_line(&b"GG0000\n".to_vec()).is_none());
    // Lowercase digits are not part of the wire format.
    assert!(decode_line(&b"ff0000\n".to_vec()).is_none());
}
