use lych::uart::{put_digit, puts, serial_bytes};

#[test]
fn line_feed_gets_carriage_return() {
    assert_eq!(puts("a\nb"), vec![b'a', b'\r', b'\n', b'b']);
    assert_eq!(puts("\n\n"), vec![b'\r', b'\n', b'\r', b'\n']);
    assert_eq!(puts(""), Vec::<u8>::new());
    assert_eq!(puts("Booting...\n"), b"Booting...\r\n".to_vec());
}

#[test]
fn digits_are_ascii() {
    assert_eq!(put_digit(0), b'0');
    assert_eq!(put_digit(7), b'7');
    assert_eq!(put_digit(9), b'9');
}

#[test]
fn single_byte_encoding() {
    assert_eq!(serial_bytes(b'\n'), (Some(b'\r'), b'\n'));
    assert_eq!(serial_bytes(b'x'), (None, b'x'));
    assert_eq!(serial_bytes(b'\r'), (None, b'\r'));
}
