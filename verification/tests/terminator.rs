use strlinebuf::terminator::{CARRIAGE_RETURN, NEWLINE, NUL};
use strlinebuf::Terminator;

const ALL: [Terminator; 6] = [
    Terminator::NoTerminator,
    Terminator::CarriageReturn,
    Terminator::Newline,
    Terminator::NULL,
    Terminator::CarriageReturnNewline,
    Terminator::NewlineCarriageReturn,
];

#[test]
fn width_counts_the_bytes_of_each_terminator() {
    assert_eq!(Terminator::NoTerminator.width(), 0);
    assert_eq!(Terminator::CarriageReturn.width(), 1);
    assert_eq!(Terminator::Newline.width(), 1);
    assert_eq!(Terminator::NULL.width(), 1);
    assert_eq!(Terminator::CarriageReturnNewline.width(), 2);
    assert_eq!(Terminator::NewlineCarriageReturn.width(), 2);
}

#[test]
fn no_terminator_recognizes_nothing() {
    for byte in [b'\r', b'\n', 0u8, b'a'] {
        assert!(!Terminator::NoTerminator.recognizes(byte, None));
        assert!(!Terminator::NoTerminator.recognizes(byte, Some(b'\n')));
        assert!(!Terminator::NoTerminator.recognizes(byte, Some(b'\r')));
    }
}

#[test]
fn one_byte_terminators_look_at_one_byte() {
    for following in [None, Some(b'\r'), Some(b'\n'), Some(0u8), Some(b'a')] {
        assert!(Terminator::CarriageReturn.recognizes(b'\r', following));
        assert!(!Terminator::CarriageReturn.recognizes(b'\n', following));
        assert!(!Terminator::CarriageReturn.recognizes(0, following));

        assert!(Terminator::Newline.recognizes(b'\n', following));
        assert!(!Terminator::Newline.recognizes(b'\r', following));
        assert!(!Terminator::Newline.recognizes(0, following));

        assert!(Terminator::NULL.recognizes(0, following));
        assert!(!Terminator::NULL.recognizes(b'\n', following));
        assert!(!Terminator::NULL.recognizes(b'0', following));
    }
}

#[test]
fn two_byte_terminators_need_both_bytes_in_order() {
    let crlf = Terminator::CarriageReturnNewline;
    assert!(crlf.recognizes(b'\r', Some(b'\n')));
    assert!(!crlf.recognizes(b'\r', None));
    assert!(!crlf.recognizes(b'\r', Some(b'\r')));
    assert!(!crlf.recognizes(b'\n', Some(b'\r')));
    assert!(!crlf.recognizes(b'\n', Some(b'\n')));
    assert!(!crlf.recognizes(b'a', Some(b'\n')));

    let lfcr = Terminator::NewlineCarriageReturn;
    assert!(lfcr.recognizes(b'\n', Some(b'\r')));
    assert!(!lfcr.recognizes(b'\n', None));
    assert!(!lfcr.recognizes(b'\n', Some(b'\n')));
    assert!(!lfcr.recognizes(b'\r', Some(b'\n')));
    assert!(!lfcr.recognizes(b'\r', Some(b'\r')));
    assert!(!lfcr.recognizes(b'a', Some(b'\r')));
}

#[test]
fn terminators_compare_by_variant() {
    for (i, a) in ALL.iter().enumerate() {
        for (j, b) in ALL.iter().enumerate() {
            assert_eq!(a == b, i == j);
        }
    }
    let copy = ALL[4];
    assert_eq!(copy, Terminator::CarriageReturnNewline);
}

#[test]
fn the_named_bytes_are_the_ascii_controls() {
    assert_eq!(CARRIAGE_RETURN, b'\r');
    assert_eq!(CARRIAGE_RETURN, 13);
    assert_eq!(NEWLINE, b'\n');
    assert_eq!(NEWLINE, 10);
    assert_eq!(NUL, b'\0');
    assert_eq!(NUL, 0);
}
