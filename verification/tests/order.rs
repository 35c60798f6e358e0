use rowsearch::order::{bytes_ge, bytes_le};

#[test]
fn uppercase_sorts_before_lowercase() {
    assert!(bytes_le(b"B", b"a"));
    assert!(!bytes_le(b"a", b"B"));
    assert!(bytes_ge(b"a", b"B"));
    assert!(!bytes_ge(b"B", b"a"));
}

#[test]
fn equal_strings_are_both_le_and_ge() {
    assert!(bytes_le(b"baz", b"baz"));
    assert!(bytes_ge(b"baz", b"baz"));
    assert!(bytes_le(b"", b""));
    assert!(bytes_ge(b"", b""));
}

#[test]
fn a_proper_prefix_is_less() {
    assert!(bytes_le(b"ab", b"abc"));
    assert!(!bytes_le(b"abc", b"ab"));
    assert!(bytes_ge(b"abc", b"ab"));
    assert!(!bytes_ge(b"ab", b"abc"));
}

#[test]
fn the_empty_string_is_least() {
    assert!(bytes_le(b"", b"a"));
    assert!(bytes_le(b"", &[0u8]));
    assert!(!bytes_le(b"a", b""));
    assert!(!bytes_le(&[0u8], b""));
}

#[test]
fn first_difference_decides() {
    assert!(!bytes_le(b"foo", b"baz"));
    assert!(bytes_le(b"bar", b"baz"));
    assert!(bytes_le(b"baz", b"qux"));
    assert!(!bytes_le(b"bb", b"ba"));
    assert!(bytes_le(b"az", b"b"));
    assert!(!bytes_le(b"b", b"az"));
}

#[test]
fn bytes_are_unsigned() {
    assert!(bytes_le(&[0x7f], &[0x80]));
    assert!(!bytes_le(&[0x80], &[0x7f]));
    assert!(bytes_le(&[0x00], &[0xff]));
    assert!(bytes_ge(&[0xff], &[0x00]));
}

#[test]
fn numbers_are_not_read_as_numbers() {
    assert!(bytes_le(b"10", b"9"));
    assert!(!bytes_le(b"9", b"10"));
}

#[test]
fn order_agrees_with_slices_of_std() {
    let samples: Vec<&[u8]> = vec![
        b"", b"a", b"A", b"ab", b"abc", b"abd", b"b", b"B", b"ba", b"bar", b"baz", b"foo", b"qux",
        &[0u8], &[0u8, 0u8], &[0xff], &[0xff, 0x00], &[0x7f], &[0x80],
    ];
    for a in samples.iter() {
        for b in samples.iter() {
            assert_eq!(bytes_le(a, b), a <= b);
            assert_eq!(bytes_ge(a, b), a >= b);
        }
    }
}

#[test]
fn order_is_total_and_antisymmetric_on_samples() {
    let samples: Vec<&[u8]> = vec![b"", b"a", b"ab", b"b", b"B", &[0xff], &[0x00, 0x01]];
    for a in samples.iter() {
        for b in samples.iter() {
            assert!(bytes_le(a, b) || bytes_le(b, a));
            if bytes_le(a, b) && bytes_le(b, a) {
                assert_eq!(a, b);
            }
        }
    }
}
