use std::cmp::Ordering;

use edit_icu::bytes::{find_bytes, round_up_to_boundary};
use edit_icu::converter::str_equals;
use edit_icu::{
    apperr_format, compare_strings, fold_case, get_available_encodings, init, Converter, Error,
    Text,
};

#[test]
fn catalog_lists_utf8_and_utf8_bom() {
    let e = get_available_encodings();
    for list in [&e.preferred, &e.all] {
        assert_eq!(list.len(), 2);
        assert_eq!(list[0].label, "UTF-8");
        assert_eq!(list[0].canonical, "UTF-8");
        assert_eq!(list[1].label, "UTF-8 BOM");
        assert_eq!(list[1].canonical, "UTF-8 BOM");
    }
}

#[test]
fn init_succeeds() {
    assert_eq!(init(), Ok(()));
}

#[test]
fn error_text_is_padded_hex() {
    assert_eq!(apperr_format(16), "ICU Error (Stub): 0x000010");
    assert_eq!(apperr_format(1), "ICU Error (Stub): 0x000001");
    assert_eq!(apperr_format(0xabcdef12), "ICU Error (Stub): 0xabcdef12");
    assert_eq!(Error::UnsupportedEncoding.code(), 16);
    assert_eq!(Error::InvalidPattern.code(), 1);
}

#[test]
fn converter_accepts_every_utf8_pair() {
    let names = ["UTF-8", "UTF-8 BOM"];
    for s in names {
        for t in names {
            let mut pivot = [0u16; 4];
            assert!(Converter::new(&mut pivot, s, t).is_ok());
        }
    }
}

#[test]
fn converter_rejects_other_encodings() {
    let mut pivot = [0u16; 4];
    for (s, t) in [
        ("UTF-16", "UTF-8"),
        ("UTF-8", "ISO-8859-1"),
        ("utf-8", "UTF-8"),
        ("UTF-8 ", "UTF-8"),
        ("", ""),
    ] {
        match Converter::new(&mut pivot, s, t) {
            Err(e) => assert_eq!(e, Error::UnsupportedEncoding),
            Ok(_) => panic!("accepted {s} -> {t}"),
        }
    }
}

#[test]
fn convert_copies_whole_input_when_it_fits() {
    let mut pivot = [0u16; 1];
    let mut c = Converter::new(&mut pivot, "UTF-8", "UTF-8 BOM").unwrap();
    let input = "héllo".as_bytes();
    let mut output = [0xffu8; 10];
    assert_eq!(c.convert(input, &mut output), Ok((6, 6)));
    assert_eq!(&output[..6], input);
    assert_eq!(&output[6..], &[0xff; 4]);
}

#[test]
fn convert_truncates_to_output_length() {
    let mut pivot = [0u16; 1];
    let mut c = Converter::new(&mut pivot, "UTF-8", "UTF-8").unwrap();
    let mut output = [0u8; 3];
    assert_eq!(c.convert(b"abcdef", &mut output), Ok((3, 3)));
    assert_eq!(&output, b"abc");
    let mut empty: [u8; 0] = [];
    assert_eq!(c.convert(b"abc", &mut empty), Ok((0, 0)));
}

#[test]
fn compare_is_bytewise() {
    assert_eq!(compare_strings(b"abc", b"abc"), Ordering::Equal);
    assert_eq!(compare_strings(b"", b""), Ordering::Equal);
    assert_eq!(compare_strings(b"abc", b"abd"), Ordering::Less);
    assert_eq!(compare_strings(b"abd", b"abc"), Ordering::Greater);
    assert_eq!(compare_strings(b"ab", b"abc"), Ordering::Less);
    assert_eq!(compare_strings(b"abc", b"ab"), Ordering::Greater);
    assert_eq!(compare_strings(b"B", b"a"), Ordering::Less);
    assert_eq!(compare_strings(b"\xff", b"a"), Ordering::Greater);
}

#[test]
fn compare_is_antisymmetric_and_transitive() {
    let words: [&[u8]; 5] = [b"", b"a", b"ab", b"b", b"B"];
    for a in words {
        for b in words {
            assert_eq!(compare_strings(a, b), compare_strings(b, a).reverse());
            assert_eq!(compare_strings(a, b) == Ordering::Equal, a == b);
            for c in words {
                if compare_strings(a, b) == Ordering::Less && compare_strings(b, c) == Ordering::Less {
                    assert_eq!(compare_strings(a, c), Ordering::Less);
                }
            }
        }
    }
}

#[test]
fn fold_case_lowercases() {
    assert_eq!(fold_case("HELLO"), "hello");
    assert_eq!(fold_case("ÄÖÜ Straße"), "äöü straße");
    assert_eq!(fold_case(""), "");
}

#[test]
fn fold_case_is_idempotent() {
    for s in ["HELLO", "MiXeD 123", "ΣΑΣ", "İstanbul", "ẞ"] {
        let once = fold_case(s);
        assert_eq!(fold_case(&once), once);
    }
}

#[test]
fn text_rebuilds_from_chunks() {
    let mut t = Text::new();
    assert_eq!(t.content, "");
    t.refresh(8);
    assert!(t.push_chunk(b"hello "));
    assert_eq!(t.read_offset(), 6);
    assert!(t.push_chunk(b"world"));
    assert!(!t.push_chunk(b""));
    assert_eq!(t.content, "hello world");
    assert_eq!(t.read_offset(), 11);
    t.refresh(3);
    assert_eq!(t.content, "");
    assert_eq!(t.read_offset(), 0);
}

#[test]
fn text_replaces_invalid_utf8() {
    let mut t = Text::new();
    assert!(t.push_chunk(b"a\xffb"));
    assert_eq!(t.content, "a\u{FFFD}b");
    // A code point split between two chunks is decoded chunk by chunk.
    let mut u = Text::new();
    assert!(u.push_chunk(&[0xc3]));
    assert!(u.push_chunk(&[0xa9]));
    assert_eq!(u.content, "\u{FFFD}\u{FFFD}");
}

#[test]
fn byte_search_finds_first_occurrence() {
    assert_eq!(find_bytes(b"concatenate", b"cat"), Some(3));
    assert_eq!(find_bytes(b"aaa", b"aa"), Some(0));
    assert_eq!(find_bytes(b"abc", b""), Some(0));
    assert_eq!(find_bytes(b"abc", b"abcd"), None);
    assert_eq!(find_bytes(b"abc", b"x"), None);
}

#[test]
fn boundaries_round_up() {
    let s = "aé€b";
    assert_eq!(round_up_to_boundary(s, 0), 0);
    assert_eq!(round_up_to_boundary(s, 2), 3);
    assert_eq!(round_up_to_boundary(s, 4), 6);
    assert_eq!(round_up_to_boundary(s, 7), 7);
    assert_eq!(round_up_to_boundary(s, 8), 8);
}

#[test]
fn strings_compare_by_text() {
    assert!(str_equals("UTF-8", "UTF-8"));
    assert!(!str_equals("UTF-8", "UTF-8 BOM"));
    assert!(str_equals("", ""));
}
