use media_segmenter::text::{decimal_len, push_decimal, push_zero_padded, text_chars};

#[test]
fn decimal_writing() {
    for n in [0u64, 1, 9, 10, 11, 99, 100, 12_345, 1_000_000, u64::MAX] {
        let mut out = String::from(">");
        push_decimal(&mut out, n);
        assert_eq!(out, format!(">{}", n));
        assert_eq!(decimal_len(n), n.to_string().len());
    }
}

#[test]
fn zero_padding() {
    let mut out = String::new();
    push_zero_padded(&mut out, 5, 3);
    assert_eq!(out, "005");
    push_zero_padded(&mut out, 1234, 3);
    assert_eq!(out, "0051234");
    push_zero_padded(&mut out, 0, 0);
    assert_eq!(out, "00512340");
    push_zero_padded(&mut out, 0, 1);
    assert_eq!(out, "005123400");
    let mut wide = String::new();
    push_zero_padded(&mut wide, 42, 8);
    assert_eq!(wide, "00000042");
}

#[test]
fn characters_of_a_text() {
    assert_eq!(text_chars(""), Vec::<char>::new());
    assert_eq!(text_chars("a\u{e9}\u{1f600}."), vec!['a', '\u{e9}', '\u{1f600}', '.']);
}
