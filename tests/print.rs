use rust_basics::print::{int_to_text, pad_end, pad_start, radix, substitute, Piece};

#[test]
fn radix_renderings() {
    assert_eq!(radix(31, 10), "31");
    assert_eq!(radix(31, 2), "11111");
    assert_eq!(radix(31, 16), "1f");
    assert_eq!(radix(0, 2), "0");
    assert_eq!(radix(u64::MAX, 16), "ffffffffffffffff");
}

#[test]
fn signed_text() {
    assert_eq!(int_to_text(0), "0");
    assert_eq!(int_to_text(-21), "-21");
    assert_eq!(int_to_text(i64::MIN), "-9223372036854775808");
    assert_eq!(int_to_text(i64::MAX), "9223372036854775807");
}

#[test]
fn right_justified_width_five() {
    assert_eq!(pad_start("21", 5, ' '), "   21");
}

#[test]
fn zero_padded_on_the_right() {
    assert_eq!(pad_end("21", 5, '0'), "21000");
}

#[test]
fn width_from_a_value() {
    let width = 10usize;
    assert_eq!(pad_start("21", width, '0'), "0000000021");
}

#[test]
fn padding_never_truncates() {
    assert_eq!(pad_start("123456", 3, '*'), "123456");
    assert_eq!(pad_end("", 2, '-'), "--");
}

#[test]
fn positional_arguments_are_reused() {
    let pieces = vec![
        Piece::Arg(0),
        Piece::Text(", test, ".to_string()),
        Piece::Arg(1),
        Piece::Text(", test2, ".to_string()),
        Piece::Arg(0),
    ];
    let args = vec!["10".to_string(), "21".to_string()];
    assert_eq!(substitute(&pieces, &args), Some("10, test, 21, test2, 10".to_string()));
}

#[test]
fn missing_argument_is_refused() {
    let pieces = vec![Piece::Text("a".to_string()), Piece::Arg(2)];
    let args = vec!["x".to_string(), "y".to_string()];
    assert_eq!(substitute(&pieces, &args), None);
}

#[test]
fn empty_template() {
    let pieces: Vec<Piece> = Vec::new();
    let args: Vec<String> = Vec::new();
    assert_eq!(substitute(&pieces, &args), Some(String::new()));
}
