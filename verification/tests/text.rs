use satnogs_monitor::report::format_error;
use satnogs_monitor::text::{
    align_left, align_right, blank_text, decimal_text, explicit_decimal_text, list_text, push_span,
    push_str, signed_decimal_text, Color, Span,
};

#[test]
fn padding_agrees_with_the_standard_formats() {
    for s in ["", "a", "FM", "CW-MODE", "a longer text than any field has", "°┬─"] {
        for width in [0usize, 1, 2, 7, 19, 26] {
            assert_eq!(align_right(s, width), format!("{:>1$}", s, width));
            assert_eq!(align_left(s, width), format!("{:<1$}", s, width));
        }
    }
    assert_eq!(blank_text(0), "");
    assert_eq!(blank_text(3), "   ");
}

#[test]
fn numbers_agree_with_the_standard_formats() {
    for n in [0u64, 1, 9, 10, 11, 99, 100, 12345, u64::MAX - 1, u64::MAX] {
        assert_eq!(decimal_text(n), n.to_string());
    }
    for n in [0i64, 1, -1, 9, -10, 60, -61, i64::MAX, i64::MIN, i64::MIN + 1] {
        assert_eq!(signed_decimal_text(n), n.to_string());
        assert_eq!(explicit_decimal_text(n), format!("{:+}", n));
    }
}

#[test]
fn spans_are_appended_in_order() {
    let mut spans: Vec<Span> = Vec::new();
    push_str(&mut spans, "one", Color::Cyan);
    push_span(&mut spans, "two".to_string(), Color::Red);
    assert_eq!(spans.len(), 2);
    assert_eq!(spans[0].text, "one");
    assert_eq!(spans[0].color, Color::Cyan);
    assert_eq!(spans[1].text, "two");
    assert_eq!(spans[1].color, Color::Red);
}

#[test]
fn an_error_is_told_with_its_causes() {
    assert_eq!(format_error("disk full", &vec![]), "Error occurred: disk full");
    let causes = vec!["no space".to_string(), "quota".to_string()];
    assert_eq!(
        format_error("write failed", &causes),
        "Error occurred: write failed\n -> no space\n -> quota"
    );
}

#[test]
fn lists_are_written_like_the_standard_ones() {
    for list in [vec![], vec![7u64], vec![4, 0], vec![1, 22, u64::MAX, 333]] {
        assert_eq!(list_text(&list), format!("{:?}", list));
    }
}
