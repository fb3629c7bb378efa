use cooking_fetch::text::{append_decimal, escape_markdown};

#[test]
fn escaping_marks_reserved_characters() {
    assert_eq!(escape_markdown("A_B"), "A\\_B");
    assert_eq!(escape_markdown("a.b!"), "a\\.b\\!");
    assert_eq!(escape_markdown("_*[]()~`>#+-=|{}.!"), "\\_\\*\\[\\]\\(\\)\\~\\`\\>\\#\\+\\-\\=\\|\\{\\}\\.\\!");
}

#[test]
fn escaping_keeps_plain_names() {
    assert_eq!(escape_markdown("Soup"), "Soup");
    assert_eq!(escape_markdown("Crème brûlée"), "Crème brûlée");
    assert_eq!(escape_markdown(""), "");
}

#[test]
fn decimal_rendering() {
    let mut s = String::from("p");
    append_decimal(&mut s, 0);
    append_decimal(&mut s, 305);
    append_decimal(&mut s, -12);
    assert_eq!(s, "p0305-12");
}
