use creator_archive::html::is_parsable;

#[test]
fn ordinary_pages_can_be_parsed() {
    assert!(is_parsable(""));
    assert!(is_parsable("<html><body><p>text</p></body></html>"));
    assert!(is_parsable(&"\0".repeat(1_000_000)));
}

#[test]
fn text_is_parsable_up_to_a_third_of_two_to_the_thirtieth_bytes() {
    let mut text = "a".repeat(357_913_941);
    assert!(is_parsable(&text));
    text.push('a');
    assert!(!is_parsable(&text));
}

#[test]
fn length_is_counted_in_bytes() {
    let mut text = "é".repeat(178_956_970);
    assert!(is_parsable(&text));
    text.push('é');
    assert!(!is_parsable(&text));
}
