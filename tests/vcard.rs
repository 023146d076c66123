use vcard_qr::VCard;

#[test]
fn new_card_holds_only_the_header() {
    let card = VCard::new();
    assert_eq!(card.finalize(), "BEGIN:VCARD\nVERSION:4.0\nEND:VCARD");
}

#[test]
fn push_writes_property_and_value() {
    let mut card = VCard::new();
    card.push("FN", "Jane Doe");
    assert_eq!(card.finalize(), "BEGIN:VCARD\nVERSION:4.0\nFN:Jane Doe\nEND:VCARD");
}

#[test]
fn push_writes_an_empty_value_too() {
    let mut card = VCard::new();
    card.push("N", "");
    assert_eq!(card.finalize(), "BEGIN:VCARD\nVERSION:4.0\nN:\nEND:VCARD");
}

#[test]
fn optional_push_skips_empty_value() {
    let mut card = VCard::new();
    card.optional_push("EMAIL", "");
    assert_eq!(card.finalize(), "BEGIN:VCARD\nVERSION:4.0\nEND:VCARD");
}

#[test]
fn optional_push_writes_present_value() {
    let mut card = VCard::new();
    card.optional_push("EMAIL", "jane@example.com");
    assert_eq!(
        card.finalize(),
        "BEGIN:VCARD\nVERSION:4.0\nEMAIL:jane@example.com\nEND:VCARD"
    );
}

#[test]
fn push_explicit_writes_line_verbatim() {
    let mut card = VCard::new();
    card.push_explicit("ADR;TYPE=home:;;1 Elm St;Town;ST;12345;");
    assert_eq!(
        card.finalize(),
        "BEGIN:VCARD\nVERSION:4.0\nADR;TYPE=home:;;1 Elm St;Town;ST;12345;\nEND:VCARD"
    );
}

#[test]
fn lines_keep_insertion_order() {
    let mut card = VCard::new();
    card.push("FN", "A");
    card.optional_push("TEL", "1");
    card.push("FN", "A");
    assert_eq!(
        card.finalize(),
        "BEGIN:VCARD\nVERSION:4.0\nFN:A\nTEL:1\nFN:A\nEND:VCARD"
    );
}

#[test]
fn finalize_keeps_whitespace_inside_values() {
    let mut card = VCard::new();
    card.push("NOTE", "  spaced  ");
    let text = card.finalize();
    assert_eq!(text, "BEGIN:VCARD\nVERSION:4.0\nNOTE:  spaced  \nEND:VCARD");
    assert_eq!(text, text.trim());
}
