use vcard_qr::cli::{ErrorCorrection, QrLevel};
use vcard_qr::contact::{
    build_card, escape_newlines_in, format_address, format_addresses, format_name_components,
    Address, Contact, NameComponents,
};

fn contact(name: &str, email: &str, phone: &str, website: &str) -> Contact {
    Contact {
        name: name.to_string(),
        name_components: None,
        email: email.to_string(),
        phone: phone.to_string(),
        website: website.to_string(),
        addresses: Vec::new(),
        note: None,
    }
}

fn address(street: &str, extended: &str, city: &str, kind: &str) -> Address {
    Address {
        street: street.to_string(),
        extended: extended.to_string(),
        city: city.to_string(),
        state: "IL".to_string(),
        zip: "62704".to_string(),
        country: "".to_string(),
        addr_type: kind.to_string(),
    }
}

#[test]
fn jane_doe_with_phone_only() {
    let c = contact("Jane Doe", "", "555-1234", "");
    assert_eq!(
        build_card(&c),
        "BEGIN:VCARD\nVERSION:4.0\nFN:Jane Doe\nTEL:555-1234\nEND:VCARD"
    );
}

#[test]
fn single_address_without_type() {
    let a = Address {
        street: "123 Main St".to_string(),
        extended: "".to_string(),
        city: "Springfield".to_string(),
        state: "IL".to_string(),
        zip: "62704".to_string(),
        country: "".to_string(),
        addr_type: "".to_string(),
    };
    assert_eq!(format_address(&a), "ADR:;;123 Main St;Springfield;IL;62704;");
    let mut c = contact("Jane Doe", "", "", "");
    c.addresses.push(a);
    assert_eq!(
        build_card(&c),
        "BEGIN:VCARD\nVERSION:4.0\nFN:Jane Doe\nADR:;;123 Main St;Springfield;IL;62704;\nEND:VCARD"
    );
}

#[test]
fn address_with_extended_line_and_country() {
    let mut a = address("1 Elm St", "Apt 4", "Springfield", "");
    a.country = "USA".to_string();
    assert_eq!(format_address(&a), "ADR:;;1 Elm St\\nApt 4;Springfield;IL;62704;USA");
}

#[test]
fn type_tag_marks_only_its_own_address() {
    let addrs = vec![
        address("1 A St", "", "X", ""),
        address("2 B St", "", "Y", "work"),
        address("3 C St", "", "Z", ""),
    ];
    let lines = format_addresses(&addrs);
    assert_eq!(
        lines,
        vec![
            "ADR:;;1 A St;X;IL;62704;".to_string(),
            "ADR;TYPE=work:;;2 B St;Y;IL;62704;".to_string(),
            "ADR:;;3 C St;Z;IL;62704;".to_string(),
        ]
    );
}

#[test]
fn no_addresses_give_no_lines() {
    assert!(format_addresses(&Vec::new()).is_empty());
}

#[test]
fn every_field_in_fixed_order() {
    let c = Contact {
        name: "Jane Doe".to_string(),
        name_components: Some(NameComponents {
            family: "Doe".to_string(),
            given: "Jane".to_string(),
            middle: "".to_string(),
            prefix: "Dr.".to_string(),
            suffix: "PhD,MD".to_string(),
        }),
        email: "jane@example.com".to_string(),
        phone: "555-1234".to_string(),
        website: "https://example.com".to_string(),
        addresses: vec![
            address("1 Elm St", "", "Springfield", "home"),
            address("2 Oak St", "", "Shelbyville", ""),
        ],
        note: Some("first\nsecond\n".to_string()),
    };
    assert_eq!(
        build_card(&c),
        "BEGIN:VCARD\nVERSION:4.0\nFN:Jane Doe\nN:Doe;Jane;;Dr.;PhD,MD\n\
         EMAIL:jane@example.com\nTEL:555-1234\nURL:https://example.com\n\
         ADR;TYPE=home:;;1 Elm St;Springfield;IL;62704;\n\
         ADR:;;2 Oak St;Shelbyville;IL;62704;\n\
         NOTE:first\\nsecond\\n\nEND:VCARD"
    );
}

#[test]
fn empty_optional_fields_leave_no_lines() {
    let mut c = contact("Solo", "", "", "");
    c.note = Some("".to_string());
    let text = build_card(&c);
    assert_eq!(text, "BEGIN:VCARD\nVERSION:4.0\nFN:Solo\nEND:VCARD");
    for p in ["EMAIL:", "TEL:", "URL:", "NOTE:", "ADR"] {
        assert!(!text.contains(p));
    }
}

#[test]
fn present_optional_fields_appear_once() {
    let mut c = contact("Solo", "a@b.c", "1", "w");
    c.note = Some("n".to_string());
    let text = build_card(&c);
    for p in ["\nEMAIL:", "\nTEL:", "\nURL:", "\nNOTE:"] {
        assert_eq!(text.matches(p).count(), 1);
    }
    assert_eq!(
        text,
        "BEGIN:VCARD\nVERSION:4.0\nFN:Solo\nEMAIL:a@b.c\nTEL:1\nURL:w\nNOTE:n\nEND:VCARD"
    );
}

#[test]
fn aborted_note_is_skipped() {
    let c = contact("Solo", "", "", "");
    assert_eq!(build_card(&c), "BEGIN:VCARD\nVERSION:4.0\nFN:Solo\nEND:VCARD");
}

#[test]
fn card_is_framed_by_header_and_footer() {
    let c = contact(" padded ", "", "", "");
    let text = build_card(&c);
    assert!(text.starts_with("BEGIN:VCARD\nVERSION:4.0\n"));
    assert!(text.ends_with("END:VCARD"));
    assert_eq!(text.trim(), text);
}

#[test]
fn note_line_breaks_are_escaped() {
    let escaped = escape_newlines_in("one\ntwo\n\nthree");
    assert_eq!(escaped, "one\\ntwo\\n\\nthree");
    assert!(!escaped.contains('\n'));
    assert_eq!(escaped.matches("\\n").count(), 3);
}

#[test]
fn escaping_keeps_other_characters() {
    assert_eq!(escape_newlines_in(""), "");
    assert_eq!(escape_newlines_in("héllo wörld"), "héllo wörld");
    assert_eq!(escape_newlines_in("\n"), "\\n");
}

#[test]
fn name_components_are_joined_by_semicolons() {
    let n = NameComponents {
        family: "Doe".to_string(),
        given: "Jane,J".to_string(),
        middle: "Q".to_string(),
        prefix: "".to_string(),
        suffix: "Jr.".to_string(),
    };
    assert_eq!(format_name_components(&n), "Doe;Jane,J;Q;;Jr.");
}

#[test]
fn error_correction_maps_to_qr_levels() {
    assert_eq!(ErrorCorrection::Low.qr_level(), QrLevel::Low);
    assert_eq!(ErrorCorrection::Medium.qr_level(), QrLevel::Medium);
    assert_eq!(ErrorCorrection::High.qr_level(), QrLevel::Quartile);
    assert_eq!(ErrorCorrection::Max.qr_level(), QrLevel::High);
}
