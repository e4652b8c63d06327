use mail_reducer::classify::NotificationCategory;
use mail_reducer::extract::{decode_part, extract, MimePart, ParsedEmail, Skip, TransferEncoding};

fn part(encoding: TransferEncoding, raw: &str) -> MimePart {
    MimePart { encoding, charset: "utf-8".to_string(), raw: raw.as_bytes().to_vec() }
}

fn two_part(second: MimePart) -> ParsedEmail {
    ParsedEmail {
        headers: vec![],
        subparts: vec![part(TransferEncoding::SevenBit, "plain text"), second],
        body: part(TransferEncoding::SevenBit, ""),
    }
}

#[test]
fn base64_second_part_of_document() {
    let email = two_part(part(TransferEncoding::Base64, "SGVsbG8="));
    assert_eq!(extract(&email, NotificationCategory::DocumentAdded), Ok("Hello".to_string()));
}

#[test]
fn unsupported_encoding_skips() {
    let email = two_part(part(TransferEncoding::Unsupported, "\u{0}\u{1}"));
    assert_eq!(
        extract(&email, NotificationCategory::AdminMessageEvent),
        Err(Skip::UnsupportedEncoding)
    );
}

#[test]
fn missing_second_part_skips() {
    let email = ParsedEmail {
        headers: vec![],
        subparts: vec![part(TransferEncoding::SevenBit, "only")],
        body: part(TransferEncoding::SevenBit, ""),
    };
    assert_eq!(extract(&email, NotificationCategory::AdminMessageGroup), Err(Skip::MissingPart));
}

#[test]
fn log_only_category_extracts_nothing() {
    let email = two_part(part(TransferEncoding::SevenBit, "body"));
    assert_eq!(extract(&email, NotificationCategory::RegistrationEvent), Err(Skip::LogOnly));
}

#[test]
fn other_uses_last_subpart() {
    let email = ParsedEmail {
        headers: vec![],
        subparts: vec![
            part(TransferEncoding::SevenBit, "first"),
            part(TransferEncoding::SevenBit, "second"),
            part(TransferEncoding::EightBit, "third"),
        ],
        body: part(TransferEncoding::SevenBit, "top"),
    };
    assert_eq!(extract(&email, NotificationCategory::Other), Ok("third".to_string()));
}

#[test]
fn other_without_subparts_uses_body() {
    let email = ParsedEmail {
        headers: vec![],
        subparts: vec![],
        body: part(TransferEncoding::QuotedPrintable, "caf=C3=A9"),
    };
    assert_eq!(extract(&email, NotificationCategory::Other), Ok("café".to_string()));
}

#[test]
fn seven_bit_is_verbatim() {
    let p = part(TransferEncoding::SevenBit, "SGVsbG8=");
    assert_eq!(decode_part(&p), Ok("SGVsbG8=".to_string()));
}

#[test]
fn header_lookup_ignores_case_and_takes_first() {
    let email = ParsedEmail {
        headers: vec![
            ("X-Other".to_string(), "x".to_string()),
            ("subject".to_string(), "first".to_string()),
            ("Subject".to_string(), "second".to_string()),
        ],
        subparts: vec![],
        body: part(TransferEncoding::SevenBit, ""),
    };
    assert_eq!(email.header("SUBJECT"), Some("first".to_string()));
    assert_eq!(email.header("Date"), None);
}
