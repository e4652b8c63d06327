use mail_reducer::extract::{MimePart, ParsedEmail, Skip, TransferEncoding};
use mail_reducer::pipeline::{
    context_for_year, is_terminal, plan_message, prepare, step, Action, Event, FlagDirective,
    MessageState, Plan,
};
use mail_reducer::redact::{RedactionRuleSet, RenderContext, Rule, RuleGroup};

fn part(encoding: TransferEncoding, raw: &str) -> MimePart {
    MimePart { encoding, charset: "utf-8".to_string(), raw: raw.as_bytes().to_vec() }
}

fn email(subject: Option<&str>, second: MimePart) -> ParsedEmail {
    let mut headers = vec![("Date".to_string(), "Sun, 02 Oct 2016 07:06:22 -0700 (PDT)".to_string())];
    if let Some(s) = subject {
        headers.push(("Subject".to_string(), s.to_string()));
    }
    ParsedEmail {
        headers,
        subparts: vec![part(TransferEncoding::SevenBit, "plain"), second],
        body: part(TransferEncoding::SevenBit, ""),
    }
}

fn footer_rules() -> RedactionRuleSet {
    RedactionRuleSet {
        groups: vec![RuleGroup {
            rules: vec![Rule {
                exact: Some(vec!["{mail}".to_string()]),
                regex: Some(vec!["^{year}.*Copyright".to_string()]),
            }],
        }],
    }
}

#[test]
fn document_is_cleaned_and_joined() {
    let e = email(
        Some("勉強会に資料が追加されました。"),
        part(TransferEncoding::SevenBit, "Hello\r\nto me@x.jp\r\n2016 Copyright\r\nBye"),
    );
    let plan = prepare(&e, "me@x.jp", &footer_rules()).unwrap();
    match plan {
        Plan::Archive(doc) => assert_eq!(doc, "Hello\n\n\nBye"),
        other => panic!("unexpected plan {:?}", other),
    }
}

#[test]
fn subject_is_trimmed_before_classification() {
    let e = email(Some("  太郎さんがイベントXに参加登録しました。  "), part(TransferEncoding::SevenBit, ""));
    assert!(matches!(prepare(&e, "me@x.jp", &footer_rules()), Ok(Plan::LogOnly)));
}

#[test]
fn missing_subject_skips() {
    let e = email(None, part(TransferEncoding::SevenBit, ""));
    assert!(matches!(prepare(&e, "me@x.jp", &footer_rules()), Ok(Plan::Skip(Skip::MissingHeader))));
}

#[test]
fn unreadable_date_skips() {
    let mut e = email(Some("no category"), part(TransferEncoding::SevenBit, "x"));
    e.headers[0].1 = "02 Foo 2016 10:00:00 +0000".to_string();
    assert!(matches!(prepare(&e, "me@x.jp", &footer_rules()), Ok(Plan::Skip(Skip::UnreadableDate))));
}

#[test]
fn unsupported_part_is_skipped_without_flags() {
    let e = email(Some("connpass イベント管理者からのメッセージ: 例"), part(TransferEncoding::Unsupported, ""));
    let plan = prepare(&e, "me@x.jp", &footer_rules()).unwrap();
    assert!(matches!(plan, Plan::Skip(Skip::UnsupportedEncoding)));
    let (state, action) = step(MessageState::Pending, Event::Planned(plan));
    assert_eq!(state, MessageState::Skipped);
    assert!(matches!(action, Action::ReportSkip));
    let (state, action) = step(state, Event::FlagsStored);
    assert_eq!(state, MessageState::Skipped);
    assert!(matches!(action, Action::Nothing));
    assert!(is_terminal(state));
}

#[test]
fn plan_with_given_context() {
    let ctx = RenderContext { mail: "me@x.jp".to_string(), year: "2024".to_string() };
    let e = email(None, part(TransferEncoding::Base64, "SGVsbG8="));
    let plan = plan_message("Weekly", &e, &ctx, &footer_rules()).unwrap();
    assert!(matches!(plan, Plan::Archive(ref d) if d == "Hello"));
}

#[test]
fn archive_path_through_the_states() {
    let (s, a) = step(MessageState::Pending, Event::Planned(Plan::Archive("doc".to_string())));
    assert_eq!(s, MessageState::Rendering);
    assert!(matches!(a, Action::Render(ref d) if d == "doc"));
    let (s, a) = step(s, Event::Rendered(true));
    assert_eq!(s, MessageState::Archived);
    assert!(matches!(a, Action::StoreFlags(FlagDirective::MarkSeenAndDeleted)));
    let (s, a) = step(s, Event::FlagsStored);
    assert_eq!(s, MessageState::Flagged);
    assert!(matches!(a, Action::Nothing));
}

#[test]
fn failed_render_leaves_message_unflagged() {
    let (s, a) = step(MessageState::Rendering, Event::Rendered(false));
    assert_eq!(s, MessageState::Skipped);
    assert!(matches!(a, Action::ReportSkip));
}

#[test]
fn log_only_is_marked_deleted() {
    let (s, a) = step(MessageState::Pending, Event::Planned(Plan::LogOnly));
    assert_eq!(s, MessageState::Archived);
    assert!(matches!(a, Action::StoreFlags(FlagDirective::MarkDeletedOnly)));
}

#[test]
fn flag_queries() {
    assert_eq!(FlagDirective::ClearUnseen.store_query(), "-FLAGS (\\Seen)");
    assert_eq!(FlagDirective::MarkSeenAndDeleted.store_query(), "+FLAGS (\\Seen \\Deleted)");
    assert_eq!(FlagDirective::MarkDeletedOnly.store_query(), "+FLAGS (\\Deleted)");
}

#[test]
fn year_context() {
    let c = context_for_year("m@x", 987).unwrap();
    assert_eq!(c.mail, "m@x");
    assert_eq!(c.year, "0987");
    assert!(context_for_year("m@x", 10000).is_none());
    assert!(context_for_year("m@x", -1).is_none());
}

#[test]
fn context_from_date_header() {
    let c = RenderContext::from_date("m@x", "Sun, 02 Oct 2016 07:06:22 -0700 (PDT)").unwrap();
    assert_eq!(c.year, "2016");
    assert!(RenderContext::from_date("m@x", "02 Foo 2016").is_none());
}
