use mail_reducer::classify::{classify, NotificationCategory};

#[test]
fn registration_subject_is_registration() {
    assert_eq!(
        classify("太郎さんがイベントXに参加登録しました。"),
        NotificationCategory::RegistrationEvent
    );
}

#[test]
fn earlier_row_wins_on_two_matches() {
    // Matches both the organizer row and the participant row.
    let subject = "花子さんがイベント勉強会を公開しました";
    assert_eq!(classify(subject), NotificationCategory::EventPublishedByOrganizer);
}

#[test]
fn registration_wins_over_later_rows() {
    // Also holds the text of the organizer row, but ends as a registration.
    let subject = "太郎さんがイベントAを公開しましたに参加登録しました。";
    assert_eq!(classify(subject), NotificationCategory::RegistrationEvent);
}

#[test]
fn admin_event_message() {
    assert_eq!(
        classify("connpass イベント管理者からのメッセージ: 例"),
        NotificationCategory::AdminMessageEvent
    );
}

#[test]
fn admin_group_message() {
    assert_eq!(
        classify("connpass グループ管理者からのメッセージ: お知らせ"),
        NotificationCategory::AdminMessageGroup
    );
}

#[test]
fn participant_published() {
    assert_eq!(
        classify("次郎さんがブログを公開しました"),
        NotificationCategory::EventPublishedByParticipant
    );
}

#[test]
fn event_opened() {
    assert_eq!(classify("もくもく会の募集が開始されました"), NotificationCategory::EventOpened);
}

#[test]
fn document_added() {
    assert_eq!(classify("勉強会に資料が追加されました。"), NotificationCategory::DocumentAdded);
}

#[test]
fn unknown_subject_is_other() {
    assert_eq!(classify("Weekly newsletter"), NotificationCategory::Other);
    assert_eq!(classify(""), NotificationCategory::Other);
}

#[test]
fn anchors_are_full_line() {
    // The registration text must end the subject.
    assert_eq!(
        classify("太郎さんがイベントXに参加登録しました。追記"),
        NotificationCategory::Other
    );
}

#[test]
fn log_only_categories() {
    assert!(NotificationCategory::RegistrationEvent.is_log_only());
    assert!(NotificationCategory::EventOpened.is_log_only());
    assert!(!NotificationCategory::DocumentAdded.is_log_only());
    assert!(!NotificationCategory::Other.is_log_only());
}
