//! Classification of a notification by its subject line.
use vstd::prelude::*;

use crate::matcher::{is_match, pattern_matches};

verus! {

/// The kind of notification a message is.
#[derive(Clone, Copy, Debug, PartialEq, Eq, Structural)]
pub enum NotificationCategory {
    RegistrationEvent,
    EventPublishedByOrganizer,
    EventPublishedByParticipant,
    EventOpened,
    DocumentAdded,
    AdminMessageEvent,
    AdminMessageGroup,
    Other,
}

/// Someone registered for an event.
pub const REGISTRATION_EVENT_PATTERN: &'static str = "^.*さんが.*に参加登録しました。$";

/// An organizer published an event.
pub const PUBLISHED_BY_ORGANIZER_PATTERN: &'static str = "^.*がイベント.*を公開しました$";

/// A participant published something.
pub const PUBLISHED_BY_PARTICIPANT_PATTERN: &'static str = "^.*さんが.*を公開しました$";

/// Applications for an event opened.
pub const EVENT_OPENED_PATTERN: &'static str = "^.*の募集が開始されました$";

/// A document was added to an event.
pub const DOCUMENT_ADDED_PATTERN: &'static str = "^.*に資料が追加されました。$";

/// A message from the administrator of an event.
pub const ADMIN_MESSAGE_EVENT_PATTERN: &'static str = "^connpass イベント管理者からのメッセージ.*$";

/// A message from the administrator of a group.
pub const ADMIN_MESSAGE_GROUP_PATTERN: &'static str = "^connpass グループ管理者からのメッセージ.*$";

/// The category of a subject: the first row of the table whose pattern matches wins, and a
/// subject that no row matches is `Other`.
pub open spec fn category_of(subject: Seq<char>) -> NotificationCategory {
    if pattern_matches(REGISTRATION_EVENT_PATTERN@, subject) {
        NotificationCategory::RegistrationEvent
    } else if pattern_matches(PUBLISHED_BY_ORGANIZER_PATTERN@, subject) {
        NotificationCategory::EventPublishedByOrganizer
    } else if pattern_matches(PUBLISHED_BY_PARTICIPANT_PATTERN@, subject) {
        NotificationCategory::EventPublishedByParticipant
    } else if pattern_matches(EVENT_OPENED_PATTERN@, subject) {
        NotificationCategory::EventOpened
    } else if pattern_matches(DOCUMENT_ADDED_PATTERN@, subject) {
        NotificationCategory::DocumentAdded
    } else if pattern_matches(ADMIN_MESSAGE_EVENT_PATTERN@, subject) {
        NotificationCategory::AdminMessageEvent
    } else if pattern_matches(ADMIN_MESSAGE_GROUP_PATTERN@, subject) {
        NotificationCategory::AdminMessageGroup
    } else {
        NotificationCategory::Other
    }
}

/// Categories whose subject line is the whole record: no body is extracted for them.
pub open spec fn spec_is_log_only(c: NotificationCategory) -> bool {
    match c {
        NotificationCategory::RegistrationEvent
        | NotificationCategory::EventPublishedByOrganizer
        | NotificationCategory::EventPublishedByParticipant
        | NotificationCategory::EventOpened => true,
        _ => false,
    }
}

impl NotificationCategory {
    /// Whether only the subject line of such a message is recorded.
    pub fn is_log_only(&self) -> (r: bool)
        ensures
            r == spec_is_log_only(*self),
    {
        match self {
            NotificationCategory::RegistrationEvent
            | NotificationCategory::EventPublishedByOrganizer
            | NotificationCategory::EventPublishedByParticipant
            | NotificationCategory::EventOpened => true,
            _ => false,
        }
    }
}

/// Maps an already trimmed subject line to its category.
pub fn classify(subject: &str) -> (r: NotificationCategory)
    ensures
        r == category_of(subject@),
{
    if is_match(REGISTRATION_EVENT_PATTERN, subject) {
        NotificationCategory::RegistrationEvent
    } else if is_match(PUBLISHED_BY_ORGANIZER_PATTERN, subject) {
        NotificationCategory::EventPublishedByOrganizer
    } else if is_match(PUBLISHED_BY_PARTICIPANT_PATTERN, subject) {
        NotificationCategory::EventPublishedByParticipant
    } else if is_match(EVENT_OPENED_PATTERN, subject) {
        NotificationCategory::EventOpened
    } else if is_match(DOCUMENT_ADDED_PATTERN, subject) {
        NotificationCategory::DocumentAdded
    } else if is_match(ADMIN_MESSAGE_EVENT_PATTERN, subject) {
        NotificationCategory::AdminMessageEvent
    } else if is_match(ADMIN_MESSAGE_GROUP_PATTERN, subject) {
        NotificationCategory::AdminMessageGroup
    } else {
        NotificationCategory::Other
    }
}

/// A subject that matches the registration pattern is a registration, whatever later rows
/// of the table it also matches: the earliest matching row decides.
pub proof fn lemma_registration_wins(subject: Seq<char>)
    requires
        pattern_matches(REGISTRATION_EVENT_PATTERN@, subject),
    ensures
        category_of(subject) == NotificationCategory::RegistrationEvent,
{
}

/// A subject that matches no row of the table is `Other`, and every subject gets exactly
/// one category.
pub proof fn lemma_other_is_catch_all(subject: Seq<char>)
    requires
        !pattern_matches(REGISTRATION_EVENT_PATTERN@, subject),
        !pattern_matches(PUBLISHED_BY_ORGANIZER_PATTERN@, subject),
        !pattern_matches(PUBLISHED_BY_PARTICIPANT_PATTERN@, subject),
        !pattern_matches(EVENT_OPENED_PATTERN@, subject),
        !pattern_matches(DOCUMENT_ADDED_PATTERN@, subject),
        !pattern_matches(ADMIN_MESSAGE_EVENT_PATTERN@, subject),
        !pattern_matches(ADMIN_MESSAGE_GROUP_PATTERN@, subject),
    ensures
        category_of(subject) == NotificationCategory::Other,
{
}

} // verus!
