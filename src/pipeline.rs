//! Per-message orchestration: what to do with a message, and the steps that carry it out.
use vstd::prelude::*;

use crate::classify::{category_of, classify, spec_is_log_only};
use crate::extract::{extract, extract_spec, first_header, ParsedEmail, Skip};
use crate::redact::{
    join_document, join_lines, reduce, reduce_spec, split_lines, RedactionRuleSet, RenderContext,
    RuleError,
};
use crate::select::{padded, push_padded};
use crate::text::{chars_of, string_of, strings_view};

verus! {

/// The seconds since the epoch that `mailparse::dateparse` reads from a `Date` header.
pub uninterp spec fn date_seconds(date: Seq<char>) -> Option<i64>;

/// What `str::trim` leaves of a text.
pub uninterp spec fn trimmed(s: Seq<char>) -> Seq<char>;

/// Relies on `mailparse::dateparse`: the timestamp it reads from a `Date` header, if any.
#[verifier::external_body]
fn parse_date(date: &str) -> (r: Option<i64>)
    ensures
        r == date_seconds(date@),
{
    mailparse::dateparse(date).ok()
}

/// Relies on `chrono::TimeZone::timestamp_opt` for `chrono::Local` and `Datelike::year`: the
/// year of a timestamp in the machine's time zone, which depends on that zone.
#[verifier::external_body]
fn local_year(seconds: i64) -> (r: Option<i32>) {
    match chrono::TimeZone::timestamp_opt(&chrono::Local, seconds, 0).single() {
        Some(t) => Some(chrono::Datelike::year(&t)),
        None => None,
    }
}

/// Relies on `str::trim`: the text without leading and trailing whitespace.
#[verifier::external_body]
fn trim_text(s: &str) -> (r: &str)
    ensures
        r@ == trimmed(s@),
{
    s.trim()
}

/// A year written as four digits.
pub open spec fn is_year_text(t: Seq<char>) -> bool {
    exists|y: nat| y <= 9999 && t == padded(y, 4)
}

/// The context for a year: `None` unless the year has four digits at most.
pub fn context_for_year(mail: &str, year: i32) -> (r: Option<RenderContext>)
    ensures
        (0 <= year <= 9999) <==> r is Some,
        r matches Some(ctx) ==> ctx.mail@ == mail@ && ctx.year@ == padded(year as nat, 4),
{
    if year < 0 || year > 9999 {
        return None;
    }
    let mut digits: Vec<char> = Vec::new();
    push_padded(&mut digits, year as u32, 4);
    assert(digits@ =~= padded(year as nat, 4));
    Some(RenderContext { mail: string_of(chars_of(mail).as_slice()), year: string_of(digits.as_slice()) })
}

impl RenderContext {
    /// The context for a message: `mail`, and the year of its `Date` header in local time.
    pub fn from_date(mail: &str, date: &str) -> (r: Option<RenderContext>)
        ensures
            date_seconds(date@) is None ==> r is None,
            r matches Some(ctx) ==> ctx.mail@ == mail@ && is_year_text(ctx.year@),
    {
        match parse_date(date) {
            None => None,
            Some(seconds) => match local_year(seconds) {
                None => None,
                Some(year) => {
                    let r = context_for_year(mail, year);
                    proof {
                        if 0 <= year <= 9999 {
                            let y = year as nat;
                            assert(y <= 9999 && (r->Some_0).year@ == padded(y, 4));
                        }
                    }
                    r
                },
            },
        }
    }
}

/// What becomes of a message.
#[derive(Clone, Debug)]
pub enum Plan {
    /// Only the subject line is recorded.
    LogOnly,
    /// This cleaned document is archived.
    Archive(String),
    /// Nothing is produced and the message is left as it is.
    Skip(Skip),
}

pub enum PlanModel {
    LogOnly,
    Archive(Seq<char>),
    Skip(Skip),
}

impl View for Plan {
    type V = PlanModel;

    open spec fn view(&self) -> PlanModel {
        match self {
            Plan::LogOnly => PlanModel::LogOnly,
            Plan::Archive(d) => PlanModel::Archive(d@),
            Plan::Skip(k) => PlanModel::Skip(*k),
        }
    }
}

pub open spec fn plan_result_view(r: Result<Plan, RuleError>) -> Result<PlanModel, Seq<char>> {
    match r {
        Ok(p) => Ok(p@),
        Err(RuleError::InvalidRegex(p)) => Err(p@),
    }
}

/// The plan for a message with a given subject and context: log-only categories are only
/// recorded; otherwise the extracted body is cleaned and joined into the archived document,
/// and a message without a usable body is skipped.
pub open spec fn plan_spec(
    subject: Seq<char>,
    email: ParsedEmail,
    ctx: RenderContext,
    rules: Seq<Seq<crate::redact::RuleModel>>,
) -> Result<PlanModel, Seq<char>> {
    let c = category_of(subject);
    if spec_is_log_only(c) {
        Ok(PlanModel::LogOnly)
    } else {
        match extract_spec(email, c) {
            Err(k) => Ok(PlanModel::Skip(k)),
            Ok(text) => match reduce_spec(split_lines(text), ctx, rules) {
                Err(p) => Err(p),
                Ok(lines) => Ok(PlanModel::Archive(join_lines(lines))),
            },
        }
    }
}

/// Classifies a trimmed subject, then extracts, cleans and joins the body when the category
/// has one.
pub fn plan_message(
    subject: &str,
    email: &ParsedEmail,
    ctx: &RenderContext,
    rules: &RedactionRuleSet,
) -> (r: Result<Plan, RuleError>)
    ensures
        plan_result_view(r) == plan_spec(subject@, *email, *ctx, rules@),
{
    let category = classify(subject);
    if category.is_log_only() {
        return Ok(Plan::LogOnly);
    }
    match extract(email, category) {
        Err(k) => Ok(Plan::Skip(k)),
        Ok(text) => match reduce(text.as_str(), ctx, rules) {
            Err(e) => Err(e),
            Ok(lines) => Ok(Plan::Archive(join_document(&lines))),
        },
    }
}

/// The plan for a message whose headers give this subject and this context.
pub open spec fn planned_with(
    r: Result<Plan, RuleError>,
    subject: Seq<char>,
    email: ParsedEmail,
    mail: Seq<char>,
    rules: Seq<Seq<crate::redact::RuleModel>>,
) -> bool {
    exists|ctx: RenderContext|
        ctx.mail@ == mail && is_year_text(ctx.year@) && plan_result_view(r) == plan_spec(
            subject,
            email,
            ctx,
            rules,
        )
}

/// Plans a message from its headers: a message without `Subject` or `Date` is skipped; a
/// log-only message is recorded; otherwise the body is cleaned in the context of the year of
/// its `Date` header, and a message whose date gives no year is skipped.
pub fn prepare(email: &ParsedEmail, mail: &str, rules: &RedactionRuleSet) -> (r: Result<
    Plan,
    RuleError,
>)
    ensures
        ({
            let subject = first_header(email.headers@, "Subject"@);
            let date = first_header(email.headers@, "Date"@);
            if subject is None || date is None {
                r matches Ok(Plan::Skip(Skip::MissingHeader))
            } else if spec_is_log_only(category_of(trimmed(subject->Some_0))) {
                r matches Ok(Plan::LogOnly)
            } else if date_seconds(date->Some_0) is None {
                r matches Ok(Plan::Skip(Skip::UnreadableDate))
            } else {
                r matches Ok(Plan::Skip(Skip::UnreadableDate)) || planned_with(
                    r,
                    trimmed(subject->Some_0),
                    *email,
                    mail@,
                    rules@,
                )
            }
        }),
{
    let subject = match email.header("Subject") {
        Some(s) => s,
        None => {
            return Ok(Plan::Skip(Skip::MissingHeader));
        },
    };
    let date = match email.header("Date") {
        Some(d) => d,
        None => {
            return Ok(Plan::Skip(Skip::MissingHeader));
        },
    };
    let subject = trim_text(subject.as_str());
    if classify(subject).is_log_only() {
        return Ok(Plan::LogOnly);
    }
    match RenderContext::from_date(mail, date.as_str()) {
        None => Ok(Plan::Skip(Skip::UnreadableDate)),
        Some(ctx) => {
            let r = plan_message(subject, email, &ctx, rules);
            assert(planned_with(r, subject@, *email, mail@, rules@));
            r
        },
    }
}

/// Where a message stands in one run.
#[derive(Clone, Copy, Debug, PartialEq, Eq, Structural)]
pub enum MessageState {
    /// Not yet decided.
    Pending,
    /// Its document was handed to the renderer.
    Rendering,
    /// Its record exists; its terminal flags are requested.
    Archived,
    /// Its terminal flags are stored.
    Flagged,
    /// Left as it was, for a later run.
    Skipped,
}

/// A flag update requested of the mailbox, by name.
#[derive(Clone, Copy, Debug, PartialEq, Eq, Structural)]
pub enum FlagDirective {
    /// Mark the batch unseen before inspecting it.
    ClearUnseen,
    /// Mark an archived message seen and deleted.
    MarkSeenAndDeleted,
    /// Mark a log-only message deleted.
    MarkDeletedOnly,
}

pub open spec fn store_query_spec(d: FlagDirective) -> Seq<char> {
    match d {
        FlagDirective::ClearUnseen => "-FLAGS (\\Seen)"@,
        FlagDirective::MarkSeenAndDeleted => "+FLAGS (\\Seen \\Deleted)"@,
        FlagDirective::MarkDeletedOnly => "+FLAGS (\\Deleted)"@,
    }
}

impl FlagDirective {
    /// The flag-store item that carries out this directive.
    pub fn store_query(&self) -> (r: &'static str)
        ensures
            r@ == store_query_spec(*self),
    {
        match self {
            FlagDirective::ClearUnseen => "-FLAGS (\\Seen)",
            FlagDirective::MarkSeenAndDeleted => "+FLAGS (\\Seen \\Deleted)",
            FlagDirective::MarkDeletedOnly => "+FLAGS (\\Deleted)",
        }
    }
}

/// What happened to a message, reported back by the side that talks to the outside.
#[derive(Clone, Debug)]
pub enum Event {
    /// The message was planned.
    Planned(Plan),
    /// The renderer finished, successfully or not.
    Rendered(bool),
    /// The requested flags were stored.
    FlagsStored,
}

/// What to do next for a message.
#[derive(Clone, Debug)]
pub enum Action {
    /// Hand this document to the renderer.
    Render(String),
    /// Request this flag update.
    StoreFlags(FlagDirective),
    /// Record a diagnostic that the message was skipped.
    ReportSkip,
    /// Nothing more.
    Nothing,
}

pub enum EventModel {
    Planned(PlanModel),
    Rendered(bool),
    FlagsStored,
}

pub enum ActionModel {
    Render(Seq<char>),
    StoreFlags(FlagDirective),
    ReportSkip,
    Nothing,
}

impl View for Event {
    type V = EventModel;

    open spec fn view(&self) -> EventModel {
        match self {
            Event::Planned(p) => EventModel::Planned(p@),
            Event::Rendered(ok) => EventModel::Rendered(*ok),
            Event::FlagsStored => EventModel::FlagsStored,
        }
    }
}

impl View for Action {
    type V = ActionModel;

    open spec fn view(&self) -> ActionModel {
        match self {
            Action::Render(d) => ActionModel::Render(d@),
            Action::StoreFlags(f) => ActionModel::StoreFlags(*f),
            Action::ReportSkip => ActionModel::ReportSkip,
            Action::Nothing => ActionModel::Nothing,
        }
    }
}

/// The transition table. A log-only message is archived by its record and marked deleted; a
/// document goes to the renderer, and only a successful render leads to the seen-and-deleted
/// flags; a skipped plan or a failed render leaves the message unflagged. Any other event
/// changes nothing.
pub open spec fn transition(s: MessageState, e: EventModel) -> (MessageState, ActionModel) {
    match (s, e) {
        (MessageState::Pending, EventModel::Planned(PlanModel::LogOnly)) => (
            MessageState::Archived,
            ActionModel::StoreFlags(FlagDirective::MarkDeletedOnly),
        ),
        (MessageState::Pending, EventModel::Planned(PlanModel::Archive(d))) => (
            MessageState::Rendering,
            ActionModel::Render(d),
        ),
        (MessageState::Pending, EventModel::Planned(PlanModel::Skip(_))) => (
            MessageState::Skipped,
            ActionModel::ReportSkip,
        ),
        (MessageState::Rendering, EventModel::Rendered(true)) => (
            MessageState::Archived,
            ActionModel::StoreFlags(FlagDirective::MarkSeenAndDeleted),
        ),
        (MessageState::Rendering, EventModel::Rendered(false)) => (
            MessageState::Skipped,
            ActionModel::ReportSkip,
        ),
        (MessageState::Archived, EventModel::FlagsStored) => (
            MessageState::Flagged,
            ActionModel::Nothing,
        ),
        _ => (s, ActionModel::Nothing),
    }
}

/// Advances a message by one event.
pub fn step(state: MessageState, event: Event) -> (r: (MessageState, Action))
    ensures
        (r.0, r.1@) == transition(state, event@),
{
    match (state, event) {
        (MessageState::Pending, Event::Planned(Plan::LogOnly)) => (
            MessageState::Archived,
            Action::StoreFlags(FlagDirective::MarkDeletedOnly),
        ),
        (MessageState::Pending, Event::Planned(Plan::Archive(d))) => (
            MessageState::Rendering,
            Action::Render(d),
        ),
        (MessageState::Pending, Event::Planned(Plan::Skip(_))) => (
            MessageState::Skipped,
            Action::ReportSkip,
        ),
        (MessageState::Rendering, Event::Rendered(true)) => (
            MessageState::Archived,
            Action::StoreFlags(FlagDirective::MarkSeenAndDeleted),
        ),
        (MessageState::Rendering, Event::Rendered(false)) => (
            MessageState::Skipped,
            Action::ReportSkip,
        ),
        (MessageState::Archived, Event::FlagsStored) => (MessageState::Flagged, Action::Nothing),
        (s, _) => (s, Action::Nothing),
    }
}

/// Whether a message has reached the end of its run.
pub fn is_terminal(state: MessageState) -> (r: bool)
    ensures
        r == (state == MessageState::Flagged || state == MessageState::Skipped),
{
    state == MessageState::Flagged || state == MessageState::Skipped
}

/// A flag update is requested only on entering `Archived`, and the terminal states request
/// nothing more, whatever event comes.
pub proof fn lemma_flags_only_when_archived(s: MessageState, e: EventModel)
    ensures
        transition(s, e).1 is StoreFlags ==> transition(s, e).0 == MessageState::Archived && s
            != MessageState::Archived,
        (s == MessageState::Skipped || s == MessageState::Flagged) ==> transition(s, e) == (
            s,
            ActionModel::Nothing,
        ),
{
}

/// A message whose selected part has an unsupported encoding is planned as skipped; its next
/// step only reports it, with no flag update and no render, and it then stays skipped whatever
/// else is reported, so the run goes on with the next message.
pub proof fn lemma_unsupported_encoding_skips(
    subject: Seq<char>,
    email: ParsedEmail,
    ctx: RenderContext,
    rules: Seq<Seq<crate::redact::RuleModel>>,
    later: EventModel,
)
    requires
        !spec_is_log_only(category_of(subject)),
        crate::extract::selected_part(email, category_of(subject)) matches Some(p)
            && p.encoding == crate::extract::TransferEncoding::Unsupported,
    ensures
        plan_spec(subject, email, ctx, rules) == Ok::<PlanModel, Seq<char>>(
            PlanModel::Skip(Skip::UnsupportedEncoding),
        ),
        transition(
            MessageState::Pending,
            EventModel::Planned(PlanModel::Skip(Skip::UnsupportedEncoding)),
        ) == (MessageState::Skipped, ActionModel::ReportSkip),
        transition(MessageState::Skipped, later) == (MessageState::Skipped, ActionModel::Nothing),
{
}

} // verus!
