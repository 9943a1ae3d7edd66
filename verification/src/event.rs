//! The notification events that producers send, and how a freshly read event is
//! completed before it is shown.
use vstd::prelude::*;

use crate::text::{
    append_chars, chars_of, is_blank, is_blank_text, lemma_leading_ws, spec_is_whitespace, string_from_chars,
    trailing_ws, trim_start,
};

verus! {

/// A button that a notification offers.
#[derive(Clone, Debug, PartialEq)]
pub struct NotifyAction {
    pub label: String,
    pub route: String,
    pub kind: String,
}

/// The mathematical value of a [`NotifyAction`].
pub struct ActionModel {
    pub label: Seq<char>,
    pub route: Seq<char>,
    pub kind: Seq<char>,
}

impl View for NotifyAction {
    type V = ActionModel;

    open spec fn view(&self) -> ActionModel {
        ActionModel { label: self.label@, route: self.route@, kind: self.kind@ }
    }
}

/// One notification event as a producer sent it. `progress` holds the IEEE-754 bit
/// pattern of the progress fraction (`f32::to_bits`), which the library carries
/// through without computing on it.
#[derive(Clone, Debug, PartialEq)]
pub struct NotifyEvent {
    pub schema_version: u32,
    pub event: String,
    pub toast_id: String,
    pub group_id: String,
    pub timestamp: String,
    pub title: String,
    pub message: String,
    pub status: String,
    pub progress: Option<u32>,
    pub route: String,
    pub actions: Vec<NotifyAction>,
    pub primary_label: String,
    pub primary_route: String,
    pub secondary_label: String,
    pub secondary_route: String,
}

/// The mathematical value of a [`NotifyEvent`].
pub struct EventModel {
    pub schema_version: u32,
    pub event: Seq<char>,
    pub toast_id: Seq<char>,
    pub group_id: Seq<char>,
    pub timestamp: Seq<char>,
    pub title: Seq<char>,
    pub message: Seq<char>,
    pub status: Seq<char>,
    pub progress: Option<u32>,
    pub route: Seq<char>,
    pub actions: Seq<ActionModel>,
    pub primary_label: Seq<char>,
    pub primary_route: Seq<char>,
    pub secondary_label: Seq<char>,
    pub secondary_route: Seq<char>,
}

impl View for NotifyEvent {
    type V = EventModel;

    open spec fn view(&self) -> EventModel {
        EventModel {
            schema_version: self.schema_version,
            event: self.event@,
            toast_id: self.toast_id@,
            group_id: self.group_id@,
            timestamp: self.timestamp@,
            title: self.title@,
            message: self.message@,
            status: self.status@,
            progress: self.progress,
            route: self.route@,
            actions: self.actions@.map_values(|a: NotifyAction| a@),
            primary_label: self.primary_label@,
            primary_route: self.primary_route@,
            secondary_label: self.secondary_label@,
            secondary_route: self.secondary_route@,
        }
    }
}

/// The schema version of an event that names none.
pub fn default_schema_version() -> (v: u32)
    ensures
        v == 1,
{
    1
}

/// The status of an event that names none.
pub fn default_status() -> (s: String)
    ensures
        s@ == "info"@,
{
    "info".to_owned()
}

/// The kind of an action that names none.
pub fn default_action_kind() -> (s: String)
    ensures
        s@ == "secondary"@,
{
    "secondary".to_owned()
}

/// The toast id given to an event that has none: `event:{event}:{timestamp}`.
pub open spec fn fallback_toast_id(e: EventModel) -> Seq<char> {
    "event:"@ + e.event + ":"@ + e.timestamp
}

/// An event completed for display: a blank toast id becomes
/// `event:{event}:{timestamp}`, and a blank title becomes the event name.
pub open spec fn spec_normalize(e: EventModel) -> EventModel {
    let e1 = if is_blank_text(e.toast_id) {
        EventModel { toast_id: fallback_toast_id(e), ..e }
    } else {
        e
    };
    if is_blank_text(e1.title) {
        EventModel { title: e1.event, ..e1 }
    } else {
        e1
    }
}

/// A text whose first character is not whitespace is not blank.
pub proof fn lemma_not_blank(s: Seq<char>)
    requires
        s.len() > 0,
        !spec_is_whitespace(s[0]),
    ensures
        !is_blank_text(s),
{
    lemma_leading_ws(s, 0);
    assert(trim_start(s) =~= s);
    lemma_trailing_lt(s);
}

proof fn lemma_trailing_lt(s: Seq<char>)
    requires
        s.len() > 0,
        !spec_is_whitespace(s[0]),
    ensures
        trailing_ws(s) < s.len(),
    decreases s.len(),
{
    if s.len() > 1 && spec_is_whitespace(s.last()) {
        let t = s.drop_last();
        assert(t[0] == s[0]);
        lemma_trailing_lt(t);
    }
}

/// The fallback toast id is never blank.
pub proof fn lemma_fallback_id_not_blank(e: EventModel)
    ensures
        !is_blank_text(fallback_toast_id(e)),
{
    reveal_strlit("event:");
    let s = fallback_toast_id(e);
    assert(s[0] == 'e');
    lemma_not_blank(s);
}

/// Completing an event twice is completing it once.
pub proof fn lemma_normalize_idempotent(e: EventModel)
    ensures
        spec_normalize(spec_normalize(e)) == spec_normalize(e),
{
    lemma_fallback_id_not_blank(e);
}

/// Completing an event fills in exactly its blank toast id and blank title: a
/// blank toast id becomes `event:{event}:{timestamp}` whatever the other fields
/// hold, a blank title becomes the event name, and every other field is kept.
pub proof fn lemma_normalize_fields(e: EventModel)
    ensures
        is_blank_text(e.toast_id) ==> spec_normalize(e).toast_id == "event:"@ + e.event + ":"@
            + e.timestamp,
        !is_blank_text(e.toast_id) ==> spec_normalize(e).toast_id == e.toast_id,
        is_blank_text(e.title) ==> spec_normalize(e).title == e.event,
        !is_blank_text(e.title) ==> spec_normalize(e).title == e.title,
        spec_normalize(e).schema_version == e.schema_version,
        spec_normalize(e).event == e.event,
        spec_normalize(e).group_id == e.group_id,
        spec_normalize(e).timestamp == e.timestamp,
        spec_normalize(e).message == e.message,
        spec_normalize(e).status == e.status,
        spec_normalize(e).progress == e.progress,
        spec_normalize(e).route == e.route,
        spec_normalize(e).actions == e.actions,
        spec_normalize(e).primary_label == e.primary_label,
        spec_normalize(e).primary_route == e.primary_route,
        spec_normalize(e).secondary_label == e.secondary_label,
        spec_normalize(e).secondary_route == e.secondary_route,
{
}

/// Completes an event that was just read: fills in a missing toast id and title.
pub fn normalize_event(event: NotifyEvent) -> (r: NotifyEvent)
    ensures
        r@ == spec_normalize(event@),
{
    let mut event = event;
    if is_blank(event.toast_id.as_str()) {
        let mut id: Vec<char> = chars_of("event:");
        let name = chars_of(event.event.as_str());
        let colon = chars_of(":");
        let stamp = chars_of(event.timestamp.as_str());
        append_chars(&mut id, &name);
        append_chars(&mut id, &colon);
        append_chars(&mut id, &stamp);
        event.toast_id = string_from_chars(&id);
    }
    if is_blank(event.title.as_str()) {
        event.title = event.event.as_str().to_owned();
    }
    event
}

} // verus!
