//! Gmail, Calendar and Contacts: the records the viewers and tools show, read out of the fields
//! the Google APIs answer with, and the addresses those APIs are asked at.
//!
//! The requests and the JSON they return belong to the shell, which hands each answer's fields
//! over as plain values.
use vstd::prelude::*;
use vstd::string::*;

use base64::Engine;

use crate::text::{chars_of, concat, eq_str, string_of, decimal, decimal_string, to_ascii_lower, chars_eq, ascii_lower};
use crate::order::{sort_by_keys, stable_sorted, keyed_view};

use crate::text::opt_string;
verus! {

broadcast use vstd::string::group_string_axioms;

/// A present text, or the default.
pub open spec fn or_text(o: Option<String>, d: Seq<char>) -> Seq<char> {
    match o {
        Some(s) => s@,
        None => d,
    }
}

fn take_or(o: Option<String>, d: &str) -> (r: String)
    ensures
        r@ == or_text(o, d@),
{
    match o {
        Some(s) => s,
        None => d.to_string(),
    }
}

// ------------------------------------------------------------------ Gmail

/// One message in a list of mail.
#[derive(Debug)]
pub struct EmailSummary {
    pub id: String,
    pub subject: String,
    pub from: String,
    pub date: String,
    pub snippet: String,
    pub unread: bool,
}

/// A page of mail.
#[derive(Debug)]
pub struct EmailPage {
    pub emails: Vec<EmailSummary>,
    pub next_page_token: Option<String>,
    pub result_size_estimate: Option<i64>,
}

/// A message header as the API gives it: its name and value, where they are strings.
#[derive(Debug)]
pub struct Header {
    pub name: Option<String>,
    pub value: Option<String>,
}

/// The value of the first header named `name` (ignoring ASCII case), or empty where there is none
/// (or it has no value).
pub open spec fn header_value(headers: Seq<Header>, name: Seq<char>) -> Seq<char>
    decreases headers.len(),
{
    if headers.len() == 0 {
        Seq::empty()
    } else {
        let h = headers[0];
        if h.name matches Some(n) && ascii_lower(n@) == ascii_lower(name) {
            or_text(h.value, Seq::empty())
        } else {
            header_value(headers.drop_first(), name)
        }
    }
}

/// The value of the first header named `name`, ignoring ASCII case.
pub fn find_header(headers: &Vec<Header>, name: &str) -> (r: String)
    ensures
        r@ == header_value(headers@, name@),
{
    proof {
        reveal_strlit("");
    }
    let want = to_ascii_lower(chars_of(name).as_slice());
    let mut i: usize = 0;
    assert(headers@.skip(0) =~= headers@);
    while i < headers.len()
        invariant
            i <= headers@.len(),
            want@ == ascii_lower(name@),
            header_value(headers@, name@) == header_value(headers@.skip(i as int), name@),
        decreases headers@.len() - i,
    {
        let h = &headers[i];
        assert(headers@.skip(i as int)[0] == *h);
        assert(headers@.skip(i as int).drop_first() =~= headers@.skip(i + 1));
        if let Some(n) = &h.name {
            let got = to_ascii_lower(chars_of(n.as_str()).as_slice());
            if chars_eq(got.as_slice(), want.as_slice()) {
                return match &h.value {
                    Some(v) => v.clone(),
                    None => String::new(),
                };
            }
        }
        i = i + 1;
    }
    String::new()
}

/// A message's summary from its metadata: the subject, sender and date headers, the snippet, and
/// whether it carries the `UNREAD` label.
pub fn email_summary(id: &str, headers: &Vec<Header>, labels: &Vec<Option<String>>, snippet: Option<String>) -> (r:
    EmailSummary)
    ensures
        r.id@ == id@,
        r.subject@ == header_value(headers@, "Subject"@),
        r.from@ == header_value(headers@, "From"@),
        r.date@ == header_value(headers@, "Date"@),
        r.snippet@ == or_text(snippet, Seq::empty()),
        r.unread == exists|i: int| 0 <= i < labels@.len() && #[trigger] opt_string(labels@[i]) == Some("UNREAD"@),
{
    proof {
        reveal_strlit("");
    }
    let mut unread = false;
    let mut i: usize = 0;
    while i < labels.len()
        invariant
            i <= labels@.len(),
            unread == exists|j: int| 0 <= j < i && #[trigger] opt_string(labels@[j]) == Some("UNREAD"@),
        decreases labels@.len() - i,
    {
        if let Some(l) = &labels[i] {
            if eq_str(l.as_str(), "UNREAD") {
                assert(opt_string(labels@[i as int]) == Some("UNREAD"@));
                unread = true;
            }
        }
        i = i + 1;
    }
    EmailSummary {
        id: id.to_string(),
        subject: find_header(headers, "Subject"),
        from: find_header(headers, "From"),
        date: find_header(headers, "Date"),
        snippet: take_or(snippet, ""),
        unread,
    }
}

/// The Gmail address that lists messages: at most `max`, matching `query`, from a page token.
pub open spec fn spec_messages_url(max: u64, query: Seq<char>, page_token: Option<Seq<char>>) -> Seq<char> {
    "https://gmail.googleapis.com/gmail/v1/users/me/messages?maxResults="@ + decimal(max as nat) + "&q="@
        + crate::oauth::url_encoded(vstd::utf8::encode_utf8(query)) + match page_token {
        Some(t) => "&pageToken="@ + crate::oauth::url_encoded(vstd::utf8::encode_utf8(t)),
        None => Seq::empty(),
    }
}

/// The Gmail address that lists messages.
pub fn messages_url(max: u64, query: &str, page_token: Option<&str>) -> (r: String)
    ensures
        r@ == spec_messages_url(max, query@, crate::text::opt_str(page_token)),
{
    proof {
        reveal_strlit("");
    }
    let mut u = concat("https://gmail.googleapis.com/gmail/v1/users/me/messages?maxResults=", decimal_string(max).as_str());
    u = concat(u.as_str(), "&q=");
    u = concat(u.as_str(), crate::oauth::urlencoded(query).as_str());
    match page_token {
        Some(t) => {
            u = concat(u.as_str(), "&pageToken=");
            concat(u.as_str(), crate::oauth::urlencoded(t).as_str())
        },
        None => concat(u.as_str(), ""),
    }
}

/// A part of a message's MIME tree, as the API gives it: its type, its body data (URL-safe
/// Base64), and its sub-parts.
#[derive(Debug)]
pub struct MimePart {
    pub mime_type: Option<String>,
    pub body_data: Option<String>,
    pub parts: Vec<MimePart>,
}

/// The bytes Gmail's body data decodes to (URL-safe Base64, padded or not), or `None` where it
/// does not decode.
pub uninterp spec fn body_bytes(data: Seq<char>) -> Option<Seq<u8>>;

/// `base64` URL-safe decoding, indifferent to padding.
#[verifier::external_body]
fn decode_body(data: &str) -> (r: Option<Vec<u8>>)
    ensures
        match r {
            Some(b) => body_bytes(data@) == Some(b@),
            None => body_bytes(data@) is None,
        },
{
    let engine = base64::engine::GeneralPurpose::new(
        &base64::alphabet::URL_SAFE,
        base64::engine::GeneralPurposeConfig::new().with_decode_padding_mode(
            base64::engine::DecodePaddingMode::Indifferent,
        ),
    );
    engine.decode(data).ok()
}

/// The text of the first part of type `want` (depth first, a part before its sub-parts) whose
/// data decodes; `None` where there is none.
pub open spec fn find_body(part: MimePart, want: Seq<char>) -> Option<Seq<char>>
    decreases part,
{
    let own = if opt_string(part.mime_type) == Some(want) || (part.mime_type is None && want.len() == 0) {
        match part.body_data {
            Some(d) => match body_bytes(d@) {
                Some(b) => Some(crate::oauth::lossy_text(b)),
                None => None,
            },
            None => None,
        }
    } else {
        None
    };
    match own {
        Some(t) => Some(t),
        None => find_in_parts(part.parts@, want, 0),
    }
}

/// The text of the first sub-part from `i` on that has one.
pub open spec fn find_in_parts(parts: Seq<MimePart>, want: Seq<char>, i: int) -> Option<Seq<char>>
    decreases parts, parts.len() - i,
{
    if i < 0 || i >= parts.len() {
        None
    } else {
        match find_body(parts[i], want) {
            Some(t) => Some(t),
            None => find_in_parts(parts, want, i + 1),
        }
    }
}

/// The text of the first part of the wanted type.
pub fn find_body_text(part: &MimePart, want: &str) -> (r: Option<String>)
    ensures
        opt_string(r) == find_body(*part, want@),
    decreases part,
{
    let matches = match &part.mime_type {
        Some(m) => eq_str(m.as_str(), want),
        None => want.unicode_len() == 0,
    };
    if matches {
        if let Some(d) = &part.body_data {
            if let Some(bytes) = decode_body(d.as_str()) {
                return Some(crate::oauth::utf8_lossy(bytes.as_slice()));
            }
        }
    }
    let mut i: usize = 0;
    while i < part.parts.len()
        invariant
            i <= part.parts@.len(),
            find_body(*part, want@) == find_in_parts(part.parts@, want@, i as int),
        decreases part.parts@.len() - i,
    {
        assert(decreases_to!(*part => part.parts@[i as int]));
        if let Some(t) = find_body_text(&part.parts[i], want) {
            return Some(t);
        }
        i = i + 1;
    }
    None
}

/// A message's text as the viewer and the tools show it: its headers, then the body of the
/// preferred type (else the other text type, else the snippet, else `(no body)`).
pub open spec fn spec_body_choice(
    payload: MimePart,
    html: bool,
    snippet: Option<String>,
) -> Seq<char> {
    let primary = if html { "text/html"@ } else { "text/plain"@ };
    let fallback = if html { "text/plain"@ } else { "text/html"@ };
    match find_body(payload, primary) {
        Some(t) => t,
        None => match find_body(payload, fallback) {
            Some(t) => t,
            None => or_text(snippet, "(no body)"@),
        },
    }
}

/// A message's body: the preferred type, else the other text type, else the snippet.
pub fn choose_body(payload: &MimePart, html: bool, snippet: Option<String>) -> (r: String)
    ensures
        r@ == spec_body_choice(*payload, html, snippet),
{
    let primary = if html { "text/html" } else { "text/plain" };
    let fallback = if html { "text/plain" } else { "text/html" };
    match find_body_text(payload, primary) {
        Some(t) => t,
        None => match find_body_text(payload, fallback) {
            Some(t) => t,
            None => take_or(snippet, "(no body)"),
        },
    }
}

/// A message as read: its From, To, Subject and Date headers, a blank line, and its body.
pub fn email_text(headers: &Vec<Header>, body: &str) -> (r: String)
    ensures
        r@ == "From: "@ + header_value(headers@, "From"@) + "\nTo: "@ + header_value(headers@, "To"@)
            + "\nSubject: "@ + header_value(headers@, "Subject"@) + "\nDate: "@ + header_value(
            headers@,
            "Date"@,
        ) + "\n\n"@ + body@,
{
    let mut t = concat("From: ", find_header(headers, "From").as_str());
    t = concat(t.as_str(), "\nTo: ");
    t = concat(t.as_str(), find_header(headers, "To").as_str());
    t = concat(t.as_str(), "\nSubject: ");
    t = concat(t.as_str(), find_header(headers, "Subject").as_str());
    t = concat(t.as_str(), "\nDate: ");
    t = concat(t.as_str(), find_header(headers, "Date").as_str());
    t = concat(t.as_str(), "\n\n");
    concat(t.as_str(), body)
}

// ------------------------------------------------------------------ accounts and tokens

/// A token is refreshed unless it stays valid for more than another minute (a token with no
/// expiry counts as expired).
pub open spec fn spec_needs_refresh(expiry: Option<i64>, now: i64) -> bool {
    !(match expiry {
        Some(e) => e as int,
        None => 0,
    } > now + 60)
}

/// Whether an account's token must be refreshed before use.
pub fn needs_refresh(expiry: Option<i64>, now: i64) -> (r: bool)
    ensures
        r == spec_needs_refresh(expiry, now),
{
    let e: i128 = match expiry {
        Some(e) => e as i128,
        None => 0,
    };
    !(e > now as i128 + 60)
}

/// Whether an account is connected for a service.
pub open spec fn serves(a: crate::db::Account, service: Seq<char>) -> bool {
    a.services.deep_view().contains(service)
}

/// The first account connected for `service`, if any.
pub fn account_for_service(accounts: &Vec<crate::db::Account>, service: &str) -> (r: Option<usize>)
    ensures
        match r {
            Some(i) => i < accounts@.len() && serves(accounts@[i as int], service@) && forall|j: int|
                0 <= j < i ==> !serves(#[trigger] accounts@[j], service@),
            None => forall|j: int| 0 <= j < accounts@.len() ==> !serves(#[trigger] accounts@[j], service@),
        },
{
    let mut i: usize = 0;
    while i < accounts.len()
        invariant
            i <= accounts@.len(),
            forall|j: int| 0 <= j < i ==> !serves(#[trigger] accounts@[j], service@),
        decreases accounts@.len() - i,
    {
        let svcs = &accounts[i].services;
        let ghost sv = svcs.deep_view();
        let mut k: usize = 0;
        let mut found = false;
        while k < svcs.len()
            invariant
                k <= svcs@.len(),
                sv == svcs.deep_view(),
                found == exists|t: int| 0 <= t < k && sv[t] == service@,
            decreases svcs@.len() - k,
        {
            assert(sv[k as int] == svcs@[k as int]@);
            if eq_str(svcs[k].as_str(), service) {
                found = true;
            }
            k = k + 1;
        }
        if found {
            return Some(i);
        }
        i = i + 1;
    }
    None
}

// ------------------------------------------------------------------ Calendar

/// An event in a calendar viewer or tool.
#[derive(Debug)]
pub struct CalendarEvent {
    pub id: String,
    pub summary: String,
    pub start: String,
    pub end: String,
    pub location: Option<String>,
    pub description: Option<String>,
    /// The hex background colour: the event's own, else its calendar's.
    pub color: Option<String>,
}

/// The hex colour of Google Calendar's event palette entries `1` to `11`.
pub open spec fn spec_color_hex(id: Seq<char>) -> Option<Seq<char>> {
    if id == "1"@ {
        Some("#a4bdfc"@)
    } else if id == "2"@ {
        Some("#7ae28c"@)
    } else if id == "3"@ {
        Some("#dbadff"@)
    } else if id == "4"@ {
        Some("#ff887c"@)
    } else if id == "5"@ {
        Some("#fbd75b"@)
    } else if id == "6"@ {
        Some("#ffb878"@)
    } else if id == "7"@ {
        Some("#46d6db"@)
    } else if id == "8"@ {
        Some("#e1e1e1"@)
    } else if id == "9"@ {
        Some("#5484ed"@)
    } else if id == "10"@ {
        Some("#51b749"@)
    } else if id == "11"@ {
        Some("#dc2127"@)
    } else {
        None
    }
}

/// The hex colour of an event palette id.
pub fn google_color_id_to_hex(id: &str) -> (r: Option<&'static str>)
    ensures
        crate::text::opt_str(r) == spec_color_hex(id@),
{
    if eq_str(id, "1") {
        Some("#a4bdfc")
    } else if eq_str(id, "2") {
        Some("#7ae28c")
    } else if eq_str(id, "3") {
        Some("#dbadff")
    } else if eq_str(id, "4") {
        Some("#ff887c")
    } else if eq_str(id, "5") {
        Some("#fbd75b")
    } else if eq_str(id, "6") {
        Some("#ffb878")
    } else if eq_str(id, "7") {
        Some("#46d6db")
    } else if eq_str(id, "8") {
        Some("#e1e1e1")
    } else if eq_str(id, "9") {
        Some("#5484ed")
    } else if eq_str(id, "10") {
        Some("#51b749")
    } else if eq_str(id, "11") {
        Some("#dc2127")
    } else {
        None
    }
}

/// An event's fields as the API gives them, where they are strings.
#[derive(Debug)]
pub struct RawEvent {
    pub id: Option<String>,
    pub summary: Option<String>,
    pub start_date_time: Option<String>,
    pub start_date: Option<String>,
    pub end_date_time: Option<String>,
    pub end_date: Option<String>,
    pub location: Option<String>,
    pub description: Option<String>,
    pub color_id: Option<String>,
    pub background_color: Option<String>,
}

/// The first present text.
pub open spec fn first_of(a: Option<Seq<char>>, b: Option<Seq<char>>) -> Option<Seq<char>> {
    match a {
        Some(x) => Some(x),
        None => b,
    }
}

/// The colour an event is drawn in: its palette id's colour, else its own background colour,
/// else its calendar's.
pub open spec fn event_color(raw: RawEvent, calendar_color: Option<Seq<char>>) -> Option<Seq<char>> {
    first_of(
        match raw.color_id {
            Some(c) => spec_color_hex(c@),
            None => None,
        },
        first_of(opt_string(raw.background_color), calendar_color),
    )
}

/// An event from its fields: an untitled one is `(no title)`; its start and end are the timed
/// moment, else the all-day date, else empty.
pub fn event_from(raw: RawEvent, calendar_color: Option<String>) -> (r: CalendarEvent)
    ensures
        r.id@ == or_text(raw.id, Seq::empty()),
        r.summary@ == or_text(raw.summary, "(no title)"@),
        r.start@ == or_text(raw.start_date_time, or_text(raw.start_date, Seq::empty())),
        r.end@ == or_text(raw.end_date_time, or_text(raw.end_date, Seq::empty())),
        opt_string(r.location) == opt_string(raw.location),
        opt_string(r.description) == opt_string(raw.description),
        opt_string(r.color) == event_color(raw, opt_string(calendar_color)),
{
    proof {
        reveal_strlit("");
    }
    let ghost g = raw;
    let RawEvent {
        id,
        summary,
        start_date_time,
        start_date,
        end_date_time,
        end_date,
        location,
        description,
        color_id,
        background_color,
    } = raw;
    let palette = match &color_id {
        Some(c) => google_color_id_to_hex(c.as_str()),
        None => None,
    };
    let color = match palette {
        Some(h) => Some(h.to_string()),
        None => match background_color {
            Some(b) => Some(b),
            None => calendar_color,
        },
    };
    let start = match start_date_time {
        Some(s) => s,
        None => take_or(start_date, ""),
    };
    let end = match end_date_time {
        Some(s) => s,
        None => take_or(end_date, ""),
    };
    CalendarEvent {
        id: take_or(id, ""),
        summary: take_or(summary, "(no title)"),
        start,
        end,
        location,
        description,
        color,
    }
}

/// How many events are asked of each calendar: the total spread over the calendars, at least 50.
pub fn events_per_calendar(max: u64, calendars: usize) -> (r: u64)
    ensures
        r == if max / (if calendars == 0 { 1 } else { calendars as u64 }) >= 50 {
            max / (if calendars == 0 { 1 } else { calendars as u64 })
        } else {
            50
        },
{
    let n: u64 = if calendars == 0 { 1 } else { calendars as u64 };
    let per = max / n;
    if per >= 50 { per } else { 50 }
}

/// The events of all calendars in one list, by start (as text), events with equal starts kept in
/// the order they came.
pub fn sort_by_start(events: Vec<CalendarEvent>) -> (r: Vec<CalendarEvent>)
    ensures
        ({
            let keyed = Seq::new(events@.len(), |i: int| (events@[i].start@, events@[i]));
            r@ == stable_sorted(keyed).map_values(|p: (Seq<char>, CalendarEvent)| p.1)
        }),
{
    let mut keys: Vec<Vec<char>> = Vec::new();
    let mut i: usize = 0;
    while i < events.len()
        invariant
            i <= events@.len(),
            keys@.len() == i,
            forall|j: int| 0 <= j < i ==> (#[trigger] keys@[j])@ == events@[j].start@,
        decreases events@.len() - i,
    {
        keys.push(chars_of(events[i].start.as_str()));
        i = i + 1;
    }
    let ghost ks = keys@;
    let ghost evs = events@;
    let r = sort_by_keys(events, keys);
    proof {
        assert(keyed_view(ks, evs) =~= Seq::new(evs.len(), |i: int| (evs[i].start@, evs[i])));
    }
    r
}

/// When an event written to the calendar starts or ends: a whole day, or a moment (sent as UTC).
#[derive(Debug)]
pub enum EventTime {
    Date(String),
    DateTime(String),
}

/// An event as it is written to the primary calendar.
#[derive(Debug)]
pub struct EventBody {
    pub summary: String,
    pub start: EventTime,
    pub end: EventTime,
    pub location: Option<String>,
    pub description: Option<String>,
}

pub open spec fn event_time_view(t: EventTime) -> (bool, Seq<char>) {
    match t {
        EventTime::Date(d) => (true, d@),
        EventTime::DateTime(d) => (false, d@),
    }
}

fn event_time(at: &str, all_day: bool) -> (r: EventTime)
    ensures
        event_time_view(r) == (all_day, at@),
{
    if all_day {
        EventTime::Date(at.to_string())
    } else {
        EventTime::DateTime(at.to_string())
    }
}

/// An event to create or replace: an all-day event's start and end are dates, any other's are
/// moments.
pub fn event_body(
    summary: &str,
    start: &str,
    end: &str,
    location: Option<&str>,
    description: Option<&str>,
    all_day: bool,
) -> (r: EventBody)
    ensures
        r.summary@ == summary@,
        event_time_view(r.start) == (all_day, start@),
        event_time_view(r.end) == (all_day, end@),
        opt_string(r.location) == crate::text::opt_str(location),
        opt_string(r.description) == crate::text::opt_str(description),
{
    EventBody {
        summary: summary.to_string(),
        start: event_time(start, all_day),
        end: event_time(end, all_day),
        location: match location {
            Some(l) => Some(l.to_string()),
            None => None,
        },
        description: match description {
            Some(d) => Some(d.to_string()),
            None => None,
        },
    }
}

/// The address an event is created at (`None`), or the address of the event it replaces.
pub open spec fn spec_event_write_url(event_id: Option<Seq<char>>) -> Seq<char> {
    "https://www.googleapis.com/calendar/v3/calendars/primary/events"@ + match event_id {
        Some(id) => "/"@ + crate::oauth::url_encoded(vstd::utf8::encode_utf8(id)),
        None => Seq::empty(),
    }
}

/// The address an event is created or replaced at.
pub fn event_write_url(event_id: Option<&str>) -> (r: String)
    ensures
        r@ == spec_event_write_url(crate::text::opt_str(event_id)),
{
    proof {
        reveal_strlit("");
    }
    let base = "https://www.googleapis.com/calendar/v3/calendars/primary/events";
    match event_id {
        Some(id) => concat(concat(base, "/").as_str(), crate::oauth::urlencoded(id).as_str()),
        None => concat(base, ""),
    }
}

// ------------------------------------------------------------------ Contacts

/// A labelled value (an address, a number).
#[derive(Debug)]
pub struct LabeledValue {
    pub value: String,
    pub label: String,
}

/// A postal address.
#[derive(Debug)]
pub struct ContactAddress {
    pub street: String,
    pub city: String,
    pub region: String,
    pub postal_code: String,
    pub country: String,
    pub label: String,
}

/// A contact.
#[derive(Debug)]
pub struct Contact {
    pub id: String,
    pub etag: String,
    pub display_name: String,
    pub given_name: String,
    pub family_name: String,
    pub middle_name: String,
    pub name_prefix: String,
    pub name_suffix: String,
    pub nickname: String,
    pub emails: Vec<LabeledValue>,
    pub phones: Vec<LabeledValue>,
    pub addresses: Vec<ContactAddress>,
    pub organization: String,
    pub job_title: String,
    pub department: String,
    pub birthday: Option<String>,
    pub anniversary: Option<String>,
    pub website: String,
    pub notes: String,
    pub photo_url: Option<String>,
}

/// A page of contacts.
#[derive(Debug)]
pub struct ContactsPage {
    pub contacts: Vec<Contact>,
    pub next_page_token: Option<String>,
}

/// A day as the People API gives it; the year is optional.
#[derive(Debug, Clone, Copy)]
pub struct RawDate {
    pub year: Option<i64>,
    pub month: Option<i64>,
    pub day: Option<i64>,
}

/// A signed integer in decimal.
pub open spec fn signed_decimal(n: int) -> Seq<char> {
    if n < 0 {
        seq!['-'] + decimal((-n) as nat)
    } else {
        decimal(n as nat)
    }
}

/// An integer written at least two wide, zero-padded (`{:02}`).
pub open spec fn two_digits(n: int) -> Seq<char> {
    if 0 <= n < 10 {
        seq!['0'] + decimal(n as nat)
    } else {
        signed_decimal(n)
    }
}

fn signed_decimal_string(n: i64) -> (r: String)
    ensures
        r@ == signed_decimal(n as int),
{
    if n < 0 {
        let m: u64 = if n == i64::MIN { 9223372036854775808u64 } else { (-n) as u64 };
        assert(m == -(n as int));
        proof {
            reveal_strlit("-");
            assert("-"@ =~= seq!['-']);
        }
        let d = decimal_string(m);
        concat("-", d.as_str())
    } else {
        decimal_string(n as u64)
    }
}

fn two_digit_string(n: i64) -> (r: String)
    ensures
        r@ == two_digits(n as int),
{
    if 0 <= n && n < 10 {
        proof {
            reveal_strlit("0");
            assert("0"@ =~= seq!['0']);
        }
        let d = decimal_string(n as u64);
        concat("0", d.as_str())
    } else {
        signed_decimal_string(n)
    }
}

/// A contact's day as text: `YYYY-MM-DD`, or `--MM-DD` without a year; `None` without a month and
/// a day.
pub open spec fn spec_contact_date(d: RawDate) -> Option<Seq<char>> {
    match (d.month, d.day) {
        (Some(m), Some(dd)) => Some(
            match d.year {
                Some(y) => signed_decimal(y as int) + "-"@ + two_digits(m as int) + "-"@ + two_digits(dd as int),
                None => "--"@ + two_digits(m as int) + "-"@ + two_digits(dd as int),
            },
        ),
        _ => None,
    }
}

/// A contact's day as text.
pub fn contact_date(d: RawDate) -> (r: Option<String>)
    ensures
        opt_string(r) == spec_contact_date(d),
{
    match (d.month, d.day) {
        (Some(m), Some(dd)) => {
            let tail = concat(concat(two_digit_string(m).as_str(), "-").as_str(), two_digit_string(dd).as_str());
            Some(
                match d.year {
                    Some(y) => concat(concat(signed_decimal_string(y).as_str(), "-").as_str(), tail.as_str()),
                    None => concat("--", tail.as_str()),
                },
            )
        },
        _ => None,
    }
}

/// A labelled entry as the API gives it.
#[derive(Debug)]
pub struct RawLabeled {
    pub value: Option<String>,
    pub formatted_type: Option<String>,
    pub kind: Option<String>,
}

/// The label shown for an entry: its formatted type, else its type, else `Other`.
pub open spec fn entry_label(formatted_type: Option<String>, kind: Option<String>) -> Seq<char> {
    or_text(formatted_type, or_text(kind, "Other"@))
}

/// The label shown for an entry.
fn label_of(formatted_type: Option<String>, kind: Option<String>) -> (r: String)
    ensures
        r@ == entry_label(formatted_type, kind),
{
    match formatted_type {
        Some(f) => f,
        None => take_or(kind, "Other"),
    }
}

/// A labelled value from its fields.
pub fn labeled_from(raw: RawLabeled) -> (r: LabeledValue)
    ensures
        r.value@ == or_text(raw.value, Seq::empty()),
        r.label@ == entry_label(raw.formatted_type, raw.kind),
{
    proof {
        reveal_strlit("");
    }
    let RawLabeled { value, formatted_type, kind } = raw;
    LabeledValue { value: take_or(value, ""), label: label_of(formatted_type, kind) }
}

/// An address as the API gives it.
#[derive(Debug)]
pub struct RawAddress {
    pub street: Option<String>,
    pub city: Option<String>,
    pub region: Option<String>,
    pub postal_code: Option<String>,
    pub country: Option<String>,
    pub formatted_type: Option<String>,
    pub kind: Option<String>,
}

/// A person's first name entry as the API gives it.
#[derive(Debug)]
pub struct RawName {
    pub display_name: Option<String>,
    pub given_name: Option<String>,
    pub family_name: Option<String>,
    pub middle_name: Option<String>,
    pub prefix: Option<String>,
    pub suffix: Option<String>,
}

/// A person's first organisation as the API gives it.
#[derive(Debug)]
pub struct RawOrganization {
    pub name: Option<String>,
    pub title: Option<String>,
    pub department: Option<String>,
}

/// A photo entry as the API gives it.
#[derive(Debug)]
pub struct RawPhoto {
    pub is_default: Option<bool>,
    pub url: Option<String>,
}

/// A dated event entry (birthday aside) as the API gives it.
#[derive(Debug)]
pub struct RawDatedEvent {
    pub kind: Option<String>,
    pub date: RawDate,
}

/// A person as the API gives it: the first of the entries that are only shown once, and every
/// entry of those that are listed.
#[derive(Debug)]
pub struct RawPerson {
    pub resource_name: Option<String>,
    pub etag: Option<String>,
    pub name: Option<RawName>,
    pub nickname: Option<String>,
    pub emails: Vec<RawLabeled>,
    pub phones: Vec<RawLabeled>,
    pub addresses: Vec<RawAddress>,
    pub organization: Option<RawOrganization>,
    pub birthday: Option<RawDate>,
    pub events: Vec<RawDatedEvent>,
    pub website: Option<String>,
    pub notes: Option<String>,
    pub photos: Vec<RawPhoto>,
}

/// The view of a labelled value.
pub open spec fn labeled_view(l: LabeledValue) -> (Seq<char>, Seq<char>) {
    (l.value@, l.label@)
}

/// The view of a raw labelled entry, as shown.
pub open spec fn raw_labeled_view(l: RawLabeled) -> (Seq<char>, Seq<char>) {
    (or_text(l.value, Seq::empty()), entry_label(l.formatted_type, l.kind))
}

/// The anniversary of a person: the date of the first event of type `anniversary`.
pub open spec fn anniversary_of(events: Seq<RawDatedEvent>) -> Option<Seq<char>>
    decreases events.len(),
{
    if events.len() == 0 {
        None
    } else if opt_string(events[0].kind) == Some("anniversary"@) {
        spec_contact_date(events[0].date)
    } else {
        anniversary_of(events.drop_first())
    }
}

/// The photo shown for a person: the url of the first photo not marked as the default
/// placeholder.
pub open spec fn photo_of(photos: Seq<RawPhoto>) -> Option<Seq<char>>
    decreases photos.len(),
{
    if photos.len() == 0 {
        None
    } else if photos[0].is_default != Some(true) {
        opt_string(photos[0].url)
    } else {
        photo_of(photos.drop_first())
    }
}

fn labeled_list(raw: Vec<RawLabeled>) -> (r: Vec<LabeledValue>)
    ensures
        r@.len() == raw@.len(),
        forall|i: int| 0 <= i < r@.len() ==> labeled_view(#[trigger] r@[i]) == raw_labeled_view(raw@[i]),
{
    let ghost orig = raw@;
    let mut rest = raw;
    let mut out: Vec<LabeledValue> = Vec::new();
    let mut i: usize = 0;
    let total = rest.len();
    assert(orig.skip(0) =~= orig);
    while rest.len() > 0
        invariant
            rest@ == orig.skip(i as int),
            out@.len() == i,
            i + rest@.len() == orig.len(),
            orig.len() == total,
            forall|j: int| 0 <= j < i ==> labeled_view(#[trigger] out@[j]) == raw_labeled_view(orig[j]),
        decreases rest@.len(),
    {
        let e = rest.remove(0);
        assert(e == orig[i as int]);
        assert(orig.skip(i + 1) =~= orig.skip(i as int).drop_first());
        out.push(labeled_from(e));
        i = i + 1;
    }
    out
}

/// An address from its fields.
pub fn address_from(raw: RawAddress) -> (r: ContactAddress)
    ensures
        r.street@ == or_text(raw.street, Seq::empty()),
        r.city@ == or_text(raw.city, Seq::empty()),
        r.region@ == or_text(raw.region, Seq::empty()),
        r.postal_code@ == or_text(raw.postal_code, Seq::empty()),
        r.country@ == or_text(raw.country, Seq::empty()),
        r.label@ == entry_label(raw.formatted_type, raw.kind),
{
    proof {
        reveal_strlit("");
    }
    let RawAddress { street, city, region, postal_code, country, formatted_type, kind } = raw;
    ContactAddress {
        street: take_or(street, ""),
        city: take_or(city, ""),
        region: take_or(region, ""),
        postal_code: take_or(postal_code, ""),
        country: take_or(country, ""),
        label: label_of(formatted_type, kind),
    }
}

/// The view of an address.
pub open spec fn address_view(a: ContactAddress) -> Seq<Seq<char>> {
    seq![a.street@, a.city@, a.region@, a.postal_code@, a.country@, a.label@]
}

/// The view of a raw address, as shown.
pub open spec fn raw_address_view(a: RawAddress) -> Seq<Seq<char>> {
    seq![
        or_text(a.street, Seq::empty()),
        or_text(a.city, Seq::empty()),
        or_text(a.region, Seq::empty()),
        or_text(a.postal_code, Seq::empty()),
        or_text(a.country, Seq::empty()),
        entry_label(a.formatted_type, a.kind),
    ]
}

fn anniversary_text(events: &Vec<RawDatedEvent>) -> (r: Option<String>)
    ensures
        opt_string(r) == anniversary_of(events@),
{
    let mut i: usize = 0;
    assert(events@.skip(0) =~= events@);
    while i < events.len()
        invariant
            i <= events@.len(),
            anniversary_of(events@) == anniversary_of(events@.skip(i as int)),
        decreases events@.len() - i,
    {
        assert(events@.skip(i as int)[0] == events@[i as int]);
        assert(events@.skip(i as int).drop_first() =~= events@.skip(i + 1));
        let is_anniversary = match &events[i].kind {
            Some(k) => eq_str(k.as_str(), "anniversary"),
            None => false,
        };
        if is_anniversary {
            return contact_date(events[i].date);
        }
        i = i + 1;
    }
    None
}

fn photo_url(photos: &Vec<RawPhoto>) -> (r: Option<String>)
    ensures
        opt_string(r) == photo_of(photos@),
{
    let mut i: usize = 0;
    assert(photos@.skip(0) =~= photos@);
    while i < photos.len()
        invariant
            i <= photos@.len(),
            photo_of(photos@) == photo_of(photos@.skip(i as int)),
        decreases photos@.len() - i,
    {
        assert(photos@.skip(i as int)[0] == photos@[i as int]);
        assert(photos@.skip(i as int).drop_first() =~= photos@.skip(i + 1));
        if photos[i].is_default != Some(true) {
            return match &photos[i].url {
                Some(u) => Some(u.clone()),
                None => None,
            };
        }
        i = i + 1;
    }
    None
}

/// A contact from a person's fields: unnamed people are `(no name)`; missing texts are empty;
/// every address, number and email is kept with its label; the birthday and anniversary are
/// written as days; the photo is the first that is not the placeholder.
pub fn parse_person(raw: RawPerson) -> (r: Contact)
    ensures
        r.id@ == or_text(raw.resource_name, Seq::empty()),
        r.etag@ == or_text(raw.etag, Seq::empty()),
        r.display_name@ == match raw.name {
            Some(n) => or_text(n.display_name, "(no name)"@),
            None => "(no name)"@,
        },
        r.given_name@ == match raw.name {
            Some(n) => or_text(n.given_name, Seq::empty()),
            None => Seq::empty(),
        },
        r.family_name@ == match raw.name {
            Some(n) => or_text(n.family_name, Seq::empty()),
            None => Seq::empty(),
        },
        r.middle_name@ == match raw.name {
            Some(n) => or_text(n.middle_name, Seq::empty()),
            None => Seq::empty(),
        },
        r.name_prefix@ == match raw.name {
            Some(n) => or_text(n.prefix, Seq::empty()),
            None => Seq::empty(),
        },
        r.name_suffix@ == match raw.name {
            Some(n) => or_text(n.suffix, Seq::empty()),
            None => Seq::empty(),
        },
        r.nickname@ == or_text(raw.nickname, Seq::empty()),
        r.emails@.len() == raw.emails@.len(),
        forall|i: int| 0 <= i < r.emails@.len() ==> labeled_view(#[trigger] r.emails@[i]) == raw_labeled_view(raw.emails@[i]),
        r.phones@.len() == raw.phones@.len(),
        forall|i: int| 0 <= i < r.phones@.len() ==> labeled_view(#[trigger] r.phones@[i]) == raw_labeled_view(raw.phones@[i]),
        r.addresses@.len() == raw.addresses@.len(),
        forall|i: int| 0 <= i < r.addresses@.len() ==> address_view(#[trigger] r.addresses@[i]) == raw_address_view(raw.addresses@[i]),
        r.organization@ == match raw.organization {
            Some(o) => or_text(o.name, Seq::empty()),
            None => Seq::empty(),
        },
        r.job_title@ == match raw.organization {
            Some(o) => or_text(o.title, Seq::empty()),
            None => Seq::empty(),
        },
        r.department@ == match raw.organization {
            Some(o) => or_text(o.department, Seq::empty()),
            None => Seq::empty(),
        },
        opt_string(r.birthday) == match raw.birthday {
            Some(d) => spec_contact_date(d),
            None => None,
        },
        opt_string(r.anniversary) == anniversary_of(raw.events@),
        r.website@ == or_text(raw.website, Seq::empty()),
        r.notes@ == or_text(raw.notes, Seq::empty()),
        opt_string(r.photo_url) == photo_of(raw.photos@),
{
    proof {
        reveal_strlit("");
    }
    let RawPerson {
        resource_name,
        etag,
        name,
        nickname,
        emails,
        phones,
        addresses,
        organization,
        birthday,
        events,
        website,
        notes,
        photos,
    } = raw;
    let (display_name, given_name, family_name, middle_name, name_prefix, name_suffix) = match name {
        Some(n) => (
            take_or(n.display_name, "(no name)"),
            take_or(n.given_name, ""),
            take_or(n.family_name, ""),
            take_or(n.middle_name, ""),
            take_or(n.prefix, ""),
            take_or(n.suffix, ""),
        ),
        None => (
            "(no name)".to_string(),
            String::new(),
            String::new(),
            String::new(),
            String::new(),
            String::new(),
        ),
    };
    let (organization, job_title, department) = match organization {
        Some(o) => (take_or(o.name, ""), take_or(o.title, ""), take_or(o.department, "")),
        None => (String::new(), String::new(), String::new()),
    };
    let ghost raw_addrs = addresses@;
    let mut addr_out: Vec<ContactAddress> = Vec::new();
    let mut rest = addresses;
    let mut i: usize = 0;
    let total = rest.len();
    assert(raw_addrs.skip(0) =~= raw_addrs);
    while rest.len() > 0
        invariant
            rest@ == raw_addrs.skip(i as int),
            addr_out@.len() == i,
            i + rest@.len() == raw_addrs.len(),
            raw_addrs.len() == total,
            forall|j: int| 0 <= j < i ==> address_view(#[trigger] addr_out@[j]) == raw_address_view(raw_addrs[j]),
        decreases rest@.len(),
    {
        let a = rest.remove(0);
        assert(a == raw_addrs[i as int]);
        assert(raw_addrs.skip(i + 1) =~= raw_addrs.skip(i as int).drop_first());
        addr_out.push(address_from(a));
        i = i + 1;
    }
    let birthday_text = match birthday {
        Some(d) => contact_date(d),
        None => None,
    };
    let anniversary = anniversary_text(&events);
    let photo = photo_url(&photos);
    Contact {
        id: take_or(resource_name, ""),
        etag: take_or(etag, ""),
        display_name,
        given_name,
        family_name,
        middle_name,
        name_prefix,
        name_suffix,
        nickname: take_or(nickname, ""),
        emails: labeled_list(emails),
        phones: labeled_list(phones),
        addresses: addr_out,
        organization,
        job_title,
        department,
        birthday: birthday_text,
        anniversary,
        website: take_or(website, ""),
        notes: take_or(notes, ""),
        photo_url: photo,
    }
}

/// The person fields the contact viewer reads.
pub const CONTACT_FIELDS: &'static str = "names,emailAddresses,phoneNumbers,photos,birthdays,addresses,organizations,urls,biographies,nicknames,relations,events";

/// The People API address that lists contacts: all connections by first name, or a search.
pub open spec fn spec_contacts_url(query: Seq<char>, max: u64, page_token: Option<Seq<char>>) -> Seq<char> {
    let pt = match page_token {
        Some(t) => "&pageToken="@ + crate::oauth::url_encoded(vstd::utf8::encode_utf8(t)),
        None => Seq::empty(),
    };
    if query.len() == 0 {
        "https://people.googleapis.com/v1/people/me/connections?personFields="@ + CONTACT_FIELDS@ + "&pageSize="@
            + decimal(max as nat) + "&sortOrder=FIRST_NAME_ASCENDING"@ + pt
    } else {
        "https://people.googleapis.com/v1/people:searchContacts?query="@ + crate::oauth::url_encoded(
            vstd::utf8::encode_utf8(query),
        ) + "&readMask="@ + CONTACT_FIELDS@ + "&pageSize="@ + decimal(max as nat) + pt
    }
}

/// The People API address that lists or searches contacts.
pub fn contacts_url(query: &str, max: u64, page_token: Option<&str>) -> (r: String)
    ensures
        r@ == spec_contacts_url(query@, max, crate::text::opt_str(page_token)),
{
    proof {
        reveal_strlit("");
    }
    let pt = match page_token {
        Some(t) => concat("&pageToken=", crate::oauth::urlencoded(t).as_str()),
        None => String::new(),
    };
    let size = decimal_string(max);
    if query.unicode_len() == 0 {
        let mut u = concat("https://people.googleapis.com/v1/people/me/connections?personFields=", CONTACT_FIELDS);
        u = concat(u.as_str(), "&pageSize=");
        u = concat(u.as_str(), size.as_str());
        u = concat(u.as_str(), "&sortOrder=FIRST_NAME_ASCENDING");
        concat(u.as_str(), pt.as_str())
    } else {
        let mut u = concat("https://people.googleapis.com/v1/people:searchContacts?query=", crate::oauth::urlencoded(query).as_str());
        u = concat(u.as_str(), "&readMask=");
        u = concat(u.as_str(), CONTACT_FIELDS);
        u = concat(u.as_str(), "&pageSize=");
        u = concat(u.as_str(), size.as_str());
        concat(u.as_str(), pt.as_str())
    }
}

/// The events address of a calendar between two moments.
pub open spec fn spec_events_url(calendar_id: Seq<char>, max: u64, time_min: Seq<char>, time_max: Seq<char>) -> Seq<char> {
    "https://www.googleapis.com/calendar/v3/calendars/"@ + crate::oauth::url_encoded(vstd::utf8::encode_utf8(calendar_id))
        + "/events?maxResults="@ + decimal(max as nat) + "&singleEvents=true&orderBy=startTime&timeMin="@
        + crate::oauth::url_encoded(vstd::utf8::encode_utf8(time_min)) + "&timeMax="@ + crate::oauth::url_encoded(
        vstd::utf8::encode_utf8(time_max),
    )
}

/// The events address of a calendar between two moments.
pub fn events_url(calendar_id: &str, max: u64, time_min: &str, time_max: &str) -> (r: String)
    ensures
        r@ == spec_events_url(calendar_id@, max, time_min@, time_max@),
{
    let mut u = concat("https://www.googleapis.com/calendar/v3/calendars/", crate::oauth::urlencoded(calendar_id).as_str());
    u = concat(u.as_str(), "/events?maxResults=");
    u = concat(u.as_str(), decimal_string(max).as_str());
    u = concat(u.as_str(), "&singleEvents=true&orderBy=startTime&timeMin=");
    u = concat(u.as_str(), crate::oauth::urlencoded(time_min).as_str());
    u = concat(u.as_str(), "&timeMax=");
    concat(u.as_str(), crate::oauth::urlencoded(time_max).as_str())
}

// ------------------------------------------------------------------ editing a contact

/// A number read as `str::parse::<i64>` reads it, `0` where it is not one.
pub open spec fn int_or_zero(t: Seq<char>) -> i64 {
    match crate::text::spec_parse_i64(t) {
        Some(n) => n,
        None => 0,
    }
}

/// A date as a contact shows it read back into its parts: `year-month-day`, or `--month-day`
/// where the year is unknown; each part a number (`0` where it is not one). Any other shape
/// gives a date with no parts.
pub open spec fn spec_parse_contact_date(s: Seq<char>) -> RawDate {
    let parts = crate::text::split_char(crate::text::strip_prefix_all(s, seq!['-']), '-');
    let has_year = !crate::text::starts_with(s, seq!['-', '-']);
    if parts.len() == 3 && has_year {
        RawDate { year: Some(int_or_zero(parts[0])), month: Some(int_or_zero(parts[1])), day: Some(int_or_zero(parts[2])) }
    } else if parts.len() == 2 {
        RawDate { year: None, month: Some(int_or_zero(parts[0])), day: Some(int_or_zero(parts[1])) }
    } else {
        RawDate { year: None, month: None, day: None }
    }
}

fn int_or_zero_of(cs: &Vec<char>) -> (r: i64)
    ensures
        r == int_or_zero(cs@),
{
    let t = string_of(cs.as_slice());
    match crate::text::parse_i64(t.as_str()) {
        Some(n) => n,
        None => 0,
    }
}

/// A date as a contact shows it, read back into its parts.
pub fn parse_contact_date(s: &str) -> (r: RawDate)
    ensures
        r == spec_parse_contact_date(s@),
{
    let cs = chars_of(s);
    let dash = vec!['-'];
    let two = vec!['-', '-'];
    assert(dash@ =~= seq!['-']);
    assert(two@ =~= seq!['-', '-']);
    let rest = crate::text::strip_prefix_all_chars(cs.as_slice(), dash.as_slice());
    let parts = crate::text::split_chars(rest.as_slice(), '-');
    let has_year = !crate::text::starts_with_chars(cs.as_slice(), two.as_slice());
    let ghost pv = parts.deep_view();
    if parts.len() == 3 && has_year {
        assert(pv[0] == parts@[0]@ && pv[1] == parts@[1]@ && pv[2] == parts@[2]@);
        RawDate {
            year: Some(int_or_zero_of(&parts[0])),
            month: Some(int_or_zero_of(&parts[1])),
            day: Some(int_or_zero_of(&parts[2])),
        }
    } else if parts.len() == 2 {
        assert(pv[0] == parts@[0]@ && pv[1] == parts@[1]@);
        RawDate { year: None, month: Some(int_or_zero_of(&parts[0])), day: Some(int_or_zero_of(&parts[1])) }
    } else {
        RawDate { year: None, month: None, day: None }
    }
}

/// The fields a contact update replaces.
pub const CONTACT_UPDATE_FIELDS: &'static str = "names,emailAddresses,phoneNumbers,addresses,organizations,birthdays,urls,biographies,nicknames";

/// The People API address that updates a contact.
pub fn update_contact_url(resource: &str) -> (r: String)
    ensures
        r@ == "https://people.googleapis.com/v1/"@ + resource@ + ":updateContact?updatePersonFields="@
            + CONTACT_UPDATE_FIELDS@,
{
    let mut u = concat("https://people.googleapis.com/v1/", resource);
    u = concat(u.as_str(), ":updateContact?updatePersonFields=");
    concat(u.as_str(), CONTACT_UPDATE_FIELDS)
}

/// A postal address as a contact update sends it.
#[derive(Debug)]
pub struct AddressUpdate {
    pub street: String,
    pub city: String,
    pub region: String,
    pub postal_code: String,
    pub country: String,
    pub kind: String,
}

/// What a contact update sends: the etag it was read at, the name parts, and each list the
/// update replaces (an empty list clears it).
#[derive(Debug)]
pub struct PersonUpdate {
    pub etag: String,
    pub given_name: String,
    pub family_name: String,
    pub middle_name: String,
    pub prefix: String,
    pub suffix: String,
    pub nicknames: Vec<String>,
    /// Each address's value and its type.
    pub emails: Vec<(String, String)>,
    /// Each number's value and its type.
    pub phones: Vec<(String, String)>,
    pub addresses: Vec<AddressUpdate>,
    /// The organization's name, the job title and the department.
    pub organizations: Vec<(String, String, String)>,
    pub urls: Vec<String>,
    pub biographies: Vec<String>,
    pub birthdays: Vec<RawDate>,
}

/// A text as a one-item list, or an empty list where it is empty.
pub open spec fn one_unless_empty(t: Seq<char>) -> Seq<Seq<char>> {
    if t.len() == 0 {
        Seq::empty()
    } else {
        seq![t]
    }
}

/// A labelled value as an update sends it: the value, and the label lowered as its type.
pub open spec fn typed_value(l: LabeledValue) -> (Seq<char>, Seq<char>) {
    (l.value@, crate::text::lower(l.label@))
}

pub open spec fn address_update_view(a: AddressUpdate) -> Seq<Seq<char>> {
    seq![a.street@, a.city@, a.region@, a.postal_code@, a.country@, a.kind@]
}

/// An address as an update sends it: its parts, and its label lowered as its type.
pub open spec fn address_as_update(a: ContactAddress) -> Seq<Seq<char>> {
    seq![a.street@, a.city@, a.region@, a.postal_code@, a.country@, crate::text::lower(a.label@)]
}

fn one_unless_empty_of(t: &String) -> (r: Vec<String>)
    ensures
        r.deep_view() == one_unless_empty(t@),
{
    let mut v: Vec<String> = Vec::new();
    if t.unicode_len() > 0 {
        v.push(t.clone());
    }
    assert(v.deep_view() =~= one_unless_empty(t@));
    v
}

fn typed_values(vs: &Vec<LabeledValue>) -> (r: Vec<(String, String)>)
    ensures
        crate::artifacts::string_pairs(r@) == vs@.map_values(|l: LabeledValue| typed_value(l)),
{
    let mut out: Vec<(String, String)> = Vec::new();
    let mut i: usize = 0;
    while i < vs.len()
        invariant
            i <= vs@.len(),
            crate::artifacts::string_pairs(out@) == vs@.take(i as int).map_values(|l: LabeledValue| typed_value(l)),
        decreases vs@.len() - i,
    {
        let ghost before = crate::artifacts::string_pairs(out@);
        let lowered = crate::text::to_lower(vs[i].label.as_str());
        out.push((vs[i].value.clone(), lowered));
        assert(crate::artifacts::string_pairs(out@) =~= before.push(typed_value(vs@[i as int])));
        assert(vs@.take(i + 1) =~= vs@.take(i as int).push(vs@[i as int]));
        assert(crate::artifacts::string_pairs(out@) =~= vs@.take(i + 1).map_values(|l: LabeledValue| typed_value(l)));
        i = i + 1;
    }
    assert(vs@.take(vs@.len() as int) =~= vs@);
    out
}

/// What an update sends for a contact as it was edited: the name parts as they are; a nickname,
/// a website and notes each as a one-item list, or none where empty; each address, number and
/// postal address with its label lowered as its type; the organization, unless both its name and
/// the job title are empty; the birthday read back into its parts, where there is one.
pub fn person_update(c: &Contact) -> (r: PersonUpdate)
    ensures
        r.etag@ == c.etag@,
        r.given_name@ == c.given_name@,
        r.family_name@ == c.family_name@,
        r.middle_name@ == c.middle_name@,
        r.prefix@ == c.name_prefix@,
        r.suffix@ == c.name_suffix@,
        r.nicknames.deep_view() == one_unless_empty(c.nickname@),
        crate::artifacts::string_pairs(r.emails@) == c.emails@.map_values(|l: LabeledValue| typed_value(l)),
        crate::artifacts::string_pairs(r.phones@) == c.phones@.map_values(|l: LabeledValue| typed_value(l)),
        r.addresses@.map_values(|a: AddressUpdate| address_update_view(a)) == c.addresses@.map_values(
            |a: ContactAddress| address_as_update(a),
        ),
        r.organizations@.map_values(|o: (String, String, String)| seq![o.0@, o.1@, o.2@]) == if c.organization@.len()
            == 0 && c.job_title@.len() == 0 {
            Seq::<Seq<Seq<char>>>::empty()
        } else {
            seq![seq![c.organization@, c.job_title@, c.department@]]
        },
        r.urls.deep_view() == one_unless_empty(c.website@),
        r.biographies.deep_view() == one_unless_empty(c.notes@),
        r.birthdays@ == match c.birthday {
            Some(b) => seq![spec_parse_contact_date(b@)],
            None => Seq::<RawDate>::empty(),
        },
{
    let mut addresses: Vec<AddressUpdate> = Vec::new();
    let mut i: usize = 0;
    while i < c.addresses.len()
        invariant
            i <= c.addresses@.len(),
            addresses@.map_values(|a: AddressUpdate| address_update_view(a)) == c.addresses@.take(i as int).map_values(
                |a: ContactAddress| address_as_update(a),
            ),
        decreases c.addresses@.len() - i,
    {
        let a = &c.addresses[i];
        let ghost before = addresses@.map_values(|a: AddressUpdate| address_update_view(a));
        addresses.push(
            AddressUpdate {
                street: a.street.clone(),
                city: a.city.clone(),
                region: a.region.clone(),
                postal_code: a.postal_code.clone(),
                country: a.country.clone(),
                kind: crate::text::to_lower(a.label.as_str()),
            },
        );
        assert(addresses@.map_values(|a: AddressUpdate| address_update_view(a)) =~= before.push(
            address_as_update(c.addresses@[i as int]),
        ));
        assert(c.addresses@.take(i + 1) =~= c.addresses@.take(i as int).push(c.addresses@[i as int]));
        assert(addresses@.map_values(|a: AddressUpdate| address_update_view(a)) =~= c.addresses@.take(i + 1).map_values(
            |a: ContactAddress| address_as_update(a),
        ));
        i = i + 1;
    }
    assert(c.addresses@.take(c.addresses@.len() as int) =~= c.addresses@);
    let mut organizations: Vec<(String, String, String)> = Vec::new();
    if !(c.organization.unicode_len() == 0 && c.job_title.unicode_len() == 0) {
        organizations.push((c.organization.clone(), c.job_title.clone(), c.department.clone()));
    }
    assert(organizations@.map_values(|o: (String, String, String)| seq![o.0@, o.1@, o.2@]) =~= if c.organization@.len()
        == 0 && c.job_title@.len() == 0 {
        Seq::<Seq<Seq<char>>>::empty()
    } else {
        seq![seq![c.organization@, c.job_title@, c.department@]]
    });
    let mut birthdays: Vec<RawDate> = Vec::new();
    if let Some(b) = &c.birthday {
        birthdays.push(parse_contact_date(b.as_str()));
    }
    assert(birthdays@ =~= match c.birthday {
        Some(b) => seq![spec_parse_contact_date(b@)],
        None => Seq::<RawDate>::empty(),
    });
    PersonUpdate {
        etag: c.etag.clone(),
        given_name: c.given_name.clone(),
        family_name: c.family_name.clone(),
        middle_name: c.middle_name.clone(),
        prefix: c.name_prefix.clone(),
        suffix: c.name_suffix.clone(),
        nicknames: one_unless_empty_of(&c.nickname),
        emails: typed_values(&c.emails),
        phones: typed_values(&c.phones),
        addresses,
        organizations,
        urls: one_unless_empty_of(&c.website),
        biographies: one_unless_empty_of(&c.notes),
        birthdays,
    }
}

proof fn lemma_decimal_digits(n: nat)
    ensures
        crate::text::all_digits(decimal(n)),
        decimal(n).len() >= 1,
        crate::text::digits_value(decimal(n)) == n,
        !decimal(n).contains('-'),
    decreases n,
{
    let s = decimal(n);
    if n < 10 {
        assert(crate::text::is_digit(s[0]));
        assert(s.drop_last() =~= Seq::<char>::empty());
        assert(crate::text::digits_value(s.drop_last()) == 0);
        assert((s.last() as u32) == 48 + n);
        assert(crate::text::digits_value(s) == 10 * crate::text::digits_value(s.drop_last()) + ((s.last() as u32) - 48));
    } else {
        lemma_decimal_digits(n / 10);
        let p = decimal(n / 10);
        assert(s.drop_last() =~= p);
        assert(s.last() == crate::text::digit_char(n % 10));
        assert((s.last() as u32) == 48 + n % 10);
        assert(crate::text::digits_value(s) == 10 * crate::text::digits_value(s.drop_last()) + ((s.last() as u32) - 48));
        assert(n == 10 * (n / 10) + n % 10);
        assert forall|i: int| 0 <= i < s.len() implies crate::text::is_digit(#[trigger] s[i]) by {
            if i < p.len() {
                assert(s[i] == p[i]);
            }
        }
        if s.contains('-') {
            let i = choose|i: int| 0 <= i < s.len() && s[i] == '-';
            if i < p.len() {
                assert(p[i] == '-');
            }
        }
    }
}

proof fn lemma_two_digits(n: int)
    requires
        n >= 0,
    ensures
        crate::text::all_digits(two_digits(n)),
        two_digits(n).len() >= 1,
        crate::text::digits_value(two_digits(n)) == n,
        !two_digits(n).contains('-'),
{
    lemma_decimal_digits(n as nat);
    if n < 10 {
        let s = two_digits(n);
        let d = decimal(n as nat);
        assert(s =~= seq!['0', d[0]]);
        assert(s.drop_last() =~= seq!['0']);
        assert(seq!['0'].drop_last() =~= Seq::<char>::empty());
        assert(d.drop_last() =~= Seq::<char>::empty());
        assert(crate::text::is_digit(s[0]) && crate::text::is_digit(s[1]));
        assert(crate::text::digits_value(seq!['0']) == 10 * crate::text::digits_value(Seq::<char>::empty()) + (('0' as u32) - 48));
        assert(crate::text::digits_value(seq!['0']) == 0);
        assert(crate::text::digits_value(d) == n);
        assert(d =~= seq![d[0]]);
        assert((d[0] as u32) - 48 == n) by {
            assert(d.drop_last() =~= Seq::<char>::empty());
        }
        assert(crate::text::digits_value(s) == 10 * crate::text::digits_value(s.drop_last()) + ((s.last() as u32) - 48));
        if s.contains('-') {
            let i = choose|i: int| 0 <= i < s.len() && s[i] == '-';
            assert(i == 0 || i == 1);
        }
    }
}

proof fn lemma_split_at_first(a: Seq<char>, b: Seq<char>, c: char)
    requires
        !a.contains(c),
    ensures
        crate::text::split_char(a + seq![c] + b, c) == seq![a] + crate::text::split_char(b, c),
{
    let s = a + seq![c] + b;
    crate::text::lemma_find_range(s, seq![c], 0);
    assert(s.subrange(a.len() as int, a.len() as int + 1) =~= seq![c]);
    assert(crate::text::occurs_at(s, seq![c], a.len() as int));
    let k = crate::text::find(s, seq![c]);
    assert(k >= 0);
    if k < a.len() {
        assert(s.subrange(k, k + 1) == seq![c]);
        assert(s[k] == s.subrange(k, k + 1)[0]);
        assert(a[k] == c);
    }
    assert(k == a.len());
    assert(s.take(k) =~= a);
    assert(s.skip(k + 1) =~= b);
}

proof fn lemma_split_whole(a: Seq<char>, c: char)
    requires
        !a.contains(c),
    ensures
        crate::text::split_char(a, c) == seq![a],
{
    crate::text::lemma_find_range(a, seq![c], 0);
    let k = crate::text::find(a, seq![c]);
    if k >= 0 {
        assert(a.subrange(k, k + 1) == seq![c]);
        assert(a[k] == a.subrange(k, k + 1)[0]);
    }
}

proof fn lemma_parse_digits(t: Seq<char>)
    requires
        crate::text::all_digits(t),
        t.len() >= 1,
        crate::text::digits_value(t) <= i64::MAX,
    ensures
        int_or_zero(t) == crate::text::digits_value(t),
{
    assert(crate::text::is_digit(t[0]));
    crate::text::lemma_digits_nonneg(t);
}

/// A contact's date read back from the text it is shown as is the date it was, for a date whose
/// parts are not negative (a negative year loses its sign in the text's first dash).
pub proof fn lemma_contact_date_round_trip(d: RawDate)
    requires
        d.month matches Some(m) && m >= 0,
        d.day matches Some(dd) && dd >= 0,
        d.year matches Some(y) ==> y >= 0,
    ensures
        spec_contact_date(d) matches Some(t) && spec_parse_contact_date(t) == d,
{
    reveal_strlit("-");
    reveal_strlit("--");
    assert("-"@ =~= seq!['-']);
    assert("--"@ =~= seq!['-', '-']);
    let m = d.month->0 as int;
    let dd = d.day->0 as int;
    lemma_two_digits(m);
    lemma_two_digits(dd);
    let mt = two_digits(m);
    let dt = two_digits(dd);
    lemma_split_whole(dt, '-');
    lemma_split_at_first(mt, dt, '-');
    assert(mt + seq!['-'] + dt =~= mt + "-"@ + dt);
    lemma_parse_digits(mt);
    lemma_parse_digits(dt);
    let tail = mt + seq!['-'] + dt;
    assert(crate::text::is_digit(mt[0]));
    assert(tail[0] == mt[0]);
    match d.year {
        Some(y) => {
            let yt = signed_decimal(y as int);
            lemma_decimal_digits(y as nat);
            assert(yt == decimal(y as nat));
            let t = yt + "-"@ + two_digits(m) + "-"@ + two_digits(dd);
            assert(t =~= yt + seq!['-'] + tail);
            lemma_split_at_first(yt, tail, '-');
            lemma_parse_digits(yt);
            assert(crate::text::is_digit(yt[0]));
            assert(t[0] == yt[0]);
            assert(!crate::text::starts_with(t, seq!['-'])) by {
                assert(t.take(1)[0] == t[0]);
            }
            assert(crate::text::strip_prefix_all(t, seq!['-']) == t);
            assert(!crate::text::starts_with(t, seq!['-', '-'])) by {
                assert(t.take(2)[0] == t[0]);
            }
            assert(crate::text::split_char(t, '-') =~= seq![yt, mt, dt]);
        },
        None => {
            let t = "--"@ + two_digits(m) + "-"@ + two_digits(dd);
            assert(t =~= seq!['-', '-'] + tail);
            assert(crate::text::starts_with(t, seq!['-', '-'])) by {
                assert(t.take(2) =~= seq!['-', '-']);
            }
            assert(crate::text::starts_with(t, seq!['-'])) by {
                assert(t.take(1) =~= seq!['-']);
            }
            let t1 = t.skip(1);
            assert(t1 =~= seq!['-'] + tail);
            assert(crate::text::starts_with(t1, seq!['-'])) by {
                assert(t1.take(1) =~= seq!['-']);
            }
            assert(t1.skip(1) =~= tail);
            assert(!crate::text::starts_with(tail, seq!['-'])) by {
                assert(tail.take(1)[0] == tail[0]);
            }
            assert(crate::text::strip_prefix_all(tail, seq!['-']) == tail);
            assert(crate::text::strip_prefix_all(t1, seq!['-']) == tail);
            assert(crate::text::strip_prefix_all(t, seq!['-']) == tail);
            assert(crate::text::split_char(tail, '-') =~= seq![mt, dt]);
        },
    }
}

} // verus!
