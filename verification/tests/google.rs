use demido_studio::db::Account;
use demido_studio::google::{
    account_for_service, choose_body, contact_date, contacts_url, email_summary, email_text, event_body,
    event_from, event_write_url, events_per_calendar, events_url, find_header, google_color_id_to_hex,
    messages_url, needs_refresh, parse_contact_date, person_update, sort_by_start, update_contact_url,
    CalendarEvent, Contact, ContactAddress, EventTime, Header, LabeledValue, MimePart, RawDate, RawEvent,
};

fn header(name: &str, value: &str) -> Header {
    Header { name: Some(name.to_string()), value: Some(value.to_string()) }
}

fn part(mime: &str, data: Option<&str>, parts: Vec<MimePart>) -> MimePart {
    MimePart { mime_type: Some(mime.to_string()), body_data: data.map(|d| d.to_string()), parts }
}

fn event(id: &str, start: &str) -> CalendarEvent {
    CalendarEvent {
        id: id.to_string(),
        summary: String::new(),
        start: start.to_string(),
        end: String::new(),
        location: None,
        description: None,
        color: None,
    }
}

fn account(id: &str, services: &[&str]) -> Account {
    Account {
        id: id.to_string(),
        provider: "google".to_string(),
        email: format!("{}@example.com", id),
        name: id.to_string(),
        picture: None,
        access_token: "t".to_string(),
        refresh_token: None,
        token_expiry: None,
        services: services.iter().map(|s| s.to_string()).collect(),
    }
}

#[test]
fn headers_are_found_without_case_and_default_to_empty() {
    let hs = vec![header("subject", "Hi"), header("From", "a@b.c"), header("Subject", "Later")];
    assert_eq!(find_header(&hs, "Subject"), "Hi");
    assert_eq!(find_header(&hs, "FROM"), "a@b.c");
    assert_eq!(find_header(&hs, "Date"), "");
    let nameless = vec![Header { name: None, value: Some("x".to_string()) }, Header {
        name: Some("Date".to_string()),
        value: None,
    }];
    assert_eq!(find_header(&nameless, "Date"), "");
}

#[test]
fn a_summary_reads_its_headers_and_the_unread_label() {
    let hs = vec![header("Subject", "Hello"), header("From", "x@y.z"), header("Date", "Mon")];
    let labels = vec![Some("INBOX".to_string()), None, Some("UNREAD".to_string())];
    let s = email_summary("m1", &hs, &labels, Some("snip".to_string()));
    assert_eq!(s.id, "m1");
    assert_eq!(s.subject, "Hello");
    assert_eq!(s.from, "x@y.z");
    assert_eq!(s.date, "Mon");
    assert_eq!(s.snippet, "snip");
    assert!(s.unread);
    let read = email_summary("m2", &hs, &vec![Some("unread".to_string())], None);
    assert!(!read.unread);
    assert_eq!(read.snippet, "");
}

#[test]
fn the_mail_list_address_carries_the_query_and_the_page() {
    assert_eq!(
        messages_url(20, "is:unread from:me", None),
        "https://gmail.googleapis.com/gmail/v1/users/me/messages?maxResults=20&q=is%3Aunread%20from%3Ame"
    );
    assert_eq!(
        messages_url(5, "", Some("tok/1")),
        "https://gmail.googleapis.com/gmail/v1/users/me/messages?maxResults=5&q=&pageToken=tok%2F1"
    );
}

#[test]
fn the_body_prefers_the_asked_type_then_the_other_then_the_snippet() {
    // "hello" and "<b>hi</b>" in URL-safe Base64 without padding.
    let tree = part(
        "multipart/alternative",
        None,
        vec![part("text/plain", Some("aGVsbG8"), vec![]), part("text/html", Some("PGI-aGk8L2I-"), vec![])],
    );
    assert_eq!(choose_body(&tree, false, None), "hello");
    assert_eq!(choose_body(&tree, true, None), "<b>hi</b>");
    let plain_only = part("text/plain", Some("aGVsbG8="), vec![]);
    assert_eq!(choose_body(&plain_only, true, None), "hello");
    let broken = part("text/plain", Some("!!!"), vec![]);
    assert_eq!(choose_body(&broken, false, Some("snippet".to_string())), "snippet");
    assert_eq!(choose_body(&broken, false, None), "(no body)");
}

#[test]
fn a_read_message_starts_with_its_headers() {
    let hs = vec![header("From", "a"), header("To", "b"), header("Subject", "c")];
    assert_eq!(email_text(&hs, "body"), "From: a\nTo: b\nSubject: c\nDate: \n\nbody");
}

#[test]
fn tokens_are_refreshed_within_a_minute_of_expiry() {
    assert!(needs_refresh(None, 0));
    assert!(needs_refresh(Some(1060), 1000));
    assert!(!needs_refresh(Some(1061), 1000));
    assert!(needs_refresh(Some(i64::MIN), i64::MAX));
    assert!(!needs_refresh(Some(i64::MAX), 0));
}

#[test]
fn the_first_account_with_the_service_is_taken() {
    let accounts = vec![account("a", &["gmail"]), account("b", &["calendar", "contacts"]), account("c", &["contacts"])];
    assert_eq!(account_for_service(&accounts, "contacts"), Some(1));
    assert_eq!(account_for_service(&accounts, "gmail"), Some(0));
    assert_eq!(account_for_service(&accounts, "drive"), None);
}

#[test]
fn palette_ids_map_to_their_colours() {
    assert_eq!(google_color_id_to_hex("1"), Some("#a4bdfc"));
    assert_eq!(google_color_id_to_hex("11"), Some("#dc2127"));
    assert_eq!(google_color_id_to_hex("12"), None);
    assert_eq!(google_color_id_to_hex(""), None);
}

#[test]
fn an_event_takes_its_colour_from_the_palette_then_itself_then_its_calendar() {
    let raw = RawEvent {
        id: Some("e1".to_string()),
        summary: None,
        start_date_time: None,
        start_date: Some("2024-05-01".to_string()),
        end_date_time: Some("2024-05-02T10:00:00Z".to_string()),
        end_date: Some("2024-05-02".to_string()),
        location: Some("Room".to_string()),
        description: None,
        color_id: Some("5".to_string()),
        background_color: Some("#000000".to_string()),
    };
    let e = event_from(raw, Some("#ffffff".to_string()));
    assert_eq!(e.id, "e1");
    assert_eq!(e.summary, "(no title)");
    assert_eq!(e.start, "2024-05-01");
    assert_eq!(e.end, "2024-05-02T10:00:00Z");
    assert_eq!(e.location.as_deref(), Some("Room"));
    assert_eq!(e.color.as_deref(), Some("#fbd75b"));
    let plain = RawEvent {
        id: None,
        summary: Some("Standup".to_string()),
        start_date_time: None,
        start_date: None,
        end_date_time: None,
        end_date: None,
        location: None,
        description: None,
        color_id: Some("99".to_string()),
        background_color: None,
    };
    let p = event_from(plain, Some("#ffffff".to_string()));
    assert_eq!(p.id, "");
    assert_eq!(p.summary, "Standup");
    assert_eq!(p.start, "");
    assert_eq!(p.color.as_deref(), Some("#ffffff"));
}

#[test]
fn each_calendar_is_asked_for_its_share_but_at_least_fifty() {
    assert_eq!(events_per_calendar(200, 2), 100);
    assert_eq!(events_per_calendar(200, 5), 50);
    assert_eq!(events_per_calendar(10, 0), 50);
    assert_eq!(events_per_calendar(300, 0), 300);
}

#[test]
fn events_are_ordered_by_start_and_ties_keep_their_order() {
    let evs = vec![event("a", "2024-05-02"), event("b", "2024-05-01T09:00"), event("c", "2024-05-02"), event("d", "2024-05-01")];
    let ids: Vec<String> = sort_by_start(evs).into_iter().map(|e| e.id).collect();
    assert_eq!(ids, vec!["d", "b", "a", "c"]);
}

#[test]
fn contact_dates_are_padded_and_a_missing_year_is_dashed() {
    assert_eq!(contact_date(RawDate { year: Some(1990), month: Some(3), day: Some(7) }).as_deref(), Some("1990-03-07"));
    assert_eq!(contact_date(RawDate { year: None, month: Some(12), day: Some(25) }).as_deref(), Some("--12-25"));
    assert_eq!(contact_date(RawDate { year: Some(2000), month: None, day: Some(1) }), None);
}

#[test]
fn contact_addresses_list_or_search() {
    assert_eq!(
        contacts_url("", 10, None),
        "https://people.googleapis.com/v1/people/me/connections?personFields=names,emailAddresses,phoneNumbers,photos,birthdays,addresses,organizations,urls,biographies,nicknames,relations,events&pageSize=10&sortOrder=FIRST_NAME_ASCENDING"
    );
    assert_eq!(
        contacts_url("ann lee", 3, Some("p")),
        "https://people.googleapis.com/v1/people:searchContacts?query=ann%20lee&readMask=names,emailAddresses,phoneNumbers,photos,birthdays,addresses,organizations,urls,biographies,nicknames,relations,events&pageSize=3&pageToken=p"
    );
}

#[test]
fn the_events_address_escapes_the_calendar_and_the_times() {
    assert_eq!(
        events_url("me@x.com", 50, "2024-01-01T00:00:00Z", "2024-01-02T00:00:00+01:00"),
        "https://www.googleapis.com/calendar/v3/calendars/me%40x.com/events?maxResults=50&singleEvents=true&orderBy=startTime&timeMin=2024-01-01T00%3A00%3A00Z&timeMax=2024-01-02T00%3A00%3A00%2B01%3A00"
    );
}

fn labeled(value: &str, label: &str) -> LabeledValue {
    LabeledValue { value: value.to_string(), label: label.to_string() }
}

fn contact() -> Contact {
    Contact {
        id: "people/c1".to_string(),
        etag: "e1".to_string(),
        display_name: "Ann Lee".to_string(),
        given_name: "Ann".to_string(),
        family_name: "Lee".to_string(),
        middle_name: String::new(),
        name_prefix: String::new(),
        name_suffix: String::new(),
        nickname: String::new(),
        emails: vec![labeled("ann@x.com", "Work")],
        phones: vec![labeled("+1 555", "Mobile"), labeled("+1 666", "HOME")],
        addresses: vec![ContactAddress {
            street: "1 Main".to_string(),
            city: "Town".to_string(),
            region: String::new(),
            postal_code: "123".to_string(),
            country: "X".to_string(),
            label: "Home".to_string(),
        }],
        organization: String::new(),
        job_title: "Chef".to_string(),
        department: String::new(),
        birthday: Some("--03-07".to_string()),
        anniversary: None,
        website: String::new(),
        notes: "met at the fair".to_string(),
        photo_url: None,
    }
}

#[test]
fn a_contact_update_sends_lists_with_lowered_types() {
    let u = person_update(&contact());
    assert_eq!(u.etag, "e1");
    assert_eq!(u.given_name, "Ann");
    assert!(u.nicknames.is_empty());
    assert_eq!(u.emails, vec![("ann@x.com".to_string(), "work".to_string())]);
    assert_eq!(u.phones[1], ("+1 666".to_string(), "home".to_string()));
    assert_eq!(u.addresses[0].kind, "home");
    assert_eq!(u.organizations, vec![(String::new(), "Chef".to_string(), String::new())]);
    assert!(u.urls.is_empty());
    assert_eq!(u.biographies, vec!["met at the fair".to_string()]);
    assert_eq!(u.birthdays.len(), 1);
    assert_eq!((u.birthdays[0].year, u.birthdays[0].month, u.birthdays[0].day), (None, Some(3), Some(7)));
    assert_eq!(
        update_contact_url("people/c1"),
        "https://people.googleapis.com/v1/people/c1:updateContact?updatePersonFields=names,emailAddresses,phoneNumbers,addresses,organizations,birthdays,urls,biographies,nicknames"
    );
}

#[test]
fn contact_dates_read_back_as_they_were_shown() {
    for d in [
        RawDate { year: Some(1990), month: Some(3), day: Some(7) },
        RawDate { year: None, month: Some(12), day: Some(25) },
        RawDate { year: Some(0), month: Some(0), day: Some(0) },
        RawDate { year: Some(2024), month: Some(11), day: Some(30) },
    ] {
        let shown = contact_date(d).unwrap();
        let back = parse_contact_date(&shown);
        assert_eq!((back.year, back.month, back.day), (d.year, d.month, d.day), "{}", shown);
    }
    let odd = parse_contact_date("1990-xx-07");
    assert_eq!((odd.year, odd.month, odd.day), (Some(1990), Some(0), Some(7)));
    let bad = parse_contact_date("tomorrow");
    assert_eq!((bad.year, bad.month, bad.day), (None, None, None));
    let neg = parse_contact_date(&contact_date(RawDate { year: Some(-5), month: Some(3), day: Some(7) }).unwrap());
    assert_eq!(neg.year, Some(5));
}

#[test]
fn events_are_written_as_dates_or_moments() {
    let all_day = event_body("Trip", "2024-05-01", "2024-05-03", Some("Rome"), None, true);
    assert!(matches!(&all_day.start, EventTime::Date(d) if d == "2024-05-01"));
    assert!(matches!(&all_day.end, EventTime::Date(d) if d == "2024-05-03"));
    assert_eq!(all_day.location.as_deref(), Some("Rome"));
    let timed = event_body("Call", "2024-05-01T10:00:00Z", "2024-05-01T11:00:00Z", None, Some("notes"), false);
    assert!(matches!(&timed.start, EventTime::DateTime(d) if d == "2024-05-01T10:00:00Z"));
    assert_eq!(timed.description.as_deref(), Some("notes"));
    assert_eq!(event_write_url(None), "https://www.googleapis.com/calendar/v3/calendars/primary/events");
    assert_eq!(
        event_write_url(Some("a b")),
        "https://www.googleapis.com/calendar/v3/calendars/primary/events/a%20b"
    );
}
