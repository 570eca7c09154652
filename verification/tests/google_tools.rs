use demido_studio::google::{
    parse_person, CalendarEvent, Contact, EmailSummary, LabeledValue, RawAddress, RawDate, RawDatedEvent,
    RawLabeled, RawName, RawOrganization, RawPerson, RawPhoto,
};
use demido_studio::tools::{contact_details, contacts_text, emails_text, events_text};

fn mail(subject: &str, from: &str, date: &str, snippet: &str) -> EmailSummary {
    EmailSummary {
        id: "m".to_string(),
        subject: subject.to_string(),
        from: from.to_string(),
        date: date.to_string(),
        snippet: snippet.to_string(),
        unread: false,
    }
}

fn event(summary: &str, start: &str, end: &str, location: Option<&str>) -> CalendarEvent {
    CalendarEvent {
        id: "e".to_string(),
        summary: summary.to_string(),
        start: start.to_string(),
        end: end.to_string(),
        location: location.map(String::from),
        description: None,
        color: None,
    }
}

fn value(v: &str) -> LabeledValue {
    LabeledValue { value: v.to_string(), label: "Other".to_string() }
}

fn person_contact(id: &str, name: &str, emails: &[&str], phones: &[&str], birthday: Option<&str>) -> Contact {
    Contact {
        id: id.to_string(),
        etag: String::new(),
        display_name: name.to_string(),
        given_name: String::new(),
        family_name: String::new(),
        middle_name: String::new(),
        name_prefix: String::new(),
        name_suffix: String::new(),
        nickname: String::new(),
        emails: emails.iter().map(|e| value(e)).collect(),
        phones: phones.iter().map(|p| value(p)).collect(),
        addresses: Vec::new(),
        organization: String::new(),
        job_title: String::new(),
        department: String::new(),
        birthday: birthday.map(String::from),
        anniversary: None,
        website: String::new(),
        notes: String::new(),
        photo_url: None,
    }
}

#[test]
fn mail_tool_lists_messages_numbered() {
    assert_eq!(emails_text(&Vec::new()), "No emails found.");
    let list = vec![mail("Hi", "a@x", "Mon", "hello"), mail("Re", "b@y", "Tue", "ok")];
    assert_eq!(
        emails_text(&list),
        "1. [Hi] From: a@x\n   Date: Mon\n   hello\n\n2. [Re] From: b@y\n   Date: Tue\n   ok"
    );
}

#[test]
fn calendar_tool_lists_events_with_places() {
    assert_eq!(events_text(&Vec::new()), "No events in this period.");
    let list = vec![event("Standup", "9:00", "9:15", None), event("Lunch", "12:00", "13:00", Some("Cafe"))];
    assert_eq!(
        events_text(&list),
        "1. Standup (9:00 \u{2192} 9:15)\n2. Lunch (12:00 \u{2192} 13:00)\n   \u{1f4cd} Cafe"
    );
}

#[test]
fn contacts_tool_lists_what_each_contact_has() {
    assert_eq!(contacts_text(&Vec::new()), "No contacts found.");
    let list = vec![
        person_contact("people/1", "Ann", &["a@x", "b@x"], &["555"], Some("--03-07")),
        person_contact("people/2", "Bo", &[], &[], None),
    ];
    assert_eq!(
        contacts_text(&list),
        "1. Ann (id: people/1)\n   Email: a@x, b@x\n   Phone: 555\n   Birthday: --03-07\n\n2. Bo (id: people/2)"
    );
}

#[test]
fn read_contact_gives_a_line_per_detail() {
    let c = person_contact("people/1", "Ann", &["a@x"], &[], Some("1990-01-02"));
    assert_eq!(contact_details(&c), "Name: Ann\nEmail: a@x\nBirthday: 1990-01-02");
    let bare = person_contact("people/2", "Bo", &[], &[], None);
    assert_eq!(contact_details(&bare), "Name: Bo");
}

fn raw_date(year: Option<i64>, month: i64, day: i64) -> RawDate {
    RawDate { year, month: Some(month), day: Some(day) }
}

#[test]
fn a_person_becomes_a_contact() {
    let raw = RawPerson {
        resource_name: Some("people/c9".to_string()),
        etag: Some("tag".to_string()),
        name: Some(RawName {
            display_name: None,
            given_name: Some("Ann".to_string()),
            family_name: Some("Lee".to_string()),
            middle_name: None,
            prefix: Some("Dr".to_string()),
            suffix: None,
        }),
        nickname: None,
        emails: vec![RawLabeled { value: Some("a@x".to_string()), formatted_type: None, kind: Some("work".to_string()) }],
        phones: vec![RawLabeled { value: None, formatted_type: None, kind: None }],
        addresses: vec![RawAddress {
            street: Some("1 Main".to_string()),
            city: None,
            region: None,
            postal_code: None,
            country: Some("X".to_string()),
            formatted_type: Some("Home".to_string()),
            kind: None,
        }],
        organization: Some(RawOrganization { name: Some("Acme".to_string()), title: None, department: None }),
        birthday: Some(raw_date(None, 3, 7)),
        events: vec![
            RawDatedEvent { kind: Some("other".to_string()), date: raw_date(Some(2001), 1, 1) },
            RawDatedEvent { kind: Some("anniversary".to_string()), date: raw_date(Some(2010), 6, 5) },
        ],
        website: None,
        notes: Some("n".to_string()),
        photos: vec![
            RawPhoto { is_default: Some(true), url: Some("default.png".to_string()) },
            RawPhoto { is_default: None, url: Some("me.png".to_string()) },
        ],
    };
    let c = parse_person(raw);
    assert_eq!(c.id, "people/c9");
    assert_eq!(c.etag, "tag");
    assert_eq!(c.display_name, "(no name)");
    assert_eq!(c.given_name, "Ann");
    assert_eq!(c.family_name, "Lee");
    assert_eq!(c.name_prefix, "Dr");
    assert_eq!(c.middle_name, "");
    assert_eq!(c.nickname, "");
    assert_eq!(c.emails.len(), 1);
    assert_eq!(c.emails[0].value, "a@x");
    assert_eq!(c.emails[0].label, "work");
    assert_eq!(c.phones[0].value, "");
    assert_eq!(c.phones[0].label, "Other");
    assert_eq!(c.addresses[0].street, "1 Main");
    assert_eq!(c.addresses[0].city, "");
    assert_eq!(c.addresses[0].label, "Home");
    assert_eq!(c.organization, "Acme");
    assert_eq!(c.job_title, "");
    assert_eq!(c.birthday.as_deref(), Some("--03-07"));
    assert_eq!(c.anniversary.as_deref(), Some("2010-06-05"));
    assert_eq!(c.website, "");
    assert_eq!(c.notes, "n");
    assert_eq!(c.photo_url.as_deref(), Some("me.png"));
}

#[test]
fn an_empty_person_has_no_name() {
    let raw = RawPerson {
        resource_name: None,
        etag: None,
        name: None,
        nickname: None,
        emails: Vec::new(),
        phones: Vec::new(),
        addresses: Vec::new(),
        organization: None,
        birthday: Some(RawDate { year: Some(1990), month: None, day: Some(2) }),
        events: Vec::new(),
        website: None,
        notes: None,
        photos: Vec::new(),
    };
    let c = parse_person(raw);
    assert_eq!(c.id, "");
    assert_eq!(c.display_name, "(no name)");
    assert_eq!(c.birthday, None);
    assert_eq!(c.anniversary, None);
    assert_eq!(c.photo_url, None);
}
