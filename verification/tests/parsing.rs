use rust_cal::{parse, select, Date, DateTime};

#[test]
fn one_vevent_document() {
    let text = "BEGIN:VCALENDAR\r\n\
                BEGIN:VEVENT\r\n\
                SUMMARY:Algorithms Lecture\r\n\
                LOCATION:Room 1\r\n\
                DTSTART:20240115T090000\r\n\
                DTEND:20240115T100000\r\n\
                END:VEVENT\r\n\
                END:VCALENDAR\r\n";
    let cal = parse(text).expect("structurally valid document");
    assert_eq!(cal.events.len(), 1);
    let ev = &cal.events[0];
    assert_eq!(ev.title, "Algorithms Lecture");
    assert_eq!(ev.desc, "");
    assert_eq!(ev.location, "Room 1");
    assert_eq!(ev.dt_start, DateTime { year: 2024, month: 1, day: 15, hour: 9, minute: 0, second: 0 });
    assert_eq!(ev.dt_end, DateTime { year: 2024, month: 1, day: 15, hour: 10, minute: 0, second: 0 });
    assert_eq!(ev.duration, "09:00:00-10:00:00");

    let same_day = select(&cal, Date { year: 2024, month: 1, day: 15 });
    assert_eq!(same_day.len(), 1);
    assert_eq!(same_day[0].title, "Algorithms Lecture");
    let next_day = select(&cal, Date { year: 2024, month: 1, day: 16 });
    assert!(next_day.is_empty());
}

#[test]
fn description_is_stripped_through_parse() {
    let text = "BEGIN:VCALENDAR\r\n\
                BEGIN:VEVENT\r\n\
                SUMMARY:Networks\r\n\
                DESCRIPTION:Convener:Dr. Smith\\nRoom notes here\r\n\
                END:VEVENT\r\n\
                END:VCALENDAR\r\n";
    let cal = parse(text).expect("structurally valid document");
    assert_eq!(cal.events.len(), 1);
    assert_eq!(cal.events[0].desc, "Dr. Smith");
}

#[test]
fn events_keep_document_order() {
    let text = "BEGIN:VCALENDAR\r\n\
                BEGIN:VEVENT\r\n\
                SUMMARY:First\r\n\
                DTSTART:20240115T090000\r\n\
                END:VEVENT\r\n\
                BEGIN:VEVENT\r\n\
                SUMMARY:Second\r\n\
                DTSTART:20240116T090000\r\n\
                END:VEVENT\r\n\
                BEGIN:VEVENT\r\n\
                SUMMARY:Third\r\n\
                DTSTART:20240115T110000\r\n\
                END:VEVENT\r\n\
                END:VCALENDAR\r\n";
    let cal = parse(text).expect("structurally valid document");
    let titles: Vec<&str> = cal.events.iter().map(|e| e.title.as_str()).collect();
    assert_eq!(titles, vec!["First", "Second", "Third"]);
    let picked = select(&cal, Date { year: 2024, month: 1, day: 15 });
    let picked_titles: Vec<&str> = picked.iter().map(|e| e.title.as_str()).collect();
    assert_eq!(picked_titles, vec!["First", "Third"]);
}

#[test]
fn malformed_timestamp_does_not_abort_the_parse() {
    let text = "BEGIN:VCALENDAR\r\n\
                BEGIN:VEVENT\r\n\
                SUMMARY:Broken clock\r\n\
                DTSTART:20230199T000000\r\n\
                END:VEVENT\r\n\
                END:VCALENDAR\r\n";
    let cal = parse(text).expect("structurally valid document");
    assert_eq!(cal.events.len(), 1);
    assert_eq!(cal.events[0].title, "Broken clock");
    assert_eq!(
        cal.events[0].dt_start,
        DateTime { year: 1970, month: 1, day: 1, hour: 0, minute: 0, second: 0 }
    );
}

#[test]
fn structurally_invalid_document_is_an_error() {
    let text = "this is not an icalendar document\r\n";
    assert!(parse(text).is_err());
}

#[test]
fn empty_document_has_no_events() {
    let cal = parse("").expect("no framing to violate");
    assert_eq!(cal.events.len(), 0);
}
