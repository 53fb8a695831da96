use rust_cal::{select, Calendar, Date, DateTime, Event};

fn event_on(title: &str, year: u32, month: u32, day: u32) -> Event {
    Event {
        title: title.to_string(),
        desc: String::new(),
        location: String::new(),
        dt_start: DateTime { year, month, day, hour: 9, minute: 0, second: 0 },
        dt_end: DateTime { year, month, day, hour: 10, minute: 0, second: 0 },
        duration: "09:00:00-10:00:00".to_string(),
    }
}

#[test]
fn keeps_only_events_starting_on_the_date() {
    let cal = Calendar {
        events: vec![
            event_on("A", 2024, 1, 15),
            event_on("B", 2024, 1, 16),
            event_on("C", 2024, 1, 15),
        ],
    };
    let picked = select(&cal, Date { year: 2024, month: 1, day: 15 });
    let titles: Vec<&str> = picked.iter().map(|e| e.title.as_str()).collect();
    assert_eq!(titles, vec!["A", "C"]);
}

#[test]
fn no_match_yields_empty() {
    let cal = Calendar { events: vec![event_on("A", 2024, 1, 15)] };
    let picked = select(&cal, Date { year: 2024, month: 1, day: 16 });
    assert!(picked.is_empty());
    let empty = Calendar { events: vec![] };
    assert!(select(&empty, Date { year: 2024, month: 1, day: 15 }).is_empty());
}

#[test]
fn selection_is_idempotent() {
    let cal = Calendar {
        events: vec![
            event_on("A", 2024, 1, 15),
            event_on("B", 2024, 1, 16),
            event_on("C", 2024, 1, 15),
        ],
    };
    let date = Date { year: 2024, month: 1, day: 15 };
    let once = select(&cal, date);
    let titles_once: Vec<String> = once.iter().map(|e| e.title.clone()).collect();
    let again = select(&Calendar { events: once }, date);
    let titles_again: Vec<String> = again.iter().map(|e| e.title.clone()).collect();
    assert_eq!(titles_once, titles_again);
}

#[test]
fn selection_does_not_mutate_the_calendar() {
    let cal = Calendar { events: vec![event_on("A", 2024, 1, 15)] };
    let date = Date { year: 2024, month: 1, day: 15 };
    let first = select(&cal, date);
    let second = select(&cal, date);
    assert_eq!(first.len(), 1);
    assert_eq!(second.len(), 1);
    assert_eq!(cal.events.len(), 1);
    assert_eq!(cal.events[0].title, "A");
}

#[test]
fn start_date_alone_decides() {
    let mut ev = event_on("Midnight straddler", 2024, 1, 15);
    ev.dt_end = DateTime { year: 2024, month: 1, day: 16, hour: 0, minute: 30, second: 0 };
    let cal = Calendar { events: vec![ev] };
    assert_eq!(select(&cal, Date { year: 2024, month: 1, day: 15 }).len(), 1);
    assert_eq!(select(&cal, Date { year: 2024, month: 1, day: 16 }).len(), 0);
}
