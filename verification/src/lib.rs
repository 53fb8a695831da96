//! A verified core for a university timetable viewer.
//!
//! The library ingests an iCalendar document, extracts one [`Event`] per
//! VEVENT block (title, convener description, location, start and end
//! timestamps, and a derived duration label), and filters the resulting
//! [`Calendar`] down to the events starting on a target date.

pub mod event;
pub mod filter;
pub mod ics;
pub mod timestamp;

pub use event::Calendar;
pub use event::Event;
pub use event::EventBlock;
pub use event::EventView;
pub use event::Prop;
pub use event::PropView;
pub use event::extract_calendar;
pub use event::extract_event;
pub use event::lemma_extraction_total;
pub use event::lemma_missing_property_defaults;
pub use event::strip_label;
pub use filter::lemma_select_order;
pub use filter::lemma_select_properties;
pub use filter::select;
pub use ics::StructuralParseError;
pub use ics::parse;
pub use timestamp::Date;
pub use timestamp::DateTime;
pub use timestamp::datetime_or_epoch;
pub use timestamp::duration_label;
pub use timestamp::lemma_malformed_timestamp_defaults;
pub use timestamp::lemma_timestamp_components;
pub use timestamp::parse_timestamp;
