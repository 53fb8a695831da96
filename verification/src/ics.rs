//! The document boundary: decomposing iCalendar text into VEVENT property
//! blocks, and the end-to-end parse into a [`Calendar`].
//!
//! The decomposition itself — unfolding folded lines, walking BEGIN/END
//! component framing — is done by the `ical` crate behind a trusted wrapper;
//! everything from the property records on is verified.

use vstd::prelude::*;

use crate::event::Calendar;
use crate::event::EventBlock;
use crate::event::PropView;
use crate::event::extract_all_spec;
use crate::event::extract_calendar;

verus! {

/// The VEVENT blocks the `ical` crate reads off a document: each block the
/// sequence of its property records, in document order; `None` when the
/// document cannot be decomposed at all.
pub uninterp spec fn ics_parse(s: Seq<char>) -> Option<Seq<Seq<PropView>>>;

/// The input could not be decomposed into VEVENT blocks: structurally
/// invalid iCalendar framing. Fatal — no partial Calendar is returned.
#[derive(Clone, Copy, PartialEq, Eq, Structural, Debug)]
pub struct StructuralParseError;

/// Relies on ical's IcalParser: it walks the document's BEGIN/END framing
/// and yields each calendar's VEVENT components as property records
/// (name and optional value); the outcome depends on the text alone, and an
/// unreadable document yields an error item, here `None`.
#[verifier::external_body]
fn ics_blocks(text: &str) -> (r: Option<Vec<EventBlock>>)
    ensures
        r is Some <==> ics_parse(text@) is Some,
        r matches Some(blocks) ==> Some(blocks.deep_view()) == ics_parse(text@),
{
    let mut blocks: Vec<EventBlock> = Vec::new();
    for cal in ical::IcalParser::new(text.as_bytes()) {
        match cal {
            Ok(c) => blocks.extend(c.events.into_iter().map(|ev| EventBlock {
                props: ev.properties.into_iter().map(
                    |p| crate::event::Prop { name: p.name, value: p.value },
                ).collect(),
            })),
            Err(_) => return None,
        }
    }
    Some(blocks)
}

/// Parse an iCalendar document into a Calendar: one Event per VEVENT block,
/// in document order. Fails — with no partial result — exactly when the
/// document cannot be decomposed into blocks; a malformed or missing
/// property inside a block never fails the parse.
pub fn parse(text: &str) -> (r: Result<Calendar, StructuralParseError>)
    ensures
        r is Ok <==> ics_parse(text@) is Some,
        r matches Ok(cal) ==> ics_parse(text@) matches Some(blocks) && cal.deep_view()
            == extract_all_spec(blocks),
{
    match ics_blocks(text) {
        Some(blocks) => Ok(extract_calendar(&blocks)),
        None => Err(StructuralParseError),
    }
}

} // verus!
