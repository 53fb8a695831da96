//! Events, property records, and the extraction of one [`Event`] per VEVENT
//! block.
//!
//! Recognized property names are `SUMMARY`, `DESCRIPTION`, `LOCATION`,
//! `DTSTART` and `DTEND`; anything else is ignored. A property without a
//! value is skipped, leaving the field at its default: the empty string for
//! text, the epoch for timestamps.

use vstd::prelude::*;

use crate::timestamp::DateTime;
use crate::timestamp::datetime_or_epoch;
use crate::timestamp::duration_label;
use crate::timestamp::duration_label_spec;
use crate::timestamp::epoch_spec;
use crate::timestamp::timestamp_or_epoch_spec;

verus! {

/// One raw iCalendar property record: a name and an optional value.
pub struct Prop {
    pub name: String,
    pub value: Option<String>,
}

/// The mathematical reading of a [`Prop`].
pub ghost struct PropView {
    pub name: Seq<char>,
    pub value: Option<Seq<char>>,
}

impl DeepView for Prop {
    type V = PropView;

    open spec fn deep_view(&self) -> PropView {
        PropView { name: self.name@, value: self.value.deep_view() }
    }
}

/// One VEVENT block: its property records in document order.
pub struct EventBlock {
    pub props: Vec<Prop>,
}

impl DeepView for EventBlock {
    type V = Seq<PropView>;

    open spec fn deep_view(&self) -> Seq<PropView> {
        self.props.deep_view()
    }
}

/// One scheduled timetable entry. Every field is populated: absent or
/// malformed properties leave the documented defaults, never a hole.
pub struct Event {
    pub title: String,
    pub desc: String,
    pub location: String,
    pub dt_start: DateTime,
    pub dt_end: DateTime,
    pub duration: String,
}

/// The mathematical reading of an [`Event`].
pub ghost struct EventView {
    pub title: Seq<char>,
    pub desc: Seq<char>,
    pub location: Seq<char>,
    pub dt_start: DateTime,
    pub dt_end: DateTime,
    pub duration: Seq<char>,
}

impl DeepView for Event {
    type V = EventView;

    open spec fn deep_view(&self) -> EventView {
        EventView {
            title: self.title@,
            desc: self.desc@,
            location: self.location@,
            dt_start: self.dt_start,
            dt_end: self.dt_end,
            duration: self.duration@,
        }
    }
}

impl Clone for Event {
    fn clone(&self) -> (r: Event)
        ensures
            r == *self,
    {
        Event {
            title: self.title.clone(),
            desc: self.desc.clone(),
            location: self.location.clone(),
            dt_start: self.dt_start,
            dt_end: self.dt_end,
            duration: self.duration.clone(),
        }
    }
}

/// The ordered sequence of events as they appear in the source document.
pub struct Calendar {
    pub events: Vec<Event>,
}

impl DeepView for Calendar {
    type V = Seq<EventView>;

    open spec fn deep_view(&self) -> Seq<EventView> {
        self.events.deep_view()
    }
}

/// The first index holding `:`, if any.
pub open spec fn find_colon(s: Seq<char>) -> Option<int>
    decreases s.len(),
{
    if s.len() == 0 {
        None
    } else if s[0] == ':' {
        Some(0)
    } else {
        match find_colon(s.drop_first()) {
            Some(i) => Some(i + 1),
            None => None,
        }
    }
}

/// The first index where the two-character escape `\n` starts, if any.
pub open spec fn find_newline_escape(s: Seq<char>) -> Option<int>
    decreases s.len(),
{
    if s.len() < 2 {
        None
    } else if s[0] == '\\' && s[1] == 'n' {
        Some(0)
    } else {
        match find_newline_escape(s.drop_first()) {
            Some(i) => Some(i + 1),
            None => None,
        }
    }
}

/// The label-stripping transform for DESCRIPTION values: when the value has
/// the shape `label:text\nrest` — a `:` before the first literal `\n` escape
/// — keep only the text between them; otherwise keep the raw value.
pub open spec fn strip_label_spec(s: Seq<char>) -> Seq<char> {
    match (find_colon(s), find_newline_escape(s)) {
        (Some(i), Some(j)) => if i < j {
            s.subrange(i + 1, j)
        } else {
            s
        },
        _ => s,
    }
}

proof fn lemma_find_colon_at(s: Seq<char>, i: int)
    requires
        0 <= i < s.len(),
        s[i] == ':',
        forall|k: int| 0 <= k < i ==> (#[trigger] s[k]) != ':',
    ensures
        find_colon(s) == Some(i),
    decreases i,
{
    if i > 0 {
        lemma_find_colon_at(s.drop_first(), i - 1);
    }
}

proof fn lemma_find_colon_none(s: Seq<char>)
    requires
        forall|k: int| 0 <= k < s.len() ==> (#[trigger] s[k]) != ':',
    ensures
        find_colon(s) is None,
    decreases s.len(),
{
    if s.len() > 0 {
        lemma_find_colon_none(s.drop_first());
    }
}

proof fn lemma_find_colon_bounds(s: Seq<char>)
    ensures
        find_colon(s) matches Some(i) ==> 0 <= i < s.len() && s[i] == ':',
    decreases s.len(),
{
    if s.len() > 0 && s[0] != ':' {
        lemma_find_colon_bounds(s.drop_first());
    }
}

proof fn lemma_find_newline_escape_at(s: Seq<char>, i: int)
    requires
        0 <= i,
        i + 2 <= s.len(),
        s[i] == '\\' && s[i + 1] == 'n',
        forall|k: int| 0 <= k < i ==> !((#[trigger] s[k]) == '\\' && s[k + 1] == 'n'),
    ensures
        find_newline_escape(s) == Some(i),
    decreases i,
{
    if i > 0 {
        lemma_find_newline_escape_at(s.drop_first(), i - 1);
    }
}

proof fn lemma_find_newline_escape_none(s: Seq<char>)
    requires
        forall|k: int| 0 <= k && k + 2 <= s.len() ==> !((#[trigger] s[k]) == '\\' && s[k + 1] == 'n'),
    ensures
        find_newline_escape(s) is None,
    decreases s.len(),
{
    if s.len() >= 2 {
        lemma_find_newline_escape_none(s.drop_first());
    }
}

proof fn lemma_find_newline_escape_bounds(s: Seq<char>)
    ensures
        find_newline_escape(s) matches Some(j) ==> 0 <= j && j + 2 <= s.len() && s[j] == '\\'
            && s[j + 1] == 'n',
    decreases s.len(),
{
    if s.len() >= 2 && !(s[0] == '\\' && s[1] == 'n') {
        lemma_find_newline_escape_bounds(s.drop_first());
    }
}

fn find_colon_exec(s: &str) -> (r: Option<usize>)
    ensures
        match r {
            Some(i) => find_colon(s@) == Some(i as int),
            None => find_colon(s@) is None,
        },
{
    let n = s.unicode_len();
    let mut i: usize = 0;
    while i < n
        invariant
            0 <= i <= n,
            n == s@.len(),
            forall|k: int| 0 <= k < i ==> (#[trigger] s@[k]) != ':',
        decreases n - i,
    {
        if s.get_char(i) == ':' {
            proof {
                lemma_find_colon_at(s@, i as int);
            }
            return Some(i);
        }
        i = i + 1;
    }
    proof {
        lemma_find_colon_none(s@);
    }
    None
}

fn find_newline_escape_exec(s: &str) -> (r: Option<usize>)
    ensures
        match r {
            Some(j) => find_newline_escape(s@) == Some(j as int),
            None => find_newline_escape(s@) is None,
        },
{
    let n = s.unicode_len();
    if n < 2 {
        return None;
    }
    let mut i: usize = 0;
    while i < n - 1
        invariant
            0 <= i,
            i <= n,
            n >= 2,
            n == s@.len(),
            forall|k: int| 0 <= k < i ==> !((#[trigger] s@[k]) == '\\' && s@[k + 1] == 'n'),
        decreases n - i,
    {
        if s.get_char(i) == '\\' && s.get_char(i + 1) == 'n' {
            proof {
                lemma_find_newline_escape_at(s@, i as int);
            }
            return Some(i);
        }
        i = i + 1;
    }
    proof {
        lemma_find_newline_escape_none(s@);
    }
    None
}

/// Apply the DESCRIPTION label-stripping transform: keep the text between
/// the first `:` and the first literal `\n` escape when both are present in
/// that order, else the raw value.
pub fn strip_label(s: &str) -> (r: String)
    ensures
        r@ == strip_label_spec(s@),
{
    proof {
        lemma_find_colon_bounds(s@);
        lemma_find_newline_escape_bounds(s@);
    }
    match (find_colon_exec(s), find_newline_escape_exec(s)) {
        (Some(i), Some(j)) => {
            if i < j {
                let piece = s.substring_char(i + 1, j);
                piece.to_owned()
            } else {
                s.to_owned()
            }
        },
        _ => s.to_owned(),
    }
}

/// The event before any property has been applied: empty strings and epoch
/// timestamps.
pub open spec fn empty_event() -> EventView {
    EventView {
        title: Seq::<char>::empty(),
        desc: Seq::<char>::empty(),
        location: Seq::<char>::empty(),
        dt_start: epoch_spec(),
        dt_end: epoch_spec(),
        duration: Seq::<char>::empty(),
    }
}

/// The effect of one property record on the event under construction.
pub open spec fn apply_prop(ev: EventView, p: PropView) -> EventView {
    match p.value {
        Some(v) => if p.name == "SUMMARY"@ {
            EventView { title: v, ..ev }
        } else if p.name == "DESCRIPTION"@ {
            EventView { desc: strip_label_spec(v), ..ev }
        } else if p.name == "LOCATION"@ {
            EventView { location: v, ..ev }
        } else if p.name == "DTSTART"@ {
            EventView { dt_start: timestamp_or_epoch_spec(v), ..ev }
        } else if p.name == "DTEND"@ {
            EventView { dt_end: timestamp_or_epoch_spec(v), ..ev }
        } else {
            ev
        },
        None => ev,
    }
}

/// The event's fields after applying the property records in order.
pub open spec fn fields_from(ev: EventView, props: Seq<PropView>) -> EventView
    decreases props.len(),
{
    if props.len() == 0 {
        ev
    } else {
        fields_from(apply_prop(ev, props[0]), props.drop_first())
    }
}

/// Resolve the derived duration label once both timestamps are settled.
pub open spec fn finalize_event(ev: EventView) -> EventView {
    EventView { duration: duration_label_spec(ev.dt_start, ev.dt_end), ..ev }
}

/// The one Event a VEVENT block yields.
pub open spec fn extract_event_spec(props: Seq<PropView>) -> EventView {
    finalize_event(fields_from(empty_event(), props))
}

/// One Event per block, in document order.
pub open spec fn extract_all_spec(blocks: Seq<Seq<PropView>>) -> Seq<EventView>
    decreases blocks.len(),
{
    if blocks.len() == 0 {
        Seq::<EventView>::empty()
    } else {
        extract_all_spec(blocks.drop_last()).push(extract_event_spec(blocks.last()))
    }
}

/// Build one Event from a VEVENT block's property records.
pub fn extract_event(block: &EventBlock) -> (ev: Event)
    ensures
        ev.deep_view() == extract_event_spec(block.deep_view()),
{
    let ghost bdv = block.deep_view();
    let mut title = String::new();
    let mut desc = String::new();
    let mut location = String::new();
    let mut dt_start = crate::timestamp::epoch();
    let mut dt_end = crate::timestamp::epoch();
    let n = block.props.len();
    let mut i: usize = 0;
    proof {
        assert(bdv.skip(0) =~= bdv);
        assert(EventView {
            title: title@,
            desc: desc@,
            location: location@,
            dt_start: dt_start,
            dt_end: dt_end,
            duration: Seq::<char>::empty(),
        } == empty_event());
    }
    while i < n
        invariant
            0 <= i <= n,
            n == block.props.len(),
            bdv == block.deep_view(),
            bdv.len() == n,
            fields_from(
                EventView {
                    title: title@,
                    desc: desc@,
                    location: location@,
                    dt_start: dt_start,
                    dt_end: dt_end,
                    duration: Seq::<char>::empty(),
                },
                bdv.skip(i as int),
            ) == fields_from(empty_event(), bdv),
        decreases n - i,
    {
        let ghost before = EventView {
            title: title@,
            desc: desc@,
            location: location@,
            dt_start: dt_start,
            dt_end: dt_end,
            duration: Seq::<char>::empty(),
        };
        proof {
            assert(bdv.skip(i as int).len() > 0);
            assert(bdv.skip(i as int)[0] == bdv[i as int]);
            assert(bdv.skip(i as int).drop_first() =~= bdv.skip(i as int + 1));
        }
        let p = &block.props[i];
        proof {
            assert(p.deep_view() == bdv[i as int]);
        }
        match &p.value {
            Some(v) => {
                if string_eq_literal(&p.name, "SUMMARY") {
                    title = v.clone();
                } else if string_eq_literal(&p.name, "DESCRIPTION") {
                    desc = strip_label(v.as_str());
                } else if string_eq_literal(&p.name, "LOCATION") {
                    location = v.clone();
                } else if string_eq_literal(&p.name, "DTSTART") {
                    dt_start = datetime_or_epoch(v.as_str());
                } else if string_eq_literal(&p.name, "DTEND") {
                    dt_end = datetime_or_epoch(v.as_str());
                }
            },
            None => {},
        }
        proof {
            let after = EventView {
                title: title@,
                desc: desc@,
                location: location@,
                dt_start: dt_start,
                dt_end: dt_end,
                duration: Seq::<char>::empty(),
            };
            assert(after == apply_prop(before, bdv[i as int]));
        }
        i = i + 1;
    }
    proof {
        assert(bdv.skip(n as int) =~= Seq::<PropView>::empty());
    }
    let duration = duration_label(&dt_start, &dt_end);
    let ev = Event { title, desc, location, dt_start, dt_end, duration };
    proof {
        assert(ev.deep_view() == extract_event_spec(bdv));
    }
    ev
}

/// True exactly when the string's characters are those of the literal.
fn string_eq_literal(s: &String, lit: &str) -> (r: bool)
    ensures
        r == (s@ == lit@),
{
    let other = lit.to_owned();
    *s == other
}

/// Build the whole Calendar: exactly one Event per VEVENT block, in
/// document order — a malformed property never drops its block.
pub fn extract_calendar(blocks: &Vec<EventBlock>) -> (cal: Calendar)
    ensures
        cal.deep_view() == extract_all_spec(blocks.deep_view()),
        cal.events@.len() == blocks@.len(),
{
    let ghost bsv = blocks.deep_view();
    let mut events: Vec<Event> = Vec::new();
    let n = blocks.len();
    let mut i: usize = 0;
    while i < n
        invariant
            0 <= i <= n,
            n == blocks@.len(),
            bsv == blocks.deep_view(),
            bsv.len() == n,
            events@.len() == i,
            events.deep_view() == extract_all_spec(bsv.take(i as int)),
        decreases n - i,
    {
        let ev = extract_event(&blocks[i]);
        events.push(ev);
        proof {
            assert(bsv.take(i + 1).drop_last() =~= bsv.take(i as int));
            assert(bsv.take(i + 1).last() == bsv[i as int]);
            assert(events.deep_view() =~= extract_all_spec(bsv.take(i as int)).push(
                extract_event_spec(bsv[i as int]),
            ));
        }
        i = i + 1;
    }
    proof {
        assert(bsv.take(n as int) =~= bsv);
    }
    Calendar { events }
}

proof fn lemma_fields_from_title(ev: EventView, props: Seq<PropView>)
    requires
        forall|i: int|
            0 <= i < props.len() ==> !((#[trigger] props[i].name) == "SUMMARY"@
                && props[i].value is Some),
    ensures
        fields_from(ev, props).title == ev.title,
    decreases props.len(),
{
    if props.len() > 0 {
        assert(props.drop_first() =~= props.subrange(1, props.len() as int));
        lemma_fields_from_title(apply_prop(ev, props[0]), props.drop_first());
    }
}

proof fn lemma_fields_from_desc(ev: EventView, props: Seq<PropView>)
    requires
        forall|i: int|
            0 <= i < props.len() ==> !((#[trigger] props[i].name) == "DESCRIPTION"@
                && props[i].value is Some),
    ensures
        fields_from(ev, props).desc == ev.desc,
    decreases props.len(),
{
    if props.len() > 0 {
        assert(props.drop_first() =~= props.subrange(1, props.len() as int));
        lemma_fields_from_desc(apply_prop(ev, props[0]), props.drop_first());
    }
}

proof fn lemma_fields_from_location(ev: EventView, props: Seq<PropView>)
    requires
        forall|i: int|
            0 <= i < props.len() ==> !((#[trigger] props[i].name) == "LOCATION"@
                && props[i].value is Some),
    ensures
        fields_from(ev, props).location == ev.location,
    decreases props.len(),
{
    if props.len() > 0 {
        assert(props.drop_first() =~= props.subrange(1, props.len() as int));
        lemma_fields_from_location(apply_prop(ev, props[0]), props.drop_first());
    }
}

/// A block that never sets SUMMARY, DESCRIPTION or LOCATION leaves that
/// field of its Event equal to the empty string.
pub proof fn lemma_missing_property_defaults(props: Seq<PropView>)
    ensures
        (forall|i: int|
            0 <= i < props.len() ==> !((#[trigger] props[i].name) == "SUMMARY"@
                && props[i].value is Some)) ==> extract_event_spec(props).title == Seq::<
            char,
        >::empty(),
        (forall|i: int|
            0 <= i < props.len() ==> !((#[trigger] props[i].name) == "DESCRIPTION"@
                && props[i].value is Some)) ==> extract_event_spec(props).desc == Seq::<
            char,
        >::empty(),
        (forall|i: int|
            0 <= i < props.len() ==> !((#[trigger] props[i].name) == "LOCATION"@
                && props[i].value is Some)) ==> extract_event_spec(props).location == Seq::<
            char,
        >::empty(),
{
    if forall|i: int|
        0 <= i < props.len() ==> !((#[trigger] props[i].name) == "SUMMARY"@
            && props[i].value is Some) {
        lemma_fields_from_title(empty_event(), props);
    }
    if forall|i: int|
        0 <= i < props.len() ==> !((#[trigger] props[i].name) == "DESCRIPTION"@
            && props[i].value is Some) {
        lemma_fields_from_desc(empty_event(), props);
    }
    if forall|i: int|
        0 <= i < props.len() ==> !((#[trigger] props[i].name) == "LOCATION"@
            && props[i].value is Some) {
        lemma_fields_from_location(empty_event(), props);
    }
}

/// Extraction is total: every block yields its Event, whatever its
/// properties hold.
pub proof fn lemma_extraction_total(blocks: Seq<Seq<PropView>>)
    ensures
        extract_all_spec(blocks).len() == blocks.len(),
        forall|i: int|
            0 <= i < blocks.len() ==> #[trigger] extract_all_spec(blocks)[i] == extract_event_spec(
                blocks[i],
            ),
    decreases blocks.len(),
{
    if blocks.len() > 0 {
        lemma_extraction_total(blocks.drop_last());
    }
}

} // verus!
