//! Filtering a [`Calendar`] down to the events that start on a target date.

use vstd::prelude::*;

use crate::event::Calendar;
use crate::event::Event;
use crate::event::EventView;
use crate::timestamp::Date;

verus! {

/// The selection predicate: the calendar-date component of the event's
/// start timestamp equals the target date exactly.
pub open spec fn on_date(ev: EventView, date: Date) -> bool {
    ev.dt_start.date_spec() == date
}

/// The events starting on `date`, in document order: a stable filter.
pub open spec fn selected_events(events: Seq<EventView>, date: Date) -> Seq<EventView> {
    events.filter(|ev: EventView| on_date(ev, date))
}

/// The ordered subset of `cal` starting on `date`: a stable filter that
/// keeps document order, never fails, and leaves the Calendar untouched.
pub fn select(cal: &Calendar, date: Date) -> (r: Vec<Event>)
    ensures
        r.deep_view() == selected_events(cal.deep_view(), date),
{
    let ghost pred = (|ev: EventView| on_date(ev, date));
    let ghost evs = cal.deep_view();
    let mut r: Vec<Event> = Vec::new();
    let n = cal.events.len();
    let mut i: usize = 0;
    proof {
        reveal(Seq::filter);
        assert(evs.take(0) =~= Seq::<EventView>::empty());
    }
    while i < n
        invariant
            0 <= i <= n,
            n == cal.events@.len(),
            evs == cal.deep_view(),
            evs.len() == n,
            pred == (|ev: EventView| on_date(ev, date)),
            r.deep_view() == evs.take(i as int).filter(pred),
        decreases n - i,
    {
        let ev = &cal.events[i];
        proof {
            reveal(Seq::filter);
            assert(ev.deep_view() == evs[i as int]);
            assert(evs.take(i + 1).drop_last() =~= evs.take(i as int));
            assert(evs.take(i + 1).last() == evs[i as int]);
        }
        if ev.dt_start.date() == date {
            let kept = ev.clone();
            r.push(kept);
            proof {
                assert(r.deep_view() =~= evs.take(i as int).filter(pred).push(evs[i as int]));
            }
        }
        i = i + 1;
    }
    proof {
        assert(evs.take(n as int) =~= evs);
    }
    r
}

proof fn lemma_filter_idempotent(s: Seq<EventView>, pred: spec_fn(EventView) -> bool)
    ensures
        s.filter(pred).filter(pred) == s.filter(pred),
    decreases s.len(),
{
    reveal(Seq::filter);
    if s.len() == 0 {
    } else {
        let dl = s.drop_last();
        lemma_filter_idempotent(dl, pred);
        if pred(s.last()) {
            let f = dl.filter(pred).push(s.last());
            assert(f.drop_last() =~= dl.filter(pred));
            assert(s.filter(pred).filter(pred) =~= s.filter(pred));
        }
    }
}

proof fn lemma_filter_of_no_match(s: Seq<EventView>, pred: spec_fn(EventView) -> bool)
    requires
        forall|i: int| 0 <= i < s.len() ==> !pred(#[trigger] s[i]),
    ensures
        s.filter(pred) == Seq::<EventView>::empty(),
    decreases s.len(),
{
    reveal(Seq::filter);
    if s.len() > 0 {
        lemma_filter_of_no_match(s.drop_last(), pred);
    }
}

/// What selection guarantees, stated of the event sequence itself:
/// every selected event starts on the target date; with no matching event
/// the selection is empty; and selecting again from a selection changes
/// nothing (idempotence).
pub proof fn lemma_select_properties(events: Seq<EventView>, date: Date)
    ensures
        forall|i: int|
            0 <= i < selected_events(events, date).len() ==> on_date(
                #[trigger] selected_events(events, date)[i],
                date,
            ),
        (forall|i: int| 0 <= i < events.len() ==> !on_date(#[trigger] events[i], date))
            ==> selected_events(events, date) == Seq::<EventView>::empty(),
        selected_events(selected_events(events, date), date) == selected_events(events, date),
{
    let pred = (|ev: EventView| on_date(ev, date));
    assert forall|i: int| 0 <= i < selected_events(events, date).len() implies on_date(
        selected_events(events, date)[i],
        date,
    ) by {
        events.lemma_filter_pred(pred, i);
    }
    if forall|i: int| 0 <= i < events.len() ==> !on_date(#[trigger] events[i], date) {
        lemma_filter_of_no_match(events, pred);
    }
    lemma_filter_idempotent(events, pred);
}

/// Order preservation: of three events in document order where the first
/// and third start on the target date and the second does not, selection
/// yields the first and third, in that order.
pub proof fn lemma_select_order(a: EventView, b: EventView, c: EventView, date: Date)
    requires
        on_date(a, date),
        !on_date(b, date),
        on_date(c, date),
    ensures
        selected_events(seq![a, b, c], date) == seq![a, c],
{
    reveal(Seq::filter);
    let pred = (|ev: EventView| on_date(ev, date));
    let s = seq![a, b, c];
    assert(s.drop_last() =~= seq![a, b]);
    assert(seq![a, b].drop_last() =~= seq![a]);
    assert(seq![a].drop_last() =~= Seq::<EventView>::empty());
    assert(seq![a].filter(pred) =~= Seq::<EventView>::empty().filter(pred).push(a));
    assert(Seq::<EventView>::empty().filter(pred) =~= Seq::<EventView>::empty());
    assert(seq![a, b].filter(pred) =~= seq![a].filter(pred));
    assert(s.filter(pred) =~= seq![a, b].filter(pred).push(c));
    assert(s.filter(pred) =~= seq![a, c]);
}

} // verus!
