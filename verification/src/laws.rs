//! The promises the aggregator keeps across whole event sequences: the
//! debounce discipline, the absence of spurious notifications, the immediate
//! close-of-active notification, the unknown-output fallback, and the
//! idempotence of removal.
//!
//! All of them are stated over [`step`] and [`emitted`], the spec functions
//! `TopMaid::handle_event` is proved against, so they hold of every run of
//! the executable aggregator.

use vstd::prelude::*;

use crate::event::Event;
use crate::toplevel::{State, ToplevelView};
use crate::topmaid::{
    active_snapshot, cleared_info, emitted, resolved_name, step, with_app_id, with_output,
    with_state, with_title, MaidView,
};

verus! {

/// The state after a whole event sequence, applied in order.
pub open spec fn apply_all(pre: MaidView, evs: Seq<Event>) -> MaidView
    decreases evs.len(),
{
    if evs.len() == 0 {
        pre
    } else {
        step(apply_all(pre, evs.drop_last()), evs.last())
    }
}

/// An attribute update for window `w`: one of the burst events `Title`,
/// `AppId`, `Output`, `State`.
pub open spec fn is_attr_event_for(ev: Event, w: u32) -> bool {
    ||| ev matches Event::Title(id, _) && id == w
    ||| ev matches Event::AppId(id, _) && id == w
    ||| ev matches Event::Output(id, _) && id == w
    ||| ev matches Event::State(id, _) && id == w
}

/// The record a burst of attribute events settles to: the last value of each
/// attribute wins.
pub open spec fn burst_record(t: ToplevelView, evs: Seq<Event>) -> ToplevelView
    decreases evs.len(),
{
    if evs.len() == 0 {
        t
    } else {
        let t1 = burst_record(t, evs.drop_last());
        match evs.last() {
            Event::Title(_, s) => with_title(t1, s@),
            Event::AppId(_, s) => with_app_id(t1, s@),
            Event::Output(_, o) => with_output(t1, o),
            Event::State(_, st) => with_state(t1, st@),
            _ => t1,
        }
    }
}

/// One attribute event for the tracked, present window emits nothing, keeps
/// the window tracked and present, raises the dirty flag, and touches
/// neither the output registry nor the other windows' records.
proof fn lemma_attr_step(pre: MaidView, ev: Event, w: u32)
    requires
        is_attr_event_for(ev, w),
        pre.last_active == w,
        pre.toplevels.contains_key(w),
    ensures
        emitted(pre, ev) is None,
        step(pre, ev).last_active == w,
        step(pre, ev).toplevels.contains_key(w),
        step(pre, ev).active_changed,
        step(pre, ev).outputs == pre.outputs,
        step(pre, ev).toplevels[w] == burst_record(pre.toplevels[w], seq![ev]),
{
    let s1 = seq![ev];
    assert(s1.last() == ev);
    assert(s1.drop_last() =~= Seq::<Event>::empty());
    assert(burst_record(pre.toplevels[w], Seq::<Event>::empty()) == pre.toplevels[w]);
    assert(burst_record(pre.toplevels[w], s1.drop_last()) == pre.toplevels[w]);
}

/// Debounce, first half: while a burst of attribute events for the tracked
/// active window runs, nothing at all is emitted, and the burst leaves the
/// window tracked, present, and marked dirty.
///
/// Debounce, second half: the `Done` that closes the burst emits exactly one
/// notification — the snapshot of the settled state, which exists — and
/// clears the dirty flag, so a repeated `Done` emits nothing more.
pub proof fn lemma_debounce(pre: MaidView, evs: Seq<Event>, w: u32)
    requires
        w != 0,
        pre.last_active == w,
        pre.toplevels.contains_key(w),
        evs.len() > 0,
        forall|i: int| 0 <= i < evs.len() ==> is_attr_event_for(#[trigger] evs[i], w),
    ensures
        forall|i: int|
            0 <= i < evs.len() ==> emitted(apply_all(pre, evs.take(i)), #[trigger] evs[i]) is None,
        apply_all(pre, evs).last_active == w,
        apply_all(pre, evs).toplevels.contains_key(w),
        apply_all(pre, evs).active_changed,
        emitted(apply_all(pre, evs), Event::Done(w)) == active_snapshot(apply_all(pre, evs)),
        active_snapshot(apply_all(pre, evs)) is Some,
        !step(apply_all(pre, evs), Event::Done(w)).active_changed,
        emitted(step(apply_all(pre, evs), Event::Done(w)), Event::Done(w)) is None,
    decreases evs.len(),
{
    let sub = evs.drop_last();
    if sub.len() == 0 {
        assert(apply_all(pre, sub) == pre);
        lemma_attr_step(pre, evs.last(), w);
        assert(evs.take(0) =~= Seq::<Event>::empty());
        assert(evs[0] == evs.last());
    } else {
        lemma_debounce(pre, sub, w);
        let mid = apply_all(pre, sub);
        lemma_attr_step(mid, evs.last(), w);
        assert forall|i: int|
            0 <= i < evs.len() implies emitted(
            apply_all(pre, evs.take(i)),
            #[trigger] evs[i],
        ) is None by {
            if i < evs.len() - 1 {
                assert(evs.take(i) =~= sub.take(i));
                assert(evs[i] == sub[i]);
            } else {
                assert(evs.take(i) =~= sub);
            }
        }
    }
}

/// The settled record after a burst of attribute events for the tracked,
/// present window: exactly the fold that keeps the last value of each
/// attribute.
pub proof fn lemma_burst_record(pre: MaidView, evs: Seq<Event>, w: u32)
    requires
        pre.last_active == w,
        pre.toplevels.contains_key(w),
        forall|i: int| 0 <= i < evs.len() ==> is_attr_event_for(#[trigger] evs[i], w),
    ensures
        apply_all(pre, evs).last_active == w,
        apply_all(pre, evs).toplevels.contains_key(w),
        apply_all(pre, evs).toplevels[w] == burst_record(pre.toplevels[w], evs),
    decreases evs.len(),
{
    if evs.len() > 0 {
        let sub = evs.drop_last();
        lemma_burst_record(pre, sub, w);
        lemma_attr_step(apply_all(pre, sub), evs.last(), w);
    }
}

/// No spurious notification: a `Done` for a window that is not the tracked
/// active window, or with no change recorded since the last notification,
/// emits nothing and changes nothing.
pub proof fn lemma_no_spurious_notify(pre: MaidView, id: u32)
    requires
        id != pre.last_active || !pre.active_changed,
    ensures
        emitted(pre, Event::Done(id)) is None,
        step(pre, Event::Done(id)) == pre,
{
}

/// Closing the tracked active window notifies at once — empty texts and the
/// closed record's last-known output name — with no dependency on any later
/// `Done`: the dirty flag is left clear, so a following `Done` emits
/// nothing.
pub proof fn lemma_close_of_active(pre: MaidView, id: u32)
    requires
        pre.toplevels.contains_key(id),
        id == pre.last_active,
    ensures
        emitted(pre, Event::Closed(id)) == Some(
            cleared_info(resolved_name(pre.outputs, pre.toplevels[id].output)),
        ),
        !step(pre, Event::Closed(id)).active_changed,
        forall|d: u32| emitted(step(pre, Event::Closed(id)), Event::Done(d)) is None,
{
}

/// An output id that is unset, or absent from the output name registry,
/// resolves to the sentinel name `"unknown"` — and both `list` rows and
/// active snapshots state their output names through `resolved_name`.
pub proof fn lemma_unknown_output(outputs: Map<u32, Seq<char>>, output: Option<u32>)
    requires
        output matches Some(oid) ==> !outputs.contains_key(oid),
    ensures
        resolved_name(outputs, output) == "unknown"@,
{
}

/// `last_active` names the most recent window ever observed to become
/// active: no event clears it, only a `State` event carrying the `Active`
/// flag reassigns it, to that event's window.
pub proof fn lemma_last_active_stable(pre: MaidView, ev: Event)
    ensures
        step(pre, ev).last_active == pre.last_active || (ev matches Event::State(id, st)
            && st@.contains(State::Active) && step(pre, ev).last_active == id),
{
}

/// `Closed` for an id with no record is a no-op: the state is unchanged and
/// nothing is emitted.
pub proof fn lemma_idempotent_removal(pre: MaidView, id: u32)
    requires
        !pre.toplevels.contains_key(id),
    ensures
        step(pre, Event::Closed(id)) == pre,
        emitted(pre, Event::Closed(id)) is None,
{
}

} // verus!
