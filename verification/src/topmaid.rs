//! The toplevel state aggregator.
//!
//! `TopMaid` consumes the ordered event stream, consolidates per-window
//! records, tracks which window is active, and decides exactly when a change
//! notification is due.  Every transition is the spec function [`step`]; every
//! notification is the spec function [`emitted`]; [`TopMaid::handle_event`]
//! promises both.

use vstd::prelude::*;

use crate::event::Event;
use crate::store::IdMap;
use crate::toplevel::{empty_record, state_codes, states_to_codes, State, Toplevel, ToplevelView};

verus! {

/// The snapshot pushed to the inter-process layer whenever the active window
/// changes: texts default to empty while unknown.
#[derive(Debug)]
pub struct ActiveInfo {
    pub title: String,
    pub app_id: String,
    pub output_name: String,
}

/// The mathematical shadow of an [`ActiveInfo`].
#[verifier::ext_equal]
pub ghost struct ActiveInfoView {
    pub title: Seq<char>,
    pub app_id: Seq<char>,
    pub output_name: Seq<char>,
}

impl View for ActiveInfo {
    type V = ActiveInfoView;

    open spec fn view(&self) -> ActiveInfoView {
        ActiveInfoView {
            title: self.title@,
            app_id: self.app_id@,
            output_name: self.output_name@,
        }
    }
}

impl ActiveInfo {
    /// The snapshot of one window record, its output name already resolved:
    /// texts default to empty while unknown.
    fn from_toplevel(t: &Toplevel, output_name: String) -> (r: Self)
        ensures
            r@.title == text_or_empty(t@.title),
            r@.app_id == text_or_empty(t@.app_id),
            r@.output_name == output_name@,
    {
        ActiveInfo {
            title: match &t.title {
                Some(s) => s.clone(),
                None => String::new(),
            },
            app_id: match &t.app_id {
                Some(s) => s.clone(),
                None => String::new(),
            },
            output_name,
        }
    }
}

/// A notification pushed toward the inter-process layer.
#[derive(Debug)]
pub enum Signal {
    ActiveChanged(ActiveInfo),
}

/// A command sent back toward the protocol transport.
#[derive(Debug, Clone, Copy, PartialEq, Eq, Structural)]
pub enum Action {
    Close(u32),
}

/// The aggregator state as mathematics: the two stores as maps, the tracked
/// active window, the two flags, and the one-slot cache of the last closed
/// record.
#[verifier::ext_equal]
pub ghost struct MaidView {
    /// The window record store: one entry per window `New`-ed and not yet
    /// `Closed`.
    pub toplevels: Map<u32, ToplevelView>,
    /// The output name registry, keyed by output id.
    pub outputs: Map<u32, Seq<char>>,
    /// The most recent window ever observed to become active; 0 while none
    /// has.
    pub last_active: u32,
    /// Dirty flag: an attribute of the tracked window changed since the last
    /// notification.
    pub active_changed: bool,
    /// The tracked window lost its `Active` flag without a successor.
    pub no_active: bool,
    /// The record most recently removed by `Closed`, kept so a close of the
    /// active window can still report its output; overwritten by every later
    /// `Closed` of a present record.
    pub just_closed: Option<ToplevelView>,
}

/// The state a fresh aggregator starts in.
pub open spec fn initial_state() -> MaidView {
    MaidView {
        toplevels: Map::empty(),
        outputs: Map::empty(),
        last_active: 0,
        active_changed: false,
        no_active: true,
        just_closed: None,
    }
}

/// Text of an optional attribute: the empty text while unknown.
pub open spec fn text_or_empty(t: Option<Seq<char>>) -> Seq<char> {
    match t {
        Some(s) => s,
        None => Seq::empty(),
    }
}

/// The display name of an optional output id: the registry's name, or
/// `"unknown"` when the id is unset or absent from the registry.
pub open spec fn resolved_name(outputs: Map<u32, Seq<char>>, output: Option<u32>) -> Seq<char> {
    match output {
        Some(oid) => if outputs.contains_key(oid) {
            outputs[oid]
        } else {
            "unknown"@
        },
        None => "unknown"@,
    }
}

/// The record `t` with its title replaced.
pub open spec fn with_title(t: ToplevelView, title: Seq<char>) -> ToplevelView {
    ToplevelView { title: Some(title), ..t }
}

/// The record `t` with its application id replaced.
pub open spec fn with_app_id(t: ToplevelView, app_id: Seq<char>) -> ToplevelView {
    ToplevelView { app_id: Some(app_id), ..t }
}

/// The record `t` with its output reference replaced.
pub open spec fn with_output(t: ToplevelView, output: Option<u32>) -> ToplevelView {
    ToplevelView { output, ..t }
}

/// The record `t` with its state flags replaced.
pub open spec fn with_state(t: ToplevelView, state: Seq<State>) -> ToplevelView {
    ToplevelView { state, ..t }
}

/// An empty-texts snapshot carrying only an output name: the deliberate
/// "nothing is active here, but this is the output" signal.
pub open spec fn cleared_info(output_name: Seq<char>) -> ActiveInfoView {
    ActiveInfoView { title: Seq::empty(), app_id: Seq::empty(), output_name }
}

/// The snapshot `get_active` computes.  While no window has ever become
/// active there is none.  While the tracked window exists its attributes are
/// reported, or empty texts with its output when `no_active` signals a
/// cleared display.  After the tracked window closed, the retained record
/// still supplies the output name.
pub open spec fn active_snapshot(m: MaidView) -> Option<ActiveInfoView> {
    if m.last_active == 0 {
        None
    } else if m.toplevels.contains_key(m.last_active) {
        let t = m.toplevels[m.last_active];
        if m.no_active {
            Some(cleared_info(resolved_name(m.outputs, t.output)))
        } else {
            Some(
                ActiveInfoView {
                    title: text_or_empty(t.title),
                    app_id: text_or_empty(t.app_id),
                    output_name: resolved_name(m.outputs, t.output),
                },
            )
        }
    } else {
        match m.just_closed {
            Some(t) => Some(cleared_info(resolved_name(m.outputs, t.output))),
            None => None,
        }
    }
}

/// The aggregator state after one event.
pub open spec fn step(pre: MaidView, ev: Event) -> MaidView {
    match ev {
        Event::New(id) => MaidView {
            toplevels: pre.toplevels.insert(id, empty_record(id)),
            ..pre
        },
        Event::Title(id, title) => MaidView {
            toplevels: if pre.toplevels.contains_key(id) {
                pre.toplevels.insert(id, with_title(pre.toplevels[id], title@))
            } else {
                pre.toplevels
            },
            active_changed: pre.active_changed || id == pre.last_active,
            ..pre
        },
        Event::AppId(id, app_id) => MaidView {
            toplevels: if pre.toplevels.contains_key(id) {
                pre.toplevels.insert(id, with_app_id(pre.toplevels[id], app_id@))
            } else {
                pre.toplevels
            },
            active_changed: pre.active_changed || id == pre.last_active,
            ..pre
        },
        Event::Output(id, output) => MaidView {
            toplevels: if pre.toplevels.contains_key(id) {
                pre.toplevels.insert(id, with_output(pre.toplevels[id], output))
            } else {
                pre.toplevels
            },
            active_changed: pre.active_changed || id == pre.last_active,
            ..pre
        },
        Event::State(id, state) => {
            let stored = if pre.toplevels.contains_key(id) {
                pre.toplevels.insert(id, with_state(pre.toplevels[id], state@))
            } else {
                pre.toplevels
            };
            if state@.contains(State::Active) {
                MaidView {
                    toplevels: stored,
                    last_active: id,
                    no_active: false,
                    active_changed: true,
                    ..pre
                }
            } else if id == pre.last_active {
                MaidView { toplevels: stored, no_active: true, active_changed: true, ..pre }
            } else {
                MaidView { toplevels: stored, ..pre }
            }
        },
        Event::Closed(id) => {
            if pre.toplevels.contains_key(id) {
                if id == pre.last_active {
                    MaidView {
                        toplevels: pre.toplevels.remove(id),
                        just_closed: Some(pre.toplevels[id]),
                        no_active: true,
                        active_changed: false,
                        ..pre
                    }
                } else {
                    MaidView {
                        toplevels: pre.toplevels.remove(id),
                        just_closed: Some(pre.toplevels[id]),
                        ..pre
                    }
                }
            } else {
                pre
            }
        },
        Event::Done(id) => {
            if id == pre.last_active && pre.active_changed {
                MaidView { active_changed: false, ..pre }
            } else {
                pre
            }
        },
        Event::OutputNew(oid, name) => MaidView {
            outputs: pre.outputs.insert(oid, name@),
            ..pre
        },
        Event::OutputRemoved(oid) => MaidView { outputs: pre.outputs.remove(oid), ..pre },
    }
}

/// The notification one event emits, if any.  A `Closed` of the tracked
/// active window notifies at once with empty texts and the closed record's
/// output name; a `Done` for the tracked window notifies while the dirty flag
/// stands; nothing else notifies.
pub open spec fn emitted(pre: MaidView, ev: Event) -> Option<ActiveInfoView> {
    match ev {
        Event::Closed(id) => if pre.toplevels.contains_key(id) && id == pre.last_active {
            Some(cleared_info(resolved_name(pre.outputs, pre.toplevels[id].output)))
        } else {
            None
        },
        Event::Done(id) => if id == pre.last_active && pre.active_changed {
            active_snapshot(pre)
        } else {
            None
        },
        _ => None,
    }
}

/// The snapshot a returned `Option<ActiveInfo>` stands for.
pub open spec fn opt_info_view(r: Option<ActiveInfo>) -> Option<ActiveInfoView> {
    match r {
        Some(a) => Some(a@),
        None => None,
    }
}

/// The snapshot a returned `Option<Signal>` carries.
pub open spec fn signal_view(sig: Option<Signal>) -> Option<ActiveInfoView> {
    match sig {
        Some(Signal::ActiveChanged(a)) => Some(a@),
        None => None,
    }
}

/// One row of `list`: id, title, application id, output name, state codes.
pub open spec fn row_matches(m: MaidView, row: (u32, String, String, String, Vec<u32>)) -> bool {
    &&& m.toplevels.contains_key(row.0)
    &&& row.1@ == text_or_empty(m.toplevels[row.0].title)
    &&& row.2@ == text_or_empty(m.toplevels[row.0].app_id)
    &&& row.3@ == resolved_name(m.outputs, m.toplevels[row.0].output)
    &&& row.4@ == state_codes(m.toplevels[row.0].state)
}

/// Whether a decoded flag vector carries the `Active` flag.
fn contains_active(st: &Vec<State>) -> (r: bool)
    ensures
        r == st@.contains(State::Active),
{
    let n = st.len();
    let mut i: usize = 0;
    while i < n
        invariant
            n == st@.len(),
            i <= n,
            forall|j: int| 0 <= j < i ==> st@[j] != State::Active,
        decreases n - i,
    {
        if st[i] == State::Active {
            proof {
                assert(st@[i as int] == State::Active);
            }
            return true;
        }
        i = i + 1;
    }
    false
}

/// The toplevel state aggregator: the sole owner of all mutable state.  The
/// event loop feeds it one event at a time through `handle_event`; queries
/// read it between events.
pub struct TopMaid {
    toplevels: IdMap<Toplevel>,
    outputs: IdMap<String>,
    last_active_toplevel: u32,
    active_changed: bool,
    no_active: bool,
    just_closed: Option<Toplevel>,
}

impl View for TopMaid {
    type V = MaidView;

    closed spec fn view(&self) -> MaidView {
        MaidView {
            toplevels: self.toplevels@,
            outputs: self.outputs@,
            last_active: self.last_active_toplevel,
            active_changed: self.active_changed,
            no_active: self.no_active,
            just_closed: match self.just_closed {
                Some(t) => Some(t@),
                None => None,
            },
        }
    }
}

impl TopMaid {
    /// A fresh aggregator: no windows, no outputs, nothing ever active.
    pub fn new() -> (r: Self)
        ensures
            r@ == initial_state(),
    {
        let r = TopMaid {
            toplevels: IdMap::new(),
            outputs: IdMap::new(),
            last_active_toplevel: 0,
            active_changed: false,
            no_active: true,
            just_closed: None,
        };
        proof {
            assert(r@ =~~= initial_state());
        }
        r
    }

    /// The display name of an optional output id: the registry's name, or
    /// `"unknown"` when the id is unset or absent.
    pub fn resolve_output_name(&self, output: Option<u32>) -> (r: String)
        ensures
            r@ == resolved_name(self@.outputs, output),
    {
        match output {
            Some(oid) => match self.outputs.get(oid) {
                Some(name) => name.clone(),
                None => "unknown".to_owned(),
            },
            None => "unknown".to_owned(),
        }
    }

    /// The current active snapshot, or `None` while nothing is known: no
    /// window ever became active and no close is left to report.
    pub fn get_active(&self) -> (r: Option<ActiveInfo>)
        ensures
            opt_info_view(r) == active_snapshot(self@),
    {
        if self.last_active_toplevel == 0 {
            return None;
        }
        match self.toplevels.get(self.last_active_toplevel) {
            Some(t) => {
                let output_name = self.resolve_output_name(t.output);
                if self.no_active {
                    Some(
                        ActiveInfo {
                            title: String::new(),
                            app_id: String::new(),
                            output_name,
                        },
                    )
                } else {
                    Some(ActiveInfo::from_toplevel(t, output_name))
                }
            },
            None => match &self.just_closed {
                Some(t) => Some(
                    ActiveInfo {
                        title: String::new(),
                        app_id: String::new(),
                        output_name: self.resolve_output_name(t.output),
                    },
                ),
                None => None,
            },
        }
    }

    /// Apply one event: mutate the stores and the active tracking exactly as
    /// [`step`] says, and hand back the notification [`emitted`] owes, if
    /// any.
    pub fn handle_event(&mut self, event: Event) -> (sig: Option<Signal>)
        ensures
            final(self)@ == step(old(self)@, event),
            signal_view(sig) == emitted(old(self)@, event),
    {
        let ghost pre = self@;
        let ghost ev = event;
        match event {
            Event::New(id) => {
                self.toplevels.upsert(id, Toplevel::new(id));
                proof {
                    assert(self@ =~~= step(pre, ev));
                }
                None
            },
            Event::Title(id, title) => {
                if id == self.last_active_toplevel {
                    self.active_changed = true;
                }
                match self.toplevels.remove(id) {
                    Some(t) => {
                        self.toplevels.upsert(
                            id,
                            Toplevel {
                                id: t.id,
                                title: Some(title),
                                app_id: t.app_id,
                                output: t.output,
                                state: t.state,
                            },
                        );
                    },
                    None => {},
                }
                proof {
                    assert(self@ =~~= step(pre, ev));
                }
                None
            },
            Event::AppId(id, app_id) => {
                if id == self.last_active_toplevel {
                    self.active_changed = true;
                }
                match self.toplevels.remove(id) {
                    Some(t) => {
                        self.toplevels.upsert(
                            id,
                            Toplevel {
                                id: t.id,
                                title: t.title,
                                app_id: Some(app_id),
                                output: t.output,
                                state: t.state,
                            },
                        );
                    },
                    None => {},
                }
                proof {
                    assert(self@ =~~= step(pre, ev));
                }
                None
            },
            Event::Output(id, output) => {
                if id == self.last_active_toplevel {
                    self.active_changed = true;
                }
                match self.toplevels.remove(id) {
                    Some(t) => {
                        self.toplevels.upsert(
                            id,
                            Toplevel {
                                id: t.id,
                                title: t.title,
                                app_id: t.app_id,
                                output,
                                state: t.state,
                            },
                        );
                    },
                    None => {},
                }
                proof {
                    assert(self@ =~~= step(pre, ev));
                }
                None
            },
            Event::State(id, state) => {
                if contains_active(&state) {
                    self.last_active_toplevel = id;
                    self.active_changed = true;
                    self.no_active = false;
                } else if id == self.last_active_toplevel {
                    self.no_active = true;
                    self.active_changed = true;
                }
                match self.toplevels.remove(id) {
                    Some(t) => {
                        self.toplevels.upsert(
                            id,
                            Toplevel {
                                id: t.id,
                                title: t.title,
                                app_id: t.app_id,
                                output: t.output,
                                state,
                            },
                        );
                    },
                    None => {},
                }
                proof {
                    assert(self@ =~~= step(pre, ev));
                }
                None
            },
            Event::Closed(id) => {
                match self.toplevels.remove(id) {
                    Some(t) => {
                        let sig: Option<Signal> = if id == self.last_active_toplevel {
                            self.no_active = true;
                            self.active_changed = false;
                            let a = ActiveInfo {
                                title: String::new(),
                                app_id: String::new(),
                                output_name: self.resolve_output_name(t.output),
                            };
                            Some(Signal::ActiveChanged(a))
                        } else {
                            None
                        };
                        self.just_closed = Some(t);
                        proof {
                            assert(self@ =~~= step(pre, ev));
                        }
                        sig
                    },
                    None => {
                        proof {
                            assert(self@ =~~= step(pre, ev));
                        }
                        None
                    },
                }
            },
            Event::Done(id) => {
                if id == self.last_active_toplevel && self.active_changed {
                    let sig: Option<Signal> = match self.get_active() {
                        Some(a) => Some(Signal::ActiveChanged(a)),
                        None => None,
                    };
                    self.active_changed = false;
                    proof {
                        assert(self@ =~~= step(pre, ev));
                    }
                    sig
                } else {
                    proof {
                        assert(self@ =~~= step(pre, ev));
                    }
                    None
                }
            },
            Event::OutputNew(oid, name) => {
                self.outputs.upsert(oid, name);
                proof {
                    assert(self@ =~~= step(pre, ev));
                }
                None
            },
            Event::OutputRemoved(oid) => {
                self.outputs.remove(oid);
                proof {
                    assert(self@ =~~= step(pre, ev));
                }
                None
            },
        }
    }

    /// A snapshot of every tracked window as `(id, title, app id, output
    /// name, state codes)`, texts defaulted exactly as the active snapshot
    /// defaults them; enumeration order is unspecified.
    pub fn list(&self) -> (r: Vec<(u32, String, String, String, Vec<u32>)>)
        ensures
            r@.len() == self@.toplevels.dom().len(),
            forall|i: int| 0 <= i < r@.len() ==> row_matches(self@, #[trigger] r@[i]),
            forall|i: int, j: int|
                0 <= i < j < r@.len() ==> (#[trigger] r@[i]).0 != (#[trigger] r@[j]).0,
            forall|k: u32|
                self@.toplevels.contains_key(k) ==> exists|i: int|
                    0 <= i < r@.len() && (#[trigger] r@[i]).0 == k,
    {
        let es = self.toplevels.entries();
        let n = es.len();
        let mut out: Vec<(u32, String, String, String, Vec<u32>)> = Vec::new();
        let mut i: usize = 0;
        while i < n
            invariant
                n == es@.len(),
                i <= n,
                out@.len() == i as int,
                crate::store::keys_unique(es@),
                forall|j: int|
                    0 <= j < es@.len() ==> self@.toplevels.contains_key((#[trigger] es@[j]).0)
                        && (es@[j]).1@ == self@.toplevels[(es@[j]).0],
                forall|j: int| 0 <= j < i ==> (#[trigger] out@[j]).0 == (es@[j]).0,
                forall|j: int| 0 <= j < i ==> row_matches(self@, #[trigger] out@[j]),
            decreases n - i,
        {
            let id = es[i].0;
            let t = &es[i].1;
            let title = match &t.title {
                Some(s) => s.clone(),
                None => String::new(),
            };
            let app_id = match &t.app_id {
                Some(s) => s.clone(),
                None => String::new(),
            };
            let output_name = self.resolve_output_name(t.output);
            let codes = states_to_codes(&t.state);
            out.push((id, title, app_id, output_name, codes));
            i = i + 1;
        }
        proof {
            assert forall|k: u32| self@.toplevels.contains_key(k) implies exists|i: int|
                0 <= i < out@.len() && (#[trigger] out@[i]).0 == k by {
                let j = choose|j: int| 0 <= j < es@.len() && (#[trigger] es@[j]).0 == k;
                assert((out@[j]).0 == k);
            }
        }
        out
    }

    /// The close command for the tracked active window; id 0 stands for
    /// "none yet", and the transport ignores a close of id 0.
    pub fn close_active(&self) -> (r: Action)
        ensures
            r == Action::Close(self@.last_active),
    {
        Action::Close(self.last_active_toplevel)
    }
}

} // verus!
