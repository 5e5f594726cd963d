//! The inbound event contract: one variant per logical update from the
//! windowing protocol, each carrying a window or output id plus its payload.

use vstd::prelude::*;

use crate::toplevel::State;

verus! {

/// One logical update delivered by the protocol transport.
///
/// Attribute events (`Title`, `AppId`, `State`, `Output`) arrive as a burst
/// per window, closed by a `Done` marker; `Output` carries the id of the
/// output the window is on, or `None` once it left its output.  `OutputNew`
/// and `OutputRemoved` maintain the output name registry and have a lifecycle
/// independent of any window.
#[derive(Debug)]
pub enum Event {
    New(u32),
    Title(u32, String),
    AppId(u32, String),
    State(u32, Vec<State>),
    Output(u32, Option<u32>),
    Closed(u32),
    Done(u32),
    OutputNew(u32, String),
    OutputRemoved(u32),
}

} // verus!
