use taskmaid::event::Event;
use taskmaid::toplevel::State;
use taskmaid::topmaid::{Action, ActiveInfo, Signal, TopMaid};

fn active_flags() -> Vec<State> {
    vec![State::Active]
}

fn info_of(sig: Option<Signal>) -> ActiveInfo {
    match sig {
        Some(Signal::ActiveChanged(a)) => a,
        None => panic!("expected a notification"),
    }
}

fn row_of(
    maid: &TopMaid,
    id: u32,
) -> Option<(u32, String, String, String, Vec<u32>)> {
    maid.list().into_iter().find(|row| row.0 == id)
}

/// Builds the state of the basic scenario: window 1 active, titled, on
/// output 7 named "eDP-1", settled by one `Done`.
fn editor_on_edp1() -> TopMaid {
    let mut maid = TopMaid::new();
    assert!(maid.handle_event(Event::New(1)).is_none());
    assert!(maid.handle_event(Event::State(1, active_flags())).is_none());
    assert!(maid.handle_event(Event::Title(1, "Editor".to_string())).is_none());
    assert!(maid.handle_event(Event::AppId(1, "editor".to_string())).is_none());
    assert!(maid.handle_event(Event::OutputNew(7, "eDP-1".to_string())).is_none());
    assert!(maid.handle_event(Event::Output(1, Some(7))).is_none());
    let info = info_of(maid.handle_event(Event::Done(1)));
    assert_eq!(info.title, "Editor");
    assert_eq!(info.app_id, "editor");
    assert_eq!(info.output_name, "eDP-1");
    maid
}

#[test]
fn scenario_editor_becomes_active() {
    let maid = editor_on_edp1();
    let a = maid.get_active().expect("a window is active");
    assert_eq!(a.title, "Editor");
    assert_eq!(a.app_id, "editor");
    assert_eq!(a.output_name, "eDP-1");
}

#[test]
fn scenario_closing_active_notifies_at_once() {
    let mut maid = editor_on_edp1();
    let info = info_of(maid.handle_event(Event::Closed(1)));
    assert_eq!(info.title, "");
    assert_eq!(info.app_id, "");
    assert_eq!(info.output_name, "eDP-1");
    assert!(row_of(&maid, 1).is_none());
    // No Done was needed, and a later Done adds nothing.
    assert!(maid.handle_event(Event::Done(1)).is_none());
}

#[test]
fn scenario_never_active_window_stays_silent() {
    let mut maid = TopMaid::new();
    assert!(maid.handle_event(Event::New(2)).is_none());
    assert!(maid.handle_event(Event::Done(2)).is_none());
    let row = row_of(&maid, 2).expect("window 2 is tracked");
    assert_eq!(row, (2, String::new(), String::new(), "unknown".to_string(), vec![]));
    assert!(maid.get_active().is_none());
}

#[test]
fn debounce_burst_yields_one_notification_with_last_values() {
    let mut maid = editor_on_edp1();
    assert!(maid.handle_event(Event::Title(1, "draft".to_string())).is_none());
    assert!(maid.handle_event(Event::Title(1, "draft 2".to_string())).is_none());
    assert!(maid.handle_event(Event::AppId(1, "editor2".to_string())).is_none());
    let info = info_of(maid.handle_event(Event::Done(1)));
    assert_eq!(info.title, "draft 2");
    assert_eq!(info.app_id, "editor2");
    assert_eq!(info.output_name, "eDP-1");
    // The burst settled: a second Done emits nothing.
    assert!(maid.handle_event(Event::Done(1)).is_none());
}

#[test]
fn done_for_other_window_notifies_nothing() {
    let mut maid = editor_on_edp1();
    assert!(maid.handle_event(Event::New(2)).is_none());
    assert!(maid.handle_event(Event::Title(2, "other".to_string())).is_none());
    assert!(maid.handle_event(Event::Done(2)).is_none());
}

#[test]
fn done_without_changes_notifies_nothing() {
    let mut maid = editor_on_edp1();
    assert!(maid.handle_event(Event::Done(1)).is_none());
}

#[test]
fn attribute_of_unknown_window_is_ignored() {
    let mut maid = TopMaid::new();
    assert!(maid.handle_event(Event::Title(9, "ghost".to_string())).is_none());
    assert!(maid.handle_event(Event::AppId(9, "ghost".to_string())).is_none());
    assert!(maid.handle_event(Event::Output(9, Some(1))).is_none());
    assert!(maid.list().is_empty());
}

#[test]
fn closed_for_absent_id_is_a_no_op() {
    let mut maid = editor_on_edp1();
    assert!(maid.handle_event(Event::Closed(42)).is_none());
    let a = maid.get_active().expect("still active");
    assert_eq!(a.title, "Editor");
    assert_eq!(row_of(&maid, 1).unwrap().1, "Editor");
}

#[test]
fn unknown_output_resolves_to_sentinel() {
    let mut maid = TopMaid::new();
    assert!(maid.handle_event(Event::New(3)).is_none());
    assert!(maid.handle_event(Event::State(3, active_flags())).is_none());
    assert!(maid.handle_event(Event::Output(3, Some(99))).is_none());
    let info = info_of(maid.handle_event(Event::Done(3)));
    assert_eq!(info.output_name, "unknown");
    assert_eq!(row_of(&maid, 3).unwrap().3, "unknown");
    assert_eq!(maid.get_active().unwrap().output_name, "unknown");
}

#[test]
fn removed_output_resolves_to_sentinel() {
    let mut maid = editor_on_edp1();
    assert!(maid.handle_event(Event::OutputRemoved(7)).is_none());
    assert_eq!(maid.get_active().unwrap().output_name, "unknown");
    assert_eq!(row_of(&maid, 1).unwrap().3, "unknown");
}

#[test]
fn output_rename_takes_effect() {
    let mut maid = editor_on_edp1();
    assert!(maid.handle_event(Event::OutputNew(7, "HDMI-A-1".to_string())).is_none());
    assert_eq!(maid.get_active().unwrap().output_name, "HDMI-A-1");
}

#[test]
fn losing_active_flag_clears_display_but_keeps_output() {
    let mut maid = editor_on_edp1();
    assert!(maid.handle_event(Event::State(1, vec![State::Minimized])).is_none());
    let info = info_of(maid.handle_event(Event::Done(1)));
    assert_eq!(info.title, "");
    assert_eq!(info.app_id, "");
    assert_eq!(info.output_name, "eDP-1");
}

#[test]
fn active_moves_to_successor() {
    let mut maid = editor_on_edp1();
    assert!(maid.handle_event(Event::New(2)).is_none());
    assert!(maid.handle_event(Event::Title(2, "Browser".to_string())).is_none());
    assert!(maid.handle_event(Event::State(2, active_flags())).is_none());
    let info = info_of(maid.handle_event(Event::Done(2)));
    assert_eq!(info.title, "Browser");
    assert_eq!(info.output_name, "unknown");
    // The old window's attribute bursts no longer notify.
    assert!(maid.handle_event(Event::Title(1, "late".to_string())).is_none());
    assert!(maid.handle_event(Event::Done(1)).is_none());
}

#[test]
fn list_reports_every_tracked_window_once() {
    let mut maid = editor_on_edp1();
    assert!(maid.handle_event(Event::New(2)).is_none());
    assert!(maid.handle_event(Event::State(2, vec![State::Maximized, State::Fullscreen])).is_none());
    let rows = maid.list();
    assert_eq!(rows.len(), 2);
    let mut ids: Vec<u32> = rows.iter().map(|r| r.0).collect();
    ids.sort();
    assert_eq!(ids, vec![1, 2]);
    let row1 = row_of(&maid, 1).unwrap();
    assert_eq!(row1, (1, "Editor".to_string(), "editor".to_string(), "eDP-1".to_string(), vec![2]));
    let row2 = row_of(&maid, 2).unwrap();
    assert_eq!(row2.4, vec![0, 3]);
}

#[test]
fn close_active_names_the_tracked_window() {
    let maid = editor_on_edp1();
    assert_eq!(maid.close_active(), Action::Close(1));
}

#[test]
fn close_active_before_any_activation_uses_sentinel_id() {
    let maid = TopMaid::new();
    assert_eq!(maid.close_active(), Action::Close(0));
}

#[test]
fn query_before_any_activation_is_an_explicit_absence() {
    let mut maid = TopMaid::new();
    assert!(maid.get_active().is_none());
    // A window existing, or even closing, does not invent an active one.
    assert!(maid.handle_event(Event::New(5)).is_none());
    assert!(maid.handle_event(Event::Closed(5)).is_none());
    assert!(maid.get_active().is_none());
}

#[test]
fn snapshot_survives_close_until_queried() {
    let mut maid = editor_on_edp1();
    let _ = maid.handle_event(Event::Closed(1));
    // The retained record still answers for the output name.
    let a = maid.get_active().expect("close left a reportable output");
    assert_eq!(a.title, "");
    assert_eq!(a.app_id, "");
    assert_eq!(a.output_name, "eDP-1");
}

/// Two closures back to back before any `Done`, on different outputs: the
/// one-slot `just_closed` cache is overwritten unconditionally, so the later
/// closure's output wins the fallback.  This documents the cache's eviction
/// rule for a race the protocol is not expected to exercise.
#[test]
fn back_to_back_closures_keep_only_the_last_record() {
    let mut maid = editor_on_edp1();
    assert!(maid.handle_event(Event::OutputNew(8, "DP-2".to_string())).is_none());
    assert!(maid.handle_event(Event::New(2)).is_none());
    assert!(maid.handle_event(Event::Output(2, Some(8))).is_none());
    let info = info_of(maid.handle_event(Event::Closed(1)));
    assert_eq!(info.output_name, "eDP-1");
    // Window 2 was never active: its closure emits nothing but evicts the
    // retained record.
    assert!(maid.handle_event(Event::Closed(2)).is_none());
    assert_eq!(maid.get_active().unwrap().output_name, "DP-2");
}
