//! The event batcher: resize coalescing and dispatch order.

use script_task::messages::{Action, Incoming, LoadOutcome, ScriptMsg, Verdict};
use script_task::task::ScriptTask;
use script_task::types::{PageUrl, WindowSize};

fn url(address: u64) -> PageUrl {
    PageUrl { address, fragment: None }
}

fn size(w: u32, h: u32) -> WindowSize {
    WindowSize { width: w, height: h }
}

fn loaded_task() -> ScriptTask {
    let mut task = ScriptTask::new(0, 70, None, 9);
    let outcome = LoadOutcome {
        window: 100,
        document: 101,
        root_element: Some(102),
        stylesheets: vec![],
        scripts: vec![],
        fragment_node: None,
    };
    let (_, v) = task.handle_load(0, url(1), outcome);
    assert_eq!(v, Verdict::Proceed);
    task
}

#[test]
fn burst_of_resizes_dispatches_one_event_with_last_value() {
    let mut task = loaded_task();
    let o = task.handle_msgs(vec![
        Incoming::plain(ScriptMsg::ResizeMsg(0, size(100, 100))),
        Incoming::plain(ScriptMsg::ResizeMsg(0, size(200, 200))),
        Incoming::plain(ScriptMsg::ResizeMsg(0, size(300, 300))),
    ]);
    assert_eq!(o.verdict, Verdict::Proceed);
    // the drain itself dispatches nothing: the burst is stored coalesced
    assert!(o.resize_dispatches.is_empty());
    assert_eq!(task.tree.pages[0].page.pending_resize, Some(size(300, 300)));

    // the next iteration dispatches exactly one resize event, the last value
    let o2 = task.handle_msgs(vec![]);
    assert_eq!(o2.resize_dispatches, vec![(0, size(300, 300))]);
    assert_eq!(task.tree.pages[0].page.pending_resize, None);
    let reflows: Vec<&Action> = o2.actions.iter()
        .filter(|a| matches!(a, Action::SendReflow { .. }))
        .collect();
    assert_eq!(reflows.len(), 1);
    assert_eq!(task.tree.pages[0].page.window_size, Some(size(300, 300)));
}

#[test]
fn pending_resize_waits_while_reflow_is_in_flight() {
    let mut task = loaded_task();
    task.tree.pages[0].page.reflow_in_flight = true;
    let o = task.handle_msgs(vec![
        Incoming::plain(ScriptMsg::ResizeMsg(0, size(100, 100))),
    ]);
    assert!(o.resize_dispatches.is_empty());
    // still pending: the page is busy, so the next sweep leaves it stored
    let o2 = task.handle_msgs(vec![]);
    assert!(o2.resize_dispatches.is_empty());
    assert_eq!(task.tree.pages[0].page.pending_resize, Some(size(100, 100)));
}

#[test]
fn resize_for_removed_pipeline_is_absorbed_silently() {
    let mut task = loaded_task();
    let o = task.handle_msgs(vec![
        Incoming::plain(ScriptMsg::ResizeMsg(42, size(100, 100))),
    ]);
    assert_eq!(o.verdict, Verdict::Proceed);
    assert!(o.actions.is_empty());
    assert_eq!(task.tree.pages[0].page.pending_resize, None);
}

#[test]
fn root_exit_drops_the_rest_of_the_batch() {
    let mut task = loaded_task();
    let o = task.handle_msgs(vec![
        Incoming::plain(ScriptMsg::ExitPipelineMsg(0)),
        Incoming::plain(ScriptMsg::XHRProgressMsg(7, 1)),
    ]);
    assert_eq!(o.verdict, Verdict::Stop);
    // the message behind the root exit is never dispatched
    assert!(!o.actions.contains(&Action::NotifyFetchProgress { address: 7, progress: 1 }));
    assert!(matches!(o.dispatched[..], [ScriptMsg::ExitPipelineMsg(0)]));
}

#[test]
fn fatal_violation_stops_the_batch() {
    let mut task = loaded_task();
    let o = task.handle_msgs(vec![
        Incoming::plain(ScriptMsg::ReflowCompleteMsg(42, 1)),
        Incoming::plain(ScriptMsg::XHRProgressMsg(7, 1)),
    ]);
    assert_eq!(o.verdict, Verdict::Fatal);
    assert!(!o.actions.contains(&Action::NotifyFetchProgress { address: 7, progress: 1 }));
}

#[test]
fn non_resize_messages_keep_arrival_order() {
    let mut task = loaded_task();
    let o = task.handle_msgs(vec![
        Incoming::plain(ScriptMsg::XHRProgressMsg(7, 1)),
        Incoming::plain(ScriptMsg::ResizeMsg(0, size(100, 100))),
        Incoming::plain(ScriptMsg::XHRProgressMsg(7, 2)),
    ]);
    assert_eq!(o.verdict, Verdict::Proceed);
    assert_eq!(o.actions, vec![
        Action::NotifyFetchProgress { address: 7, progress: 1 },
        Action::NotifyFetchProgress { address: 7, progress: 2 },
    ]);
    // the dispatched batch is the drain minus the coalesced resize, in order
    assert!(matches!(
        o.dispatched[..],
        [ScriptMsg::XHRProgressMsg(7, 1), ScriptMsg::XHRProgressMsg(7, 2)]
    ));
}
