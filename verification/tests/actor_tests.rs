//! The actor's message handlers and the full load–resize–reflow cycle.

use script_task::messages::{Action, EventAnswers, Incoming, InputEvent, LoadOutcome, NewLayoutInfo, ScriptMsg, Verdict};
use script_task::task::ScriptTask;
use script_task::types::{DamageLevel, NavigationDirection, PageUrl, ReadyState, UrlEntry, WindowSize};

fn url(address: u64) -> PageUrl {
    PageUrl { address, fragment: None }
}

fn size(w: u32, h: u32) -> WindowSize {
    WindowSize { width: w, height: h }
}

fn outcome() -> LoadOutcome {
    LoadOutcome {
        window: 100,
        document: 101,
        root_element: Some(102),
        stylesheets: vec![],
        scripts: vec![],
        fragment_node: None,
    }
}

#[test]
fn load_then_resize_issues_one_stamped_reflow() {
    // the full cycle: load completes, one resize arrives and is drained,
    // exactly one reflow goes out with the accumulated damage taken, and the
    // matching completion clears the in-flight state
    let mut task = ScriptTask::new(0, 70, None, 9);

    let o = task.handle_msgs(vec![Incoming {
        msg: ScriptMsg::LoadMsg(0, url(1)),
        load: Some(outcome()),
        event: EventAnswers::none(),
        fragment_node: None,
    }]);
    assert_eq!(o.verdict, Verdict::Proceed);
    assert!(o.actions.contains(&Action::LoadComplete { page: 0, url: url(1) }));
    assert!(!o.actions.iter().any(|a| matches!(a, Action::SendReflow { .. })));

    let o2 = task.handle_msgs(vec![
        Incoming::plain(ScriptMsg::ResizeMsg(0, size(800, 600))),
    ]);
    assert_eq!(o2.verdict, Verdict::Proceed);
    let o3 = task.handle_msgs(vec![]);
    assert_eq!(o3.resize_dispatches, vec![(0, size(800, 600))]);
    let reflows: Vec<&Action> = o3.actions.iter()
        .filter(|a| matches!(a, Action::SendReflow { .. }))
        .collect();
    assert_eq!(reflows.len(), 1);
    match reflows[0] {
        Action::SendReflow { layout, request } => {
            assert_eq!(*layout, 70);
            assert_eq!(request.id, 1);
            assert_eq!(request.window_size, size(800, 600));
            assert_eq!(request.url, url(1));
        }
        _ => unreachable!(),
    }
    assert_eq!(task.tree.pages[0].page.damage, None);
    assert!(task.tree.pages[0].page.reflow_in_flight);

    let o4 = task.handle_msgs(vec![
        Incoming::plain(ScriptMsg::ReflowCompleteMsg(0, 1)),
    ]);
    assert_eq!(o4.verdict, Verdict::Proceed);
    assert!(!task.tree.pages[0].page.reflow_in_flight);
    assert!(o4.actions.contains(&Action::SetReadyState { state: ReadyState::FinishedLoading }));
}

#[test]
fn stale_reflow_complete_leaves_in_flight_state_unchanged() {
    let mut task = ScriptTask::new(0, 70, Some(size(800, 600)), 9);
    let (_, v) = task.handle_load(0, url(1), outcome());
    assert_eq!(v, Verdict::Proceed);
    task.tree.pages[0].page.last_reflow_id = 5;
    task.tree.pages[0].page.reflow_in_flight = true;

    let (a, v) = task.handle_reflow_complete_msg(0, 3);
    assert_eq!(v, Verdict::Proceed);
    assert!(task.tree.pages[0].page.reflow_in_flight);
    assert_eq!(a, vec![Action::SetReadyState { state: ReadyState::FinishedLoading }]);

    let (_, v) = task.handle_reflow_complete_msg(0, 5);
    assert_eq!(v, Verdict::Proceed);
    assert!(!task.tree.pages[0].page.reflow_in_flight);
}

#[test]
fn reflow_complete_for_unknown_pipeline_is_fatal() {
    let mut task = ScriptTask::new(0, 70, None, 9);
    let (a, v) = task.handle_reflow_complete_msg(42, 1);
    assert_eq!(v, Verdict::Fatal);
    assert!(a.is_empty());
}

#[test]
fn full_load_streams_stylesheets_and_scripts_in_order() {
    let mut task = ScriptTask::new(0, 70, None, 9);
    let (a, v) = task.handle_load(0, url(1), LoadOutcome {
        window: 100,
        document: 101,
        root_element: Some(102),
        stylesheets: vec![5, 6],
        scripts: vec![7],
        fragment_node: None,
    });
    assert_eq!(v, Verdict::Proceed);
    assert_eq!(a, vec![
        Action::SetReadyState { state: ReadyState::Loading },
        Action::AddStylesheet { layout: 70, sheet: 5 },
        Action::AddStylesheet { layout: 70, sheet: 6 },
        Action::EvaluateScript { page: 0, script: 7 },
        Action::DispatchLoadEvent { page: 0, document: 101, window: 100 },
        Action::LoadComplete { page: 0, url: url(1) },
    ]);
    assert_eq!(
        task.tree.pages[0].page.url,
        Some(UrlEntry { url: url(1), needs_reflow: false })
    );
    assert!(task.tree.pages[0].page.frame.is_some());
}

#[test]
fn load_resolves_fragment_target_only_with_fragment() {
    let mut task = ScriptTask::new(0, 70, None, 9);
    let with_fragment = PageUrl { address: 1, fragment: Some(77) };
    let mut oc = outcome();
    oc.fragment_node = Some(55);
    let (_, v) = task.handle_load(0, with_fragment, oc);
    assert_eq!(v, Verdict::Proceed);
    assert_eq!(task.tree.pages[0].page.fragment_node, Some(55));

    let mut task2 = ScriptTask::new(0, 70, None, 9);
    let mut oc2 = outcome();
    oc2.fragment_node = Some(55);
    let (_, v2) = task2.handle_load(0, url(1), oc2);
    assert_eq!(v2, Verdict::Proceed);
    assert_eq!(task2.tree.pages[0].page.fragment_node, None);
}

#[test]
fn reloading_same_url_skips_the_document_build() {
    let mut task = ScriptTask::new(0, 70, Some(size(800, 600)), 9);
    let (_, v) = task.handle_load(0, url(1), outcome());
    assert_eq!(v, Verdict::Proceed);
    let (a, v) = task.handle_load(0, url(1), outcome());
    assert_eq!(v, Verdict::Proceed);
    // the cache said no reflow is owed: the fast path does nothing
    assert!(a.is_empty());
}

#[test]
fn reloading_after_inactive_resize_reflows_once() {
    let mut task = ScriptTask::new(0, 70, Some(size(800, 600)), 9);
    let (_, v) = task.handle_load(0, url(1), outcome());
    assert_eq!(v, Verdict::Proceed);
    // an inactive resize marks the cached URL as needing a reflow on reload
    let v = task.handle_resize_inactive_msg(0, size(1024, 768));
    assert_eq!(v, Verdict::Proceed);
    assert_eq!(task.tree.pages[0].page.window_size, Some(size(1024, 768)));
    assert_eq!(
        task.tree.pages[0].page.url,
        Some(UrlEntry { url: url(1), needs_reflow: true })
    );

    let (a, v) = task.handle_load(0, url(1), outcome());
    assert_eq!(v, Verdict::Proceed);
    let reflows: Vec<&Action> = a.iter()
        .filter(|x| matches!(x, Action::SendReflow { .. }))
        .collect();
    assert_eq!(reflows.len(), 1);
    match reflows[0] {
        Action::SendReflow { request, .. } => {
            assert_eq!(request.damage.level, DamageLevel::ContentChangedDocumentDamage);
        }
        _ => unreachable!(),
    }
    assert_eq!(
        task.tree.pages[0].page.url,
        Some(UrlEntry { url: url(1), needs_reflow: false })
    );
}

#[test]
fn load_for_unknown_pipeline_is_fatal() {
    let mut task = ScriptTask::new(0, 70, None, 9);
    let (a, v) = task.handle_load(42, url(1), outcome());
    assert_eq!(v, Verdict::Fatal);
    assert!(a.is_empty());
}

#[test]
fn attach_layout_creates_nested_context() {
    let mut task = ScriptTask::new(0, 70, Some(size(800, 600)), 9);
    let v = task.handle_new_layout(NewLayoutInfo {
        old_pipeline_id: 0,
        new_pipeline_id: 1,
        subpage_id: 4,
        layout_chan: 71,
    });
    assert_eq!(v, Verdict::Proceed);
    assert_eq!(task.tree.preorder_ids(), vec![0, 1]);
    let child = &task.tree.pages[1].page;
    assert_eq!(child.subpage_id, Some(4));
    assert_eq!(child.layout_chan, 71);
    assert_eq!(child.window_size, Some(size(800, 600)));
    assert!(child.frame.is_none());
}

#[test]
fn attach_layout_under_unknown_parent_is_fatal() {
    let mut task = ScriptTask::new(0, 70, None, 9);
    let v = task.handle_new_layout(NewLayoutInfo {
        old_pipeline_id: 42,
        new_pipeline_id: 1,
        subpage_id: 0,
        layout_chan: 71,
    });
    assert_eq!(v, Verdict::Fatal);
    assert_eq!(task.tree.preorder_ids(), vec![0]);
}

#[test]
fn attach_layout_with_duplicate_pipeline_id_is_fatal() {
    let mut task = ScriptTask::new(0, 70, None, 9);
    let v = task.handle_new_layout(NewLayoutInfo {
        old_pipeline_id: 0,
        new_pipeline_id: 0,
        subpage_id: 0,
        layout_chan: 71,
    });
    assert_eq!(v, Verdict::Fatal);
}

#[test]
fn fire_timer_runs_live_callback_through_dispatch() {
    let mut task = ScriptTask::new(0, 70, Some(size(800, 600)), 9);
    let (_, v) = task.handle_load(0, url(1), outcome());
    assert_eq!(v, Verdict::Proceed);
    task.tree.pages[0].page.register_timer(5, false);
    let (a, v) = task.handle_fire_timer_msg(0, 5);
    assert_eq!(v, Verdict::Proceed);
    assert_eq!(a, vec![Action::RunTimerCallback { page: 0, timer: 5 }]);
    let (b, v) = task.handle_fire_timer_msg(0, 5);
    assert_eq!(v, Verdict::Proceed);
    assert!(b.is_empty());
}

#[test]
fn fire_timer_without_frame_is_fatal() {
    let mut task = ScriptTask::new(0, 70, None, 9);
    let (_, v) = task.handle_fire_timer_msg(0, 5);
    assert_eq!(v, Verdict::Fatal);
}

#[test]
fn navigation_and_window_close_are_forwarded() {
    let task = ScriptTask::new(0, 70, None, 9);
    assert_eq!(
        task.handle_navigate_msg(NavigationDirection::Back),
        vec![Action::Navigate { direction: NavigationDirection::Back }]
    );
    assert_eq!(task.handle_exit_window_msg(0), vec![Action::CloseWindow]);
    assert_eq!(
        task.trigger_load(0, url(3)),
        vec![Action::LoadUrl { page: 0, url: url(3) }]
    );
}

#[test]
fn fragment_navigation_scrolls_to_resolved_element() {
    let mut task = ScriptTask::new(0, 70, Some(size(800, 600)), 9);
    let (_, v) = task.handle_load(0, url(1), outcome());
    assert_eq!(v, Verdict::Proceed);
    let with_fragment = PageUrl { address: 1, fragment: Some(77) };
    let (a, v) = task.trigger_fragment(0, with_fragment, Some(55));
    assert_eq!(v, Verdict::Proceed);
    assert_eq!(a, vec![Action::ScrollToFragment { page: 0, node: 55 }]);
    // an unresolved fragment name scrolls nowhere
    let (b, v) = task.trigger_fragment(0, with_fragment, None);
    assert_eq!(v, Verdict::Proceed);
    assert!(b.is_empty());
    // a fragment navigation without a fragment is a sender bug
    let (_, v) = task.trigger_fragment(0, url(1), Some(55));
    assert_eq!(v, Verdict::Fatal);
}

#[test]
fn event_for_unknown_pipeline_is_fatal() {
    let mut task = ScriptTask::new(0, 70, None, 9);
    let (a, v) = task.handle_event(42, InputEvent::ReflowEvent, EventAnswers::none());
    assert_eq!(v, Verdict::Fatal);
    assert!(a.is_empty());
}
