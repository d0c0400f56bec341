//! Input-event dispatch: resize, click and pointer-move hover tracking.

use script_task::messages::{Action, EventAnswers, InputEvent, LoadOutcome, Verdict};
use script_task::task::ScriptTask;
use script_task::types::{PageUrl, Point, WindowSize};

fn size(w: u32, h: u32) -> WindowSize {
    WindowSize { width: w, height: h }
}

fn loaded_task() -> ScriptTask {
    let mut task = ScriptTask::new(0, 70, None, 9);
    let (_, v) = task.handle_load(0, PageUrl { address: 1, fragment: None }, LoadOutcome {
        window: 100,
        document: 101,
        root_element: Some(102),
        stylesheets: vec![],
        scripts: vec![],
        fragment_node: None,
    });
    assert_eq!(v, Verdict::Proceed);
    task
}

fn move_answers(elements: Vec<u64>) -> EventAnswers {
    EventAnswers { hit_element: None, elements_under: Some(elements) }
}

#[test]
fn resize_event_reflows_and_dispatches_window_event() {
    let mut task = loaded_task();
    let (a, v) = task.handle_event(0, InputEvent::ResizeEvent(size(800, 600)), EventAnswers::none());
    assert_eq!(v, Verdict::Proceed);
    assert_eq!(task.tree.pages[0].page.window_size, Some(size(800, 600)));
    let reflow_at = a.iter().position(|x| matches!(x, Action::SendReflow { .. }))
        .expect("resize must reflow a live frame");
    let event_at = a.iter()
        .position(|x| *x == Action::DispatchResizeEvent { page: 0, window: 100 })
        .expect("resize must dispatch the window event");
    assert!(reflow_at < event_at);
}

#[test]
fn resize_event_performs_deferred_fragment_scroll_after_reflow_request() {
    let mut task = loaded_task();
    task.tree.pages[0].page.fragment_node = Some(55);
    let (a, v) = task.handle_event(0, InputEvent::ResizeEvent(size(800, 600)), EventAnswers::none());
    assert_eq!(v, Verdict::Proceed);
    let reflow_at = a.iter().position(|x| matches!(x, Action::SendReflow { .. })).unwrap();
    let scroll_at = a.iter()
        .position(|x| *x == Action::ScrollToFragment { page: 0, node: 55 })
        .expect("the deferred fragment scroll must happen");
    assert!(reflow_at < scroll_at);
    assert_eq!(task.tree.pages[0].page.fragment_node, None);
}

#[test]
fn click_dispatches_to_nearest_element_of_hit_node() {
    let mut task = loaded_task();
    task.tree.pages[0].page.window_size = Some(size(800, 600));
    let point = Point { x: 10, y: 20 };
    let (a, v) = task.handle_event(0, InputEvent::ClickEvent(0, point), EventAnswers {
        hit_element: Some(44),
        elements_under: None,
    });
    assert_eq!(v, Verdict::Proceed);
    assert_eq!(a, vec![
        Action::QueryHitTest { layout: 70, root: 102, point },
        Action::DispatchClickEvent { page: 0, target: 44 },
    ]);
}

#[test]
fn click_that_hits_nothing_dispatches_nothing() {
    let mut task = loaded_task();
    let point = Point { x: 10, y: 20 };
    let (a, v) = task.handle_event(0, InputEvent::ClickEvent(0, point), EventAnswers::none());
    assert_eq!(v, Verdict::Proceed);
    assert_eq!(a, vec![Action::QueryHitTest { layout: 70, root: 102, point }]);
}

#[test]
fn mouse_buttons_alone_are_ignored() {
    let mut task = loaded_task();
    let point = Point { x: 1, y: 1 };
    let (a, v) = task.handle_event(0, InputEvent::MouseDownEvent(0, point), EventAnswers::none());
    assert_eq!(v, Verdict::Proceed);
    assert!(a.is_empty());
    let (a, v) = task.handle_event(0, InputEvent::MouseUpEvent(0, point), EventAnswers::none());
    assert_eq!(v, Verdict::Proceed);
    assert!(a.is_empty());
}

#[test]
fn hover_delta_updates_only_changed_elements() {
    // the pointer first hovers {n1}, then {n1, n2}: only n2's flag is set,
    // n1 is left untouched, and the changed membership requests a reflow
    let mut task = loaded_task();
    task.tree.pages[0].page.window_size = Some(size(800, 600));
    let point = Point { x: 5, y: 5 };

    let (a, v) = task.handle_event(0, InputEvent::MouseMoveEvent(point), move_answers(vec![1]));
    assert_eq!(v, Verdict::Proceed);
    assert!(a.contains(&Action::SetHoverState { node: 1, hovered: true }));
    // the first report stores the set but requests no reflow
    assert!(!a.iter().any(|x| matches!(x, Action::SendReflow { .. })));
    assert_eq!(task.mouse_over_targets, Some(vec![1]));

    let (b, v) = task.handle_event(0, InputEvent::MouseMoveEvent(point), move_answers(vec![1, 2]));
    assert_eq!(v, Verdict::Proceed);
    assert!(b.contains(&Action::SetHoverState { node: 2, hovered: true }));
    assert!(!b.iter().any(|x| matches!(x, Action::SetHoverState { node: 1, .. })));
    assert!(b.iter().any(|x| matches!(x, Action::SendReflow { .. })));
    assert_eq!(task.mouse_over_targets, Some(vec![1, 2]));
}

#[test]
fn unchanged_hover_membership_requests_no_reflow() {
    let mut task = loaded_task();
    task.tree.pages[0].page.window_size = Some(size(800, 600));
    let point = Point { x: 5, y: 5 };
    let (_, v) = task.handle_event(0, InputEvent::MouseMoveEvent(point), move_answers(vec![1, 2]));
    assert_eq!(v, Verdict::Proceed);
    let (b, v) = task.handle_event(0, InputEvent::MouseMoveEvent(point), move_answers(vec![1, 2]));
    assert_eq!(v, Verdict::Proceed);
    assert!(!b.iter().any(|x| matches!(x, Action::SendReflow { .. })));
    assert!(!b.iter().any(|x| matches!(x, Action::SetHoverState { .. })));
    assert_eq!(task.mouse_over_targets, Some(vec![1, 2]));
}

#[test]
fn hover_leaving_elements_clears_their_flags() {
    let mut task = loaded_task();
    task.tree.pages[0].page.window_size = Some(size(800, 600));
    let point = Point { x: 5, y: 5 };
    let (_, v) = task.handle_event(0, InputEvent::MouseMoveEvent(point), move_answers(vec![1, 2]));
    assert_eq!(v, Verdict::Proceed);
    let (b, v) = task.handle_event(0, InputEvent::MouseMoveEvent(point), move_answers(vec![2, 3]));
    assert_eq!(v, Verdict::Proceed);
    assert!(b.contains(&Action::SetHoverState { node: 1, hovered: false }));
    assert!(b.contains(&Action::SetHoverState { node: 3, hovered: true }));
    assert!(!b.iter().any(|x| matches!(x, Action::SetHoverState { node: 2, .. })));
    assert_eq!(task.mouse_over_targets, Some(vec![2, 3]));
}

#[test]
fn pointer_event_before_any_load_is_fatal() {
    let mut task = ScriptTask::new(0, 70, None, 9);
    let point = Point { x: 1, y: 1 };
    let (_, v) = task.handle_event(0, InputEvent::ClickEvent(0, point), EventAnswers::none());
    assert_eq!(v, Verdict::Fatal);
    let (_, v) = task.handle_event(0, InputEvent::MouseMoveEvent(point), EventAnswers::none());
    assert_eq!(v, Verdict::Fatal);
}
