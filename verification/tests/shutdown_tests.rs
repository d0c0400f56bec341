//! The ordered teardown protocol and the crash-safety guard.

use script_task::messages::{Action, LoadOutcome, NewLayoutInfo, Verdict};
use script_task::task::ScriptTask;
use script_task::types::{PageUrl, WindowSize};

fn size(w: u32, h: u32) -> WindowSize {
    WindowSize { width: w, height: h }
}

fn two_page_task() -> ScriptTask {
    let mut task = ScriptTask::new(0, 70, Some(size(800, 600)), 9);
    let v = task.handle_new_layout(NewLayoutInfo {
        old_pipeline_id: 0,
        new_pipeline_id: 1,
        subpage_id: 0,
        layout_chan: 71,
    });
    assert_eq!(v, Verdict::Proceed);
    task
}

#[test]
fn root_exit_tears_the_whole_tree_down_in_phase_order() {
    let mut task = two_page_task();
    task.tree.pages[0].page.reflow_in_flight = true;

    let (a, v) = task.handle_exit_pipeline_msg(0);
    assert_eq!(v, Verdict::Stop);
    assert_eq!(a, vec![
        Action::JoinLayout { page: 0 },
        Action::PrepareToExit { layout: 70, page: 0 },
        Action::PrepareToExit { layout: 71, page: 1 },
        Action::ClearFrame { page: 0 },
        Action::ClearFrame { page: 1 },
        Action::ReleaseContext { page: 0 },
        Action::ReleaseContext { page: 1 },
        Action::CollectGarbage,
        Action::ExitNow { layout: 70, page: 0 },
        Action::ExitNow { layout: 71, page: 1 },
    ]);
    for node in &task.tree.pages {
        assert!(node.page.frame.is_none());
        assert!(node.page.js_info.is_none());
        assert!(!node.page.reflow_in_flight);
    }
    assert!(task.js_context.is_none());
}

#[test]
fn exit_now_never_precedes_any_context_release() {
    let mut task = two_page_task();
    let (a, _) = task.handle_exit_pipeline_msg(0);
    let first_exit = a.iter().position(|x| matches!(x, Action::ExitNow { .. })).unwrap();
    let last_release = a.iter().rposition(|x| matches!(x, Action::ReleaseContext { .. })).unwrap();
    let collect = a.iter().position(|x| *x == Action::CollectGarbage).unwrap();
    assert!(last_release < collect);
    assert!(collect < first_exit);
}

#[test]
fn non_root_exit_removes_only_that_subtree() {
    let mut task = two_page_task();
    let (a, v) = task.handle_exit_pipeline_msg(1);
    assert_eq!(v, Verdict::Proceed);
    assert_eq!(task.tree.preorder_ids(), vec![0]);
    assert!(task.js_context.is_some());
    assert_eq!(a, vec![
        Action::PrepareToExit { layout: 71, page: 1 },
        Action::ClearFrame { page: 1 },
        Action::ReleaseContext { page: 1 },
        Action::CollectGarbage,
        Action::ExitNow { layout: 71, page: 1 },
    ]);
}

#[test]
fn exit_of_already_removed_pipeline_is_benign() {
    let mut task = two_page_task();
    let (_, v) = task.handle_exit_pipeline_msg(1);
    assert_eq!(v, Verdict::Proceed);
    let (a, v) = task.handle_exit_pipeline_msg(1);
    assert_eq!(v, Verdict::Proceed);
    assert!(a.is_empty());
    assert_eq!(task.tree.preorder_ids(), vec![0]);
}

#[test]
fn abnormal_exit_releases_every_context_exactly_once() {
    // a simulated failure mid-load: the guard fires and releases each page's
    // script-execution state exactly once; a second fire releases nothing
    let mut task = two_page_task();
    let (_, v) = task.handle_load(0, PageUrl { address: 1, fragment: None }, LoadOutcome {
        window: 100,
        document: 101,
        root_element: Some(102),
        stylesheets: vec![],
        scripts: vec![],
        fragment_node: None,
    });
    assert_eq!(v, Verdict::Proceed);

    let a = task.failsafe_fire();
    assert_eq!(a, vec![
        Action::ReleaseContext { page: 0 },
        Action::ReleaseContext { page: 1 },
    ]);
    assert!(task.js_context.is_none());
    for node in &task.tree.pages {
        assert!(node.page.js_info.is_none());
    }

    let again = task.failsafe_fire();
    assert!(again.is_empty());
}

#[test]
fn disarmed_guard_never_releases() {
    // the normal exit path: teardown released everything, the guard is then
    // disarmed, so it cannot release a second time
    let mut task = two_page_task();
    let (a, v) = task.handle_exit_pipeline_msg(0);
    assert_eq!(v, Verdict::Stop);
    let releases = a.iter().filter(|x| matches!(x, Action::ReleaseContext { .. })).count();
    assert_eq!(releases, 2);
    task.neuter();
    let b = task.failsafe_fire();
    assert!(b.is_empty());
}

#[test]
fn guard_on_partly_released_tree_releases_only_live_pages() {
    let mut task = two_page_task();
    task.tree.pages[0].page.js_info = None;
    let a = task.failsafe_fire();
    assert_eq!(a, vec![Action::ReleaseContext { page: 1 }]);
}
