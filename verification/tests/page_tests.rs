//! Per-page state: damage merging, the reflow protocol, timers, queries.

use script_task::messages::Action;
use script_task::page::Page;
use script_task::types::{DamageLevel, DocumentDamage, Frame, PageUrl, Point, ReflowGoal, UrlEntry, WindowSize};

fn url(address: u64) -> PageUrl {
    PageUrl { address, fragment: None }
}

fn loaded_page(id: u64) -> Page {
    let mut p = Page::new(id, None, 70, Some(WindowSize { width: 800, height: 600 }), 9);
    p.frame = Some(Frame { document: 100, window: 101, root_element: Some(102) });
    p.url = Some(UrlEntry { url: url(1), needs_reflow: false });
    p
}

#[test]
fn damage_installs_when_none_pending() {
    let mut p = loaded_page(1);
    p.damage(DamageLevel::ReflowDocumentDamage);
    assert_eq!(
        p.damage,
        Some(DocumentDamage { root: 102, level: DamageLevel::ReflowDocumentDamage })
    );
}

#[test]
fn damage_merge_keeps_most_severe_level() {
    let mut p = loaded_page(1);
    p.damage(DamageLevel::ContentChangedDocumentDamage);
    p.damage(DamageLevel::ReflowDocumentDamage);
    assert_eq!(
        p.damage,
        Some(DocumentDamage { root: 102, level: DamageLevel::ContentChangedDocumentDamage })
    );
    p.damage(DamageLevel::MatchSelectorsDocumentDamage);
    assert_eq!(
        p.damage,
        Some(DocumentDamage { root: 102, level: DamageLevel::ContentChangedDocumentDamage })
    );
}

#[test]
fn damage_merge_replaces_root_with_latest() {
    let mut p = loaded_page(1);
    p.damage(DamageLevel::ReflowDocumentDamage);
    // the document's root element changed before more damage arrived
    p.frame = Some(Frame { document: 100, window: 101, root_element: Some(202) });
    p.damage(DamageLevel::MatchSelectorsDocumentDamage);
    assert_eq!(
        p.damage,
        Some(DocumentDamage { root: 202, level: DamageLevel::MatchSelectorsDocumentDamage })
    );
}

#[test]
fn damage_without_frame_is_a_no_op() {
    let mut p = Page::new(1, None, 70, None, 9);
    p.damage(DamageLevel::ContentChangedDocumentDamage);
    assert_eq!(p.damage, None);
}

#[test]
fn reflow_sends_stamped_request_and_takes_damage() {
    let mut p = loaded_page(1);
    p.damage(DamageLevel::ReflowDocumentDamage);
    let a = p.reflow(ReflowGoal::ReflowForDisplay);
    assert_eq!(a.len(), 2);
    assert!(matches!(a[0], Action::SetReadyState { .. }));
    match a[1] {
        Action::SendReflow { layout, request } => {
            assert_eq!(layout, 70);
            assert_eq!(request.page, 1);
            assert_eq!(request.document_root, 102);
            assert_eq!(request.id, 1);
            assert_eq!(request.window_size, WindowSize { width: 800, height: 600 });
            assert_eq!(
                request.damage,
                DocumentDamage { root: 102, level: DamageLevel::ReflowDocumentDamage }
            );
        }
        _ => panic!("second action must be the reflow request"),
    }
    assert!(p.reflow_in_flight);
    assert_eq!(p.last_reflow_id, 1);
    assert_eq!(p.damage, None);
}

#[test]
fn second_reflow_joins_the_outstanding_one_first() {
    let mut p = loaded_page(1);
    p.damage(DamageLevel::ReflowDocumentDamage);
    let first = p.reflow(ReflowGoal::ReflowForDisplay);
    assert!(!first.iter().any(|a| matches!(a, Action::JoinLayout { .. })));
    p.damage(DamageLevel::MatchSelectorsDocumentDamage);
    let second = p.reflow(ReflowGoal::ReflowForDisplay);
    assert_eq!(second[0], Action::JoinLayout { page: 1 });
    assert!(matches!(second[2], Action::SendReflow { .. }));
    match second[2] {
        Action::SendReflow { request, .. } => assert_eq!(request.id, 2),
        _ => unreachable!(),
    }
}

#[test]
fn reflow_without_frame_or_size_is_dropped() {
    let mut p = Page::new(1, None, 70, None, 9);
    assert!(p.reflow(ReflowGoal::ReflowForDisplay).is_empty());
    assert!(!p.reflow_in_flight);
    assert_eq!(p.last_reflow_id, 0);

    let mut q = loaded_page(2);
    q.window_size = None;
    q.damage(DamageLevel::ReflowDocumentDamage);
    assert!(q.reflow(ReflowGoal::ReflowForDisplay).is_empty());
    assert!(!q.reflow_in_flight);
}

#[test]
fn join_layout_emits_join_only_when_outstanding() {
    let mut p = loaded_page(1);
    assert!(p.join_layout().is_empty());
    p.reflow_in_flight = true;
    let a = p.join_layout();
    assert_eq!(a, vec![Action::JoinLayout { page: 1 }]);
    assert!(!p.reflow_in_flight);
}

#[test]
fn subpage_id_allocator_is_monotonic() {
    let mut p = loaded_page(1);
    assert_eq!(p.get_next_subpage_id(), 0);
    assert_eq!(p.get_next_subpage_id(), 1);
    assert_eq!(p.get_next_subpage_id(), 2);
    assert_eq!(p.next_subpage_id, 3);
}

#[test]
fn one_shot_timer_fires_once_and_leaves_the_table() {
    let mut p = loaded_page(1);
    p.register_timer(5, false);
    p.register_timer(6, true);
    let a = p.fire_timer(5);
    assert_eq!(a, vec![Action::RunTimerCallback { page: 1, timer: 5 }]);
    assert_eq!(p.timers.len(), 1);
    let again = p.fire_timer(5);
    assert!(again.is_empty());
}

#[test]
fn interval_timer_stays_after_firing() {
    let mut p = loaded_page(1);
    p.register_timer(6, true);
    let a = p.fire_timer(6);
    assert_eq!(a, vec![Action::RunTimerCallback { page: 1, timer: 6 }]);
    let b = p.fire_timer(6);
    assert_eq!(b, vec![Action::RunTimerCallback { page: 1, timer: 6 }]);
    assert_eq!(p.timers.len(), 1);
}

#[test]
fn hit_test_joins_and_poses_query() {
    let mut p = loaded_page(1);
    p.reflow_in_flight = true;
    let point = Point { x: 4, y: 5 };
    let (a, result) = p.hit_test(point, Some(55));
    assert_eq!(a[0], Action::JoinLayout { page: 1 });
    assert_eq!(a[1], Action::QueryHitTest { layout: 70, root: 102, point });
    assert_eq!(result, Some(55));
    assert!(!p.reflow_in_flight);
}

#[test]
fn queries_answer_nothing_without_document_root() {
    let mut p = loaded_page(1);
    p.frame = Some(Frame { document: 100, window: 101, root_element: None });
    let point = Point { x: 0, y: 0 };
    let (a, result) = p.hit_test(point, Some(55));
    assert!(a.is_empty());
    assert_eq!(result, None);
    let (b, nodes) = p.get_nodes_under_mouse(point, Some(vec![1, 2]));
    assert!(b.is_empty());
    assert_eq!(nodes, None);
}

#[test]
fn accessors_expose_the_fields() {
    let mut p = loaded_page(1);
    assert_eq!(*p.frame(), Some(Frame { document: 100, window: 101, root_element: Some(102) }));
    assert_eq!(p.get_url(), url(1));
    assert_eq!(*p.url(), Some(UrlEntry { url: url(1), needs_reflow: false }));
    assert!(p.js_info().is_some());
    *p.mut_frame() = None;
    assert_eq!(*p.frame(), None);
    *p.mut_js_info() = None;
    assert!(p.js_info().is_none());
    *p.mut_url() = None;
    assert!(p.url().is_none());
}
