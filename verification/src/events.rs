//! Input-event dispatch on a single page.
//!
//! Each handler takes the collaborator replies its decision needs (the hit
//! element of a click, the elements under the pointer) as arguments and is
//! verified for every value of them; the synchronous queries those replies
//! answer appear in the returned trace, after the join that makes them
//! observe a flushed layout.

use vstd::prelude::*;
use crate::messages::Action;
use crate::page::Page;
use crate::types::{DamageLevel, Point, ReflowGoal, WindowSize};

verus! {

/// The page state after a resize event: the new size is stored; a live frame
/// takes reflow damage and a reflow request; the deferred fragment target is
/// consumed.
pub open spec fn spec_resize_state(p: Page, new_size: WindowSize) -> Page {
    let sized = Page { window_size: Some(new_size), ..p };
    let damaged = sized.spec_add_damage(DamageLevel::ReflowDocumentDamage);
    let reflowed = damaged.spec_reflow_state(ReflowGoal::ReflowForDisplay);
    Page { fragment_node: None, ..reflowed }
}

/// The trace of a resize event: the reflow request (when the page can
/// reflow), then the deferred fragment scroll — performed once the reflow is
/// requested, not once it completes — then the script-side resize event on a
/// live frame.
pub open spec fn spec_resize_actions(p: Page, new_size: WindowSize) -> Seq<Action> {
    let sized = Page { window_size: Some(new_size), ..p };
    let damaged = sized.spec_add_damage(DamageLevel::ReflowDocumentDamage);
    damaged.spec_reflow_actions(ReflowGoal::ReflowForDisplay)
        + (match p.fragment_node {
            Some(node) => seq![(Action::ScrollToFragment { page: p.id, node })],
            None => Seq::empty(),
        })
        + (match p.frame {
            Some(f) => seq![(Action::DispatchResizeEvent { page: p.id, window: f.window })],
            None => Seq::empty(),
        })
}

/// Window was resized: store the size, reflow a live frame, perform any
/// deferred fragment scroll, and dispatch the script-side resize event.
pub fn resize_event(page: &mut Page, new_size: WindowSize) -> (a: Vec<Action>)
    requires
        old(page).wf(),
    ensures
        *final(page) == spec_resize_state(*old(page), new_size),
        a@ == spec_resize_actions(*old(page), new_size),
        final(page).wf(),
{
    page.window_size = Some(new_size);
    let mut a: Vec<Action> = Vec::new();
    if page.frame.is_some() {
        page.damage(DamageLevel::ReflowDocumentDamage);
        let mut reflow_actions = page.reflow(ReflowGoal::ReflowForDisplay);
        a.append(&mut reflow_actions);
    }
    match page.fragment_node {
        Some(node) => {
            a.push(Action::ScrollToFragment { page: page.id, node });
            page.fragment_node = None;
        }
        None => {}
    }
    match &page.frame {
        Some(f) => {
            a.push(Action::DispatchResizeEvent { page: page.id, window: f.window });
        }
        None => {}
    }
    proof {
        assert(*page == spec_resize_state(*old(page), new_size));
        assert(a@ =~= spec_resize_actions(*old(page), new_size));
    }
    a
}

/// The page state after a content-driven reflow event: selector-matching
/// damage is taken and a reflow requested, on a live frame.
pub open spec fn spec_reflow_event_state(p: Page) -> Page {
    p.spec_add_damage(DamageLevel::MatchSelectorsDocumentDamage)
        .spec_reflow_state(ReflowGoal::ReflowForDisplay)
}

/// The trace of a content-driven reflow event.
pub open spec fn spec_reflow_event_actions(p: Page) -> Seq<Action> {
    p.spec_add_damage(DamageLevel::MatchSelectorsDocumentDamage)
        .spec_reflow_actions(ReflowGoal::ReflowForDisplay)
}

/// Content changed: mark selector-matching damage and reflow the document.
pub fn reflow_event(page: &mut Page) -> (a: Vec<Action>)
    requires
        old(page).wf(),
    ensures
        *final(page) == spec_reflow_event_state(*old(page)),
        a@ == spec_reflow_event_actions(*old(page)),
        final(page).wf(),
{
    if page.frame.is_some() {
        page.damage(DamageLevel::MatchSelectorsDocumentDamage);
        page.reflow(ReflowGoal::ReflowForDisplay)
    } else {
        Vec::new()
    }
}

/// The page state after a click: the hit-test query joined any outstanding
/// reflow; nothing else changes.
pub open spec fn spec_click_state(p: Page) -> Page {
    if p.frame->Some_0.root_element is Some {
        Page { reflow_in_flight: false, ..p }
    } else {
        p
    }
}

/// The trace of a click: join, the hit-test query, and — when the hit had a
/// nearest element — the script-side click dispatch to it.
pub open spec fn spec_click_actions(p: Page, point: Point, hit_element: Option<u64>) -> Seq<Action> {
    match p.frame->Some_0.root_element {
        None => Seq::empty(),
        Some(root) => p.spec_join_actions()
            + seq![(Action::QueryHitTest { layout: p.layout_chan, root, point })]
            + (match hit_element {
                Some(target) => seq![(Action::DispatchClickEvent { page: p.id, target })],
                None => Seq::empty(),
            }),
    }
}

/// Mouse click: hit-test the point against a flushed layout and dispatch a
/// click notification to the nearest element of the hit node.
///
/// `hit_element` is the collaborators' answer to the emitted query — the
/// nearest element ancestor of the node layout reported, if any; the
/// contract holds for every answer.
pub fn click_event(page: &mut Page, point: Point, hit_element: Option<u64>) -> (a: Vec<Action>)
    requires
        old(page).frame is Some,
    ensures
        *final(page) == spec_click_state(*old(page)),
        a@ == spec_click_actions(*old(page), point, hit_element),
{
    let (mut a, result) = page.hit_test(point, hit_element);
    match result {
        Some(target) => {
            a.push(Action::DispatchClickEvent { page: page.id, target });
        }
        None => {}
    }
    proof {
        assert(a@ =~= spec_click_actions(*old(page), point, hit_element));
    }
    a
}

/// Hover flags to clear: one per entry of the previously hovered list that
/// the new list no longer contains, in the old list's order (first `k`
/// entries).
pub open spec fn spec_unhover_trace(old_list: Seq<u64>, new_list: Seq<u64>, k: int) -> Seq<Action>
    decreases k when 0 <= k <= old_list.len()
{
    if k <= 0 {
        Seq::empty()
    } else {
        spec_unhover_trace(old_list, new_list, k - 1)
            + (if new_list.contains(old_list[k - 1]) {
                Seq::empty()
            } else {
                seq![(Action::SetHoverState { node: old_list[k - 1], hovered: false })]
            })
    }
}

/// Hover flags to set: one per entry of the new list that the previously
/// hovered list did not contain, in the new list's order (first `k` entries).
pub open spec fn spec_hover_trace(old_list: Seq<u64>, new_list: Seq<u64>, k: int) -> Seq<Action>
    decreases k when 0 <= k <= new_list.len()
{
    if k <= 0 {
        Seq::empty()
    } else {
        spec_hover_trace(old_list, new_list, k - 1)
            + (if old_list.contains(new_list[k - 1]) {
                Seq::empty()
            } else {
                seq![(Action::SetHoverState { node: new_list[k - 1], hovered: true })]
            })
    }
}

/// Whether the hover membership changed: always on the first report, and
/// afterwards exactly when the two lists name different sets of elements.
pub open spec fn spec_hover_differs(targets: Option<Seq<u64>>, new_list: Seq<u64>) -> bool {
    match targets {
        None => true,
        Some(t) => t.to_set() != new_list.to_set(),
    }
}

/// The previously hovered elements, as a sequence; empty before any report.
pub open spec fn spec_targets_seq(targets: Option<Seq<u64>>) -> Seq<u64> {
    match targets {
        None => Seq::empty(),
        Some(t) => t,
    }
}

/// The page state after a pointer move, given the prior hovered set and the
/// elements now under the pointer: the area query joined any outstanding
/// reflow, and a changed hover set on a previously hovered page takes
/// selector damage and a reflow.
pub open spec fn spec_mouse_move_state(p: Page, targets: Option<Seq<u64>>, under: Option<Seq<u64>>) -> Page {
    if p.frame->Some_0.root_element is None {
        p
    } else {
        let joined = Page { reflow_in_flight: false, ..p };
        match under {
            None => joined,
            Some(new_list) => {
                if spec_hover_differs(targets, new_list) && targets is Some {
                    joined.spec_add_damage(DamageLevel::MatchSelectorsDocumentDamage)
                        .spec_reflow_state(ReflowGoal::ReflowForDisplay)
                } else {
                    joined
                }
            }
        }
    }
}

/// The stored hovered set after a pointer move: replaced exactly when the
/// membership changed.
pub open spec fn spec_mouse_move_targets(
    p: Page,
    targets: Option<Seq<u64>>,
    under: Option<Seq<u64>>,
) -> Option<Seq<u64>> {
    if p.frame->Some_0.root_element is None {
        targets
    } else {
        match under {
            None => targets,
            Some(new_list) => {
                if spec_hover_differs(targets, new_list) {
                    Some(new_list)
                } else {
                    targets
                }
            }
        }
    }
}

/// The trace of a pointer move: join and area query; hover-flag updates on
/// the symmetric difference only; and, when the membership changed on a
/// previously hovered page, a reflow request.
pub open spec fn spec_mouse_move_actions(
    p: Page,
    targets: Option<Seq<u64>>,
    point: Point,
    under: Option<Seq<u64>>,
) -> Seq<Action> {
    match p.frame->Some_0.root_element {
        None => Seq::empty(),
        Some(root) => p.spec_join_actions()
            + seq![(Action::QueryNodesUnderPoint { layout: p.layout_chan, root, point })]
            + (match under {
                None => Seq::empty(),
                Some(new_list) => {
                    let old_list = spec_targets_seq(targets);
                    spec_unhover_trace(old_list, new_list, old_list.len() as int)
                        + spec_hover_trace(old_list, new_list, new_list.len() as int)
                        + (if spec_hover_differs(targets, new_list) && targets is Some {
                            let joined = Page { reflow_in_flight: false, ..p };
                            joined.spec_add_damage(DamageLevel::MatchSelectorsDocumentDamage)
                                .spec_reflow_actions(ReflowGoal::ReflowForDisplay)
                        } else {
                            Seq::empty()
                        })
                }
            }),
    }
}

/// True when the vector holds the value.
fn vec_contains(v: &Vec<u64>, x: u64) -> (r: bool)
    ensures
        r == v@.contains(x),
{
    let mut i: usize = 0;
    while i < v.len()
        invariant
            0 <= i <= v@.len(),
            forall|k: int| 0 <= k < i ==> v@[k] != x,
        decreases v@.len() - i,
    {
        if v[i] == x {
            return true;
        }
        i = i + 1;
    }
    false
}

/// True when the two vectors hold the same set of values.
fn same_value_set(a: &Vec<u64>, b: &Vec<u64>) -> (r: bool)
    ensures
        r == (a@.to_set() == b@.to_set()),
{
    let mut i: usize = 0;
    while i < a.len()
        invariant
            0 <= i <= a@.len(),
            forall|k: int| 0 <= k < i ==> b@.contains(#[trigger] a@[k]),
        decreases a@.len() - i,
    {
        if !vec_contains(b, a[i]) {
            proof {
                assert(a@.to_set().contains(a@[i as int]));
                assert(!b@.to_set().contains(a@[i as int]));
            }
            return false;
        }
        i = i + 1;
    }
    let mut j: usize = 0;
    while j < b.len()
        invariant
            0 <= j <= b@.len(),
            forall|k: int| 0 <= k < b@.len() ==> a@.contains(#[trigger] b@[k]) || k >= j,
            forall|k: int| 0 <= k < a@.len() ==> b@.contains(#[trigger] a@[k]),
        decreases b@.len() - j,
    {
        if !vec_contains(a, b[j]) {
            proof {
                assert(b@.to_set().contains(b@[j as int]));
                assert(!a@.to_set().contains(b@[j as int]));
            }
            return false;
        }
        j = j + 1;
    }
    proof {
        assert forall|x: u64| a@.to_set().contains(x) implies b@.to_set().contains(x) by {
            let k = choose|k: int| 0 <= k < a@.len() && a@[k] == x;
            assert(b@.contains(a@[k]));
        }
        assert forall|x: u64| b@.to_set().contains(x) implies a@.to_set().contains(x) by {
            let k = choose|k: int| 0 <= k < b@.len() && b@[k] == x;
            assert(a@.contains(b@[k]));
        }
        assert(a@.to_set() =~= b@.to_set());
    }
    true
}

/// The view of the stored hovered set.
pub open spec fn targets_view(targets: Option<Vec<u64>>) -> Option<Seq<u64>> {
    match targets {
        None => None,
        Some(t) => Some(t@),
    }
}

/// Pointer moved: query the elements under the point against a flushed
/// layout, update hover flags on the symmetric difference against the
/// previously hovered set, and — only when the membership changed — mark
/// selector damage, reflow, and store the new set.
///
/// `under` is the collaborators' answer to the emitted area query, each hit
/// node already walked up to its nearest element; the contract holds for
/// every answer.
pub fn mouse_move_event(
    page: &mut Page,
    targets: &mut Option<Vec<u64>>,
    point: Point,
    under: Option<Vec<u64>>,
) -> (a: Vec<Action>)
    requires
        old(page).frame is Some,
        old(page).wf(),
    ensures
        *final(page) == spec_mouse_move_state(*old(page), targets_view(*old(targets)), targets_view(under)),
        targets_view(*final(targets)) == spec_mouse_move_targets(
            *old(page), targets_view(*old(targets)), targets_view(under)),
        a@ == spec_mouse_move_actions(
            *old(page), targets_view(*old(targets)), point, targets_view(under)),
        final(page).wf(),
{
    let (mut a, result) = page.get_nodes_under_mouse(point, under);
    let new_list = match result {
        None => {
            proof {
                assert(a@ =~= spec_mouse_move_actions(
                    *old(page), targets_view(*old(targets)), point, targets_view(under)));
            }
            return a;
        }
        Some(new_list) => new_list,
    };
    let ghost old_targets = targets_view(*old(targets));
    let ghost old_seq = spec_targets_seq(old_targets);
    let had_targets = targets.is_some();
    // clear hover on elements the pointer left
    let ghost base0 = a@;
    match targets {
        Some(old_list) => {
            let mut k: usize = 0;
            while k < old_list.len()
                invariant
                    0 <= k <= old_list@.len(),
                    old_list@ == old_seq,
                    a@ =~= base0 + spec_unhover_trace(old_seq, new_list@, k as int),
                decreases old_list@.len() - k,
            {
                if !vec_contains(&new_list, old_list[k]) {
                    a.push(Action::SetHoverState { node: old_list[k], hovered: false });
                }
                k = k + 1;
            }
        }
        None => {}
    }
    proof {
        assert(a@ =~= base0 + spec_unhover_trace(old_seq, new_list@, old_seq.len() as int));
    }
    // set hover on elements the pointer entered
    let ghost base = a@;
    let mut k: usize = 0;
    while k < new_list.len()
        invariant
            0 <= k <= new_list@.len(),
            a@ =~= base + spec_hover_trace(old_seq, new_list@, k as int),
            targets_view(*targets) == old_targets,
            old_seq == spec_targets_seq(old_targets),
        decreases new_list@.len() - k,
    {
        let contained = match targets {
            Some(old_list) => vec_contains(old_list, new_list[k]),
            None => false,
        };
        if !contained {
            a.push(Action::SetHoverState { node: new_list[k], hovered: true });
        }
        k = k + 1;
    }
    // reflow and store only when the hover membership changed
    let differs = match targets {
        Some(old_list) => !same_value_set(old_list, &new_list),
        None => true,
    };
    if differs {
        if had_targets {
            page.damage(DamageLevel::MatchSelectorsDocumentDamage);
            let mut reflow_actions = page.reflow(ReflowGoal::ReflowForDisplay);
            a.append(&mut reflow_actions);
        }
        *targets = Some(new_list);
    }
    proof {
        assert(a@ =~= spec_mouse_move_actions(
            *old(page), old_targets, point, targets_view(under)));
    }
    a
}

} // verus!
