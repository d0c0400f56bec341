//! The ordered teardown protocol for a subtree of pages.
//!
//! Shutting a subtree down performs, in this order and only this order:
//! join every outstanding reflow and collect every layout worker's
//! prepare-to-exit acknowledgement; clear every frame; release every page's
//! script-execution state; force a collection on the shared runtime; and only
//! then tell every layout worker to exit.  Violating the order risks the
//! rendering worker dereferencing released document state;
//! [`lemma_release_precedes_exit`] proves the critical consequence.

use vstd::prelude::*;
use crate::messages::Action;
use crate::page::Page;
use crate::tree::{PageNode, PageTree};

verus! {

/// Phase one of the teardown trace, over the first `k` pages: per page in
/// preorder, join any outstanding reflow, then await the layout worker's
/// prepare-to-exit acknowledgement.
pub open spec fn spec_join_prepare_trace(s: Seq<PageNode>, k: int) -> Seq<Action>
    decreases k when 0 <= k <= s.len()
{
    if k <= 0 {
        Seq::empty()
    } else {
        spec_join_prepare_trace(s, k - 1)
            + s[k - 1].page.spec_join_actions()
            + seq![(Action::PrepareToExit {
                layout: s[k - 1].page.layout_chan,
                page: s[k - 1].page.id,
            })]
    }
}

/// Phase two of the teardown trace: clear every frame, in preorder.
pub open spec fn spec_clear_frame_trace(s: Seq<PageNode>, k: int) -> Seq<Action>
    decreases k when 0 <= k <= s.len()
{
    if k <= 0 {
        Seq::empty()
    } else {
        spec_clear_frame_trace(s, k - 1)
            + seq![(Action::ClearFrame { page: s[k - 1].page.id })]
    }
}

/// Phase three of the teardown trace: release the script-execution state of
/// every page that still holds one, in preorder.
pub open spec fn spec_release_trace(s: Seq<PageNode>, k: int) -> Seq<Action>
    decreases k when 0 <= k <= s.len()
{
    if k <= 0 {
        Seq::empty()
    } else {
        spec_release_trace(s, k - 1)
            + (if s[k - 1].page.js_info is Some {
                seq![(Action::ReleaseContext { page: s[k - 1].page.id })]
            } else {
                Seq::empty()
            })
    }
}

/// Phase five of the teardown trace: tell every layout worker to exit, in
/// preorder, with no acknowledgement awaited.
pub open spec fn spec_exit_trace(s: Seq<PageNode>, k: int) -> Seq<Action>
    decreases k when 0 <= k <= s.len()
{
    if k <= 0 {
        Seq::empty()
    } else {
        spec_exit_trace(s, k - 1)
            + seq![(Action::ExitNow {
                layout: s[k - 1].page.layout_chan,
                page: s[k - 1].page.id,
            })]
    }
}

/// The whole teardown trace of a subtree: joins and acknowledgements, frame
/// clears, context releases, the forced collection, and only then the exit
/// notices.
pub open spec fn spec_shutdown_trace(s: Seq<PageNode>) -> Seq<Action> {
    spec_join_prepare_trace(s, s.len() as int)
        + spec_clear_frame_trace(s, s.len() as int)
        + spec_release_trace(s, s.len() as int)
        + seq![Action::CollectGarbage]
        + spec_exit_trace(s, s.len() as int)
}

/// A page after teardown: no frame, no script-execution state, no reflow in
/// flight; everything else untouched.
pub open spec fn spec_torn_down(p: Page) -> Page {
    Page { frame: None, js_info: None, reflow_in_flight: false, ..p }
}

/// Shuts down layout for the given page tree, in the strict phase order of
/// [`spec_shutdown_trace`].  Afterwards every page of the tree has its frame
/// cleared, its script-execution state released and no reflow outstanding.
pub fn shut_down_layout(tree: &mut PageTree) -> (a: Vec<Action>)
    ensures
        a@ == spec_shutdown_trace(old(tree).pages@),
        final(tree).pages@.len() == old(tree).pages@.len(),
        forall|k: int| 0 <= k < old(tree).pages@.len() ==> #[trigger] final(tree).pages@[k] == (PageNode {
            depth: old(tree).pages@[k].depth,
            page: spec_torn_down(old(tree).pages@[k].page),
        }),
        old(tree).wf() ==> final(tree).wf(),
{
    let ghost s0 = tree.pages@;
    let mut a: Vec<Action> = Vec::new();
    let n = tree.pages.len();

    // join every outstanding reflow, then collect every worker's
    // prepare-to-exit acknowledgement
    let mut i: usize = 0;
    while i < n
        invariant
            0 <= i <= n == s0.len(),
            tree.pages@.len() == s0.len(),
            forall|m: int| 0 <= m < i ==> #[trigger] tree.pages@[m] == (PageNode {
                depth: s0[m].depth,
                page: (Page { reflow_in_flight: false, ..s0[m].page }),
            }),
            forall|m: int| i <= m < s0.len() ==> #[trigger] tree.pages@[m] == s0[m],
            a@ == spec_join_prepare_trace(s0, i as int),
        decreases n - i,
    {
        if tree.pages[i].page.reflow_in_flight {
            a.push(Action::JoinLayout { page: tree.pages[i].page.id });
            tree.pages[i].page.reflow_in_flight = false;
        }
        a.push(Action::PrepareToExit {
            layout: tree.pages[i].page.layout_chan,
            page: tree.pages[i].page.id,
        });
        proof {
            assert(a@ =~= spec_join_prepare_trace(s0, i as int + 1));
        }
        i = i + 1;
    }

    // release the script-visible document and window references
    let ghost a1 = a@;
    let mut i: usize = 0;
    while i < n
        invariant
            0 <= i <= n == s0.len(),
            tree.pages@.len() == s0.len(),
            forall|m: int| 0 <= m < i ==> #[trigger] tree.pages@[m] == (PageNode {
                depth: s0[m].depth,
                page: (Page { frame: None, reflow_in_flight: false, ..s0[m].page }),
            }),
            forall|m: int| i <= m < s0.len() ==> #[trigger] tree.pages@[m] == (PageNode {
                depth: s0[m].depth,
                page: (Page { reflow_in_flight: false, ..s0[m].page }),
            }),
            a@ == a1 + spec_clear_frame_trace(s0, i as int),
            a1 == spec_join_prepare_trace(s0, s0.len() as int),
        decreases n - i,
    {
        tree.pages[i].page.frame = None;
        a.push(Action::ClearFrame { page: tree.pages[i].page.id });
        proof {
            assert(a@ =~= a1 + spec_clear_frame_trace(s0, i as int + 1));
        }
        i = i + 1;
    }

    // release every page's script-execution state
    let ghost a2 = a@;
    let mut i: usize = 0;
    while i < n
        invariant
            0 <= i <= n == s0.len(),
            tree.pages@.len() == s0.len(),
            forall|m: int| 0 <= m < i ==> #[trigger] tree.pages@[m] == (PageNode {
                depth: s0[m].depth,
                page: spec_torn_down(s0[m].page),
            }),
            forall|m: int| i <= m < s0.len() ==> #[trigger] tree.pages@[m] == (PageNode {
                depth: s0[m].depth,
                page: (Page { frame: None, reflow_in_flight: false, ..s0[m].page }),
            }),
            a@ == a2 + spec_release_trace(s0, i as int),
            a2 == spec_join_prepare_trace(s0, s0.len() as int)
                + spec_clear_frame_trace(s0, s0.len() as int),
        decreases n - i,
    {
        if tree.pages[i].page.js_info.is_some() {
            a.push(Action::ReleaseContext { page: tree.pages[i].page.id });
            tree.pages[i].page.js_info = None;
        }
        proof {
            assert(a@ =~= a2 + spec_release_trace(s0, i as int + 1));
        }
        i = i + 1;
    }

    // force a collection, so released references are finalized before layout
    // is told to exit
    a.push(Action::CollectGarbage);

    // only now: destroy the layout workers
    let ghost a3 = a@;
    let mut i: usize = 0;
    while i < n
        invariant
            0 <= i <= n == s0.len(),
            tree.pages@.len() == s0.len(),
            forall|m: int| 0 <= m < s0.len() ==> #[trigger] tree.pages@[m] == (PageNode {
                depth: s0[m].depth,
                page: spec_torn_down(s0[m].page),
            }),
            a@ == a3 + spec_exit_trace(s0, i as int),
            a3 == spec_join_prepare_trace(s0, s0.len() as int)
                + spec_clear_frame_trace(s0, s0.len() as int)
                + spec_release_trace(s0, s0.len() as int)
                + seq![Action::CollectGarbage],
        decreases n - i,
    {
        a.push(Action::ExitNow {
            layout: tree.pages[i].page.layout_chan,
            page: tree.pages[i].page.id,
        });
        proof {
            assert(a@ =~= a3 + spec_exit_trace(s0, i as int + 1));
        }
        i = i + 1;
    }

    proof {
        assert(a@ =~= spec_shutdown_trace(s0));
        if old(tree).wf() {
            assert forall|k: int| 1 <= k < tree.pages@.len()
                implies 1 <= #[trigger] tree.pages@[k].depth <= tree.pages@[k - 1].depth + 1 by {
                assert(tree.pages@[k].depth == s0[k].depth);
                assert(tree.pages@[k - 1].depth == s0[k - 1].depth);
            }
            assert forall|i2: int, j2: int| 0 <= i2 < j2 < tree.pages@.len()
                implies #[trigger] tree.pages@[i2].page.id != #[trigger] tree.pages@[j2].page.id by {
                assert(tree.pages@[i2].page.id == s0[i2].page.id);
                assert(tree.pages@[j2].page.id == s0[j2].page.id);
            }
        }
    }
    a
}

/// How many times a trace releases the script-execution state of the page.
pub open spec fn spec_release_count(tr: Seq<Action>, id: u64) -> int
    decreases tr.len()
{
    if tr.len() == 0 {
        0
    } else {
        spec_release_count(tr.drop_last(), id)
            + (if tr.last() == (Action::ReleaseContext { page: id }) {
                1int
            } else {
                0int
            })
    }
}

/// Counting distributes over trace concatenation.
proof fn lemma_release_count_add(tr1: Seq<Action>, tr2: Seq<Action>, id: u64)
    ensures
        spec_release_count(tr1 + tr2, id) == spec_release_count(tr1, id) + spec_release_count(tr2, id),
    decreases tr2.len(),
{
    if tr2.len() == 0 {
        assert(tr1 + tr2 =~= tr1);
    } else {
        lemma_release_count_add(tr1, tr2.drop_last(), id);
        assert((tr1 + tr2).drop_last() =~= tr1 + tr2.drop_last());
    }
}

/// A release sweep over pages with distinct ids releases the page's state
/// exactly once when the page is swept and still live, and never otherwise.
pub proof fn lemma_release_exactly_once(s: Seq<PageNode>, m: int, k: int)
    requires
        crate::tree::ids_unique(s),
        0 <= m < s.len(),
        0 <= k <= s.len(),
    ensures
        spec_release_count(spec_release_trace(s, k), s[m].page.id) == (
            if m < k && s[m].page.js_info is Some {
                1int
            } else {
                0int
            }
        ),
    decreases k,
{
    if k > 0 {
        lemma_release_exactly_once(s, m, k - 1);
        let step: Seq<Action> = if s[k - 1].page.js_info is Some {
            seq![(Action::ReleaseContext { page: s[k - 1].page.id })]
        } else {
            Seq::empty()
        };
        lemma_release_count_add(spec_release_trace(s, k - 1), step, s[m].page.id);
        if k - 1 != m {
            assert(s[k - 1].page.id != s[m].page.id);
        }
        if s[k - 1].page.js_info is Some {
            assert(spec_release_count(step, s[m].page.id) == (
                if k - 1 == m { 1int } else { 0int }
            )) by {
                reveal_with_fuel(spec_release_count, 2);
                assert(step.drop_last() =~= Seq::<Action>::empty());
                assert(step.last() == (Action::ReleaseContext { page: s[k - 1].page.id }));
            }
        }
    }
}

/// A release sweep over pages whose state is already released releases
/// nothing — the guard or a repeated teardown never double-releases.
pub proof fn lemma_release_none_when_released(s: Seq<PageNode>, k: int)
    requires
        0 <= k <= s.len(),
        forall|j: int| 0 <= j < k ==> (#[trigger] s[j]).page.js_info is None,
    ensures
        spec_release_trace(s, k) == Seq::<Action>::empty(),
    decreases k,
{
    if k > 0 {
        lemma_release_none_when_released(s, k - 1);
        assert(spec_release_trace(s, k) =~= Seq::<Action>::empty());
    }
}

/// Every action of phase one is a join or a prepare-to-exit notice.
proof fn lemma_join_prepare_shape(s: Seq<PageNode>, k: int)
    requires
        0 <= k <= s.len(),
    ensures
        forall|t: int| 0 <= t < spec_join_prepare_trace(s, k).len()
            ==> (#[trigger] spec_join_prepare_trace(s, k)[t]) is JoinLayout
                || spec_join_prepare_trace(s, k)[t] is PrepareToExit,
    decreases k,
{
    if k > 0 {
        lemma_join_prepare_shape(s, k - 1);
    }
}

/// Every action of phase two is a frame clear.
proof fn lemma_clear_frame_shape(s: Seq<PageNode>, k: int)
    requires
        0 <= k <= s.len(),
    ensures
        forall|t: int| 0 <= t < spec_clear_frame_trace(s, k).len()
            ==> (#[trigger] spec_clear_frame_trace(s, k)[t]) is ClearFrame,
    decreases k,
{
    if k > 0 {
        lemma_clear_frame_shape(s, k - 1);
    }
}

/// When every page still holds its script-execution state, phase three
/// releases them one each, in preorder.
proof fn lemma_release_dense(s: Seq<PageNode>, k: int)
    requires
        0 <= k <= s.len(),
        forall|m: int| 0 <= m < s.len() ==> (#[trigger] s[m]).page.js_info is Some,
    ensures
        spec_release_trace(s, k).len() == k,
        forall|t: int| 0 <= t < k ==> (#[trigger] spec_release_trace(s, k)[t])
            == (Action::ReleaseContext { page: s[t].page.id }),
    decreases k,
{
    if k > 0 {
        lemma_release_dense(s, k - 1);
    }
}

/// The teardown trace never tells a layout worker to exit before the
/// script-execution state of every page of the subtree has been released:
/// ahead of any exit notice stands one release for each page.
pub proof fn lemma_release_precedes_exit(s: Seq<PageNode>, m: int, n: int)
    requires
        forall|k: int| 0 <= k < s.len() ==> (#[trigger] s[k]).page.js_info is Some,
        0 <= m < s.len(),
        0 <= n < spec_shutdown_trace(s).len(),
        spec_shutdown_trace(s)[n] is ExitNow,
    ensures
        exists|j: int| 0 <= j < n
            && spec_shutdown_trace(s)[j] == (Action::ReleaseContext { page: s[m].page.id }),
{
    let tr = spec_shutdown_trace(s);
    let jp = spec_join_prepare_trace(s, s.len() as int);
    let cf = spec_clear_frame_trace(s, s.len() as int);
    let rel = spec_release_trace(s, s.len() as int);
    let base = jp.len() + cf.len() + rel.len() + 1;
    lemma_join_prepare_shape(s, s.len() as int);
    lemma_clear_frame_shape(s, s.len() as int);
    lemma_release_dense(s, s.len() as int);
    // an exit notice can only stand past the collection barrier
    assert(n >= base) by {
        if n < jp.len() {
            assert(tr[n] == jp[n]);
        } else if n < jp.len() + cf.len() {
            assert(tr[n] == cf[n - jp.len()]);
        } else if n < jp.len() + cf.len() + rel.len() {
            assert(tr[n] == rel[n - jp.len() - cf.len()]);
        } else if n == jp.len() + cf.len() + rel.len() {
            assert(tr[n] == Action::CollectGarbage);
        }
    }
    // and page m's release stands before the barrier
    let j = jp.len() + cf.len() + m;
    assert(tr[j] == rel[m]);
    assert(tr[j] == (Action::ReleaseContext { page: s[m].page.id }));
    assert(0 <= j < n);
}

} // verus!
