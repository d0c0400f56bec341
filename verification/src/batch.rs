//! The event batcher: what one drain of the message queue does.
//!
//! Per iteration the actor first converts every idle page's pending coalesced
//! resize into one synthetic resize event ([`spec_pending_events`]), then
//! drains the queue: resize messages are not dispatched but stored as their
//! page's latest pending resize, newest winning ([`spec_last_resize`]), while
//! every other message keeps its arrival position in the dispatch batch
//! ([`spec_batch`]).  [`lemma_resize_coalescing`] proves the law this buys:
//! however many resize messages a page receives in one drain, exactly one
//! resize event is dispatched for it, carrying the last value.

use vstd::prelude::*;
use crate::messages::{Incoming, ScriptMsg};
use crate::page::Page;
use crate::tree::{ids_unique, PageNode};
use crate::types::WindowSize;

verus! {

/// The synthetic resize events one iteration dispatches, over the first `k`
/// pages in preorder: one per page that has a pending resize and no reflow in
/// flight, carrying the pending value.
pub open spec fn spec_pending_events(s: Seq<PageNode>, k: int) -> Seq<(u64, WindowSize)>
    decreases k when 0 <= k <= s.len()
{
    if k <= 0 {
        Seq::empty()
    } else {
        spec_pending_events(s, k - 1)
            + (if !s[k - 1].page.reflow_in_flight && s[k - 1].page.pending_resize is Some {
                seq![(s[k - 1].page.id, s[k - 1].page.pending_resize->Some_0)]
            } else {
                Seq::empty()
            })
    }
}

/// A page after the resize sweep: an idle page's pending resize has been
/// consumed; a page with a reflow in flight keeps its pending value for a
/// later iteration.
pub open spec fn spec_cleared_pending(p: Page) -> Page {
    if !p.reflow_in_flight {
        Page { pending_resize: None, ..p }
    } else {
        p
    }
}

/// The messages of a drained batch, without their collaborator replies.
pub open spec fn spec_msgs_of(s: Seq<Incoming>) -> Seq<ScriptMsg> {
    s.map_values(|inc: Incoming| inc.msg)
}

/// The size carried by the last resize message for the page among the first
/// `k` drained messages, if any: the latest value wins.
pub open spec fn spec_last_resize(msgs: Seq<ScriptMsg>, id: u64, k: int) -> Option<WindowSize>
    decreases k when 0 <= k <= msgs.len()
{
    if k <= 0 {
        None
    } else {
        match msgs[k - 1] {
            ScriptMsg::ResizeMsg(pid, sz) => if pid == id {
                Some(sz)
            } else {
                spec_last_resize(msgs, id, k - 1)
            },
            _ => spec_last_resize(msgs, id, k - 1),
        }
    }
}

/// A page after the drain of the first `k` messages: the last resize for it,
/// if one arrived, replaced its pending value.
pub open spec fn spec_absorbed_page(p: Page, msgs: Seq<ScriptMsg>, k: int) -> Page {
    match spec_last_resize(msgs, p.id, k) {
        Some(sz) => Page { pending_resize: Some(sz), ..p },
        None => p,
    }
}

/// The whole tree after the drain of the first `k` messages.
pub open spec fn spec_absorb_pages(s: Seq<PageNode>, msgs: Seq<ScriptMsg>, k: int) -> Seq<PageNode> {
    Seq::new(s.len(), |m: int| PageNode {
        depth: s[m].depth,
        page: spec_absorbed_page(s[m].page, msgs, k),
    })
}

/// The dispatch batch the drain of the first `k` messages builds: every
/// non-resize message, in arrival order.
pub open spec fn spec_batch(incoming: Seq<Incoming>, k: int) -> Seq<Incoming>
    decreases k when 0 <= k <= incoming.len()
{
    if k <= 0 {
        Seq::empty()
    } else {
        spec_batch(incoming, k - 1)
            + (if incoming[k - 1].msg.is_resize() {
                Seq::empty()
            } else {
                seq![incoming[k - 1]]
            })
    }
}

/// How many of the synthetic resize events name the page.
pub open spec fn spec_event_count_for(evs: Seq<(u64, WindowSize)>, id: u64) -> int
    decreases evs.len()
{
    if evs.len() == 0 {
        0
    } else {
        spec_event_count_for(evs.drop_last(), id) + (if evs.last().0 == id {
            1int
        } else {
            0int
        })
    }
}

/// When only the page at index `m` bears the id, the sweep over the first
/// `k` pages emits for that id exactly the one event of page `m` — when `m`
/// is swept and qualifies — and nothing else.
proof fn lemma_pending_events_unique(s: Seq<PageNode>, id: u64, m: int, k: int)
    requires
        0 <= m < s.len(),
        s[m].page.id == id,
        forall|j: int| 0 <= j < s.len() && j != m ==> (#[trigger] s[j]).page.id != id,
        0 <= k <= s.len(),
    ensures
        spec_event_count_for(spec_pending_events(s, k), id) == (
            if m < k && !s[m].page.reflow_in_flight && s[m].page.pending_resize is Some {
                1int
            } else {
                0int
            }
        ),
        forall|t: int| 0 <= t < spec_pending_events(s, k).len()
            && (#[trigger] spec_pending_events(s, k)[t]).0 == id
            ==> spec_pending_events(s, k)[t] == (id, s[m].page.pending_resize->Some_0),
    decreases k,
{
    if k > 0 {
        lemma_pending_events_unique(s, id, m, k - 1);
        let prev = spec_pending_events(s, k - 1);
        let cur = spec_pending_events(s, k);
        if !s[k - 1].page.reflow_in_flight && s[k - 1].page.pending_resize is Some {
            assert(cur.drop_last() =~= prev);
        } else {
            assert(cur =~= prev);
            assert(spec_event_count_for(cur, id) == spec_event_count_for(prev, id));
        }
    }
}

/// Coalescing of resize bursts: for any run of resize messages a page
/// receives in one drain — the page idle, with no reflow in flight — the
/// next sweep dispatches exactly one resize event for it, and that event
/// carries the value of the last message of the run.
pub proof fn lemma_resize_coalescing(s: Seq<PageNode>, msgs: Seq<ScriptMsg>, m: int, sz: WindowSize)
    requires
        ids_unique(s),
        0 <= m < s.len(),
        !s[m].page.reflow_in_flight,
        spec_last_resize(msgs, s[m].page.id, msgs.len() as int) == Some(sz),
    ensures
        ({
            let evs = spec_pending_events(
                spec_absorb_pages(s, msgs, msgs.len() as int),
                s.len() as int,
            );
            &&& spec_event_count_for(evs, s[m].page.id) == 1
            &&& forall|t: int| 0 <= t < evs.len() && (#[trigger] evs[t]).0 == s[m].page.id
                ==> evs[t] == (s[m].page.id, sz)
        }),
{
    let id = s[m].page.id;
    let s2 = spec_absorb_pages(s, msgs, msgs.len() as int);
    assert(s2[m].page.pending_resize == Some(sz));
    assert(!s2[m].page.reflow_in_flight);
    assert forall|j: int| 0 <= j < s2.len() && j != m
        implies (#[trigger] s2[j]).page.id != id by {
        assert(s2[j].page.id == s[j].page.id);
    }
    lemma_pending_events_unique(s2, id, m, s2.len() as int);
}

} // verus!
