//! The script actor: the single consumer of the control-message queue.
//!
//! The actor owns the page tree and dispatches one message at a time; no two
//! transitions ever run concurrently.  Each handler is a transition function:
//! it mutates the actor state and returns the ordered trace of outbound
//! [`Action`]s, plus a [`Verdict`] saying whether the actor keeps running,
//! shuts down normally, or has hit a fatal invariant violation — in which
//! case the embedding loop must fire the crash-safety guard,
//! [`ScriptTask::failsafe_fire`].

use vstd::prelude::*;
use crate::batch::{spec_absorb_pages, spec_batch, spec_cleared_pending, spec_last_resize, spec_msgs_of, spec_pending_events};
use crate::events::{click_event, mouse_move_event, reflow_event, resize_event, spec_click_actions, spec_click_state, spec_mouse_move_actions, spec_mouse_move_state, spec_mouse_move_targets, spec_reflow_event_actions, spec_reflow_event_state, spec_resize_actions, spec_resize_state, targets_view};
use crate::messages::{Action, EventAnswers, Incoming, InputEvent, IterationOutcome, LoadOutcome, NewLayoutInfo, ScriptMsg, Verdict};
use crate::page::Page;
use crate::shutdown::{shut_down_layout, spec_release_trace, spec_shutdown_trace, spec_torn_down};
use crate::tree::{first_match, lemma_wf_update, spec_rebase, spec_subtree_end, updated_at, PageNode, PageTree};
use crate::types::{DamageLevel, Frame, JSPageInfo, NavigationDirection, PageUrl, ReflowGoal, UrlEntry, WindowSize};

verus! {

/// True when a load hits the same-URL reload fast path: the page's cached
/// URL equals the one requested, fragment included.
pub open spec fn spec_load_is_fast(p: Page, url: PageUrl) -> bool {
    p.url matches Some(entry) && entry.url == url
}

/// The page state after a same-URL reload: the cache's needs-reflow flag is
/// consumed — when it was set, the document takes content damage and a
/// reflow; either way no new document is built.
pub open spec fn spec_load_fast_state(p: Page, url: PageUrl) -> Page
    recommends spec_load_is_fast(p, url)
{
    let refreshed = Page { url: Some(UrlEntry { url, needs_reflow: false }), ..p };
    if p.url->Some_0.needs_reflow {
        refreshed.spec_add_damage(DamageLevel::ContentChangedDocumentDamage)
            .spec_reflow_state(ReflowGoal::ReflowForDisplay)
    } else {
        refreshed
    }
}

/// The trace of a same-URL reload.
pub open spec fn spec_load_fast_actions(p: Page, url: PageUrl) -> Seq<Action>
    recommends spec_load_is_fast(p, url)
{
    let refreshed = Page { url: Some(UrlEntry { url, needs_reflow: false }), ..p };
    if p.url->Some_0.needs_reflow {
        refreshed.spec_add_damage(DamageLevel::ContentChangedDocumentDamage)
            .spec_reflow_actions(ReflowGoal::ReflowForDisplay)
    } else {
        Seq::empty()
    }
}

/// The page state after a full load: the frame the collaborators built is
/// installed, the URL cached with no reflow owed on reload, and the URL's
/// fragment target (when the fragment resolved) deferred until the next
/// resize-driven reflow.
pub open spec fn spec_load_state(p: Page, url: PageUrl, outcome: LoadOutcome) -> Page {
    Page {
        frame: Some(Frame {
            document: outcome.document,
            window: outcome.window,
            root_element: outcome.root_element,
        }),
        url: Some(UrlEntry { url, needs_reflow: false }),
        fragment_node: (if url.fragment is Some {
            outcome.fragment_node
        } else {
            None
        }),
        ..p
    }
}

/// The stylesheets a load forwards to the page's layout worker, in discovery
/// order (first `k` of them).
pub open spec fn spec_stylesheet_trace(layout: u64, sheets: Seq<u64>, k: int) -> Seq<Action>
    decreases k when 0 <= k <= sheets.len()
{
    if k <= 0 {
        Seq::empty()
    } else {
        spec_stylesheet_trace(layout, sheets, k - 1)
            + seq![(Action::AddStylesheet { layout, sheet: sheets[k - 1] })]
    }
}

/// The scripts a load evaluates, in document order (first `k` of them).
pub open spec fn spec_script_trace(page: u64, scripts: Seq<u64>, k: int) -> Seq<Action>
    decreases k when 0 <= k <= scripts.len()
{
    if k <= 0 {
        Seq::empty()
    } else {
        spec_script_trace(page, scripts, k - 1)
            + seq![(Action::EvaluateScript { page, script: scripts[k - 1] })]
    }
}

/// The trace of a full load: tell the host loading began, stream the
/// discovered stylesheets to layout, evaluate every script, dispatch the
/// document load event, and report the completed load.  Layout of the new
/// document is driven by the events that follow, not by the load itself.
pub open spec fn spec_load_actions(p: Page, url: PageUrl, outcome: LoadOutcome) -> Seq<Action> {
    seq![(Action::SetReadyState { state: crate::types::ReadyState::Loading })]
        + spec_stylesheet_trace(p.layout_chan, outcome.stylesheets@, outcome.stylesheets@.len() as int)
        + spec_script_trace(p.id, outcome.scripts@, outcome.scripts@.len() as int)
        + seq![
            (Action::DispatchLoadEvent { page: p.id, document: outcome.document, window: outcome.window }),
            (Action::LoadComplete { page: p.id, url }),
        ]
}

/// Exactly what dispatching one already-drained message does: the handler
/// relation of the message's kind, with the collaborator replies its
/// envelope carries.  A resize reaching dispatch means the drain was
/// bypassed, and a load without its collaborator results cannot build a
/// document: both fatal.
pub open spec fn spec_dispatch_rel(pre: ScriptTask, post: ScriptTask, a: Seq<Action>, v: Verdict, inc: Incoming) -> bool {
    match inc.msg {
        ScriptMsg::LoadMsg(id, url) => match inc.load {
            Some(outcome) => ScriptTask::spec_load_dispatch(pre, post, a, v, id, url, outcome),
            None => post == pre && a == Seq::<Action>::empty() && v == Verdict::Fatal,
        },
        ScriptMsg::TriggerLoadMsg(id, url) => post == pre && v == Verdict::Proceed
            && a == seq![(Action::LoadUrl { page: id, url })],
        ScriptMsg::TriggerFragmentMsg(id, url) =>
            ScriptTask::spec_fragment_nav(pre, post, a, v, id, url, inc.fragment_node),
        ScriptMsg::AttachLayoutMsg(info) =>
            ScriptTask::spec_new_layout(pre, post, v, info) && a == Seq::<Action>::empty(),
        ScriptMsg::NavigateMsg(direction) => post == pre && v == Verdict::Proceed
            && a == seq![(Action::Navigate { direction })],
        ScriptMsg::SendEventMsg(id, event) => ScriptTask::spec_event_dispatch(
            pre, post, a, v, id, event, inc.event.hit_element, inc.event.elements_under),
        ScriptMsg::ResizeMsg(_, _) => post == pre && a == Seq::<Action>::empty() && v == Verdict::Fatal,
        ScriptMsg::FireTimerMsg(id, timer_id) =>
            ScriptTask::spec_fire_timer_msg(pre, post, a, v, id, timer_id),
        ScriptMsg::ReflowCompleteMsg(id, reflow_id) =>
            ScriptTask::spec_reflow_complete(pre, post, a, v, id, reflow_id),
        ScriptMsg::ResizeInactiveMsg(id, new_size) =>
            ScriptTask::spec_resize_inactive(pre, post, v, id, new_size) && a == Seq::<Action>::empty(),
        ScriptMsg::ExitPipelineMsg(id) => ScriptTask::spec_exit_pipeline(pre, post, a, v, id),
        ScriptMsg::ExitWindowMsg(_) => post == pre && v == Verdict::Proceed
            && a == seq![Action::CloseWindow],
        ScriptMsg::XHRProgressMsg(address, progress) => post == pre && v == Verdict::Proceed
            && a == seq![(Action::NotifyFetchProgress { address, progress })],
    }
}

/// The resize sweep's exact effect on the actor: every idle page's pending
/// resize consumed, nothing else touched.
pub open spec fn spec_swept(pre: ScriptTask, post: ScriptTask) -> bool {
    &&& post.tree.pages@.len() == pre.tree.pages@.len()
    &&& (forall|k: int| 0 <= k < pre.tree.pages@.len()
        ==> #[trigger] post.tree.pages@[k] == (PageNode {
            depth: pre.tree.pages@[k].depth,
            page: spec_cleared_pending(pre.tree.pages@[k].page),
        }))
    &&& post.js_context == pre.js_context
    &&& post.mouse_over_targets == pre.mouse_over_targets
    &&& post.failsafe_armed == pre.failsafe_armed
}

/// The drain's exact effect on the actor: per page, the last resize for it,
/// if one arrived, replaced the pending value; nothing else touched.
pub open spec fn spec_absorbed(pre: ScriptTask, post: ScriptTask, incoming: Seq<Incoming>) -> bool {
    &&& post.tree.pages@ == spec_absorb_pages(
        pre.tree.pages@, spec_msgs_of(incoming), incoming.len() as int)
    &&& post.js_context == pre.js_context
    &&& post.mouse_over_targets == pre.mouse_over_targets
    &&& post.failsafe_armed == pre.failsafe_armed
}

/// One synthetic resize event delivered to its page, as one step of the
/// iteration: an event dispatch with no collaborator replies.
pub open spec fn spec_resize_step(pre: ScriptTask, post: ScriptTask, a: Seq<Action>, v: Verdict, ev: (u64, WindowSize)) -> bool {
    ScriptTask::spec_event_dispatch(pre, post, a, v, ev.0, InputEvent::ResizeEvent(ev.1), None, None)
}

/// A proceeding run of the first `traces.len()` synthetic resize events:
/// `states` are the actor states along the way — `states[t]` steps to
/// `states[t + 1]` dispatching event `t` with trace `traces[t]`.
pub open spec fn spec_resize_chain(states: Seq<ScriptTask>, traces: Seq<Seq<Action>>, evs: Seq<(u64, WindowSize)>) -> bool {
    &&& states.len() == traces.len() + 1
    &&& traces.len() <= evs.len()
    &&& forall|t: int| 0 <= t < traces.len()
        ==> spec_resize_step(states[t], states[t + 1], #[trigger] traces[t], Verdict::Proceed, evs[t])
}

/// A proceeding run of the first `traces.len()` batch messages, in arrival
/// order: `states` are the actor states along the way.
pub open spec fn spec_batch_chain(states: Seq<ScriptTask>, traces: Seq<Seq<Action>>, batch: Seq<Incoming>) -> bool {
    &&& states.len() == traces.len() + 1
    &&& traces.len() <= batch.len()
    &&& forall|t: int| 0 <= t < traces.len()
        ==> spec_dispatch_rel(states[t], states[t + 1], #[trigger] traces[t], Verdict::Proceed, batch[t])
}

/// The concatenation of per-step traces, in step order.
pub open spec fn spec_concat_traces(traces: Seq<Seq<Action>>) -> Seq<Action>
    decreases traces.len()
{
    if traces.len() == 0 {
        Seq::empty()
    } else {
        spec_concat_traces(traces.drop_last()) + traces.last()
    }
}

/// Concatenation distributes over appending one step's trace.
proof fn lemma_concat_traces_push(traces: Seq<Seq<Action>>, t: Seq<Action>)
    ensures
        spec_concat_traces(traces.push(t)) == spec_concat_traces(traces) + t,
{
    assert(traces.push(t).drop_last() =~= traces);
    assert(traces.push(t).last() == t);
}

/// Exactly what one iteration of the actor loop does, from state `pre` to
/// state `post`, with incoming messages `incoming`, synthetic resize events
/// `evs`, dispatched batch messages `d`, outbound trace `a` and verdict `v`:
/// the pending resizes are swept and dispatched first; then the queue is
/// drained — resizes coalesced, the rest batched in arrival order — and the
/// batch dispatched, whole when everything proceeds, truncated right after
/// a root exit (Stop) or a protocol violation (Fatal).
pub open spec fn spec_iteration(pre: ScriptTask, post: ScriptTask, incoming: Seq<Incoming>, evs: Seq<(u64, WindowSize)>, d: Seq<ScriptMsg>, a: Seq<Action>, v: Verdict) -> bool {
    let batch = spec_batch(incoming, incoming.len() as int);
    &&& evs == spec_pending_events(pre.tree.pages@, pre.tree.pages@.len() as int)
    &&& ({
        // a synthetic resize event hit a fatal violation: the queue is not
        // drained this iteration
        ||| (exists|swept: ScriptTask, rs: Seq<ScriptTask>, rt: Seq<Seq<Action>>, mid: ScriptTask, af: Seq<Action>, ev: (u64, WindowSize)|
                #![trigger spec_swept(pre, swept), spec_resize_chain(rs, rt, evs),
                    spec_resize_step(mid, post, af, Verdict::Fatal, ev)]
            {
                &&& spec_swept(pre, swept)
                &&& spec_resize_chain(rs, rt, evs)
                &&& rs[0] == swept
                &&& rt.len() < evs.len()
                &&& mid == rs[rs.len() - 1]
                &&& ev == evs[rt.len() as int]
                &&& spec_resize_step(mid, post, af, Verdict::Fatal, ev)
                &&& a == spec_concat_traces(rt) + af
                &&& d == Seq::<ScriptMsg>::empty()
                &&& v == Verdict::Fatal
            })
        // every synthetic resize event proceeded: the queue is drained and
        // the batch dispatched, whole or truncated
        ||| (exists|swept: ScriptTask, rs: Seq<ScriptTask>, rt: Seq<Seq<Action>>, resized: ScriptTask, absorbed: ScriptTask|
                #![trigger spec_swept(pre, swept), spec_resize_chain(rs, rt, evs),
                    spec_absorbed(resized, absorbed, incoming)]
            {
                &&& spec_swept(pre, swept)
                &&& spec_resize_chain(rs, rt, evs)
                &&& rs[0] == swept
                &&& rt.len() == evs.len()
                &&& resized == rs[rs.len() - 1]
                &&& spec_absorbed(resized, absorbed, incoming)
                &&& ({
                    // the whole batch proceeded
                    ||| (exists|bs: Seq<ScriptTask>, bt: Seq<Seq<Action>>|
                            #![trigger spec_batch_chain(bs, bt, batch)]
                        {
                            &&& spec_batch_chain(bs, bt, batch)
                            &&& bs[0] == absorbed
                            &&& bt.len() == batch.len()
                            &&& post == bs[bs.len() - 1]
                            &&& a == spec_concat_traces(rt) + spec_concat_traces(bt)
                            &&& d == spec_msgs_of(batch)
                            &&& v == Verdict::Proceed
                        })
                    // a root exit or a violation dropped the rest of the batch
                    ||| (exists|bs: Seq<ScriptTask>, bt: Seq<Seq<Action>>, bmid: ScriptTask, a3: Seq<Action>, inc: Incoming|
                            #![trigger spec_batch_chain(bs, bt, batch),
                                spec_dispatch_rel(bmid, post, a3, v, inc)]
                        {
                            &&& spec_batch_chain(bs, bt, batch)
                            &&& bs[0] == absorbed
                            &&& bt.len() < batch.len()
                            &&& bmid == bs[bs.len() - 1]
                            &&& inc == batch[bt.len() as int]
                            &&& spec_dispatch_rel(bmid, post, a3, v, inc)
                            &&& (v == Verdict::Stop || v == Verdict::Fatal)
                            &&& a == spec_concat_traces(rt) + spec_concat_traces(bt) + a3
                            &&& d == spec_msgs_of(batch).subrange(0, bt.len() as int + 1)
                        })
                })
            })
    })
}

/// A drain of resize messages only leaves no dispatch batch.
proof fn lemma_all_resize_batch_empty(incoming: Seq<Incoming>, k: int)
    requires
        0 <= k <= incoming.len(),
        forall|t: int| 0 <= t < incoming.len() ==> (#[trigger] incoming[t]).msg.is_resize(),
    ensures
        spec_batch(incoming, k) == Seq::<Incoming>::empty(),
    decreases k,
{
    if k > 0 {
        lemma_all_resize_batch_empty(incoming, k - 1);
        assert(spec_batch(incoming, k) =~= Seq::<Incoming>::empty());
    }
}

/// A tree with no pending resizes sweeps to no synthetic resize events.
pub proof fn lemma_no_pending_no_events(s: Seq<PageNode>, k: int)
    requires
        0 <= k <= s.len(),
        forall|m: int| 0 <= m < s.len() ==> (#[trigger] s[m]).page.pending_resize is None,
    ensures
        spec_pending_events(s, k) == Seq::<(u64, WindowSize)>::empty(),
    decreases k,
{
    if k > 0 {
        lemma_no_pending_no_events(s, k - 1);
        assert(spec_pending_events(s, k) =~= Seq::<(u64, WindowSize)>::empty());
    }
}

/// Coalescing at the iteration's own contract: when an iteration starts with
/// no pending resizes and drains only resize messages, the actor dispatches
/// nothing and proceeds, and afterwards every page's pending resize holds
/// the value of the last message that named it — the next sweep's one
/// synthetic event per page.
pub proof fn lemma_iteration_coalesces(pre: ScriptTask, post: ScriptTask, incoming: Seq<Incoming>, evs: Seq<(u64, WindowSize)>, d: Seq<ScriptMsg>, a: Seq<Action>, v: Verdict)
    requires
        spec_iteration(pre, post, incoming, evs, d, a, v),
        forall|m: int| 0 <= m < pre.tree.pages@.len()
            ==> (#[trigger] pre.tree.pages@[m]).page.pending_resize is None,
        forall|t: int| 0 <= t < incoming.len() ==> (#[trigger] incoming[t]).msg.is_resize(),
    ensures
        v == Verdict::Proceed,
        a == Seq::<Action>::empty(),
        d == Seq::<ScriptMsg>::empty(),
        post.tree.pages@.len() == pre.tree.pages@.len(),
        forall|m: int| 0 <= m < pre.tree.pages@.len()
            ==> (#[trigger] post.tree.pages@[m]).page.pending_resize == spec_last_resize(
                spec_msgs_of(incoming), pre.tree.pages@[m].page.id, incoming.len() as int),
{
    lemma_no_pending_no_events(pre.tree.pages@, pre.tree.pages@.len() as int);
    lemma_all_resize_batch_empty(incoming, incoming.len() as int);
    let batch = spec_batch(incoming, incoming.len() as int);
    assert(evs == Seq::<(u64, WindowSize)>::empty());
    // with no synthetic events, no resize dispatch can have run, let alone
    // fatally; with an empty batch, nothing can have truncated it
    let (swept, rs, rt, resized, absorbed): (ScriptTask, Seq<ScriptTask>, Seq<Seq<Action>>, ScriptTask, ScriptTask) =
        choose|swept: ScriptTask, rs: Seq<ScriptTask>, rt: Seq<Seq<Action>>, resized: ScriptTask, absorbed: ScriptTask|
            #![trigger spec_swept(pre, swept), spec_resize_chain(rs, rt, evs),
                spec_absorbed(resized, absorbed, incoming)]
        {
            &&& spec_swept(pre, swept)
            &&& spec_resize_chain(rs, rt, evs)
            &&& rs[0] == swept
            &&& rt.len() == evs.len()
            &&& resized == rs[rs.len() - 1]
            &&& spec_absorbed(resized, absorbed, incoming)
            &&& ({
                ||| (exists|bs: Seq<ScriptTask>, bt: Seq<Seq<Action>>|
                        #![trigger spec_batch_chain(bs, bt, batch)]
                    {
                        &&& spec_batch_chain(bs, bt, batch)
                        &&& bs[0] == absorbed
                        &&& bt.len() == batch.len()
                        &&& post == bs[bs.len() - 1]
                        &&& a == spec_concat_traces(rt) + spec_concat_traces(bt)
                        &&& d == spec_msgs_of(batch)
                        &&& v == Verdict::Proceed
                    })
                ||| (exists|bs: Seq<ScriptTask>, bt: Seq<Seq<Action>>, bmid: ScriptTask, a3: Seq<Action>, inc: Incoming|
                        #![trigger spec_batch_chain(bs, bt, batch),
                            spec_dispatch_rel(bmid, post, a3, v, inc)]
                    {
                        &&& spec_batch_chain(bs, bt, batch)
                        &&& bs[0] == absorbed
                        &&& bt.len() < batch.len()
                        &&& bmid == bs[bs.len() - 1]
                        &&& inc == batch[bt.len() as int]
                        &&& spec_dispatch_rel(bmid, post, a3, v, inc)
                        &&& (v == Verdict::Stop || v == Verdict::Fatal)
                        &&& a == spec_concat_traces(rt) + spec_concat_traces(bt) + a3
                        &&& d == spec_msgs_of(batch).subrange(0, bt.len() as int + 1)
                    })
            })
        };
    // with no events the resize chain is trivial, and the empty batch makes
    // the drained state the final one
    assert(rt.len() == 0 && rs.len() == 1);
    assert(resized == swept);
    let (bs, bt): (Seq<ScriptTask>, Seq<Seq<Action>>) = choose|bs: Seq<ScriptTask>, bt: Seq<Seq<Action>>|
        #![trigger spec_batch_chain(bs, bt, batch)]
    {
        &&& spec_batch_chain(bs, bt, batch)
        &&& bs[0] == absorbed
        &&& bt.len() == batch.len()
        &&& post == bs[bs.len() - 1]
        &&& a == spec_concat_traces(rt) + spec_concat_traces(bt)
        &&& d == spec_msgs_of(batch)
        &&& v == Verdict::Proceed
    };
    assert(bt.len() == 0 && bs.len() == 1);
    assert(post == absorbed);
    assert(a =~= Seq::<Action>::empty());
    assert(d =~= Seq::<ScriptMsg>::empty());
    // pages kept their identity through the sweep, so the drain's per-page
    // last-resize effect is exactly the final pending state
    let msgs = spec_msgs_of(incoming);
    assert forall|m: int| 0 <= m < pre.tree.pages@.len()
        implies (#[trigger] post.tree.pages@[m]).page.pending_resize == spec_last_resize(
            msgs, pre.tree.pages@[m].page.id, incoming.len() as int) by {
        assert(swept.tree.pages@[m].page.id == pre.tree.pages@[m].page.id);
        assert(swept.tree.pages@[m].page.pending_resize is None);
        assert(post.tree.pages@[m] == spec_absorb_pages(
            swept.tree.pages@, msgs, incoming.len() as int)[m]);
    }
}

/// The actor's whole state: the tree of pages, the shared script-execution
/// context, the set of elements the pointer hovered last, and the crash-
/// safety guard's armed flag.
pub struct ScriptTask {
    /// The tree of browsing contexts this actor owns.
    pub tree: PageTree,
    /// Handle of the shared script-execution context, until shutdown drops it.
    pub js_context: Option<u64>,
    /// Elements hovered by the last pointer-move report, once one arrived.
    pub mouse_over_targets: Option<Vec<u64>>,
    /// Whether the crash-safety guard still owes a cleanup on abnormal exit.
    pub failsafe_armed: bool,
}

impl ScriptTask {
    /// The actor's invariant is its tree's.
    pub open spec fn wf(self) -> bool {
        self.tree.wf()
    }

    /// Pipeline id of the root page.
    pub open spec fn spec_root_id(self) -> u64 {
        self.tree.spec_root_id()
    }

    /// Creates a new actor owning a single root page, with the crash-safety
    /// guard armed for the duration of its running lifetime.
    pub fn new(id: u64, layout_chan: u64, window_size: Option<WindowSize>, js_context: u64) -> (t: ScriptTask)
        ensures
            t.tree.pages@.len() == 1,
            t.tree.pages@[0].depth == 0,
            t.tree.pages@[0].page == (Page {
                id,
                subpage_id: None,
                layout_chan,
                frame: None,
                damage: None,
                reflow_in_flight: false,
                last_reflow_id: 0,
                window_size,
                js_info: Some(JSPageInfo { js_context }),
                url: None,
                next_subpage_id: 0,
                pending_resize: None,
                fragment_node: None,
                timers: t.tree.pages@[0].page.timers,
            }),
            t.tree.pages@[0].page.timers@ =~= Seq::<crate::types::TimerEntry>::empty(),
            t.js_context == Some(js_context),
            t.mouse_over_targets is None,
            t.failsafe_armed,
            t.wf(),
    {
        let root = Page::new(id, None, layout_chan, window_size, js_context);
        ScriptTask {
            tree: PageTree::new(root),
            js_context: Some(js_context),
            mouse_over_targets: None,
            failsafe_armed: true,
        }
    }

    /// Disarms the crash-safety guard.  The embedding loop calls this as its
    /// very last step of the normal exit path, once teardown has already
    /// released every page's state, so the guard never double-releases.
    pub fn neuter(&mut self)
        ensures
            *final(self) == (ScriptTask { failsafe_armed: false, ..*old(self) }),
    {
        self.failsafe_armed = false;
    }

    /// The crash-safety guard's release action: on an abnormal exit before
    /// normal shutdown, force-release the script-execution state of every
    /// page that still holds one, across the whole tree, and drop the shared
    /// context.  Fires at most once: a disarmed guard does nothing, and
    /// firing disarms.
    pub fn failsafe_fire(&mut self) -> (a: Vec<Action>)
        ensures
            !old(self).failsafe_armed ==> *final(self) == *old(self) && a@ == Seq::<Action>::empty(),
            old(self).failsafe_armed ==> {
                &&& a@ == spec_release_trace(old(self).tree.pages@, old(self).tree.pages@.len() as int)
                &&& final(self).tree.pages@.len() == old(self).tree.pages@.len()
                &&& (forall|k: int| 0 <= k < old(self).tree.pages@.len()
                    ==> #[trigger] final(self).tree.pages@[k] == (PageNode {
                        depth: old(self).tree.pages@[k].depth,
                        page: (Page { js_info: None, ..old(self).tree.pages@[k].page }),
                    }))
                &&& final(self).js_context is None
                &&& !final(self).failsafe_armed
                &&& final(self).mouse_over_targets == old(self).mouse_over_targets
            },
            old(self).wf() ==> final(self).wf(),
    {
        if !self.failsafe_armed {
            return Vec::new();
        }
        let ghost s0 = self.tree.pages@;
        let mut a: Vec<Action> = Vec::new();
        let n = self.tree.pages.len();
        let mut i: usize = 0;
        while i < n
            invariant
                0 <= i <= n == s0.len(),
                self.tree.pages@.len() == s0.len(),
                forall|m: int| 0 <= m < i ==> #[trigger] self.tree.pages@[m] == (PageNode {
                    depth: s0[m].depth,
                    page: (Page { js_info: None, ..s0[m].page }),
                }),
                forall|m: int| i <= m < s0.len() ==> #[trigger] self.tree.pages@[m] == s0[m],
                a@ == spec_release_trace(s0, i as int),
                self.js_context == old(self).js_context,
                self.mouse_over_targets == old(self).mouse_over_targets,
                self.failsafe_armed == old(self).failsafe_armed,
            decreases n - i,
        {
            if self.tree.pages[i].page.js_info.is_some() {
                a.push(Action::ReleaseContext { page: self.tree.pages[i].page.id });
                self.tree.pages[i].page.js_info = None;
            }
            proof {
                assert(a@ =~= spec_release_trace(s0, i as int + 1));
            }
            i = i + 1;
        }
        self.js_context = None;
        self.failsafe_armed = false;
        proof {
            if old(self).wf() {
                assert(self.tree.pages@.len() == s0.len() > 0);
                assert(self.tree.pages@[0].depth == s0[0].depth);
                assert forall|k: int| 1 <= k < self.tree.pages@.len()
                    implies 1 <= #[trigger] self.tree.pages@[k].depth <= self.tree.pages@[k - 1].depth + 1 by {
                    assert(self.tree.pages@[k].depth == s0[k].depth);
                    assert(self.tree.pages@[k - 1].depth == s0[k - 1].depth);
                }
                assert forall|i2: int, j2: int| 0 <= i2 < j2 < self.tree.pages@.len()
                    implies #[trigger] self.tree.pages@[i2].page.id != #[trigger] self.tree.pages@[j2].page.id by {
                    assert(self.tree.pages@[i2].page.id == s0[i2].page.id);
                    assert(self.tree.pages@[j2].page.id == s0[j2].page.id);
                }
                assert forall|k: int| 0 <= k < self.tree.pages@.len()
                    implies (#[trigger] self.tree.pages@[k]).page.wf() by {
                    assert(self.tree.pages@[k].page.frame == s0[k].page.frame);
                    assert(self.tree.pages@[k].page.url == s0[k].page.url);
                }
            }
        }
        a
    }

    /// Forwards a navigation request to the host.
    pub fn handle_navigate_msg(&self, direction: NavigationDirection) -> (a: Vec<Action>)
        ensures
            a@ == seq![(Action::Navigate { direction })],
    {
        let mut a: Vec<Action> = Vec::new();
        a.push(Action::Navigate { direction });
        a
    }

    /// A window close was requested by content.  The actor does not shut
    /// itself down — the host tears the pipeline down normally, so layout is
    /// never left reading released document state — it only passes the
    /// request on.
    pub fn handle_exit_window_msg(&self, _pipeline_id: u64) -> (a: Vec<Action>)
        ensures
            a@ == seq![Action::CloseWindow],
    {
        let mut a: Vec<Action> = Vec::new();
        a.push(Action::CloseWindow);
        a
    }

    /// Content requested a new load on the pipeline: passed on to the host,
    /// which owns navigation.
    pub fn trigger_load(&self, pipeline_id: u64, url: PageUrl) -> (a: Vec<Action>)
        ensures
            a@ == seq![(Action::LoadUrl { page: pipeline_id, url })],
    {
        let mut a: Vec<Action> = Vec::new();
        a.push(Action::LoadUrl { page: pipeline_id, url });
        a
    }

    /// Exactly what a reflow completion does: an unknown pipeline is fatal
    /// and changes nothing; otherwise a completion whose id equals the
    /// page's current reflow id clears the in-flight indicator, a stale id
    /// leaves the in-flight state untouched, and either way the host hears
    /// that layout finished.
    pub open spec fn spec_reflow_complete(pre: ScriptTask, post: ScriptTask, a: Seq<Action>, v: Verdict, pipeline_id: u64, reflow_id: u64) -> bool {
        &&& post.wf()
        &&& (v == Verdict::Fatal <==> !pre.tree.contains_id(pipeline_id))
        &&& v != Verdict::Stop
        &&& (v == Verdict::Fatal ==> post == pre && a == Seq::<Action>::empty())
        &&& (v == Verdict::Proceed ==> {
            &&& a == seq![(Action::SetReadyState { state: crate::types::ReadyState::FinishedLoading })]
            &&& exists|i: int| #![trigger pre.tree.pages@[i]] {
                &&& first_match(pre.tree.pages@, pipeline_id, i)
                &&& post.tree.pages@ == updated_at(pre.tree.pages@, i, (Page {
                    reflow_in_flight: (
                        if pre.tree.pages@[i].page.last_reflow_id == reflow_id {
                            false
                        } else {
                            pre.tree.pages@[i].page.reflow_in_flight
                        }
                    ),
                    ..pre.tree.pages@[i].page
                }))
            }
            &&& post.js_context == pre.js_context
            &&& post.mouse_over_targets == pre.mouse_over_targets
            &&& post.failsafe_armed == pre.failsafe_armed
        })
    }

    /// A reflow finished.  A completion whose id equals the page's current
    /// reflow id clears the in-flight indicator; a stale id (an older,
    /// superseded reflow) leaves the in-flight state untouched.  Either way
    /// the host hears that layout finished.  A completion for a page this
    /// actor never owned is a fatal protocol violation.
    pub fn handle_reflow_complete_msg(&mut self, pipeline_id: u64, reflow_id: u64) -> (r: (Vec<Action>, Verdict))
        requires
            old(self).wf(),
        ensures
            ScriptTask::spec_reflow_complete(*old(self), *final(self), r.0@, r.1, pipeline_id, reflow_id),
    {
        let i = match self.tree.find(pipeline_id) {
            None => { return (Vec::new(), Verdict::Fatal); }
            Some(i) => i,
        };
        let page = &mut self.tree.pages[i].page;
        if page.last_reflow_id == reflow_id {
            page.reflow_in_flight = false;
        }
        let mut a: Vec<Action> = Vec::new();
        a.push(Action::SetReadyState { state: crate::types::ReadyState::FinishedLoading });
        proof {
            let s = old(self).tree.pages@;
            let p2 = self.tree.pages@[i as int].page;
            assert(self.tree.pages@ =~= updated_at(s, i as int, p2));
            lemma_wf_update(s, i as int, p2);
        }
        (a, Verdict::Proceed)
    }

    /// Exactly what an inactive resize does: an unknown pipeline is fatal
    /// and changes nothing; otherwise the new size is recorded and the
    /// cached URL marked as owing a reflow on its next reload, with no
    /// reflow now.
    pub open spec fn spec_resize_inactive(pre: ScriptTask, post: ScriptTask, v: Verdict, pipeline_id: u64, new_size: WindowSize) -> bool {
        &&& post.wf()
        &&& (v == Verdict::Fatal <==> !pre.tree.contains_id(pipeline_id))
        &&& v != Verdict::Stop
        &&& (v == Verdict::Fatal ==> post == pre)
        &&& (v == Verdict::Proceed ==> {
            &&& exists|i: int| #![trigger pre.tree.pages@[i]] {
                &&& first_match(pre.tree.pages@, pipeline_id, i)
                &&& post.tree.pages@ == updated_at(pre.tree.pages@, i, (Page {
                    window_size: Some(new_size),
                    url: (match pre.tree.pages@[i].page.url {
                        Some(entry) => Some(UrlEntry { url: entry.url, needs_reflow: true }),
                        None => None,
                    }),
                    ..pre.tree.pages@[i].page
                }))
            }
            &&& post.js_context == pre.js_context
            &&& post.mouse_over_targets == pre.mouse_over_targets
            &&& post.failsafe_armed == pre.failsafe_armed
        })
    }

    /// The window was resized while this page was inactive: record the new
    /// size and mark the cached URL as needing a reflow on its next reload,
    /// but do not reflow now.  A resize-inactive for a page this actor never
    /// owned is a fatal protocol violation.
    pub fn handle_resize_inactive_msg(&mut self, pipeline_id: u64, new_size: WindowSize) -> (r: Verdict)
        requires
            old(self).wf(),
        ensures
            ScriptTask::spec_resize_inactive(*old(self), *final(self), r, pipeline_id, new_size),
    {
        let i = match self.tree.find(pipeline_id) {
            None => { return Verdict::Fatal; }
            Some(i) => i,
        };
        let page = &mut self.tree.pages[i].page;
        page.window_size = Some(new_size);
        match &page.url {
            Some(entry) => {
                page.url = Some(UrlEntry { url: entry.url, needs_reflow: true });
            }
            None => {}
        }
        proof {
            let s = old(self).tree.pages@;
            let p2 = self.tree.pages@[i as int].page;
            assert(self.tree.pages@ =~= updated_at(s, i as int, p2));
            lemma_wf_update(s, i as int, p2);
        }
        Verdict::Proceed
    }

    /// Exactly what a timer fire does: an unknown pipeline or a page with no
    /// live frame is fatal and changes nothing; otherwise the page's timer
    /// table answers per [`Page::spec_fire_timer`].
    pub open spec fn spec_fire_timer_msg(pre: ScriptTask, post: ScriptTask, a: Seq<Action>, v: Verdict, pipeline_id: u64, timer_id: u32) -> bool {
        &&& post.wf()
        &&& v != Verdict::Stop
        &&& (v == Verdict::Fatal ==> post == pre && a == Seq::<Action>::empty())
        &&& (!pre.tree.contains_id(pipeline_id) ==> v == Verdict::Fatal)
        &&& (pre.tree.contains_id(pipeline_id) ==> exists|i: int| #![trigger pre.tree.pages@[i]] {
            &&& first_match(pre.tree.pages@, pipeline_id, i)
            &&& (pre.tree.pages@[i].page.frame is None <==> v == Verdict::Fatal)
            &&& (v == Verdict::Proceed ==> {
                &&& post.tree.pages@ == updated_at(
                    pre.tree.pages@, i, post.tree.pages@[i].page)
                &&& Page::spec_fire_timer(
                    pre.tree.pages@[i].page,
                    post.tree.pages@[i].page,
                    a,
                    timer_id,
                )
                &&& post.js_context == pre.js_context
                &&& post.mouse_over_targets == pre.mouse_over_targets
                &&& post.failsafe_armed == pre.failsafe_armed
            })
        })
    }

    /// A timer fired: run its callback if the timer is still live, dropping
    /// a one-shot timer from the table.  A fire for a page this actor never
    /// owned, or for a page with no live frame, is a fatal protocol
    /// violation.
    pub fn handle_fire_timer_msg(&mut self, pipeline_id: u64, timer_id: u32) -> (r: (Vec<Action>, Verdict))
        requires
            old(self).wf(),
        ensures
            ScriptTask::spec_fire_timer_msg(*old(self), *final(self), r.0@, r.1, pipeline_id, timer_id),
    {
        let i = match self.tree.find(pipeline_id) {
            None => { return (Vec::new(), Verdict::Fatal); }
            Some(i) => i,
        };
        if self.tree.pages[i].page.frame.is_none() {
            return (Vec::new(), Verdict::Fatal);
        }
        let page = &mut self.tree.pages[i].page;
        let a = page.fire_timer(timer_id);
        proof {
            let s = old(self).tree.pages@;
            let p2 = self.tree.pages@[i as int].page;
            assert(self.tree.pages@ =~= updated_at(s, i as int, p2));
            assert(p2.wf() && p2.id == s[i as int].page.id) by {
                let pre = s[i as int].page;
                if exists|k: int| 0 <= k < pre.timers@.len() && pre.timers@[k].id == timer_id {
                }
            }
            lemma_wf_update(s, i as int, p2);
        }
        (a, Verdict::Proceed)
    }

    /// The protocol violations that refuse an attach: an unknown parent, a
    /// pipeline id the tree already holds, an actor whose shared context is
    /// already torn down, or a nesting deeper than the depth space.
    pub open spec fn spec_attach_refused(pre: ScriptTask, info: NewLayoutInfo) -> bool {
        ||| !pre.tree.contains_id(info.old_pipeline_id)
        ||| pre.js_context is None
        ||| pre.tree.contains_id(info.new_pipeline_id)
        ||| exists|i: int| #![trigger pre.tree.pages@[i]]
            first_match(pre.tree.pages@, info.old_pipeline_id, i)
                && pre.tree.pages@[i].depth == u32::MAX
    }

    /// Exactly what attaching a nested context does: refused inputs — and
    /// only they — are fatal and change nothing; on every other input
    /// exactly one fresh page is inserted as the parent's last child.
    pub open spec fn spec_new_layout(pre: ScriptTask, post: ScriptTask, v: Verdict, info: NewLayoutInfo) -> bool {
        &&& post.wf()
        &&& (v == Verdict::Fatal <==> ScriptTask::spec_attach_refused(pre, info))
        &&& v != Verdict::Stop
        &&& (v == Verdict::Fatal ==> post == pre)
        &&& (v == Verdict::Proceed ==> exists|i: int| #![trigger pre.tree.pages@[i]] {
            let e = spec_subtree_end(pre.tree.pages@, i);
            &&& first_match(pre.tree.pages@, info.old_pipeline_id, i)
            &&& post.tree.pages@ == pre.tree.pages@.insert(e, (PageNode {
                depth: (pre.tree.pages@[i].depth + 1) as u32,
                page: post.tree.pages@[e].page,
            }))
            &&& post.tree.pages@[e].page == (Page {
                id: info.new_pipeline_id,
                subpage_id: Some(info.subpage_id),
                layout_chan: info.layout_chan,
                frame: None,
                damage: None,
                reflow_in_flight: false,
                last_reflow_id: 0,
                window_size: pre.tree.pages@[i].page.window_size,
                js_info: Some(JSPageInfo { js_context: pre.js_context->Some_0 }),
                url: None,
                next_subpage_id: 0,
                pending_resize: None,
                fragment_node: None,
                timers: post.tree.pages@[e].page.timers,
            })
            &&& post.tree.pages@[e].page.timers@ =~= Seq::<crate::types::TimerEntry>::empty()
            &&& post.js_context == pre.js_context
            &&& post.mouse_over_targets == pre.mouse_over_targets
            &&& post.failsafe_armed == pre.failsafe_armed
        })
    }

    /// Attaches a new nested browsing context under its parent page, served
    /// by the given layout worker.  The new page inherits the parent's
    /// window size and shares the actor's script-execution context.  Exactly
    /// the refused inputs of [`Self::spec_attach_refused`] — the sender
    /// violating the protocol — are fatal; every other attach succeeds.
    pub fn handle_new_layout(&mut self, info: NewLayoutInfo) -> (r: Verdict)
        requires
            old(self).wf(),
        ensures
            ScriptTask::spec_new_layout(*old(self), *final(self), r, info),
    {
        let i = match self.tree.find(info.old_pipeline_id) {
            None => { return Verdict::Fatal; }
            Some(i) => i,
        };
        let ctx = match self.js_context {
            None => { return Verdict::Fatal; }
            Some(ctx) => ctx,
        };
        match self.tree.find(info.new_pipeline_id) {
            Some(_) => { return Verdict::Fatal; }
            None => {}
        }
        proof {
            // preorder search finds the one match: any first match is this one
            assert forall|i2: int| first_match(old(self).tree.pages@, info.old_pipeline_id, i2)
                implies i2 == i as int by {
                assert(old(self).tree.pages@[i as int].page.id == info.old_pipeline_id);
            }
        }
        if self.tree.pages[i].depth == u32::MAX {
            proof {
                assert(first_match(old(self).tree.pages@, info.old_pipeline_id, i as int));
            }
            return Verdict::Fatal;
        }
        let window_size = self.tree.pages[i].page.window_size;
        let child = Page::new(
            info.new_pipeline_id,
            Some(info.subpage_id),
            info.layout_chan,
            window_size,
            ctx,
        );
        self.tree.attach(i, child);
        proof {
            let s = old(self).tree.pages@;
            let e = spec_subtree_end(s, i as int);
            crate::tree::lemma_scan_end(s, s[i as int].depth, i as int + 1);
            assert(first_match(s, info.old_pipeline_id, i as int));
            s.insert_ensures(e, (PageNode {
                depth: (s[i as int].depth + 1) as u32,
                page: child,
            }));
            assert(self.tree.pages@[e].page == child);
        }
        Verdict::Proceed
    }

    /// Delivers an input event to a page: the main entry point of event
    /// dispatch.
    ///
    /// `answers` carries the layout and script collaborators' replies that
    /// the click and pointer-move decisions consume; the contract holds for
    /// every reply.  An event for a page this actor never owned is a fatal
    /// protocol violation, as is a pointer event for a page with no live
    /// frame.
    /// Exactly what delivering an input event does, given the collaborator
    /// replies `hit` (the clicked element) and `under` (the elements under
    /// the pointer): an unknown pipeline is fatal, as is a pointer event on
    /// a page with no live frame, and fatal changes nothing; every other
    /// event transitions its page per the event-dispatch specs.
    pub open spec fn spec_event_dispatch(pre: ScriptTask, post: ScriptTask, a: Seq<Action>, v: Verdict, pipeline_id: u64, event: InputEvent, hit: Option<u64>, under: Option<Vec<u64>>) -> bool {
        &&& post.wf()
        &&& v != Verdict::Stop
        &&& (v == Verdict::Fatal ==> post == pre && a == Seq::<Action>::empty())
        &&& (!pre.tree.contains_id(pipeline_id) ==> v == Verdict::Fatal)
        &&& post.js_context == pre.js_context
        &&& post.failsafe_armed == pre.failsafe_armed
        &&& (!(event is MouseMoveEvent) ==> post.mouse_over_targets == pre.mouse_over_targets)
        &&& (pre.tree.contains_id(pipeline_id) ==> exists|i: int| #![trigger pre.tree.pages@[i]] {
            let s = pre.tree.pages@;
            &&& first_match(s, pipeline_id, i)
            &&& match event {
                InputEvent::ResizeEvent(new_size) => {
                    &&& v == Verdict::Proceed
                    &&& post.tree.pages@ == updated_at(s, i, spec_resize_state(s[i].page, new_size))
                    &&& a == spec_resize_actions(s[i].page, new_size)
                },
                InputEvent::ReflowEvent => {
                    &&& v == Verdict::Proceed
                    &&& post.tree.pages@ == updated_at(s, i, spec_reflow_event_state(s[i].page))
                    &&& a == spec_reflow_event_actions(s[i].page)
                },
                InputEvent::ClickEvent(_button, point) => {
                    &&& (s[i].page.frame is None <==> v == Verdict::Fatal)
                    &&& (v == Verdict::Proceed ==> {
                        &&& post.tree.pages@ == updated_at(s, i, spec_click_state(s[i].page))
                        &&& a == spec_click_actions(s[i].page, point, hit)
                    })
                },
                InputEvent::MouseDownEvent(_button, _point) => {
                    &&& v == Verdict::Proceed
                    &&& post == pre
                    &&& a == Seq::<Action>::empty()
                },
                InputEvent::MouseUpEvent(_button, _point) => {
                    &&& v == Verdict::Proceed
                    &&& post == pre
                    &&& a == Seq::<Action>::empty()
                },
                InputEvent::MouseMoveEvent(point) => {
                    &&& (s[i].page.frame is None <==> v == Verdict::Fatal)
                    &&& (v == Verdict::Proceed ==> {
                        &&& post.tree.pages@ == updated_at(s, i, spec_mouse_move_state(
                            s[i].page,
                            targets_view(pre.mouse_over_targets),
                            targets_view(under)))
                        &&& targets_view(post.mouse_over_targets) == spec_mouse_move_targets(
                            s[i].page,
                            targets_view(pre.mouse_over_targets),
                            targets_view(under))
                        &&& a == spec_mouse_move_actions(
                            s[i].page,
                            targets_view(pre.mouse_over_targets),
                            point,
                            targets_view(under))
                    })
                },
            }
        })
    }

    pub fn handle_event(&mut self, pipeline_id: u64, event: InputEvent, answers: EventAnswers) -> (r: (Vec<Action>, Verdict))
        requires
            old(self).wf(),
        ensures
            ScriptTask::spec_event_dispatch(*old(self), *final(self), r.0@, r.1, pipeline_id, event, answers.hit_element, answers.elements_under),
    {
        let i = match self.tree.find(pipeline_id) {
            None => { return (Vec::new(), Verdict::Fatal); }
            Some(i) => i,
        };
        let ghost s = old(self).tree.pages@;
        match event {
            InputEvent::ResizeEvent(new_size) => {
                let a = resize_event(&mut self.tree.pages[i].page, new_size);
                proof {
                    let p2 = self.tree.pages@[i as int].page;
                    assert(self.tree.pages@ =~= updated_at(s, i as int, p2));
                    assert(p2.id == s[i as int].page.id);
                    lemma_wf_update(s, i as int, p2);
                }
                (a, Verdict::Proceed)
            }
            InputEvent::ReflowEvent => {
                let a = reflow_event(&mut self.tree.pages[i].page);
                proof {
                    let p2 = self.tree.pages@[i as int].page;
                    assert(self.tree.pages@ =~= updated_at(s, i as int, p2));
                    assert(p2.id == s[i as int].page.id);
                    lemma_wf_update(s, i as int, p2);
                }
                (a, Verdict::Proceed)
            }
            InputEvent::ClickEvent(_button, point) => {
                if self.tree.pages[i].page.frame.is_none() {
                    return (Vec::new(), Verdict::Fatal);
                }
                let a = click_event(&mut self.tree.pages[i].page, point, answers.hit_element);
                proof {
                    let p2 = self.tree.pages@[i as int].page;
                    assert(self.tree.pages@ =~= updated_at(s, i as int, p2));
                    assert(p2.id == s[i as int].page.id && p2.wf());
                    lemma_wf_update(s, i as int, p2);
                }
                (a, Verdict::Proceed)
            }
            InputEvent::MouseDownEvent(_button, _point) => (Vec::new(), Verdict::Proceed),
            InputEvent::MouseUpEvent(_button, _point) => (Vec::new(), Verdict::Proceed),
            InputEvent::MouseMoveEvent(point) => {
                if self.tree.pages[i].page.frame.is_none() {
                    return (Vec::new(), Verdict::Fatal);
                }
                let a = mouse_move_event(
                    &mut self.tree.pages[i].page,
                    &mut self.mouse_over_targets,
                    point,
                    answers.elements_under,
                );
                proof {
                    let p2 = self.tree.pages@[i as int].page;
                    assert(self.tree.pages@ =~= updated_at(s, i as int, p2));
                    assert(p2.id == s[i as int].page.id);
                    lemma_wf_update(s, i as int, p2);
                }
                (a, Verdict::Proceed)
            }
        }
    }

    /// The entry point to document loading.
    ///
    /// Reloading the page's cached URL is a fast path: no new document is
    /// built, and only a cache marked needs-reflow takes content damage and
    /// a reflow.  Any other URL is a full load: the parsing and
    /// script-runtime collaborators hand their results in as `outcome`, the
    /// frame is installed, stylesheets stream to layout, scripts run, the
    /// load event fires and the host hears the load completed.  A load for a
    /// page this actor never owned, or a full load after the shared context
    /// was torn down, is a fatal protocol violation.
    /// Exactly what a load does: an unknown pipeline is fatal, a full load
    /// after the shared context is torn down is fatal, and fatal changes
    /// nothing; a same-URL reload takes the fast path, every other load
    /// installs the collaborators' document.
    pub open spec fn spec_load_dispatch(pre: ScriptTask, post: ScriptTask, a: Seq<Action>, v: Verdict, pipeline_id: u64, url: PageUrl, outcome: LoadOutcome) -> bool {
        &&& post.wf()
        &&& v != Verdict::Stop
        &&& (v == Verdict::Fatal ==> post == pre && a == Seq::<Action>::empty())
        &&& (!pre.tree.contains_id(pipeline_id) ==> v == Verdict::Fatal)
        &&& post.js_context == pre.js_context
        &&& post.mouse_over_targets == pre.mouse_over_targets
        &&& post.failsafe_armed == pre.failsafe_armed
        &&& (pre.tree.contains_id(pipeline_id) ==> exists|i: int| #![trigger pre.tree.pages@[i]] {
            let s = pre.tree.pages@;
            &&& first_match(s, pipeline_id, i)
            &&& (spec_load_is_fast(s[i].page, url) ==> {
                &&& v == Verdict::Proceed
                &&& post.tree.pages@ == updated_at(s, i, spec_load_fast_state(s[i].page, url))
                &&& a == spec_load_fast_actions(s[i].page, url)
            })
            &&& (!spec_load_is_fast(s[i].page, url) ==> {
                &&& (pre.js_context is None <==> v == Verdict::Fatal)
                &&& (v == Verdict::Proceed ==> {
                    &&& post.tree.pages@ == updated_at(s, i, spec_load_state(s[i].page, url, outcome))
                    &&& a == spec_load_actions(s[i].page, url, outcome)
                })
            })
        })
    }

    pub fn handle_load(&mut self, pipeline_id: u64, url: PageUrl, outcome: LoadOutcome) -> (r: (Vec<Action>, Verdict))
        requires
            old(self).wf(),
        ensures
            ScriptTask::spec_load_dispatch(*old(self), *final(self), r.0@, r.1, pipeline_id, url, outcome),
    {
        let i = match self.tree.find(pipeline_id) {
            None => { return (Vec::new(), Verdict::Fatal); }
            Some(i) => i,
        };
        let ghost s = old(self).tree.pages@;

        // the same-URL reload fast path
        let fast = match &self.tree.pages[i].page.url {
            Some(entry) => entry.url == url,
            None => false,
        };
        if fast {
            let page = &mut self.tree.pages[i].page;
            let needs_reflow = match &page.url {
                Some(entry) => entry.needs_reflow,
                None => unreached(),
            };
            page.url = Some(UrlEntry { url, needs_reflow: false });
            let a = if needs_reflow {
                page.damage(DamageLevel::ContentChangedDocumentDamage);
                page.reflow(ReflowGoal::ReflowForDisplay)
            } else {
                Vec::new()
            };
            proof {
                let p2 = self.tree.pages@[i as int].page;
                assert(self.tree.pages@ =~= updated_at(s, i as int, p2));
                assert(p2.id == s[i as int].page.id && p2.wf());
                lemma_wf_update(s, i as int, p2);
            }
            return (a, Verdict::Proceed);
        }

        // a full load needs the shared script-execution context
        if self.js_context.is_none() {
            return (Vec::new(), Verdict::Fatal);
        }

        let mut a: Vec<Action> = Vec::new();
        a.push(Action::SetReadyState { state: crate::types::ReadyState::Loading });

        let page = &mut self.tree.pages[i].page;
        page.frame = Some(Frame {
            document: outcome.document,
            window: outcome.window,
            root_element: outcome.root_element,
        });
        page.url = Some(UrlEntry { url, needs_reflow: false });
        page.fragment_node = if url.fragment.is_some() {
            outcome.fragment_node
        } else {
            None
        };
        let layout = page.layout_chan;
        let page_id = page.id;

        let mut k: usize = 0;
        while k < outcome.stylesheets.len()
            invariant
                0 <= k <= outcome.stylesheets@.len(),
                a@ =~= seq![(Action::SetReadyState { state: crate::types::ReadyState::Loading })]
                    + spec_stylesheet_trace(layout, outcome.stylesheets@, k as int),
            decreases outcome.stylesheets@.len() - k,
        {
            a.push(Action::AddStylesheet { layout, sheet: outcome.stylesheets[k] });
            k = k + 1;
        }
        let ghost mid = a@;
        let mut k: usize = 0;
        while k < outcome.scripts.len()
            invariant
                0 <= k <= outcome.scripts@.len(),
                a@ =~= mid + spec_script_trace(page_id, outcome.scripts@, k as int),
            decreases outcome.scripts@.len() - k,
        {
            a.push(Action::EvaluateScript { page: page_id, script: outcome.scripts[k] });
            k = k + 1;
        }
        a.push(Action::DispatchLoadEvent {
            page: page_id,
            document: outcome.document,
            window: outcome.window,
        });
        a.push(Action::LoadComplete { page: page_id, url });
        proof {
            let p2 = self.tree.pages@[i as int].page;
            assert(self.tree.pages@ =~= updated_at(s, i as int, p2));
            assert(p2.id == s[i as int].page.id && p2.wf());
            lemma_wf_update(s, i as int, p2);
            assert(a@ =~= spec_load_actions(s[i as int].page, url, outcome));
        }
        (a, Verdict::Proceed)
    }

    /// Content requested navigation to a fragment of the current document:
    /// scroll the resolved element into view, against the current layout.
    ///
    /// `fragment_node` is the collaborators' resolution of the fragment name
    /// in the page's document — the named element, if any; the contract
    /// holds for every resolution.  A fragment navigation for a page this
    /// actor never owned, with a URL that carries no fragment, or on a page
    /// with no live frame, is a fatal protocol violation.
    /// Exactly what a fragment navigation does: never a state change; fatal
    /// — with no actions — exactly on an unknown pipeline, a URL without a
    /// fragment, or a page with no live frame; otherwise one scroll to the
    /// resolved element, or nothing when the fragment resolved to none.
    pub open spec fn spec_fragment_nav(pre: ScriptTask, post: ScriptTask, a: Seq<Action>, v: Verdict, pipeline_id: u64, url: PageUrl, fragment_node: Option<u64>) -> bool {
        &&& post.wf()
        &&& v != Verdict::Stop
        &&& post == pre
        &&& (v == Verdict::Fatal ==> a == Seq::<Action>::empty())
        &&& (!pre.tree.contains_id(pipeline_id) ==> v == Verdict::Fatal)
        &&& (pre.tree.contains_id(pipeline_id) ==> exists|i: int| #![trigger pre.tree.pages@[i]] {
            let s = pre.tree.pages@;
            &&& first_match(s, pipeline_id, i)
            &&& ((url.fragment is None || s[i].page.frame is None) <==> v == Verdict::Fatal)
            &&& (v == Verdict::Proceed ==> a == (match fragment_node {
                Some(node) => seq![(Action::ScrollToFragment { page: pipeline_id, node })],
                None => Seq::<Action>::empty(),
            }))
        })
    }

    pub fn trigger_fragment(&mut self, pipeline_id: u64, url: PageUrl, fragment_node: Option<u64>) -> (r: (Vec<Action>, Verdict))
        requires
            old(self).wf(),
        ensures
            ScriptTask::spec_fragment_nav(*old(self), *final(self), r.0@, r.1, pipeline_id, url, fragment_node),
    {
        let i = match self.tree.find(pipeline_id) {
            None => { return (Vec::new(), Verdict::Fatal); }
            Some(i) => i,
        };
        if url.fragment.is_none() {
            return (Vec::new(), Verdict::Fatal);
        }
        if self.tree.pages[i].page.frame.is_none() {
            return (Vec::new(), Verdict::Fatal);
        }
        match fragment_node {
            Some(node) => {
                let mut a: Vec<Action> = Vec::new();
                a.push(Action::ScrollToFragment { page: pipeline_id, node });
                (a, Verdict::Proceed)
            }
            None => (Vec::new(), Verdict::Proceed),
        }
    }

    /// A pipeline is closing.  Exiting the root shuts the whole tree down
    /// and stops the actor; exiting a non-root pipeline tears down and
    /// removes only that subtree.  An id the tree no longer holds is the
    /// benign race of a pipeline already removed: a no-op.
    /// Exactly what exiting a pipeline does: the root id stops the actor
    /// after the ordered teardown of the whole tree; a live non-root id
    /// tears down and splices out exactly its subtree and the actor
    /// continues; an id the tree no longer holds is the benign race of a
    /// pipeline already removed — a no-op, and the actor continues.
    pub open spec fn spec_exit_pipeline(pre: ScriptTask, post: ScriptTask, a: Seq<Action>, v: Verdict, id: u64) -> bool {
        &&& post.wf()
        &&& post.mouse_over_targets == pre.mouse_over_targets
        &&& post.failsafe_armed == pre.failsafe_armed
        &&& (v == Verdict::Stop <==> pre.spec_root_id() == id)
        &&& v != Verdict::Fatal
        // the root: full shutdown, and control returns to the host
        &&& (pre.spec_root_id() == id ==> {
            &&& a == spec_shutdown_trace(pre.tree.pages@)
            &&& post.tree.pages@.len() == pre.tree.pages@.len()
            &&& (forall|k: int| 0 <= k < pre.tree.pages@.len()
                ==> #[trigger] post.tree.pages@[k] == (PageNode {
                    depth: pre.tree.pages@[k].depth,
                    page: spec_torn_down(pre.tree.pages@[k].page),
                }))
            &&& post.js_context is None
        })
        // a live non-root pipeline: its subtree is torn down and removed
        &&& (pre.spec_root_id() != id ==> {
            &&& post.js_context == pre.js_context
            &&& ((exists|k: int| 1 <= k < pre.tree.pages@.len()
                && #[trigger] pre.tree.pages@[k].page.id == id)
                ==> exists|i: int| #![trigger pre.tree.pages@[i]] {
                    let s = pre.tree.pages@;
                    let e = spec_subtree_end(s, i);
                    &&& 1 <= i < s.len()
                    &&& s[i].page.id == id
                    &&& (forall|k: int| 1 <= k < i ==> #[trigger] s[k].page.id != id)
                    &&& post.tree.pages@ == s.subrange(0, i) + s.subrange(e, s.len() as int)
                    &&& a == spec_shutdown_trace(spec_rebase(s.subrange(i, e), s[i].depth))
                })
            // the benign race: already removed, nothing to do
            &&& ((forall|k: int| 1 <= k < pre.tree.pages@.len()
                ==> #[trigger] pre.tree.pages@[k].page.id != id)
                ==> post == pre && a == Seq::<Action>::empty())
        })
    }

    pub fn handle_exit_pipeline_msg(&mut self, id: u64) -> (r: (Vec<Action>, Verdict))
        requires
            old(self).wf(),
        ensures
            ScriptTask::spec_exit_pipeline(*old(self), *final(self), r.0@, r.1, id),
    {
        if self.tree.pages[0].page.id == id {
            self.js_context = None;
            let a = shut_down_layout(&mut self.tree);
            return (a, Verdict::Stop);
        }
        match self.tree.remove(id) {
            Some(mut sub) => {
                let a = shut_down_layout(&mut sub);
                (a, Verdict::Proceed)
            }
            None => (Vec::new(), Verdict::Proceed),
        }
    }

    /// Step one of an iteration: consume every idle page's pending coalesced
    /// resize, in preorder, as the list of synthetic resize events to
    /// dispatch ahead of the queue.  Runs before the queue is touched, so a
    /// resize that a previous iteration already queued is never reprocessed.
    pub fn begin_iteration(&mut self) -> (evs: Vec<(u64, WindowSize)>)
        requires
            old(self).wf(),
        ensures
            final(self).wf(),
            evs@ == spec_pending_events(old(self).tree.pages@, old(self).tree.pages@.len() as int),
            final(self).tree.pages@.len() == old(self).tree.pages@.len(),
            forall|k: int| 0 <= k < old(self).tree.pages@.len()
                ==> #[trigger] final(self).tree.pages@[k] == (PageNode {
                    depth: old(self).tree.pages@[k].depth,
                    page: spec_cleared_pending(old(self).tree.pages@[k].page),
                }),
            final(self).js_context == old(self).js_context,
            final(self).mouse_over_targets == old(self).mouse_over_targets,
            final(self).failsafe_armed == old(self).failsafe_armed,
    {
        let ghost s0 = self.tree.pages@;
        let mut evs: Vec<(u64, WindowSize)> = Vec::new();
        let n = self.tree.pages.len();
        let mut i: usize = 0;
        while i < n
            invariant
                0 <= i <= n == s0.len(),
                self.tree.pages@.len() == s0.len(),
                forall|m: int| 0 <= m < i ==> #[trigger] self.tree.pages@[m] == (PageNode {
                    depth: s0[m].depth,
                    page: spec_cleared_pending(s0[m].page),
                }),
                forall|m: int| i <= m < s0.len() ==> #[trigger] self.tree.pages@[m] == s0[m],
                evs@ == spec_pending_events(s0, i as int),
                self.js_context == old(self).js_context,
                self.mouse_over_targets == old(self).mouse_over_targets,
                self.failsafe_armed == old(self).failsafe_armed,
            decreases n - i,
        {
            if !self.tree.pages[i].page.reflow_in_flight {
                match self.tree.pages[i].page.pending_resize {
                    Some(size) => {
                        evs.push((self.tree.pages[i].page.id, size));
                    }
                    None => {}
                }
                self.tree.pages[i].page.pending_resize = None;
            }
            proof {
                assert(evs@ =~= spec_pending_events(s0, i as int + 1));
            }
            i = i + 1;
        }
        proof {
            if old(self).wf() {
                assert forall|k: int| 0 <= k < self.tree.pages@.len()
                    implies (#[trigger] self.tree.pages@[k]).page.id == s0[k].page.id
                        && self.tree.pages@[k].depth == s0[k].depth
                        && self.tree.pages@[k].page.wf() by {}
            }
        }
        evs
    }

    /// Step three of an iteration: drain the messages received this turn.  A
    /// resize message is not queued for dispatch; it becomes its page's
    /// latest pending resize, overwriting any earlier value, and a resize
    /// for a pipeline already removed is the benign race of concurrent
    /// teardown, absorbed as a no-op.  Every other message keeps its arrival
    /// position in the returned dispatch batch.
    pub fn absorb_incoming(&mut self, incoming: Vec<Incoming>) -> (batch: Vec<Incoming>)
        requires
            old(self).wf(),
        ensures
            final(self).wf(),
            final(self).tree.pages@ == spec_absorb_pages(
                old(self).tree.pages@,
                spec_msgs_of(incoming@),
                incoming@.len() as int,
            ),
            batch@ == spec_batch(incoming@, incoming@.len() as int),
            final(self).js_context == old(self).js_context,
            final(self).mouse_over_targets == old(self).mouse_over_targets,
            final(self).failsafe_armed == old(self).failsafe_armed,
    {
        let ghost inc0 = incoming@;
        let ghost msgs = spec_msgs_of(incoming@);
        let ghost s0 = self.tree.pages@;
        let mut incoming = incoming;
        let mut batch: Vec<Incoming> = Vec::new();
        let mut j: usize = 0;
        let n = incoming.len();
        while j < n
            invariant
                0 <= j <= n == inc0.len(),
                incoming@ == inc0.subrange(j as int, inc0.len() as int),
                msgs == spec_msgs_of(inc0),
                msgs.len() == inc0.len(),
                forall|t: int| 0 <= t < inc0.len() ==> msgs[t] == inc0[t].msg,
                crate::tree::ids_unique(s0),
                crate::tree::pages_wf(s0),
                crate::tree::depths_wf(s0),
                self.tree.pages@ =~= spec_absorb_pages(s0, msgs, j as int),
                batch@ == spec_batch(inc0, j as int),
                self.js_context == old(self).js_context,
                self.mouse_over_targets == old(self).mouse_over_targets,
                self.failsafe_armed == old(self).failsafe_armed,
            decreases n - j,
        {
            let inc = incoming.remove(0);
            proof {
                assert(inc == inc0[j as int]);
                assert(incoming@ =~= inc0.subrange(j as int + 1, inc0.len() as int));
            }
            match inc.msg {
                ScriptMsg::ResizeMsg(pid, size) => {
                    match self.tree.find(pid) {
                        Some(i) => {
                            self.tree.pages[i].page.pending_resize = Some(size);
                            proof {
                                assert forall|m: int| 0 <= m < s0.len()
                                    implies #[trigger] self.tree.pages@[m]
                                        == spec_absorb_pages(s0, msgs, j as int + 1)[m] by {
                                    if m != i as int {
                                        assert(s0[m].page.id != pid);
                                    }
                                }
                                assert(self.tree.pages@ =~= spec_absorb_pages(s0, msgs, j as int + 1));
                            }
                        }
                        None => {
                            proof {
                                assert forall|m: int| 0 <= m < s0.len()
                                    implies #[trigger] self.tree.pages@[m]
                                        == spec_absorb_pages(s0, msgs, j as int + 1)[m] by {
                                    assert(s0[m].page.id == spec_absorb_pages(s0, msgs, j as int)[m].page.id);
                                }
                                assert(self.tree.pages@ =~= spec_absorb_pages(s0, msgs, j as int + 1));
                            }
                        }
                    }
                    proof {
                        assert(batch@ =~= spec_batch(inc0, j as int + 1));
                    }
                }
                _ => {
                    batch.push(inc);
                    proof {
                        assert(batch@ =~= spec_batch(inc0, j as int + 1));
                        assert(self.tree.pages@ =~= spec_absorb_pages(s0, msgs, j as int + 1));
                    }
                }
            }
            j = j + 1;
        }
        proof {
            assert(self.tree.wf()) by {
                let s2 = self.tree.pages@;
                assert(s2.len() == s0.len());
                assert forall|k: int| 0 <= k < s2.len()
                    implies (#[trigger] s2[k]).page.id == s0[k].page.id
                        && s2[k].depth == s0[k].depth
                        && s2[k].page.wf()
                        && (k >= 1 ==> 1 <= s2[k].depth <= s2[k - 1].depth + 1) by {
                    assert(s2[k] == spec_absorb_pages(s0, msgs, inc0.len() as int)[k]);
                    if k >= 1 {
                        assert(s2[k - 1] == spec_absorb_pages(s0, msgs, inc0.len() as int)[k - 1]);
                    }
                }
            }
        }
        batch
    }

    /// Dispatches one already-drained message to its handler.  A resize
    /// message reaching dispatch means the drain was bypassed: fatal.  A
    /// load whose collaborator results are missing cannot build a document:
    /// fatal.
    pub fn dispatch_msg(&mut self, inc: Incoming) -> (r: (Vec<Action>, Verdict))
        requires
            old(self).wf(),
        ensures
            spec_dispatch_rel(*old(self), *final(self), r.0@, r.1, inc),
            final(self).wf(),
            final(self).failsafe_armed == old(self).failsafe_armed,
            r.1 == Verdict::Stop <==> (inc.msg matches ScriptMsg::ExitPipelineMsg(id)
                && id == old(self).spec_root_id()),
    {
        match inc.msg {
            ScriptMsg::LoadMsg(id, url) => {
                match inc.load {
                    Some(outcome) => self.handle_load(id, url, outcome),
                    None => (Vec::new(), Verdict::Fatal),
                }
            }
            ScriptMsg::TriggerLoadMsg(id, url) => (self.trigger_load(id, url), Verdict::Proceed),
            ScriptMsg::TriggerFragmentMsg(id, url) => self.trigger_fragment(id, url, inc.fragment_node),
            ScriptMsg::AttachLayoutMsg(info) => (Vec::new(), self.handle_new_layout(info)),
            ScriptMsg::NavigateMsg(direction) => (self.handle_navigate_msg(direction), Verdict::Proceed),
            ScriptMsg::SendEventMsg(id, event) => self.handle_event(id, event, inc.event),
            ScriptMsg::FireTimerMsg(id, timer_id) => self.handle_fire_timer_msg(id, timer_id),
            ScriptMsg::ReflowCompleteMsg(id, reflow_id) => self.handle_reflow_complete_msg(id, reflow_id),
            ScriptMsg::ResizeInactiveMsg(id, new_size) => {
                (Vec::new(), self.handle_resize_inactive_msg(id, new_size))
            }
            ScriptMsg::ExitPipelineMsg(id) => self.handle_exit_pipeline_msg(id),
            ScriptMsg::ExitWindowMsg(id) => (self.handle_exit_window_msg(id), Verdict::Proceed),
            ScriptMsg::XHRProgressMsg(address, progress) => {
                let mut a: Vec<Action> = Vec::new();
                a.push(Action::NotifyFetchProgress { address, progress });
                (a, Verdict::Proceed)
            }
            ScriptMsg::ResizeMsg(_, _) => (Vec::new(), Verdict::Fatal),
        }
    }

    /// One full iteration of the actor loop over the messages received this
    /// turn: dispatch the synthetic resize events of every idle page first,
    /// then drain the queue — coalescing resizes, keeping everything else in
    /// arrival order — and dispatch the batch.  Dispatch stops at a root
    /// exit (the remaining batch is dropped with the actor) and at a fatal
    /// violation (the embedding loop must then fire the crash-safety guard).
    pub fn handle_msgs(&mut self, incoming: Vec<Incoming>) -> (o: IterationOutcome)
        requires
            old(self).wf(),
        ensures
            final(self).wf(),
            o.resize_dispatches@ == spec_pending_events(
                old(self).tree.pages@,
                old(self).tree.pages@.len() as int,
            ),
            // the batch is dispatched strictly in arrival order: what ran is
            // a prefix of the drained batch, and all of it unless a root
            // exit or a failure dropped the rest
            o.dispatched@ == spec_msgs_of(spec_batch(incoming@, incoming@.len() as int))
                .subrange(0, o.dispatched@.len() as int),
            o.verdict == Verdict::Proceed
                ==> o.dispatched@ == spec_msgs_of(spec_batch(incoming@, incoming@.len() as int)),
            // the whole iteration, exactly: sweep, resize dispatches, drain,
            // batch dispatches, each step per its own relation, truncated at
            // the first non-proceeding verdict
            spec_iteration(*old(self), *final(self), incoming@,
                o.resize_dispatches@, o.dispatched@, o.actions@, o.verdict),
            final(self).failsafe_armed == old(self).failsafe_armed,
    {
        let ghost full_inc = spec_batch(incoming@, incoming@.len() as int);
        let ghost full_batch = spec_msgs_of(full_inc);
        let resize_dispatches = self.begin_iteration();
        let ghost swept = *self;
        let ghost evs = resize_dispatches@;
        let mut actions: Vec<Action> = Vec::new();
        let dispatched: Vec<ScriptMsg> = Vec::new();
        let mut dispatched = dispatched;
        let ghost mut rs: Seq<ScriptTask> = seq![swept];
        let ghost mut rt: Seq<Seq<Action>> = Seq::empty();

        let mut k: usize = 0;
        while k < resize_dispatches.len()
            invariant
                0 <= k <= resize_dispatches@.len(),
                self.wf(),
                self.failsafe_armed == old(self).failsafe_armed,
                resize_dispatches@ == spec_pending_events(
                    old(self).tree.pages@, old(self).tree.pages@.len() as int),
                evs == resize_dispatches@,
                spec_swept(*old(self), swept),
                spec_resize_chain(rs, rt, evs),
                rs[0] == swept,
                rt.len() == k,
                rs[rs.len() - 1] == *self,
                actions@ == spec_concat_traces(rt),
                dispatched@ == Seq::<ScriptMsg>::empty(),
            decreases resize_dispatches@.len() - k,
        {
            let (id, size) = resize_dispatches[k];
            let ghost prev = *self;
            let ghost prev_rt = rt;
            let (mut a, verdict) = self.handle_event(id, InputEvent::ResizeEvent(size), EventAnswers::none());
            let ghost step = a@;
            actions.append(&mut a);
            proof {
                lemma_concat_traces_push(prev_rt, step);
            }
            match verdict {
                Verdict::Fatal => {
                    proof {
                        assert(dispatched@ =~= full_batch.subrange(0, 0));
                        assert(spec_resize_step(prev, *self, step, Verdict::Fatal, evs[k as int]));
                        assert(actions@ == spec_concat_traces(rt) + step);
                        assert(spec_iteration(*old(self), *self, incoming@,
                            evs, dispatched@, actions@, Verdict::Fatal));
                    }
                    return IterationOutcome { resize_dispatches, dispatched, actions, verdict: Verdict::Fatal };
                }
                _ => {}
            }
            proof {
                assert(spec_resize_step(prev, *self, step, Verdict::Proceed, evs[k as int]));
                let prev_rs = rs;
                rs = rs.push(*self);
                rt = rt.push(step);
                assert forall|t: int| 0 <= t < rt.len()
                    implies spec_resize_step(rs[t], rs[t + 1], #[trigger] rt[t], Verdict::Proceed, evs[t]) by {
                    if t < rt.len() - 1 {
                        assert(rt[t] == prev_rt[t]);
                        assert(rs[t] == prev_rs[t]);
                        assert(rs[t + 1] == prev_rs[t + 1]);
                        assert(spec_resize_step(prev_rs[t], prev_rs[t + 1], prev_rt[t], Verdict::Proceed, evs[t]));
                    } else {
                        assert(rs[t] == prev && rs[t + 1] == *self && rt[t] == step);
                    }
                }
                assert(spec_resize_chain(rs, rt, evs));
            }
            k = k + 1;
        }

        let ghost resized = *self;
        let ghost resize_actions = actions@;
        let batch = self.absorb_incoming(incoming);
        let ghost absorbed = *self;
        let mut batch = batch;
        proof {
            assert(spec_msgs_of(batch@) =~= full_batch);
            assert(spec_absorbed(resized, absorbed, incoming@));
        }

        let n = batch.len();
        let mut j: usize = 0;
        let ghost mut bs: Seq<ScriptTask> = seq![absorbed];
        let ghost mut bt: Seq<Seq<Action>> = Seq::empty();
        while j < n
            invariant
                0 <= j <= n == full_inc.len(),
                self.wf(),
                self.failsafe_armed == old(self).failsafe_armed,
                batch@.len() == n - j,
                full_inc == spec_batch(incoming@, incoming@.len() as int),
                full_batch == spec_msgs_of(full_inc),
                full_batch.len() == full_inc.len(),
                forall|t: int| 0 <= t < full_inc.len() ==> full_batch[t] == (#[trigger] full_inc[t]).msg,
                forall|t: int| 0 <= t < batch@.len() ==> #[trigger] batch@[t] == full_inc[j + t],
                dispatched@ == full_batch.subrange(0, j as int),
                resize_dispatches@ == spec_pending_events(
                    old(self).tree.pages@, old(self).tree.pages@.len() as int),
                evs == resize_dispatches@,
                spec_swept(*old(self), swept),
                spec_resize_chain(rs, rt, evs),
                rs[0] == swept,
                rt.len() == evs.len(),
                rs[rs.len() - 1] == resized,
                resize_actions == spec_concat_traces(rt),
                spec_absorbed(resized, absorbed, incoming@),
                spec_batch_chain(bs, bt, full_inc),
                bs[0] == absorbed,
                bt.len() == j,
                bs[bs.len() - 1] == *self,
                actions@ == resize_actions + spec_concat_traces(bt),
            decreases n - j,
        {
            let inc = batch.remove(0);
            dispatched.push(inc.msg);
            proof {
                assert(dispatched@ =~= full_batch.subrange(0, j as int + 1));
            }
            let ghost prev = *self;
            let ghost prev_bt = bt;
            let ghost inc0 = inc;
            let (mut a, verdict) = self.dispatch_msg(inc);
            let ghost step = a@;
            actions.append(&mut a);
            proof {
                lemma_concat_traces_push(prev_bt, step);
            }
            match verdict {
                Verdict::Proceed => {
                    proof {
                        assert(spec_dispatch_rel(prev, *self, step, Verdict::Proceed, full_inc[j as int]));
                        let prev_bs = bs;
                        bs = bs.push(*self);
                        bt = bt.push(step);
                        assert forall|t: int| 0 <= t < bt.len()
                            implies spec_dispatch_rel(bs[t], bs[t + 1], #[trigger] bt[t], Verdict::Proceed, full_inc[t]) by {
                            if t < bt.len() - 1 {
                                assert(bt[t] == prev_bt[t]);
                                assert(bs[t] == prev_bs[t]);
                                assert(bs[t + 1] == prev_bs[t + 1]);
                                assert(spec_dispatch_rel(prev_bs[t], prev_bs[t + 1], prev_bt[t], Verdict::Proceed, full_inc[t]));
                            } else {
                                assert(bs[t] == prev && bs[t + 1] == *self && bt[t] == step);
                            }
                        }
                        assert(spec_batch_chain(bs, bt, full_inc));
                        assert(actions@ =~= resize_actions + spec_concat_traces(bt));
                    }
                }
                Verdict::Stop => {
                    proof {
                        assert(spec_dispatch_rel(prev, *self, step, Verdict::Stop, full_inc[j as int]));
                        assert(inc0 == full_inc[j as int]);
                        assert(actions@ =~= resize_actions + spec_concat_traces(bt) + step);
                        assert(spec_iteration(*old(self), *self, incoming@,
                            evs, dispatched@, actions@, Verdict::Stop));
                    }
                    return IterationOutcome { resize_dispatches, dispatched, actions, verdict: Verdict::Stop };
                }
                Verdict::Fatal => {
                    proof {
                        assert(spec_dispatch_rel(prev, *self, step, Verdict::Fatal, full_inc[j as int]));
                        assert(inc0 == full_inc[j as int]);
                        assert(actions@ =~= resize_actions + spec_concat_traces(bt) + step);
                        assert(spec_iteration(*old(self), *self, incoming@,
                            evs, dispatched@, actions@, Verdict::Fatal));
                    }
                    return IterationOutcome { resize_dispatches, dispatched, actions, verdict: Verdict::Fatal };
                }
            }
            j = j + 1;
        }
        proof {
            assert(dispatched@ =~= full_batch);
            assert(spec_iteration(*old(self), *self, incoming@,
                evs, dispatched@, actions@, Verdict::Proceed));
        }
        IterationOutcome { resize_dispatches, dispatched, actions, verdict: Verdict::Proceed }
    }
}

} // verus!
