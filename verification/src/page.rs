//! One browsing context and its reflow coordination.
//!
//! A [`Page`] owns the per-context mutable state: the live frame, the
//! accumulated damage, the in-flight-reflow indicator and its sequence
//! counter, the pending coalesced resize, the URL cache, the subpage-id
//! allocator and the window's timer table.
//!
//! Methods that talk to the page's layout worker return the ordered trace of
//! [`Action`]s for the embedding loop to perform; the state transition itself
//! is stated by a spec function and proved exactly.

use vstd::prelude::*;
use crate::messages::{Action, ReflowRequest};
use crate::types::{DamageLevel, DocumentDamage, Frame, JSPageInfo, PageUrl, Point, ReflowGoal, TimerEntry, UrlEntry, WindowSize};

verus! {

/// A node in the tree of browsing contexts.
#[derive(Clone, Debug)]
pub struct Page {
    /// Pipeline id of this browsing context; unique across the tree.
    pub id: u64,
    /// Subpage id, set for nested contexts and absent for the root.
    pub subpage_id: Option<u32>,
    /// Handle of this page's layout worker.
    pub layout_chan: u64,
    /// The outermost frame: absent before the first load and after teardown.
    pub frame: Option<Frame>,
    /// Accumulated damage awaiting the next reflow, if any.
    pub damage: Option<DocumentDamage>,
    /// Whether a reflow request is outstanding.  At most one reflow is in
    /// flight per page at any time.
    pub reflow_in_flight: bool,
    /// Id of the most recent reflow request; completions are matched against
    /// this exact value.
    pub last_reflow_id: u64,
    /// Current window size, once one has been established.
    pub window_size: Option<WindowSize>,
    /// Script-execution state; present while the context is live.
    pub js_info: Option<JSPageInfo>,
    /// Most recently loaded URL, with its reload-needs-reflow flag.
    pub url: Option<UrlEntry>,
    /// Allocator for the subpage ids of future children.
    pub next_subpage_id: u32,
    /// Latest pending resize, coalesced until the page is next idle.
    pub pending_resize: Option<WindowSize>,
    /// Deferred scroll target awaiting the next resize-driven reflow.
    pub fragment_node: Option<u64>,
    /// Live timers of the page's window.
    pub timers: Vec<TimerEntry>,
}

/// First position of a timer with the given id, if one is live.
fn find_timer(timers: &Vec<TimerEntry>, timer_id: u32) -> (r: Option<usize>)
    ensures
        r matches Some(j) ==> {
            &&& 0 <= j < timers@.len()
            &&& timers@[j as int].id == timer_id
            &&& forall|k: int| 0 <= k < j ==> timers@[k].id != timer_id
        },
        r is None ==> forall|k: int| 0 <= k < timers@.len() ==> timers@[k].id != timer_id,
{
    let mut i: usize = 0;
    while i < timers.len()
        invariant
            0 <= i <= timers@.len(),
            forall|k: int| 0 <= k < i ==> timers@[k].id != timer_id,
        decreases timers@.len() - i,
    {
        if timers[i].id == timer_id {
            return Some(i);
        }
        i = i + 1;
    }
    None
}

impl Page {
    /// Internal consistency: a page with a live frame has loaded a URL.
    pub open spec fn wf(self) -> bool {
        self.frame is Some ==> self.url is Some
    }

    /// A reflow request on this page would actually reach layout: the frame
    /// is live, the document has a root element, a window size has been
    /// established, and the sequence counter has headroom.
    pub open spec fn can_reflow(self) -> bool {
        &&& self.frame matches Some(f) && f.root_element is Some
        &&& self.window_size is Some
        &&& self.last_reflow_id < u64::MAX
    }

    /// Creates a fresh page for a new browsing context.  The frame, damage,
    /// URL cache and pending events all start empty; the script-execution
    /// state is attached from the start.
    pub fn new(
        id: u64,
        subpage_id: Option<u32>,
        layout_chan: u64,
        window_size: Option<WindowSize>,
        js_context: u64,
    ) -> (p: Page)
        ensures
            p == (Page {
                id,
                subpage_id,
                layout_chan,
                frame: None,
                damage: None,
                reflow_in_flight: false,
                last_reflow_id: 0,
                window_size,
                js_info: Some(JSPageInfo { js_context }),
                url: None,
                next_subpage_id: 0,
                pending_resize: None,
                fragment_node: None,
                timers: p.timers,
            }),
            p.timers@ =~= Seq::<TimerEntry>::empty(),
            p.wf(),
    {
        Page {
            id,
            subpage_id,
            layout_chan,
            frame: None,
            damage: None,
            reflow_in_flight: false,
            last_reflow_id: 0,
            window_size,
            js_info: Some(JSPageInfo { js_context }),
            url: None,
            next_subpage_id: 0,
            pending_resize: None,
            fragment_node: None,
            timers: Vec::new(),
        }
    }

    /// The page state after `add_damage(level)`: if the frame is live and the
    /// document has a root element, the new damage is merged in — install it
    /// when none is pending, otherwise keep the more severe level and the
    /// most recently supplied root.  Otherwise the page is unchanged.
    pub open spec fn spec_add_damage(self, level: DamageLevel) -> Page {
        match self.frame {
            None => self,
            Some(f) => match f.root_element {
                None => self,
                Some(root) => {
                    let merged = match self.damage {
                        None => (DocumentDamage { root, level }),
                        Some(d) => (DocumentDamage { root, level: d.level.spec_max(level) }),
                    };
                    Page { damage: Some(merged), ..self }
                }
            }
        }
    }

    /// Adds the given damage, per the merge rule of [`Self::spec_add_damage`].
    ///
    /// On merge the root reference is always replaced by the current one,
    /// never traced to a common ancestor; this keeps the documented
    /// approximation that downstream layout scheduling was built against.
    pub fn damage(&mut self, level: DamageLevel)
        ensures
            *final(self) == old(self).spec_add_damage(level),
    {
        let root: u64 = match &self.frame {
            None => { return; }
            Some(f) => match f.root_element {
                None => { return; }
                Some(root) => root,
            }
        };
        match &self.damage {
            None => {
                self.damage = Some(DocumentDamage { root, level });
            }
            Some(d) => {
                let mut merged_level = d.level;
                merged_level.add(level);
                self.damage = Some(DocumentDamage { root, level: merged_level });
            }
        }
    }

    /// Read access to the frame.
    pub fn frame(&self) -> (r: &Option<Frame>)
        ensures
            *r == self.frame,
    {
        &self.frame
    }

    /// Exclusive access to the frame; the actor is single-threaded, so the
    /// type system's aliasing rules are the only guard needed.
    pub fn mut_frame(&mut self) -> (r: &mut Option<Frame>)
        ensures
            *r == old(self).frame,
            *final(self) == (Page { frame: *final(r), ..*old(self) }),
    {
        &mut self.frame
    }

    /// Read access to the script-execution state.
    pub fn js_info(&self) -> (r: &Option<JSPageInfo>)
        ensures
            *r == self.js_info,
    {
        &self.js_info
    }

    /// Exclusive access to the script-execution state.
    pub fn mut_js_info(&mut self) -> (r: &mut Option<JSPageInfo>)
        ensures
            *r == old(self).js_info,
            *final(self) == (Page { js_info: *final(r), ..*old(self) }),
    {
        &mut self.js_info
    }

    /// Read access to the URL cache.
    pub fn url(&self) -> (r: &Option<UrlEntry>)
        ensures
            *r == self.url,
    {
        &self.url
    }

    /// Exclusive access to the URL cache.
    pub fn mut_url(&mut self) -> (r: &mut Option<UrlEntry>)
        ensures
            *r == old(self).url,
            *final(self) == (Page { url: *final(r), ..*old(self) }),
    {
        &mut self.url
    }

    /// The most recently loaded URL.  Callers only ask once a load has
    /// cached one.
    pub fn get_url(&self) -> (u: PageUrl)
        requires
            self.url is Some,
        ensures
            u == self.url->Some_0.url,
    {
        match &self.url {
            Some(entry) => entry.url,
            None => unreached(),
        }
    }

    /// Allocates the subpage id for the next child context.
    pub fn get_next_subpage_id(&mut self) -> (id: u32)
        requires
            old(self).next_subpage_id < u32::MAX,
        ensures
            id == old(self).next_subpage_id,
            *final(self) == (Page { next_subpage_id: (old(self).next_subpage_id + 1) as u32, ..*old(self) }),
    {
        let id = self.next_subpage_id;
        self.next_subpage_id = self.next_subpage_id + 1;
        id
    }

    /// Records a timer of the page's window, so a later fire message can be
    /// matched against it.
    pub fn register_timer(&mut self, id: u32, is_interval: bool)
        ensures
            *final(self) == (Page { timers: final(self).timers, ..*old(self) }),
            final(self).timers@ == old(self).timers@.push(TimerEntry { id, is_interval }),
    {
        self.timers.push(TimerEntry { id, is_interval });
    }

    /// The trace of joining any outstanding reflow: one blocking join when a
    /// reflow is in flight, nothing otherwise.
    pub open spec fn spec_join_actions(self) -> Seq<Action> {
        if self.reflow_in_flight {
            seq![(Action::JoinLayout { page: self.id })]
        } else {
            Seq::empty()
        }
    }

    /// Waits until the layout worker has finished any outstanding reflow.
    /// The embedding loop performs the emitted blocking join; a join owed a
    /// result by a dead worker is fatal there.  Afterwards no reflow is in
    /// flight.
    pub fn join_layout(&mut self) -> (a: Vec<Action>)
        ensures
            *final(self) == (Page { reflow_in_flight: false, ..*old(self) }),
            a@ == old(self).spec_join_actions(),
    {
        let mut a: Vec<Action> = Vec::new();
        if self.reflow_in_flight {
            a.push(Action::JoinLayout { page: self.id });
            self.reflow_in_flight = false;
        }
        assert(a@ =~= old(self).spec_join_actions());
        a
    }

    /// The reflow request a page in this state would send: stamped with the
    /// next sequence id and carrying the accumulated damage.
    pub open spec fn spec_reflow_request(self, goal: ReflowGoal) -> ReflowRequest
        recommends
            self.can_reflow(),
            self.damage is Some,
            self.url is Some,
    {
        ReflowRequest {
            page: self.id,
            document_root: self.frame->Some_0.root_element->Some_0,
            url: self.url->Some_0.url,
            goal,
            window_size: self.window_size->Some_0,
            damage: self.damage->Some_0,
            id: (self.last_reflow_id + 1) as u64,
        }
    }

    /// The page state after `reflow(goal)`: when a reflow can be issued, the
    /// sequence counter advances, the request is in flight and the damage
    /// has been taken; otherwise nothing changes.
    pub open spec fn spec_reflow_state(self, goal: ReflowGoal) -> Page {
        if self.can_reflow() {
            Page {
                reflow_in_flight: true,
                last_reflow_id: (self.last_reflow_id + 1) as u64,
                damage: None,
                ..self
            }
        } else {
            self
        }
    }

    /// The trace of `reflow(goal)`: join any outstanding reflow, tell the
    /// host layout is running, then send the stamped request — or nothing,
    /// when the page cannot reflow.
    pub open spec fn spec_reflow_actions(self, goal: ReflowGoal) -> Seq<Action> {
        if self.can_reflow() {
            self.spec_join_actions() + seq![
                (Action::SetReadyState { state: crate::types::ReadyState::PerformingLayout }),
                (Action::SendReflow { layout: self.layout_chan, request: self.spec_reflow_request(goal) }),
            ]
        } else {
            Seq::empty()
        }
    }

    /// Requests a layout run, without waiting for it to complete.
    ///
    /// A page with no live frame, no document root element or no established
    /// window size performs no layout work, so the request is silently
    /// dropped.  Otherwise any outstanding reflow is joined first — at most
    /// one is ever in flight — and the new request carries the damage
    /// accumulated since the last one, leaving none pending.
    pub fn reflow(&mut self, goal: ReflowGoal) -> (a: Vec<Action>)
        requires
            old(self).can_reflow() ==> old(self).damage is Some && old(self).url is Some,
        ensures
            *final(self) == old(self).spec_reflow_state(goal),
            a@ == old(self).spec_reflow_actions(goal),
            old(self).can_reflow() ==> final(self).reflow_in_flight
                && final(self).damage is None
                && final(self).last_reflow_id == old(self).last_reflow_id + 1,
    {
        let root: u64 = match &self.frame {
            None => { return Vec::new(); }
            Some(f) => match f.root_element {
                None => { return Vec::new(); }
                Some(root) => root,
            }
        };
        let window_size: WindowSize = match self.window_size {
            None => { return Vec::new(); }
            Some(ws) => ws,
        };
        if self.last_reflow_id == u64::MAX {
            return Vec::new();
        }
        let mut a = self.join_layout();
        a.push(Action::SetReadyState { state: crate::types::ReadyState::PerformingLayout });
        self.reflow_in_flight = true;
        self.last_reflow_id = self.last_reflow_id + 1;
        let damage: DocumentDamage = match &self.damage {
            Some(d) => *d,
            None => unreached(),
        };
        self.damage = None;
        let request = ReflowRequest {
            page: self.id,
            document_root: root,
            url: self.get_url(),
            goal,
            window_size,
            damage,
            id: self.last_reflow_id,
        };
        a.push(Action::SendReflow { layout: self.layout_chan, request });
        assert(a@ =~= old(self).spec_reflow_actions(goal));
        a
    }

    /// At most one reflow is ever in flight per page — the in-flight
    /// indicator is a single optional handle — and a request issued while
    /// one is outstanding blocks on it first: the trace of `reflow` on such
    /// a page begins with the blocking join, and only after it tells the
    /// host layout runs and sends the new request.
    pub proof fn lemma_reflow_joins_outstanding(p: Page, goal: ReflowGoal)
        requires
            p.reflow_in_flight,
            p.can_reflow(),
        ensures
            p.spec_reflow_actions(goal).len() == 3,
            p.spec_reflow_actions(goal)[0] == (Action::JoinLayout { page: p.id }),
            p.spec_reflow_actions(goal)[1] == (Action::SetReadyState {
                state: crate::types::ReadyState::PerformingLayout,
            }),
            p.spec_reflow_actions(goal)[2] == (Action::SendReflow {
                layout: p.layout_chan,
                request: p.spec_reflow_request(goal),
            }),
            p.spec_reflow_state(goal).reflow_in_flight,
    {
    }

    /// A second reflow request issued right after a first, with no
    /// completion observed in between, must block: the first leaves its
    /// request in flight, so the second's trace starts with the join of the
    /// first.
    pub proof fn lemma_second_reflow_blocks(p: Page, goal1: ReflowGoal, goal2: ReflowGoal)
        requires
            p.can_reflow(),
            p.spec_reflow_state(goal1).can_reflow(),
        ensures
            p.spec_reflow_state(goal1).spec_reflow_actions(goal2)[0]
                == (Action::JoinLayout { page: p.id }),
    {
        Page::lemma_reflow_joins_outstanding(p.spec_reflow_state(goal1), goal2);
    }

    /// Performs a hit test at the point against the current layout snapshot.
    ///
    /// The outstanding reflow, if any, is joined first, so the synchronous
    /// query observes a consistent, already-flushed layout.  The embedding
    /// loop answers the emitted query; its reply is handed in as `response`
    /// and returned whenever the query was actually posed (the contract
    /// holds for every reply).  A document with no root element answers no
    /// queries.
    pub fn hit_test(&mut self, point: Point, response: Option<u64>) -> (r: (Vec<Action>, Option<u64>))
        requires
            old(self).frame is Some,
        ensures
            old(self).frame->Some_0.root_element matches Some(root) ==> {
                &&& *final(self) == (Page { reflow_in_flight: false, ..*old(self) })
                &&& r.0@ == old(self).spec_join_actions() + seq![
                    (Action::QueryHitTest { layout: old(self).layout_chan, root, point })]
                &&& r.1 == response
            },
            old(self).frame->Some_0.root_element is None ==> {
                &&& *final(self) == *old(self)
                &&& r.0@ == Seq::<Action>::empty()
                &&& r.1 is None
            },
    {
        let root: u64 = match &self.frame {
            Some(f) => match f.root_element {
                None => { return (Vec::new(), None); }
                Some(root) => root,
            },
            None => unreached(),
        };
        let mut a = self.join_layout();
        a.push(Action::QueryHitTest { layout: self.layout_chan, root, point });
        (a, response)
    }

    /// Performs an area hit test returning all nodes under the point.
    ///
    /// Synchronization and the role of `response` are as in
    /// [`Self::hit_test`].
    pub fn get_nodes_under_mouse(&mut self, point: Point, response: Option<Vec<u64>>) -> (r: (Vec<Action>, Option<Vec<u64>>))
        requires
            old(self).frame is Some,
        ensures
            old(self).frame->Some_0.root_element matches Some(root) ==> {
                &&& *final(self) == (Page { reflow_in_flight: false, ..*old(self) })
                &&& r.0@ == old(self).spec_join_actions() + seq![
                    (Action::QueryNodesUnderPoint { layout: old(self).layout_chan, root, point })]
                &&& r.1 == response
            },
            old(self).frame->Some_0.root_element is None ==> {
                &&& *final(self) == *old(self)
                &&& r.0@ == Seq::<Action>::empty()
                &&& r.1 is None
            },
    {
        let root: u64 = match &self.frame {
            Some(f) => match f.root_element {
                None => { return (Vec::new(), None); }
                Some(root) => root,
            },
            None => unreached(),
        };
        let mut a = self.join_layout();
        a.push(Action::QueryNodesUnderPoint { layout: self.layout_chan, root, point });
        (a, response)
    }

    /// Exactly what firing a timer does: an unknown id is a no-op; a live id
    /// runs its callback, and a one-shot entry (the first with that id)
    /// leaves the table.
    pub open spec fn spec_fire_timer(pre: Page, post: Page, a: Seq<Action>, timer_id: u32) -> bool {
        if forall|k: int| 0 <= k < pre.timers@.len() ==> pre.timers@[k].id != timer_id {
            post == pre && a == Seq::<Action>::empty()
        } else {
            exists|j: int| #![trigger pre.timers@[j]] {
                &&& 0 <= j < pre.timers@.len()
                &&& pre.timers@[j].id == timer_id
                &&& (forall|k: int| 0 <= k < j ==> pre.timers@[k].id != timer_id)
                &&& a == seq![(Action::RunTimerCallback { page: pre.id, timer: timer_id })]
                &&& post == (Page { timers: post.timers, ..pre })
                &&& post.timers@ == (if pre.timers@[j].is_interval {
                    pre.timers@
                } else {
                    pre.timers@.remove(j)
                })
            }
        }
    }

    /// Fires the timer with the given id, if it is still live: its callback
    /// runs, and a one-shot timer is dropped from the table.  An unknown id
    /// (a timer already cancelled) is a no-op.
    pub fn fire_timer(&mut self, timer_id: u32) -> (a: Vec<Action>)
        ensures
            Page::spec_fire_timer(*old(self), *final(self), a@, timer_id),
    {
        let found = find_timer(&self.timers, timer_id);
        match found {
            None => Vec::new(),
            Some(j) => {
                let mut a: Vec<Action> = Vec::new();
                a.push(Action::RunTimerCallback { page: self.id, timer: timer_id });
                if !self.timers[j].is_interval {
                    self.timers.remove(j);
                }
                a
            }
        }
    }
}

} // verus!
