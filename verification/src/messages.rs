//! The actor's message protocol.
//!
//! [`ScriptMsg`] is the closed set of control messages the actor accepts.
//! [`Action`] is the trace of outbound effects a transition step asks the
//! embedding loop to perform, in order: sends to a page's layout worker,
//! notifications to the compositing host, and operations on the
//! script-execution side (event dispatch, script evaluation, hover flags).

use vstd::prelude::*;
use crate::types::{DocumentDamage, NavigationDirection, PageUrl, Point, ReadyState, ReflowGoal, WindowSize};

verus! {

/// An input event delivered to a page.
#[derive(Clone, Copy, Debug, PartialEq, Eq, Structural)]
pub enum InputEvent {
    /// Window resized to the given size.
    ResizeEvent(WindowSize),
    /// Content changed; the whole document must reflow.
    ReflowEvent,
    /// Mouse click: button and point.
    ClickEvent(u32, Point),
    MouseDownEvent(u32, Point),
    MouseUpEvent(u32, Point),
    /// Pointer moved to the given point.
    MouseMoveEvent(Point),
}

/// Channel and identifiers for a newly created layout worker, together with
/// the id of the page that will own the new nested context.
#[derive(Clone, Copy, Debug, PartialEq, Eq, Structural)]
pub struct NewLayoutInfo {
    pub old_pipeline_id: u64,
    pub new_pipeline_id: u64,
    pub subpage_id: u32,
    pub layout_chan: u64,
}

/// Messages used to control the script actor.
#[derive(Clone, Copy, Debug, PartialEq, Eq, Structural)]
pub enum ScriptMsg {
    /// Loads a new URL on the specified pipeline.
    LoadMsg(u64, PageUrl),
    /// Acts on a fragment URL load on the specified pipeline.
    TriggerFragmentMsg(u64, PageUrl),
    /// Begins a content-initiated load on the specified pipeline.
    TriggerLoadMsg(u64, PageUrl),
    /// Attaches a new nested context, served by its own layout worker.
    AttachLayoutMsg(NewLayoutInfo),
    /// Asks the actor to forward a navigation request to the host.
    NavigateMsg(NavigationDirection),
    /// Delivers an input event to a page.
    SendEventMsg(u64, InputEvent),
    /// Window resized.  Coalesced per page before dispatch.
    ResizeMsg(u64, WindowSize),
    /// Fires a timer by id.
    FireTimerMsg(u64, u32),
    /// Notifies the actor that a reflow with the given id finished.
    ReflowCompleteMsg(u64, u64),
    /// Window resized while the page was inactive: record, do not reflow.
    ResizeInactiveMsg(u64, WindowSize),
    /// Closes the pipeline (root: the whole actor shuts down).
    ExitPipelineMsg(u64),
    /// A window close was requested; passed on to the host.
    ExitWindowMsg(u64),
    /// Progress report of a fetch: opaque address and progress payload.
    XHRProgressMsg(u64, u64),
}

impl ScriptMsg {
    /// True for the resize messages that the batcher coalesces instead of
    /// dispatching directly.
    pub open spec fn is_resize(self) -> bool {
        self is ResizeMsg
    }
}

/// One layout request, stamped with the page's next reflow id.
#[derive(Clone, Copy, Debug, PartialEq, Eq, Structural)]
pub struct ReflowRequest {
    /// Pipeline the request belongs to.
    pub page: u64,
    /// Handle of the document root to lay out.
    pub document_root: u64,
    /// URL currently loaded on the page.
    pub url: PageUrl,
    /// Why the reflow is wanted.
    pub goal: ReflowGoal,
    /// Current window size.
    pub window_size: WindowSize,
    /// The damage accumulated since the last reflow, taken out of the page.
    pub damage: DocumentDamage,
    /// Sequence id used to match the completion notification.
    pub id: u64,
}

/// One outbound effect of a transition step, to be performed by the embedding
/// loop in trace order.
#[derive(Clone, Copy, Debug, PartialEq, Eq, Structural)]
pub enum Action {
    /// Block until the outstanding reflow of the page has signaled
    /// completion; a closed channel without a signal is fatal.
    JoinLayout { page: u64 },
    /// Forward a discovered stylesheet to the page's layout worker.
    AddStylesheet { layout: u64, sheet: u64 },
    /// Send a reflow request to the page's layout worker; do not wait.
    SendReflow { layout: u64, request: ReflowRequest },
    /// Ask layout which single node lies at the point; synchronous reply.
    QueryHitTest { layout: u64, root: u64, point: Point },
    /// Ask layout for all nodes under the point; synchronous reply.
    QueryNodesUnderPoint { layout: u64, root: u64, point: Point },
    /// Tell the layout worker to prepare to exit and wait for its ack.
    PrepareToExit { layout: u64, page: u64 },
    /// Tell the layout worker to exit now; no ack awaited.
    ExitNow { layout: u64, page: u64 },
    /// Report loading/layout progress to the compositing host.
    SetReadyState { state: ReadyState },
    /// Tell the host that the page finished loading the URL.
    LoadComplete { page: u64, url: PageUrl },
    /// Ask the host to begin a load of the URL on the pipeline.
    LoadUrl { page: u64, url: PageUrl },
    /// Ask the host to navigate the session history.
    Navigate { direction: NavigationDirection },
    /// Pass a window-close request on to the host.
    CloseWindow,
    /// Scroll the page so the element is visible.
    ScrollToFragment { page: u64, node: u64 },
    /// Dispatch a window resize event on the script side.
    DispatchResizeEvent { page: u64, window: u64 },
    /// Dispatch a click event at the element on the script side.
    DispatchClickEvent { page: u64, target: u64 },
    /// Dispatch the document load event on the script side.
    DispatchLoadEvent { page: u64, document: u64, window: u64 },
    /// Evaluate a parsed script in the page's context.
    EvaluateScript { page: u64, script: u64 },
    /// Set or clear the hover flag of an element.
    SetHoverState { node: u64, hovered: bool },
    /// Run the callback of a fired timer.
    RunTimerCallback { page: u64, timer: u32 },
    /// Drop the frame's script-visible document and window references.
    ClearFrame { page: u64 },
    /// Release the script-execution state of the page.
    ReleaseContext { page: u64 },
    /// Force a full collection on the shared script runtime.
    CollectGarbage,
    /// Forward fetch progress to the interested request object.
    NotifyFetchProgress { address: u64, progress: u64 },
}

/// What a transition step tells the embedding loop to do next.
#[derive(Clone, Copy, Debug, PartialEq, Eq, Structural)]
pub enum Verdict {
    /// Keep receiving messages.
    Proceed,
    /// Normal shutdown: the root pipeline was exited.
    Stop,
    /// An internal invariant was violated; the actor must terminate
    /// abnormally (the crash-safety guard then fires).
    Fatal,
}

/// Everything the document-loading collaborators report back for one load:
/// the objects the parser and script runtime created, and the resolved
/// fragment target.
#[derive(Clone, Debug)]
pub struct LoadOutcome {
    /// Handle of the new window object.
    pub window: u64,
    /// Handle of the new document object.
    pub document: u64,
    /// Handle of the document's root element, if parsing produced one.
    pub root_element: Option<u64>,
    /// Stylesheets discovered while parsing, in order.
    pub stylesheets: Vec<u64>,
    /// Scripts discovered while parsing, in order.
    pub scripts: Vec<u64>,
    /// The element the URL's fragment resolves to, if any.
    pub fragment_node: Option<u64>,
}

/// Replies from the layout and script collaborators that an event handler
/// consumes: results of the synchronous layout queries and of walking hit
/// nodes up to their nearest element.
#[derive(Clone, Debug)]
pub struct EventAnswers {
    /// Nearest element at the clicked point, if the hit test found a node
    /// with an element ancestor.
    pub hit_element: Option<u64>,
    /// Elements under the pointer, if the area query answered.
    pub elements_under: Option<Vec<u64>>,
}

impl EventAnswers {
    /// Answers for events that consult no collaborator.
    pub fn none() -> (r: EventAnswers)
        ensures
            r.hit_element is None,
            r.elements_under is None,
    {
        EventAnswers { hit_element: None, elements_under: None }
    }
}

/// One queue message together with the collaborator replies its dispatch may
/// consume.
#[derive(Clone, Debug)]
pub struct Incoming {
    pub msg: ScriptMsg,
    /// Replies used when `msg` is a load.
    pub load: Option<LoadOutcome>,
    /// Replies used when `msg` delivers an input event.
    pub event: EventAnswers,
    /// The element a fragment navigation resolves to, when `msg` is one.
    pub fragment_node: Option<u64>,
}

impl Incoming {
    /// Wraps a message that consumes no collaborator replies.
    pub fn plain(msg: ScriptMsg) -> (r: Incoming)
        ensures
            r.msg == msg,
            r.load is None,
            r.event.hit_element is None,
            r.event.elements_under is None,
            r.fragment_node is None,
    {
        Incoming {
            msg,
            load: None,
            event: EventAnswers::none(),
            fragment_node: None,
        }
    }
}

/// What one iteration of the actor loop did: the synthetic resize events it
/// dispatched ahead of the queue, the batch messages it dispatched in
/// arrival order, the full outbound trace, and whether the actor keeps
/// running.
pub struct IterationOutcome {
    /// The coalesced resize events dispatched first, one per idle page with a
    /// pending resize, in preorder.
    pub resize_dispatches: Vec<(u64, WindowSize)>,
    /// The drained batch messages that were dispatched, in arrival order: the
    /// whole batch, unless a root exit or a failure dropped the rest.
    pub dispatched: Vec<ScriptMsg>,
    /// Everything the iteration asks the embedding loop to perform, in order.
    pub actions: Vec<Action>,
    /// Whether to keep receiving, stop normally, or fail.
    pub verdict: Verdict,
}

} // verus!
