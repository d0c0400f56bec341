//! Plain value types shared by the page model and the message protocol.
//!
//! Identifiers for pipelines, nodes, documents and script contexts are opaque
//! integers: the actor only ever compares them and passes them along, so an
//! integer handle carries everything the logic reads.

use vstd::prelude::*;

verus! {

/// Severity of accumulated document damage, in increasing order:
/// plain reflow, selector re-matching, full content change.
#[derive(Clone, Copy, Debug, PartialEq, Eq, Structural)]
pub enum DamageLevel {
    /// Reflow, but do not perform CSS selector matching.
    ReflowDocumentDamage,
    /// Perform CSS selector matching and reflow.
    MatchSelectorsDocumentDamage,
    /// Content changed: full style damage and all of the above.
    ContentChangedDocumentDamage,
}

impl DamageLevel {
    /// Position of the level in the severity order.
    pub open spec fn rank(self) -> int {
        match self {
            DamageLevel::ReflowDocumentDamage => 0,
            DamageLevel::MatchSelectorsDocumentDamage => 1,
            DamageLevel::ContentChangedDocumentDamage => 2,
        }
    }

    /// The more severe of two damage levels.
    pub open spec fn spec_max(self, other: DamageLevel) -> DamageLevel {
        if self.rank() >= other.rank() {
            self
        } else {
            other
        }
    }

    /// Combines this level with newly reported damage, keeping the more
    /// severe of the two.
    pub fn add(&mut self, new_damage: DamageLevel)
        ensures
            *final(self) == old(self).spec_max(new_damage),
    {
        match (*self, new_damage) {
            (DamageLevel::ReflowDocumentDamage, _) => {
                *self = new_damage;
            }
            (DamageLevel::MatchSelectorsDocumentDamage, DamageLevel::ContentChangedDocumentDamage) => {
                *self = new_damage;
            }
            (DamageLevel::MatchSelectorsDocumentDamage, _) => {}
            (DamageLevel::ContentChangedDocumentDamage, _) => {}
        }
    }
}

/// What parts of a document's presentation are stale and must be recomputed.
#[derive(Clone, Copy, Debug, PartialEq, Eq, Structural)]
pub struct DocumentDamage {
    /// Handle of the content root the damage is relative to.
    pub root: u64,
    /// How much recomputation the damage requires.
    pub level: DamageLevel,
}

/// Why a layout run is requested.
#[derive(Clone, Copy, Debug, PartialEq, Eq, Structural)]
pub enum ReflowGoal {
    /// Lay out and produce a display list for the compositor.
    ReflowForDisplay,
    /// Lay out only as far as a script query needs.
    ReflowForScriptQuery,
}

/// Size of a page's window, in whole device pixels.
#[derive(Clone, Copy, Debug, PartialEq, Eq, Structural)]
pub struct WindowSize {
    pub width: u32,
    pub height: u32,
}

/// A point in a page's coordinate space, in whole device pixels.
#[derive(Clone, Copy, Debug, PartialEq, Eq, Structural)]
pub struct Point {
    pub x: i32,
    pub y: i32,
}

/// A URL as the actor reads it: an opaque handle for everything up to the
/// fragment, plus the optional fragment identifier.  Two URLs are the same
/// page location exactly when both fields agree.
#[derive(Clone, Copy, Debug, PartialEq, Eq, Structural)]
pub struct PageUrl {
    /// Handle standing for scheme, host, path and query.
    pub address: u64,
    /// Fragment identifier, when the URL carries one.
    pub fragment: Option<u64>,
}

/// Cached copy of the most recent URL loaded on a page, with a flag that
/// records whether reloading that same URL must still run a reflow.
#[derive(Clone, Copy, Debug, PartialEq, Eq, Structural)]
pub struct UrlEntry {
    pub url: PageUrl,
    pub needs_reflow: bool,
}

/// The outermost frame of a live browsing context: its document and window
/// objects, and the document's root element when one exists.
#[derive(Clone, Copy, Debug, PartialEq, Eq, Structural)]
pub struct Frame {
    /// Handle of the document object.
    pub document: u64,
    /// Handle of the window object.
    pub window: u64,
    /// Handle of the document's root element, if the document has one.
    pub root_element: Option<u64>,
}

/// The script-execution state attached to a frame.  Present while the context
/// is live; cleared exactly once during teardown.
#[derive(Clone, Copy, Debug, PartialEq, Eq, Structural)]
pub struct JSPageInfo {
    /// Handle of the shared script-execution context.
    pub js_context: u64,
}

/// One live timer of a page's window.
#[derive(Clone, Copy, Debug, PartialEq, Eq, Structural)]
pub struct TimerEntry {
    pub id: u32,
    /// True for repeating timers; one-shot timers are dropped after firing.
    pub is_interval: bool,
}

/// Progress of loading/layout, reported to the compositing host.
#[derive(Clone, Copy, Debug, PartialEq, Eq, Structural)]
pub enum ReadyState {
    /// A document is being parsed and set up.
    Loading,
    /// A layout run is in progress.
    PerformingLayout,
    /// The most recent layout run has finished.
    FinishedLoading,
}

/// Session-history navigation direction.
#[derive(Clone, Copy, Debug, PartialEq, Eq, Structural)]
pub enum NavigationDirection {
    Forward,
    Back,
}

} // verus!
