//! Stacking levels for painting order, as defined by CSS 2.1 Appendix E.
//!
//! The layout collaborator hands display items back grouped by these levels;
//! the actor side only names the levels and the mapping from the coarser
//! background-and-border classification.

use vstd::prelude::*;

verus! {

/// "Steps" as defined by CSS 2.1 § E.2.
#[derive(Clone, Copy, Debug, PartialEq, Eq, Structural)]
pub enum StackingLevel {
    /// The border and backgrounds for the root of this stacking context:
    /// steps 1 and 2.
    BackgroundAndBordersStackingLevel,
    /// Borders and backgrounds for block-level descendants: step 4.
    BlockBackgroundsAndBordersStackingLevel,
    /// Floated descendants: step 5.  These are treated as pseudo-stacking
    /// contexts.
    FloatStackingLevel,
    /// All other content.
    ContentStackingLevel,
    /// Positioned descendant stacking contexts, along with their `z-index`
    /// levels.
    PositionedDescendantStackingLevel(i32),
}

/// Which level to place backgrounds and borders in.
#[derive(Clone, Copy, Debug, PartialEq, Eq, Structural)]
pub enum BackgroundAndBorderLevel {
    RootOfStackingContextLevel,
    BlockLevel,
    ContentLevel,
}

impl StackingLevel {
    /// The stacking level that backgrounds and borders of the given
    /// classification are painted at.
    pub fn from_background_and_border_level(level: BackgroundAndBorderLevel) -> (r: StackingLevel)
        ensures
            r == match level {
                BackgroundAndBorderLevel::RootOfStackingContextLevel =>
                    StackingLevel::BackgroundAndBordersStackingLevel,
                BackgroundAndBorderLevel::BlockLevel =>
                    StackingLevel::BlockBackgroundsAndBordersStackingLevel,
                BackgroundAndBorderLevel::ContentLevel =>
                    StackingLevel::ContentStackingLevel,
            },
    {
        match level {
            BackgroundAndBorderLevel::RootOfStackingContextLevel =>
                StackingLevel::BackgroundAndBordersStackingLevel,
            BackgroundAndBorderLevel::BlockLevel =>
                StackingLevel::BlockBackgroundsAndBordersStackingLevel,
            BackgroundAndBorderLevel::ContentLevel =>
                StackingLevel::ContentStackingLevel,
        }
    }
}

} // verus!
