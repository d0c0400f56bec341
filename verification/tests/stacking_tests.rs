//! Stacking levels of CSS 2.1 Appendix E.

use script_task::stacking::{BackgroundAndBorderLevel, StackingLevel};

#[test]
fn background_and_border_levels_map_to_their_steps() {
    assert_eq!(
        StackingLevel::from_background_and_border_level(
            BackgroundAndBorderLevel::RootOfStackingContextLevel
        ),
        StackingLevel::BackgroundAndBordersStackingLevel
    );
    assert_eq!(
        StackingLevel::from_background_and_border_level(BackgroundAndBorderLevel::BlockLevel),
        StackingLevel::BlockBackgroundsAndBordersStackingLevel
    );
    assert_eq!(
        StackingLevel::from_background_and_border_level(BackgroundAndBorderLevel::ContentLevel),
        StackingLevel::ContentStackingLevel
    );
}

#[test]
fn positioned_levels_carry_their_z_index() {
    let level = StackingLevel::PositionedDescendantStackingLevel(-7);
    assert_eq!(level, StackingLevel::PositionedDescendantStackingLevel(-7));
    assert_ne!(level, StackingLevel::PositionedDescendantStackingLevel(7));
    assert_ne!(level, StackingLevel::FloatStackingLevel);
}
