use vstd::prelude::*;

verus! {

/// A key press, identified by the toolkit's key value.
#[derive(PartialEq, Eq, Structural, Hash, Debug, Clone, Copy)]
pub struct KeyPress(pub u32);

/// What a key can be bound to.
#[derive(PartialEq, Eq, Structural, Debug, Clone, Copy)]
pub enum KeyAction {
    Quit,
    Next,
    Previous,
    ScaleToFitCurrent,
    OriginalSize,
    ResizeToFitImage,
    ResizeToFitScreen,
    ZoomOut,
    ZoomIn,
    ScrollDown,
    ScrollUp,
    ScrollLeft,
    ScrollRight,
    ScrollVStart,
    ScrollVEnd,
    ScrollHStart,
    ScrollHEnd,
    ToggleStatus,
    JumpToStart,
    JumpToEnd,
    RotateClockwise,
    RotateCounterClockwise,
    RotateUpsideDown,
}

} // verus!
