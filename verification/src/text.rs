//! Text component: a string payload, an alignment mode, and a maximum layout
//! width.

use vstd::prelude::*;

verus! {

/// How a text block is aligned inside its width.
#[derive(Clone, Copy, PartialEq, Eq, Structural, Debug)]
pub enum TextAlignment {
    Left,
    Center,
}

/// Per-frame text content.
#[derive(Debug)]
pub struct TextComponent {
    pub text: String,
    pub alignment: TextAlignment,
    /// The maximum width of the laid-out text; the actual text may be
    /// narrower if the glyphs do not fill it.
    pub width: i64,
}

} // verus!
