//! The preview side of the editor: the pane, its errors and source positions.

use vstd::prelude::*;

verus! {

/// Errors of the preview.
#[derive(Debug)]
pub enum PreviewError {
    RenderingFailed(String),
    DocumentNotLoaded,
    InvalidPage(usize),
}

/// A position in a source file.
#[derive(Debug, Clone, Copy, PartialEq, Eq, Hash, Structural)]
pub struct SourcePosition {
    pub line: usize,
    pub column: usize,
}

/// The pane that shows the compiled document.
pub struct PreviewPane {
    visible: bool,
}

impl PreviewPane {
    pub closed spec fn visible_view(&self) -> bool {
        self.visible
    }

    /// A new pane is visible.
    pub fn new() -> (r: PreviewPane)
        ensures
            r.visible_view(),
    {
        PreviewPane { visible: true }
    }

    pub fn set_visible(&mut self, visible: bool)
        ensures
            final(self).visible_view() == visible,
    {
        self.visible = visible;
    }

    pub fn is_visible(&self) -> (r: bool)
        ensures
            r == self.visible_view(),
    {
        self.visible
    }
}

} // verus!
