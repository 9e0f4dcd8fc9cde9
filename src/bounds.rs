use vstd::prelude::*;

verus! {

/// Height, in pixels, of the host window's fixed chrome area (the address bar)
/// that sits above the embedded browser surface.
pub const CHROME_HEIGHT: u32 = 60;

/// Where the browser surface is drawn, in the host window's content coordinates.
#[derive(Clone, Copy, Debug, PartialEq, Eq, Structural)]
pub struct EmbeddingBounds {
    pub x: u32,
    pub y: u32,
    pub width: u32,
    pub height: u32,
}

impl EmbeddingBounds {
    /// The surface starts right below the chrome and leaves room for it.
    pub open spec fn wf(self) -> bool {
        self.y >= CHROME_HEIGHT
    }
}

/// The height left for the browser surface under the chrome; none when the
/// content area is no taller than the chrome.
pub open spec fn surface_height(content_height: u32) -> u32 {
    if content_height > CHROME_HEIGHT {
        (content_height - CHROME_HEIGHT) as u32
    } else {
        0
    }
}

/// The bounds of the browser surface in a parent content area of the given size.
pub open spec fn embedding_bounds(content_width: u32, content_height: u32) -> EmbeddingBounds {
    EmbeddingBounds {
        x: 0,
        y: CHROME_HEIGHT,
        width: content_width,
        height: surface_height(content_height),
    }
}

/// Lays the browser surface out below the chrome, across the full width of the
/// parent's content area and down to its bottom edge.
pub fn compute_bounds(content_width: u32, content_height: u32) -> (r: EmbeddingBounds)
    ensures
        r.wf(),
        r.x == 0,
        r.y == CHROME_HEIGHT,
        r.width == content_width,
        r.height == surface_height(content_height),
        r == embedding_bounds(content_width, content_height),
{
    let height: u32 = if content_height > CHROME_HEIGHT {
        content_height - CHROME_HEIGHT
    } else {
        0
    };
    EmbeddingBounds { x: 0, y: CHROME_HEIGHT, width: content_width, height }
}

} // verus!
