use vstd::prelude::*;

verus! {

/// A host window reference that has passed validation: the raw native handle
/// (an `HWND`, an `NSWindow` pointer or an X11 window id, widened to 64 bits)
/// is known not to be null. It is handed straight to the attach step and
/// never stored.
#[derive(Clone, Copy, Debug, PartialEq, Eq, Structural)]
pub struct PlatformWindowHandle {
    pub raw: i64,
}

impl PlatformWindowHandle {
    pub open spec fn wf(self) -> bool {
        self.raw != 0
    }
}

/// The first step in resolving the raw handle that the host supplies: a null
/// handle resolves to nothing. A non-null one still has to be turned into the
/// platform's window by the host, and the outcome of both steps is what
/// `create_embedded_browser` takes.
pub fn resolve_window(raw: i64) -> (r: Option<PlatformWindowHandle>)
    ensures
        raw == 0 ==> r is None,
        raw != 0 ==> r == Some(PlatformWindowHandle { raw }),
        r matches Some(w) ==> w.wf(),
{
    if raw == 0 {
        None
    } else {
        Some(PlatformWindowHandle { raw })
    }
}

} // verus!
