//! Plain types shared by the rest of the crate.
use vstd::prelude::*;

verus! {

/// How the alpha channel of a frame is treated when it is composed.
#[derive(Clone, Copy, Debug, PartialEq, Eq, Structural)]
pub enum AlphaMode {
    /// The alpha channel must be set to full, everything is opaque.
    Opaque,
    /// The alpha channel is not looked at.
    Ignored,
    /// The color channels are already multiplied by alpha.
    Premultiplied,
    /// The color channels are yet to be multiplied by alpha.
    Postmultiplied,
}

impl AlphaMode {
    /// The modes that an `IOSurface` on a layer can show.
    pub open spec fn is_supported(self) -> bool {
        self is Opaque || self is Premultiplied
    }
}

/// A rectangle of a frame, in pixels.
#[derive(Clone, Copy, Debug, PartialEq, Eq, Structural)]
pub struct Rect {
    pub x: u32,
    pub y: u32,
    pub width: u32,
    pub height: u32,
}

/// Why a window gave no handle.
#[derive(Clone, Copy, Debug, PartialEq, Eq, Structural)]
pub enum HandleError {
    /// The window has no handle of a kind that can be asked for.
    NotSupported,
    /// The handle exists, but not at this moment.
    Unavailable,
}

/// What can go wrong with a surface.
#[derive(Debug, PartialEq, Eq)]
pub enum SoftBufferError {
    /// The platform refused, with an explanation where there is one.
    PlatformError(Option<String>),
    /// The window gave no handle.
    RawWindowHandle(HandleError),
}

/// Why no surface could be made for a window.
#[derive(Debug, PartialEq, Eq)]
pub enum InitError<W> {
    /// Windows of this kind are not handled here; the window is given back.
    Unsupported(W),
    /// Making the surface failed.
    Failure(SoftBufferError),
}

/// A surface could not be locked or unlocked; holds the code that the system gave.
#[derive(Clone, Copy, Debug, PartialEq, Eq, Structural)]
pub enum LockError {
    /// Locking failed.
    Lock(i32),
    /// Unlocking failed.
    Unlock(i32),
}

} // verus!
