//! A surface on a window, and a frame that is being drawn to it.
use std::marker::PhantomData;

use vstd::prelude::*;

use crate::buffer::{Buffer, Surface};
use crate::layer::{setup_commands, show_commands, teardown_commands, KeyPath, LayerCommand};
use crate::ring::{BufferRing, PendingBuffers};
use crate::types::{AlphaMode, HandleError, InitError, LockError, Rect, SoftBufferError};
use crate::wait::BackBufferWait;

verus! {

/// The kind of handle that a window gave.
#[derive(Clone, Copy, Debug, PartialEq, Eq, Structural)]
pub enum WindowHandle {
    /// The window shows an `NSView`.
    AppKit,
    /// The window shows a `UIView`.
    UiKit,
    /// The window belongs to another windowing system.
    Other,
}

/// The kind of view whose layer is the root layer.
#[derive(Clone, Copy, Debug, PartialEq, Eq, Structural)]
pub enum ViewKind {
    AppKit,
    UiKit,
}

impl ViewKind {
    /// Whether the view must be told to have a layer before it is asked for one.
    pub fn force_layer_backed(self) -> (force: bool)
        ensures
            force == (self is AppKit),
    {
        match self {
            ViewKind::AppKit => true,
            ViewKind::UiKit => false,
        }
    }
}

/// A window that a surface is being made for on the main thread, where views can be used.
#[derive(Debug)]
pub struct MainThreadWindow<W> {
    window_src: W,
}

impl<W> MainThreadWindow<W> {
    /// The window.
    pub closed spec fn window_src(&self) -> W {
        self.window_src
    }

    /// The window, to be asked for its handle.
    pub fn window(&self) -> (window: &W)
        ensures
            *window == self.window_src(),
    {
        &self.window_src
    }

    /// Views can only be accessed from the main thread.
    pub fn new(window_src: W, on_main_thread: bool) -> (result: Result<Self, InitError<W>>)
        ensures
            on_main_thread ==> (result matches Ok(window) && window.window_src() == window_src),
            !on_main_thread ==> (result matches Err(InitError::Failure(
                SoftBufferError::PlatformError(Some(message)),
            )) && message@
                == "can only access Core Graphics handles from the main thread"@),
    {
        if !on_main_thread {
            let message = "can only access Core Graphics handles from the main thread".to_owned();
            return Err(InitError::Failure(SoftBufferError::PlatformError(Some(message))));
        }
        Ok(MainThreadWindow { window_src })
    }

    /// Decides where the root layer comes from. Windows that are not of an Apple windowing system
    /// are given back.
    pub fn root_layer(self, handle: Result<WindowHandle, HandleError>) -> (result: Result<
        RootLayer<W>,
        InitError<W>,
    >)
        ensures
            match handle {
                Ok(WindowHandle::AppKit) => result matches Ok(root) && root.window_src()
                    == self.window_src() && root.view_kind() is AppKit,
                Ok(WindowHandle::UiKit) => result matches Ok(root) && root.window_src()
                    == self.window_src() && root.view_kind() is UiKit,
                Ok(WindowHandle::Other) => result == Err::<RootLayer<W>, _>(
                    InitError::Unsupported(self.window_src()),
                ),
                Err(error) => result == Err::<RootLayer<W>, InitError<W>>(
                    InitError::Failure(SoftBufferError::RawWindowHandle(error)),
                ),
            },
    {
        match handle {
            Ok(WindowHandle::AppKit) => Ok(
                RootLayer { window_src: self.window_src, view: ViewKind::AppKit },
            ),
            Ok(WindowHandle::UiKit) => Ok(
                RootLayer { window_src: self.window_src, view: ViewKind::UiKit },
            ),
            Ok(WindowHandle::Other) => Err(InitError::Unsupported(self.window_src)),
            Err(error) => Err(InitError::Failure(SoftBufferError::RawWindowHandle(error))),
        }
    }
}

/// A window with a view that the root layer is taken from, on the main thread.
#[derive(Debug, PartialEq, Eq)]
pub struct RootLayer<W> {
    window_src: W,
    view: ViewKind,
}

impl<W> RootLayer<W> {
    /// The window.
    pub closed spec fn window_src(&self) -> W {
        self.window_src
    }

    /// The kind of the view.
    pub closed spec fn view_kind(&self) -> ViewKind {
        self.view
    }

    /// The window.
    pub fn window(&self) -> (window: &W)
        ensures
            *window == self.window_src(),
    {
        &self.window_src
    }

    /// The kind of the view that the root layer is taken from.
    pub fn view(&self) -> (view: ViewKind)
        ensures
            view == self.view_kind(),
    {
        self.view
    }

    /// The commands that set up the surface's layer, once there is a root layer.
    pub fn set_up<'a, S>(&self) -> (commands: Vec<LayerCommand<'a, S>>)
        ensures
            commands@ == crate::layer::setup_list::<S>(),
            commands@ == seq![
                LayerCommand::<S>::AddSublayer,
                LayerCommand::AnchorAtOrigin,
                LayerCommand::SetGeometryFlipped(true),
                LayerCommand::AddObserver(KeyPath::ContentsScale),
                LayerCommand::AddObserver(KeyPath::Bounds),
                LayerCommand::ResizeContents,
                LayerCommand::MagnifyNearest,
                LayerCommand::MinifyNearest,
                LayerCommand::SetOpaque(true),
            ],
    {
        setup_commands()
    }
}

/// What a surface amounts to.
#[verifier::ext_equal]
pub struct SurfaceState<W, S> {
    /// The buffers, from the front one to the back one.
    pub buffers: Seq<Buffer<S>>,
    /// The width that the buffers were made with.
    pub width: u32,
    /// The height that the buffers were made with.
    pub height: u32,
    /// The window.
    pub window: W,
}

impl<W, S> SurfaceState<W, S> {
    /// Whether the buffers do for the given size.
    pub open spec fn fits(self, width: u32, height: u32) -> bool {
        self.width == width && self.height == height
    }

    /// With new buffers of the given size.
    pub open spec fn with_new_buffers(
        self,
        width: u32,
        height: u32,
        surfaces: Seq<Surface<S>>,
    ) -> Self {
        SurfaceState { buffers: crate::ring::fresh(surfaces), width, height, ..self }
    }
}

/// A surface on the window `W` of the display `D`, with surfaces that are held by an `S`.
#[derive(Debug)]
pub struct CGImpl<D, W, S> {
    /// The buffers to render into, rotated on each present.
    buffers: BufferRing<S>,
    /// The width of the buffers.
    width: u32,
    /// The height of the buffers.
    height: u32,
    window_handle: W,
    _display: PhantomData<D>,
}

impl<D, W, S> View for CGImpl<D, W, S> {
    type V = SurfaceState<W, S>;

    closed spec fn view(&self) -> SurfaceState<W, S> {
        SurfaceState {
            buffers: self.buffers@,
            width: self.width,
            height: self.height,
            window: self.window_handle,
        }
    }
}

/// What configuring a surface comes down to.
#[derive(Debug)]
pub struct Configuration<S> {
    /// Whether the layer is to be opaque.
    pub opaque: bool,
    /// The buffers to make, where those that there are do not do.
    pub recreate: Option<PendingBuffers<S>>,
}

impl<D, W, S> CGImpl<D, W, S> {
    /// There are as many buffers as there must be, and their ages are in order.
    pub open spec fn well_formed(&self) -> bool {
        crate::ring::usable(self@.buffers)
    }

    /// A surface with the buffers that were made for it.
    ///
    /// The buffers are to be of the size that the layer has once it was set up: its bounds times
    /// its scale factor.
    pub fn new(root: RootLayer<W>, buffers: PendingBuffers<S>) -> (surface: Self)
        requires
            buffers.is_complete(),
        ensures
            surface.well_formed(),
            surface@ == (SurfaceState {
                buffers: crate::ring::fresh(buffers.surfaces()),
                width: buffers.width(),
                height: buffers.height(),
                window: root.window_src(),
            }),
            surface@.buffers.len() == 3,
            forall|i: int|
                0 <= i < 3 ==> (#[trigger] surface@.buffers[i]).surface == buffers.surfaces()[i]
                    && surface@.buffers[i].age == 0 && surface@.buffers[i].locks == 0,
    {
        let width: u32 = buffers.get_width();
        let height: u32 = buffers.get_height();
        CGImpl {
            buffers: buffers.into_ring(),
            width,
            height,
            window_handle: root.window_src,
            _display: PhantomData,
        }
    }

    /// The commands to end the surface with.
    pub fn drop<'a>(&self) -> (commands: Vec<LayerCommand<'a, S>>)
        ensures
            commands@ == crate::layer::teardown_list::<S>(),
            commands@ == seq![
                LayerCommand::<S>::RemoveObserver(KeyPath::ContentsScale),
                LayerCommand::RemoveObserver(KeyPath::Bounds),
                LayerCommand::RemoveFromSuperlayer,
            ],
    {
        teardown_commands()
    }

    /// The window.
    pub fn window(&self) -> (window: &W)
        ensures
            *window == self@.window,
    {
        &self.window_handle
    }

    /// Whether a mode can be configured. Surfaces can neither ignore alpha nor multiply by it.
    pub fn supports_alpha_mode(&self, alpha_mode: AlphaMode) -> (supported: bool)
        ensures
            supported == alpha_mode.is_supported(),
            supported == (alpha_mode is Opaque || alpha_mode is Premultiplied),
    {
        matches!(alpha_mode, AlphaMode::Opaque | AlphaMode::Premultiplied)
    }

    /// Decides what a new size and alpha mode take. Buffers are made anew only where the size
    /// changes, and then [`CGImpl::replace_buffers`] puts them in place.
    pub fn configure(&self, width: u32, height: u32, alpha_mode: AlphaMode) -> (result: Result<
        Configuration<S>,
        SoftBufferError,
    >)
        requires
            width != 0,
            height != 0,
            alpha_mode.is_supported(),
        ensures
            result matches Ok(configuration) && {
                &&& configuration.opaque == (alpha_mode is Opaque)
                &&& configuration.recreate is None <==> self@.fits(width, height)
                &&& configuration.recreate is None <==> self@.width == width && self@.height
                    == height
                &&& configuration.recreate matches Some(pending) ==> {
                    &&& pending.width() == width
                    &&& pending.height() == height
                    &&& pending.surfaces() == Seq::<Surface<S>>::empty()
                }
            },
    {
        let opaque = match alpha_mode {
            AlphaMode::Opaque => true,
            _ => false,
        };
        if self.width == width && self.height == height {
            return Ok(Configuration { opaque, recreate: None });
        }
        Ok(Configuration { opaque, recreate: Some(PendingBuffers::new(width, height)) })
    }

    /// Puts new buffers in place. The old ones can be released: whoever still shows them keeps them
    /// alive.
    pub fn replace_buffers(&mut self, buffers: PendingBuffers<S>)
        requires
            buffers.is_complete(),
        ensures
            final(self).well_formed(),
            final(self)@ == old(self)@.with_new_buffers(
                buffers.width(),
                buffers.height(),
                buffers.surfaces(),
            ),
            final(self)@.width == buffers.width(),
            final(self)@.height == buffers.height(),
            final(self)@.window == old(self)@.window,
            final(self)@.buffers.len() == 3,
            forall|i: int|
                0 <= i < 3 ==> (#[trigger] final(self)@.buffers[i]).surface == buffers.surfaces()[i]
                    && final(self)@.buffers[i].age == 0 && final(self)@.buffers[i].locks == 0,
    {
        let width: u32 = buffers.get_width();
        let height: u32 = buffers.get_height();
        self.buffers = buffers.into_ring();
        self.width = width;
        self.height = height;
    }

    /// The buffer whose surface is to be waited for and locked before a frame is drawn.
    pub fn back_buffer(&self) -> (buffer: &Buffer<S>)
        requires
            self.well_formed(),
        ensures
            *buffer == self@.buffers.last(),
    {
        self.buffers.back()
    }

    /// Starts a frame, once the wait for the back buffer is over and locking it gave `lock_ret`.
    ///
    /// The buffer is unlocked again by [`BufferImpl::present_with_damage`] or [`BufferImpl::drop`].
    pub fn next_buffer(
        &mut self,
        _alpha_mode: AlphaMode,
        wait: BackBufferWait,
        lock_ret: i32,
    ) -> (result: Result<BufferImpl<'_, S>, LockError>)
        requires
            old(self).well_formed(),
            wait@ is Over,
            lock_ret == 0 ==> old(self)@.buffers.last().locks < u64::MAX,
        ensures
            match result {
                Ok(buffer) => {
                    &&& lock_ret == 0
                    &&& buffer.well_formed()
                    &&& buffer.ring() == crate::ring::lock_back(old(self)@.buffers)
                    &&& buffer.ring().len() == 3
                    &&& forall|i: int|
                        0 <= i < 3 ==> (#[trigger] buffer.ring()[i]).surface
                            == old(self)@.buffers[i].surface && buffer.ring()[i].age
                            == old(self)@.buffers[i].age
                    &&& forall|i: int|
                        0 <= i < 2 ==> (#[trigger] buffer.ring()[i]).locks
                            == old(self)@.buffers[i].locks
                    &&& buffer.ring()[2].locks == old(self)@.buffers[2].locks + 1
                    &&& final(self)@ == (SurfaceState {
                        buffers: final(buffer.buffers)@,
                        ..old(self)@
                    })
                },
                Err(error) => {
                    &&& lock_ret != 0
                    &&& error == LockError::Lock(lock_ret)
                    &&& final(self)@ == old(self)@
                },
            },
    {
        match self.buffers.lock_back(lock_ret) {
            Ok(()) => Ok(BufferImpl { buffers: &mut self.buffers }),
            Err(error) => Err(error),
        }
    }
}

/// A frame that is being drawn into the back buffer, and can be presented.
#[derive(Debug)]
pub struct BufferImpl<'surface, S> {
    /// The buffers of the surface.
    pub buffers: &'surface mut BufferRing<S>,
}

impl<'surface, S> BufferImpl<'surface, S> {
    /// The buffers of the surface, from the front one to the back one.
    pub open spec fn ring(&self) -> Seq<Buffer<S>> {
        self.buffers@
    }

    /// While a frame is drawn, the back buffer is locked.
    pub open spec fn well_formed(&self) -> bool {
        crate::ring::drawing(self.ring())
    }

    /// The surface to draw into, and to unlock at the end.
    pub fn surface(&self) -> (surface: &S)
        requires
            self.well_formed(),
        ensures
            *surface == self.ring().last().surface.handle,
    {
        &self.buffers.back().surface.handle
    }

    /// Gives the frame up, after unlocking the back buffer gave `unlock_ret`.
    pub fn drop(self, unlock_ret: i32) -> (result: Result<(), LockError>)
        requires
            self.well_formed(),
        ensures
            unlock_ret == 0 ==> result is Ok && final(self.buffers)@ == crate::ring::unlock_back(
                self.ring(),
            ) && crate::ring::usable(final(self.buffers)@),
            unlock_ret == 0 ==> {
                &&& final(self.buffers)@.len() == 3
                &&& forall|i: int|
                    0 <= i < 3 ==> (#[trigger] final(self.buffers)@[i]).surface
                        == self.ring()[i].surface && final(self.buffers)@[i].age
                        == self.ring()[i].age
                &&& forall|i: int|
                    0 <= i < 2 ==> (#[trigger] final(self.buffers)@[i]).locks
                        == self.ring()[i].locks
                &&& final(self.buffers)@[2].locks == self.ring()[2].locks - 1
            },
            unlock_ret != 0 ==> result == Err::<(), _>(LockError::Unlock(unlock_ret)),
            unlock_ret != 0 ==> final(self.buffers)@ == self.ring(),
    {
        self.buffers.unlock_back(unlock_ret)
    }

    /// Bytes from one row to the next.
    pub fn byte_stride(&self) -> (stride: u32)
        requires
            self.well_formed(),
            self.ring().last().surface.bytes_per_row as u32 != 0,
        ensures
            stride == self.ring().last().surface.bytes_per_row as u32,
            stride != 0,
    {
        self.buffers.back().surface.bytes_per_row as u32
    }

    /// Width in pixels.
    pub fn width(&self) -> (width: u32)
        requires
            self.well_formed(),
            self.ring().last().surface.width as u32 != 0,
        ensures
            width == self.ring().last().surface.width as u32,
            width != 0,
    {
        self.buffers.back().surface.width as u32
    }

    /// Height in pixels.
    pub fn height(&self) -> (height: u32)
        requires
            self.well_formed(),
            self.ring().last().surface.height as u32 != 0,
        ensures
            height == self.ring().last().surface.height as u32,
            height != 0,
    {
        self.buffers.back().surface.height as u32
    }

    /// The number of pixels to draw, padding included.
    pub fn pixels_len(&self) -> (len: usize)
        requires
            self.well_formed(),
            self.ring().last().surface.bytes_per_row * self.ring().last().surface.height
                <= usize::MAX,
        ensures
            len == (self.ring().last().surface.bytes_per_row
                * self.ring().last().surface.height) / (crate::buffer::PIXEL_SIZE as int),
    {
        self.buffers.back().data_len()
    }

    /// How many frames ago the contents were presented; zero if they are not defined.
    pub fn age(&self) -> (age: u8)
        requires
            self.well_formed(),
        ensures
            age == self.ring().last().age,
    {
        self.buffers.back().age
    }

    /// Presents the frame, after unlocking the back buffer gave `unlock_ret`. The whole frame is
    /// shown, whatever is said to be damaged.
    ///
    /// Gives the commands by which the layer shows it. The back buffer becomes the front one, which
    /// the compositor reads, and the one presented two frames before becomes the back buffer.
    pub fn present_with_damage(self, _damage: &[Rect], unlock_ret: i32) -> (result: Result<
        Vec<LayerCommand<'surface, S>>,
        LockError,
    >)
        requires
            self.well_formed(),
        ensures
            match result {
                Ok(commands) => {
                    &&& unlock_ret == 0
                    &&& commands@ == crate::layer::show_list(
                        self.ring().last().surface.handle,
                    )
                    &&& final(self.buffers)@ == crate::ring::present(self.ring())
                    &&& crate::ring::usable(final(self.buffers)@)
                    &&& commands@ == seq![
                        LayerCommand::BeginTransaction,
                        LayerCommand::SetDisableActions(true),
                        LayerCommand::SetContents(&self.ring()[2].surface.handle),
                        LayerCommand::CommitTransaction,
                    ]
                    &&& final(self.buffers)@.len() == 3
                    &&& final(self.buffers)@[0].surface == self.ring()[2].surface
                    &&& final(self.buffers)@[0].age == 1
                    &&& final(self.buffers)@[0].locks == self.ring()[2].locks - 1
                    &&& forall|i: int|
                        1 <= i < 3 ==> {
                            &&& (#[trigger] final(self.buffers)@[i]).surface
                                == self.ring()[i - 1].surface
                            &&& final(self.buffers)@[i].locks == self.ring()[i - 1].locks
                            &&& self.ring()[i - 1].age == 0 ==> final(self.buffers)@[i].age == 0
                            &&& self.ring()[i - 1].age != 0 ==> final(self.buffers)@[i].age
                                == self.ring()[i - 1].age + 1
                        }
                },
                Err(error) => {
                    &&& unlock_ret != 0
                    &&& error == LockError::Unlock(unlock_ret)
                    &&& final(self.buffers)@ == self.ring()
                },
            },
    {
        proof {
            crate::ring::law_presenting_moves_the_buffers(self.ring());
        }
        let buffers = self.buffers;
        match buffers.unlock_back(unlock_ret) {
            Ok(()) => {},
            Err(error) => {
                return Err(error);
            },
        }
        buffers.rotate();
        let presented: &'surface BufferRing<S> = buffers;
        Ok(show_commands(&presented.front().surface.handle))
    }
}

} // verus!
