//! What holds of a surface over its whole life, whatever is done with it.
use vstd::prelude::*;

use crate::buffer::Surface;
use crate::cg::SurfaceState;
use crate::layer::{LayerCommand, LayerState};
use crate::observer::{LayerGeometry, Notification};

verus! {

/// Something that happens to a surface between making it and dropping it. What is drawn is the
/// pixels that the back buffer holds when the frame is over, a `P`.
pub enum Operation<S, P, N, R> {
    /// A frame is drawn and presented.
    Present { drawn: P },
    /// A frame is started and given up, with what was drawn, if anything was.
    Abandon { drawn: Option<P> },
    /// A frame is started, and its buffer is not unlocked again: the frame never ends, or unlocking
    /// fails.
    Leave { drawn: Option<P> },
    /// The surface is configured. The surfaces are those created where the size changes.
    Configure { width: u32, height: u32, opaque: bool, surfaces: Seq<Surface<S>> },
    /// The root layer changes, and the observer is told.
    Observe(Notification<N, R>),
}

impl<S, P, N, R> Operation<S, P, N, R> {
    /// The operation can be performed: where buffers are made, there are enough of them.
    pub open spec fn is_possible(self) -> bool {
        self matches Operation::Configure { surfaces, .. } ==> surfaces.len()
            == crate::ring::BUFFER_COUNT
    }

    /// Where surfaces are created, they are of the size asked for.
    pub open spec fn is_to_size(self) -> bool {
        self matches Operation::Configure { width, height, surfaces, .. } ==> made_to_size(
            surfaces,
            width,
            height,
        )
    }

    /// The operation asks for no other size than the given one.
    pub open spec fn keeps_size(self, width: u32, height: u32) -> bool {
        self matches Operation::Configure { width: w, height: h, .. } ==> w == width && h == height
    }
}

/// Surfaces of the given size.
pub open spec fn made_to_size<S>(surfaces: Seq<Surface<S>>, width: u32, height: u32) -> bool {
    forall|i: int|
        0 <= i < surfaces.len() ==> (#[trigger] surfaces[i]).width == width && surfaces[i].height
            == height
}

/// Every operation can be performed, and there are fewer than locks can be counted.
pub open spec fn all_possible<S, P, N, R>(operations: Seq<Operation<S, P, N, R>>) -> bool {
    &&& operations.len() < u64::MAX
    &&& forall|i: int| 0 <= i < operations.len() ==> (#[trigger] operations[i]).is_possible()
}

/// Every surface that is created is of the size asked for.
pub open spec fn all_to_size<S, P, N, R>(operations: Seq<Operation<S, P, N, R>>) -> bool {
    forall|i: int| 0 <= i < operations.len() ==> (#[trigger] operations[i]).is_to_size()
}

/// No operation asks for another size than the given one.
pub open spec fn all_keep_size<S, P, N, R>(
    operations: Seq<Operation<S, P, N, R>>,
    width: u32,
    height: u32,
) -> bool {
    forall|i: int|
        0 <= i < operations.len() ==> (#[trigger] operations[i]).keeps_size(width, height)
}

/// The notifications among operations.
pub open spec fn notifications<S, P, N, R>(operations: Seq<Operation<S, P, N, R>>) -> Seq<
    Notification<N, R>,
>
    decreases operations.len(),
{
    if operations.len() == 0 {
        Seq::empty()
    } else {
        let earlier = notifications(operations.drop_last());
        match operations.last() {
            Operation::Observe(notification) => earlier.push(notification),
            _ => earlier,
        }
    }
}

/// What a surface begins with.
pub struct Beginning<W, S, N, R> {
    pub window: W,
    /// The size that the first buffers are made with.
    pub width: u32,
    pub height: u32,
    /// The surfaces of the first buffers.
    pub surfaces: Seq<Surface<S>>,
    /// The scale factor of the root layer.
    pub scale: N,
    /// The bounds of the root layer.
    pub bounds: R,
}

/// A surface together with its layer, and with what became of it so far. Surfaces that were created
/// for it are numbered in the order of their creation.
#[verifier::ext_equal]
pub struct Session<W, S, P, N, R> {
    pub surface: SurfaceState<W, S>,
    pub layer: LayerState<S>,
    pub geometry: LayerGeometry<N, R>,
    /// The handles of all surfaces that were ever created.
    pub created: Seq<S>,
    /// The numbers of the surfaces that the buffers are on, from the front one to the back one.
    pub places: Seq<nat>,
    /// How many frames were presented since the buffers were made.
    pub frames: nat,
    /// How many frames were started and not ended since the buffers were made.
    pub left_open: nat,
    /// The numbers of the surfaces that the layer was given, the latest last.
    pub shown: Seq<nat>,
    /// What was drawn for each of these.
    pub presented: Seq<P>,
    /// What a surface holds, where something was drawn into it.
    pub pixels: Map<nat, P>,
    /// The surfaces that were drawn into since they were last presented, for a frame that was not.
    pub overdrawn: Set<nat>,
}

impl<W, S, P, N, R> Session<W, S, P, N, R> {
    /// A surface just made, on a layer just set up: the observer was told what the scale factor and
    /// the bounds of the root layer are.
    pub open spec fn start(beginning: Beginning<W, S, N, R>) -> Self {
        Session {
            surface: SurfaceState {
                buffers: crate::ring::fresh(beginning.surfaces),
                width: beginning.width,
                height: beginning.height,
                window: beginning.window,
            },
            layer: LayerState::created().after_all(crate::layer::setup_list()),
            geometry: LayerGeometry::unset().after_all(
                crate::observer::initial_reports(beginning.scale, beginning.bounds),
            ),
            created: crate::ring::handles(beginning.surfaces),
            places: Seq::new(beginning.surfaces.len(), |i: int| i as nat),
            frames: 0,
            left_open: 0,
            shown: Seq::empty(),
            presented: Seq::empty(),
            pixels: Map::empty(),
            overdrawn: Set::empty(),
        }
    }

    /// The handle of the surface that is drawn into next.
    pub open spec fn back_handle(self) -> S {
        self.surface.buffers.last().surface.handle
    }

    /// With what an unpresented frame left in the back buffer.
    pub open spec fn with_drawn(self, drawn: Option<P>) -> Self {
        match drawn {
            Some(pixels) => Session {
                pixels: self.pixels.insert(self.places.last(), pixels),
                overdrawn: self.overdrawn.insert(self.places.last()),
                ..self
            },
            None => self,
        }
    }

    /// The surface and its layer after an operation.
    pub open spec fn after(self, operation: Operation<S, P, N, R>) -> Self {
        let locked = crate::ring::lock_back(self.surface.buffers);
        let place = self.places.last();
        match operation {
            Operation::Present { drawn } => Session {
                surface: SurfaceState { buffers: crate::ring::present(locked), ..self.surface },
                layer: self.layer.after_all(
                    crate::layer::show_list(locked.last().surface.handle),
                ),
                places: seq![place] + self.places.drop_last(),
                frames: self.frames + 1,
                shown: self.shown.push(place),
                presented: self.presented.push(drawn),
                pixels: self.pixels.insert(place, drawn),
                overdrawn: self.overdrawn.remove(place),
                ..self
            },
            Operation::Abandon { drawn } => Session {
                surface: SurfaceState { buffers: crate::ring::unlock_back(locked), ..self.surface },
                ..self.with_drawn(drawn)
            },
            Operation::Leave { drawn } => Session {
                surface: SurfaceState { buffers: locked, ..self.surface },
                left_open: self.left_open + 1,
                ..self.with_drawn(drawn)
            },
            Operation::Configure { width, height, opaque, surfaces } => {
                let layer = self.layer.after(LayerCommand::SetOpaque(opaque));
                if self.surface.fits(width, height) {
                    Session { layer, ..self }
                } else {
                    Session {
                        surface: self.surface.with_new_buffers(width, height, surfaces),
                        layer,
                        created: self.created + crate::ring::handles(surfaces),
                        places: Seq::new(surfaces.len(), |i: int| (self.created.len() + i) as nat),
                        frames: 0,
                        left_open: 0,
                        ..self
                    }
                }
            },
            Operation::Observe(notification) => Session {
                geometry: self.geometry.after(notification),
                ..self
            },
        }
    }

    /// The surface and its layer after a number of operations.
    pub open spec fn after_all(self, operations: Seq<Operation<S, P, N, R>>) -> Self
        decreases operations.len(),
    {
        if operations.len() == 0 {
            self
        } else {
            self.after_all(operations.drop_last()).after(operations.last())
        }
    }

    /// What holds between any two operations. The buffers are usable, with the ages that the frames
    /// presented since they were made give, and locked as often as frames were left open since. The
    /// layer is in place and observes the root layer, no transaction is left open, and no change of
    /// contents was animated. The layer shows what it was last given, which is the front buffer if
    /// a frame was presented since the buffers were made.
    pub open spec fn in_order(self) -> bool {
        let buffers = self.surface.buffers;
        &&& crate::ring::usable(buffers)
        &&& crate::ring::ages_after(buffers, self.frames)
        &&& buffers[0].locks + buffers[1].locks + buffers[2].locks == self.left_open
        &&& self.layer.attached
        &&& self.layer.observed == LayerState::<S>::created().after_all(
            crate::layer::setup_list(),
        ).observed
        &&& !self.layer.bad_removal
        &&& !self.layer.animated
        &&& self.layer.transactions.len() == 0
        &&& self.layer.contents == (if self.layer.history.len() == 0 {
            None
        } else {
            Some(self.layer.history.last())
        })
        &&& self.frames > 0 ==> self.layer.contents == Some(buffers[0].surface.handle)
    }

    /// The numbers are those of the surfaces: of the ones that the buffers are on, which are the
    /// latest created and each on another, and of those that the layer was given.
    pub open spec fn is_numbered(self) -> bool {
        &&& self.surface.buffers.len() == crate::ring::BUFFER_COUNT
        &&& self.places.len() == crate::ring::BUFFER_COUNT
        &&& self.places.no_duplicates()
        &&& forall|i: int|
            0 <= i < self.places.len() ==> self.created.len() - crate::ring::BUFFER_COUNT <= (
            #[trigger] self.places[i]) < self.created.len()
                && self.created[self.places[i] as int] == self.surface.buffers[i].surface.handle
        &&& self.shown.len() == self.layer.history.len()
        &&& self.shown.len() == self.presented.len()
        &&& forall|j: int|
            0 <= j < self.shown.len() ==> (#[trigger] self.shown[j]) < self.created.len()
                && self.created[self.shown[j] as int] == self.layer.history[j]
    }

    /// Where frames came from. The latest ones are in the buffers, and those from before the
    /// buffers were made are on surfaces created earlier.
    spec fn is_traced(self) -> bool {
        let shown = self.shown;
        &&& self.frames <= shown.len()
        &&& forall|i: int|
            0 <= i < self.places.len() && i < self.frames ==> #[trigger] self.places[i]
                == shown[shown.len() - 1 - i]
        &&& forall|j: int|
            0 <= j < shown.len() - self.frames ==> #[trigger] shown[j] < self.created.len()
                - crate::ring::BUFFER_COUNT
        &&& forall|i: int|
            0 <= i < self.places.len() && i < self.frames && !self.overdrawn.contains(
                #[trigger] self.places[i],
            ) ==> self.pixels.contains_pair(
                self.places[i],
                self.presented[self.presented.len() - 1 - i],
            )
    }

    /// Every buffer is of the size that the surface was configured to.
    pub open spec fn has_configured_size(self) -> bool {
        &&& self.surface.buffers.len() == crate::ring::BUFFER_COUNT
        &&& forall|i: int|
            0 <= i < self.surface.buffers.len() ==> (
            #[trigger] self.surface.buffers[i]).surface.width == self.surface.width
                && self.surface.buffers[i].surface.height == self.surface.height
    }
}

/// A surface after the operations that its life consists of so far.
pub open spec fn life<W, S, P, N, R>(
    beginning: Beginning<W, S, N, R>,
    operations: Seq<Operation<S, P, N, R>>,
) -> Session<W, S, P, N, R> {
    Session::start(beginning).after_all(operations)
}

/// A life that a surface can have.
pub open spec fn is_life<W, S, P, N, R>(
    beginning: Beginning<W, S, N, R>,
    operations: Seq<Operation<S, P, N, R>>,
) -> bool {
    &&& beginning.surfaces.len() == crate::ring::BUFFER_COUNT
    &&& all_possible(operations)
}

proof fn lemma_earlier_possible<S, P, N, R>(operations: Seq<Operation<S, P, N, R>>)
    requires
        all_possible(operations),
        operations.len() > 0,
    ensures
        all_possible(operations.drop_last()),
        operations.last().is_possible(),
{
    let earlier = operations.drop_last();
    assert forall|i: int| 0 <= i < earlier.len() implies (
    #[trigger] earlier[i]).is_possible() by {
        assert(earlier[i] == operations[i]);
    }
    assert(operations[operations.len() - 1].is_possible());
}

/// What presenting does to the buffers and to the layer.
proof fn lemma_present<W, S, P, N, R>(session: Session<W, S, P, N, R>, drawn: P)
    requires
        session.in_order(),
        session.left_open < u64::MAX,
    ensures
        session.after(Operation::Present { drawn }).surface.buffers == crate::ring::rotate(
            session.surface.buffers,
        ),
        session.after(Operation::Present { drawn }).layer == (LayerState {
            contents: Some(session.back_handle()),
            history: session.layer.history.push(session.back_handle()),
            ..session.layer
        }),
{
    crate::ring::law_locks_are_released(session.surface.buffers);
    crate::layer::law_showing_is_not_animated(session.layer, session.back_handle());
}

proof fn lemma_operation_keeps_order<W, S, P, N, R>(
    session: Session<W, S, P, N, R>,
    operation: Operation<S, P, N, R>,
)
    requires
        session.in_order(),
        session.left_open < u64::MAX,
        operation.is_possible(),
    ensures
        session.after(operation).in_order(),
        session.after(operation).left_open <= session.left_open + 1,
        session.after(operation).surface.window == session.surface.window,
{
    let buffers = session.surface.buffers;
    match operation {
        Operation::Present { drawn } => {
            lemma_present(session, drawn);
            crate::ring::law_rotating_keeps_order(buffers);
            crate::ring::lemma_rotate_adds_a_frame(buffers, session.frames);
            let after = crate::ring::rotate(buffers);
            assert(after[0].locks == buffers[2].locks);
            assert(after[1].locks == buffers[0].locks);
            assert(after[2].locks == buffers[1].locks);
        },
        Operation::Abandon { .. } => {
            crate::ring::law_abandoned_frame_changes_nothing(buffers);
        },
        Operation::Leave { .. } => {
            crate::ring::lemma_locks_keep_ages(buffers, crate::ring::lock_back(buffers));
        },
        Operation::Configure { width, height, surfaces, .. } => {
            if !session.surface.fits(width, height) {
                assert(crate::ring::ages_after(crate::ring::fresh(surfaces), 0));
            }
        },
        Operation::Observe(_) => {},
    }
}

proof fn lemma_operation_keeps_numbers<W, S, P, N, R>(
    session: Session<W, S, P, N, R>,
    operation: Operation<S, P, N, R>,
)
    requires
        session.in_order(),
        session.left_open < u64::MAX,
        session.is_numbered(),
        operation.is_possible(),
    ensures
        session.after(operation).is_numbered(),
{
    let buffers = session.surface.buffers;
    let after = session.after(operation);
    match operation {
        Operation::Present { drawn } => {
            lemma_present(session, drawn);
            crate::ring::law_rotating_keeps_order(buffers);
            assert(after.places[0] == session.places[2]);
            assert(after.places[1] == session.places[0]);
            assert(after.places[2] == session.places[1]);
            assert(after.surface.buffers[0].surface == buffers[2].surface);
            assert(after.surface.buffers[1].surface == buffers[0].surface);
            assert(after.surface.buffers[2].surface == buffers[1].surface);
            assert forall|j: int| 0 <= j < after.shown.len() implies (#[trigger] after.shown[j])
                < after.created.len() && after.created[after.shown[j] as int]
                == after.layer.history[j] by {
                if j < session.shown.len() {
                    assert(after.shown[j] == session.shown[j]);
                } else {
                    assert(after.shown[j] == session.places[2]);
                }
            }
        },
        Operation::Abandon { .. } => {
            crate::ring::law_abandoned_frame_changes_nothing(buffers);
        },
        Operation::Leave { .. } => {
            assert forall|i: int| 0 <= i < buffers.len() implies (
            #[trigger] after.surface.buffers[i]).surface == buffers[i].surface by {}
        },
        Operation::Configure { width, height, surfaces, .. } => {
            if !session.surface.fits(width, height) {
                let n = session.created.len();
                assert forall|i: int| 0 <= i < after.places.len() implies n <= (
                #[trigger] after.places[i]) < after.created.len()
                    && after.created[after.places[i] as int]
                    == after.surface.buffers[i].surface.handle by {
                    assert(after.places[i] == n + i);
                    assert(after.created[n + i] == crate::ring::handles(surfaces)[i]);
                }
                assert forall|j: int| 0 <= j < after.shown.len() implies (
                #[trigger] after.shown[j]) < after.created.len()
                    && after.created[after.shown[j] as int] == after.layer.history[j] by {
                    assert(session.shown[j] < n);
                    assert(after.created[session.shown[j] as int]
                        == session.created[session.shown[j] as int]);
                }
            }
        },
        Operation::Observe(_) => {},
    }
}

proof fn lemma_operation_keeps_trace<W, S, P, N, R>(
    session: Session<W, S, P, N, R>,
    operation: Operation<S, P, N, R>,
)
    requires
        session.is_numbered(),
        session.is_traced(),
        operation.is_possible(),
    ensures
        session.after(operation).is_traced(),
{
    let after = session.after(operation);
    let places = session.places;
    match operation {
        Operation::Present { drawn } => {
            assert(after.places[0] == places[2]);
            assert(after.places[1] == places[0]);
            assert(after.places[2] == places[1]);
            assert(places[0] != places[2] && places[1] != places[2]);
            assert forall|i: int|
                0 <= i < after.places.len() && i
                    < after.frames implies #[trigger] after.places[i]
                == after.shown[after.shown.len() - 1 - i] by {
                if i > 0 {
                    assert(after.places[i] == places[i - 1]);
                }
            }
            assert forall|j: int|
                0 <= j < after.shown.len() - after.frames implies #[trigger] after.shown[j]
                < after.created.len() - crate::ring::BUFFER_COUNT by {
                assert(after.shown[j] == session.shown[j]);
            }
            assert forall|i: int|
                0 <= i < after.places.len() && i < after.frames && !after.overdrawn.contains(
                    #[trigger] after.places[i],
                ) implies after.pixels.contains_pair(
                after.places[i],
                after.presented[after.presented.len() - 1 - i],
            ) by {
                if i > 0 {
                    assert(after.places[i] == places[i - 1]);
                    assert(!session.overdrawn.contains(places[i - 1]));
                    assert(session.pixels.contains_pair(
                        places[i - 1],
                        session.presented[session.presented.len() - 1 - (i - 1)],
                    ));
                }
            }
        },
        Operation::Abandon { drawn } | Operation::Leave { drawn } => {
            assert forall|i: int|
                0 <= i < after.places.len() && i < after.frames && !after.overdrawn.contains(
                    #[trigger] after.places[i],
                ) implies after.pixels.contains_pair(
                after.places[i],
                after.presented[after.presented.len() - 1 - i],
            ) by {
                assert(after.places[i] == places[i]);
                assert(!session.overdrawn.contains(places[i]));
            }
        },
        Operation::Configure { width, height, .. } => {
            if !session.surface.fits(width, height) {
                assert forall|j: int|
                    0 <= j < after.shown.len() - after.frames implies #[trigger] after.shown[j]
                    < after.created.len() - crate::ring::BUFFER_COUNT by {
                    assert(session.shown[j] < session.created.len());
                }
            }
        },
        Operation::Observe(_) => {},
    }
}

proof fn lemma_life<W, S, P, N, R>(
    beginning: Beginning<W, S, N, R>,
    operations: Seq<Operation<S, P, N, R>>,
)
    requires
        is_life(beginning, operations),
    ensures
        life(beginning, operations).in_order(),
        life(beginning, operations).is_numbered(),
        life(beginning, operations).is_traced(),
        life(beginning, operations).left_open <= operations.len(),
        life(beginning, operations).surface.window == beginning.window,
    decreases operations.len(),
{
    if operations.len() == 0 {
        let start = life(beginning, operations);
        crate::layer::law_setup_configures_the_layer::<S>();
        assert(crate::ring::ages_after(start.surface.buffers, 0));
        assert forall|i: int| 0 <= i < start.places.len() implies 0 <= (
        #[trigger] start.places[i]) < start.created.len()
            && start.created[start.places[i] as int]
            == start.surface.buffers[i].surface.handle by {
            assert(start.places[i] == i);
        }
    } else {
        lemma_earlier_possible(operations);
        lemma_life(beginning, operations.drop_last());
        let before = life(beginning, operations.drop_last());
        lemma_operation_keeps_order(before, operations.last());
        lemma_operation_keeps_numbers(before, operations.last());
        lemma_operation_keeps_trace(before, operations.last());
    }
}

/// Everything stays in order, whatever is done in whatever order, and the window stays the same.
pub proof fn law_surface_stays_in_order<W, S, P, N, R>(
    beginning: Beginning<W, S, N, R>,
    operations: Seq<Operation<S, P, N, R>>,
)
    requires
        is_life(beginning, operations),
    ensures
        life(beginning, operations).in_order(),
        life(beginning, operations).is_numbered(),
        life(beginning, operations).surface.window == beginning.window,
{
    lemma_life(beginning, operations);
}

/// As long as every frame ends, no buffer is left locked.
pub proof fn law_ended_frames_leave_no_locks<W, S, P, N, R>(
    beginning: Beginning<W, S, N, R>,
    operations: Seq<Operation<S, P, N, R>>,
)
    requires
        is_life(beginning, operations),
        life(beginning, operations).left_open == 0,
    ensures
        crate::ring::unlocked(life(beginning, operations).surface.buffers),
{
    lemma_life(beginning, operations);
}

/// A surface begins with its layer in step with the root layer: it has the scale factor and the
/// bounds that the root layer has.
pub proof fn law_surface_begins_in_step<W, S, P, N, R>(beginning: Beginning<W, S, N, R>)
    ensures
        Session::<W, S, P, N, R>::start(beginning).geometry == (LayerGeometry {
            scale: Some(beginning.scale),
            frame: Some(beginning.bounds),
        }),
{
    crate::observer::law_initial_reports_set_the_geometry(
        LayerGeometry::unset(),
        beginning.scale,
        beginning.bounds,
    );
}

/// A frame is never drawn into what the compositor may still be reading: whatever was done with the
/// surface, the `IOSurface` drawn into next is neither of the last two that the layer was given.
/// Where no two have one handle, the layer was not given its handle in the last two frames, and
/// does not show it.
pub proof fn law_recent_frames_are_left_alone<W, S, P, N, R>(
    beginning: Beginning<W, S, N, R>,
    operations: Seq<Operation<S, P, N, R>>,
)
    requires
        is_life(beginning, operations),
    ensures
        ({
            let end = life(beginning, operations);
            let shown = end.shown;
            &&& shown.len() >= 1 ==> shown[shown.len() - 1] != end.places.last()
            &&& shown.len() >= 2 ==> shown[shown.len() - 2] != end.places.last()
        }),
        life(beginning, operations).created.no_duplicates() ==> ({
            let end = life(beginning, operations);
            let history = end.layer.history;
            &&& history.len() >= 1 ==> history[history.len() - 1] != end.back_handle()
            &&& history.len() >= 2 ==> history[history.len() - 2] != end.back_handle()
            &&& end.layer.contents != Some(end.back_handle())
        }),
{
    lemma_life(beginning, operations);
    let end = life(beginning, operations);
    let shown = end.shown;
    let places = end.places;
    let back = places[2];
    assert(places[0] != back && places[1] != back);
    assert(end.created[back as int] == end.back_handle());
    if shown.len() >= 1 {
        let last = shown[shown.len() - 1];
        if end.frames >= 1 {
            assert(places[0] == last);
        }
        assert(last != back);
        assert(end.created[last as int] == end.layer.history[shown.len() - 1]);
    }
    if shown.len() >= 2 {
        let last = shown[shown.len() - 2];
        if end.frames >= 2 {
            assert(places[1] == last);
        }
        assert(last != back);
        assert(end.created[last as int] == end.layer.history[shown.len() - 2]);
    }
}

/// The surfaces take turns: whatever was done before, over four frames in a row the first three are
/// drawn into three different `IOSurface`s, and the fourth into that of the first again.
pub proof fn law_surfaces_take_turns<W, S, P, N, R>(
    beginning: Beginning<W, S, N, R>,
    operations: Seq<Operation<S, P, N, R>>,
    drawn: P,
    drawn_next: P,
    drawn_last: P,
)
    requires
        is_life(beginning, operations),
    ensures
        ({
            let first = life(beginning, operations);
            let second = first.after(Operation::Present { drawn });
            let third = second.after(Operation::Present { drawn: drawn_next });
            let fourth = third.after(Operation::Present { drawn: drawn_last });
            &&& first.places.last() != second.places.last()
            &&& first.places.last() != third.places.last()
            &&& second.places.last() != third.places.last()
            &&& fourth.places == first.places
            &&& fourth.back_handle() == first.back_handle()
        }),
{
    lemma_life(beginning, operations);
    let first = life(beginning, operations);
    let second = first.after(Operation::Present { drawn });
    let third = second.after(Operation::Present { drawn: drawn_next });
    let fourth = third.after(Operation::Present { drawn: drawn_last });
    lemma_present(first, drawn);
    lemma_operation_keeps_order(first, Operation::Present { drawn });
    lemma_present(second, drawn_next);
    lemma_operation_keeps_order(second, Operation::Present { drawn: drawn_next });
    lemma_present(third, drawn_last);
    crate::ring::law_rotating_keeps_order(first.surface.buffers);
    crate::ring::law_rotating_keeps_order(second.surface.buffers);
    crate::ring::law_rotating_keeps_order(third.surface.buffers);
    assert(second.surface.buffers[0].surface == first.surface.buffers[2].surface);
    assert(third.surface.buffers[1].surface == second.surface.buffers[0].surface);
    assert(fourth.surface.buffers[2].surface == third.surface.buffers[1].surface);
    assert(second.places =~= seq![first.places[2], first.places[0], first.places[1]]);
    assert(third.places =~= seq![first.places[1], first.places[2], first.places[0]]);
    assert(fourth.places =~= first.places);
}

/// The buffer drawn into has age zero for the first three frames from new buffers, and age three
/// from then on.
pub proof fn law_age_of_the_back_buffer<W, S, P, N, R>(
    beginning: Beginning<W, S, N, R>,
    operations: Seq<Operation<S, P, N, R>>,
)
    requires
        is_life(beginning, operations),
    ensures
        ({
            let end = life(beginning, operations);
            end.surface.buffers.last().age == (if end.frames < crate::ring::BUFFER_COUNT {
                0
            } else {
                crate::ring::BUFFER_COUNT as int
            })
        }),
{
    lemma_life(beginning, operations);
}

/// An age says what a buffer holds. Whatever was done with the surface, a buffer of age `a` is on
/// the `IOSurface` that the layer was given `a` frames ago and not since, and it holds what was
/// drawn for that frame, unless it was drawn into for a frame that was not presented. One of age
/// zero is on an `IOSurface` that the layer was never given.
pub proof fn law_age_names_the_frame<W, S, P, N, R>(
    beginning: Beginning<W, S, N, R>,
    operations: Seq<Operation<S, P, N, R>>,
    i: int,
)
    requires
        is_life(beginning, operations),
        0 <= i < crate::ring::BUFFER_COUNT,
    ensures
        ({
            let end = life(beginning, operations);
            let shown = end.shown;
            let age = end.surface.buffers[i].age;
            let place = end.places[i];
            &&& age != 0 ==> {
                &&& age <= shown.len()
                &&& shown[shown.len() - age] == place
                &&& forall|j: int|
                    shown.len() - age < j < shown.len() ==> #[trigger] shown[j] != place
                &&& !end.overdrawn.contains(place) ==> end.pixels.contains_pair(
                    place,
                    end.presented[end.presented.len() - age],
                )
            }
            &&& age == 0 ==> !shown.contains(place)
        }),
{
    lemma_life(beginning, operations);
    let end = life(beginning, operations);
    let shown = end.shown;
    let places = end.places;
    assert(end.surface.buffers[i].age == (if i < end.frames {
        i + 1
    } else {
        0
    }));
    assert(places[i] >= end.created.len() - crate::ring::BUFFER_COUNT);
    assert forall|j: int| 0 <= j < shown.len() && shown.len() - 1 - j
        < i implies #[trigger] shown[j] != places[i] by {
        let k = shown.len() - 1 - j;
        if k < end.frames {
            assert(places[k] == shown[j]);
            assert(places[k] != places[i]);
        }
    }
    if i >= end.frames {
        assert forall|j: int| 0 <= j < shown.len() implies #[trigger] shown[j] != places[i] by {
            if j >= shown.len() - end.frames {
                assert(shown.len() - 1 - j < i);
            }
        }
    }
}

/// What is drawn is what is shown: presenting shows the `IOSurface` that was drawn into, with what
/// was drawn, and leaves what all others hold as it is. A frame that is not presented touches no
/// other `IOSurface` either.
pub proof fn law_drawing_goes_to_the_back_buffer<W, S, P, N, R>(
    beginning: Beginning<W, S, N, R>,
    operations: Seq<Operation<S, P, N, R>>,
    drawn: P,
    left: Option<P>,
    other: nat,
)
    requires
        is_life(beginning, operations),
        other != life(beginning, operations).places.last(),
    ensures
        ({
            let before = life(beginning, operations);
            let after = before.after(Operation::Present { drawn });
            &&& after.shown.last() == before.places.last()
            &&& after.layer.contents == Some(before.back_handle())
            &&& after.pixels.contains_pair(after.shown.last(), drawn)
            &&& after.pixels.contains_key(other) == before.pixels.contains_key(other)
            &&& after.pixels[other] == before.pixels[other]
        }),
        ({
            let before = life(beginning, operations);
            let given_up = before.after(Operation::Abandon { drawn: left });
            let left_open = before.after(Operation::Leave { drawn: left });
            &&& given_up.pixels.contains_key(other) == before.pixels.contains_key(other)
            &&& given_up.pixels[other] == before.pixels[other]
            &&& left_open.pixels == given_up.pixels
            &&& given_up.shown == before.shown && left_open.shown == before.shown
            &&& left is None ==> given_up.pixels == before.pixels
        }),
{
    lemma_life(beginning, operations);
    lemma_present(life(beginning, operations), drawn);
}

proof fn lemma_operation_keeps_size<W, S, P, N, R>(
    session: Session<W, S, P, N, R>,
    operation: Operation<S, P, N, R>,
)
    requires
        session.has_configured_size(),
        operation.is_possible(),
        operation.is_to_size(),
    ensures
        session.after(operation).has_configured_size(),
{
    let before = session.surface.buffers;
    let locked = crate::ring::lock_back(before);
    let after = session.after(operation).surface.buffers;
    match operation {
        Operation::Present { .. } => {
            let unlocked = crate::ring::unlock_back(locked);
            assert forall|i: int| 0 <= i < after.len() implies (#[trigger] after[i]).surface
                == before[(i + 2) % 3].surface by {
                if i > 0 {
                    assert(after[i] == crate::ring::aged(unlocked[i - 1]));
                }
            }
        },
        Operation::Abandon { .. } | Operation::Leave { .. } => {
            assert forall|i: int| 0 <= i < after.len() implies (#[trigger] after[i]).surface
                == before[i].surface by {}
        },
        Operation::Configure { width, height, surfaces, .. } => {
            if !session.surface.fits(width, height) {
                assert forall|i: int| 0 <= i < after.len() implies (#[trigger] after[i]).surface
                    == surfaces[i] by {}
            }
        },
        Operation::Observe(_) => {},
    }
}

/// Buffers have the size that the surface was configured to, whatever was done with it, as long as
/// the surfaces created were of the size asked for.
pub proof fn law_buffers_have_the_configured_size<W, S, P, N, R>(
    beginning: Beginning<W, S, N, R>,
    operations: Seq<Operation<S, P, N, R>>,
)
    requires
        is_life(beginning, operations),
        made_to_size(beginning.surfaces, beginning.width, beginning.height),
        all_to_size(operations),
    ensures
        life(beginning, operations).has_configured_size(),
    decreases operations.len(),
{
    if operations.len() == 0 {
        let buffers = life(beginning, operations).surface.buffers;
        assert forall|i: int| 0 <= i < buffers.len() implies (#[trigger] buffers[i]).surface
            == beginning.surfaces[i] by {}
    } else {
        let earlier = operations.drop_last();
        lemma_earlier_possible(operations);
        assert forall|i: int| 0 <= i < earlier.len() implies (
        #[trigger] earlier[i]).is_to_size() by {
            assert(earlier[i] == operations[i]);
        }
        law_buffers_have_the_configured_size(beginning, earlier);
        assert(operations[operations.len() - 1].is_to_size());
        lemma_operation_keeps_size(life(beginning, earlier), operations.last());
    }
}

proof fn lemma_size_is_kept<W, S, P, N, R>(
    session: Session<W, S, P, N, R>,
    later: Seq<Operation<S, P, N, R>>,
    width: u32,
    height: u32,
)
    requires
        session.has_configured_size(),
        session.surface.fits(width, height),
        all_keep_size(later, width, height),
    ensures
        session.after_all(later).has_configured_size(),
        session.after_all(later).surface.fits(width, height),
    decreases later.len(),
{
    if later.len() > 0 {
        let earlier = later.drop_last();
        assert forall|i: int| 0 <= i < earlier.len() implies (#[trigger] earlier[i]).keeps_size(
            width,
            height,
        ) by {
            assert(earlier[i] == later[i]);
        }
        lemma_size_is_kept(session, earlier, width, height);
        assert(later[later.len() - 1].keeps_size(width, height));
        match later.last() {
            Operation::Configure { .. } => {},
            _ => {
                lemma_operation_keeps_size(session.after_all(earlier), later.last());
            },
        }
    }
}

/// What was configured is what frames are drawn in: once a surface was configured to a size, and
/// until it is configured to another, each frame is of that size, however many were presented,
/// given up or left open.
pub proof fn law_frames_have_the_configured_size<W, S, P, N, R>(
    session: Session<W, S, P, N, R>,
    width: u32,
    height: u32,
    opaque: bool,
    surfaces: Seq<Surface<S>>,
    later: Seq<Operation<S, P, N, R>>,
)
    requires
        session.has_configured_size(),
        surfaces.len() == crate::ring::BUFFER_COUNT,
        made_to_size(surfaces, width, height),
        all_keep_size(later, width, height),
    ensures
        ({
            let back = session.after(
                Operation::Configure { width, height, opaque, surfaces },
            ).after_all(later).surface.buffers.last();
            back.surface.width as u32 == width && back.surface.height as u32 == height
        }),
{
    let configure = Operation::Configure { width, height, opaque, surfaces };
    lemma_operation_keeps_size(session, configure);
    let configured = session.after(configure);
    lemma_size_is_kept(configured, later, width, height);
    let buffers = configured.after_all(later).surface.buffers;
    assert(buffers[buffers.len() - 1].surface.width == width);
}

proof fn lemma_same_size_creates_nothing<W, S, P, N, R>(
    session: Session<W, S, P, N, R>,
    width: u32,
    height: u32,
    operations: Seq<Operation<S, P, N, R>>,
)
    requires
        session.surface.fits(width, height),
        all_keep_size(operations, width, height),
    ensures
        session.after_all(operations).surface.fits(width, height),
        session.after_all(operations).created == session.created,
    decreases operations.len(),
{
    if operations.len() > 0 {
        let earlier = operations.drop_last();
        assert forall|i: int| 0 <= i < earlier.len() implies (#[trigger] earlier[i]).keeps_size(
            width,
            height,
        ) by {
            assert(earlier[i] == operations[i]);
        }
        lemma_same_size_creates_nothing(session, width, height, earlier);
        assert(operations[operations.len() - 1].keeps_size(width, height));
    }
}

/// Configuring a surface to a size makes buffers at most once: until it is configured to another
/// size, configuring it to the same size again, in whatever alpha mode, creates no surface and
/// keeps the buffers with their ages, whatever frames there were in between.
pub proof fn law_same_size_keeps_buffers<W, S, P, N, R>(
    session: Session<W, S, P, N, R>,
    width: u32,
    height: u32,
    opaque: bool,
    surfaces: Seq<Surface<S>>,
    between: Seq<Operation<S, P, N, R>>,
    opaque_again: bool,
    surfaces_again: Seq<Surface<S>>,
)
    requires
        all_keep_size(between, width, height),
    ensures
        ({
            let once = session.after(Operation::Configure { width, height, opaque, surfaces });
            let before = once.after_all(between);
            let after = before.after(
                Operation::Configure {
                    width,
                    height,
                    opaque: opaque_again,
                    surfaces: surfaces_again,
                },
            );
            &&& after.surface == before.surface
            &&& after.created == once.created
            &&& after.frames == before.frames
            &&& after.layer.opaque == opaque_again
        }),
{
    let once = session.after(Operation::Configure { width, height, opaque, surfaces });
    lemma_same_size_creates_nothing(once, width, height, between);
}

proof fn lemma_geometry_is_from_notifications<W, S, P, N, R>(
    session: Session<W, S, P, N, R>,
    operations: Seq<Operation<S, P, N, R>>,
)
    ensures
        session.after_all(operations).geometry == session.geometry.after_all(
            notifications(operations),
        ),
    decreases operations.len(),
{
    if operations.len() > 0 {
        let earlier = operations.drop_last();
        lemma_geometry_is_from_notifications(session, earlier);
        if let Operation::Observe(notification) = operations.last() {
            assert(notifications(operations).drop_last() =~= notifications(earlier));
        }
    }
}

/// The layer follows the root layer, whatever else is done with the surface: where the observer
/// understood what it was told, the scale factor and the frame are what it was told last of each.
pub proof fn law_layer_follows_the_root_layer<W, S, P, N, R>(
    session: Session<W, S, P, N, R>,
    operations: Seq<Operation<S, P, N, R>>,
)
    requires
        crate::observer::all_understood(notifications(operations)),
    ensures
        crate::observer::follows(
            session.geometry,
            notifications(operations),
            session.after_all(operations).geometry,
        ),
{
    lemma_geometry_is_from_notifications(session, operations);
    crate::observer::law_layer_follows_the_root_layer(
        session.geometry,
        notifications(operations),
    );
}

/// Only configuring resizes buffers: a change to the root layer leaves the size of the surface and
/// its buffers as they are, and what the layer shows.
pub proof fn law_root_layer_does_not_resize<W, S, P, N, R>(
    session: Session<W, S, P, N, R>,
    notification: Notification<N, R>,
)
    ensures
        session.after(Operation::Observe(notification)) == (Session {
            geometry: session.geometry.after(notification),
            ..session
        }),
{
}

/// Dropping a surface takes back what making it did to the root layer, whatever was done with the
/// surface: its layer is removed, and no observer is left, nor was one removed that was not there.
pub proof fn law_drop_cleans_up<W, S, P, N, R>(
    beginning: Beginning<W, S, N, R>,
    operations: Seq<Operation<S, P, N, R>>,
)
    requires
        is_life(beginning, operations),
    ensures
        ({
            let end = life(beginning, operations).layer.after_all(crate::layer::teardown_list());
            &&& !end.attached
            &&& end.observed == Set::<crate::layer::KeyPath>::empty()
            &&& !end.bad_removal
        }),
{
    lemma_life(beginning, operations);
    crate::layer::law_setup_configures_the_layer::<S>();
    crate::layer::lemma_teardown(life(beginning, operations).layer);
}

/// What an operation does to the buffers of a surface, to the surface and to what the layer shows.
///
/// Presenting brings the back buffer to the front, one frame old, has the layer show it, and moves
/// the others back by one place, a frame older if they were presented at all. Giving a frame up
/// changes nothing. Leaving it open locks the back buffer once more and changes nothing else.
/// Configuring to another size puts a new buffer on each of the new surfaces, in their order, and
/// configuring to the same size keeps everything. A change to the root layer touches nothing.
/// Every buffer that is kept keeps its surface, with its whole layout.
pub proof fn law_what_operations_do<W, S, P, N, R>(
    session: Session<W, S, P, N, R>,
    operation: Operation<S, P, N, R>,
)
    requires
        crate::ring::usable(session.surface.buffers),
        session.surface.buffers[2].locks < u64::MAX,
    ensures
        ({
            let before = session.surface;
            let after = session.after(operation).surface;
            let layer = session.after(operation).layer;
            &&& after.window == before.window
            &&& match operation {
                Operation::Present { .. } => {
                    &&& after.width == before.width && after.height == before.height
                    &&& after.buffers.len() == 3
                    &&& after.buffers[0].surface == before.buffers[2].surface
                    &&& after.buffers[0].age == 1
                    &&& after.buffers[0].locks == before.buffers[2].locks
                    &&& forall|i: int|
                        1 <= i < 3 ==> {
                            &&& (#[trigger] after.buffers[i]).surface == before.buffers[i
                                - 1].surface
                            &&& after.buffers[i].locks == before.buffers[i - 1].locks
                            &&& before.buffers[i - 1].age == 0 ==> after.buffers[i].age == 0
                            &&& before.buffers[i - 1].age != 0 ==> after.buffers[i].age
                                == before.buffers[i - 1].age + 1
                        }
                    &&& layer == (LayerState {
                        contents: Some(before.buffers[2].surface.handle),
                        history: session.layer.history.push(before.buffers[2].surface.handle),
                        ..session.layer
                    })
                },
                Operation::Abandon { .. } => after == before && layer == session.layer,
                Operation::Leave { .. } => {
                    &&& after.width == before.width && after.height == before.height
                    &&& after.buffers.len() == 3
                    &&& forall|i: int|
                        0 <= i < 3 ==> (#[trigger] after.buffers[i]).surface
                            == before.buffers[i].surface && after.buffers[i].age
                            == before.buffers[i].age
                    &&& forall|i: int|
                        0 <= i < 2 ==> (#[trigger] after.buffers[i]).locks
                            == before.buffers[i].locks
                    &&& after.buffers[2].locks == before.buffers[2].locks + 1
                    &&& layer == session.layer
                },
                Operation::Configure { width, height, opaque, surfaces } => {
                    &&& layer == (LayerState { opaque, ..session.layer })
                    &&& after.width == width && after.height == height
                    &&& before.width == width && before.height == height ==> after == before
                    &&& before.width != width || before.height != height ==> {
                        &&& after.buffers.len() == surfaces.len()
                        &&& forall|i: int|
                            0 <= i < surfaces.len() ==> (#[trigger] after.buffers[i]).surface
                                == surfaces[i] && after.buffers[i].age == 0
                                && after.buffers[i].locks == 0
                    }
                },
                Operation::Observe(_) => after == before && layer == session.layer,
            }
        }),
{
    let buffers = session.surface.buffers;
    let locked = crate::ring::lock_back(buffers);
    match operation {
        Operation::Present { .. } => {
            crate::ring::law_locks_are_released(buffers);
            crate::ring::law_frames_lock_only_the_back_buffer(buffers);
            crate::ring::law_presenting_moves_the_buffers(locked);
            crate::layer::law_showing_is_not_animated(
                session.layer,
                buffers.last().surface.handle,
            );
            let after = session.after(operation).surface.buffers;
            assert(after == crate::ring::present(locked));
            assert forall|i: int| 1 <= i < 3 implies ({
                &&& (#[trigger] after[i]).surface == buffers[i - 1].surface
                &&& after[i].locks == buffers[i - 1].locks
                &&& buffers[i - 1].age == 0 ==> after[i].age == 0
                &&& buffers[i - 1].age != 0 ==> after[i].age == buffers[i - 1].age + 1
            }) by {
                assert(locked[i - 1] == buffers[i - 1]);
            }
        },
        Operation::Abandon { .. } => {
            crate::ring::law_abandoned_frame_changes_nothing(buffers);
        },
        Operation::Leave { .. } => {
            crate::ring::law_frames_lock_only_the_back_buffer(buffers);
        },
        Operation::Configure { surfaces, .. } => {
            crate::ring::law_new_buffers_are_on_their_surfaces(surfaces);
        },
        Operation::Observe(_) => {},
    }
}

/// Whether a surface is one that was created over a life: for the first buffers, or because the
/// surface was configured to another size.
pub open spec fn was_created<W, S, P, N, R>(
    beginning: Beginning<W, S, N, R>,
    operations: Seq<Operation<S, P, N, R>>,
    surface: Surface<S>,
) -> bool {
    ||| beginning.surfaces.contains(surface)
    ||| exists|k: int|
        0 <= k < operations.len() && (#[trigger] operations[k]) is Configure
            && operations[k]->Configure_surfaces.contains(surface)
}

proof fn lemma_created_earlier<W, S, P, N, R>(
    beginning: Beginning<W, S, N, R>,
    operations: Seq<Operation<S, P, N, R>>,
    surface: Surface<S>,
)
    requires
        operations.len() > 0,
        was_created(beginning, operations.drop_last(), surface),
    ensures
        was_created(beginning, operations, surface),
{
    let earlier = operations.drop_last();
    if !beginning.surfaces.contains(surface) {
        let k = choose|k: int|
            0 <= k < earlier.len() && (#[trigger] earlier[k]) is Configure
                && earlier[k]->Configure_surfaces.contains(surface);
        assert(operations[k] == earlier[k]);
    }
}

/// Every buffer is on a surface that was created for it, and the surface is as it was created, in
/// its handle, its size and the stride of its rows: whatever was done, no surface is made up and
/// none is altered.
pub proof fn law_buffers_are_on_created_surfaces<W, S, P, N, R>(
    beginning: Beginning<W, S, N, R>,
    operations: Seq<Operation<S, P, N, R>>,
)
    requires
        is_life(beginning, operations),
    ensures
        life(beginning, operations).surface.buffers.len() == 3,
        forall|i: int|
            0 <= i < 3 ==> was_created(
                beginning,
                operations,
                (#[trigger] life(beginning, operations).surface.buffers[i]).surface,
            ),
    decreases operations.len(),
{
    lemma_life(beginning, operations);
    let end = life(beginning, operations);
    if operations.len() == 0 {
        crate::ring::law_new_buffers_are_on_their_surfaces(beginning.surfaces);
        assert forall|i: int| 0 <= i < 3 implies was_created(
            beginning,
            operations,
            (#[trigger] end.surface.buffers[i]).surface,
        ) by {
            assert(end.surface.buffers[i].surface == beginning.surfaces[i]);
            assert(beginning.surfaces.contains(beginning.surfaces[i]));
        }
    } else {
        let earlier = operations.drop_last();
        lemma_earlier_possible(operations);
        lemma_life(beginning, earlier);
        law_buffers_are_on_created_surfaces(beginning, earlier);
        let before = life(beginning, earlier);
        law_what_operations_do(before, operations.last());
        assert forall|i: int| 0 <= i < 3 implies was_created(
            beginning,
            operations,
            (#[trigger] end.surface.buffers[i]).surface,
        ) by {
            let surface = end.surface.buffers[i].surface;
            let from: int = if operations.last() is Present {
                if i == 0 {
                    2
                } else {
                    i - 1
                }
            } else {
                i
            };
            if surface == before.surface.buffers[from].surface {
                lemma_created_earlier(beginning, operations, surface);
            } else {
                assert(operations[operations.len() - 1] is Configure);
                assert(surface == operations.last()->Configure_surfaces[i]);
            }
        }
    }
}

} // verus!
