//! The buffers that a surface rotates through.
//!
//! The compositor reads the surfaces without copying them, so a surface that it may still be
//! reading must not be drawn into. With three buffers it has enough headroom: the first two are
//! the frames presented last, which it may still be using, and the last one, the back buffer, is
//! the one that is drawn into. Presenting makes the back buffer the front one.
use vstd::prelude::*;

use crate::buffer::{Buffer, Surface};
use crate::properties::{
    buffer_request, ColorSpace, Property, PropertyKey, PropertyValue, SurfaceRequest, SurfaceValue,
};
use crate::types::LockError;

verus! {

/// Number of buffers that a surface rotates through.
///
/// The front buffer is what the layer shows, the middle one may be what the compositor is drawing
/// from, a frame behind, and the back buffer is what is drawn into.
pub const BUFFER_COUNT: usize = 3;

/// New buffers on the given surfaces.
pub open spec fn fresh<S>(surfaces: Seq<Surface<S>>) -> Seq<Buffer<S>> {
    surfaces.map_values(|surface: Surface<S>| Buffer { surface, age: 0u8, locks: 0u64 })
}

/// The handles of surfaces.
pub open spec fn handles<S>(surfaces: Seq<Surface<S>>) -> Seq<S> {
    surfaces.map_values(|surface: Surface<S>| surface.handle)
}

/// The buffers with the back one locked once more.
pub open spec fn lock_back<S>(buffers: Seq<Buffer<S>>) -> Seq<Buffer<S>> {
    buffers.update(buffers.len() - 1, buffers.last().after_lock(0))
}

/// The buffers with the back one unlocked once.
pub open spec fn unlock_back<S>(buffers: Seq<Buffer<S>>) -> Seq<Buffer<S>> {
    buffers.update(buffers.len() - 1, buffers.last().after_unlock(0))
}

/// A buffer that was not drawn into while a frame passed.
pub open spec fn aged<S>(buffer: Buffer<S>) -> Buffer<S> {
    if buffer.age == 0 {
        buffer
    } else {
        Buffer { age: (buffer.age + 1) as u8, ..buffer }
    }
}

/// The back buffer, one frame old, comes to the front, and the others move back by one and age.
pub open spec fn rotate<S>(buffers: Seq<Buffer<S>>) -> Seq<Buffer<S>> {
    seq![Buffer { age: 1u8, ..buffers.last() }]
        + buffers.drop_last().map_values(|buffer: Buffer<S>| aged(buffer))
}

/// The buffers after the back one was presented: it is unlocked, and comes to the front.
pub open spec fn present<S>(buffers: Seq<Buffer<S>>) -> Seq<Buffer<S>> {
    rotate(unlock_back(buffers))
}

/// The ages that the buffers have when `frames` frames were presented since they were made.
pub open spec fn ages_after<S>(buffers: Seq<Buffer<S>>, frames: nat) -> bool {
    forall|i: int|
        0 <= i < buffers.len() ==> (#[trigger] buffers[i]).age == (if i < frames {
            i + 1
        } else {
            0
        })
}

/// As many buffers as there must be, with ages that presenting frames gives them.
pub open spec fn usable<S>(buffers: Seq<Buffer<S>>) -> bool {
    &&& buffers.len() == BUFFER_COUNT
    &&& exists|frames: nat| #[trigger] ages_after(buffers, frames)
}

/// A frame is being drawn: the back buffer is locked.
pub open spec fn drawing<S>(buffers: Seq<Buffer<S>>) -> bool {
    &&& usable(buffers)
    &&& buffers.last().locks > 0
}

/// No buffer is locked.
pub open spec fn unlocked<S>(buffers: Seq<Buffer<S>>) -> bool {
    forall|i: int| 0 <= i < buffers.len() ==> (#[trigger] buffers[i]).locks == 0
}

/// The buffers, from the front one to the back one.
#[derive(Debug)]
pub struct BufferRing<S> {
    buffers: Vec<Buffer<S>>,
}

impl<S> View for BufferRing<S> {
    type V = Seq<Buffer<S>>;

    closed spec fn view(&self) -> Seq<Buffer<S>> {
        self.buffers@
    }
}

impl<S> BufferRing<S> {
    /// The buffer that is drawn into.
    pub fn back(&self) -> (buffer: &Buffer<S>)
        requires
            self@.len() == BUFFER_COUNT,
        ensures
            *buffer == self@.last(),
    {
        &self.buffers[BUFFER_COUNT - 1]
    }

    /// The buffer that was presented last.
    pub fn front(&self) -> (buffer: &Buffer<S>)
        requires
            self@.len() == BUFFER_COUNT,
        ensures
            *buffer == self@.first(),
    {
        &self.buffers[0]
    }

    /// Takes note of the code that locking the back buffer gave.
    pub(crate) fn lock_back(&mut self, ret: i32) -> (result: Result<(), LockError>)
        requires
            usable(old(self)@),
            ret == 0 ==> old(self)@.last().locks < u64::MAX,
        ensures
            ret == 0 ==> result is Ok && final(self)@ == lock_back(old(self)@),
            ret == 0 ==> drawing(final(self)@),
            ret != 0 ==> result == Err::<(), _>(LockError::Lock(ret)),
            ret != 0 ==> final(self)@ == old(self)@,
    {
        let ghost before = self@;
        let result = self.buffers[BUFFER_COUNT - 1].lock(ret);
        proof {
            if ret == 0 {
                assert(self@ =~= lock_back(before));
                lemma_locks_keep_ages(before, self@);
            } else {
                assert(self@ =~= before);
            }
        }
        result
    }

    /// Takes note of the code that unlocking the back buffer gave.
    pub(crate) fn unlock_back(&mut self, ret: i32) -> (result: Result<(), LockError>)
        requires
            drawing(old(self)@),
        ensures
            ret == 0 ==> result is Ok && final(self)@ == unlock_back(old(self)@),
            ret == 0 ==> usable(final(self)@),
            ret != 0 ==> result == Err::<(), _>(LockError::Unlock(ret)),
            ret != 0 ==> final(self)@ == old(self)@,
    {
        let ghost before = self@;
        let result = self.buffers[BUFFER_COUNT - 1].unlock(ret);
        proof {
            if ret == 0 {
                assert(self@ =~= unlock_back(before));
                lemma_locks_keep_ages(before, self@);
            } else {
                assert(self@ =~= before);
            }
        }
        result
    }

    /// Moves the back buffer, which was just presented, to the front, and ages the others.
    pub(crate) fn rotate(&mut self)
        requires
            usable(old(self)@),
        ensures
            final(self)@ == rotate(old(self)@),
            usable(final(self)@),
    {
        let ghost before = self@;
        if let Some(presented) = self.buffers.pop() {
            self.buffers.insert(0, presented);
        }
        let ghost moved = self@;
        assert(moved =~= seq![before.last()] + before.drop_last());
        self.buffers[0].age = 1;
        let mut i: usize = 1;
        while i < BUFFER_COUNT
            invariant
                1 <= i <= BUFFER_COUNT,
                self@.len() == BUFFER_COUNT,
                usable(before),
                moved == seq![before.last()] + before.drop_last(),
                self@[0] == (Buffer { age: 1u8, ..before.last() }),
                forall|j: int| 1 <= j < i ==> self@[j] == aged(#[trigger] moved[j]),
                forall|j: int| i <= j < BUFFER_COUNT ==> self@[j] == #[trigger] moved[j],
            decreases BUFFER_COUNT - i,
        {
            assert(self@[i as int] == moved[i as int]);
            assert(moved[i as int] == before[i - 1]);
            assert(moved[i as int].age <= BUFFER_COUNT) by {
                let frames = choose|frames: nat| #[trigger] ages_after(before, frames);
                assert(ages_after(before, frames));
            }
            if self.buffers[i].age != 0 {
                self.buffers[i].age = self.buffers[i].age + 1;
            }
            i = i + 1;
        }
        proof {
            assert forall|j: int| 0 <= j < BUFFER_COUNT implies self@[j] == #[trigger] rotate(
                before,
            )[j] by {
                if j > 0 {
                    assert(self@[j] == aged(moved[j]));
                    assert(moved[j] == before.drop_last()[j - 1]);
                }
            }
            assert(self@ =~= rotate(before));
            law_rotating_keeps_order(before);
        }
    }
}

/// Buffers of one size in the making: surfaces are asked for one at a time, until there are enough.
#[derive(Debug)]
pub struct PendingBuffers<S> {
    width: u32,
    height: u32,
    surfaces: Vec<Surface<S>>,
}

impl<S> PendingBuffers<S> {
    /// The width that the surfaces are asked for with.
    pub closed spec fn width(&self) -> u32 {
        self.width
    }

    /// The height that the surfaces are asked for with.
    pub closed spec fn height(&self) -> u32 {
        self.height
    }

    /// The surfaces created so far.
    pub closed spec fn surfaces(&self) -> Seq<Surface<S>> {
        self.surfaces@
    }

    /// Every surface was created.
    pub open spec fn is_complete(&self) -> bool {
        self.surfaces().len() == BUFFER_COUNT
    }

    /// Starts making buffers of the given size.
    pub fn new(width: u32, height: u32) -> (pending: Self)
        ensures
            pending.width() == width,
            pending.height() == height,
            pending.surfaces() == Seq::<Surface<S>>::empty(),
    {
        PendingBuffers { width, height, surfaces: Vec::new() }
    }

    /// The width that the surfaces are asked for with.
    pub(crate) fn get_width(&self) -> (width: u32)
        ensures
            width == self.width(),
    {
        self.width
    }

    /// The height that the surfaces are asked for with.
    pub(crate) fn get_height(&self) -> (height: u32)
        ensures
            height == self.height(),
    {
        self.height
    }

    /// What it takes to make the next surface, or nothing once there are enough.
    pub fn request(&self, strict: bool) -> (request: Option<SurfaceRequest>)
        ensures
            request is Some <==> self.surfaces().len() < BUFFER_COUNT,
            request is Some <==> self.surfaces().len() < 3,
            request matches Some(request) ==> {
                &&& request.properties@ == crate::properties::buffer_property_list(
                    self.width(),
                    self.height(),
                    strict,
                )
                &&& request.values@ == crate::properties::buffer_value_list()
                &&& request.properties@.contains(
                    (Property {
                        key: PropertyKey::Width,
                        value: PropertyValue::Size(self.width() as isize),
                    }),
                )
                &&& request.properties@.contains(
                    (Property {
                        key: PropertyKey::Height,
                        value: PropertyValue::Size(self.height() as isize),
                    }),
                )
                &&& request.properties@.contains(
                    (Property {
                        key: PropertyKey::PixelFormat,
                        value: PropertyValue::Code(0x42475241),
                    }),
                )
                &&& request.properties@.contains(
                    (Property {
                        key: PropertyKey::BytesPerElement,
                        value: PropertyValue::Code(4),
                    }),
                )
                &&& request.properties@.contains(
                    (Property {
                        key: PropertyKey::PixelSizeCastingAllowed,
                        value: PropertyValue::Flag(false),
                    }),
                ) <==> strict
                &&& request.properties@.len() == (if strict {
                    5int
                } else {
                    4
                })
                &&& forall|i: int, j: int|
                    0 <= i < j < request.properties@.len() ==> (
                    #[trigger] request.properties@[i]).key != (
                    #[trigger] request.properties@[j]).key
                &&& request.values@ == seq![SurfaceValue::ColorSpace(ColorSpace::DeviceRgb)]
            },
    {
        if self.surfaces.len() < BUFFER_COUNT {
            Some(buffer_request(self.width, self.height, strict))
        } else {
            None
        }
    }

    /// Takes a surface that was created as requested, with its values set.
    pub fn accept(&mut self, surface: Surface<S>)
        requires
            old(self).surfaces().len() < BUFFER_COUNT,
        ensures
            final(self).width() == old(self).width(),
            final(self).height() == old(self).height(),
            final(self).surfaces() == old(self).surfaces().push(surface),
    {
        self.surfaces.push(surface);
    }

    /// Makes the surfaces into buffers, in the order in which they were created.
    pub(crate) fn into_ring(self) -> (ring: BufferRing<S>)
        requires
            self.is_complete(),
        ensures
            ring@ == fresh(self.surfaces()),
            usable(ring@),
            ring@.len() == 3,
            forall|i: int|
                0 <= i < 3 ==> (#[trigger] ring@[i]).surface == self.surfaces()[i] && ring@[i].age
                    == 0 && ring@[i].locks == 0,
    {
        let ghost made = self.surfaces@;
        let mut surfaces = self.surfaces;
        let mut buffers: Vec<Buffer<S>> = Vec::new();
        while surfaces.len() > 0
            invariant
                made.len() == BUFFER_COUNT,
                surfaces@.len() + buffers@.len() == BUFFER_COUNT,
                surfaces@ == made.skip(buffers@.len() as int),
                buffers@ == fresh(made.take(buffers@.len() as int)),
            decreases surfaces@.len(),
        {
            let ghost n = buffers@.len() as int;
            buffers.push(Buffer::new(surfaces.remove(0)));
            assert(made.take(n + 1) =~= made.take(n).push(made[n]));
            assert(buffers@ =~= fresh(made.take(n + 1)));
            assert(surfaces@ =~= made.skip(n + 1));
        }
        assert(made.take(BUFFER_COUNT as int) =~= made);
        assert(ages_after(buffers@, 0));
        BufferRing { buffers }
    }
}

/// Locking and unlocking does not touch ages.
pub(crate) proof fn lemma_locks_keep_ages<S>(before: Seq<Buffer<S>>, after: Seq<Buffer<S>>)
    requires
        usable(before),
        after == lock_back(before) || after == unlock_back(before),
    ensures
        usable(after),
        forall|frames: nat| #[trigger] ages_after(before, frames) ==> ages_after(after, frames),
{
    assert forall|frames: nat| #[trigger] ages_after(before, frames) implies ages_after(
        after,
        frames,
    ) by {
        assert forall|i: int| 0 <= i < after.len() implies (#[trigger] after[i]).age == (if i
            < frames {
            i + 1
        } else {
            0
        }) by {
            assert(after[i].age == before[i].age);
        }
    }
    let frames = choose|frames: nat| #[trigger] ages_after(before, frames);
    assert(ages_after(after, frames));
}

/// With each frame that is presented, the ages are those of one frame more.
pub(crate) proof fn lemma_rotate_adds_a_frame<S>(buffers: Seq<Buffer<S>>, frames: nat)
    requires
        buffers.len() == BUFFER_COUNT,
        ages_after(buffers, frames),
    ensures
        ages_after(rotate(buffers), frames + 1),
{
    let after = rotate(buffers);
    assert forall|i: int| 0 <= i < after.len() implies (#[trigger] after[i]).age == (if i < frames
        + 1 {
        i + 1
    } else {
        0
    }) by {
        if i > 0 {
            assert(after[i] == aged(buffers[i - 1]));
        }
    }
}

/// Rotating keeps the buffers in order: their ages are again ones that presenting gives, so an age
/// never exceeds the number of buffers. The surfaces move on by one place and take their locks with
/// them.
pub proof fn law_rotating_keeps_order<S>(buffers: Seq<Buffer<S>>)
    requires
        usable(buffers),
    ensures
        usable(rotate(buffers)),
        forall|i: int|
            0 <= i < BUFFER_COUNT ==> (#[trigger] rotate(buffers)[i]).age <= BUFFER_COUNT,
        forall|i: int|
            0 <= i < BUFFER_COUNT ==> ({
                let from = buffers[if i == 0 {
                    BUFFER_COUNT - 1
                } else {
                    i - 1
                }];
                &&& (#[trigger] rotate(buffers)[i]).surface == from.surface
                &&& rotate(buffers)[i].locks == from.locks
            }),
{
    let frames = choose|frames: nat| #[trigger] ages_after(buffers, frames);
    lemma_rotate_adds_a_frame(buffers, frames);
    assert forall|i: int| 0 <= i < BUFFER_COUNT implies ({
        let from = buffers[if i == 0 {
            BUFFER_COUNT - 1
        } else {
            i - 1
        }];
        &&& (#[trigger] rotate(buffers)[i]).surface == from.surface
        &&& rotate(buffers)[i].locks == from.locks
    }) by {
        if i > 0 {
            assert(rotate(buffers)[i] == aged(buffers[i - 1]));
        }
    }
}

/// A frame that is started and given up again leaves the buffers as they were.
pub proof fn law_abandoned_frame_changes_nothing<S>(buffers: Seq<Buffer<S>>)
    requires
        buffers.len() > 0,
        buffers.last().locks < u64::MAX,
    ensures
        unlock_back(lock_back(buffers)) == buffers,
{
    assert(unlock_back(lock_back(buffers)) =~= buffers);
}

/// A frame locks the back buffer once and unlocks it once, however it ends. Presenting it, it
/// does no more than rotate, which touches no lock.
pub proof fn law_locks_are_released<S>(buffers: Seq<Buffer<S>>)
    requires
        usable(buffers),
        buffers.last().locks < u64::MAX,
    ensures
        drawing(lock_back(buffers)),
        lock_back(buffers).last().locks == buffers.last().locks + 1,
        unlock_back(lock_back(buffers)) == buffers,
        present(lock_back(buffers)) == rotate(buffers),
        unlocked(buffers) ==> unlocked(present(lock_back(buffers))),
{
    lemma_locks_keep_ages(buffers, lock_back(buffers));
    law_abandoned_frame_changes_nothing(buffers);
    law_rotating_keeps_order(buffers);
}

/// New buffers are on exactly the surfaces that they are made of, in the same order and with their
/// whole layout, the stride of their rows included. They were never presented and are not locked.
pub proof fn law_new_buffers_are_on_their_surfaces<S>(surfaces: Seq<Surface<S>>)
    ensures
        fresh(surfaces).len() == surfaces.len(),
        forall|i: int|
            0 <= i < surfaces.len() ==> (#[trigger] fresh(surfaces)[i]).surface == surfaces[i]
                && fresh(surfaces)[i].age == 0 && fresh(surfaces)[i].locks == 0,
        handles(surfaces).len() == surfaces.len(),
        forall|i: int|
            0 <= i < surfaces.len() ==> #[trigger] handles(surfaces)[i] == surfaces[i].handle,
        surfaces.len() == 3 ==> usable(fresh(surfaces)) && unlocked(fresh(surfaces)),
{
    if surfaces.len() == 3 {
        assert(ages_after(fresh(surfaces), 0));
    }
}

/// Starting a frame and unlocking its buffer count a lock of the back buffer up and down. All else
/// is kept: the surface and the age of every buffer, and the locks of all buffers but the back one.
pub proof fn law_frames_lock_only_the_back_buffer<S>(buffers: Seq<Buffer<S>>)
    requires
        buffers.len() > 0,
    ensures
        lock_back(buffers).len() == buffers.len(),
        unlock_back(buffers).len() == buffers.len(),
        forall|i: int|
            0 <= i < buffers.len() ==> (#[trigger] lock_back(buffers)[i]).surface
                == buffers[i].surface && lock_back(buffers)[i].age == buffers[i].age,
        forall|i: int|
            0 <= i < buffers.len() ==> (#[trigger] unlock_back(buffers)[i]).surface
                == buffers[i].surface && unlock_back(buffers)[i].age == buffers[i].age,
        forall|i: int|
            0 <= i < buffers.len() - 1 ==> (#[trigger] lock_back(buffers)[i]).locks
                == buffers[i].locks,
        forall|i: int|
            0 <= i < buffers.len() - 1 ==> (#[trigger] unlock_back(buffers)[i]).locks
                == buffers[i].locks,
        buffers.last().locks < u64::MAX ==> lock_back(buffers).last().locks
            == buffers.last().locks + 1,
        buffers.last().locks > 0 ==> unlock_back(buffers).last().locks == buffers.last().locks - 1,
{
}

/// Presenting brings the back buffer to the front, one frame old and with one lock less, and moves
/// every other buffer back by one place. Those have become a frame older, if they were presented at
/// all, and keep their locks. Every buffer keeps its surface with its whole layout.
pub proof fn law_presenting_moves_the_buffers<S>(buffers: Seq<Buffer<S>>)
    requires
        usable(buffers),
    ensures
        present(buffers).len() == 3,
        present(buffers)[0].surface == buffers[2].surface,
        present(buffers)[0].age == 1,
        buffers[2].locks > 0 ==> present(buffers)[0].locks == buffers[2].locks - 1,
        forall|i: int|
            1 <= i < 3 ==> {
                &&& (#[trigger] present(buffers)[i]).surface == buffers[i - 1].surface
                &&& present(buffers)[i].locks == buffers[i - 1].locks
                &&& buffers[i - 1].age == 0 ==> present(buffers)[i].age == 0
                &&& buffers[i - 1].age != 0 ==> present(buffers)[i].age == buffers[i - 1].age + 1
            },
{
    let unlocked = unlock_back(buffers);
    let frames = choose|frames: nat| #[trigger] ages_after(buffers, frames);
    assert(ages_after(buffers, frames));
    assert forall|i: int| 1 <= i < 3 implies ({
        &&& (#[trigger] present(buffers)[i]).surface == buffers[i - 1].surface
        &&& present(buffers)[i].locks == buffers[i - 1].locks
        &&& buffers[i - 1].age == 0 ==> present(buffers)[i].age == 0
        &&& buffers[i - 1].age != 0 ==> present(buffers)[i].age == buffers[i - 1].age + 1
    }) by {
        assert(present(buffers)[i] == aged(unlocked[i - 1]));
        assert(unlocked[i - 1] == buffers[i - 1]);
    }
}

/// Buffers are usable exactly if there are three of them, and the first so and so many of them were
/// presented, each one frame before the one in front of it and the front one in the last frame.
pub proof fn law_usable_buffers_have_ages_in_order<S>(buffers: Seq<Buffer<S>>)
    ensures
        usable(buffers) <==> {
            &&& buffers.len() == 3
            &&& buffers[0].age == 0 || buffers[0].age == 1
            &&& buffers[1].age == 0 || (buffers[1].age == 2 && buffers[0].age != 0)
            &&& buffers[2].age == 0 || (buffers[2].age == 3 && buffers[1].age != 0)
        },
        drawing(buffers) <==> usable(buffers) && buffers[2].locks > 0,
{
    if usable(buffers) {
        let frames = choose|frames: nat| #[trigger] ages_after(buffers, frames);
        assert(ages_after(buffers, frames));
        assert(buffers[0].age == 0 || buffers[0].age == 1);
        assert(buffers[1].age == 0 || buffers[1].age == 2);
        assert(buffers[2].age == 0 || buffers[2].age == 3);
    }
    if {
        &&& buffers.len() == 3
        &&& buffers[0].age == 0 || buffers[0].age == 1
        &&& buffers[1].age == 0 || (buffers[1].age == 2 && buffers[0].age != 0)
        &&& buffers[2].age == 0 || (buffers[2].age == 3 && buffers[1].age != 0)
    } {
        let frames: nat = if buffers[2].age != 0 {
            3
        } else if buffers[1].age != 0 {
            2
        } else if buffers[0].age != 0 {
            1
        } else {
            0
        };
        assert(ages_after(buffers, frames));
    }
}

} // verus!
