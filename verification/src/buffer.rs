//! One of the buffers that a surface rotates through.
use vstd::prelude::*;

use crate::types::LockError;

verus! {

/// The lock option under which buffers are locked and unlocked: avoid synchronizing. The
/// compositor should not be writing to the surface, and this makes sure of it.
pub const LOCK_OPTIONS: u32 = 2;

/// The size of a pixel in bytes.
pub const PIXEL_SIZE: usize = 4;

/// An `IOSurface`, held by its handle, with the layout that the system gave it.
#[derive(Debug, PartialEq, Eq)]
pub struct Surface<S> {
    /// The surface itself.
    pub handle: S,
    /// Width in pixels.
    pub width: usize,
    /// Height in pixels.
    pub height: usize,
    /// Bytes from one row to the next. May be padded for alignment.
    pub bytes_per_row: usize,
}

/// A surface that is drawn into.
#[derive(Debug, PartialEq, Eq)]
pub struct Buffer<S> {
    /// Shared with the compositor without copying.
    pub surface: Surface<S>,
    /// How many frames ago the contents were presented; zero if they never were.
    pub age: u8,
    /// How many times the surface was locked and not unlocked again.
    pub locks: u64,
}

impl<S> Buffer<S> {
    /// The buffer after locking its surface gave a code.
    pub open spec fn after_lock(self, ret: i32) -> Self {
        if ret == 0 {
            Buffer { locks: (self.locks + 1) as u64, ..self }
        } else {
            self
        }
    }

    /// The buffer after unlocking its surface gave a code.
    pub open spec fn after_unlock(self, ret: i32) -> Self {
        if ret == 0 {
            Buffer { locks: (self.locks - 1) as u64, ..self }
        } else {
            self
        }
    }

    /// A buffer on a newly created surface.
    pub fn new(surface: Surface<S>) -> (buffer: Self)
        ensures
            buffer == (Buffer { surface, age: 0u8, locks: 0u64 }),
    {
        Buffer { surface, age: 0, locks: 0 }
    }

    /// Takes note of the code that locking the surface gave: zero is success.
    pub fn lock(&mut self, ret: i32) -> (result: Result<(), LockError>)
        requires
            ret == 0 ==> old(self).locks < u64::MAX,
        ensures
            ret == 0 ==> result is Ok,
            ret != 0 ==> result == Err::<(), _>(LockError::Lock(ret)),
            *final(self) == old(self).after_lock(ret),
            final(self).surface == old(self).surface,
            final(self).age == old(self).age,
            final(self).locks == old(self).locks + (if ret == 0 {
                1int
            } else {
                0
            }),
    {
        if ret != 0 {
            return Err(LockError::Lock(ret));
        }
        self.locks = self.locks + 1;
        Ok(())
    }

    /// Takes note of the code that unlocking the surface gave: zero is success.
    ///
    /// Unlocking effectively flushes what was written.
    pub fn unlock(&mut self, ret: i32) -> (result: Result<(), LockError>)
        requires
            ret == 0 ==> old(self).locks > 0,
        ensures
            ret == 0 ==> result is Ok,
            ret != 0 ==> result == Err::<(), _>(LockError::Unlock(ret)),
            *final(self) == old(self).after_unlock(ret),
            final(self).surface == old(self).surface,
            final(self).age == old(self).age,
            final(self).locks == old(self).locks - (if ret == 0 {
                1int
            } else {
                0
            }),
    {
        if ret != 0 {
            return Err(LockError::Unlock(ret));
        }
        self.locks = self.locks - 1;
        Ok(())
    }

    /// The number of pixels in the memory of the surface, padding included.
    ///
    /// The surface must be locked for its memory to be used.
    pub fn data_len(&self) -> (len: usize)
        requires
            self.locks > 0,
            self.surface.bytes_per_row * self.surface.height <= usize::MAX,
        ensures
            len == (self.surface.bytes_per_row * self.surface.height) / (PIXEL_SIZE as int),
    {
        let num_bytes: usize = self.surface.bytes_per_row * self.surface.height;
        num_bytes / PIXEL_SIZE
    }
}

/// Unlocking undoes locking: a buffer is again as it was, its surface, its age and the locks that it
/// had before included. One that could not be locked or unlocked is not changed.
pub proof fn law_unlocking_undoes_locking<S>(buffer: Buffer<S>, ret: i32)
    requires
        buffer.locks < u64::MAX,
    ensures
        buffer.after_lock(0).locks == buffer.locks + 1,
        buffer.after_lock(0).after_unlock(0) == buffer,
        ret != 0 ==> buffer.after_lock(ret) == buffer,
        ret != 0 ==> buffer.after_unlock(ret) == buffer,
{
}

/// Locking and unlocking counts, and touches nothing else: whatever the code, the surface keeps its
/// handle and its whole layout, the stride of its rows included, and the contents keep their age.
pub proof fn law_locks_touch_nothing_else<S>(buffer: Buffer<S>, ret: i32)
    ensures
        buffer.after_lock(ret).surface == buffer.surface,
        buffer.after_lock(ret).age == buffer.age,
        buffer.after_unlock(ret).surface == buffer.surface,
        buffer.after_unlock(ret).age == buffer.age,
        ret != 0 ==> buffer.after_lock(ret).locks == buffer.locks,
        ret != 0 ==> buffer.after_unlock(ret).locks == buffer.locks,
        ret == 0 && buffer.locks < u64::MAX ==> buffer.after_lock(ret).locks == buffer.locks + 1,
        ret == 0 && buffer.locks > 0 ==> buffer.after_unlock(ret).locks == buffer.locks - 1,
{
}

/// Buffers are locked for writing as well as reading, the way that avoids synchronizing, and a
/// pixel has a byte for each of its four channels.
pub proof fn law_locks_allow_writing()
    ensures
        LOCK_OPTIONS & 1 == 0,
        LOCK_OPTIONS & 2 == 2,
        LOCK_OPTIONS < 4,
        PIXEL_SIZE == 4,
        PIXEL_SIZE == crate::properties::BYTES_PER_PIXEL,
{
    assert(LOCK_OPTIONS & 1 == 0 && LOCK_OPTIONS & 2 == 2 && LOCK_OPTIONS < 4) by (bit_vector);
}

/// The stride is that of the surface, padding included. Where the rows of the surface are long
/// enough for their pixels, so is the stride, and it spans the memory of the surface: the number of
/// pixels in it is the stride times the height, in bytes, by the size of a pixel.
pub proof fn law_stride_spans_the_pixels<S>(surface: Surface<S>)
    requires
        surface.bytes_per_row <= u32::MAX,
        surface.width <= u32::MAX,
        surface.height <= u32::MAX,
    ensures
        surface.bytes_per_row as u32 == surface.bytes_per_row,
        PIXEL_SIZE * surface.width <= surface.bytes_per_row ==> PIXEL_SIZE * (surface.width as u32)
            <= surface.bytes_per_row as u32,
        (surface.bytes_per_row * surface.height) / (PIXEL_SIZE as int) == ((
        surface.bytes_per_row as u32) * (surface.height as u32)) / (PIXEL_SIZE as int),
{
}

/// Where rows are whole numbers of pixels apart, the pixels of a buffer are its rows one after
/// another, and pixel `x` of row `y` lies `y` strides and `x` pixels into them, and no further than
/// they reach.
pub proof fn law_pixels_cover_rows(bytes_per_row: nat, height: nat, x: nat, y: nat)
    requires
        bytes_per_row % (PIXEL_SIZE as nat) == 0,
        x < bytes_per_row / (PIXEL_SIZE as nat),
        y < height,
    ensures
        (bytes_per_row * height) / (PIXEL_SIZE as nat) == (bytes_per_row / (PIXEL_SIZE as nat))
            * height,
        y * (bytes_per_row / (PIXEL_SIZE as nat)) + x < (bytes_per_row * height) / (
        PIXEL_SIZE as nat),
{
    let stride: nat = bytes_per_row / (PIXEL_SIZE as nat);
    assert(bytes_per_row == 4 * stride);
    assert((4 * stride) * height == 4 * (stride * height)) by (nonlinear_arith);
    assert(y * stride + x < stride * height) by (nonlinear_arith)
        requires
            y + 1 <= height,
            x < stride,
    ;
}

} // verus!
