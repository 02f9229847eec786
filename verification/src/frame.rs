//! Byte frames: the unit of data that crosses the bridge.

use vstd::prelude::*;
use vstd::slice::{slice_subrange, slice_to_vec};

verus! {

/// The largest number of bytes that one frame may carry.
pub const MAX_FRAME_LEN: usize = 1024;

/// An opaque run of bytes, at most [`MAX_FRAME_LEN`] long.
///
/// The bridge imposes no structure on a frame: what arrives in one network
/// message is one frame, and what one bounded read of the serial line returns
/// is one frame.
#[derive(Debug)]
pub struct Frame {
    bytes: Vec<u8>,
}

impl View for Frame {
    type V = Seq<u8>;

    closed spec fn view(&self) -> Seq<u8> {
        self.bytes@
    }
}

impl Frame {
    #[verifier::type_invariant]
    spec fn within_limit(&self) -> bool {
        self.bytes@.len() <= MAX_FRAME_LEN
    }

    /// The frame that carries no bytes.
    pub fn empty() -> (frame: Frame)
        ensures
            frame@ == Seq::<u8>::empty(),
    {
        Frame { bytes: Vec::new() }
    }

    /// Copies `bytes` into a frame, unless there are more than
    /// [`MAX_FRAME_LEN`] of them.
    pub fn from_slice(bytes: &[u8]) -> (frame: Option<Frame>)
        ensures
            frame is Some <==> bytes@.len() <= MAX_FRAME_LEN,
            frame matches Some(f) ==> f@ == bytes@,
    {
        if bytes.len() <= MAX_FRAME_LEN {
            Some(Frame { bytes: slice_to_vec(bytes) })
        } else {
            None
        }
    }

    /// Copies the first `len` bytes of `buf` into a frame.
    ///
    /// This is the shape in which receive calls report their result: a buffer
    /// and the number of bytes that were put into it. There is no frame when
    /// `len` exceeds the buffer or [`MAX_FRAME_LEN`].
    pub fn from_prefix(buf: &[u8], len: usize) -> (frame: Option<Frame>)
        ensures
            frame is Some <==> len <= buf@.len() && len <= MAX_FRAME_LEN,
            frame matches Some(f) ==> f@ == buf@.take(len as int),
    {
        if len <= buf.len() && len <= MAX_FRAME_LEN {
            let head = slice_subrange(buf, 0, len);
            Some(Frame { bytes: slice_to_vec(head) })
        } else {
            None
        }
    }

    /// The number of bytes in the frame.
    pub fn len(&self) -> (n: usize)
        ensures
            n == self@.len(),
            n <= MAX_FRAME_LEN,
    {
        proof {
            use_type_invariant(self);
        }
        self.bytes.len()
    }

    /// Whether the frame carries no bytes.
    pub fn is_empty(&self) -> (b: bool)
        ensures
            b <==> self@.len() == 0,
    {
        self.bytes.len() == 0
    }

    /// The bytes of the frame.
    pub fn as_slice(&self) -> (bytes: &[u8])
        ensures
            bytes@ == self@,
    {
        self.bytes.as_slice()
    }
}

impl Clone for Frame {
    fn clone(&self) -> (copy: Frame)
        ensures
            copy@ == self@,
    {
        proof {
            use_type_invariant(self);
        }
        Frame { bytes: self.bytes.clone() }
    }
}

} // verus!
