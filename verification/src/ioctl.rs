//! Requests understood by the sampling device and their payloads.

use vstd::prelude::*;

verus! {

/// Path of the sampling device.
pub const IBSTRACE_CHARDEV: &'static str = "/dev/ibstrace";

/// Request: upload the code described by a [`UserBuf`].
pub const CMD_WRITE: usize = 0x0000_1000;

/// Request: run the uploaded code and keep every sample.
pub const CMD_MEASURE: usize = 0x0000_2000;

/// Request: the number of samples collected by the last run.
pub const CMD_SAMPLES: usize = 0x0000_4000;

/// Request: the number of samples that the device can hold.
pub const CMD_CAPACITY: usize = 0x0000_8000;

/// Request: run the uploaded code once and sample at the retirement offset
/// given by a [`PreciseArgs`].
pub const CMD_PRECISE: usize = 0x0002_0000;

/// The largest retirement offset that the device accepts.
pub const MAX_OFFSET: usize = 0x0010_0000;

/// Argument to [`CMD_WRITE`]: where the code to upload lies.
#[derive(Clone, Copy, Debug, PartialEq, Eq, Structural)]
pub struct UserBuf {
    /// Address of the buffer with the code.
    pub ptr: usize,
    /// Length of the buffer in bytes.
    pub len: usize,
}

impl UserBuf {
    pub fn new(ptr: usize, len: usize) -> (r: UserBuf)
        ensures
            r == (UserBuf { ptr, len }),
    {
        UserBuf { ptr, len }
    }
}

/// Argument to [`CMD_PRECISE`]. The offset of a value of this type never
/// exceeds [`MAX_OFFSET`].
#[derive(Clone, Copy, Debug)]
pub struct PreciseArgs {
    ptr: usize,
    offset: usize,
}

impl PreciseArgs {
    #[verifier::type_invariant]
    spec fn in_range(self) -> bool {
        self.offset <= MAX_OFFSET
    }

    /// The word that is handed to the uploaded code in its first argument
    /// register.
    pub closed spec fn spec_ptr(&self) -> usize {
        self.ptr
    }

    /// The retirement offset to sample at.
    pub closed spec fn spec_offset(&self) -> usize {
        self.offset
    }

    pub fn new(ptr: usize, offset: usize) -> (r: PreciseArgs)
        requires
            offset <= MAX_OFFSET,
        ensures
            r.spec_ptr() == ptr,
            r.spec_offset() == offset,
    {
        PreciseArgs { ptr, offset }
    }

    /// The word that is handed to the uploaded code in its first argument
    /// register.
    #[verifier::when_used_as_spec(spec_ptr)]
    pub fn ptr(&self) -> (r: usize)
        ensures
            r == self.spec_ptr(),
    {
        self.ptr
    }

    /// The retirement offset to sample at.
    #[verifier::when_used_as_spec(spec_offset)]
    pub fn offset(&self) -> (r: usize)
        ensures
            r == self.spec_offset(),
            r <= MAX_OFFSET,
    {
        proof {
            use_type_invariant(self);
        }
        self.offset
    }
}

} // verus!
