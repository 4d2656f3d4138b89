//! Rules of the buffer staging path.
//!
//! Rarely changed data, such as vertex buffers and persistent light
//! uniforms, is written to an upload buffer and copied once into a
//! device-local buffer. The device-local buffer keeps every usage flag
//! of the staging buffer except its transfer-source marking, and gains
//! the transfer-destination one. A persistent uniform creates its
//! device-local buffer the first time it is asked for and reuses it
//! afterwards.

use vstd::prelude::*;

verus! {

/// Buffer usage bit marking a transfer source.
pub const USAGE_TRANSFER_SRC: u32 = 0x1;

/// Buffer usage bit marking a transfer destination.
pub const USAGE_TRANSFER_DST: u32 = 0x2;

/// Buffer usage bit marking a uniform buffer.
pub const USAGE_UNIFORM_BUFFER: u32 = 0x10;

/// Buffer usage bit marking a vertex buffer.
pub const USAGE_VERTEX_BUFFER: u32 = 0x80;

/// The usage flags of the device-local copy of a staging buffer: every
/// flag of the staging buffer is kept except the transfer-source one,
/// and the transfer-destination one is added.
pub fn device_local_usage(staging_usage: u32) -> (r: u32)
    ensures
        r == (staging_usage & !USAGE_TRANSFER_SRC) | USAGE_TRANSFER_DST,
        r & USAGE_TRANSFER_SRC == 0,
        r & USAGE_TRANSFER_DST == USAGE_TRANSFER_DST,
        forall|m: u32|
            m & (USAGE_TRANSFER_SRC | USAGE_TRANSFER_DST) == 0 ==> r & m == staging_usage & m,
{
    let r = (staging_usage & !USAGE_TRANSFER_SRC) | USAGE_TRANSFER_DST;
    proof {
        assert(((staging_usage & !0x1u32) | 0x2u32) & 0x1u32 == 0) by (bit_vector);
        assert(((staging_usage & !0x1u32) | 0x2u32) & 0x2u32 == 0x2u32) by (bit_vector);
        assert(forall|m: u32|
            m & (0x1u32 | 0x2u32) == 0 ==> ((staging_usage & !0x1u32) | 0x2u32) & m
                == staging_usage & m) by (bit_vector);
    }
    r
}

/// A persistent uniform's hold on its device-local buffer.
#[derive(Clone, Copy, Debug, PartialEq, Eq, Structural)]
pub struct UniformBufferCache {
    pub cached: bool,
}

impl UniformBufferCache {
    /// A uniform that has not been staged yet.
    pub fn new() -> (c: UniformBufferCache)
        ensures
            c == (UniformBufferCache { cached: false }),
    {
        UniformBufferCache { cached: false }
    }

    /// Decides what handing the uniform's buffer out does: the first
    /// request creates and keeps the device-local buffer, every later
    /// one reuses it.
    pub fn acquire(&mut self) -> (create: bool)
        ensures
            create == !old(self).cached,
            *final(self) == (UniformBufferCache { cached: true }),
    {
        let create = !self.cached;
        self.cached = true;
        create
    }
}

} // verus!
