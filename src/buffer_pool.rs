use vstd::prelude::*;
use std::collections::VecDeque;
use crate::config::{clamp_buffer_size, spec_clamp_buffer_size};
use crate::memory::zeros;

verus! {

/// Fewest buffers a pool may keep.
pub const MIN_POOL_SIZE: usize = 1;

/// Most buffers a pool may keep.
pub const MAX_POOL_SIZE: usize = 256;

/// A buffer on loan from a [`BufferPool`]; give it back with
/// [`BufferPool::release`], or keep it with [`Reusable::detach`].
pub struct Reusable {
    data: Vec<u8>,
}

impl Reusable {
    pub closed spec fn contents(&self) -> Seq<u8> {
        self.data@
    }

    /// Takes the buffer out; it will not go back to the pool.
    pub fn detach(self) -> (r: Vec<u8>)
        ensures
            r@ == self.contents(),
    {
        self.data
    }

    pub fn as_mut(&mut self) -> (r: &mut Vec<u8>)
        ensures
            r@ == old(self).contents(),
            final(self).contents() == final(r)@,
    {
        &mut self.data
    }

    pub fn len(&self) -> (r: usize)
        ensures
            r == self.contents().len(),
    {
        self.data.len()
    }
}

pub open spec fn spec_clamp_pool_size(n: usize) -> usize {
    if n < 1 {
        1
    } else if n > 256 {
        256
    } else {
        n
    }
}

/// A bounded pool of relay buffers of one size.
pub struct BufferPool {
    pub buffers: VecDeque<Vec<u8>>,
    pub buffer_size: usize,
    pub max_size: usize,
}

impl BufferPool {
    pub open spec fn wf(&self) -> bool {
        &&& self.buffers@.len() <= self.max_size
        &&& 1024 <= self.buffer_size <= 16777216
        &&& 1 <= self.max_size <= 256
    }

    /// A pool of buffers of `buffer_size` bytes (clamped to 1 KiB..16 MiB)
    /// keeping at most `pool_size` of them (clamped to 1..256).
    pub fn new(buffer_size: usize, pool_size: usize) -> (r: BufferPool)
        ensures
            r.wf(),
            r.buffer_size == spec_clamp_buffer_size(buffer_size),
            r.max_size == spec_clamp_pool_size(pool_size),
            r.buffers@.len() == 0,
    {
        let buffer_size = clamp_buffer_size(buffer_size);
        let pool_size = if pool_size < MIN_POOL_SIZE {
            MIN_POOL_SIZE
        } else if pool_size > MAX_POOL_SIZE {
            MAX_POOL_SIZE
        } else {
            pool_size
        };
        BufferPool { buffers: VecDeque::new(), buffer_size, max_size: pool_size }
    }

    /// Lends a zeroed buffer of the pool's size, reusing a kept one first.
    pub fn acquire(&mut self) -> (r: Reusable)
        requires
            old(self).wf(),
        ensures
            final(self).wf(),
            r.contents() == zeros(old(self).buffer_size as nat),
            final(self).buffer_size == old(self).buffer_size,
            final(self).max_size == old(self).max_size,
            old(self).buffers@.len() > 0 ==> final(self).buffers@.len() == old(self).buffers@.len() - 1,
            old(self).buffers@.len() == 0 ==> final(self).buffers@.len() == 0,
    {
        let data = match self.buffers.pop_front() {
            Some(mut buf) => {
                buf.clear();
                buf.resize(self.buffer_size, 0);
                buf
            },
            None => vec![0u8; self.buffer_size],
        };
        assert(data@ =~= zeros(self.buffer_size as nat));
        Reusable { data }
    }

    /// Takes a lent buffer back: kept (emptied) while the pool is not full,
    /// dropped otherwise.
    pub fn release(&mut self, r: Reusable)
        requires
            old(self).wf(),
        ensures
            final(self).wf(),
            final(self).buffer_size == old(self).buffer_size,
            final(self).max_size == old(self).max_size,
            old(self).buffers@.len() < old(self).max_size ==> final(self).buffers@.len() == old(self).buffers@.len() + 1,
            old(self).buffers@.len() >= old(self).max_size ==> final(self).buffers@.len() == old(self).buffers@.len(),
    {
        self.return_buffer(r.data);
    }

    fn return_buffer(&mut self, buffer: Vec<u8>)
        requires
            old(self).wf(),
        ensures
            final(self).wf(),
            final(self).buffer_size == old(self).buffer_size,
            final(self).max_size == old(self).max_size,
            old(self).buffers@.len() < old(self).max_size ==> final(self).buffers@.len() == old(self).buffers@.len() + 1,
            old(self).buffers@.len() >= old(self).max_size ==> final(self).buffers@.len() == old(self).buffers@.len(),
    {
        let mut buffer = buffer;
        if self.buffers.len() < self.max_size {
            buffer.clear();
            self.buffers.push_back(buffer);
        }
    }

    pub fn buffer_size(&self) -> (r: usize)
        ensures
            r == self.buffer_size,
    {
        self.buffer_size
    }

    /// How many buffers the pool keeps right now.
    pub fn pool_size(&self) -> (r: usize)
        ensures
            r == self.buffers@.len(),
    {
        self.buffers.len()
    }
}

} // verus!
