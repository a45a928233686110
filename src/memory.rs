use vstd::prelude::*;
use std::collections::VecDeque;

verus! {

/// Counters of a buffer pool.
#[derive(Debug, Clone, Copy, PartialEq, Eq, Structural)]
pub struct PoolStats {
    pub total_allocated: usize,
    pub total_returned: usize,
    pub current_pool_size: usize,
    pub peak_pool_size: usize,
    pub cache_hits: usize,
    pub cache_misses: usize,
}

/// `n` zero bytes.
pub open spec fn zeros(n: nat) -> Seq<u8> {
    Seq::new(n, |i: int| 0u8)
}

/// A buffer lent by a [`BufferPool`].
pub struct PooledBuffer {
    buffer: Vec<u8>,
    returned: bool,
}

impl PooledBuffer {
    pub closed spec fn contents(&self) -> Seq<u8> {
        self.buffer@
    }

    pub closed spec fn is_returned(&self) -> bool {
        self.returned
    }

    fn new(buffer: Vec<u8>) -> (r: PooledBuffer)
        ensures
            r.contents() == buffer@,
            !r.is_returned(),
    {
        PooledBuffer { buffer, returned: false }
    }

    /// The buffer, for reading into it.
    pub fn as_mut(&mut self) -> (r: &mut Vec<u8>)
        ensures
            r@ == old(self).contents(),
            final(self).contents() == final(r)@,
            final(self).is_returned() == old(self).is_returned(),
    {
        &mut self.buffer
    }

    pub fn as_ref(&self) -> (r: &Vec<u8>)
        ensures
            r@ == self.contents(),
    {
        &self.buffer
    }

    pub fn len(&self) -> (r: usize)
        ensures
            r == self.contents().len(),
    {
        self.buffer.len()
    }

    pub fn is_empty(&self) -> (r: bool)
        ensures
            r == (self.contents().len() == 0),
    {
        self.buffer.len() == 0
    }

    /// Empties the buffer (its capacity stays).
    pub fn clear(&mut self)
        ensures
            final(self).contents().len() == 0,
            final(self).is_returned() == old(self).is_returned(),
    {
        self.buffer.clear();
    }

    /// Truncates, or extends with `value`, to `new_len` bytes.
    pub fn resize(&mut self, new_len: usize, value: u8)
        ensures
            final(self).contents().len() == new_len,
            new_len <= old(self).contents().len() ==> final(self).contents() == old(self).contents().subrange(0, new_len as int),
            new_len > old(self).contents().len() ==> final(self).contents() == old(self).contents()
                + Seq::new((new_len - old(self).contents().len()) as nat, |i: int| value),
            final(self).is_returned() == old(self).is_returned(),
    {
        let ghost before = self.buffer@;
        self.buffer.resize(new_len, value);
        proof {
        if new_len > before.len() {
            assert(self.buffer@ =~= before + Seq::new((new_len - before.len()) as nat, |i: int| value)) by {
                assert forall|i: int| before.len() <= i < new_len implies self.buffer@[i] == value by {
                    assert(self.buffer@.subrange(0, before.len() as int) == before);
                }
                assert forall|i: int| 0 <= i < before.len() implies self.buffer@[i] == before[i] by {
                    assert(self.buffer@.subrange(0, before.len() as int)[i] == self.buffer@[i]);
                }
            }
        }
        }
    }

    /// Hands the buffer back to its pool.
    pub fn return_to_pool(self, pool: &mut BufferPool)
        requires
            old(pool).stats.total_returned < usize::MAX,
        ensures
            self.is_returned() ==> *final(pool) == *old(pool),
            !self.is_returned() ==> {
                &&& final(pool).stats.total_returned == old(pool).stats.total_returned + 1
                &&& final(pool).buffer_size == old(pool).buffer_size
                &&& final(pool).max_pool_size == old(pool).max_pool_size
                &&& old(pool).kept() < old(pool).max_pool_size ==> final(pool).kept() == old(pool).kept() + 1
                &&& old(pool).kept() >= old(pool).max_pool_size ==> final(pool).kept() == old(pool).kept()
            },
    {
        if !self.returned {
            pool.return_buffer(self.buffer);
        }
    }
}

/// A pool of equally sized byte buffers, bounded in how many it keeps.
pub struct BufferPool {
    pub buffers: VecDeque<Vec<u8>>,
    pub buffer_size: usize,
    pub max_pool_size: usize,
    pub stats: PoolStats,
}

impl BufferPool {
    pub open spec fn kept(&self) -> nat {
        self.buffers@.len()
    }

    pub open spec fn spec_buffer_size(&self) -> usize {
        self.buffer_size
    }

    pub open spec fn spec_max_pool_size(&self) -> usize {
        self.max_pool_size
    }

    /// A pool of buffers of `buffer_size` bytes, with `initial_size`
    /// allocated up front, keeping at most `max_pool_size` returned ones.
    pub fn new(buffer_size: usize, initial_size: usize, max_pool_size: usize) -> (r: BufferPool)
        ensures
            r.kept() == initial_size,
            r.spec_buffer_size() == buffer_size,
            r.spec_max_pool_size() == max_pool_size,
            r.stats == (PoolStats {
                total_allocated: 0,
                total_returned: 0,
                current_pool_size: initial_size,
                peak_pool_size: initial_size,
                cache_hits: 0,
                cache_misses: 0,
            }),
    {
        let mut buffers: VecDeque<Vec<u8>> = VecDeque::new();
        let mut i: usize = 0;
        while i < initial_size
            invariant
                i <= initial_size,
                buffers@.len() == i,
            decreases initial_size - i,
        {
            buffers.push_back(vec![0u8; buffer_size]);
            i = i + 1;
        }
        BufferPool {
            buffers,
            buffer_size,
            max_pool_size,
            stats: PoolStats {
                total_allocated: 0,
                total_returned: 0,
                current_pool_size: initial_size,
                peak_pool_size: initial_size,
                cache_hits: 0,
                cache_misses: 0,
            },
        }
    }

    /// Lends a zeroed buffer of the pool's size: a kept one when there is
    /// one (a cache hit), a new one otherwise (a miss).
    pub fn get_buffer(&mut self) -> (r: PooledBuffer)
        requires
            old(self).stats.total_allocated < usize::MAX,
            old(self).stats.cache_hits < usize::MAX,
            old(self).stats.cache_misses < usize::MAX,
        ensures
            r.contents() == zeros(old(self).spec_buffer_size() as nat),
            !r.is_returned(),
            final(self).spec_buffer_size() == old(self).spec_buffer_size(),
            final(self).spec_max_pool_size() == old(self).spec_max_pool_size(),
            final(self).stats.total_allocated == old(self).stats.total_allocated + 1,
            final(self).stats.total_returned == old(self).stats.total_returned,
            final(self).stats.peak_pool_size == old(self).stats.peak_pool_size,
            old(self).kept() > 0 ==> {
                &&& final(self).kept() == old(self).kept() - 1
                &&& final(self).stats.cache_hits == old(self).stats.cache_hits + 1
                &&& final(self).stats.cache_misses == old(self).stats.cache_misses
                &&& final(self).stats.current_pool_size == final(self).kept()
            },
            old(self).kept() == 0 ==> {
                &&& final(self).kept() == 0
                &&& final(self).stats.cache_hits == old(self).stats.cache_hits
                &&& final(self).stats.cache_misses == old(self).stats.cache_misses + 1
                &&& final(self).stats.current_pool_size == old(self).stats.current_pool_size
            },
    {
        let buffer = match self.buffers.pop_front() {
            Some(mut buf) => {
                buf.clear();
                buf.resize(self.buffer_size, 0);
                self.stats.current_pool_size = self.buffers.len();
                self.stats.cache_hits = self.stats.cache_hits + 1;
                buf
            },
            None => {
                self.stats.cache_misses = self.stats.cache_misses + 1;
                vec![0u8; self.buffer_size]
            },
        };
        assert(buffer@ =~= zeros(self.buffer_size as nat));
        self.stats.total_allocated = self.stats.total_allocated + 1;
        PooledBuffer::new(buffer)
    }

    /// Takes a buffer back; it is kept while the pool holds fewer than its
    /// maximum, and dropped otherwise.
    pub fn return_buffer(&mut self, buffer: Vec<u8>)
        requires
            old(self).stats.total_returned < usize::MAX,
        ensures
            final(self).spec_buffer_size() == old(self).spec_buffer_size(),
            final(self).spec_max_pool_size() == old(self).spec_max_pool_size(),
            final(self).stats.total_returned == old(self).stats.total_returned + 1,
            final(self).stats.total_allocated == old(self).stats.total_allocated,
            final(self).stats.cache_hits == old(self).stats.cache_hits,
            final(self).stats.cache_misses == old(self).stats.cache_misses,
            old(self).kept() < old(self).spec_max_pool_size() ==> {
                &&& final(self).kept() == old(self).kept() + 1
                &&& final(self).stats.current_pool_size == final(self).kept()
                &&& final(self).stats.peak_pool_size == if final(self).kept() > old(self).stats.peak_pool_size {
                    final(self).kept() as usize
                } else {
                    old(self).stats.peak_pool_size
                }
            },
            old(self).kept() >= old(self).spec_max_pool_size() ==> {
                &&& final(self).kept() == old(self).kept()
                &&& final(self).stats.current_pool_size == old(self).stats.current_pool_size
                &&& final(self).stats.peak_pool_size == old(self).stats.peak_pool_size
            },
    {
        if self.buffers.len() < self.max_pool_size {
            self.buffers.push_back(buffer);
            self.stats.current_pool_size = self.buffers.len();
            if self.stats.current_pool_size > self.stats.peak_pool_size {
                self.stats.peak_pool_size = self.stats.current_pool_size;
            }
        }
        self.stats.total_returned = self.stats.total_returned + 1;
    }

    pub fn get_stats(&self) -> (r: PoolStats)
        ensures
            r == self.stats,
    {
        self.stats
    }

    /// Drops every kept buffer.
    pub fn clear(&mut self)
        ensures
            final(self).kept() == 0,
            final(self).stats.current_pool_size == 0,
            final(self).spec_buffer_size() == old(self).spec_buffer_size(),
            final(self).spec_max_pool_size() == old(self).spec_max_pool_size(),
    {
        self.buffers.clear();
        self.stats.current_pool_size = 0;
    }

    pub fn current_size(&self) -> (r: usize)
        ensures
            r == self.kept(),
    {
        self.buffers.len()
    }

    pub fn buffer_size(&self) -> (r: usize)
        ensures
            r == self.spec_buffer_size(),
    {
        self.buffer_size
    }
}

/// Three pools: 4 KiB, 64 KiB and 128 KiB buffers.
pub struct GlobalBufferPools {
    pub small_pool: BufferPool,
    pub medium_pool: BufferPool,
    pub large_pool: BufferPool,
}

impl GlobalBufferPools {
    pub open spec fn sizes_ok(&self) -> bool {
        &&& self.small_pool.spec_buffer_size() == 4096
        &&& self.medium_pool.spec_buffer_size() == 65536
        &&& self.large_pool.spec_buffer_size() == 131072
    }

    pub open spec fn counters_ok(&self) -> bool {
        &&& self.small_pool.stats.total_allocated < usize::MAX
        &&& self.small_pool.stats.cache_hits < usize::MAX
        &&& self.small_pool.stats.cache_misses < usize::MAX
        &&& self.medium_pool.stats.total_allocated < usize::MAX
        &&& self.medium_pool.stats.cache_hits < usize::MAX
        &&& self.medium_pool.stats.cache_misses < usize::MAX
        &&& self.large_pool.stats.total_allocated < usize::MAX
        &&& self.large_pool.stats.cache_hits < usize::MAX
        &&& self.large_pool.stats.cache_misses < usize::MAX
    }

    pub fn new() -> (r: GlobalBufferPools)
        ensures
            r.sizes_ok(),
            r.small_pool.kept() == 50 && r.small_pool.spec_max_pool_size() == 200,
            r.medium_pool.kept() == 20 && r.medium_pool.spec_max_pool_size() == 100,
            r.large_pool.kept() == 10 && r.large_pool.spec_max_pool_size() == 50,
            r.counters_ok(),
    {
        GlobalBufferPools {
            small_pool: BufferPool::new(4 * 1024, 50, 200),
            medium_pool: BufferPool::new(64 * 1024, 20, 100),
            large_pool: BufferPool::new(128 * 1024, 10, 50),
        }
    }

    /// A buffer from the smallest pool whose buffers hold `size` bytes.
    pub fn get_buffer(&mut self, size: usize) -> (r: PooledBuffer)
        requires
            old(self).sizes_ok(),
            old(self).counters_ok(),
        ensures
            final(self).sizes_ok(),
            r.contents() == zeros(
                if size <= 4096 {
                    4096
                } else if size <= 65536 {
                    65536
                } else {
                    131072
                },
            ),
    {
        if size <= 4 * 1024 {
            self.small_pool.get_buffer()
        } else if size <= 64 * 1024 {
            self.medium_pool.get_buffer()
        } else {
            self.large_pool.get_buffer()
        }
    }

    pub fn get_small_buffer(&mut self) -> (r: PooledBuffer)
        requires
            old(self).sizes_ok(),
            old(self).counters_ok(),
        ensures
            final(self).sizes_ok(),
            r.contents() == zeros(4096),
    {
        self.small_pool.get_buffer()
    }

    pub fn get_medium_buffer(&mut self) -> (r: PooledBuffer)
        requires
            old(self).sizes_ok(),
            old(self).counters_ok(),
        ensures
            final(self).sizes_ok(),
            r.contents() == zeros(65536),
    {
        self.medium_pool.get_buffer()
    }

    pub fn get_large_buffer(&mut self) -> (r: PooledBuffer)
        requires
            old(self).sizes_ok(),
            old(self).counters_ok(),
        ensures
            final(self).sizes_ok(),
            r.contents() == zeros(131072),
    {
        self.large_pool.get_buffer()
    }

    pub fn get_all_stats(&self) -> (r: (PoolStats, PoolStats, PoolStats))
        ensures
            r == (self.small_pool.stats, self.medium_pool.stats, self.large_pool.stats),
    {
        (self.small_pool.get_stats(), self.medium_pool.get_stats(), self.large_pool.get_stats())
    }

    pub fn clear_all(&mut self)
        ensures
            final(self).small_pool.kept() == 0,
            final(self).medium_pool.kept() == 0,
            final(self).large_pool.kept() == 0,
            old(self).sizes_ok() ==> final(self).sizes_ok(),
    {
        self.small_pool.clear();
        self.medium_pool.clear();
        self.large_pool.clear();
    }
}

} // verus!
