//! The tiered buffer pool: reusable byte buffers in three size classes.
//! Buffers are `bytes::BytesMut` regions held behind trusted wrappers; every
//! buffer resting in the pool is empty, and a released buffer is cleared
//! before it is pooled. Concurrency admission (the `max_concurrent` bound) is
//! enforced by the caller that shares the pool; the pool itself is a
//! sequential structure.

use vstd::prelude::*;
use std::collections::VecDeque;
use bytes::BytesMut;

verus! {

#[verifier::external_type_specification]
#[verifier::external_body]
pub struct ExBytesMut(BytesMut);

/// The bytes a buffer currently holds.
pub uninterp spec fn bytes_content(b: BytesMut) -> Seq<u8>;

/// The bytes a buffer can hold without reallocating.
pub uninterp spec fn bytes_space(b: BytesMut) -> nat;

/// Relies on bytes::BytesMut::with_capacity: an empty buffer able to hold at
/// least `capacity` bytes without reallocating.
#[verifier::external_body]
pub(crate) fn bytes_with_capacity(capacity: usize) -> (r: BytesMut)
    ensures
        bytes_content(r).len() == 0,
        bytes_space(r) >= capacity,
{
    BytesMut::with_capacity(capacity)
}

/// Relies on bytes::BytesMut::clear: removes all data; the capacity is
/// preserved.
#[verifier::external_body]
pub(crate) fn bytes_clear(b: &mut BytesMut)
    ensures
        bytes_content(*final(b)).len() == 0,
        bytes_space(*final(b)) == bytes_space(*old(b)),
{
    b.clear();
}

/// Relies on bytes::BytesMut::len: the number of bytes the buffer holds.
#[verifier::external_body]
pub(crate) fn bytes_len(b: &BytesMut) -> (r: usize)
    ensures
        r == bytes_content(*b).len(),
{
    b.len()
}

/// Relies on bytes::BytesMut::capacity: the number of bytes the buffer can
/// hold without reallocating.
#[verifier::external_body]
pub(crate) fn bytes_capacity(b: &BytesMut) -> (r: usize)
    ensures
        r == bytes_space(*b),
{
    b.capacity()
}

/// Relies on bytes::BytesMut::extend_from_slice: appends the given bytes,
/// reserving room as needed.
#[verifier::external_body]
pub(crate) fn bytes_extend_from_slice(b: &mut BytesMut, data: &[u8])
    ensures
        bytes_content(*final(b)) == bytes_content(*old(b)) + data@,
        bytes_space(*final(b)) >= bytes_content(*final(b)).len(),
{
    b.extend_from_slice(data);
}

/// The three size classes of the pool.
#[derive(Clone, Copy, PartialEq, Eq, Structural, Debug)]
pub enum BufferTier {
    Small,
    Medium,
    Large,
}

/// The capacity a tier's buffers are allocated with.
pub open spec fn spec_tier_capacity(t: BufferTier) -> int {
    match t {
        BufferTier::Small => 1024,
        BufferTier::Medium => 8192,
        BufferTier::Large => 65535,
    }
}

/// The capacity a tier's buffers are allocated with.
pub fn tier_capacity(t: BufferTier) -> (r: usize)
    ensures
        r == spec_tier_capacity(t),
{
    match t {
        BufferTier::Small => 1024,
        BufferTier::Medium => 8192,
        BufferTier::Large => 65535,
    }
}

/// The tier a size hint selects: small up to 1024 bytes, medium up to 8192,
/// large beyond.
pub open spec fn spec_tier_for(size: int) -> BufferTier {
    if size <= 1024 {
        BufferTier::Small
    } else if size <= 8192 {
        BufferTier::Medium
    } else {
        BufferTier::Large
    }
}

/// The tier a size hint selects.
pub fn tier_for(size: usize) -> (r: BufferTier)
    ensures
        r == spec_tier_for(size as int),
{
    if size <= 1024 {
        BufferTier::Small
    } else if size <= 8192 {
        BufferTier::Medium
    } else {
        BufferTier::Large
    }
}

/// A buffer on loan from the pool. The size hint it was acquired with routes
/// it back to its tier on release.
pub struct PooledBuffer {
    pub buffer: BytesMut,
    pub size_hint: usize,
}

impl PooledBuffer {
    /// The number of bytes the buffer holds.
    pub fn len(&self) -> (r: usize)
        ensures
            r == bytes_content(self.buffer).len(),
    {
        bytes_len(&self.buffer)
    }

    /// The number of bytes the buffer can hold without reallocating.
    pub fn capacity(&self) -> (r: usize)
        ensures
            r == bytes_space(self.buffer),
    {
        bytes_capacity(&self.buffer)
    }

    /// Remove all data, keeping the capacity.
    pub fn clear(&mut self)
        ensures
            bytes_content(final(self).buffer).len() == 0,
            bytes_space(final(self).buffer) == bytes_space(old(self).buffer),
            final(self).size_hint == old(self).size_hint,
    {
        bytes_clear(&mut self.buffer);
    }

    /// Append the given bytes.
    pub fn extend_from_slice(&mut self, data: &[u8])
        ensures
            bytes_content(final(self).buffer) == bytes_content(old(self).buffer) + data@,
            final(self).size_hint == old(self).size_hint,
    {
        bytes_extend_from_slice(&mut self.buffer, data);
    }
}

/// Whether every buffer of a sequence is empty and offers at least the given
/// capacity.
pub open spec fn tier_ok(s: Seq<BytesMut>, capacity: int) -> bool {
    forall|i: int| 0 <= i < s.len()
        ==> bytes_content(#[trigger] s[i]).len() == 0 && bytes_space(s[i]) >= capacity
}

/// The tiered pool: a FIFO of empty buffers per tier, each tier retaining at
/// most `max_pool_size` buffers. `max_concurrent` records the admission bound
/// the sharing caller enforces.
pub struct BufferPool {
    small_buffers: VecDeque<BytesMut>,
    medium_buffers: VecDeque<BytesMut>,
    large_buffers: VecDeque<BytesMut>,
    max_pool_size: usize,
    max_concurrent: usize,
}

impl BufferPool {
    /// The retention bound per tier.
    pub closed spec fn spec_max_pool_size(self) -> usize {
        self.max_pool_size
    }

    /// The concurrency admission bound recorded for the sharing caller.
    pub closed spec fn spec_max_concurrent(self) -> usize {
        self.max_concurrent
    }

    /// The buffers resting in the given tier, front of the FIFO first.
    pub closed spec fn tier_buffers(self, t: BufferTier) -> Seq<BytesMut> {
        match t {
            BufferTier::Small => self.small_buffers@,
            BufferTier::Medium => self.medium_buffers@,
            BufferTier::Large => self.large_buffers@,
        }
    }

    /// All buffers resting in the pool.
    pub open spec fn pooled_buffers(self) -> Seq<BytesMut> {
        self.tier_buffers(BufferTier::Small) + self.tier_buffers(BufferTier::Medium)
            + self.tier_buffers(BufferTier::Large)
    }

    /// Every buffer resting in the pool is empty and offers at least its
    /// tier's capacity.
    pub closed spec fn wf(self) -> bool {
        &&& tier_ok(self.small_buffers@, spec_tier_capacity(BufferTier::Small))
        &&& tier_ok(self.medium_buffers@, spec_tier_capacity(BufferTier::Medium))
        &&& tier_ok(self.large_buffers@, spec_tier_capacity(BufferTier::Large))
    }

    /// An empty pool with the given retention and admission bounds.
    pub fn new(max_pool_size: usize, max_concurrent: usize) -> (r: BufferPool)
        ensures
            r.wf(),
            r.tier_buffers(BufferTier::Small).len() == 0,
            r.tier_buffers(BufferTier::Medium).len() == 0,
            r.tier_buffers(BufferTier::Large).len() == 0,
            r.spec_max_pool_size() == max_pool_size,
            r.spec_max_concurrent() == max_concurrent,
    {
        BufferPool {
            small_buffers: VecDeque::new(),
            medium_buffers: VecDeque::new(),
            large_buffers: VecDeque::new(),
            max_pool_size,
            max_concurrent,
        }
    }

    /// Take the pooled buffer at the front of the queue, or allocate a fresh
    /// one of the given capacity.
    fn get_buffer(queue: &mut VecDeque<BytesMut>, default_size: usize) -> (r: BytesMut)
        requires
            tier_ok(old(queue)@, default_size as int),
        ensures
            bytes_content(r).len() == 0,
            bytes_space(r) >= default_size,
            tier_ok(final(queue)@, default_size as int),
            old(queue)@.len() > 0 ==> final(queue)@ == old(queue)@.drop_first() && r == old(
                queue,
            )@.first(),
            old(queue)@.len() == 0 ==> final(queue)@ == old(queue)@,
    {
        let r = match queue.pop_front() {
            Some(buffer) => buffer,
            None => bytes_with_capacity(default_size),
        };
        proof {
            assert forall|i: int| 0 <= i < queue@.len()
                implies bytes_content(#[trigger] queue@[i]).len() == 0 && bytes_space(queue@[i])
                    >= default_size by {
                if old(queue)@.len() > 0 {
                    assert(queue@[i] == old(queue)@[i + 1]);
                }
            }
        }
        r
    }

    /// Borrow a buffer: pop one from the tier the size hint selects, or
    /// allocate a fresh region of that tier's capacity. The returned buffer
    /// is empty, offers at least the tier's capacity, and remembers the hint
    /// for release.
    pub fn acquire(&mut self, size: usize) -> (r: PooledBuffer)
        requires
            old(self).wf(),
        ensures
            final(self).wf(),
            bytes_content(r.buffer).len() == 0,
            bytes_space(r.buffer) >= spec_tier_capacity(spec_tier_for(size as int)),
            r.size_hint == size,
            ({
                let t = spec_tier_for(size as int);
                &&& (old(self).tier_buffers(t).len() > 0 ==> final(self).tier_buffers(t) == old(
                    self,
                ).tier_buffers(t).drop_first() && r.buffer == old(self).tier_buffers(t).first())
                &&& (old(self).tier_buffers(t).len() == 0 ==> final(self).tier_buffers(t) == old(
                    self,
                ).tier_buffers(t))
                &&& forall|u: BufferTier| u != t
                    ==> final(self).tier_buffers(u) == old(self).tier_buffers(u)
            }),
            final(self).spec_max_pool_size() == old(self).spec_max_pool_size(),
            final(self).spec_max_concurrent() == old(self).spec_max_concurrent(),
    {
        let tier = tier_for(size);
        let capacity = tier_capacity(tier);
        let buffer = match tier {
            BufferTier::Small => Self::get_buffer(&mut self.small_buffers, capacity),
            BufferTier::Medium => Self::get_buffer(&mut self.medium_buffers, capacity),
            BufferTier::Large => Self::get_buffer(&mut self.large_buffers, capacity),
        };
        PooledBuffer { buffer, size_hint: size }
    }

    /// Return a buffer: it is cleared, then pooled on the tier its size hint
    /// selects if that tier is below the retention bound, otherwise dropped.
    /// A buffer that no longer offers its tier's capacity is dropped as well,
    /// keeping the pool's guarantee; buffers of this pool always do, since no
    /// operation on them shrinks the region.
    pub fn release(&mut self, buffer: PooledBuffer)
        requires
            old(self).wf(),
        ensures
            final(self).wf(),
            final(self).spec_max_pool_size() == old(self).spec_max_pool_size(),
            final(self).spec_max_concurrent() == old(self).spec_max_concurrent(),
            ({
                let t = spec_tier_for(buffer.size_hint as int);
                let kept = old(self).tier_buffers(t).len() < old(self).spec_max_pool_size()
                    && bytes_space(buffer.buffer) >= spec_tier_capacity(t);
                &&& (kept ==> {
                    &&& final(self).tier_buffers(t).len() == old(self).tier_buffers(t).len() + 1
                    &&& bytes_content(final(self).tier_buffers(t).last()).len() == 0
                })
                &&& (!kept ==> final(self).tier_buffers(t) == old(self).tier_buffers(t))
                &&& forall|u: BufferTier| u != t
                    ==> final(self).tier_buffers(u) == old(self).tier_buffers(u)
            }),
    {
        let PooledBuffer { mut buffer, size_hint } = buffer;
        bytes_clear(&mut buffer);
        let tier = tier_for(size_hint);
        let fits = bytes_capacity(&buffer) >= tier_capacity(tier);
        let max = self.max_pool_size;
        match tier {
            BufferTier::Small => {
                if fits && self.small_buffers.len() < max {
                    self.small_buffers.push_back(buffer);
                }
            },
            BufferTier::Medium => {
                if fits && self.medium_buffers.len() < max {
                    self.medium_buffers.push_back(buffer);
                }
            },
            BufferTier::Large => {
                if fits && self.large_buffers.len() < max {
                    self.large_buffers.push_back(buffer);
                }
            },
        }
        proof {
            let t = spec_tier_for(size_hint as int);
            let cap = spec_tier_capacity(t);
            if t == BufferTier::Small && self.small_buffers@.len() == old(
                self,
            ).small_buffers@.len() + 1 {
                assert(tier_ok(self.small_buffers@, cap)) by {
                    assert forall|i: int| 0 <= i < self.small_buffers@.len()
                        implies bytes_content(#[trigger] self.small_buffers@[i]).len() == 0
                            && bytes_space(self.small_buffers@[i]) >= cap by {
                        if i < self.small_buffers@.len() - 1 {
                            assert(self.small_buffers@[i] == old(self).small_buffers@[i]);
                        }
                    }
                }
            }
            if t == BufferTier::Medium && self.medium_buffers@.len() == old(
                self,
            ).medium_buffers@.len() + 1 {
                assert(tier_ok(self.medium_buffers@, cap)) by {
                    assert forall|i: int| 0 <= i < self.medium_buffers@.len()
                        implies bytes_content(#[trigger] self.medium_buffers@[i]).len() == 0
                            && bytes_space(self.medium_buffers@[i]) >= cap by {
                        if i < self.medium_buffers@.len() - 1 {
                            assert(self.medium_buffers@[i] == old(self).medium_buffers@[i]);
                        }
                    }
                }
            }
            if t == BufferTier::Large && self.large_buffers@.len() == old(
                self,
            ).large_buffers@.len() + 1 {
                assert(tier_ok(self.large_buffers@, cap)) by {
                    assert forall|i: int| 0 <= i < self.large_buffers@.len()
                        implies bytes_content(#[trigger] self.large_buffers@[i]).len() == 0
                            && bytes_space(self.large_buffers@[i]) >= cap by {
                        if i < self.large_buffers@.len() - 1 {
                            assert(self.large_buffers@[i] == old(self).large_buffers@[i]);
                        }
                    }
                }
            }
        }
    }
}

/// Every buffer resting in a well-formed pool offers at least its tier's
/// capacity: a buffer enters a tier only with that much room.
pub proof fn lemma_pooled_buffers_sized(p: BufferPool)
    requires
        p.wf(),
    ensures
        forall|t: BufferTier, i: int| 0 <= i < p.tier_buffers(t).len()
            ==> bytes_space(#[trigger] p.tier_buffers(t)[i]) >= spec_tier_capacity(t),
{
    assert forall|t: BufferTier, i: int| 0 <= i < p.tier_buffers(t).len()
        implies bytes_space(#[trigger] p.tier_buffers(t)[i]) >= spec_tier_capacity(t) by {
        match t {
            BufferTier::Small => assert(p.tier_buffers(t)[i] == p.tier_buffers(BufferTier::Small)[i]),
            BufferTier::Medium => assert(p.tier_buffers(t)[i] == p.tier_buffers(BufferTier::Medium)[i]),
            BufferTier::Large => assert(p.tier_buffers(t)[i] == p.tier_buffers(BufferTier::Large)[i]),
        }
    }
}

/// Every buffer resting in a well-formed pool is empty: a buffer is cleared
/// on release, before it is pooled.
pub proof fn lemma_pooled_buffers_empty(p: BufferPool)
    requires
        p.wf(),
    ensures
        forall|i: int| 0 <= i < p.pooled_buffers().len()
            ==> bytes_content(#[trigger] p.pooled_buffers()[i]).len() == 0,
{
    assert forall|i: int| 0 <= i < p.pooled_buffers().len()
        implies bytes_content(#[trigger] p.pooled_buffers()[i]).len() == 0 by {
        let all = p.pooled_buffers();
        let s = p.tier_buffers(BufferTier::Small).len() as int;
        let m = p.tier_buffers(BufferTier::Medium).len() as int;
        if i < s {
            assert(all[i] == p.tier_buffers(BufferTier::Small)[i]);
        } else if i < s + m {
            assert(all[i] == p.tier_buffers(BufferTier::Medium)[i - s]);
        } else {
            assert(all[i] == p.tier_buffers(BufferTier::Large)[i - s - m]);
        }
    }
}

} // verus!
