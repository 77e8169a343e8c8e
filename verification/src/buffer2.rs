//! The render-thread block pool and the shared audio-block handles.
//!
//! Audio data moves through the engine in blocks of `RENDER_QUANTUM_SIZE`
//! samples.  Blocks live in a pool (`Alloc`) and are referred to by handles
//! (`ChannelData`).  Block 0 is the unique, immutable silence block; a handle
//! is "silent" exactly when it refers to block 0, which makes silence
//! detection an O(1) identity check.  Handles are reference counted by the
//! pool: a block whose count drops to zero returns to the free list, and the
//! pool never shrinks.  Writing through a shared handle first copies the
//! block (copy on write).

use vstd::prelude::*;

verus! {

use crate::{RENDER_QUANTUM_SIZE, MAX_CHANNELS};
use crate::fixed::{sat_add_spec, sat_add64, avg2_spec, avg2, avg4_spec, avg4, mul_q_spec, mul_q};
use crate::channel_config::ChannelInterpretation;

/// `round(sqrt(1/2) * 2^40)`: the surround down-mix coefficient.
pub const SQRT_HALF_Q40: i64 = 777472127994;

/// One pooled block: a quantum of samples and the number of live handles.
pub struct Block {
    /// Sample data, always `RENDER_QUANTUM_SIZE` long.
    pub data: Vec<i64>,
    /// Number of outstanding handles to this block.
    pub rc: u64,
}

/// The block pool.  Block 0 is the silence block.
pub struct Alloc {
    /// Backing store for all blocks ever allocated; never shrinks.
    blocks: Vec<Block>,
    /// Indices of blocks with no outstanding handles, available for reuse.
    free: Vec<usize>,
}

/// A shared-ownership handle to a pooled block.
pub struct ChannelData {
    /// Index of the referenced block in the pool.
    index: usize,
}

/// The all-zero quantum.
pub open spec fn zero_seq() -> Seq<i64> {
    Seq::new(RENDER_QUANTUM_SIZE as nat, |i: int| 0i64)
}

/// Sample-wise saturating sum of two quanta.
pub open spec fn add_seq(a: Seq<i64>, b: Seq<i64>) -> Seq<i64> {
    Seq::new(a.len(), |i: int| sat_add_spec(a[i] as int, b[i] as int) as i64)
}

impl ChannelData {
    /// Pool index this handle refers to.
    pub closed spec fn id(self) -> int {
        self.index as int
    }

    /// `O(1)` check whether this handle is the silence block.
    ///
    /// A `false` result does not rule out that every sample is zero.
    pub fn is_silent(&self) -> (r: bool)
        ensures
            r == (self.id() == 0),
    {
        self.index == 0
    }

    /// A fresh handle to the silence block.
    pub fn silence(&self) -> (r: ChannelData)
        ensures
            r.id() == 0,
    {
        ChannelData { index: 0 }
    }
}

impl Alloc {
    /// The sample data of block `i`.
    pub closed spec fn block_data(self, i: int) -> Seq<i64> {
        self.blocks@[i].data@
    }

    /// The handle count of block `i`.
    pub closed spec fn block_rc(self, i: int) -> int {
        self.blocks@[i].rc as int
    }

    /// Number of blocks the pool has ever allocated (including silence).
    pub closed spec fn n_blocks(self) -> int {
        self.blocks@.len() as int
    }

    /// The free list as a sequence of block indices.
    pub closed spec fn free_list(self) -> Seq<usize> {
        self.free@
    }

    /// Sample data seen through a handle.
    pub open spec fn samples(self, h: ChannelData) -> Seq<i64> {
        self.block_data(h.id())
    }

    /// A handle is valid when it points into the pool.
    pub open spec fn valid_handle(self, h: ChannelData) -> bool {
        0 <= h.id() < self.n_blocks()
    }

    /// Pool well-formedness: every block is a full quantum; block 0 is the
    /// silence block and is never on the free list; free-list entries are
    /// distinct blocks with no outstanding handles; and every handle-free
    /// block is on the free list, ready for reuse.
    pub closed spec fn wf(self) -> bool {
        &&& 1 <= self.blocks@.len() <= usize::MAX
        &&& forall|i: int|
            0 <= i < self.blocks@.len() ==> (#[trigger] self.blocks@[i].data@).len()
                == RENDER_QUANTUM_SIZE
        &&& self.blocks@[0].data@ == zero_seq()
        &&& forall|k: int|
            0 <= k < self.free@.len() ==> 1 <= #[trigger] self.free@[k] < self.blocks@.len()
        &&& forall|k: int|
            0 <= k < self.free@.len() ==> self.blocks@[#[trigger] self.free@[k] as int].rc == 0
        &&& forall|k1: int, k2: int|
            0 <= k1 < k2 < self.free@.len() ==> #[trigger] self.free@[k1] != #[trigger] self.free@[
                k2]
        &&& forall|i: int|
            1 <= i < self.blocks@.len() && (#[trigger] self.blocks@[i].rc) == 0
                ==> self.free@.contains(i as usize)
    }

    /// Create a pool with `n` reusable blocks besides the silence block.
    pub fn with_capacity(n: usize) -> (r: Alloc)
        requires
            n < usize::MAX,
        ensures
            r.wf(),
            r.free_list().len() == n,
            r.n_blocks() == n + 1,
    {
        let mut blocks: Vec<Block> = Vec::new();
        blocks.push(Block { data: zero_data(), rc: 0 });
        let mut free: Vec<usize> = Vec::new();
        let mut i: usize = 0;
        while i < n
            invariant
                i <= n,
                n < usize::MAX,
                blocks@.len() == i + 1,
                free@.len() == i,
                forall|j: int|
                    0 <= j < blocks@.len() ==> (#[trigger] blocks@[j].data@) == zero_seq(),
                forall|j: int| 0 <= j < blocks@.len() ==> (#[trigger] blocks@[j].rc) == 0,
                forall|k: int| 0 <= k < free@.len() ==> (#[trigger] free@[k]) == k + 1,
            decreases n - i,
        {
            blocks.push(Block { data: zero_data(), rc: 0 });
            free.push(i + 1);
            i += 1;
        }
        let r = Alloc { blocks, free };
        proof {
            assert(zero_seq().len() == RENDER_QUANTUM_SIZE);
            assert forall|i2: int|
                1 <= i2 < r.blocks@.len() && (#[trigger] r.blocks@[i2].rc) == 0 implies r.free@
                .contains(i2 as usize) by {
                assert(r.free@[i2 - 1] == i2 as usize);
            }
        }
        r
    }

    /// Number of blocks the pool has ever allocated, including silence.
    pub fn num_blocks(&self) -> (n: usize)
        requires
            self.wf(),
        ensures
            n == self.n_blocks(),
    {
        self.blocks.len()
    }

    /// Number of blocks currently on the free list.
    pub fn pool_size(&self) -> (n: usize)
        ensures
            n == self.free_list().len(),
    {
        self.free.len()
    }

    /// A fresh handle to the silence block.
    pub fn silence(&self) -> (h: ChannelData)
        ensures
            h.id() == 0,
    {
        ChannelData { index: 0 }
    }

    /// Hand out a zero-initialised block: reuse a free one when possible,
    /// otherwise grow the pool.  The new block is never the silence block,
    /// and no other block is touched.
    pub fn allocate(&mut self) -> (h: ChannelData)
        requires
            old(self).wf(),
            old(self).n_blocks() < usize::MAX,
        ensures
            final(self).wf(),
            final(self).valid_handle(h),
            h.id() != 0,
            final(self).samples(h) == zero_seq(),
            final(self).block_rc(h.id()) == 1,
            old(self).n_blocks() <= final(self).n_blocks() <= old(self).n_blocks() + 1,
            final(self).free_list().len() == if old(self).free_list().len() > 0 {
                old(self).free_list().len() - 1
            } else {
                0
            },
            old(self).block_rc(h.id()) == 0 || h.id() >= old(self).n_blocks(),
            forall|i: int|
                0 <= i < old(self).n_blocks() && i != h.id() ==> final(self).block_data(i) == old(
                    self,
                ).block_data(i) && final(self).block_rc(i) == old(self).block_rc(i),
    {
        let popped = self.free.pop();
        match popped {
            Some(i) => {
                proof {
                    assert(old(self).free@[old(self).free@.len() - 1] == i);
                }
                let zd = zero_data();
                self.blocks[i] = Block { data: zd, rc: 1 };
                proof {
                    assert forall|i2: int|
                        1 <= i2 < self.blocks@.len() && (#[trigger] self.blocks@[i2].rc) == 0
                        implies self.free@.contains(i2 as usize) by {
                        assert(i2 != i);
                        assert(old(self).blocks@[i2].rc == 0);
                        assert(old(self).free@.contains(i2 as usize));
                        let k = choose|k: int|
                            0 <= k < old(self).free@.len() && old(self).free@[k] == i2 as usize;
                        assert(old(self).free@[k] == i2 as usize);
                        assert(k != old(self).free@.len() - 1);
                        assert(self.free@[k] == i2 as usize);
                    }
                }
                ChannelData { index: i }
            },
            None => {
                let i = self.blocks.len();
                self.blocks.push(Block { data: zero_data(), rc: 1 });
                ChannelData { index: i }
            },
        }
    }

    /// Remove every free-list occurrence of `idx`, leaving everything else
    /// in place.
    fn remove_from_free(&mut self, idx: usize)
        requires
            old(self).wf(),
        ensures
            final(self).blocks == old(self).blocks,
            forall|k: int|
                0 <= k < final(self).free@.len() ==> (#[trigger] final(self).free@[k]) != idx
                    && old(self).free@.contains(final(self).free@[k]),
            forall|u: usize|
                u != idx && #[trigger] old(self).free@.contains(u) ==> final(self).free@.contains(
                    u,
                ),
            forall|k1: int, k2: int|
                0 <= k1 < k2 < final(self).free@.len() ==> #[trigger] final(self).free@[k1]
                    != #[trigger] final(self).free@[k2],
    {
        let ghost gfree = self.free@;
        let mut kept: Vec<usize> = Vec::new();
        let mut k: usize = 0;
        while k < self.free.len()
            invariant
                self.free@ == gfree,
                forall|k1: int, k2: int|
                    0 <= k1 < k2 < gfree.len() ==> #[trigger] gfree[k1] != #[trigger] gfree[k2],
                k <= gfree.len(),
                forall|j: int|
                    0 <= j < kept@.len() ==> (#[trigger] kept@[j]) != idx && gfree.contains(
                        kept@[j]),
                forall|j: int|
                    0 <= j < k && #[trigger] gfree[j] != idx ==> kept@.contains(gfree[j]),
                forall|j1: int, j2: int|
                    0 <= j1 < j2 < kept@.len() ==> #[trigger] kept@[j1] != #[trigger] kept@[j2],
                forall|j: int|
                    0 <= j < kept@.len() ==> exists|m: int|
                        0 <= m < k && gfree[m] == #[trigger] kept@[j],
            decreases gfree.len() - k,
        {
            let e = self.free[k];
            if e != idx {
                proof {
                    assert forall|j: int| 0 <= j < kept@.len() implies (#[trigger] kept@[j]) != e
                    by {
                        let m = choose|m: int| 0 <= m < k && gfree[m] == #[trigger] kept@[j];
                        assert(gfree[m] != gfree[k as int]);
                    }
                }
                let ghost kept0 = kept@;
                kept.push(e);
                proof {
                    assert(gfree.contains(e)) by {
                        assert(gfree[k as int] == e);
                    }
                    assert forall|j: int|
                        0 <= j < k + 1 && #[trigger] gfree[j] != idx implies kept@.contains(
                        gfree[j]) by {
                        if j < k {
                            let m = choose|m: int| 0 <= m < kept0.len() && kept0[m] == gfree[j];
                            assert(kept@[m] == gfree[j]);
                        } else {
                            assert(kept@[kept@.len() - 1] == gfree[j]);
                        }
                    }
                }
            } else {
                proof {
                    assert forall|j: int|
                        0 <= j < k + 1 && #[trigger] gfree[j] != idx implies kept@.contains(
                        gfree[j]) by {
                        if j < k {
                            let m = choose|m: int| 0 <= m < kept@.len() && kept@[m] == gfree[j];
                        }
                    }
                }
            }
            k += 1;
        }
        self.free = kept;
    }

    /// Duplicate a handle, bumping the block's handle count.  The handle
    /// count saturates; sample data is never touched.
    pub fn clone_handle(&mut self, h: &ChannelData) -> (h2: ChannelData)
        requires
            old(self).wf(),
            old(self).valid_handle(*h),
        ensures
            final(self).wf(),
            h2.id() == h.id(),
            final(self).valid_handle(h2),
            final(self).n_blocks() == old(self).n_blocks(),
            forall|i: int|
                0 <= i < old(self).n_blocks() ==> final(self).block_data(i) == old(
                    self,
                ).block_data(i),
            forall|i: int|
                0 <= i < old(self).n_blocks() && i != h.id() ==> final(self).block_rc(i) == old(
                    self,
                ).block_rc(i),
            h.id() != 0 ==> final(self).block_rc(h.id()) >= 1,
            h.id() != 0 ==> final(self).block_rc(h.id()) >= old(self).block_rc(h.id()),
            h.id() == 0 ==> final(self).block_rc(0) == old(self).block_rc(0),
            h.id() != 0 && 1 <= old(self).block_rc(h.id()) < u64::MAX ==> final(self).block_rc(
                h.id(),
            ) == old(self).block_rc(h.id()) + 1,
    {
        if h.index == 0 {
            return ChannelData { index: 0 };
        }
        let rc = self.blocks[h.index].rc;
        if rc == 0 {
            // Defensive revival of a handle-free block: take it off the free
            // list before handing out a second reference.
            self.remove_from_free(h.index);
            let ghost mid = *self;
            self.set_rc(h.index, 1);
            proof {
                assert forall|k: int|
                    0 <= k < self.free@.len() implies 1 <= (#[trigger] self.free@[k])
                    < self.blocks@.len() && self.blocks@[self.free@[k] as int].rc == 0 by {
                    let e = mid.free@[k];
                    assert(self.free@[k] == e);
                    assert(e != h.index);
                    assert(old(self).free@.contains(e));
                    let m = choose|m: int|
                        0 <= m < old(self).free@.len() && old(self).free@[m] == e;
                    assert(1 <= e < old(self).blocks@.len());
                    assert(old(self).blocks@[e as int].rc == 0);
                    assert(self.blocks@[e as int].rc == 0);
                }
                assert forall|i2: int|
                    1 <= i2 < self.blocks@.len() && (#[trigger] self.blocks@[i2].rc) == 0
                    implies self.free@.contains(i2 as usize) by {
                    assert(i2 != h.index);
                    assert(old(self).blocks@[i2].rc == 0);
                    assert(old(self).free@.contains(i2 as usize));
                    assert((i2 as usize) != h.index);
                    assert(mid.free@.contains(i2 as usize));
                    let m = choose|m: int|
                        0 <= m < mid.free@.len() && mid.free@[m] == i2 as usize;
                    assert(self.free@[m] == i2 as usize);
                }
            }
            ChannelData { index: h.index }
        } else {
            let new_rc: u64 = if rc < u64::MAX {
                rc + 1
            } else {
                rc
            };
            self.set_rc(h.index, new_rc);
            ChannelData { index: h.index }
        }
    }

    /// Release a handle.  When the last handle to a non-silence block is
    /// dropped, the block joins the free list.
    pub fn drop_handle(&mut self, h: ChannelData)
        requires
            old(self).wf(),
            old(self).valid_handle(h),
        ensures
            final(self).wf(),
            final(self).n_blocks() == old(self).n_blocks(),
            forall|i: int|
                0 <= i < old(self).n_blocks() ==> final(self).block_data(i) == old(
                    self,
                ).block_data(i),
            forall|i: int|
                0 <= i < old(self).n_blocks() && i != h.id() ==> final(self).block_rc(i) == old(
                    self,
                ).block_rc(i),
            h.id() != 0 && old(self).block_rc(h.id()) >= 1 ==> final(self).block_rc(h.id()) == old(
                self,
            ).block_rc(h.id()) - 1,
            final(self).free_list().len() >= old(self).free_list().len(),
    {
        if h.index == 0 {
            return ;
        }
        let rc = self.blocks[h.index].rc;
        if rc > 1 {
            self.set_rc(h.index, rc - 1);
        } else if rc == 1 {
            self.set_rc(h.index, 0);
            proof {
                assert forall|k: int|
                    0 <= k < self.free@.len() implies (#[trigger] self.free@[k]) != h.index by {
                    assert(old(self).blocks@[old(self).free@[k] as int].rc == 0);
                }
            }
            self.free.push(h.index);
            proof {
                assert forall|i2: int|
                    1 <= i2 < self.blocks@.len() && (#[trigger] self.blocks@[i2].rc) == 0
                    implies self.free@.contains(i2 as usize) by {
                    if i2 == h.index as int {
                        assert(self.free@[self.free@.len() - 1] == h.index);
                    } else {
                        assert(old(self).free@.contains(i2 as usize));
                        let m = choose|m: int|
                            0 <= m < old(self).free@.len() && old(self).free@[m] == i2 as usize;
                        assert(self.free@[m] == i2 as usize);
                    }
                }
            }
        }
        // rc == 0: the block is already free; nothing to do.
    }

    /// Replace the samples seen through a handle, copying on write: when the
    /// block is shared (or is the silence block) the data goes into a fresh
    /// block and the handle is redirected there.
    pub fn write_block(&mut self, h: &mut ChannelData, data: Vec<i64>)
        requires
            old(self).wf(),
            old(self).valid_handle(*old(h)),
            data@.len() == RENDER_QUANTUM_SIZE,
            old(self).n_blocks() < usize::MAX,
        ensures
            final(self).wf(),
            final(self).valid_handle(*final(h)),
            final(h).id() != 0,
            final(self).samples(*final(h)) == data@,
            final(self).block_rc(final(h).id()) == 1,
            final(self).n_blocks() >= old(self).n_blocks(),
            forall|i: int|
                0 <= i < old(self).n_blocks() && i != final(h).id() && i != old(h).id()
                    ==> final(self).block_rc(i) == old(self).block_rc(i),
            forall|i: int|
                0 <= i < old(self).n_blocks() && i != final(h).id() ==> final(self).block_data(i)
                    == old(self).block_data(i),
    {
        let idx = h.index;
        let rc = self.blocks[idx].rc;
        if idx != 0 && rc == 1 {
            self.blocks[idx] = Block { data, rc: 1 };
        } else {
            let fresh = self.allocate();
            let fidx = fresh.index;
            self.blocks[fidx] = Block { data, rc: 1 };
            if idx != fidx {
                let old_h = ChannelData { index: idx };
                self.drop_handle(old_h);
            }
            h.index = fidx;
        }
    }

    /// Copy the samples a handle refers to into a fresh vector.
    pub fn copy_samples(&self, h: &ChannelData) -> (v: Vec<i64>)
        requires
            self.wf(),
            self.valid_handle(*h),
        ensures
            v@ == self.samples(*h),
    {
        let mut v: Vec<i64> = Vec::new();
        let mut i: usize = 0;
        while i < RENDER_QUANTUM_SIZE
            invariant
                self.wf(),
                self.valid_handle(*h),
                i <= RENDER_QUANTUM_SIZE,
                v@ == self.samples(*h).take(i as int),
            decreases RENDER_QUANTUM_SIZE - i,
        {
            let s = self.blocks[h.index].data[i];
            v.push(s);
            proof {
                assert(v@ == self.samples(*h).take(i + 1));
            }
            i += 1;
        }
        proof {
            assert(self.samples(*h).take(RENDER_QUANTUM_SIZE as int) == self.samples(*h));
        }
        v
    }

    fn set_rc(&mut self, i: usize, rc: u64)
        requires
            i < old(self).blocks@.len(),
        ensures
            final(self).blocks@ == old(self).blocks@.update(
                i as int,
                (Block { data: old(self).blocks@[i as int].data, rc }),
            ),
            final(self).free == old(self).free,
    {
        let b = &mut self.blocks[i];
        b.rc = rc;
    }
}

/// Sample-wise truncated mean of two quanta.
pub open spec fn avg2_seq(a: Seq<i64>, b: Seq<i64>) -> Seq<i64> {
    Seq::new(a.len(), |i: int| avg2_spec(a[i] as int, b[i] as int) as i64)
}

/// Sample-wise truncated mean of four quanta.
pub open spec fn avg4_seq(a: Seq<i64>, b: Seq<i64>, c: Seq<i64>, d: Seq<i64>) -> Seq<i64> {
    Seq::new(a.len(), |i: int| avg4_spec(a[i] as int, b[i] as int, c[i] as int, d[i] as int) as i64)
}

/// Sample-wise Q23.40 scaling of a quantum.
pub open spec fn scale_seq(a: Seq<i64>, k: i64) -> Seq<i64> {
    Seq::new(a.len(), |i: int| mul_q_spec(a[i] as int, k as int) as i64)
}

/// Sample-wise saturating sum of two vectors.
pub fn add_vecs(a: &Vec<i64>, b: &Vec<i64>) -> (v: Vec<i64>)
    requires
        a@.len() == b@.len(),
    ensures
        v@ == add_seq(a@, b@),
{
    let n = a.len();
    let mut v: Vec<i64> = Vec::new();
    let mut i: usize = 0;
    while i < n
        invariant
            i <= n,
            n == a@.len() == b@.len(),
            v@ == add_seq(a@, b@).take(i as int),
        decreases n - i,
    {
        v.push(sat_add64(a[i], b[i]));
        proof {
            assert(v@ == add_seq(a@, b@).take(i + 1));
        }
        i += 1;
    }
    proof {
        assert(add_seq(a@, b@).take(n as int) == add_seq(a@, b@));
    }
    v
}

/// Sample-wise truncated mean of two vectors.
fn avg2_vecs(a: &Vec<i64>, b: &Vec<i64>) -> (v: Vec<i64>)
    requires
        a@.len() == b@.len(),
    ensures
        v@ == avg2_seq(a@, b@),
{
    let n = a.len();
    let mut v: Vec<i64> = Vec::new();
    let mut i: usize = 0;
    while i < n
        invariant
            i <= n,
            n == a@.len() == b@.len(),
            v@ == avg2_seq(a@, b@).take(i as int),
        decreases n - i,
    {
        v.push(avg2(a[i], b[i]));
        proof {
            assert(v@ == avg2_seq(a@, b@).take(i + 1));
        }
        i += 1;
    }
    proof {
        assert(avg2_seq(a@, b@).take(n as int) == avg2_seq(a@, b@));
    }
    v
}

/// Sample-wise truncated mean of four vectors.
fn avg4_vecs(a: &Vec<i64>, b: &Vec<i64>, c: &Vec<i64>, d: &Vec<i64>) -> (v: Vec<i64>)
    requires
        a@.len() == b@.len() == c@.len() == d@.len(),
    ensures
        v@ == avg4_seq(a@, b@, c@, d@),
{
    let n = a.len();
    let mut v: Vec<i64> = Vec::new();
    let mut i: usize = 0;
    while i < n
        invariant
            i <= n,
            n == a@.len() == b@.len() == c@.len() == d@.len(),
            v@ == avg4_seq(a@, b@, c@, d@).take(i as int),
        decreases n - i,
    {
        v.push(avg4(a[i], b[i], c[i], d[i]));
        proof {
            assert(v@ == avg4_seq(a@, b@, c@, d@).take(i + 1));
        }
        i += 1;
    }
    proof {
        assert(avg4_seq(a@, b@, c@, d@).take(n as int) == avg4_seq(a@, b@, c@, d@));
    }
    v
}

/// Sample-wise Q23.40 scaling of a vector.
fn scale_vecs(a: &Vec<i64>, k: i64) -> (v: Vec<i64>)
    ensures
        v@ == scale_seq(a@, k),
{
    let n = a.len();
    let mut v: Vec<i64> = Vec::new();
    let mut i: usize = 0;
    while i < n
        invariant
            i <= n,
            n == a@.len(),
            v@ == scale_seq(a@, k).take(i as int),
        decreases n - i,
    {
        v.push(mul_q(a[i], k));
        proof {
            assert(v@ == scale_seq(a@, k).take(i + 1));
        }
        i += 1;
    }
    proof {
        assert(scale_seq(a@, k).take(n as int) == scale_seq(a@, k));
    }
    v
}

impl Alloc {
    /// Allocate a block and fill it with the given samples; the block is
    /// exclusively owned and distinct from every block that currently has a
    /// handle.
    pub fn fresh_block(&mut self, data: Vec<i64>) -> (h: ChannelData)
        requires
            old(self).wf(),
            old(self).n_blocks() < usize::MAX,
            data@.len() == RENDER_QUANTUM_SIZE,
        ensures
            final(self).wf(),
            final(self).valid_handle(h),
            h.id() != 0,
            final(self).samples(h) == data@,
            final(self).block_rc(h.id()) == 1,
            old(self).n_blocks() <= final(self).n_blocks() <= old(self).n_blocks() + 1,
            old(self).block_rc(h.id()) == 0 || h.id() >= old(self).n_blocks(),
            forall|i: int|
                0 <= i < old(self).n_blocks() && i != h.id() ==> final(self).block_data(i) == old(
                    self,
                ).block_data(i) && final(self).block_rc(i) == old(self).block_rc(i),
    {
        let h = self.allocate();
        let idx = h.index;
        self.blocks[idx] = Block { data, rc: 1 };
        proof {
            assert forall|i2: int|
                1 <= i2 < self.blocks@.len() && (#[trigger] self.blocks@[i2].rc) == 0
                implies self.free@.contains(i2 as usize) by {}
        }
        h
    }
}

impl ChannelData {
    /// Accumulate `other` into this channel, sample by sample with
    /// saturation.  A silent receiver simply adopts the other handle, and a
    /// silent `other` leaves the receiver untouched, so silence stays
    /// pointer-identical through accumulation.
    pub fn add(&mut self, other: &ChannelData, alloc: &mut Alloc)
        requires
            old(alloc).wf(),
            old(alloc).valid_handle(*old(self)),
            old(alloc).valid_handle(*other),
            old(alloc).n_blocks() < usize::MAX,
        ensures
            final(alloc).wf(),
            final(alloc).valid_handle(*final(self)),
            final(alloc).samples(*final(self)) == add_seq(
                old(alloc).samples(*old(self)),
                old(alloc).samples(*other),
            ),
            old(self).id() == 0 && other.id() == 0 ==> final(self).id() == 0,
            final(alloc).n_blocks() >= old(alloc).n_blocks(),
            forall|i: int|
                0 <= i < old(alloc).n_blocks() && i != final(self).id()
                    ==> final(alloc).block_data(i) == old(alloc).block_data(i),
    {
        if self.is_silent() {
            let h2 = alloc.clone_handle(other);
            let old_self = ChannelData { index: self.index };
            *self = h2;
            proof {
                assert(old(alloc).samples(*old(self)) == zero_seq());
                assert(add_seq(zero_seq(), old(alloc).samples(*other)) =~= old(alloc).samples(
                    *other,
                ));
            }
        } else if other.is_silent() {
            proof {
                assert(old(alloc).samples(*other) == zero_seq());
                assert(add_seq(old(alloc).samples(*old(self)), zero_seq()) =~= old(alloc).samples(
                    *old(self),
                ));
            }
        } else {
            let a = alloc.copy_samples(self);
            let b = alloc.copy_samples(other);
            let v = add_vecs(&a, &b);
            alloc.write_block(self, v);
        }
    }
}

/// A multi-channel render quantum: up to `MAX_CHANNELS` block handles, of
/// which the first `channel_count` are meaningful.
pub struct AudioBuffer {
    /// Handles for all channel slots; only the first `channel_count` carry
    /// the signal.
    channels: Vec<ChannelData>,
    /// Number of active channels, in `1..=MAX_CHANNELS`.
    channel_count: usize,
}

/// Channel-count conversion with the `Discrete` interpretation: truncate or
/// extend with silence.
pub open spec fn discrete_view(v: Seq<Seq<i64>>, target: int) -> Seq<Seq<i64>> {
    Seq::new(
        target as nat,
        |c: int|
            if c < v.len() {
                v[c]
            } else {
                zero_seq()
            },
    )
}

/// Channel-count conversion with the `Speakers` interpretation: the fixed
/// Web-Audio coefficient table for layouts of 1, 2, 4 and 6 channels;
/// every other pairing falls back to the discrete rules.
pub open spec fn speakers_view(v: Seq<Seq<i64>>, target: int) -> Seq<Seq<i64>> {
    let n = v.len() as int;
    if n == 1 && target == 2 {
        seq![v[0], v[0]]
    } else if n == 1 && target == 4 {
        seq![v[0], v[0], zero_seq(), zero_seq()]
    } else if n == 1 && target == 6 {
        seq![zero_seq(), zero_seq(), v[0], zero_seq(), zero_seq(), zero_seq()]
    } else if n == 2 && target == 1 {
        seq![avg2_seq(v[0], v[1])]
    } else if n == 2 && target == 4 {
        seq![v[0], v[1], zero_seq(), zero_seq()]
    } else if n == 2 && target == 6 {
        seq![v[0], v[1], zero_seq(), zero_seq(), zero_seq(), zero_seq()]
    } else if n == 4 && target == 1 {
        seq![avg4_seq(v[0], v[1], v[2], v[3])]
    } else if n == 4 && target == 2 {
        seq![avg2_seq(v[0], v[2]), avg2_seq(v[1], v[3])]
    } else if n == 4 && target == 6 {
        seq![v[0], v[1], zero_seq(), zero_seq(), v[2], v[3]]
    } else if n == 6 && target == 1 {
        seq![
            add_seq(
                add_seq(scale_seq(add_seq(v[0], v[1]), SQRT_HALF_Q40), v[2]),
                avg2_seq(v[4], v[5]),
            ),
        ]
    } else if n == 6 && target == 2 {
        seq![
            add_seq(v[0], scale_seq(add_seq(v[2], v[4]), SQRT_HALF_Q40)),
            add_seq(v[1], scale_seq(add_seq(v[2], v[5]), SQRT_HALF_Q40)),
        ]
    } else if n == 6 && target == 4 {
        seq![
            add_seq(v[0], scale_seq(v[2], SQRT_HALF_Q40)),
            add_seq(v[1], scale_seq(v[2], SQRT_HALF_Q40)),
            v[4],
            v[5],
        ]
    } else {
        discrete_view(v, target)
    }
}

/// The channel view after `mix`.
pub open spec fn mix_view(
    v: Seq<Seq<i64>>,
    target: int,
    interpretation: ChannelInterpretation,
) -> Seq<Seq<i64>> {
    if v.len() as int == target {
        v
    } else if interpretation == ChannelInterpretation::Discrete {
        discrete_view(v, target)
    } else {
        speakers_view(v, target)
    }
}

impl AudioBuffer {
    /// Number of active channels.
    pub closed spec fn n_channels(self) -> int {
        self.channel_count as int
    }

    /// Handle in channel slot `c`.
    pub closed spec fn slot(self, c: int) -> ChannelData {
        self.channels@[c]
    }

    /// Well-formedness: all 32 slots exist, hold valid handles, and the
    /// active count is in range.
    pub open spec fn wf(self, alloc: Alloc) -> bool {
        &&& self.channels_len() == MAX_CHANNELS
        &&& 1 <= self.n_channels() <= MAX_CHANNELS
        &&& forall|c: int| 0 <= c < MAX_CHANNELS ==> alloc.valid_handle(#[trigger] self.slot(c))
    }

    /// Exclusive ownership: every non-silence slot has at least one counted
    /// handle, and non-silence slots never share a block.  These clauses
    /// let fresh blocks be proved distinct from every slot, so in-place
    /// rewrites of one channel cannot disturb another.
    pub open spec fn exclusive(self, alloc: Alloc) -> bool {
        &&& forall|c: int|
            0 <= c < MAX_CHANNELS ==> (#[trigger] self.slot(c)).id() == 0 || alloc.block_rc(
                self.slot(c).id(),
            ) >= 1
        &&& forall|c1: int, c2: int|
            0 <= c1 < MAX_CHANNELS && 0 <= c2 < MAX_CHANNELS && c1 != c2 && (
            #[trigger] self.slot(c1)).id() != 0 ==> (#[trigger] self.slot(c2)).id() != self.slot(
                c1,
            ).id()
    }

    /// Length of the slot vector.
    pub closed spec fn channels_len(self) -> int {
        self.channels@.len() as int
    }

    /// The samples of the active channels.
    pub open spec fn view_in(self, alloc: Alloc) -> Seq<Seq<i64>> {
        Seq::new(self.n_channels() as nat, |c: int| alloc.samples(self.slot(c)))
    }

    /// A single-channel silent buffer; costs no pool blocks.
    pub fn silent() -> (r: AudioBuffer)
        ensures
            forall|a: Alloc| a.wf() ==> r.wf(a),
            forall|a: Alloc| #[trigger] r.exclusive(a),
            forall|a: Alloc| a.wf() ==> r.view_in(a) =~~= seq![zero_seq()],
            r.n_channels() == 1,
            forall|c: int| 0 <= c < MAX_CHANNELS ==> r.slot(c).id() == 0,
    {
        let mut channels: Vec<ChannelData> = Vec::new();
        let mut i: usize = 0;
        while i < MAX_CHANNELS
            invariant
                i <= MAX_CHANNELS,
                channels@.len() == i,
                forall|c: int| 0 <= c < i ==> (#[trigger] channels@[c]).id() == 0,
            decreases MAX_CHANNELS - i,
        {
            channels.push(ChannelData { index: 0 });
            i += 1;
        }
        AudioBuffer { channels, channel_count: 1 }
    }

    /// Build a single-channel buffer around an existing handle; the unused
    /// slots hold silence.
    pub fn new(channel: ChannelData, alloc: &Alloc) -> (r: AudioBuffer)
        requires
            alloc.wf(),
            alloc.valid_handle(channel),
            channel.id() == 0 || alloc.block_rc(channel.id()) >= 1,
        ensures
            r.wf(*alloc),
            r.exclusive(*alloc),
            r.n_channels() == 1,
            r.slot(0) == channel,
            r.view_in(*alloc) =~~= seq![alloc.samples(channel)],
    {
        let mut channels: Vec<ChannelData> = Vec::new();
        channels.push(channel);
        let mut i: usize = 1;
        while i < MAX_CHANNELS
            invariant
                1 <= i <= MAX_CHANNELS,
                channels@.len() == i,
                channels@[0] == channel,
                forall|c: int| 1 <= c < i ==> (#[trigger] channels@[c]).id() == 0,
            decreases MAX_CHANNELS - i,
        {
            channels.push(ChannelData { index: 0 });
            i += 1;
        }
        AudioBuffer { channels, channel_count: 1 }
    }

    /// Number of active channels.
    pub fn number_of_channels(&self) -> (n: usize)
        ensures
            n == self.n_channels(),
    {
        self.channel_count
    }

    /// Change the number of active channels without touching the slots.
    /// Newly exposed channels carry whatever their slots already hold.
    pub fn set_number_of_channels(&mut self, n: usize)
        requires
            1 <= n <= MAX_CHANNELS,
        ensures
            final(self).n_channels() == n,
            final(self).channels_len() == old(self).channels_len(),
            forall|c: int|
                0 <= c < old(self).channels_len() ==> final(self).slot(c) == old(self).slot(c),
    {
        self.channel_count = n;
    }

    /// Borrow the handle of channel `c`.
    pub fn channel_data(&self, c: usize) -> (h: &ChannelData)
        requires
            self.channels_len() == MAX_CHANNELS,
            c < MAX_CHANNELS,
        ensures
            *h == self.slot(c as int),
    {
        &self.channels[c]
    }

    /// Store a handle into slot `c`, releasing the handle previously there.
    fn put_channel(&mut self, c: usize, h: ChannelData, alloc: &mut Alloc)
        requires
            old(self).channels_len() == MAX_CHANNELS,
            c < MAX_CHANNELS,
            old(alloc).wf(),
            old(alloc).valid_handle(old(self).slot(c as int)),
            old(alloc).valid_handle(h),
        ensures
            final(alloc).wf(),
            final(self).channels@ == old(self).channels@.update(c as int, h),
            final(self).n_channels() == old(self).n_channels(),
            final(alloc).n_blocks() == old(alloc).n_blocks(),
            forall|i: int|
                0 <= i < old(alloc).n_blocks() ==> final(alloc).block_data(i) == old(
                    alloc,
                ).block_data(i),
            forall|i: int|
                0 <= i < old(alloc).n_blocks() && i != old(self).slot(c as int).id()
                    ==> final(alloc).block_rc(i) == old(alloc).block_rc(i),
    {
        let old_idx = self.channels[c].index;
        self.channels[c] = h;
        alloc.drop_handle(ChannelData { index: old_idx });
    }

    /// Release every handle this buffer holds.
    pub fn drop_in(self, alloc: &mut Alloc)
        requires
            old(alloc).wf(),
            forall|c: int|
                0 <= c < self.channels_len() ==> old(alloc).valid_handle(#[trigger] self.slot(c)),
        ensures
            final(alloc).wf(),
            final(alloc).n_blocks() == old(alloc).n_blocks(),
            forall|i: int|
                0 <= i < old(alloc).n_blocks() ==> final(alloc).block_data(i) == old(
                    alloc,
                ).block_data(i),
    {
        let mut channels = self.channels;
        proof {
            assert forall|c: int|
                0 <= c < channels@.len() implies old(alloc).valid_handle(
                #[trigger] channels@[c]) by {
                assert(channels@[c] == self.slot(c));
            }
        }
        loop
            invariant
                alloc.wf(),
                alloc.n_blocks() == old(alloc).n_blocks(),
                forall|c: int|
                    0 <= c < channels@.len() ==> old(alloc).valid_handle(#[trigger] channels@[c]),
                forall|i: int|
                    0 <= i < old(alloc).n_blocks() ==> alloc.block_data(i) == old(
                        alloc,
                    ).block_data(i),
            decreases channels@.len(),
        {
            let h = channels.pop();
            match h {
                Some(h) => alloc.drop_handle(h),
                None => { break ; },
            }
        }
    }

    /// Duplicate the buffer, sharing every block.
    pub fn clone_in(&self, alloc: &mut Alloc) -> (r: AudioBuffer)
        requires
            old(alloc).wf(),
            self.wf(*old(alloc)),
        ensures
            final(alloc).wf(),
            r.wf(*final(alloc)),
            self.wf(*final(alloc)),
            r.n_channels() == self.n_channels(),
            forall|c: int| 0 <= c < MAX_CHANNELS ==> r.slot(c).id() == self.slot(c).id(),
            final(alloc).n_blocks() == old(alloc).n_blocks(),
            r.view_in(*final(alloc)) =~~= self.view_in(*old(alloc)),
            forall|i: int|
                0 <= i < old(alloc).n_blocks() ==> final(alloc).block_data(i) == old(
                    alloc,
                ).block_data(i),
    {
        let mut channels: Vec<ChannelData> = Vec::new();
        let mut i: usize = 0;
        while i < MAX_CHANNELS
            invariant
                old(alloc).wf(),
                self.wf(*old(alloc)),
                alloc.wf(),
                i <= MAX_CHANNELS,
                channels@.len() == i,
                alloc.n_blocks() == old(alloc).n_blocks(),
                forall|c: int| 0 <= c < i ==> (#[trigger] channels@[c]).id() == self.slot(c).id(),
                forall|j: int|
                    0 <= j < old(alloc).n_blocks() ==> alloc.block_data(j) == old(
                        alloc,
                    ).block_data(j),
                forall|j: int|
                    0 <= j < old(alloc).n_blocks() ==> alloc.block_rc(j) >= old(alloc).block_rc(j),
                forall|c: int|
                    0 <= c < i ==> (#[trigger] channels@[c]).id() == 0 || alloc.block_rc(
                        channels@[c].id(),
                    ) >= 1,
            decreases MAX_CHANNELS - i,
        {
            proof {
                assert(self.channels@[i as int] == self.slot(i as int));
            }
            let ghost before = *alloc;
            let h = alloc.clone_handle(&self.channels[i]);
            proof {
                assert forall|c: int|
                    0 <= c < i + 1 implies (#[trigger] channels@.push(h)[c]).id() == 0
                    || alloc.block_rc(channels@.push(h)[c].id()) >= 1 by {
                    if c < i {
                        assert(channels@.push(h)[c] == channels@[c]);
                        assert(before.block_rc(channels@[c].id()) >= 1 || channels@[c].id() == 0);
                        if channels@[c].id() != 0 {
                            if channels@[c].id() == h.id() {
                                assert(alloc.block_rc(h.id()) >= 1);
                            } else {
                                assert(alloc.block_rc(channels@[c].id()) == before.block_rc(
                                    channels@[c].id()));
                            }
                        }
                    } else {
                        assert(channels@.push(h)[c] == h);
                    }
                }
            }
            channels.push(h);
            i += 1;
        }
        let r = AudioBuffer { channels, channel_count: self.channel_count };
        proof {
            assert forall|c: int|
                0 <= c < r.n_channels() implies r.view_in(*alloc)[c] == self.view_in(
            *old(alloc))[c] by {
                assert(r.slot(c).id() == self.slot(c).id());
            }
        }
        r
    }

    /// Make the buffer a single silent channel.
    pub fn make_silent(&mut self, alloc: &mut Alloc)
        requires
            old(self).wf(*old(alloc)),
            old(self).exclusive(*old(alloc)),
            old(alloc).wf(),
        ensures
            final(alloc).wf(),
            final(self).wf(*final(alloc)),
            final(self).exclusive(*final(alloc)),
            final(self).n_channels() == 1,
            final(self).slot(0).id() == 0,
            final(self).view_in(*final(alloc)) =~~= seq![zero_seq()],
            final(alloc).n_blocks() == old(alloc).n_blocks(),
            forall|i: int|
                0 <= i < old(alloc).n_blocks() ==> final(alloc).block_data(i) == old(
                    alloc,
                ).block_data(i),
    {
        let s = ChannelData { index: 0 };
        self.put_channel(0, s, alloc);
        self.channel_count = 1;
        proof {
            assert forall|c: int|
                0 <= c < MAX_CHANNELS implies alloc.valid_handle(#[trigger] self.slot(c)) by {
                if c != 0 {
                    assert(self.slot(c) == old(self).slot(c));
                }
            }
            assert forall|c: int|
                0 <= c < MAX_CHANNELS && (#[trigger] self.slot(c)).id() != 0 implies
                alloc.block_rc(self.slot(c).id()) >= 1 by {
                assert(c != 0);
                assert(self.slot(c) == old(self).slot(c));
                assert(old(self).slot(c).id() != old(self).slot(0).id() || old(self).slot(
                    0,
                ).id() == 0);
            }
            assert forall|c1: int, c2: int|
                0 <= c1 < MAX_CHANNELS && 0 <= c2 < MAX_CHANNELS && c1 != c2 && (
            #[trigger] self.slot(c1)).id() != 0 implies (#[trigger] self.slot(c2)).id()
                != self.slot(c1).id() by {
                assert(c1 != 0);
                assert(self.slot(c1) == old(self).slot(c1));
                if c2 != 0 {
                    assert(self.slot(c2) == old(self).slot(c2));
                }
            }
            assert(self.view_in(*alloc)[0] == zero_seq());
            assert(self.view_in(*alloc) =~~= seq![zero_seq()]);
        }
    }

    /// Drop every channel but the first.
    pub fn force_mono(&mut self)
        requires
            1 <= old(self).n_channels(),
        ensures
            final(self).n_channels() == 1,
            final(self).channels_len() == old(self).channels_len(),
            forall|c: int|
                0 <= c < old(self).channels_len() ==> final(self).slot(c) == old(self).slot(c),
    {
        self.channel_count = 1;
    }

    /// Replace the samples of channel `c` with `data`, through a fresh
    /// exclusively-owned block; the other channels are untouched.
    pub fn write_channel(&mut self, c: usize, data: Vec<i64>, alloc: &mut Alloc)
        requires
            old(self).wf(*old(alloc)),
            old(self).exclusive(*old(alloc)),
            old(alloc).wf(),
            c < MAX_CHANNELS,
            data@.len() == RENDER_QUANTUM_SIZE,
            old(alloc).n_blocks() < usize::MAX - 1,
        ensures
            final(alloc).wf(),
            final(self).wf(*final(alloc)),
            final(self).exclusive(*final(alloc)),
            final(self).n_channels() == old(self).n_channels(),
            old(alloc).n_blocks() <= final(alloc).n_blocks() <= old(alloc).n_blocks() + 1,
            final(alloc).samples(final(self).slot(c as int)) == data@,
            forall|d: int|
                0 <= d < MAX_CHANNELS && d != c ==> final(self).slot(d) == old(self).slot(d),
            forall|d: int|
                0 <= d < MAX_CHANNELS && d != c ==> final(alloc).samples(final(self).slot(d))
                    == old(alloc).samples(old(self).slot(d)),
            c < old(self).n_channels() ==> final(self).view_in(*final(alloc)) =~~= old(
                self,
            ).view_in(*old(alloc)).update(c as int, data@),
    {
        let ghost a0 = *alloc;
        let h = alloc.fresh_block(data);
        let ghost a1 = *alloc;
        self.put_channel(c, h, alloc);
        proof {
            assert forall|d: int|
                0 <= d < MAX_CHANNELS implies alloc.valid_handle(#[trigger] self.slot(d)) by {
                if d != c {
                    assert(self.slot(d) == old(self).slot(d));
                }
            }
            // The fresh block is distinct from every other (live) slot.
            assert forall|d: int|
                0 <= d < MAX_CHANNELS && d != c && old(self).slot(d).id() != 0 implies (
            #[trigger] old(self).slot(d)).id() != h.id() by {
                assert(a0.block_rc(old(self).slot(d).id()) >= 1);
            }
            // Handle counts of the other slots are untouched.
            assert forall|d: int|
                0 <= d < MAX_CHANNELS && d != c && self.slot(d).id() != 0 implies alloc.block_rc(
                (#[trigger] self.slot(d)).id()) >= 1 by {
                assert(self.slot(d) == old(self).slot(d));
                assert(a1.block_rc(self.slot(d).id()) == a0.block_rc(self.slot(d).id()));
                assert(old(self).slot(d).id() != old(self).slot(c as int).id() || old(
                    self).slot(c as int).id() == 0);
            }
            assert(old(self).slot(c as int).id() == 0 || old(self).slot(c as int).id()
                != h.id());
            assert(alloc.block_rc(h.id()) == 1);
            assert(self.slot(c as int) == h);
            assert forall|c1: int, c2: int|
                0 <= c1 < MAX_CHANNELS && 0 <= c2 < MAX_CHANNELS && c1 != c2 && (
            #[trigger] self.slot(c1)).id() != 0 implies (#[trigger] self.slot(c2)).id()
                != self.slot(c1).id() by {
                if c1 == c {
                    if self.slot(c2).id() != 0 {
                        assert(self.slot(c2) == old(self).slot(c2));
                    }
                } else if c2 == c {
                    if self.slot(c1).id() != 0 {
                        assert(self.slot(c1) == old(self).slot(c1));
                    }
                } else {
                    assert(self.slot(c1) == old(self).slot(c1));
                    assert(self.slot(c2) == old(self).slot(c2));
                }
            }
            assert(alloc.samples(h) == data@);
            assert forall|d: int|
                0 <= d < MAX_CHANNELS && d != c implies alloc.samples(self.slot(d)) == old(
            alloc).samples(#[trigger] old(self).slot(d)) by {
                assert(self.slot(d) == old(self).slot(d));
                assert(old(self).slot(d).id() != h.id());
                assert(a1.block_data(old(self).slot(d).id()) == a0.block_data(
                    old(self).slot(d).id()));
            }
            if c < old(self).n_channels() {
                assert forall|d: int|
                    0 <= d < self.n_channels() implies self.view_in(*alloc)[d] == old(
                self).view_in(a0).update(c as int, data@)[d] by {
                    if d != c {
                        assert(self.slot(d) == old(self).slot(d));
                    }
                }
                assert(self.view_in(*alloc) =~~= old(self).view_in(a0).update(c as int, data@));
            }
        }
    }
}

/// The per-channel views of a vector of channel data vectors.
pub open spec fn deep_view(vs: Seq<Vec<i64>>) -> Seq<Seq<i64>> {
    Seq::new(vs.len(), |c: int| vs[c]@)
}

/// Copy a sample vector.
fn copy_vec(a: &Vec<i64>) -> (v: Vec<i64>)
    ensures
        v@ == a@,
{
    let n = a.len();
    let mut v: Vec<i64> = Vec::new();
    let mut i: usize = 0;
    while i < n
        invariant
            i <= n,
            n == a@.len(),
            v@ == a@.take(i as int),
        decreases n - i,
    {
        v.push(a[i]);
        proof {
            assert(v@ == a@.take(i + 1));
        }
        i += 1;
    }
    proof {
        assert(a@.take(n as int) == a@);
    }
    v
}

/// Mix a stack of channel-data vectors to a target channel count, at the
/// data level: the result's views are exactly `mix_view` of the input views.
pub fn mix_datas(datas: &Vec<Vec<i64>>, target: usize, interpretation: ChannelInterpretation) -> (r:
    Vec<Vec<i64>>)
    requires
        1 <= datas@.len() <= MAX_CHANNELS,
        1 <= target <= MAX_CHANNELS,
        forall|c: int| 0 <= c < datas@.len() ==> (#[trigger] datas@[c]@).len() == RENDER_QUANTUM_SIZE,
    ensures
        r@.len() == target,
        forall|c: int| 0 <= c < target ==> (#[trigger] r@[c]@).len() == RENDER_QUANTUM_SIZE,
        deep_view(r@) =~~= mix_view(deep_view(datas@), target as int, interpretation),
{
    let ghost dv = deep_view(datas@);
    let n = datas.len();
    let mut r: Vec<Vec<i64>> = Vec::new();
    if n == target {
        let mut c: usize = 0;
        while c < n
            invariant
                n == datas@.len(),
                forall|k: int|
                    0 <= k < datas@.len() ==> (#[trigger] datas@[k]@).len() == RENDER_QUANTUM_SIZE,
                c <= n,
                r@.len() == c,
                forall|k: int| 0 <= k < c ==> (#[trigger] r@[k]@) == datas@[k]@,
            decreases n - c,
        {
            r.push(copy_vec(&datas[c]));
            c += 1;
        }
        return r;
    }
    let speakers = matches!(interpretation, ChannelInterpretation::Speakers);
    if speakers && n == 1 && target == 2 {
        r.push(copy_vec(&datas[0]));
        r.push(copy_vec(&datas[0]));
    } else if speakers && n == 1 && target == 4 {
        r.push(copy_vec(&datas[0]));
        r.push(copy_vec(&datas[0]));
        r.push(zero_data());
        r.push(zero_data());
    } else if speakers && n == 1 && target == 6 {
        r.push(zero_data());
        r.push(zero_data());
        r.push(copy_vec(&datas[0]));
        r.push(zero_data());
        r.push(zero_data());
        r.push(zero_data());
    } else if speakers && n == 2 && target == 1 {
        r.push(avg2_vecs(&datas[0], &datas[1]));
    } else if speakers && n == 2 && target == 4 {
        r.push(copy_vec(&datas[0]));
        r.push(copy_vec(&datas[1]));
        r.push(zero_data());
        r.push(zero_data());
    } else if speakers && n == 2 && target == 6 {
        r.push(copy_vec(&datas[0]));
        r.push(copy_vec(&datas[1]));
        r.push(zero_data());
        r.push(zero_data());
        r.push(zero_data());
        r.push(zero_data());
    } else if speakers && n == 4 && target == 1 {
        r.push(avg4_vecs(&datas[0], &datas[1], &datas[2], &datas[3]));
    } else if speakers && n == 4 && target == 2 {
        r.push(avg2_vecs(&datas[0], &datas[2]));
        r.push(avg2_vecs(&datas[1], &datas[3]));
    } else if speakers && n == 4 && target == 6 {
        r.push(copy_vec(&datas[0]));
        r.push(copy_vec(&datas[1]));
        r.push(zero_data());
        r.push(zero_data());
        r.push(copy_vec(&datas[2]));
        r.push(copy_vec(&datas[3]));
    } else if speakers && n == 6 && target == 1 {
        let fronts = add_vecs(&datas[0], &datas[1]);
        let fronts_scaled = scale_vecs(&fronts, SQRT_HALF_Q40);
        let with_centre = add_vecs(&fronts_scaled, &datas[2]);
        let surround = avg2_vecs(&datas[4], &datas[5]);
        r.push(add_vecs(&with_centre, &surround));
    } else if speakers && n == 6 && target == 2 {
        let left_side = add_vecs(&datas[2], &datas[4]);
        let left_scaled = scale_vecs(&left_side, SQRT_HALF_Q40);
        r.push(add_vecs(&datas[0], &left_scaled));
        let right_side = add_vecs(&datas[2], &datas[5]);
        let right_scaled = scale_vecs(&right_side, SQRT_HALF_Q40);
        r.push(add_vecs(&datas[1], &right_scaled));
    } else if speakers && n == 6 && target == 4 {
        let centre_scaled = scale_vecs(&datas[2], SQRT_HALF_Q40);
        r.push(add_vecs(&datas[0], &centre_scaled));
        r.push(add_vecs(&datas[1], &centre_scaled));
        r.push(copy_vec(&datas[4]));
        r.push(copy_vec(&datas[5]));
    } else {
        // Discrete rules: truncate or extend with silence.
        let mut c: usize = 0;
        while c < target
            invariant
                n == datas@.len(),
                forall|k: int|
                    0 <= k < datas@.len() ==> (#[trigger] datas@[k]@).len() == RENDER_QUANTUM_SIZE,
                c <= target,
                r@.len() == c,
                forall|k: int|
                    0 <= k < c ==> (#[trigger] r@[k]@) == if k < n {
                        datas@[k]@
                    } else {
                        zero_seq()
                    },
            decreases target - c,
        {
            if c < n {
                r.push(copy_vec(&datas[c]));
            } else {
                r.push(zero_data());
            }
            c += 1;
        }
    }
    proof {
        assert(zero_seq().len() == RENDER_QUANTUM_SIZE);
        assert forall|c: int| 0 <= c < r@.len() implies (#[trigger] r@[c]@).len()
            == RENDER_QUANTUM_SIZE by {}
        assert(deep_view(r@) =~~= mix_view(dv, target as int, interpretation));
    }
    r
}

impl AudioBuffer {
    /// Copy the active channels out as plain data vectors.
    pub fn read_all(&self, alloc: &Alloc) -> (r: Vec<Vec<i64>>)
        requires
            alloc.wf(),
            self.wf(*alloc),
        ensures
            r@.len() == self.n_channels(),
            deep_view(r@) =~~= self.view_in(*alloc),
            forall|c: int| 0 <= c < r@.len() ==> (#[trigger] r@[c]@).len() == RENDER_QUANTUM_SIZE,
    {
        let mut r: Vec<Vec<i64>> = Vec::new();
        let mut c: usize = 0;
        while c < self.channel_count
            invariant
                alloc.wf(),
                self.wf(*alloc),
                c <= self.n_channels(),
                r@.len() == c,
                forall|k: int| 0 <= k < c ==> (#[trigger] r@[k]@) == alloc.samples(self.slot(k)),
            decreases self.n_channels() - c,
        {
            proof {
                assert(self.channels@[c as int] == self.slot(c as int));
            }
            let v = alloc.copy_samples(&self.channels[c]);
            r.push(v);
            c += 1;
        }
        proof {
            assert forall|k: int|
                0 <= k < r@.len() implies (#[trigger] r@[k]@).len() == RENDER_QUANTUM_SIZE by {}
            assert(deep_view(r@) =~~= self.view_in(*alloc));
        }
        r
    }

    /// Replace the active channels with the given data, each channel in a
    /// fresh exclusively-owned block; slots past the new count become
    /// silence.
    pub fn replace_with(&mut self, datas: Vec<Vec<i64>>, alloc: &mut Alloc)
        requires
            old(self).wf(*old(alloc)),
            old(self).exclusive(*old(alloc)),
            old(alloc).wf(),
            1 <= datas@.len() <= MAX_CHANNELS,
            forall|c: int|
                0 <= c < datas@.len() ==> (#[trigger] datas@[c]@).len() == RENDER_QUANTUM_SIZE,
            old(alloc).n_blocks() + MAX_CHANNELS < usize::MAX,
        ensures
            final(alloc).wf(),
            final(self).wf(*final(alloc)),
            final(self).exclusive(*final(alloc)),
            final(self).n_channels() == datas@.len(),
            final(self).view_in(*final(alloc)) =~~= deep_view(datas@),
            old(alloc).n_blocks() <= final(alloc).n_blocks() <= old(alloc).n_blocks()
                + MAX_CHANNELS,
    {
        let n = datas.len();
        let mut c: usize = 0;
        // Clear the unused upper slots first.
        while c < MAX_CHANNELS
            invariant
                n == datas@.len(),
                1 <= n <= MAX_CHANNELS,
                alloc.wf(),
                self.wf(*alloc),
                self.exclusive(*alloc),
                self.n_channels() == old(self).n_channels(),
                n <= c ==> self.n_channels() <= MAX_CHANNELS,
                c <= MAX_CHANNELS,
                alloc.n_blocks() == old(alloc).n_blocks(),
                alloc.n_blocks() + MAX_CHANNELS < usize::MAX,
                forall|k: int| n <= k < c ==> (#[trigger] self.slot(k)).id() == 0,
            decreases MAX_CHANNELS - c,
        {
            if c >= n {
                let s = ChannelData { index: 0 };
                proof {
                    assert(alloc.valid_handle(self.slot(c as int)));
                }
                let ghost pre = *self;
                self.put_channel(c, s, alloc);
                proof {
                    assert forall|k: int|
                        0 <= k < MAX_CHANNELS && k != c implies #[trigger] self.slot(k) == pre.slot(
                    k) by {}
                }
            }
            c += 1;
        }
        self.set_number_of_channels(n);
        proof {
            assert forall|k: int|
                0 <= k < MAX_CHANNELS implies alloc.valid_handle(#[trigger] self.slot(k)) by {}
            assert(self.wf(*alloc));
        }
        // Now fill the active slots from the end backwards.
        let mut datas = datas;
        let ghost dv = deep_view(datas@);
        while datas.len() > 0
            invariant
                n == dv.len(),
                1 <= n <= MAX_CHANNELS,
                datas@.len() <= n,
                alloc.wf(),
                self.wf(*alloc),
                self.exclusive(*alloc),
                self.n_channels() == n,
                alloc.n_blocks() <= old(alloc).n_blocks() + (n - datas@.len()),
                forall|c2: int| 0 <= c2 < dv.len() ==> (#[trigger] dv[c2]).len() == RENDER_QUANTUM_SIZE,
                forall|c2: int| 0 <= c2 < datas@.len() ==> (#[trigger] datas@[c2]@) == dv[c2],
                alloc.n_blocks() >= old(alloc).n_blocks(),
                alloc.n_blocks() + datas@.len() < usize::MAX,
                forall|k: int|
                    datas@.len() <= k < n ==> alloc.samples(#[trigger] self.slot(k)) == dv[k],
            decreases datas@.len(),
        {
            let data = datas.pop().unwrap();
            let c = datas.len();
            let ghost pre_self = *self;
            let ghost pre_alloc = *alloc;
            self.write_channel(c, data, alloc);
            proof {
                assert forall|k: int|
                    c + 1 <= k < n implies alloc.samples(#[trigger] self.slot(k)) == dv[k] by {
                    assert(self.slot(k) == pre_self.slot(k));
                    assert(alloc.samples(pre_self.slot(k)) == pre_alloc.samples(pre_self.slot(k)));
                }
            }
        }
        proof {
            assert(self.view_in(*alloc) =~~= dv);
        }
    }

    /// Up/Down-mix in place to the desired number of channels.
    pub fn mix(
        &mut self,
        channels: usize,
        interpretation: ChannelInterpretation,
        alloc: &mut Alloc,
    )
        requires
            old(self).wf(*old(alloc)),
            old(self).exclusive(*old(alloc)),
            old(alloc).wf(),
            1 <= channels <= MAX_CHANNELS,
            old(alloc).n_blocks() + MAX_CHANNELS < usize::MAX,
        ensures
            final(alloc).wf(),
            final(self).wf(*final(alloc)),
            final(self).exclusive(*final(alloc)),
            final(self).n_channels() == channels,
            final(self).view_in(*final(alloc)) =~~= mix_view(
                old(self).view_in(*old(alloc)),
                channels as int,
                interpretation,
            ),
            old(alloc).n_blocks() <= final(alloc).n_blocks() <= old(alloc).n_blocks()
                + MAX_CHANNELS,
    {
        if self.channel_count == channels {
            return ;
        }
        let datas = self.read_all(alloc);
        let mixed = mix_datas(&datas, channels, interpretation);
        self.replace_with(mixed, alloc);
    }

    /// Build a buffer owning fresh copies of the given channel data.
    pub fn from_datas(datas: Vec<Vec<i64>>, alloc: &mut Alloc) -> (r: AudioBuffer)
        requires
            old(alloc).wf(),
            1 <= datas@.len() <= MAX_CHANNELS,
            forall|c: int|
                0 <= c < datas@.len() ==> (#[trigger] datas@[c]@).len() == RENDER_QUANTUM_SIZE,
            old(alloc).n_blocks() + MAX_CHANNELS < usize::MAX,
        ensures
            final(alloc).wf(),
            r.wf(*final(alloc)),
            r.exclusive(*final(alloc)),
            r.n_channels() == datas@.len(),
            r.view_in(*final(alloc)) =~~= deep_view(datas@),
            old(alloc).n_blocks() <= final(alloc).n_blocks() <= old(alloc).n_blocks()
                + MAX_CHANNELS,
    {
        let mut r = AudioBuffer::silent();
        r.replace_with(datas, alloc);
        r
    }

    /// Sum two buffers after mixing both to the larger channel count.
    pub fn add(
        &self,
        other: &AudioBuffer,
        interpretation: ChannelInterpretation,
        alloc: &mut Alloc,
    ) -> (r: AudioBuffer)
        requires
            old(alloc).wf(),
            self.wf(*old(alloc)),
            other.wf(*old(alloc)),
            old(alloc).n_blocks() + MAX_CHANNELS < usize::MAX,
        ensures
            final(alloc).wf(),
            r.wf(*final(alloc)),
            r.n_channels() == if self.n_channels() >= other.n_channels() {
                self.n_channels()
            } else {
                other.n_channels()
            },
            r.view_in(*final(alloc)) =~~= add_views(
                mix_view(self.view_in(*old(alloc)), r.n_channels(), interpretation),
                mix_view(other.view_in(*old(alloc)), r.n_channels(), interpretation),
            ),
            old(alloc).n_blocks() <= final(alloc).n_blocks() <= old(alloc).n_blocks()
                + MAX_CHANNELS,
    {
        let target = if self.channel_count >= other.channel_count {
            self.channel_count
        } else {
            other.channel_count
        };
        let da = self.read_all(alloc);
        let db = other.read_all(alloc);
        let ma = mix_datas(&da, target, interpretation);
        let mb = mix_datas(&db, target, interpretation);
        let mut sums: Vec<Vec<i64>> = Vec::new();
        let mut c: usize = 0;
        while c < target
            invariant
                c <= target,
                target <= MAX_CHANNELS,
                ma@.len() == target,
                mb@.len() == target,
                forall|k: int| 0 <= k < target ==> (#[trigger] ma@[k]@).len() == RENDER_QUANTUM_SIZE,
                forall|k: int| 0 <= k < target ==> (#[trigger] mb@[k]@).len() == RENDER_QUANTUM_SIZE,
                sums@.len() == c,
                forall|k: int|
                    0 <= k < c ==> (#[trigger] sums@[k]@) == add_seq(ma@[k]@, mb@[k]@),
            decreases target - c,
        {
            sums.push(add_vecs(&ma[c], &mb[c]));
            c += 1;
        }
        let r = AudioBuffer::from_datas(sums, alloc);
        proof {
            assert(r.view_in(*alloc) =~~= add_views(
                mix_view(self.view_in(*old(alloc)), target as int, interpretation),
                mix_view(other.view_in(*old(alloc)), target as int, interpretation),
            ));
        }
        r
    }
}

/// Channel-wise saturating sum of two equal-length channel stacks.
pub open spec fn add_views(a: Seq<Seq<i64>>, b: Seq<Seq<i64>>) -> Seq<Seq<i64>> {
    Seq::new(a.len(), |c: int| add_seq(a[c], b[c]))
}

/// Reclamation law of the pool: a non-silence block with no outstanding
/// handles is always on the free list, ready for reuse.  Together with the
/// `n_blocks` clauses of every pool operation — the block store never
/// shrinks — this pins the pool's lifecycle: blocks are recycled, never
/// leaked and never deallocated.
pub proof fn lemma_unreferenced_blocks_are_free(a: Alloc, i: int)
    requires
        a.wf(),
        1 <= i < a.n_blocks(),
        a.block_rc(i) == 0,
    ensures
        a.free_list().contains(i as usize),
{
}

/// Silence law: every handle to block 0 reads as the all-zero quantum, so
/// the pointer-identity silence check (`ChannelData::is_silent`) is sound:
/// a silent handle always denotes silence.
pub proof fn lemma_silence_is_zero(a: Alloc, h: ChannelData)
    requires
        a.wf(),
        h.id() == 0,
    ensures
        a.samples(h) == zero_seq(),
{
}

/// Round-trip law of discrete mixing: for a stack of `c1` channels, mixing
/// to `c1`, then up to any `c2 >= c1`, then back down to `c1`, all with
/// the `Discrete` interpretation, is the identity.
pub proof fn lemma_mix_discrete_round_trip(v: Seq<Seq<i64>>, c1: int, c2: int)
    requires
        v.len() == c1,
        1 <= c1 <= c2 <= MAX_CHANNELS,
    ensures
        mix_view(
            mix_view(
                mix_view(v, c1, ChannelInterpretation::Discrete),
                c2,
                ChannelInterpretation::Discrete,
            ),
            c1,
            ChannelInterpretation::Discrete,
        ) =~~= v,
{
    let m1 = mix_view(v, c1, ChannelInterpretation::Discrete);
    assert(m1 == v);
    let m2 = mix_view(m1, c2, ChannelInterpretation::Discrete);
    let m3 = mix_view(m2, c1, ChannelInterpretation::Discrete);
    if c1 == c2 {
    } else {
        assert forall|c: int| 0 <= c < c1 implies m3[c] == v[c] by {
            assert(m2[c] == v[c]);
        }
    }
}

/// Every block a well-formed pool hands out is a full quantum.
pub proof fn lemma_block_len(a: Alloc, h: ChannelData)
    requires
        a.wf(),
        a.valid_handle(h),
    ensures
        a.samples(h).len() == RENDER_QUANTUM_SIZE,
{
}

/// A full quantum of zero samples.
pub fn zero_quantum() -> (v: Vec<i64>)
    ensures
        v@ == zero_seq(),
{
    zero_data()
}

/// A full quantum of zero samples.
fn zero_data() -> (v: Vec<i64>)
    ensures
        v@ == zero_seq(),
{
    let mut v: Vec<i64> = Vec::new();
    let mut i: usize = 0;
    while i < RENDER_QUANTUM_SIZE
        invariant
            i <= RENDER_QUANTUM_SIZE,
            v@ == zero_seq().take(i as int),
        decreases RENDER_QUANTUM_SIZE - i,
    {
        v.push(0);
        proof {
            assert(v@ == zero_seq().take(i + 1));
        }
        i += 1;
    }
    proof {
        assert(zero_seq().take(RENDER_QUANTUM_SIZE as int) == zero_seq());
    }
    v
}

} // verus!
