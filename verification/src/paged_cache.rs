//! Paged KV-cache: fixed-size physical blocks, a free-list allocator and per-sequence
//! block tables.

use vstd::prelude::*;
use crate::error::{owned, PoxError, Result};

verus! {

pub const DEFAULT_BLOCK_SIZE: usize = 16;

/// `s` with the elements from `off` on replaced by `new`.
pub open spec fn splice<T>(s: Seq<T>, off: int, new: Seq<T>) -> Seq<T> {
    s.subrange(0, off) + new + s.subrange(off + new.len(), s.len() as int)
}

pub open spec fn min_usize(a: int, b: int) -> int {
    if a <= b {
        a
    } else {
        b
    }
}

/// A fixed-size physical block holding keys and values of `block_size` tokens,
/// laid out as `[token, layer, head, dim]`.
#[derive(Debug, Clone)]
pub struct PhysicalBlock<T> {
    pub block_id: usize,
    pub block_size: usize,
    pub num_layers: usize,
    pub num_kv_heads: usize,
    pub head_dim: usize,
    pub k_data: Vec<T>,
    pub v_data: Vec<T>,
}

/// Elements stored for one token: all layers, heads and dimensions.
pub open spec fn per_token(num_layers: int, num_kv_heads: int, head_dim: int) -> int {
    num_layers * num_kv_heads * head_dim
}

impl<T> PhysicalBlock<T> {
    /// Elements held by each of the key and the value buffers.
    pub open spec fn elems(&self) -> int {
        self.block_size * self.num_layers * self.num_kv_heads * self.head_dim
    }

    pub open spec fn wf(&self) -> bool {
        &&& self.k_data@.len() == self.elems()
        &&& self.v_data@.len() == self.elems()
    }

    /// Position of the first dimension of `head` in `layer` of the `token`-th slot.
    pub open spec fn spec_offset(&self, token: int, layer: int, head: int) -> int {
        token * per_token(self.num_layers as int, self.num_kv_heads as int, self.head_dim as int)
            + layer * (self.num_kv_heads * self.head_dim) + head * self.head_dim
    }

    /// Number of dimensions copied from a key of length `k_len`.
    pub open spec fn copy_len(&self, k_len: int) -> int {
        min_usize(k_len, self.head_dim as int)
    }

    /// Whether writing a key of `k_len` and a value of `v_len` at the given slot stays
    /// inside the buffers and finds enough value dimensions.
    pub open spec fn write_fits(&self, token: int, layer: int, head: int, k_len: int, v_len: int) -> bool {
        &&& self.num_kv_heads * self.head_dim <= usize::MAX
        &&& per_token(self.num_layers as int, self.num_kv_heads as int, self.head_dim as int)
            <= usize::MAX
        &&& self.spec_offset(token, layer, head) + self.copy_len(k_len) <= self.elems()
        &&& self.copy_len(k_len) <= v_len
    }
}

/// The four factors of a block's size multiply without overflowing a `usize`.
pub open spec fn block_dims_fit(block_size: int, num_layers: int, num_kv_heads: int, head_dim: int) -> bool {
    &&& block_size * num_layers <= usize::MAX
    &&& block_size * num_layers * num_kv_heads <= usize::MAX
    &&& block_size * num_layers * num_kv_heads * head_dim <= usize::MAX
}

impl<T: Copy + Default> PhysicalBlock<T> {
    pub fn new(
        block_id: usize,
        block_size: usize,
        num_layers: usize,
        num_kv_heads: usize,
        head_dim: usize,
    ) -> (r: Self)
        requires
            block_dims_fit(block_size as int, num_layers as int, num_kv_heads as int, head_dim as int),
        ensures
            r.wf(),
            r.block_id == block_id,
            r.block_size == block_size,
            r.num_layers == num_layers,
            r.num_kv_heads == num_kv_heads,
            r.head_dim == head_dim,
            forall|i: int, j: int|
                0 <= i < r.elems() && 0 <= j < r.elems() ==> #[trigger] r.k_data@[i]
                    == #[trigger] r.v_data@[j],
            forall|i: int, j: int|
                0 <= i < r.elems() && 0 <= j < r.elems() ==> #[trigger] r.k_data@[i]
                    == #[trigger] r.k_data@[j],
    {
        let total_elements = block_size * num_layers * num_kv_heads * head_dim;
        let zero = T::default();
        let mut k_data: Vec<T> = Vec::new();
        let mut v_data: Vec<T> = Vec::new();
        let mut i: usize = 0;
        while i < total_elements
            invariant
                0 <= i <= total_elements,
                k_data@.len() == i,
                v_data@.len() == i,
                forall|j: int| 0 <= j < i ==> #[trigger] k_data@[j] == zero,
                forall|j: int| 0 <= j < i ==> #[trigger] v_data@[j] == zero,
            decreases total_elements - i,
        {
            k_data.push(zero);
            v_data.push(zero);
            i = i + 1;
        }
        PhysicalBlock { block_id, block_size, num_layers, num_kv_heads, head_dim, k_data, v_data }
    }

    /// Stores a key and a value for `head` of `layer` in the `token_idx`-th slot;
    /// at most `head_dim` dimensions of the key (and as many of the value) are copied.
    pub fn write_kv(&mut self, token_idx: usize, layer: usize, head: usize, k: &[T], v: &[T]) -> (r: Result<()>)
        requires
            old(self).wf(),
            token_idx < old(self).block_size ==> old(self).write_fits(
                token_idx as int,
                layer as int,
                head as int,
                k@.len() as int,
                v@.len() as int,
            ),
        ensures
            final(self).wf(),
            final(self).block_id == old(self).block_id,
            final(self).block_size == old(self).block_size,
            final(self).num_layers == old(self).num_layers,
            final(self).num_kv_heads == old(self).num_kv_heads,
            final(self).head_dim == old(self).head_dim,
            token_idx >= old(self).block_size ==> (r matches Err(PoxError::Runtime(m)) && m@
                == "Token index exceeds block capacity"@) && final(self).k_data@
                == old(self).k_data@ && final(self).v_data@ == old(self).v_data@,
            token_idx < old(self).block_size ==> ({
                let off = old(self).spec_offset(token_idx as int, layer as int, head as int);
                let n = old(self).copy_len(k@.len() as int);
                &&& r is Ok
                &&& final(self).k_data@ == splice(old(self).k_data@, off, k@.subrange(0, n))
                &&& final(self).v_data@ == splice(old(self).v_data@, off, v@.subrange(0, n))
            }),
    {
        if token_idx >= self.block_size {
            return Err(PoxError::Runtime(owned("Token index exceeds block capacity")));
        }
        let ghost nl = self.num_layers as int;
        let ghost nh = self.num_kv_heads as int;
        let ghost hd = self.head_dim as int;
        let ghost bs = self.block_size as int;
        let ghost off = self.spec_offset(token_idx as int, layer as int, head as int);
        let len = if k.len() < self.head_dim {
            k.len()
        } else {
            self.head_dim
        };
        proof {
            assert(0 <= nh * hd) by (nonlinear_arith)
                requires
                    nh >= 0,
                    hd >= 0,
            ;
            assert(0 <= nl * nh * hd) by (nonlinear_arith)
                requires
                    nh * hd >= 0,
                    nl >= 0,
            ;
            assert(token_idx * (nl * nh * hd) >= 0 && layer * (nh * hd) >= 0 && head * hd >= 0)
                by (nonlinear_arith)
                requires
                    nl * nh * hd >= 0,
                    nh * hd >= 0,
                    hd >= 0,
                    layer >= 0,
                    head >= 0,
            ;
        }
        let per_layer = self.num_kv_heads * self.head_dim;
        assert(nl * per_layer == nl * nh * hd) by (nonlinear_arith)
            requires
                per_layer == nh * hd,
        ;
        let per_tok = self.num_layers * per_layer;
        assert(token_idx * per_tok >= 0 && layer * per_layer >= 0 && head * hd >= 0)
            by (nonlinear_arith)
            requires
                per_tok >= 0,
                per_layer >= 0,
                hd >= 0,
        ;
        assert(token_idx * per_tok + layer * per_layer + head * hd == off);
        let klen = self.k_data.len();
        assert(off <= klen);
        assert(token_idx * per_tok <= off && layer * per_layer <= off && head * hd <= off) by (nonlinear_arith)
            requires
                token_idx * per_tok + layer * per_layer + head * hd == off,
                per_tok >= 0,
                per_layer >= 0,
                hd >= 0,
                head >= 0,
        ;
        let offset = token_idx * per_tok + layer * per_layer + head * self.head_dim;
        let ghost k0 = self.k_data@;
        let ghost v0 = self.v_data@;
        let mut t: usize = 0;
        while t < len
            invariant
                0 <= t <= len,
                offset == off,
                len == old(self).copy_len(k@.len() as int),
                off + len <= k0.len(),
                k0.len() <= usize::MAX,
                len <= v@.len(),
                len <= k@.len(),
                k0.len() == v0.len(),
                self.block_id == old(self).block_id,
                self.block_size == old(self).block_size,
                self.num_layers == old(self).num_layers,
                self.num_kv_heads == old(self).num_kv_heads,
                self.head_dim == old(self).head_dim,
                k0 == old(self).k_data@,
                v0 == old(self).v_data@,
                old(self).wf(),
                self.k_data@ == splice(k0, off, k@.subrange(0, t as int)),
                self.v_data@ == splice(v0, off, v@.subrange(0, t as int)),
            decreases len - t,
        {
            self.k_data.set(offset + t, k[t]);
            self.v_data.set(offset + t, v[t]);
            t = t + 1;
            assert(self.k_data@ =~= splice(k0, off, k@.subrange(0, t as int)));
            assert(self.v_data@ =~= splice(v0, off, v@.subrange(0, t as int)));
        }
        Ok(())
    }
}

/// The free list after returning `id`: blocks out of range and blocks already free are ignored.
pub open spec fn free_step(free: Seq<usize>, id: usize, total: usize) -> Seq<usize> {
    if id < total && !free.contains(id) {
        free.push(id)
    } else {
        free
    }
}

/// The free list after returning every block of `ids`, in order.
pub open spec fn free_all(free: Seq<usize>, ids: Seq<usize>, total: usize) -> Seq<usize>
    decreases ids.len(),
{
    if ids.len() == 0 {
        free
    } else {
        free_step(free_all(free, ids.drop_last(), total), ids.last(), total)
    }
}

/// Global allocator of the physical blocks.
#[derive(Debug)]
pub struct BlockManager<T> {
    pub block_size: usize,
    pub total_blocks: usize,
    pub free_block_ids: Vec<usize>,
    pub blocks: Vec<PhysicalBlock<T>>,
}

/// Total storage of a run of blocks, in elements.
pub open spec fn blocks_storage<T>(blocks: Seq<PhysicalBlock<T>>) -> int
    decreases blocks.len(),
{
    if blocks.len() == 0 {
        0
    } else {
        blocks_storage(blocks.drop_last()) + blocks.last().k_data@.len()
            + blocks.last().v_data@.len()
    }
}

impl<T> BlockManager<T> {
    /// Every block is in place and well formed; the free list names distinct blocks.
    pub open spec fn wf(&self) -> bool {
        &&& self.blocks@.len() == self.total_blocks
        &&& forall|i: int|
            0 <= i < self.blocks@.len() ==> (#[trigger] self.blocks@[i]).wf()
                && self.blocks@[i].block_id == i && self.blocks@[i].block_size == self.block_size
        &&& forall|i: int|
            0 <= i < self.free_block_ids@.len() ==> #[trigger] self.free_block_ids@[i]
                < self.total_blocks
        &&& self.free_block_ids@.no_duplicates()
    }

    pub fn allocate_block(&mut self) -> (r: Result<usize>)
        requires
            old(self).wf(),
        ensures
            final(self).wf(),
            final(self).blocks@ == old(self).blocks@,
            final(self).block_size == old(self).block_size,
            final(self).total_blocks == old(self).total_blocks,
            old(self).free_block_ids@.len() == 0 ==> (r matches Err(PoxError::Runtime(m)) && m@
                == "PagedAttention Out of Memory: No free physical blocks available"@)
                && final(self).free_block_ids@ == old(self).free_block_ids@,
            old(self).free_block_ids@.len() > 0 ==> r == Ok::<usize, PoxError>(
                old(self).free_block_ids@.last(),
            ) && final(self).free_block_ids@ == old(self).free_block_ids@.drop_last(),
    {
        match self.free_block_ids.pop() {
            Some(id) => {
                proof {
                    let f = old(self).free_block_ids@;
                    assert forall|i: int, j: int|
                        0 <= i < f.len() - 1 && 0 <= j < f.len() - 1 && i != j implies f.drop_last()[i]
                        != f.drop_last()[j] by {}
                }
                Ok(id)
            },
            None => Err(
                PoxError::Runtime(owned("PagedAttention Out of Memory: No free physical blocks available")),
            ),
        }
    }

    fn is_free(&self, block_id: usize) -> (r: bool)
        ensures
            r == self.free_block_ids@.contains(block_id),
    {
        let mut i: usize = 0;
        while i < self.free_block_ids.len()
            invariant
                0 <= i <= self.free_block_ids@.len(),
                forall|j: int| 0 <= j < i ==> self.free_block_ids@[j] != block_id,
            decreases self.free_block_ids@.len() - i,
        {
            if self.free_block_ids[i] == block_id {
                return true;
            }
            i = i + 1;
        }
        false
    }

    /// Returns a block to the free list, unless it is out of range or already free.
    pub fn free_block(&mut self, block_id: usize)
        requires
            old(self).wf(),
        ensures
            final(self).wf(),
            final(self).blocks@ == old(self).blocks@,
            final(self).block_size == old(self).block_size,
            final(self).total_blocks == old(self).total_blocks,
            final(self).free_block_ids@ == free_step(
                old(self).free_block_ids@,
                block_id,
                old(self).total_blocks,
            ),
    {
        if block_id < self.total_blocks && !self.is_free(block_id) {
            self.free_block_ids.push(block_id);
            proof {
                let f = old(self).free_block_ids@;
                assert forall|i: int, j: int|
                    0 <= i < f.len() + 1 && 0 <= j < f.len() + 1 && i != j implies f.push(
                    block_id,
                )[i] != f.push(block_id)[j] by {
                    if i == f.len() {
                        assert(f.push(block_id)[j] == f[j]);
                    }
                    if j == f.len() {
                        assert(f.push(block_id)[i] == f[i]);
                    }
                }
            }
        }
    }

    pub fn available_blocks(&self) -> (r: usize)
        ensures
            r == self.free_block_ids@.len(),
    {
        self.free_block_ids.len()
    }

    /// Bytes held by all key and value buffers.
    pub fn memory_usage_bytes(&self) -> (r: usize)
        requires
            blocks_storage(self.blocks@) <= usize::MAX,
            blocks_storage(self.blocks@) * vstd::layout::size_of::<T>() <= usize::MAX,
        ensures
            r == blocks_storage(self.blocks@) * vstd::layout::size_of::<T>(),
    {
        let mut total: usize = 0;
        let mut i: usize = 0;
        proof {
            lemma_storage_monotone(self.blocks@);
            assert(0 <= vstd::layout::size_of::<T>());
        }
        while i < self.blocks.len()
            invariant
                0 <= i <= self.blocks@.len(),
                total == blocks_storage(self.blocks@.subrange(0, i as int)),
                blocks_storage(self.blocks@) * vstd::layout::size_of::<T>() <= usize::MAX,
                blocks_storage(self.blocks@) <= usize::MAX,
                forall|j: int|
                    0 <= j <= self.blocks@.len() ==> #[trigger] blocks_storage(
                        self.blocks@.subrange(0, j),
                    ) <= blocks_storage(self.blocks@),
            decreases self.blocks@.len() - i,
        {
            assert(self.blocks@.subrange(0, i + 1).drop_last() =~= self.blocks@.subrange(
                0,
                i as int,
            ));
            assert(blocks_storage(self.blocks@.subrange(0, i + 1)) <= blocks_storage(self.blocks@));
            total = total + self.blocks[i].k_data.len() + self.blocks[i].v_data.len();
            i = i + 1;
        }
        assert(self.blocks@.subrange(0, self.blocks@.len() as int) =~= self.blocks@);
        total * core::mem::size_of::<T>()
    }
}

proof fn lemma_storage_monotone<T>(blocks: Seq<PhysicalBlock<T>>)
    ensures
        forall|j: int|
            0 <= j <= blocks.len() ==> #[trigger] blocks_storage(blocks.subrange(0, j))
                <= blocks_storage(blocks),
        blocks_storage(blocks) >= 0,
    decreases blocks.len(),
{
    if blocks.len() > 0 {
        lemma_storage_monotone(blocks.drop_last());
        assert forall|j: int| 0 <= j <= blocks.len() implies #[trigger] blocks_storage(
            blocks.subrange(0, j),
        ) <= blocks_storage(blocks) by {
            if j < blocks.len() {
                assert(blocks.subrange(0, j) =~= blocks.drop_last().subrange(0, j));
            } else {
                assert(blocks.subrange(0, j) =~= blocks);
            }
        }
    }
}

impl<T: Copy + Default> BlockManager<T> {
    pub fn new(
        total_blocks: usize,
        block_size: usize,
        num_layers: usize,
        num_kv_heads: usize,
        head_dim: usize,
    ) -> (r: Self)
        requires
            block_dims_fit(block_size as int, num_layers as int, num_kv_heads as int, head_dim as int),
        ensures
            r.wf(),
            r.block_size == block_size,
            r.total_blocks == total_blocks,
            r.free_block_ids@ == Seq::new(total_blocks as nat, |i: int| i as usize),
            forall|i: int|
                0 <= i < total_blocks ==> (#[trigger] r.blocks@[i]).num_layers == num_layers
                    && r.blocks@[i].num_kv_heads == num_kv_heads && r.blocks@[i].head_dim
                    == head_dim,
    {
        let mut blocks: Vec<PhysicalBlock<T>> = Vec::new();
        let mut free_block_ids: Vec<usize> = Vec::new();
        let mut id: usize = 0;
        while id < total_blocks
            invariant
                0 <= id <= total_blocks,
                block_dims_fit(block_size as int, num_layers as int, num_kv_heads as int, head_dim as int),
                blocks@.len() == id,
                free_block_ids@ == Seq::new(id as nat, |i: int| i as usize),
                forall|i: int|
                    0 <= i < id ==> (#[trigger] blocks@[i]).wf() && blocks@[i].block_id == i
                        && blocks@[i].block_size == block_size && blocks@[i].num_layers
                        == num_layers && blocks@[i].num_kv_heads == num_kv_heads
                        && blocks@[i].head_dim == head_dim,
            decreases total_blocks - id,
        {
            blocks.push(PhysicalBlock::new(id, block_size, num_layers, num_kv_heads, head_dim));
            free_block_ids.push(id);
            id = id + 1;
            assert(free_block_ids@ =~= Seq::new(id as nat, |i: int| i as usize));
        }
        BlockManager { block_size, total_blocks, free_block_ids, blocks }
    }
}

/// Per-sequence table of the physical blocks that hold its tokens, in order.
#[derive(Debug, Clone)]
pub struct BlockTable {
    pub block_size: usize,
    pub allocated_block_ids: Vec<usize>,
    pub sequence_len: usize,
}

/// Whether `table` holds exactly the blocks its tokens need, each a distinct block of
/// `manager` that is not on the free list.
pub open spec fn table_owns<T>(table: BlockTable, manager: BlockManager<T>) -> bool {
    &&& table.block_size > 0
    &&& table.block_size == manager.block_size
    &&& table.allocated_block_ids@.len() == (table.sequence_len + table.block_size - 1)
        / table.block_size as int
    &&& table.allocated_block_ids@.no_duplicates()
    &&& forall|i: int|
        0 <= i < table.allocated_block_ids@.len() ==> #[trigger] table.allocated_block_ids@[i]
            < manager.total_blocks && !manager.free_block_ids@.contains(
            table.allocated_block_ids@[i],
        )
}

impl BlockTable {
    pub fn new(block_size: usize) -> (r: Self)
        ensures
            r.block_size == block_size,
            r.allocated_block_ids@.len() == 0,
            r.sequence_len == 0,
    {
        BlockTable { block_size, allocated_block_ids: Vec::new(), sequence_len: 0 }
    }

    /// Reserves the slot of the next token, allocating a block when the last one is full;
    /// returns the physical block and the slot within it.
    pub fn append_token<T>(&mut self, manager: &mut BlockManager<T>) -> (r: Result<(usize, usize)>)
        requires
            old(manager).wf(),
            old(self).block_size > 0,
            old(self).sequence_len < usize::MAX,
            old(self).sequence_len / old(self).block_size <= old(self).allocated_block_ids@.len(),
        ensures
            final(manager).wf(),
            final(manager).blocks@ == old(manager).blocks@,
            final(manager).block_size == old(manager).block_size,
            final(manager).total_blocks == old(manager).total_blocks,
            final(self).block_size == old(self).block_size,
            ({
                let pos = old(self).sequence_len as int;
                let bs = old(self).block_size as int;
                let ids = old(self).allocated_block_ids@;
                let free = old(manager).free_block_ids@;
                if pos / bs < ids.len() {
                    &&& r == Ok::<(usize, usize), PoxError>((ids[pos / bs], (pos % bs) as usize))
                    &&& final(self).allocated_block_ids@ == ids
                    &&& final(self).sequence_len == pos + 1
                    &&& final(manager).free_block_ids@ == free
                } else if free.len() == 0 {
                    &&& r matches Err(PoxError::Runtime(m)) && m@
                        == "PagedAttention Out of Memory: No free physical blocks available"@
                    &&& final(self).allocated_block_ids@ == ids
                    &&& final(self).sequence_len == pos
                    &&& final(manager).free_block_ids@ == free
                } else {
                    &&& r == Ok::<(usize, usize), PoxError>((free.last(), (pos % bs) as usize))
                    &&& final(self).allocated_block_ids@ == ids.push(free.last())
                    &&& final(self).sequence_len == pos + 1
                    &&& final(manager).free_block_ids@ == free.drop_last()
                }
            }),
            table_owns(*old(self), *old(manager)) && r is Ok ==> table_owns(
                *final(self),
                *final(manager),
            ),
    {
        let pos = self.sequence_len;
        let block_idx = pos / self.block_size;
        let token_offset = pos % self.block_size;
        if block_idx >= self.allocated_block_ids.len() {
            let new_block_id = manager.allocate_block()?;
            self.allocated_block_ids.push(new_block_id);
            proof {
                let ids = old(self).allocated_block_ids@;
                let free = old(manager).free_block_ids@;
                if table_owns(*old(self), *old(manager)) {
                    assert(!ids.contains(new_block_id)) by {
                        if ids.contains(new_block_id) {
                            let k = choose|k: int| 0 <= k < ids.len() && ids[k] == new_block_id;
                            assert(free.contains(new_block_id)) by {
                                assert(free[free.len() - 1] == new_block_id);
                            }
                        }
                    }
                    let nids = ids.push(new_block_id);
                    assert forall|i: int, j: int|
                        0 <= i < nids.len() && 0 <= j < nids.len() && i != j implies nids[i]
                        != nids[j] by {
                        if i == ids.len() {
                            assert(nids[j] == ids[j]);
                        }
                        if j == ids.len() {
                            assert(nids[i] == ids[i]);
                        }
                    }
                    assert forall|i: int| 0 <= i < nids.len() implies #[trigger] nids[i]
                        < manager.total_blocks && !manager.free_block_ids@.contains(nids[i]) by {
                        let fd = free.drop_last();
                        if manager.free_block_ids@.contains(nids[i]) {
                            let k = choose|k: int|
                                0 <= k < fd.len() && fd[k] == nids[i];
                            assert(free[k] == nids[i]);
                            if i == ids.len() {
                                assert(free[free.len() - 1] == new_block_id);
                            }
                        }
                        if i == ids.len() {
                            assert(free.contains(new_block_id)) by {
                                assert(free[free.len() - 1] == new_block_id);
                            }
                        }
                    }
                    assert(nids.len() == (pos + 1 + self.block_size - 1) / self.block_size as int)
                        by (nonlinear_arith)
                        requires
                            ids.len() == (pos + self.block_size - 1) / self.block_size as int,
                            nids.len() == ids.len() + 1,
                            (pos as int) / (self.block_size as int) >= ids.len(),
                            self.block_size > 0,
                            pos >= 0,
                    ;
                }
            }
        } else {
            proof {
                if table_owns(*old(self), *old(manager)) {
                    let ids = old(self).allocated_block_ids@;
                    assert(ids.len() == (pos + 1 + self.block_size - 1) / self.block_size as int)
                        by (nonlinear_arith)
                        requires
                            ids.len() == (pos + self.block_size - 1) / self.block_size as int,
                            (pos as int) / (self.block_size as int) < ids.len(),
                            self.block_size > 0,
                            pos >= 0,
                    ;
                }
            }
        }
        self.sequence_len = pos + 1;
        let phys_block_id = self.allocated_block_ids[block_idx];
        Ok((phys_block_id, token_offset))
    }

    /// Returns every block of the table to the manager and empties the table.
    pub fn free<T>(&mut self, manager: &mut BlockManager<T>)
        requires
            old(manager).wf(),
        ensures
            final(manager).wf(),
            final(manager).blocks@ == old(manager).blocks@,
            final(manager).block_size == old(manager).block_size,
            final(manager).total_blocks == old(manager).total_blocks,
            final(manager).free_block_ids@ == free_all(
                old(manager).free_block_ids@,
                old(self).allocated_block_ids@,
                old(manager).total_blocks,
            ),
            final(self).block_size == old(self).block_size,
            final(self).allocated_block_ids@.len() == 0,
            final(self).sequence_len == 0,
            table_owns(*old(self), *old(manager)) ==> final(manager).free_block_ids@.len()
                == old(manager).free_block_ids@.len() + old(self).allocated_block_ids@.len(),
    {
        let ghost ids = self.allocated_block_ids@;
        let ghost free0 = manager.free_block_ids@;
        let ghost owns = table_owns(*self, *manager);
        let mut i: usize = 0;
        while i < self.allocated_block_ids.len()
            invariant
                0 <= i <= ids.len(),
                self.allocated_block_ids@ == ids,
                manager.wf(),
                manager.blocks@ == old(manager).blocks@,
                manager.block_size == old(manager).block_size,
                manager.total_blocks == old(manager).total_blocks,
                manager.free_block_ids@ == free_all(free0, ids.subrange(0, i as int), manager.total_blocks),
                owns ==> table_owns(*old(self), *old(manager)),
                owns ==> manager.free_block_ids@.len() == free0.len() + i,
                owns ==> forall|k: int|
                    i <= k < ids.len() ==> !manager.free_block_ids@.contains(#[trigger] ids[k]),
            decreases ids.len() - i,
        {
            let id = self.allocated_block_ids[i];
            let ghost before = manager.free_block_ids@;
            manager.free_block(id);
            proof {
                assert(ids.subrange(0, i + 1).drop_last() =~= ids.subrange(0, i as int));
                if owns {
                    assert(id < manager.total_blocks);
                    assert(!before.contains(id));
                    assert forall|k: int| i + 1 <= k < ids.len() implies !manager.free_block_ids@.contains(
                        #[trigger] ids[k],
                    ) by {
                        assert(ids[k] != id);
                        if manager.free_block_ids@.contains(ids[k]) {
                            let m = choose|m: int|
                                0 <= m < manager.free_block_ids@.len()
                                    && manager.free_block_ids@[m] == ids[k];
                            assert(before.contains(ids[k])) by {
                                assert(before[m] == ids[k]);
                            }
                        }
                    }
                }
            }
            i = i + 1;
        }
        assert(ids.subrange(0, ids.len() as int) =~= ids);
        self.allocated_block_ids.clear();
        self.sequence_len = 0;
    }
}

/// Paged KV-cache: a block manager shared by the block tables of all sequences.
pub struct PagedKvCache<T> {
    pub manager: BlockManager<T>,
}

impl<T: Copy + Default> PagedKvCache<T> {
    pub fn new(
        total_blocks: usize,
        block_size: usize,
        num_layers: usize,
        num_kv_heads: usize,
        head_dim: usize,
    ) -> (r: Self)
        requires
            block_dims_fit(block_size as int, num_layers as int, num_kv_heads as int, head_dim as int),
        ensures
            r.manager.wf(),
            r.manager.block_size == block_size,
            r.manager.total_blocks == total_blocks,
            r.manager.free_block_ids@ == Seq::new(total_blocks as nat, |i: int| i as usize),
            forall|i: int|
                0 <= i < total_blocks ==> (#[trigger] r.manager.blocks@[i]).num_layers
                    == num_layers && r.manager.blocks@[i].num_kv_heads == num_kv_heads
                    && r.manager.blocks@[i].head_dim == head_dim,
    {
        PagedKvCache {
            manager: BlockManager::new(total_blocks, block_size, num_layers, num_kv_heads, head_dim),
        }
    }

    pub fn new_sequence(&self) -> (r: BlockTable)
        ensures
            r.block_size == self.manager.block_size,
            r.allocated_block_ids@.len() == 0,
            r.sequence_len == 0,
    {
        BlockTable::new(self.manager.block_size)
    }

    /// Appends one token's key and value for `head` of `layer` to the sequence.
    pub fn append(&mut self, table: &mut BlockTable, layer: usize, head: usize, k: &[T], v: &[T]) -> (r: Result<()>)
        requires
            old(self).manager.wf(),
            old(table).block_size > 0,
            old(table).sequence_len < usize::MAX,
            old(table).sequence_len / old(table).block_size <= old(table).allocated_block_ids@.len(),
            old(table).block_size == old(self).manager.block_size,
            forall|i: int|
                0 <= i < old(table).allocated_block_ids@.len() ==> #[trigger] old(
                    table,
                ).allocated_block_ids@[i] < old(self).manager.total_blocks,
            forall|b: int|
                0 <= b < old(self).manager.blocks@.len() ==> (#[trigger] old(
                    self,
                ).manager.blocks@[b]).write_fits(
                    (old(table).sequence_len % old(table).block_size) as int,
                    layer as int,
                    head as int,
                    k@.len() as int,
                    v@.len() as int,
                ),
        ensures
            final(self).manager.wf(),
            final(self).manager.total_blocks == old(self).manager.total_blocks,
            final(self).manager.block_size == old(self).manager.block_size,
            final(table).block_size == old(table).block_size,
            ({
                let pos = old(table).sequence_len as int;
                let bs = old(table).block_size as int;
                let ids = old(table).allocated_block_ids@;
                let free = old(self).manager.free_block_ids@;
                if pos / bs < ids.len() {
                    &&& r is Ok
                    &&& final(table).allocated_block_ids@ == ids
                    &&& final(table).sequence_len == pos + 1
                    &&& final(self).manager.free_block_ids@ == free
                } else if free.len() == 0 {
                    &&& r matches Err(PoxError::Runtime(m)) && m@
                        == "PagedAttention Out of Memory: No free physical blocks available"@
                    &&& final(table).allocated_block_ids@ == ids
                    &&& final(table).sequence_len == pos
                    &&& final(self).manager.free_block_ids@ == free
                    &&& final(self).manager.blocks@ == old(self).manager.blocks@
                } else {
                    &&& r is Ok
                    &&& final(table).allocated_block_ids@ == ids.push(free.last())
                    &&& final(table).sequence_len == pos + 1
                    &&& final(self).manager.free_block_ids@ == free.drop_last()
                }
            }),
            r is Ok ==> ({
                let pos = old(table).sequence_len as int;
                let bs = old(table).block_size as int;
                let phys = final(table).allocated_block_ids@[pos / bs];
                let blk = old(self).manager.blocks@[phys as int];
                let off = blk.spec_offset(pos % bs, layer as int, head as int);
                let n = blk.copy_len(k@.len() as int);
                &&& final(self).manager.blocks@ == old(self).manager.blocks@.update(
                    phys as int,
                    PhysicalBlock {
                        k_data: final(self).manager.blocks@[phys as int].k_data,
                        v_data: final(self).manager.blocks@[phys as int].v_data,
                        ..blk
                    },
                )
                &&& final(self).manager.blocks@[phys as int].k_data@ == splice(
                    blk.k_data@,
                    off,
                    k@.subrange(0, n),
                )
                &&& final(self).manager.blocks@[phys as int].v_data@ == splice(
                    blk.v_data@,
                    off,
                    v@.subrange(0, n),
                )
            }),
            table_owns(*old(table), old(self).manager) && r is Ok ==> table_owns(
                *final(table),
                final(self).manager,
            ),
    {
        let (phys_id, token_offset) = table.append_token(&mut self.manager)?;
        let mut blk = PhysicalBlock {
            block_id: 0,
            block_size: 0,
            num_layers: 0,
            num_kv_heads: 0,
            head_dim: 0,
            k_data: Vec::new(),
            v_data: Vec::new(),
        };
        self.manager.blocks.set_and_swap(phys_id, &mut blk);
        let res = blk.write_kv(token_offset, layer, head, k, v);
        let ghost written = blk;
        self.manager.blocks.set_and_swap(phys_id, &mut blk);
        proof {
            let m = self.manager;
            assert(m.blocks@ =~= old(self).manager.blocks@.update(phys_id as int, written));
            assert forall|i: int| 0 <= i < m.blocks@.len() implies (#[trigger] m.blocks@[i]).wf()
                && m.blocks@[i].block_id == i && m.blocks@[i].block_size == m.block_size by {
                if i != phys_id {
                    assert(m.blocks@[i] == old(self).manager.blocks@[i]);
                }
            }
        }
        res
    }

    /// Releases every block of the sequence.
    pub fn free_sequence(&mut self, table: &mut BlockTable)
        requires
            old(self).manager.wf(),
        ensures
            final(self).manager.wf(),
            final(self).manager.blocks@ == old(self).manager.blocks@,
            final(self).manager.free_block_ids@ == free_all(
                old(self).manager.free_block_ids@,
                old(table).allocated_block_ids@,
                old(self).manager.total_blocks,
            ),
            final(table).allocated_block_ids@.len() == 0,
            final(table).sequence_len == 0,
            table_owns(*old(table), old(self).manager) ==> final(self).manager.free_block_ids@.len()
                == old(self).manager.free_block_ids@.len() + old(table).allocated_block_ids@.len(),
    {
        table.free(&mut self.manager);
    }
}

} // verus!
