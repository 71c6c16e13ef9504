//! A first-fit allocator over a 64K byte arena.
//!
//! Bytes 0 and 1 of the arena hold the address of the first free block (0
//! when there is none). From address 2 on the arena is cut into blocks: each
//! starts with a two-byte header that holds its usable size, and a free block
//! keeps the address of the next free block (0 for the last one) in the first
//! two bytes after its header. The free list runs in address order, and a
//! freed block is merged with the free blocks right before and after it.
use vstd::prelude::*;

verus! {

/// Bytes in the arena.
pub const MEM_SIZE: usize = 65536;

/// Bytes at the start of the arena that hold the first-free pointer.
pub const GLOBAL_SIZE: u16 = 2;

/// Bytes of a block's header.
pub const METADATA_SIZE: u16 = 2;

/// The usable size of the one free block of an empty arena.
pub const MAX_FREE: u16 = 65532;

/// One block of the arena, as the model sees it: the address of its header,
/// the usable size that follows the header, and whether it is free.
pub struct Block {
    pub start: int,
    pub size: int,
    pub free: bool,
}

/// The first address after `b`.
pub open spec fn block_end(b: Block) -> int {
    b.start + 2 + b.size
}

/// The blocks tile the arena from address 2 to its end, in address order,
/// each holds at least two bytes, and no two neighbours are both free.
pub open spec fn valid_blocks(s: Seq<Block>) -> bool {
    &&& s.len() >= 1
    &&& s[0].start == 2
    &&& block_end(s.last()) == 0x10000
    &&& forall|k: int| 0 <= k < s.len() ==> #[trigger] s[k].size >= 2
    &&& forall|k: int, m: int|
        0 <= k < m < s.len() ==> block_end(#[trigger] s[k]) <= #[trigger] s[m].start
    &&& forall|k: int, m: int|
        0 <= k && m == k + 1 && m < s.len() ==> #[trigger] s[m].start == block_end(
            #[trigger] s[k],
        )
    &&& forall|k: int, m: int|
        0 <= k && m == k + 1 && m < s.len() ==> !(#[trigger] s[k].free && #[trigger] s[m].free)
}

/// The index of the first free block at or after index `i` (the length when
/// there is none).
pub open spec fn next_free(s: Seq<Block>, i: int) -> int
    decreases s.len() - i,
{
    if i < 0 || i >= s.len() {
        s.len() as int
    } else if s[i].free {
        i
    } else {
        next_free(s, i + 1)
    }
}

/// The address that stands for block `k` in a link: its start, or 0 past the
/// last block.
pub open spec fn link(s: Seq<Block>, k: int) -> int {
    if 0 <= k < s.len() {
        s[k].start
    } else {
        0
    }
}

/// The little-endian word at `p`.
pub open spec fn word(m: Seq<u8>, p: int) -> int {
    m[p] + 256 * m[p + 1]
}

/// `m` with the little-endian word `v` written at `p`.
pub open spec fn put_word(m: Seq<u8>, p: int, v: int) -> Seq<u8> {
    m.update(p, (v % 256) as u8).update(p + 1, (v / 256) as u8)
}

/// The bytes `m` hold the blocks `s`: the first-free pointer, each header's
/// size and each free block's link to the next free block.
pub open spec fn heap_inv(m: Seq<u8>, s: Seq<Block>) -> bool {
    &&& m.len() == MEM_SIZE
    &&& valid_blocks(s)
    &&& word(m, 0) == link(s, next_free(s, 0))
    &&& forall|k: int|
        0 <= k < s.len() ==> {
            &&& word(m, #[trigger] s[k].start) == s[k].size
            &&& s[k].free ==> word(m, s[k].start + 2) == link(s, next_free(s, k + 1))
        }
}

/// Whether byte `i` lies in the usable bytes of a used block of `s`.
pub open spec fn in_used_payload(s: Seq<Block>, i: int) -> bool {
    exists|k: int| 0 <= k < s.len() && !s[k].free && s[k].start + 2 <= i < block_end(s[k])
}

/// `m2` holds the same bytes as `m` in the usable bytes of every used block
/// of `s`.
pub open spec fn payloads_kept(m: Seq<u8>, m2: Seq<u8>, s: Seq<Block>) -> bool {
    forall|i: int| 0 <= i < m.len() && #[trigger] in_used_payload(s, i) ==> m2[i] == m[i]
}

/// The usable size that a request for `size` bytes gets: at least two, so
/// that the block can hold a link once it is freed.
pub open spec fn alloc_size(size: u16) -> int {
    if size < 2 {
        2
    } else {
        size as int
    }
}

/// The index of the first free block at or after `i` that holds `n` bytes
/// (the length when there is none).
pub open spec fn first_fit(s: Seq<Block>, n: int, i: int) -> int
    decreases s.len() - i,
{
    if i < 0 || i >= s.len() {
        s.len() as int
    } else if s[i].free && s[i].size >= n {
        i
    } else {
        first_fit(s, n, i + 1)
    }
}

/// The blocks after `n` bytes are taken from free block `j`: when the rest
/// can hold a block of its own, `j` is split into a used block of `n` bytes
/// and a free block after it; otherwise the whole block is used.
pub open spec fn after_malloc(s: Seq<Block>, j: int, n: int) -> Seq<Block> {
    if s[j].size >= n + 4 {
        s.take(j) + seq![
            Block { start: s[j].start, size: n, free: false },
            Block { start: s[j].start + 2 + n, size: s[j].size - n - 2, free: true },
        ] + s.skip(j + 1)
    } else {
        s.update(j, Block { start: s[j].start, size: s[j].size, free: false })
    }
}

/// The blocks from `a` to `b` (both included) made into one free block.
pub open spec fn merged(s: Seq<Block>, a: int, b: int) -> Seq<Block> {
    s.take(a) + seq![Block { start: s[a].start, size: block_end(s[b]) - s[a].start - 2, free: true }]
        + s.skip(b + 1)
}

/// The first block of the free block that freeing block `j` makes: the
/// free block right before `j`, if there is one.
pub open spec fn free_lo(s: Seq<Block>, j: int) -> int {
    if j > 0 && s[j - 1].free {
        j - 1
    } else {
        j
    }
}

/// The last block of the free block that freeing block `j` makes: the free
/// block right after `j`, if there is one.
pub open spec fn free_hi(s: Seq<Block>, j: int) -> int {
    if j + 1 < s.len() && s[j + 1].free {
        j + 1
    } else {
        j
    }
}

/// The blocks after block `j` is freed: merged with the free block right
/// before it and the free block right after it, where there are such.
pub open spec fn after_free(s: Seq<Block>, j: int) -> Seq<Block> {
    merged(s, free_lo(s, j), free_hi(s, j))
}

/// The index of the last free block before index `i` (-1 when there is
/// none).
pub open spec fn last_free_before(s: Seq<Block>, i: int) -> int
    decreases i,
{
    if i <= 0 {
        -1
    } else if i - 1 < s.len() && s[i - 1].free {
        i - 1
    } else {
        last_free_before(s, i - 1)
    }
}

/// The link at `k` as an address: `None` past the last block.
pub open spec fn link_opt(s: Seq<Block>, k: int) -> Option<u16> {
    if 0 <= k < s.len() {
        Some(s[k].start as u16)
    } else {
        None
    }
}

/// The blocks of an arena with nothing allocated: one free block over all
/// of it.
pub open spec fn empty_arena() -> Seq<Block> {
    seq![Block { start: 2, size: 65532, free: true }]
}

/// A first-fit allocator over a 64K arena.
pub struct Heap {
    mem: Vec<u8>,
    blocks: Ghost<Seq<Block>>,
}

/// No free block can hold the request.
#[derive(Debug)]
pub struct OutOfMemoryError {}

impl View for Heap {
    type V = Seq<Block>;

    closed spec fn view(&self) -> Seq<Block> {
        self.blocks@
    }
}

impl Heap {
    /// Bytes in the arena.
    pub const MEM_SIZE: usize = MEM_SIZE;

    /// Bytes at the start of the arena that hold the first-free pointer.
    pub const GLOBAL_SIZE: u16 = GLOBAL_SIZE;

    /// Bytes of a block's header.
    pub const METADATA_SIZE: u16 = METADATA_SIZE;

    /// The usable size of the one free block of an empty arena.
    pub const MAX_FREE: u16 = MAX_FREE;

    /// The arena's bytes.
    pub closed spec fn bytes(&self) -> Seq<u8> {
        self.mem@
    }

    /// The arena's bytes hold the blocks of the model.
    pub open spec fn wf(&self) -> bool {
        heap_inv(self.bytes(), self@)
    }

    /// The little-endian word at `idx`.
    pub fn read_u16(&self, idx: u16) -> (r: u16)
        requires
            self.bytes().len() == MEM_SIZE,
            idx < 0xffff,
        ensures
            r == word(self.bytes(), idx as int),
    {
        let i = idx as usize;
        self.mem[i] as u16 + 256 * (self.mem[i + 1] as u16)
    }

    fn write_u16(&mut self, idx: u16, val: u16)
        requires
            old(self).bytes().len() == MEM_SIZE,
            idx < 0xffff,
        ensures
            final(self).bytes() == put_word(old(self).bytes(), idx as int, val as int),
            final(self)@ == old(self)@,
    {
        let i = idx as usize;
        self.mem.set(i, (val % 256) as u8);
        self.mem.set(i + 1, (val / 256) as u8);
    }

    fn get_first_free(&self) -> (r: u16)
        requires
            self.bytes().len() == MEM_SIZE,
        ensures
            r == word(self.bytes(), 0),
    {
        self.read_u16(0)
    }

    fn set_first_free(&mut self, idx: u16)
        requires
            old(self).bytes().len() == MEM_SIZE,
        ensures
            final(self).bytes() == put_word(old(self).bytes(), 0, idx as int),
            final(self)@ == old(self)@,
    {
        self.write_u16(0, idx);
    }

    fn get_next_free(&self, idx: u16) -> (r: u16)
        requires
            self.bytes().len() == MEM_SIZE,
            idx < 0xfffd,
        ensures
            r == word(self.bytes(), idx + 2),
    {
        self.read_u16(idx + 2)
    }

    fn set_next_free(&mut self, idx: u16, next: u16)
        requires
            old(self).bytes().len() == MEM_SIZE,
            idx < 0xfffd,
        ensures
            final(self).bytes() == put_word(old(self).bytes(), idx + 2, next as int),
            final(self)@ == old(self)@,
    {
        self.write_u16(idx + 2, next);
    }

    /// The little-endian word at `idx`: a block's usable size where a block
    /// starts at `idx`.
    pub fn get_size(&self, idx: u16) -> (r: u16)
        requires
            self.bytes().len() == MEM_SIZE,
            idx < 0xffff,
        ensures
            r == word(self.bytes(), idx as int),
    {
        self.read_u16(idx)
    }

    fn set_size(&mut self, idx: u16, size: u16)
        requires
            old(self).bytes().len() == MEM_SIZE,
            idx < 0xffff,
        ensures
            final(self).bytes() == put_word(old(self).bytes(), idx as int, size as int),
            final(self)@ == old(self)@,
    {
        self.write_u16(idx, size);
    }

    /// An empty heap: one free block over the whole arena.
    pub fn new() -> (r: Heap)
        ensures
            r.wf(),
            r@ == empty_arena(),
    {
        let blocks: Ghost<Seq<Block>> = Ghost(empty_arena());
        let mut ret = Heap { mem: vec![0; MEM_SIZE], blocks };
        ret.set_first_free(2);
        ret.set_size(2, MAX_FREE);
        ret.set_next_free(2, 0);
        proof {
            let s = ret@;
            let m = ret.bytes();
            assert(next_free(s, 0) == 0);
            assert(next_free(s, 1) == 1);
            assert(word(m, 0) == 2);
            assert(word(m, 2) == 65532);
            assert(word(m, 4) == 0);
        }
        ret
    }

    /// Allocates `size` bytes (at least two) from the first free block, in
    /// address order, that holds them, and returns the address after the
    /// block's header. A block that has room for another block after the
    /// request is split in two; otherwise the whole block is handed out.
    pub fn malloc(&mut self, size: u16) -> (r: Result<u16, OutOfMemoryError>)
        requires
            old(self).wf(),
            alloc_size(size) == 65532 ==> old(self)@.len() == 1 || next_free(old(self)@, 0)
                == old(self)@.len(),
        ensures
            final(self).wf(),
            match r {
                Ok(p) => {
                    let j = first_fit(old(self)@, alloc_size(size), 0);
                    &&& alloc_size(size) <= 65532
                    &&& j < old(self)@.len()
                    &&& p == old(self)@[j].start + 2
                    &&& final(self)@ == after_malloc(old(self)@, j, alloc_size(size))
                    &&& payloads_kept(old(self).bytes(), final(self).bytes(), final(self)@)
                },
                Err(_) => {
                    &&& alloc_size(size) > 65532 || first_fit(old(self)@, alloc_size(size), 0)
                        == old(self)@.len()
                    &&& final(self)@ == old(self)@
                    &&& final(self).bytes() == old(self).bytes()
                },
            },
    {
        let ghost s = self@;
        let ghost m = self.bytes();
        let ghost n = alloc_size(size);
        let want: u16 = if size < 2 {
            2
        } else {
            size
        };
        let mut found: u16 = 0;
        let mut dont_split: bool = false;
        let mut previous_idx: Option<u16> = None;
        let ghost mut j: int = 0;
        let ghost mut pj: int = -1;
        let mut it = self.iter();
        let ghost mut cj: int = -1;
        let ghost mut at: int = next_free(s, 0);
        proof {
            lemma_next_free(s, 0);
            if at < s.len() {
                lemma_block_bounds(s, at);
            }
        }
        loop
            invariant_except_break
                -1 <= cj < at <= s.len(),
                cj >= 0 ==> s[cj].free,
                at == next_free(s, cj + 1),
                it.next_link() == link_opt(s, at),
                it.current() == link_opt(s, cj),
                at < s.len() ==> s[at].free,
                forall|k: int| 0 <= k < at ==> !(#[trigger] s[k].free && s[k].size >= n),
            invariant
                self.wf(),
                self@ == s,
                self.bytes() == m,
                it.arena() == m,
                want as int == n,
                n == alloc_size(size),
                s == old(self)@,
                m == old(self).bytes(),
                n >= 2,
                n == 65532 ==> s.len() == 1 || next_free(s, 0) == s.len(),
            ensures
                0 <= j < s.len(),
                s[j].free,
                s[j].size >= n,
                found as int == s[j].start,
                first_fit(s, n, 0) == j,
                -1 <= pj < j,
                pj >= 0 ==> s[pj].free,
                next_free(s, pj + 1) == j,
                previous_idx == link_opt(s, pj),
                dont_split == (s[j].size < n + 4),
                n <= 65532,
            decreases s.len() - at,
        {
            let ghost at0 = at;
            let ghost cj0 = cj;
            proof {
                if at0 < s.len() {
                    lemma_block_bounds(s, at0);
                }
            }
            let nx = it.next();
            match nx {
                None => {
                    proof {
                        lemma_first_fit(s, n, 0);
                    }
                    return Err(OutOfMemoryError {  });
                },
                Some(idx) => {
                    proof {
                        lemma_next_free(s, at0 + 1);
                        let f = next_free(s, at0 + 1);
                        if f < s.len() {
                            lemma_block_bounds(s, f);
                        }
                        cj = at0;
                        at = f;
                    }
                    let bsize = self.get_size(idx);
                    if bsize == want {
                        found = idx;
                        dont_split = true;
                        previous_idx = it.previous_idx;
                        proof {
                            j = at0;
                            pj = cj0;
                            lemma_first_fit(s, n, 0);
                        }
                        break ;
                    } else if MAX_FREE < want {
                        proof {
                            lemma_first_fit(s, n, 0);
                        }
                        return Err(OutOfMemoryError {  });
                    }
                    proof {
                        lemma_next_free(s, 0);
                        lemma_block_bounds(s, at0);
                        if n == 65532 && s.len() == 1 {
                            assert(at0 == 0);
                        }
                    }
                    if bsize >= want + METADATA_SIZE * 2 {
                        found = idx;
                        dont_split = false;
                        previous_idx = it.previous_idx;
                        proof {
                            j = at0;
                            pj = cj0;
                            lemma_first_fit(s, n, 0);
                        }
                        break ;
                    } else if bsize > want {
                        found = idx;
                        dont_split = true;
                        previous_idx = it.previous_idx;
                        proof {
                            j = at0;
                            pj = cj0;
                            lemma_first_fit(s, n, 0);
                        }
                        break ;
                    }
                },
            }
        }
        proof {
            lemma_block_bounds(s, j);
            if pj >= 0 {
                lemma_block_bounds(s, pj);
            }
        }
        if dont_split {
            let next_free = self.get_next_free(found);
            match previous_idx {
                None => self.set_first_free(next_free),
                Some(prev) => self.set_next_free(prev, next_free),
            }
            proof {
                lemma_take_whole(m, s, j, pj);
                lemma_malloc_payloads(m, s, j, pj, n);
            }
        } else {
            let free_size = self.get_size(found);
            let next_free = self.get_next_free(found);
            let new_free_idx = found + METADATA_SIZE + want;
            let new_free_size = free_size - want - METADATA_SIZE;
            self.set_size(found, want);
            self.set_size(new_free_idx, new_free_size);
            self.set_next_free(new_free_idx, next_free);
            match previous_idx {
                None => self.set_first_free(new_free_idx),
                Some(prev) => self.set_next_free(prev, new_free_idx),
            }
            proof {
                lemma_split(m, s, j, pj, n);
                lemma_malloc_payloads(m, s, j, pj, n);
            }
        }
        self.blocks = Ghost(after_malloc(s, j, n));
        Ok(found + METADATA_SIZE)
    }

    /// Walks the free list to the last free block before block `j` and the
    /// first free block after it.
    fn find_neighbours(&self, blk: u16, Ghost(j): Ghost<int>) -> (r: (Option<u16>, Option<u16>))
        requires
            self.wf(),
            0 <= j < self@.len(),
            !self@[j].free,
            blk as int == self@[j].start,
        ensures
            r.0 == link_opt(self@, last_free_before(self@, j)),
            r.1 == link_opt(self@, next_free(self@, j + 1)),
    {
        let ghost s = self@;
        let ghost m = self.bytes();
        let mut previous_idx: Option<u16> = None;
        let mut found: Option<u16> = None;
        let ghost mut pj: int = -1;
        let ghost mut fj: int = 0;
        let mut it = self.iter();
        let ghost mut cj: int = -1;
        let ghost mut at: int = next_free(s, 0);
        loop
            invariant_except_break
                -1 <= cj < j,
                cj >= 0 ==> s[cj].free,
                at == next_free(s, cj + 1),
                it.next_link() == link_opt(s, at),
                it.current() == link_opt(s, cj),
            invariant
                self.wf(),
                self@ == s,
                self.bytes() == m,
                it.arena() == m,
                0 <= j < s.len(),
                !s[j].free,
                blk as int == s[j].start,
            ensures
                -1 <= pj < j,
                pj >= 0 ==> s[pj].free,
                j < fj <= s.len(),
                next_free(s, pj + 1) == fj,
                previous_idx == link_opt(s, pj),
                found == link_opt(s, fj),
            decreases s.len() - at,
        {
            let ghost at0 = at;
            let ghost cj0 = cj;
            proof {
                lemma_next_free(s, cj0 + 1);
                if at0 < s.len() {
                    lemma_block_bounds(s, at0);
                    if at0 < j {
                        assert(block_end(s[at0]) <= s[j].start);
                    } else if at0 > j {
                        assert(block_end(s[j]) <= s[at0].start);
                    }
                }
            }
            match it.next() {
                Some(found_idx) => {
                    if found_idx > blk {
                        previous_idx = it.previous_idx;
                        found = Some(found_idx);
                        proof {
                            pj = cj0;
                            fj = at0;
                        }
                        break ;
                    }
                    proof {
                        lemma_next_free(s, at0 + 1);
                        let f = next_free(s, at0 + 1);
                        if f < s.len() {
                            lemma_block_bounds(s, f);
                        }
                        cj = at0;
                        at = f;
                    }
                },
                None => {
                    previous_idx = it.previous_idx;
                    found = None;
                    proof {
                        pj = cj0;
                        fj = at0;
                    }
                    break ;
                },
            }
        }
        proof {
            lemma_free_neighbours(s, j, pj, fj);
            lemma_last_free_before(s, j);
            let q = last_free_before(s, j);
            if q > pj {
                assert(!s[q].free);
            } else if q < pj {
                assert(!s[pj].free);
            }
        }
        (previous_idx, found)
    }

    /// Frees block `j`'s header and link when a free block follows it: the
    /// two merge when they are neighbours, else `j` links to it.
    fn free_forward(&mut self, blk: u16, found_idx: u16, Ghost(m): Ghost<Seq<u8>>, Ghost(s): Ghost<Seq<Block>>, Ghost(j): Ghost<int>)
        requires
            heap_inv(m, s),
            0 <= j < s.len(),
            !s[j].free,
            blk as int == s[j].start,
            old(self)@ == s,
            old(self).bytes().len() == MEM_SIZE,
            old(self).bytes() == m,
            next_free(s, j + 1) < s.len(),
            found_idx as int == s[next_free(s, j + 1)].start,
        ensures
            final(self)@ == s,
            forward_done(m, final(self).bytes(), s, j),
    {
        let ghost fj = next_free(s, j + 1);
        let ghost lo = free_lo(s, j);
        let ghost hi = free_hi(s, j);
        let ghost a = s[j].start;
        let ghost b = block_end(s[hi]);
        let ghost pw = free_link_pos(s, j, last_free_before(s, j));
        proof {
            lemma_free_facts(s, j);
            lemma_block_bounds(s, fj);
            assert(block_end(s[j]) <= s[fj].start);
            if fj > j + 1 {
                assert(block_end(s[j + 1]) <= s[fj].start);
            }
            lemma_next_free(s, fj + 1);
            if next_free(s, fj + 1) < s.len() {
                lemma_block_bounds(s, next_free(s, fj + 1));
            }
            assert(same_words_outside(m, m, a, b, pw));
        }
        let size = self.get_size(blk);
        if blk + METADATA_SIZE + size == found_idx {
            let found_size = self.get_size(found_idx);
            let found_next_free = self.get_next_free(found_idx);
            let new_size = size + found_size + METADATA_SIZE;
            let ghost m0 = self.bytes();
            self.set_size(blk, new_size);
            proof {
                lemma_frame_step(m, m0, a, b, pw, blk as int, new_size as int);
                lemma_put_word(m0, blk as int, new_size as int);
            }
            let ghost m1 = self.bytes();
            self.set_next_free(blk, found_next_free);
            proof {
                lemma_frame_step(m, m1, a, b, pw, blk + 2, found_next_free as int);
                lemma_put_word(m1, blk + 2, found_next_free as int);
            }
        } else {
            let ghost m0 = self.bytes();
            self.set_next_free(blk, found_idx);
            proof {
                lemma_frame_step(m, m0, a, b, pw, blk + 2, found_idx as int);
                lemma_put_word(m0, blk + 2, found_idx as int);
            }
        }
    }

    /// Links the free block before block `j` (or the first-free pointer) to
    /// it, or merges `j` into that block when they are neighbours.
    fn free_link_prev(&mut self, blk: u16, previous_idx: Option<u16>, Ghost(m): Ghost<Seq<u8>>, Ghost(s): Ghost<Seq<Block>>, Ghost(j): Ghost<int>)
        requires
            heap_inv(m, s),
            0 <= j < s.len(),
            !s[j].free,
            blk as int == s[j].start,
            old(self)@ == s,
            old(self).bytes().len() == MEM_SIZE,
            previous_idx == link_opt(s, last_free_before(s, j)),
            forward_done(m, old(self).bytes(), s, j),
        ensures
            final(self)@ == s,
            free_done(m, final(self).bytes(), s, j),
    {
        let ghost pj = last_free_before(s, j);
        let ghost lo = free_lo(s, j);
        let ghost hi = free_hi(s, j);
        let ghost a = s[lo].start;
        let ghost b = block_end(s[hi]);
        let ghost pw = free_link_pos(s, j, pj);
        proof {
            lemma_free_facts(s, j);
            lemma_frame_widen(m, old(self).bytes(), a, s[j].start, b, pw);
        }
        match previous_idx {
            None => {
                let ghost m0 = self.bytes();
                self.set_first_free(blk);
                proof {
                    lemma_frame_step(m, m0, a, b, pw, 0, blk as int);
                    lemma_put_word(m0, 0, blk as int);
                }
            },
            Some(prev) => {
                let prev_size = self.get_size(prev);
                if prev + METADATA_SIZE + prev_size == blk {
                    let size = self.get_size(blk);
                    let next = self.get_next_free(blk);
                    let new_size = prev_size + METADATA_SIZE + size;
                    let ghost m0 = self.bytes();
                    self.set_size(prev, new_size);
                    proof {
                        lemma_frame_step(m, m0, a, b, pw, prev as int, new_size as int);
                        lemma_put_word(m0, prev as int, new_size as int);
                    }
                    let ghost m1 = self.bytes();
                    self.set_next_free(prev, next);
                    proof {
                        lemma_frame_step(m, m1, a, b, pw, prev + 2, next as int);
                        lemma_put_word(m1, prev + 2, next as int);
                    }
                } else {
                    let ghost m0 = self.bytes();
                    self.set_next_free(prev, blk);
                    proof {
                        lemma_frame_step(m, m0, a, b, pw, prev + 2, blk as int);
                        lemma_put_word(m0, prev + 2, blk as int);
                    }
                }
            },
        }
    }

    /// Frees block `j` when no free block follows it.
    fn free_last(&mut self, blk: u16, previous_idx: Option<u16>, Ghost(m): Ghost<Seq<u8>>, Ghost(s): Ghost<Seq<Block>>, Ghost(j): Ghost<int>)
        requires
            heap_inv(m, s),
            0 <= j < s.len(),
            !s[j].free,
            blk as int == s[j].start,
            old(self)@ == s,
            old(self).bytes().len() == MEM_SIZE,
            old(self).bytes() == m,
            next_free(s, j + 1) == s.len(),
            previous_idx == link_opt(s, last_free_before(s, j)),
        ensures
            final(self)@ == s,
            free_done(m, final(self).bytes(), s, j),
    {
        let ghost pj = last_free_before(s, j);
        let ghost lo = free_lo(s, j);
        let ghost hi = free_hi(s, j);
        let ghost a = s[lo].start;
        let ghost b = block_end(s[hi]);
        let ghost pw = free_link_pos(s, j, pj);
        proof {
            lemma_free_facts(s, j);
            assert(same_words_outside(m, m, a, b, pw));
        }
        match previous_idx {
            Some(prev) => {
                let prev_size = self.get_size(prev);
                if prev + METADATA_SIZE + prev_size == blk {
                    let size = self.get_size(blk);
                    let new_size = prev_size + METADATA_SIZE + size;
                    let ghost m0 = self.bytes();
                    self.set_size(prev, new_size);
                    proof {
                        lemma_frame_step(m, m0, a, b, pw, prev as int, new_size as int);
                        lemma_put_word(m0, prev as int, new_size as int);
                    }
                } else {
                    let ghost m0 = self.bytes();
                    self.set_next_free(prev, blk);
                    proof {
                        lemma_frame_step(m, m0, a, b, pw, prev + 2, blk as int);
                        lemma_put_word(m0, prev + 2, blk as int);
                    }
                    let ghost m1 = self.bytes();
                    self.set_next_free(blk, 0);
                    proof {
                        lemma_frame_step(m, m1, a, b, pw, blk + 2, 0);
                        lemma_put_word(m1, blk + 2, 0);
                    }
                }
            },
            None => {
                let ghost m0 = self.bytes();
                self.set_first_free(blk);
                proof {
                    lemma_frame_step(m, m0, a, b, pw, 0, blk as int);
                    lemma_put_word(m0, 0, blk as int);
                }
                let ghost m1 = self.bytes();
                self.set_next_free(blk, 0);
                proof {
                    lemma_frame_step(m, m1, a, b, pw, blk + 2, 0);
                    lemma_put_word(m1, blk + 2, 0);
                }
            },
        }
    }

    /// Frees the block that `malloc` returned as `idx` and merges it with
    /// the free block right before it and the free block right after it,
    /// where there are such.
    pub fn free(&mut self, idx: u16)
        requires
            old(self).wf(),
            exists|j: int|
                0 <= j < old(self)@.len() && old(self)@[j].start + 2 == idx && !old(self)@[j].free,
        ensures
            final(self).wf(),
            forall|j: int|
                0 <= j < old(self)@.len() && old(self)@[j].start + 2 == idx ==> final(self)@
                    == after_free(old(self)@, j),
            payloads_kept(old(self).bytes(), final(self).bytes(), final(self)@),
    {
        let ghost s = self@;
        let ghost m = self.bytes();
        let ghost j = choose|j: int| 0 <= j < s.len() && s[j].start + 2 == idx && !s[j].free;
        proof {
            lemma_block_bounds(s, j);
        }
        let blk = idx - METADATA_SIZE;
        let (previous_idx, found) = self.find_neighbours(blk, Ghost(j));
        proof {
            lemma_next_free(s, j + 1);
        }
        match found {
            Some(found_idx) => {
                self.free_forward(blk, found_idx, Ghost(m), Ghost(s), Ghost(j));
                self.free_link_prev(blk, previous_idx, Ghost(m), Ghost(s), Ghost(j));
            },
            None => {
                self.free_last(blk, previous_idx, Ghost(m), Ghost(s), Ghost(j));
            },
        }
        proof {
            lemma_free_facts(s, j);
            lemma_free_finish(m, self.bytes(), s, j, last_free_before(s, j), next_free(s, j + 1));
            lemma_free_payloads(m, self.bytes(), s, j);
        }
        self.blocks = Ghost(after_free(s, j));
        proof {
            assert forall|j2: int| 0 <= j2 < s.len() && s[j2].start + 2 == idx implies j2 == j by {
                if j2 < j {
                    assert(block_end(s[j2]) <= s[j].start);
                } else if j2 > j {
                    assert(block_end(s[j]) <= s[j2].start);
                }
            }
        }
    }

    /// A walk along the free list from its first block.
    pub fn iter(&self) -> (r: FreeIterator<'_>)
        requires
            self.bytes().len() == MEM_SIZE,
        ensures
            r.arena() == self.bytes(),
            r.previous() == None::<u16>,
            r.current() == None::<u16>,
            r.next_link() == (if word(self.bytes(), 0) == 0 {
                None
            } else {
                Some(word(self.bytes(), 0) as u16)
            }),
    {
        FreeIterator::new(self)
    }
}

/// A walk along the free list: the block before the current one, the
/// current one and the one the current one links to.
pub struct FreeIterator<'a> {
    heap: &'a Heap,
    previous_idx: Option<u16>,
    current_idx: Option<u16>,
    next_idx: Option<u16>,
}

impl<'a> FreeIterator<'a> {
    /// The bytes of the heap walked.
    pub closed spec fn arena(&self) -> Seq<u8> {
        self.heap.bytes()
    }

    /// The block visited before the current one.
    pub closed spec fn previous(&self) -> Option<u16> {
        self.previous_idx
    }

    /// The block visited last.
    pub closed spec fn current(&self) -> Option<u16> {
        self.current_idx
    }

    /// The block to visit next.
    pub closed spec fn next_link(&self) -> Option<u16> {
        self.next_idx
    }

    fn new(heap: &'a Heap) -> (r: FreeIterator<'a>)
        requires
            heap.bytes().len() == MEM_SIZE,
        ensures
            r.arena() == heap.bytes(),
            r.previous() == None::<u16>,
            r.current() == None::<u16>,
            r.next_link() == (if word(heap.bytes(), 0) == 0 {
                None
            } else {
                Some(word(heap.bytes(), 0) as u16)
            }),
    {
        let previous_idx = None;
        let current_idx = None;
        let next_idx = heap.get_first_free();
        let next_idx = match next_idx {
            0 => None,
            _ => Some(next_idx),
        };
        FreeIterator { heap, previous_idx, current_idx, next_idx }
    }

    /// Steps to the next free block and returns its address, or `None` at
    /// the end of the list.
    pub fn next(&mut self) -> (r: Option<u16>)
        requires
            old(self).arena().len() == MEM_SIZE,
            match old(self).next_link() {
                Some(p) => p < 0xfffd,
                None => true,
            },
        ensures
            final(self).arena() == old(self).arena(),
            final(self).previous() == old(self).current(),
            r == old(self).next_link(),
            final(self).current() == old(self).next_link(),
            match old(self).next_link() {
                None => final(self).next_link() == None::<u16>,
                Some(p) => final(self).next_link() == (if word(old(self).arena(), p + 2) == 0 {
                    None
                } else {
                    Some(word(old(self).arena(), p + 2) as u16)
                }),
            },
    {
        match self.next_idx {
            None => {
                self.previous_idx = self.current_idx;
                self.current_idx = None;
                None
            },
            Some(idx) => {
                self.previous_idx = self.current_idx;
                self.current_idx = Some(idx);
                self.next_idx = {
                    let next = self.heap.get_next_free(idx);
                    if next == 0 {
                        None
                    } else {
                        Some(next)
                    }
                };
                Some(idx)
            },
        }
    }
}

/// What `next_free` gives, without unfolding it.
pub proof fn lemma_next_free(s: Seq<Block>, i: int)
    requires
        0 <= i <= s.len(),
    ensures
        i <= next_free(s, i) <= s.len(),
        next_free(s, i) < s.len() ==> s[next_free(s, i)].free,
        forall|m: int| i <= m < next_free(s, i) ==> !#[trigger] s[m].free,
    decreases s.len() - i,
{
    if i < s.len() && !s[i].free {
        lemma_next_free(s, i + 1);
    }
}

/// `next_free` is the index `k` that has no free block before it from `i`
/// on and is free or past the end.
pub proof fn lemma_next_free_is(s: Seq<Block>, i: int, k: int)
    requires
        0 <= i <= k <= s.len(),
        k == s.len() || s[k].free,
        forall|m: int| i <= m < k ==> !#[trigger] s[m].free,
    ensures
        next_free(s, i) == k,
{
    lemma_next_free(s, i);
    let r = next_free(s, i);
    if r < k {
        assert(!s[r].free);
    } else if r > k {
        assert(!s[k].free);
    }
}

/// What `first_fit` gives, without unfolding it.
pub proof fn lemma_first_fit(s: Seq<Block>, n: int, i: int)
    requires
        0 <= i <= s.len(),
    ensures
        i <= first_fit(s, n, i) <= s.len(),
        first_fit(s, n, i) < s.len() ==> s[first_fit(s, n, i)].free && s[first_fit(
            s,
            n,
            i,
        )].size >= n,
        forall|m: int| i <= m < first_fit(s, n, i) ==> !(#[trigger] s[m].free && s[m].size >= n),
    decreases s.len() - i,
{
    if i < s.len() && !(s[i].free && s[i].size >= n) {
        lemma_first_fit(s, n, i + 1);
    }
}

} // verus!

verus! {

/// Where a block lies in the arena.
pub proof fn lemma_block_bounds(s: Seq<Block>, k: int)
    requires
        valid_blocks(s),
        0 <= k < s.len(),
    ensures
        2 <= s[k].start,
        s[k].start + 4 <= block_end(s[k]) <= 0x10000,
{
    if k > 0 {
        assert(block_end(s[0]) <= s[k].start);
    }
    if k < s.len() - 1 {
        assert(block_end(s[k]) <= s[s.len() - 1].start);
    }
}

/// Writing a word changes that word and no word at least two bytes away.
pub proof fn lemma_put_word(m: Seq<u8>, p: int, v: int)
    requires
        0 <= p,
        p + 1 < m.len(),
        0 <= v < 0x10000,
    ensures
        put_word(m, p, v).len() == m.len(),
        word(put_word(m, p, v), p) == v,
        forall|q: int|
            0 <= q && q + 1 < m.len() && (q + 1 < p || q > p + 1) ==> #[trigger] word(
                put_word(m, p, v),
                q,
            ) == word(m, q),
{
}

/// Marking a block used keeps the blocks valid.
proof fn lemma_valid_mark_used(s: Seq<Block>, j: int)
    requires
        valid_blocks(s),
        0 <= j < s.len(),
    ensures
        valid_blocks(s.update(j, Block { start: s[j].start, size: s[j].size, free: false })),
{
    let t = s.update(j, Block { start: s[j].start, size: s[j].size, free: false });
    assert forall|k: int| 0 <= k < t.len() implies #[trigger] t[k].start == s[k].start
        && t[k].size == s[k].size && (t[k].free ==> s[k].free) by {}
}

/// One block's metadata after free block `j` is taken whole.
proof fn lemma_take_whole_at(m: Seq<u8>, s: Seq<Block>, j: int, pj: int, k: int)
    requires
        heap_inv(m, s),
        0 <= j < s.len(),
        s[j].free,
        -1 <= pj < j,
        pj >= 0 ==> s[pj].free,
        next_free(s, pj + 1) == j,
        0 <= k < s.len(),
    ensures
        ({
            let t = s.update(j, Block { start: s[j].start, size: s[j].size, free: false });
            let p = if pj < 0 {
                0
            } else {
                s[pj].start + 2
            };
            let m2 = put_word(m, p, link(s, next_free(s, j + 1)));
            &&& word(m2, t[k].start) == t[k].size
            &&& t[k].free ==> word(m2, t[k].start + 2) == link(t, next_free(t, k + 1))
        }),
{
    let t = s.update(j, Block { start: s[j].start, size: s[j].size, free: false });
    let p = if pj < 0 {
        0
    } else {
        s[pj].start + 2
    };
    let f = next_free(s, j + 1);
    let v = link(s, f);
    lemma_next_free(s, pj + 1);
    lemma_next_free(s, j + 1);
    if f < s.len() {
        lemma_block_bounds(s, f);
    }
    lemma_put_word(m, p, v);
    lemma_block_bounds(s, k);
    if pj >= 0 {
        lemma_block_bounds(s, pj);
        if k < pj {
            assert(block_end(s[k]) <= s[pj].start);
        } else if k > pj {
            assert(block_end(s[pj]) <= s[k].start);
        }
    }
    if t[k].free {
        assert(s[k].start + 2 == t[k].start + 2);
        lemma_next_free(s, k + 1);
        if k == pj {
            lemma_next_free_is(t, k + 1, f);
        } else if k > j {
            lemma_next_free_is(t, k + 1, next_free(s, k + 1));
        } else {
            lemma_next_free_is(t, k + 1, next_free(s, k + 1));
        }
    }
}

/// Taking the whole of free block `j`, whose free predecessor is `pj` (-1
/// for none), is one write: the link to `j` now skips it.
proof fn lemma_take_whole(m: Seq<u8>, s: Seq<Block>, j: int, pj: int)
    requires
        heap_inv(m, s),
        0 <= j < s.len(),
        s[j].free,
        -1 <= pj < j,
        pj >= 0 ==> s[pj].free,
        next_free(s, pj + 1) == j,
    ensures
        heap_inv(
            put_word(
                m,
                if pj < 0 {
                    0
                } else {
                    s[pj].start + 2
                },
                link(s, next_free(s, j + 1)),
            ),
            s.update(j, Block { start: s[j].start, size: s[j].size, free: false }),
        ),
{
    let t = s.update(j, Block { start: s[j].start, size: s[j].size, free: false });
    let p = if pj < 0 {
        0
    } else {
        s[pj].start + 2
    };
    let f = next_free(s, j + 1);
    let m2 = put_word(m, p, link(s, f));
    lemma_next_free(s, pj + 1);
    lemma_next_free(s, j + 1);
    lemma_next_free(s, 0);
    if f < s.len() {
        lemma_block_bounds(s, f);
    }
    lemma_put_word(m, p, link(s, f));
    lemma_valid_mark_used(s, j);
    if pj < 0 {
        lemma_next_free_is(t, 0, f);
    } else {
        lemma_next_free_is(t, 0, next_free(s, 0));
        lemma_block_bounds(s, pj);
        lemma_block_bounds(s, next_free(s, 0));
    }
    assert forall|k: int| 0 <= k < t.len() implies {
        &&& word(m2, #[trigger] t[k].start) == t[k].size
        &&& t[k].free ==> word(m2, t[k].start + 2) == link(t, next_free(t, k + 1))
    } by {
        lemma_take_whole_at(m, s, j, pj, k);
    }
}

/// The blocks after free block `j` is split for `n` bytes, index by index.
proof fn lemma_split_shape(s: Seq<Block>, j: int, n: int)
    requires
        valid_blocks(s),
        0 <= j < s.len(),
        s[j].free,
        n >= 2,
        s[j].size >= n + 4,
    ensures
        ({
            let t = after_malloc(s, j, n);
            &&& t.len() == s.len() + 1
            &&& forall|k: int| 0 <= k < j ==> #[trigger] t[k] == s[k]
            &&& t[j] == Block { start: s[j].start, size: n, free: false }
            &&& t[j + 1] == Block { start: s[j].start + 2 + n, size: s[j].size - n - 2, free: true }
            &&& forall|k: int| j + 2 <= k < t.len() ==> #[trigger] t[k] == s[k - 1]
            &&& valid_blocks(t)
        }),
{
    let t = after_malloc(s, j, n);
    assert(t.len() == s.len() + 1);
    assert forall|k: int| 0 <= k < j implies #[trigger] t[k] == s[k] by {}
    assert forall|k: int| j + 2 <= k < t.len() implies #[trigger] t[k] == s[k - 1] by {}
    assert(t[j] == Block { start: s[j].start, size: n, free: false });
    assert(t[j + 1] == Block { start: s[j].start + 2 + n, size: s[j].size - n - 2, free: true });
    lemma_block_bounds(s, j);
    assert forall|a: int, b: int| 0 <= a < b < t.len() implies block_end(#[trigger] t[a]) <= #[trigger] t[b].start by {
        let sa = if a <= j { a } else { a - 1 };
        let sb = if b <= j { b } else { b - 1 };
        if sa < sb {
            assert(block_end(s[sa]) <= s[sb].start);
        }
    }
    assert forall|a: int, b: int| 0 <= a && b == a + 1 && b < t.len() implies #[trigger] t[b].start == block_end(#[trigger] t[a]) by {
        if a > j + 1 {
            assert(s[b - 1].start == block_end(s[a - 1]));
        } else if a == j + 1 {
            if b - 1 < s.len() {
                assert(s[j + 1].start == block_end(s[j]));
            }
        } else if a < j - 1 {
            assert(s[b].start == block_end(s[a]));
        }
    }
    assert forall|a: int, b: int| 0 <= a && b == a + 1 && b < t.len() implies !(#[trigger] t[a].free && #[trigger] t[b].free) by {
        if a > j + 1 {
            assert(!(s[a - 1].free && s[b - 1].free));
        } else if a == j + 1 {
            assert(!(s[j].free && s[j + 1].free));
        } else if a < j - 1 {
            assert(!(s[a].free && s[b].free));
        }
    }
    assert forall|k: int| 0 <= k < t.len() implies #[trigger] t[k].size >= 2 by {
        if k < j {
            assert(s[k].size >= 2);
        } else if k > j + 1 {
            assert(s[k - 1].size >= 2);
        }
    }
    if j == s.len() - 1 {
        assert(t.last() == t[j + 1]);
    } else {
        assert(t.last() == s.last());
    }
}

/// The bytes after free block `j` is split for `n` bytes: its new size,
/// the header and link of the free rest, and the link to the rest.
pub open spec fn split_bytes(m: Seq<u8>, s: Seq<Block>, j: int, pj: int, n: int) -> Seq<u8> {
    let st = s[j].start;
    let rest = st + 2 + n;
    let p = if pj < 0 {
        0
    } else {
        s[pj].start + 2
    };
    put_word(
        put_word(
            put_word(put_word(m, st, n), rest, s[j].size - n - 2),
            rest + 2,
            link(s, next_free(s, j + 1)),
        ),
        p,
        rest,
    )
}

/// Where `next_free` lands after a split.
proof fn lemma_split_next_free(s: Seq<Block>, j: int, n: int, i: int)
    requires
        valid_blocks(s),
        0 <= j < s.len(),
        s[j].free,
        n >= 2,
        s[j].size >= n + 4,
        0 <= i <= s.len() + 1,
    ensures
        ({
            let t = after_malloc(s, j, n);
            &&& i <= j ==> next_free(t, i) == if next_free(s, i) < j {
                next_free(s, i)
            } else {
                j + 1
            }
            &&& i == j + 1 ==> next_free(t, i) == j + 1
            &&& i >= j + 2 ==> next_free(t, i) == next_free(s, i - 1) + 1
        }),
{
    let t = after_malloc(s, j, n);
    lemma_split_shape(s, j, n);
    if i <= j {
        lemma_next_free(s, i);
        if next_free(s, i) < j {
            lemma_next_free_is(t, i, next_free(s, i));
        } else {
            lemma_next_free_is(t, i, j + 1);
        }
    } else if i == j + 1 {
        lemma_next_free_is(t, i, j + 1);
    } else {
        lemma_next_free(s, i - 1);
        let f = next_free(s, i - 1);
        assert forall|m: int| i <= m < f + 1 implies !#[trigger] t[m].free by {
            assert(!s[m - 1].free);
        }
        lemma_next_free_is(t, i, f + 1);
    }
}

/// The metadata of a block before the split one.
#[verifier::rlimit(40)]
proof fn lemma_split_before(m: Seq<u8>, s: Seq<Block>, j: int, pj: int, n: int, k: int)
    requires
        heap_inv(m, s),
        0 <= j < s.len(),
        s[j].free,
        n >= 2,
        s[j].size >= n + 4,
        -1 <= pj < j,
        pj >= 0 ==> s[pj].free,
        next_free(s, pj + 1) == j,
        0 <= k < j,
    ensures
        ({
            let t = after_malloc(s, j, n);
            let m2 = split_bytes(m, s, j, pj, n);
            &&& word(m2, t[k].start) == t[k].size
            &&& t[k].free ==> word(m2, t[k].start + 2) == link(t, next_free(t, k + 1))
        }),
{
    let t = after_malloc(s, j, n);
    let st = s[j].start;
    let rest = st + 2 + n;
    let p = if pj < 0 {
        0
    } else {
        s[pj].start + 2
    };
    let f = next_free(s, j + 1);
    let m1 = put_word(m, st, n);
    let m2 = put_word(m1, rest, s[j].size - n - 2);
    let m3 = put_word(m2, rest + 2, link(s, f));
    lemma_split_shape(s, j, n);
    lemma_block_bounds(s, j);
    lemma_next_free(s, pj + 1);
    lemma_next_free(s, j + 1);
    if f < s.len() {
        lemma_block_bounds(s, f);
    }
    lemma_put_word(m, st, n);
    lemma_put_word(m1, rest, s[j].size - n - 2);
    lemma_put_word(m2, rest + 2, link(s, f));
    if pj >= 0 {
        lemma_block_bounds(s, pj);
        assert(block_end(s[pj]) <= st);
    }
    lemma_put_word(m3, p, rest);
    lemma_split_next_free(s, j, n, k + 1);
    lemma_block_bounds(s, k);
    assert(block_end(s[k]) <= st);
    if pj >= 0 && k < pj {
        assert(block_end(s[k]) <= s[pj].start);
    } else if pj >= 0 && k > pj {
        assert(block_end(s[pj]) <= s[k].start);
    }
    if t[k].free {
        lemma_next_free(s, k + 1);
    }
}

/// The metadata of the two blocks the split makes.
#[verifier::rlimit(40)]
proof fn lemma_split_new(m: Seq<u8>, s: Seq<Block>, j: int, pj: int, n: int, k: int)
    requires
        heap_inv(m, s),
        0 <= j < s.len(),
        s[j].free,
        n >= 2,
        s[j].size >= n + 4,
        -1 <= pj < j,
        pj >= 0 ==> s[pj].free,
        next_free(s, pj + 1) == j,
        k == j || k == j + 1,
    ensures
        ({
            let t = after_malloc(s, j, n);
            let m2 = split_bytes(m, s, j, pj, n);
            &&& word(m2, t[k].start) == t[k].size
            &&& t[k].free ==> word(m2, t[k].start + 2) == link(t, next_free(t, k + 1))
        }),
{
    let t = after_malloc(s, j, n);
    let st = s[j].start;
    let rest = st + 2 + n;
    let p = if pj < 0 {
        0
    } else {
        s[pj].start + 2
    };
    let f = next_free(s, j + 1);
    let m1 = put_word(m, st, n);
    let m2 = put_word(m1, rest, s[j].size - n - 2);
    let m3 = put_word(m2, rest + 2, link(s, f));
    lemma_split_shape(s, j, n);
    lemma_block_bounds(s, j);
    lemma_next_free(s, pj + 1);
    lemma_next_free(s, j + 1);
    if f < s.len() {
        lemma_block_bounds(s, f);
    }
    lemma_put_word(m, st, n);
    lemma_put_word(m1, rest, s[j].size - n - 2);
    lemma_put_word(m2, rest + 2, link(s, f));
    if pj >= 0 {
        lemma_block_bounds(s, pj);
        assert(block_end(s[pj]) <= st);
    }
    lemma_put_word(m3, p, rest);
    lemma_split_next_free(s, j, n, k + 1);
    if k == j + 1 && f < s.len() {
        assert(t[f + 1] == s[f]);
    }
}

/// The metadata of a block after the split one.
#[verifier::rlimit(40)]
proof fn lemma_split_after(m: Seq<u8>, s: Seq<Block>, j: int, pj: int, n: int, k: int)
    requires
        heap_inv(m, s),
        0 <= j < s.len(),
        s[j].free,
        n >= 2,
        s[j].size >= n + 4,
        -1 <= pj < j,
        pj >= 0 ==> s[pj].free,
        next_free(s, pj + 1) == j,
        j + 2 <= k < s.len() + 1,
    ensures
        ({
            let t = after_malloc(s, j, n);
            let m2 = split_bytes(m, s, j, pj, n);
            &&& word(m2, t[k].start) == t[k].size
            &&& t[k].free ==> word(m2, t[k].start + 2) == link(t, next_free(t, k + 1))
        }),
{
    let t = after_malloc(s, j, n);
    let st = s[j].start;
    let rest = st + 2 + n;
    let p = if pj < 0 {
        0
    } else {
        s[pj].start + 2
    };
    let f = next_free(s, j + 1);
    let m1 = put_word(m, st, n);
    let m2 = put_word(m1, rest, s[j].size - n - 2);
    let m3 = put_word(m2, rest + 2, link(s, f));
    lemma_split_shape(s, j, n);
    lemma_block_bounds(s, j);
    lemma_next_free(s, pj + 1);
    lemma_next_free(s, j + 1);
    if f < s.len() {
        lemma_block_bounds(s, f);
    }
    lemma_put_word(m, st, n);
    lemma_put_word(m1, rest, s[j].size - n - 2);
    lemma_put_word(m2, rest + 2, link(s, f));
    if pj >= 0 {
        lemma_block_bounds(s, pj);
        assert(block_end(s[pj]) <= st);
    }
    lemma_put_word(m3, p, rest);
    lemma_split_next_free(s, j, n, k + 1);
    lemma_block_bounds(s, k - 1);
    assert(block_end(s[j]) <= s[k - 1].start);
    if t[k].free {
        lemma_next_free(s, k);
        if next_free(s, k) < s.len() {
            assert(t[next_free(s, k) + 1] == s[next_free(s, k)]);
        }
    }
}

/// Splitting free block `j` for `n` bytes keeps the bytes and the blocks
/// in step.
proof fn lemma_split(m: Seq<u8>, s: Seq<Block>, j: int, pj: int, n: int)
    requires
        heap_inv(m, s),
        0 <= j < s.len(),
        s[j].free,
        n >= 2,
        s[j].size >= n + 4,
        -1 <= pj < j,
        pj >= 0 ==> s[pj].free,
        next_free(s, pj + 1) == j,
    ensures
        heap_inv(split_bytes(m, s, j, pj, n), after_malloc(s, j, n)),
{
    let t = after_malloc(s, j, n);
    let m4 = split_bytes(m, s, j, pj, n);
    let st = s[j].start;
    let rest = st + 2 + n;
    let p = if pj < 0 {
        0
    } else {
        s[pj].start + 2
    };
    let f = next_free(s, j + 1);
    let m1 = put_word(m, st, n);
    let m2 = put_word(m1, rest, s[j].size - n - 2);
    let m3 = put_word(m2, rest + 2, link(s, f));
    lemma_split_shape(s, j, n);
    lemma_block_bounds(s, j);
    lemma_next_free(s, 0);
    lemma_next_free(s, j + 1);
    if f < s.len() {
        lemma_block_bounds(s, f);
    }
    lemma_put_word(m, st, n);
    lemma_put_word(m1, rest, s[j].size - n - 2);
    lemma_put_word(m2, rest + 2, link(s, f));
    if pj >= 0 {
        lemma_block_bounds(s, pj);
        assert(block_end(s[pj]) <= st);
    }
    lemma_put_word(m3, p, rest);
    lemma_split_next_free(s, j, n, 0);
    if pj >= 0 {
        lemma_block_bounds(s, next_free(s, 0));
    }
    assert(word(m4, 0) == link(t, next_free(t, 0)));
    assert forall|k: int| 0 <= k < t.len() implies {
        &&& word(m4, #[trigger] t[k].start) == t[k].size
        &&& t[k].free ==> word(m4, t[k].start + 2) == link(t, next_free(t, k + 1))
    } by {
        if k < j {
            lemma_split_before(m, s, j, pj, n, k);
        } else if k <= j + 1 {
            lemma_split_new(m, s, j, pj, n, k);
        } else {
            lemma_split_after(m, s, j, pj, n, k);
        }
    }
}

/// The blocks from `lo` to `hi` made into one free block, index by index,
/// where the blocks around them are used.
proof fn lemma_merged_shape(s: Seq<Block>, lo: int, hi: int)
    requires
        valid_blocks(s),
        0 <= lo <= hi < s.len(),
        lo > 0 ==> !s[lo - 1].free,
        hi + 1 < s.len() ==> !s[hi + 1].free,
    ensures
        ({
            let t = merged(s, lo, hi);
            &&& t.len() == s.len() - (hi - lo)
            &&& forall|k: int| 0 <= k < lo ==> #[trigger] t[k] == s[k]
            &&& t[lo] == Block {
                start: s[lo].start,
                size: block_end(s[hi]) - s[lo].start - 2,
                free: true,
            }
            &&& forall|k: int| lo < k < t.len() ==> #[trigger] t[k] == s[k + (hi - lo)]
            &&& valid_blocks(t)
        }),
{
    let t = merged(s, lo, hi);
    let d = hi - lo;
    assert(t.len() == s.len() - d);
    assert forall|k: int| 0 <= k < lo implies #[trigger] t[k] == s[k] by {}
    assert forall|k: int| lo < k < t.len() implies #[trigger] t[k] == s[k + d] by {}
    lemma_block_bounds(s, lo);
    lemma_block_bounds(s, hi);
    if lo < hi {
        assert(block_end(s[lo]) <= s[hi].start);
    }
    assert forall|a: int, b: int| 0 <= a < b < t.len() implies block_end(#[trigger] t[a]) <= #[trigger] t[b].start by {
        let sa = if a < lo { a } else if a == lo { hi } else { a + d };
        let sb = if b < lo { b } else if b == lo { lo } else { b + d };
        if sa < sb {
            assert(block_end(s[sa]) <= s[sb].start);
        }
    }
    assert forall|a: int, b: int| 0 <= a && b == a + 1 && b < t.len() implies #[trigger] t[b].start == block_end(#[trigger] t[a]) by {
        if a > lo {
            assert(s[b + d].start == block_end(s[a + d]));
        } else if a == lo {
            assert(s[hi + 1].start == block_end(s[hi]));
        } else if b < lo {
            assert(s[b].start == block_end(s[a]));
        } else {
            assert(s[lo].start == block_end(s[a]));
        }
    }
    assert forall|a: int, b: int| 0 <= a && b == a + 1 && b < t.len() implies !(#[trigger] t[a].free && #[trigger] t[b].free) by {
        if a > lo {
            assert(!(s[a + d].free && s[b + d].free));
        } else if b < lo {
            assert(!(s[a].free && s[b].free));
        }
    }
    assert forall|k: int| 0 <= k < t.len() implies #[trigger] t[k].size >= 2 by {
        if k < lo {
            assert(s[k].size >= 2);
        } else if k > lo {
            assert(s[k + d].size >= 2);
        }
    }
    if hi == s.len() - 1 {
        assert(t.last() == t[lo]);
    } else {
        assert(t.last() == s.last());
    }
}

/// Where `next_free` lands after blocks `lo` to `hi` are merged.
proof fn lemma_merged_next_free(s: Seq<Block>, lo: int, hi: int, i: int)
    requires
        valid_blocks(s),
        0 <= lo <= hi < s.len(),
        lo > 0 ==> !s[lo - 1].free,
        hi + 1 < s.len() ==> !s[hi + 1].free,
        0 <= i <= s.len() - (hi - lo),
    ensures
        ({
            let t = merged(s, lo, hi);
            &&& i <= lo ==> next_free(t, i) == if next_free(s, i) < lo {
                next_free(s, i)
            } else {
                lo
            }
            &&& i > lo ==> next_free(t, i) == next_free(s, i + (hi - lo)) - (hi - lo)
        }),
{
    let t = merged(s, lo, hi);
    let d = hi - lo;
    lemma_merged_shape(s, lo, hi);
    if i <= lo {
        lemma_next_free(s, i);
        if next_free(s, i) < lo {
            lemma_next_free_is(t, i, next_free(s, i));
        } else {
            lemma_next_free_is(t, i, lo);
        }
    } else {
        lemma_next_free(s, i + d);
        let f = next_free(s, i + d);
        assert forall|m: int| i <= m < f - d implies !#[trigger] t[m].free by {
            assert(!s[m + d].free);
        }
        if f < s.len() {
            assert(t[f - d] == s[f]);
        }
        lemma_next_free_is(t, i, f - d);
    }
}

/// Outside the bytes from `a` to `b` and the word at `p`, `m1` and `m2`
/// hold the same bytes and words.
pub open spec fn same_words_outside(m1: Seq<u8>, m2: Seq<u8>, a: int, b: int, p: int) -> bool {
    &&& m2.len() == m1.len()
    &&& forall|q: int|
        0 <= q && q + 1 < m1.len() && (q + 1 < a || q >= b) && (q + 1 < p || q > p + 1)
            ==> #[trigger] word(m2, q) == word(m1, q)
    &&& forall|i: int|
        0 <= i < m1.len() && (i < a || i >= b) && (i < p || i > p + 1) ==> #[trigger] m2[i]
            == m1[i]
}

/// A write inside the bytes from `a` to `b`, or at `p`, keeps the words
/// outside them.
proof fn lemma_frame_step(m0: Seq<u8>, m1: Seq<u8>, a: int, b: int, p: int, w: int, v: int)
    requires
        same_words_outside(m0, m1, a, b, p),
        0 <= w,
        w + 1 < m1.len(),
        0 <= v < 0x10000,
        (a <= w && w + 2 <= b) || w == p,
    ensures
        same_words_outside(m0, put_word(m1, w, v), a, b, p),
{
    lemma_put_word(m1, w, v);
}

/// The metadata of a block before the merged one.
proof fn lemma_free_before(m: Seq<u8>, m2: Seq<u8>, s: Seq<Block>, lo: int, hi: int, q: int, p: int, k: int)
    requires
        heap_inv(m, s),
        0 <= lo <= hi < s.len(),
        lo > 0 ==> !s[lo - 1].free,
        hi + 1 < s.len() ==> !s[hi + 1].free,
        -1 <= q < lo,
        q >= 0 ==> s[q].free,
        next_free(s, q + 1) >= lo,
        same_words_outside(m, m2, s[lo].start, block_end(s[hi]), p),
        p == (if q < 0 {
            0
        } else {
            s[q].start + 2
        }) || (s[lo].start <= p && p + 2 <= block_end(s[hi])),
        word(m2, s[lo].start) == block_end(s[hi]) - s[lo].start - 2,
        word(m2, s[lo].start + 2) == link(s, next_free(s, hi + 1)),
        word(
            m2,
            if q < 0 {
                0
            } else {
                s[q].start + 2
            },
        ) == s[lo].start,
        0 <= k < lo,
    ensures
        ({
            let t = merged(s, lo, hi);
            &&& word(m2, t[k].start) == t[k].size
            &&& t[k].free ==> word(m2, t[k].start + 2) == link(t, next_free(t, k + 1))
        }),
{
    let t = merged(s, lo, hi);
    let d = hi - lo;
    let a = s[lo].start;
    let b = block_end(s[hi]);
    lemma_merged_shape(s, lo, hi);
    lemma_block_bounds(s, lo);
    lemma_block_bounds(s, hi);
    if lo < hi {
        assert(block_end(s[lo]) <= s[hi].start);
    }
    if q >= 0 {
        lemma_block_bounds(s, q);
        assert(block_end(s[q]) <= a);
    }
    lemma_next_free(s, q + 1);
    lemma_next_free(s, hi + 1);
    if next_free(s, hi + 1) < s.len() {
        lemma_block_bounds(s, next_free(s, hi + 1));
    }
    lemma_merged_next_free(s, lo, hi, k + 1);
    lemma_block_bounds(s, k);
    assert(block_end(s[k]) <= a);
    if q >= 0 && k < q {
        assert(block_end(s[k]) <= s[q].start);
    } else if q >= 0 && k > q {
        assert(block_end(s[q]) <= s[k].start);
    }
    if t[k].free {
        lemma_next_free(s, k + 1);
        if k != q {
            assert(word(m2, s[k].start + 2) == word(m, s[k].start + 2));
            if next_free(s, k + 1) >= lo {
                assert(q < k);
                assert(false);
            }
        }
    }
}

/// The metadata of the merged block.
proof fn lemma_free_merged(m2: Seq<u8>, s: Seq<Block>, lo: int, hi: int)
    requires
        valid_blocks(s),
        0 <= lo <= hi < s.len(),
        lo > 0 ==> !s[lo - 1].free,
        hi + 1 < s.len() ==> !s[hi + 1].free,
        word(m2, s[lo].start) == block_end(s[hi]) - s[lo].start - 2,
        word(m2, s[lo].start + 2) == link(s, next_free(s, hi + 1)),
    ensures
        ({
            let t = merged(s, lo, hi);
            &&& word(m2, t[lo].start) == t[lo].size
            &&& word(m2, t[lo].start + 2) == link(t, next_free(t, lo + 1))
        }),
{
    let t = merged(s, lo, hi);
    let d = hi - lo;
    lemma_merged_shape(s, lo, hi);
    lemma_next_free(s, hi + 1);
    lemma_merged_next_free(s, lo, hi, lo + 1);
    let f = next_free(s, hi + 1);
    if f < s.len() {
        assert(t[f - d] == s[f]);
    }
}

/// The metadata of a block after the merged one.
proof fn lemma_free_after(m: Seq<u8>, m2: Seq<u8>, s: Seq<Block>, lo: int, hi: int, p: int, k: int)
    requires
        heap_inv(m, s),
        0 <= lo <= hi < s.len(),
        lo > 0 ==> !s[lo - 1].free,
        hi + 1 < s.len() ==> !s[hi + 1].free,
        same_words_outside(m, m2, s[lo].start, block_end(s[hi]), p),
        p + 2 <= block_end(s[hi]),
        lo < k < s.len() - (hi - lo),
    ensures
        ({
            let t = merged(s, lo, hi);
            &&& word(m2, t[k].start) == t[k].size
            &&& t[k].free ==> word(m2, t[k].start + 2) == link(t, next_free(t, k + 1))
        }),
{
    let t = merged(s, lo, hi);
    let d = hi - lo;
    let sk = k + d;
    assert(t.len() == s.len() - d);
    assert(t[k] == s[sk]);
    lemma_block_bounds(s, sk);
    assert(block_end(s[hi]) <= s[sk].start);
    assert(word(m2, s[sk].start) == word(m, s[sk].start));
    if t[k].free {
        assert(word(m2, s[sk].start + 2) == word(m, s[sk].start + 2));
        lemma_merged_next_free(s, lo, hi, k + 1);
        lemma_next_free(s, sk + 1);
        let f = next_free(s, sk + 1);
        if f < s.len() {
            assert(t[f - d] == s[f]);
        }
    }
}

/// The bytes `m2` hold the blocks after blocks `lo` to `hi` are merged when
/// the merged block's header and link are written, the link to it from the
/// last free block `q` before it (-1 for the first-free pointer) is set, and
/// no other word outside the merged block changed.
proof fn lemma_free_inv(m: Seq<u8>, m2: Seq<u8>, s: Seq<Block>, lo: int, hi: int, q: int, p: int)
    requires
        heap_inv(m, s),
        0 <= lo <= hi < s.len(),
        lo > 0 ==> !s[lo - 1].free,
        hi + 1 < s.len() ==> !s[hi + 1].free,
        -1 <= q < lo,
        q >= 0 ==> s[q].free,
        next_free(s, q + 1) >= lo,
        same_words_outside(m, m2, s[lo].start, block_end(s[hi]), p),
        p == (if q < 0 {
            0
        } else {
            s[q].start + 2
        }) || (s[lo].start <= p && p + 2 <= block_end(s[hi])),
        word(m2, s[lo].start) == block_end(s[hi]) - s[lo].start - 2,
        word(m2, s[lo].start + 2) == link(s, next_free(s, hi + 1)),
        word(
            m2,
            if q < 0 {
                0
            } else {
                s[q].start + 2
            },
        ) == s[lo].start,
    ensures
        heap_inv(m2, merged(s, lo, hi)),
{
    let t = merged(s, lo, hi);
    let a = s[lo].start;
    lemma_merged_shape(s, lo, hi);
    lemma_block_bounds(s, lo);
    if q >= 0 {
        lemma_block_bounds(s, q);
        assert(block_end(s[q]) <= a);
    }
    lemma_next_free(s, q + 1);
    lemma_merged_next_free(s, lo, hi, 0);
    lemma_next_free(s, 0);
    if q >= 0 {
        assert(next_free(s, 0) <= q);
        lemma_block_bounds(s, next_free(s, 0));
        assert(word(m2, 0) == word(m, 0));
    } else {
        assert(next_free(s, 0) >= lo);
    }
    assert(word(m2, 0) == link(t, next_free(t, 0)));
    assert forall|k: int| 0 <= k < t.len() implies {
        &&& word(m2, #[trigger] t[k].start) == t[k].size
        &&& t[k].free ==> word(m2, t[k].start + 2) == link(t, next_free(t, k + 1))
    } by {
        if k < lo {
            lemma_free_before(m, m2, s, lo, hi, q, p, k);
        } else if k == lo {
            lemma_free_merged(m2, s, lo, hi);
        } else {
            lemma_free_after(m, m2, s, lo, hi, p, k);
        }
    }
}

/// What `last_free_before` gives, without unfolding it.
proof fn lemma_last_free_before(s: Seq<Block>, i: int)
    requires
        0 <= i <= s.len(),
    ensures
        -1 <= last_free_before(s, i) < i,
        last_free_before(s, i) >= 0 ==> s[last_free_before(s, i)].free,
        forall|m: int| last_free_before(s, i) < m < i ==> !#[trigger] s[m].free,
    decreases i,
{
    if i > 0 && !s[i - 1].free {
        lemma_last_free_before(s, i - 1);
    }
}

/// Where the link to the block that freeing block `j` makes is written: in
/// the last free block `pj` before `j`, or in the first-free pointer when
/// there is none; when `j` joins the free block before it, no link changes
/// and the position is `j`'s own header, inside the merged block.
pub open spec fn free_link_pos(s: Seq<Block>, j: int, pj: int) -> int {
    if free_lo(s, j) == j {
        if pj < 0 {
            0
        } else {
            s[pj].start + 2
        }
    } else {
        s[j].start
    }
}

/// The free blocks around block `j`, as the walk along the free list finds
/// them: `pj` is the last free block before `j` and `fj` the first after.
proof fn lemma_free_neighbours(s: Seq<Block>, j: int, pj: int, fj: int)
    requires
        valid_blocks(s),
        0 <= j < s.len(),
        !s[j].free,
        -1 <= pj < j,
        pj >= 0 ==> s[pj].free,
        j < fj <= s.len(),
        next_free(s, pj + 1) == fj,
    ensures
        free_lo(s, j) == j - 1 <==> (pj >= 0 && pj == j - 1),
        free_hi(s, j) == j + 1 <==> (fj < s.len() && fj == j + 1),
        next_free(s, j + 1) == fj,
        fj < s.len() ==> s[fj].free,
        forall|m: int| pj < m < fj ==> !#[trigger] s[m].free,
{
    lemma_next_free(s, pj + 1);
    lemma_next_free_is(s, j + 1, fj);
    if j > 0 && pj < j - 1 {
        assert(!s[j - 1].free);
    }
    if j + 1 < s.len() && fj > j + 1 {
        assert(!s[j + 1].free);
    }
}

/// The bytes after block `j` is freed hold the blocks `after_free` gives
/// when the new free block's header and link are written, the link to it is
/// set, and nothing else outside it changed.
proof fn lemma_free_finish(m: Seq<u8>, m2: Seq<u8>, s: Seq<Block>, j: int, pj: int, fj: int)
    requires
        heap_inv(m, s),
        0 <= j < s.len(),
        !s[j].free,
        -1 <= pj < j,
        pj >= 0 ==> s[pj].free,
        j < fj <= s.len(),
        next_free(s, pj + 1) == fj,
        same_words_outside(
            m,
            m2,
            s[free_lo(s, j)].start,
            block_end(s[free_hi(s, j)]),
            free_link_pos(s, j, pj),
        ),
        word(m2, s[free_lo(s, j)].start) == block_end(s[free_hi(s, j)]) - s[free_lo(s, j)].start
            - 2,
        word(m2, s[free_lo(s, j)].start + 2) == link(s, next_free(s, free_hi(s, j) + 1)),
        free_lo(s, j) == j ==> word(m2, free_link_pos(s, j, pj)) == s[j].start,
    ensures
        heap_inv(m2, after_free(s, j)),
{
    let lo = free_lo(s, j);
    let hi = free_hi(s, j);
    let p = free_link_pos(s, j, pj);
    lemma_free_neighbours(s, j, pj, fj);
    if lo > 0 {
        if lo == j - 1 {
            if j >= 2 {
                assert(!(s[j - 2].free && s[j - 1].free));
            }
        }
    }
    if hi + 1 < s.len() && hi == j + 1 {
        assert(!(s[j + 1].free && s[j + 2].free));
    }
    if lo == j {
        lemma_free_inv(m, m2, s, lo, hi, pj, p);
    } else {
        lemma_last_free_before(s, lo);
        let q = last_free_before(s, lo);
        lemma_next_free_is(s, q + 1, lo);
        lemma_block_bounds(s, lo);
        let pq = if q < 0 {
            0
        } else {
            s[q].start + 2
        };
        if q >= 0 {
            lemma_block_bounds(s, q);
            assert(block_end(s[q]) <= s[lo].start);
        }
        assert(word(m2, pq) == word(m, pq));
        lemma_free_inv(m, m2, s, lo, hi, q, p);
    }
}

/// After the first step of freeing block `j`: its header and link hold
/// those of the block that freeing it makes, and no word outside that block
/// changed but the link to it.
pub open spec fn forward_done(m: Seq<u8>, m2: Seq<u8>, s: Seq<Block>, j: int) -> bool {
    let lo = free_lo(s, j);
    let hi = free_hi(s, j);
    &&& same_words_outside(
        m,
        m2,
        s[j].start,
        block_end(s[hi]),
        free_link_pos(s, j, last_free_before(s, j)),
    )
    &&& word(m2, s[j].start) == block_end(s[hi]) - s[j].start - 2
    &&& word(m2, s[j].start + 2) == link(s, next_free(s, hi + 1))
}

/// After freeing block `j`: the new free block's header and link are
/// written, the link to it is set, and no other word outside it changed.
pub open spec fn free_done(m: Seq<u8>, m2: Seq<u8>, s: Seq<Block>, j: int) -> bool {
    let lo = free_lo(s, j);
    let hi = free_hi(s, j);
    let pw = free_link_pos(s, j, last_free_before(s, j));
    &&& same_words_outside(m, m2, s[lo].start, block_end(s[hi]), pw)
    &&& word(m2, s[lo].start) == block_end(s[hi]) - s[lo].start - 2
    &&& word(m2, s[lo].start + 2) == link(s, next_free(s, hi + 1))
    &&& lo == j ==> word(m2, pw) == s[j].start
}

/// The neighbourhood of a used block `j`, with the free blocks around it
/// named the way a walk along the free list finds them.
proof fn lemma_free_facts(s: Seq<Block>, j: int)
    requires
        valid_blocks(s),
        0 <= j < s.len(),
        !s[j].free,
    ensures
        ({
            let pj = last_free_before(s, j);
            let fj = next_free(s, j + 1);
            let lo = free_lo(s, j);
            let hi = free_hi(s, j);
            &&& -1 <= pj < j
            &&& pj >= 0 ==> s[pj].free
            &&& j < fj <= s.len()
            &&& next_free(s, pj + 1) == fj
            &&& lo == j - 1 <==> (pj >= 0 && pj == j - 1)
            &&& hi == j + 1 <==> (fj < s.len() && fj == j + 1)
            &&& fj < s.len() ==> s[fj].free
            &&& 2 <= s[lo].start
            &&& s[lo].start + 4 <= block_end(s[lo])
            &&& block_end(s[hi]) <= 0x10000
            &&& s[lo].start <= s[j].start
            &&& s[j].start + 4 <= block_end(s[j]) <= block_end(s[hi])
            &&& pj >= 0 ==> s[pj].start + 4 <= block_end(s[pj]) <= s[j].start
            &&& pj >= 0 && pj < j - 1 ==> block_end(s[pj]) < s[j].start
            &&& fj < s.len() ==> block_end(s[j]) <= s[fj].start && block_end(s[fj]) <= 0x10000
            &&& fj < s.len() && fj > j + 1 ==> block_end(s[j]) < s[fj].start
            &&& fj < s.len() && fj == j + 1 ==> s[fj].start == block_end(s[j])
            &&& pj >= 0 && pj == j - 1 ==> block_end(s[pj]) == s[j].start
        }),
{
    let pj = last_free_before(s, j);
    let fj = next_free(s, j + 1);
    lemma_last_free_before(s, j);
    lemma_next_free(s, j + 1);
    lemma_next_free_is(s, pj + 1, fj);
    lemma_free_neighbours(s, j, pj, fj);
    lemma_block_bounds(s, j);
    let lo = free_lo(s, j);
    let hi = free_hi(s, j);
    lemma_block_bounds(s, lo);
    lemma_block_bounds(s, hi);
    if lo < j {
        assert(s[j].start == block_end(s[lo]));
    }
    if hi > j {
        assert(s[hi].start == block_end(s[j]));
    }
    if pj >= 0 {
        lemma_block_bounds(s, pj);
        assert(block_end(s[pj]) <= s[j].start);
        if pj < j - 1 {
            assert(block_end(s[pj]) <= s[j - 1].start);
            lemma_block_bounds(s, j - 1);
        }
        if pj == j - 1 {
            assert(s[j].start == block_end(s[pj]));
        }
    }
    if fj < s.len() {
        lemma_block_bounds(s, fj);
        assert(block_end(s[j]) <= s[fj].start);
        if fj > j + 1 {
            assert(block_end(s[j + 1]) <= s[fj].start);
            lemma_block_bounds(s, j + 1);
        }
        if fj == j + 1 {
            assert(s[fj].start == block_end(s[j]));
        }
    }
}

/// Words kept outside a region are kept outside any region around it.
proof fn lemma_frame_widen(m1: Seq<u8>, m2: Seq<u8>, a: int, a2: int, b: int, p: int)
    requires
        same_words_outside(m1, m2, a2, b, p),
        a <= a2,
    ensures
        same_words_outside(m1, m2, a, b, p),
{
}

/// Freeing the block that `malloc` just handed out gives back the blocks
/// from before the call: a split block merges with its free rest again, a
/// whole block becomes free again.
pub proof fn lemma_free_undoes_malloc(s: Seq<Block>, size: u16)
    requires
        valid_blocks(s),
        alloc_size(size) <= 65532,
        first_fit(s, alloc_size(size), 0) < s.len(),
    ensures
        ({
            let j = first_fit(s, alloc_size(size), 0);
            let t = after_malloc(s, j, alloc_size(size));
            &&& 0 <= j < t.len()
            &&& t[j].start == s[j].start
            &&& !t[j].free
            &&& after_free(t, j) == s
        }),
{
    let n = alloc_size(size);
    lemma_first_fit(s, n, 0);
    let j = first_fit(s, n, 0);
    let t = after_malloc(s, j, n);
    if j > 0 {
        assert(!(s[j - 1].free && s[j].free));
    }
    if j + 1 < s.len() {
        assert(!(s[j].free && s[j + 1].free));
    }
    if s[j].size >= n + 4 {
        lemma_split_shape(s, j, n);
        assert(free_lo(t, j) == j);
        assert(free_hi(t, j) == j + 1);
        assert(after_free(t, j) =~= s);
    } else {
        assert(free_lo(t, j) == j);
        assert(free_hi(t, j) == j);
        assert(after_free(t, j) =~= s);
    }
}

/// When every block is free, the arena is one free block of the full size:
/// freeing all that was allocated, in any order, leaves the heap as new.
pub proof fn lemma_all_free_is_empty(s: Seq<Block>)
    requires
        valid_blocks(s),
        forall|k: int| 0 <= k < s.len() ==> #[trigger] s[k].free,
    ensures
        s == empty_arena(),
{
    if s.len() > 1 {
        assert(!(s[0].free && s[1].free));
    }
    assert(s.last() == s[0]);
    assert(s[0].free);
    assert(s[0] == Block { start: 2, size: 65532, free: true });
    assert(s =~= empty_arena());
}

/// The pointers that `malloc` handed out and that are still in use: the
/// address after the header of each used block.
pub open spec fn live_pointers(s: Seq<Block>) -> Set<int> {
    Set::new(|p: int| exists|k: int| 0 <= k < s.len() && !s[k].free && #[trigger] s[k].start + 2 == p)
}

/// The index of the used block whose pointer is `p`.
pub open spec fn block_of(s: Seq<Block>, p: int) -> int {
    choose|k: int| 0 <= k < s.len() && !s[k].free && #[trigger] s[k].start + 2 == p
}

/// The blocks after the pointers `ps` are freed one after the other.
pub open spec fn free_each(s: Seq<Block>, ps: Seq<int>) -> Seq<Block>
    decreases ps.len(),
{
    if ps.len() == 0 {
        s
    } else {
        free_each(after_free(s, block_of(s, ps[0])), ps.drop_first())
    }
}

/// Two different blocks of a valid heap start at different addresses.
proof fn lemma_starts_distinct(s: Seq<Block>, j: int)
    requires
        valid_blocks(s),
        0 <= j < s.len(),
    ensures
        forall|k: int| 0 <= k < s.len() && k != j ==> #[trigger] s[k].start != s[j].start,
{
    assert forall|k: int| 0 <= k < s.len() && k != j implies #[trigger] s[k].start != s[j].start by {
        if k < j {
            lemma_blocks_disjoint(s, k, j);
        } else {
            lemma_blocks_disjoint(s, j, k);
        }
    }
}

/// The pointers in use after blocks `lo` to `hi`, all free but `j`, become
/// one free block: those before, less the pointer of `j`.
proof fn lemma_live_of_merged(s: Seq<Block>, t: Seq<Block>, lo: int, hi: int, j: int)
    requires
        0 <= lo <= j <= hi < s.len(),
        forall|k: int| lo <= k <= hi && k != j ==> #[trigger] s[k].free,
        forall|k: int| 0 <= k < s.len() && k != j ==> #[trigger] s[k].start != s[j].start,
        t.len() == s.len() - (hi - lo),
        forall|k: int| 0 <= k < lo ==> #[trigger] t[k] == s[k],
        t[lo].free,
        forall|k: int| lo < k < t.len() ==> #[trigger] t[k] == s[k + (hi - lo)],
    ensures
        live_pointers(t) == live_pointers(s).remove(s[j].start + 2),
{
    let d = hi - lo;
    let q = s[j].start + 2;
    assert forall|p: int| live_pointers(t).contains(p) implies live_pointers(s).remove(q).contains(p) by {
        let k = choose|k: int| 0 <= k < t.len() && !t[k].free && #[trigger] t[k].start + 2 == p;
        let sk = if k < lo { k } else { k + d };
        assert(t[k] == s[sk]);
        assert(s[sk].start != s[j].start);
        assert(0 <= sk < s.len() && !s[sk].free && s[sk].start + 2 == p);
    }
    assert forall|p: int| live_pointers(s).remove(q).contains(p) implies live_pointers(t).contains(p) by {
        let k = choose|k: int| 0 <= k < s.len() && !s[k].free && #[trigger] s[k].start + 2 == p;
        let tk = if k < lo { k } else { k - d };
        assert(k != j);
        assert(k < lo || k > hi);
        assert(t[tk] == s[k]);
        assert(0 <= tk < t.len() && !t[tk].free && t[tk].start + 2 == p);
    }
    assert(live_pointers(t) =~= live_pointers(s).remove(q));
}

/// Freeing a used block keeps the blocks valid and takes exactly its
/// pointer out of the pointers in use.
pub proof fn lemma_free_live(s: Seq<Block>, j: int)
    requires
        valid_blocks(s),
        0 <= j < s.len(),
        !s[j].free,
    ensures
        valid_blocks(after_free(s, j)),
        live_pointers(after_free(s, j)) == live_pointers(s).remove(s[j].start + 2),
{
    let lo = free_lo(s, j);
    let hi = free_hi(s, j);
    if lo > 0 && lo == j - 1 {
        assert(!(s[j - 2].free && s[j - 1].free));
    }
    if hi + 1 < s.len() && hi == j + 1 {
        assert(!(s[j + 1].free && s[j + 2].free));
    }
    lemma_merged_shape(s, lo, hi);
    lemma_starts_distinct(s, j);
    lemma_live_of_merged(s, after_free(s, j), lo, hi, j);
}

/// `malloc` takes the first block, in address order, that is free and
/// holds the request: no free block before it does. The blocks stay valid,
/// the block handed out is in use with at least the requested bytes after
/// the returned pointer, no other block overlaps it, and the returned
/// pointer, which was not in use, joins the pointers in use.
pub proof fn lemma_malloc_first_fit(s: Seq<Block>, size: u16)
    requires
        valid_blocks(s),
        alloc_size(size) <= 65532,
        first_fit(s, alloc_size(size), 0) < s.len(),
    ensures
        ({
            let n = alloc_size(size);
            let j = first_fit(s, n, 0);
            let t = after_malloc(s, j, n);
            let p = s[j].start + 2;
            &&& s[j].free && s[j].size >= n
            &&& forall|k: int| 0 <= k < j ==> !(#[trigger] s[k].free && s[k].size >= n)
            &&& valid_blocks(t)
            &&& 0 <= j < t.len() && t[j].start + 2 == p && !t[j].free && t[j].size >= n
            &&& forall|k: int| 0 <= k < t.len() && k != j ==> block_end(#[trigger] t[k]) <= t[j].start
                || block_end(t[j]) <= t[k].start
            &&& !live_pointers(s).contains(p)
            &&& live_pointers(t) == live_pointers(s).insert(p)
        }),
{
    let n = alloc_size(size);
    lemma_first_fit(s, n, 0);
    let j = first_fit(s, n, 0);
    let t = after_malloc(s, j, n);
    let p = s[j].start + 2;
    lemma_starts_distinct(s, j);
    if s[j].size >= n + 4 {
        lemma_split_shape(s, j, n);
    } else {
        lemma_valid_mark_used(s, j);
    }
    assert forall|k: int| 0 <= k < t.len() && k != j implies block_end(#[trigger] t[k]) <= t[j].start
        || block_end(t[j]) <= t[k].start by {
        if k < j {
            lemma_blocks_disjoint(t, k, j);
        } else {
            lemma_blocks_disjoint(t, j, k);
        }
    }
    assert(!live_pointers(s).contains(p)) by {
        if live_pointers(s).contains(p) {
            let k = choose|k: int| 0 <= k < s.len() && !s[k].free && #[trigger] s[k].start + 2 == p;
            assert(k != j);
        }
    }
    assert forall|q: int| live_pointers(t).contains(q) implies live_pointers(s).insert(p).contains(q) by {
        let k = choose|k: int| 0 <= k < t.len() && !t[k].free && #[trigger] t[k].start + 2 == q;
        if k != j {
            if s[j].size >= n + 4 {
                assert(k != j + 1);
                let sk = if k < j { k } else { k - 1 };
                assert(t[k] == s[sk]);
                assert(0 <= sk < s.len() && !s[sk].free && s[sk].start + 2 == q);
            } else {
                assert(t[k] == s[k]);
                assert(0 <= k < s.len() && !s[k].free && s[k].start + 2 == q);
            }
        }
    }
    assert forall|q: int| live_pointers(s).insert(p).contains(q) implies live_pointers(t).contains(q) by {
        if q == p {
            assert(0 <= j < t.len() && !t[j].free && t[j].start + 2 == q);
        } else {
            let k = choose|k: int| 0 <= k < s.len() && !s[k].free && #[trigger] s[k].start + 2 == q;
            assert(k != j);
            if s[j].size >= n + 4 {
                let tk = if k < j { k } else { k + 1 };
                assert(t[tk] == s[k]);
                assert(0 <= tk < t.len() && !t[tk].free && t[tk].start + 2 == q);
            } else {
                assert(t[k] == s[k]);
                assert(0 <= k < t.len() && !t[k].free && t[k].start + 2 == q);
            }
        }
    }
    assert(live_pointers(t) =~= live_pointers(s).insert(p));
}

/// Freeing every pointer still in use, one at a time and in any order,
/// leaves the arena as new: one free block of the full size, as
/// `Heap::new` makes it.
pub proof fn lemma_free_all_is_new(s: Seq<Block>, ps: Seq<int>)
    requires
        valid_blocks(s),
        ps.no_duplicates(),
        ps.to_set() == live_pointers(s),
    ensures
        free_each(s, ps) == empty_arena(),
    decreases ps.len(),
{
    if ps.len() == 0 {
        assert forall|k: int| 0 <= k < s.len() implies #[trigger] s[k].free by {
            if !s[k].free {
                assert(live_pointers(s).contains(s[k].start + 2));
                assert(!ps.contains(s[k].start + 2));
            }
        }
        lemma_all_free_is_empty(s);
    } else {
        let p = ps[0];
        assert(ps.contains(p));
        assert(live_pointers(s).contains(p));
        let j = block_of(s, p);
        lemma_free_live(s, j);
        let rest = ps.drop_first();
        assert forall|x: int| rest.to_set().contains(x) <==> ps.to_set().remove(p).contains(x) by {
            if rest.contains(x) {
                let i = choose|i: int| 0 <= i < rest.len() && rest[i] == x;
                assert(ps[i + 1] == x);
                assert(ps.contains(x));
            }
            if ps.contains(x) && x != p {
                let i = choose|i: int| 0 <= i < ps.len() && ps[i] == x;
                assert(i != 0);
                assert(rest[i - 1] == x);
            }
        }
        assert(rest.to_set() =~= ps.to_set().remove(p));
        lemma_free_all_is_new(after_free(s, j), rest);
    }
}

/// The blocks of a valid heap never overlap and stay inside the arena.
pub proof fn lemma_blocks_disjoint(s: Seq<Block>, a: int, b: int)
    requires
        valid_blocks(s),
        0 <= a < b < s.len(),
    ensures
        2 <= s[a].start,
        block_end(s[a]) <= s[b].start,
        block_end(s[b]) <= 0x10000,
{
    lemma_block_bounds(s, a);
    lemma_block_bounds(s, b);
}

/// Freeing a block writes nothing into the usable bytes of the blocks that
/// stay in use.
proof fn lemma_free_payloads(m: Seq<u8>, m2: Seq<u8>, s: Seq<Block>, j: int)
    requires
        heap_inv(m, s),
        0 <= j < s.len(),
        !s[j].free,
        free_done(m, m2, s, j),
    ensures
        payloads_kept(m, m2, after_free(s, j)),
{
    let lo = free_lo(s, j);
    let hi = free_hi(s, j);
    let a = s[lo].start;
    let b = block_end(s[hi]);
    let pj = last_free_before(s, j);
    let p = free_link_pos(s, j, pj);
    let t = after_free(s, j);
    let d = hi - lo;
    lemma_free_facts(s, j);
    if lo > 0 && lo == j - 1 && j >= 2 {
        assert(!(s[j - 2].free && s[j - 1].free));
    }
    if hi + 1 < s.len() && hi == j + 1 {
        assert(!(s[j + 1].free && s[j + 2].free));
    }
    lemma_merged_shape(s, lo, hi);
    assert forall|i: int| 0 <= i < m.len() && #[trigger] in_used_payload(t, i) implies m2[i] == m[i] by {
        let k = choose|k: int| 0 <= k < t.len() && !t[k].free && t[k].start + 2 <= i < block_end(t[k]);
        if k < lo {
            lemma_block_bounds(s, k);
            assert(block_end(s[k]) <= a);
            if lo == j && pj >= 0 {
                if k < pj {
                    assert(block_end(s[k]) <= s[pj].start);
                } else {
                    assert(k != pj);
                    assert(block_end(s[pj]) <= s[k].start);
                }
            }
        } else {
            assert(k > lo);
            lemma_block_bounds(s, k + d);
            assert(block_end(s[hi]) <= s[k + d].start);
        }
    }
}

/// Taking bytes from free block `j` writes nothing into the usable bytes
/// of the blocks in use afterwards, the one handed out included.
proof fn lemma_malloc_payloads(m: Seq<u8>, s: Seq<Block>, j: int, pj: int, n: int)
    requires
        heap_inv(m, s),
        0 <= j < s.len(),
        s[j].free,
        n >= 2,
        s[j].size >= n,
        -1 <= pj < j,
        pj >= 0 ==> s[pj].free,
    ensures
        s[j].size >= n + 4 ==> payloads_kept(m, split_bytes(m, s, j, pj, n), after_malloc(s, j, n)),
        s[j].size < n + 4 ==> payloads_kept(
            m,
            put_word(
                m,
                if pj < 0 {
                    0
                } else {
                    s[pj].start + 2
                },
                link(s, next_free(s, j + 1)),
            ),
            after_malloc(s, j, n),
        ),
{
    let t = after_malloc(s, j, n);
    let st = s[j].start;
    lemma_block_bounds(s, j);
    if pj >= 0 {
        lemma_block_bounds(s, pj);
        assert(block_end(s[pj]) <= st);
    }
    if s[j].size >= n + 4 {
        let m2 = split_bytes(m, s, j, pj, n);
        lemma_split_shape(s, j, n);
        assert forall|i: int| 0 <= i < m.len() && #[trigger] in_used_payload(t, i) implies m2[i] == m[i] by {
            let k = choose|k: int| 0 <= k < t.len() && !t[k].free && t[k].start + 2 <= i < block_end(t[k]);
            if k < j {
                lemma_block_bounds(s, k);
                assert(block_end(s[k]) <= st);
                if pj >= 0 && k < pj {
                    assert(block_end(s[k]) <= s[pj].start);
                } else if pj >= 0 {
                    assert(k != pj);
                    assert(block_end(s[pj]) <= s[k].start);
                }
            } else if k > j + 1 {
                lemma_block_bounds(s, k - 1);
                assert(block_end(s[j]) <= s[k - 1].start);
            }
        }
    } else {
        let p = if pj < 0 {
            0
        } else {
            s[pj].start + 2
        };
        let m2 = put_word(m, p, link(s, next_free(s, j + 1)));
        assert forall|i: int| 0 <= i < m.len() && #[trigger] in_used_payload(t, i) implies m2[i] == m[i] by {
            let k = choose|k: int| 0 <= k < t.len() && !t[k].free && t[k].start + 2 <= i < block_end(t[k]);
            lemma_block_bounds(s, k);
            if pj >= 0 && k < pj {
                assert(block_end(s[k]) <= s[pj].start);
            } else if pj >= 0 && k > pj {
                assert(block_end(s[pj]) <= s[k].start);
            }
        }
    }
}

} // verus!
