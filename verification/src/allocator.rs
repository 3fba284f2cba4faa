//! Model of a C-style allocator: it hands out opaque handles, remembers which
//! are live and how many bytes each one covers, and checks that every release
//! hits a live handle exactly once.  Arrays and stores carry their handle and
//! prove their bookkeeping against this state.

use vstd::prelude::*;

verus! {

/// Opaque reference to one allocation; the value `0` is the null sentinel,
/// distinct from every live allocation.
#[derive(Clone, Copy, PartialEq, Eq, Structural, Debug)]
pub struct Handle(pub usize);

impl Handle {
    /// True for the null sentinel, which stands for "no allocation".
    pub open spec fn spec_is_null(self) -> bool {
        self.0 == 0
    }

    #[verifier::when_used_as_spec(spec_is_null)]
    pub fn is_null(self) -> (r: bool)
        ensures
            r == self.spec_is_null(),
    {
        self.0 == 0
    }
}

/// The null sentinel handle.
pub fn null() -> (r: Handle)
    ensures
        r.is_null(),
{
    Handle(0)
}

/// The allocator signalled out of memory.
#[derive(Debug)]
pub struct Error;

#[derive(Clone, Copy)]
struct Block {
    live: bool,
    size: usize,
}

spec fn count_live(s: Seq<Block>) -> nat
    decreases s.len(),
{
    if s.len() == 0 {
        0
    } else {
        count_live(s.drop_last()) + if s.last().live {
            1nat
        } else {
            0nat
        }
    }
}

proof fn lemma_count_live_bound(s: Seq<Block>)
    ensures
        count_live(s) <= s.len(),
    decreases s.len(),
{
    if s.len() > 0 {
        lemma_count_live_bound(s.drop_last());
    }
}

proof fn lemma_count_live_push(s: Seq<Block>, b: Block)
    ensures
        count_live(s.push(b)) == count_live(s) + if b.live {
            1int
        } else {
            0int
        },
{
    assert(s.push(b).drop_last() =~= s);
}

proof fn lemma_count_live_update(s: Seq<Block>, i: int, b: Block)
    requires
        0 <= i < s.len(),
    ensures
        count_live(s.update(i, b)) == count_live(s) - (if s[i].live {
            1int
        } else {
            0int
        }) + (if b.live {
            1int
        } else {
            0int
        }),
    decreases s.len(),
{
    let t = s.update(i, b);
    if i == s.len() - 1 {
        assert(t.drop_last() =~= s.drop_last());
    } else {
        assert(t.drop_last() =~= s.drop_last().update(i, b));
        lemma_count_live_update(s.drop_last(), i, b);
    }
}

/// Allocator state: one block record per handle ever issued, plus the
/// zero-size policy chosen at construction.
pub struct Allocator {
    blocks: Vec<Block>,
    zst_elide: bool,
}

impl Allocator {
    /// Whether handle `h` refers to an allocation that has been issued and
    /// not yet released.
    pub closed spec fn live(self, h: Handle) -> bool {
        1 <= h.0 <= self.blocks@.len() && self.blocks@[h.0 - 1].live
    }

    /// Whether handle `h` has ever been issued by this allocator.  A released
    /// handle stays issued; handles are never reused.
    pub closed spec fn issued(self, h: Handle) -> bool {
        1 <= h.0 <= self.blocks@.len()
    }

    /// Size in bytes of the live allocation behind `h`.
    pub closed spec fn block_size(self, h: Handle) -> nat {
        if 1 <= h.0 <= self.blocks@.len() {
            self.blocks@[h.0 - 1].size as nat
        } else {
            0
        }
    }

    /// Number of allocations issued and not yet released.
    pub closed spec fn live_count(self) -> nat {
        count_live(self.blocks@)
    }

    /// The zero-size policy: when true, a request for zero bytes is answered
    /// with the null sentinel and no allocation; when false, even a zero-size
    /// request gets its own live handle.
    pub closed spec fn elides_zero(self) -> bool {
        self.zst_elide
    }

    /// Fresh allocator under the default policy: zero-size requests still
    /// allocate.
    pub fn new() -> (a: Allocator)
        ensures
            forall|h: Handle| !a.live(h),
            a.live_count() == 0,
            !a.elides_zero(),
    {
        Allocator { blocks: Vec::new(), zst_elide: false }
    }

    /// Fresh allocator with an explicit zero-size policy.
    pub fn with_policy(elide_zero: bool) -> (a: Allocator)
        ensures
            forall|h: Handle| !a.live(h),
            a.live_count() == 0,
            a.elides_zero() == elide_zero,
    {
        Allocator { blocks: Vec::new(), zst_elide: elide_zero }
    }

    /// Exact number of allocations still live, for leak accounting.
    pub fn count_live_handles(&self) -> (r: usize)
        ensures
            r == self.live_count(),
    {
        proof {
            lemma_count_live_bound(self.blocks@);
        }
        let mut n: usize = 0;
        let mut i: usize = 0;
        while i < self.blocks.len()
            invariant
                i <= self.blocks@.len(),
                n == count_live(self.blocks@.subrange(0, i as int)),
                n <= i,
            decreases self.blocks@.len() - i,
        {
            proof {
                lemma_count_live_push(
                    self.blocks@.subrange(0, i as int),
                    self.blocks@[i as int],
                );
                assert(self.blocks@.subrange(0, i as int).push(self.blocks@[i as int]) =~= self
                    .blocks@.subrange(0, i + 1));
            }
            if self.blocks[i].live {
                n = n + 1;
            }
            i = i + 1;
        }
        proof {
            assert(self.blocks@.subrange(0, self.blocks@.len() as int) =~= self.blocks@);
        }
        n
    }

    /// Acquire `sz` bytes.  In this model acquisition always succeeds; the
    /// `Result` mirrors the interface of a real allocator, whose null return
    /// would surface here as `Err`.
    pub fn malloc(&mut self, sz: usize) -> (r: Result<Handle, Error>)
        ensures
            r matches Ok(h) && alloc_step(*old(self), *final(self), h, sz as nat),
    {
        if self.zst_elide && sz == 0 {
            return Ok(Handle(0));
        }
        self.blocks.push(Block { live: true, size: sz });
        proof {
            lemma_count_live_push(old(self).blocks@, Block { live: true, size: sz });
        }
        Ok(Handle(self.blocks.len()))
    }

    /// Acquire `nm * sz` bytes of zeroed memory.  The zeroing itself is the
    /// caller's model to state: this allocator only tracks the block.
    pub fn calloc(&mut self, nm: usize, sz: usize) -> (r: Result<Handle, Error>)
        requires
            nm * sz <= usize::MAX,
        ensures
            r matches Ok(h) && alloc_step(*old(self), *final(self), h, (nm * sz) as nat),
    {
        self.malloc(nm * sz)
    }

    /// Release `h`.  The null sentinel is a no-op; any other handle must be
    /// live, so a second release of the same handle is a verification error.
    pub fn free(&mut self, h: Handle)
        requires
            h.is_null() || old(self).live(h),
        ensures
            free_step(*old(self), *final(self), h),
    {
        if h.0 == 0 {
            return ;
        }
        let idx = h.0 - 1;
        let mut b = self.blocks[idx];
        b.live = false;
        self.blocks[idx] = b;
        proof {
            lemma_count_live_update(old(self).blocks@, idx as int, b);
        }
    }

    /// Resize the allocation behind `h` to `sz` bytes.  A null `h` acts as a
    /// fresh acquisition; under the eliding policy a zero `sz` releases `h`
    /// and returns the null sentinel; otherwise the old handle dies and a new
    /// live handle of `sz` bytes replaces it.
    pub fn realloc(&mut self, h: Handle, sz: usize) -> (r: Result<Handle, Error>)
        requires
            h.is_null() || old(self).live(h),
        ensures
            r matches Ok(h2) && realloc_step(*old(self), *final(self), h, h2, sz as nat),
    {
        if h.0 == 0 {
            return self.malloc(sz);
        }
        if self.zst_elide && sz == 0 {
            self.free(h);
            return Ok(Handle(0));
        }
        proof {
            lemma_live_implies_issued(*old(self), h);
        }
        self.free(h);
        let r = self.malloc(sz);
        r
    }
}

/// What one successful acquisition of `sz` bytes does to the allocator: under
/// the eliding policy a zero-size request returns the null sentinel and
/// changes nothing; otherwise the returned handle is fresh, live and of size
/// `sz`, and every other handle is untouched.
pub open spec fn alloc_step(pre: Allocator, post: Allocator, h: Handle, sz: nat) -> bool {
    &&& post.elides_zero() == pre.elides_zero()
    &&& if pre.elides_zero() && sz == 0 {
        h.is_null() && post == pre
    } else {
        &&& !h.is_null()
        &&& !pre.issued(h)
        &&& !pre.live(h)
        &&& post.issued(h)
        &&& post.live(h)
        &&& post.block_size(h) == sz
        &&& forall|h2: Handle| h2 != h ==> post.issued(h2) == pre.issued(h2)
        &&& forall|h2: Handle| h2 != h ==> post.live(h2) == pre.live(h2)
        &&& forall|h2: Handle| h2 != h ==> post.block_size(h2) == pre.block_size(h2)
        &&& post.live_count() == pre.live_count() + 1
    }
}

/// A live handle was issued at some point.
pub broadcast proof fn lemma_live_implies_issued(a: Allocator, h: Handle)
    ensures
        #[trigger] a.live(h) ==> a.issued(h),
{
}

/// A live handle is never the null sentinel.
pub broadcast proof fn lemma_live_not_null(a: Allocator, h: Handle)
    ensures
        #[trigger] a.live(h) ==> !h.is_null(),
{
}

/// What releasing `h` does to the allocator: nothing for the null sentinel;
/// otherwise exactly the one live handle `h` dies.
pub open spec fn free_step(pre: Allocator, post: Allocator, h: Handle) -> bool {
    &&& post.elides_zero() == pre.elides_zero()
    &&& if h.is_null() {
        post == pre
    } else {
        &&& !post.live(h)
        &&& forall|h2: Handle| post.issued(h2) == pre.issued(h2)
        &&& forall|h2: Handle| h2 != h ==> post.live(h2) == pre.live(h2)
        &&& forall|h2: Handle| h2 != h ==> post.block_size(h2) == pre.block_size(h2)
        &&& post.live_count() == pre.live_count() - 1
    }
}

/// What resizing `h0` to `sz` bytes does: a fresh acquisition when `h0` is
/// null; a release under the eliding policy when `sz` is zero; otherwise the
/// old handle dies, a fresh one of size `sz` is issued, and the live count is
/// unchanged.
pub open spec fn realloc_step(
    pre: Allocator,
    post: Allocator,
    h0: Handle,
    h1: Handle,
    sz: nat,
) -> bool {
    &&& post.elides_zero() == pre.elides_zero()
    &&& if h0.is_null() {
        alloc_step(pre, post, h1, sz)
    } else if pre.elides_zero() && sz == 0 {
        h1.is_null() && free_step(pre, post, h0)
    } else {
        &&& !h1.is_null()
        &&& !pre.issued(h1)
        &&& !pre.live(h1)
        &&& post.issued(h1)
        &&& post.live(h1)
        &&& post.block_size(h1) == sz
        &&& h1 != h0
        &&& !post.live(h0)
        &&& forall|h2: Handle| h2 != h1 ==> post.issued(h2) == pre.issued(h2)
        &&& forall|h2: Handle| h2 != h0 && h2 != h1 ==> post.live(h2) == pre.live(h2)
        &&& forall|h2: Handle| h2 != h0 && h2 != h1 ==> post.block_size(h2) == pre.block_size(h2)
        &&& post.live_count() == pre.live_count()
    }
}

} // verus!
