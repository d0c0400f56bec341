//! The tree of browsing contexts.
//!
//! The tree is stored as its preorder listing: a vector of pages, each tagged
//! with its depth.  The root sits at index 0 with depth 0, and every later
//! entry's depth exceeds 0 and exceeds its predecessor's by at most one.
//! Under that shape invariant the entries of a subtree form the contiguous
//! block from its root to the next entry of no greater depth, so preorder
//! traversal is a linear scan, and removal of a subtree splices out one
//! block.  Pipeline ids are unique across the tree.

use vstd::prelude::*;
use crate::page::Page;

verus! {

/// One entry of the preorder listing: a page at its depth in the tree.
#[derive(Clone, Debug)]
pub struct PageNode {
    /// Distance from the root; 0 exactly for the root.
    pub depth: u32,
    /// The page itself.
    pub page: Page,
}

/// The tree of pages, as its preorder listing.
#[derive(Clone, Debug)]
pub struct PageTree {
    pub pages: Vec<PageNode>,
}

/// The preorder listing encodes a tree: non-empty, rooted at depth 0, and
/// each step descends by at most one level and never back to the root.
pub open spec fn depths_wf(s: Seq<PageNode>) -> bool {
    &&& s.len() > 0
    &&& s[0].depth == 0
    &&& forall|k: int| 1 <= k < s.len() ==> 1 <= #[trigger] s[k].depth <= s[k - 1].depth + 1
}

/// No two pages share a pipeline id.
pub open spec fn ids_unique(s: Seq<PageNode>) -> bool {
    forall|i: int, j: int| 0 <= i < j < s.len()
        ==> #[trigger] s[i].page.id != #[trigger] s[j].page.id
}

/// Every page satisfies its own invariant.
pub open spec fn pages_wf(s: Seq<PageNode>) -> bool {
    forall|k: int| 0 <= k < s.len() ==> (#[trigger] s[k]).page.wf()
}

/// Index right after the subtree block that starts at `i`, scanning from `j`:
/// the first position at or after `j` whose depth does not exceed `d`.
pub open spec fn scan_end(s: Seq<PageNode>, d: u32, j: int) -> int
    decreases s.len() - j when 0 <= j <= s.len()
{
    if j >= s.len() {
        s.len() as int
    } else if s[j].depth <= d {
        j
    } else {
        scan_end(s, d, j + 1)
    }
}

/// Index right after the subtree block rooted at index `i`.
pub open spec fn spec_subtree_end(s: Seq<PageNode>, i: int) -> int
    recommends 0 <= i < s.len()
{
    scan_end(s, s[i].depth, i + 1)
}

/// The block `s`, with every depth lowered by `base` — the shape a removed
/// subtree has as a tree of its own.
pub open spec fn spec_rebase(s: Seq<PageNode>, base: u32) -> Seq<PageNode> {
    Seq::new(s.len(), |k: int| PageNode { depth: (s[k].depth - base) as u32, page: s[k].page })
}

/// What `scan_end` finds: everything strictly inside the scanned range is
/// deeper than `d`, and the end either is the listing's end or steps back to
/// depth `d` or less.
pub proof fn lemma_scan_end(s: Seq<PageNode>, d: u32, j: int)
    requires
        0 <= j <= s.len(),
    ensures
        j <= scan_end(s, d, j) <= s.len(),
        forall|k: int| j <= k < scan_end(s, d, j) ==> #[trigger] s[k].depth > d,
        scan_end(s, d, j) < s.len() ==> s[scan_end(s, d, j)].depth <= d,
    decreases s.len() - j,
{
    if j < s.len() && s[j].depth > d {
        lemma_scan_end(s, d, j + 1);
    }
}

/// `scan_end` is the only index consistent with its description: if all of
/// `[j, e)` is deeper than `d` and `e` is the end or steps back to `d` or
/// less, then `scan_end` is exactly `e`.
pub proof fn lemma_scan_end_unique(s: Seq<PageNode>, d: u32, j: int, e: int)
    requires
        0 <= j <= e <= s.len(),
        forall|k: int| j <= k < e ==> #[trigger] s[k].depth > d,
        e < s.len() ==> s[e].depth <= d,
    ensures
        scan_end(s, d, j) == e,
    decreases e - j,
{
    if j < e {
        lemma_scan_end_unique(s, d, j + 1, e);
    }
}

/// True when `i` is where preorder search first meets the pipeline id.
pub open spec fn first_match(s: Seq<PageNode>, id: u64, i: int) -> bool {
    &&& 0 <= i < s.len()
    &&& s[i].page.id == id
    &&& forall|k: int| 0 <= k < i ==> s[k].page.id != id
}

/// The listing with the page at index `i` replaced, at its depth.
pub open spec fn updated_at(s: Seq<PageNode>, i: int, p: Page) -> Seq<PageNode>
    recommends 0 <= i < s.len()
{
    s.update(i, PageNode { depth: s[i].depth, page: p })
}

/// Replacing one page — same pipeline id, still internally consistent —
/// preserves the tree invariant.
pub proof fn lemma_wf_update(s: Seq<PageNode>, i: int, p: Page)
    requires
        depths_wf(s),
        ids_unique(s),
        pages_wf(s),
        0 <= i < s.len(),
        p.id == s[i].page.id,
        p.wf(),
    ensures
        depths_wf(updated_at(s, i, p)),
        ids_unique(updated_at(s, i, p)),
        pages_wf(updated_at(s, i, p)),
{
    let s2 = updated_at(s, i, p);
    assert forall|k: int| 1 <= k < s2.len()
        implies 1 <= #[trigger] s2[k].depth <= s2[k - 1].depth + 1 by {
        assert(s2[k].depth == s[k].depth && s2[k - 1].depth == s[k - 1].depth);
    }
    assert forall|k: int, j: int| 0 <= k < j < s2.len()
        implies #[trigger] s2[k].page.id != #[trigger] s2[j].page.id by {
        assert(s2[k].page.id == s[k].page.id && s2[j].page.id == s[j].page.id);
    }
    assert forall|k: int| 0 <= k < s2.len() implies (#[trigger] s2[k]).page.wf() by {
        if k != i {
            assert(s2[k] == s[k]);
        }
    }
}

/// Splicing a subtree block out of a preorder listing leaves a preorder
/// listing: the entry after the block steps back at least as far as the
/// block's root did, so the junction still descends by at most one level.
proof fn lemma_splice_wf(s: Seq<PageNode>, i: int, e: int)
    requires
        depths_wf(s),
        ids_unique(s),
        pages_wf(s),
        1 <= i < e <= s.len(),
        forall|m: int| i < m < e ==> #[trigger] s[m].depth > s[i].depth,
        e < s.len() ==> s[e].depth <= s[i].depth,
    ensures
        ({
            let s2 = s.subrange(0, i) + s.subrange(e, s.len() as int);
            depths_wf(s2) && ids_unique(s2) && pages_wf(s2)
        }),
{
    let s2 = s.subrange(0, i) + s.subrange(e, s.len() as int);
    assert forall|m: int| 0 <= m < s2.len()
        implies #[trigger] s2[m] == s[if m < i { m } else { e + m - i }] by {}
    assert forall|m: int| 1 <= m < s2.len()
        implies 1 <= #[trigger] s2[m].depth <= s2[m - 1].depth + 1 by {
        if m < i {
        } else if m == i {
            assert(s2[m] == s[e + m - i]);
            assert(s2[m - 1] == s[m - 1]);
            assert(s[e].depth <= s[i].depth);
            assert(s[i].depth <= s[i - 1].depth + 1);
        } else {
            assert(s2[m] == s[e + m - i] && s2[m - 1] == s[e + m - 1 - i]);
        }
    }
}

/// A subtree block, rebased to its root's depth, is a preorder listing of its
/// own, with the same pages.
proof fn lemma_block_wf(s: Seq<PageNode>, i: int, e: int)
    requires
        depths_wf(s),
        ids_unique(s),
        pages_wf(s),
        0 <= i < e <= s.len(),
        forall|m: int| i < m < e ==> #[trigger] s[m].depth > s[i].depth,
    ensures
        ({
            let reb = spec_rebase(s.subrange(i, e), s[i].depth);
            depths_wf(reb) && ids_unique(reb) && pages_wf(reb)
        }),
{
    let block = s.subrange(i, e);
    let d = s[i].depth;
    let reb = spec_rebase(block, d);
    assert(reb[0].depth == 0);
    assert forall|m: int| 1 <= m < reb.len()
        implies 1 <= #[trigger] reb[m].depth <= reb[m - 1].depth + 1 by {
        assert(block[m].depth == s[i + m].depth && block[m - 1].depth == s[i + m - 1].depth);
        assert(s[i + m].depth > d);
        if m > 1 {
            assert(s[i + m - 1].depth > d);
        }
    }
    assert forall|m: int, n: int| 0 <= m < n < reb.len()
        implies #[trigger] reb[m].page.id != #[trigger] reb[n].page.id by {
        assert(reb[m].page == s[i + m].page && reb[n].page == s[i + n].page);
    }
    assert forall|m: int| 0 <= m < reb.len() implies (#[trigger] reb[m]).page.wf() by {
        assert(reb[m].page == s[i + m].page);
    }
}

/// Lowers every entry's depth by `base`, turning a detached subtree block
/// into a listing rooted at depth 0.
fn rebase_depths(block: &mut Vec<PageNode>, base: u32)
    requires
        forall|m: int| 0 <= m < old(block)@.len() ==> (#[trigger] old(block)@[m]).depth >= base,
    ensures
        final(block)@.len() == old(block)@.len(),
        forall|m: int| 0 <= m < old(block)@.len() ==> #[trigger] final(block)@[m] == (PageNode {
            depth: ((old(block)@[m].depth - base) as u32),
            page: old(block)@[m].page,
        }),
{
    let mut k: usize = 0;
    let n = block.len();
    while k < n
        invariant
            0 <= k <= n == old(block)@.len(),
            block@.len() == old(block)@.len(),
            forall|m: int| k <= m < old(block)@.len() ==> #[trigger] block@[m] == old(block)@[m],
            forall|m: int| 0 <= m < old(block)@.len() ==> (#[trigger] old(block)@[m]).depth >= base,
            forall|m: int| 0 <= m < k ==> #[trigger] block@[m] == (PageNode {
                depth: ((old(block)@[m].depth - base) as u32),
                page: old(block)@[m].page,
            }),
        decreases n - k,
    {
        let nd = block[k].depth - base;
        block[k].depth = nd;
        k = k + 1;
    }
}

impl PageTree {
    /// The tree's combined invariant: preorder shape, unique pipeline ids,
    /// and every page internally consistent.
    pub open spec fn wf(self) -> bool {
        &&& depths_wf(self.pages@)
        &&& ids_unique(self.pages@)
        &&& pages_wf(self.pages@)
    }

    /// Pipeline id of the tree's root page.
    pub open spec fn spec_root_id(self) -> u64
        recommends self.pages@.len() > 0
    {
        self.pages@[0].page.id
    }

    /// True when some page of the tree has the given pipeline id.
    pub open spec fn contains_id(self, id: u64) -> bool {
        exists|k: int| 0 <= k < self.pages@.len() && #[trigger] self.pages@[k].page.id == id
    }

    /// A tree of one page.
    pub fn new(root: Page) -> (t: PageTree)
        ensures
            t.pages@.len() == 1,
            t.pages@[0].depth == 0,
            t.pages@[0].page == root,
            root.wf() ==> t.wf(),
    {
        let mut pages: Vec<PageNode> = Vec::new();
        pages.push(PageNode { depth: 0, page: root });
        PageTree { pages }
    }

    /// Number of pages in the tree.
    pub fn len(&self) -> (n: usize)
        ensures
            n == self.pages@.len(),
    {
        self.pages.len()
    }

    /// Preorder search for the page with the given pipeline id, as the index
    /// of its entry in the listing.
    pub fn find(&self, id: u64) -> (r: Option<usize>)
        ensures
            r matches Some(i) ==> {
                &&& 0 <= i < self.pages@.len()
                &&& self.pages@[i as int].page.id == id
                &&& forall|k: int| 0 <= k < i ==> #[trigger] self.pages@[k].page.id != id
            },
            r is None ==> !self.contains_id(id),
    {
        let mut i: usize = 0;
        while i < self.pages.len()
            invariant
                0 <= i <= self.pages@.len(),
                forall|k: int| 0 <= k < i ==> #[trigger] self.pages@[k].page.id != id,
            decreases self.pages@.len() - i,
        {
            if self.pages[i].page.id == id {
                return Some(i);
            }
            i = i + 1;
        }
        None
    }

    /// Index right after the subtree block rooted at index `i`.
    pub fn subtree_end(&self, i: usize) -> (e: usize)
        requires
            i < self.pages@.len(),
        ensures
            e == spec_subtree_end(self.pages@, i as int),
            i < e <= self.pages@.len(),
    {
        let n = self.pages.len();
        let d = self.pages[i].depth;
        let mut j: usize = i + 1;
        while j < n
            invariant
                n == self.pages@.len(),
                i < j <= self.pages@.len(),
                d == self.pages@[i as int].depth,
                forall|k: int| i < k < j ==> #[trigger] self.pages@[k].depth > d,
            decreases self.pages@.len() - j,
        {
            if self.pages[j].depth <= d {
                proof {
                    lemma_scan_end_unique(self.pages@, d, i as int + 1, j as int);
                }
                return j;
            }
            j = j + 1;
        }
        proof {
            lemma_scan_end_unique(self.pages@, d, i as int + 1, self.pages@.len() as int);
        }
        j
    }

    /// The pipeline ids of the whole tree, in preorder.
    pub fn preorder_ids(&self) -> (ids: Vec<u64>)
        ensures
            ids@.len() == self.pages@.len(),
            forall|k: int| 0 <= k < ids@.len() ==> ids@[k] == self.pages@[k].page.id,
    {
        let mut ids: Vec<u64> = Vec::new();
        let mut i: usize = 0;
        while i < self.pages.len()
            invariant
                0 <= i <= self.pages@.len(),
                ids@.len() == i,
                forall|k: int| 0 <= k < i ==> ids@[k] == self.pages@[k].page.id,
            decreases self.pages@.len() - i,
        {
            ids.push(self.pages[i].page.id);
            i = i + 1;
        }
        ids
    }

    /// Inserts a new child of the page at index `parent`, as its last child:
    /// its entry goes right after the parent's current subtree block, one
    /// level deeper.
    pub fn attach(&mut self, parent: usize, page: Page)
        requires
            old(self).wf(),
            parent < old(self).pages@.len(),
            old(self).pages@[parent as int].depth < u32::MAX,
            !old(self).contains_id(page.id),
            page.wf(),
        ensures
            final(self).pages@ == old(self).pages@.insert(
                spec_subtree_end(old(self).pages@, parent as int),
                (PageNode {
                    depth: (old(self).pages@[parent as int].depth + 1) as u32,
                    page,
                }),
            ),
            final(self).wf(),
    {
        let d = self.pages[parent].depth;
        let e = self.subtree_end(parent);
        proof {
            lemma_scan_end(self.pages@, d, parent as int + 1);
        }
        let node = PageNode { depth: d + 1, page };
        self.pages.insert(e, node);
        proof {
            let s = old(self).pages@;
            let s2 = self.pages@;
            let ei = spec_subtree_end(s, parent as int);
            assert forall|k: int| 1 <= k < s2.len()
                implies 1 <= #[trigger] s2[k].depth <= s2[k - 1].depth + 1 by {
                if k < ei {
                } else if k == ei {
                    // the new entry: one deeper than the parent, whose depth
                    // bounds its whole subtree block from below
                    if k - 1 > parent as int {
                        assert(s[k - 1].depth > d);
                    }
                } else if k == ei + 1 {
                    // the old entry at the junction steps down to depth <= d
                    assert(s2[k] == s[k - 1]);
                } else {
                    assert(s2[k] == s[k - 1]);
                    assert(s2[k - 1] == s[k - 2]);
                }
            }
            assert(ids_unique(s2)) by {
                assert forall|i: int, j: int| 0 <= i < j < s2.len()
                    implies #[trigger] s2[i].page.id != #[trigger] s2[j].page.id by {
                    if i != ei && j != ei {
                        let i0: int = if i < ei { i } else { i - 1 };
                        let j0: int = if j < ei { j } else { j - 1 };
                        assert(s2[i] == s[i0] && s2[j] == s[j0]);
                    } else if i == ei {
                        assert(s2[j] == s[j - 1]);
                    } else {
                        assert(s2[i] == s[if i < ei { i } else { i - 1 }]);
                    }
                }
            }
            assert(pages_wf(s2)) by {
                assert forall|k: int| 0 <= k < s2.len() implies (#[trigger] s2[k]).page.wf() by {
                    if k != ei {
                        assert(s2[k] == s[if k < ei { k } else { k - 1 }]);
                    }
                }
            }
        }
    }

    /// Removes and returns the first matching non-root descendant's whole
    /// subtree, by preorder search; the root is never matched.  An id the
    /// tree does not hold below the root is a no-op answered with `None`.
    pub fn remove(&mut self, id: u64) -> (r: Option<PageTree>)
        requires
            old(self).wf(),
        ensures
            (forall|k: int| 1 <= k < old(self).pages@.len()
                ==> #[trigger] old(self).pages@[k].page.id != id)
                ==> r is None && *final(self) == *old(self),
            (exists|k: int| 1 <= k < old(self).pages@.len()
                && #[trigger] old(self).pages@[k].page.id == id)
                ==> (r matches Some(sub) && exists|i: int| #![trigger old(self).pages@[i]] {
                    let s = old(self).pages@;
                    let e = spec_subtree_end(s, i);
                    &&& 1 <= i < s.len()
                    &&& s[i].page.id == id
                    &&& (forall|k: int| 1 <= k < i ==> #[trigger] s[k].page.id != id)
                    &&& final(self).pages@ == s.subrange(0, i) + s.subrange(e, s.len() as int)
                    &&& sub.pages@ == spec_rebase(s.subrange(i, e), s[i].depth)
                }),
            final(self).wf(),
            r matches Some(sub) ==> sub.wf(),
    {
        let ghost s = self.pages@;
        let mut i: usize = 1;
        loop
            invariant
                1 <= i <= s.len(),
                self.pages@ == s,
                depths_wf(s),
                ids_unique(s),
                pages_wf(s),
                forall|k: int| 1 <= k < i ==> #[trigger] s[k].page.id != id,
            ensures
                self.pages@ == s,
                i < s.len(),
                s[i as int].page.id == id,
                forall|k: int| 1 <= k < i ==> #[trigger] s[k].page.id != id,
            decreases s.len() - i,
        {
            if i >= self.pages.len() {
                return None;
            }
            if self.pages[i].page.id == id {
                break;
            }
            i = i + 1;
        }
        let d = self.pages[i].depth;
        let e = self.subtree_end(i);
        proof {
            lemma_scan_end(s, d, i as int + 1);
        }
        // splice the block [i, e) out of the listing
        let mut tail = self.pages.split_off(i);
        let mut rest = tail.split_off(e - i);
        self.pages.append(&mut rest);
        proof {
            assert(tail@ =~= s.subrange(i as int, e as int));
            assert(self.pages@ =~= s.subrange(0, i as int) + s.subrange(e as int, s.len() as int));
        }
        // the block, rebased, is a tree of its own
        proof {
            assert forall|m: int| 0 <= m < tail@.len() implies (#[trigger] tail@[m]).depth >= d by {
                assert(tail@[m] == s[i + m]);
            }
        }
        rebase_depths(&mut tail, d);
        let sub = PageTree { pages: tail };
        proof {
            let block = s.subrange(i as int, e as int);
            let reb = spec_rebase(block, d);
            assert forall|m: int| 0 <= m < reb.len() implies sub.pages@[m] == reb[m] by {
                assert(block[m] == s[i + m]);
            }
            assert(sub.pages@ =~= reb);
            lemma_splice_wf(s, i as int, e as int);
            lemma_block_wf(s, i as int, e as int);
            assert(s[i as int].page.id == id);
        }
        Some(sub)
    }
}

} // verus!
