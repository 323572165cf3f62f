//! Captured screen frames: dimensions plus the memory-backed regions that the
//! compositor contributes, addressed by their index.

use vstd::prelude::*;
use vstd::set_lib::lemma_subset_equality;

pub mod capturer;

verus! {

/// One memory-backed region of a frame.
#[derive(Clone, Copy, Debug, PartialEq, Eq, Structural)]
pub struct Region {
    /// Position of the region within its frame.
    pub index: u32,
    /// Operating-system handle (file descriptor) backing the region.
    pub handle: i32,
    /// Size of the backing memory in bytes.
    pub byte_size: u32,
}

/// Mathematical model of a [`Frame`]: its metadata and its regions by index.
#[verifier::ext_equal]
pub struct FrameView {
    pub width: u32,
    pub height: u32,
    pub expected_region_count: u32,
    pub regions: Map<u32, Region>,
}

impl FrameView {
    /// The frame that every capture attempt starts from.
    pub open spec fn empty() -> FrameView {
        FrameView { width: 0, height: 0, expected_region_count: 0, regions: Map::empty() }
    }

    /// The frame after its metadata has been recorded.
    pub open spec fn with_metadata(self, width: u32, height: u32, num_objects: u32) -> FrameView {
        FrameView { width, height, expected_region_count: num_objects, ..self }
    }

    /// The frame after `region` has been recorded under its index.
    pub open spec fn with_region(self, region: Region) -> FrameView {
        FrameView { regions: self.regions.insert(region.index, region), ..self }
    }

    /// Every region is filed under its own index.
    pub open spec fn wf(self) -> bool {
        &&& self.regions.dom().finite()
        &&& forall|k: u32| #[trigger] self.regions.contains_key(k) ==> self.regions[k].index == k
    }

    /// The regions present are exactly those with an index below the expected count.
    pub open spec fn is_complete(self) -> bool {
        forall|k: u32| #[trigger] self.regions.contains_key(k) <==> k < self.expected_region_count
    }
}

/// No two regions of `s` share an index.
spec fn distinct_indices(s: Seq<Region>) -> bool {
    forall|i: int, j: int|
        0 <= i < s.len() && 0 <= j < s.len() && i != j ==> (#[trigger] s[i]).index != (#[trigger] s[j]).index
}

/// The regions of `s` filed by index; of two regions with one index the later one counts.
spec fn index_map(s: Seq<Region>) -> Map<u32, Region>
    decreases s.len(),
{
    if s.len() == 0 {
        Map::empty()
    } else {
        index_map(s.drop_last()).insert(s.last().index, s.last())
    }
}

/// Some region of `s` has index `k`.
spec fn has_index(s: Seq<Region>, k: u32) -> bool {
    exists|i: int| 0 <= i < s.len() && (#[trigger] s[i]).index == k
}

/// With distinct indices, `index_map` holds exactly the regions of the
/// sequence, each under its own index, and as many keys as the sequence is long.
proof fn lemma_index_map(s: Seq<Region>)
    requires
        distinct_indices(s),
    ensures
        forall|k: u32| #[trigger] index_map(s).contains_key(k) <==> has_index(s, k),
        forall|i: int| 0 <= i < s.len() ==> index_map(s)[(#[trigger] s[i]).index] == s[i],
        index_map(s).dom().finite(),
        index_map(s).dom().len() == s.len(),
    decreases s.len(),
{
    if s.len() > 0 {
        let t = s.drop_last();
        let x = s.last();
        assert(distinct_indices(t)) by {
            assert forall|i: int, j: int| 0 <= i < t.len() && 0 <= j < t.len() && i != j implies (#[trigger] t[i]).index != (#[trigger] t[j]).index by {
                assert(t[i] == s[i] && t[j] == s[j]);
            }
        }
        lemma_index_map(t);
        assert(!has_index(t, x.index)) by {
            if has_index(t, x.index) {
                let i = choose|i: int| 0 <= i < t.len() && (#[trigger] t[i]).index == x.index;
                assert(s[i] == t[i]);
                assert(s[s.len() - 1] == x);
            }
        }
        assert forall|k: u32| #[trigger] index_map(s).contains_key(k) <==> has_index(s, k) by {
            if has_index(s, k) {
                let i = choose|i: int| 0 <= i < s.len() && (#[trigger] s[i]).index == k;
                if i < t.len() {
                    assert(t[i] == s[i]);
                    assert(has_index(t, k));
                }
            }
            if index_map(s).contains_key(k) {
                if k == x.index {
                    assert(s[s.len() - 1].index == k);
                } else {
                    assert(has_index(t, k));
                    let i = choose|i: int| 0 <= i < t.len() && (#[trigger] t[i]).index == k;
                    assert(s[i] == t[i]);
                }
            }
        }
        assert forall|i: int| 0 <= i < s.len() implies index_map(s)[(#[trigger] s[i]).index] == s[i] by {
            if i < t.len() {
                assert(t[i] == s[i]);
                assert(s[s.len() - 1] == x);
                assert(s[i].index != x.index);
            }
        }
    }
}

/// With distinct indices, every region of `index_map` is filed under its own index.
proof fn lemma_wf(s: Seq<Region>)
    requires
        distinct_indices(s),
    ensures
        index_map(s).dom().finite(),
        forall|k: u32| #[trigger] index_map(s).contains_key(k) ==> index_map(s)[k].index == k,
{
    lemma_index_map(s);
    assert forall|k: u32| #[trigger] index_map(s).contains_key(k) implies index_map(s)[k].index == k by {
        let a = choose|a: int| 0 <= a < s.len() && (#[trigger] s[a]).index == k;
        assert(index_map(s)[s[a].index] == s[a]);
    }
}

/// The indices below `n` are `n` many.
pub proof fn lemma_indices_below(n: u32)
    ensures
        Set::new(|k: u32| k < n).finite(),
        Set::new(|k: u32| k < n).len() == n,
    decreases n,
{
    if n == 0 {
        assert(Set::new(|k: u32| k < n) =~= Set::<u32>::empty());
    } else {
        let m = (n - 1) as u32;
        lemma_indices_below(m);
        assert(Set::new(|k: u32| k < n) =~= Set::new(|k: u32| k < m).insert(m));
    }
}

/// A frame under construction or handed out for processing.
#[derive(Debug)]
pub struct Frame {
    width: u32,
    height: u32,
    expected_region_count: u32,
    regions: Vec<Region>,
}

impl View for Frame {
    type V = FrameView;

    closed spec fn view(&self) -> FrameView {
        FrameView {
            width: self.width,
            height: self.height,
            expected_region_count: self.expected_region_count,
            regions: index_map(self.regions@),
        }
    }
}

impl Default for Frame {
    /// An empty frame, as [`Frame::new`] makes it.
    fn default() -> (frame: Frame)
        ensures
            frame@ == FrameView::empty(),
            frame@.wf(),
    {
        Frame::new()
    }
}

impl Frame {
    #[verifier::type_invariant]
    spec fn inv(self) -> bool {
        distinct_indices(self.regions@)
    }

    /// An empty frame: no dimensions, no regions expected, none recorded.
    pub fn new() -> (frame: Frame)
        ensures
            frame@ == FrameView::empty(),
            frame@.wf(),
    {
        Frame { width: 0, height: 0, expected_region_count: 0, regions: Vec::new() }
    }

    /// Records the frame's dimensions and the number of regions to expect.
    pub fn set_metadata(&mut self, width: u32, height: u32, num_objects: u32)
        ensures
            final(self)@ == old(self)@.with_metadata(width, height, num_objects),
            final(self)@.wf(),
    {
        proof {
            use_type_invariant(&*self);
            lemma_index_map(self.regions@);
        }
        self.width = width;
        self.height = height;
        self.expected_region_count = num_objects;
    }

    /// Records a region under `index`, in place of any region recorded under
    /// that index before.
    pub fn set_object(&mut self, index: u32, fd: i32, size: u32)
        ensures
            final(self)@ == old(self)@.with_region(Region { index, handle: fd, byte_size: size }),
            final(self)@.wf(),
    {
        proof {
            use_type_invariant(&*self);
            lemma_index_map(self.regions@);
        }
        let region = Region { index, handle: fd, byte_size: size };
        let pos = self.position(index);
        match pos {
            Some(i) => {
                let ghost before = self.regions@;
                let mut regions: Vec<Region> = Vec::new();
                core::mem::swap(&mut self.regions, &mut regions);
                regions[i] = region;
                proof {
                    let after = regions@;
                    assert(after == before.update(i as int, region));
                    assert(distinct_indices(after)) by {
                        assert forall|a: int, b: int| 0 <= a < after.len() && 0 <= b < after.len() && a != b implies (#[trigger] after[a]).index != (#[trigger] after[b]).index by {
                            assert(after[a].index == before[a].index);
                            assert(after[b].index == before[b].index);
                        }
                    }
                    lemma_index_map(after);
                    assert forall|k: u32| #[trigger] index_map(after).contains_key(k) <==> index_map(before).insert(index, region).contains_key(k) by {
                        if has_index(after, k) {
                            let a = choose|a: int| 0 <= a < after.len() && (#[trigger] after[a]).index == k;
                            assert(before[a].index == k);
                        }
                        if has_index(before, k) {
                            let a = choose|a: int| 0 <= a < before.len() && (#[trigger] before[a]).index == k;
                            assert(after[a].index == k);
                        }
                        if k == index {
                            assert(after[i as int].index == k);
                        }
                    }
                    assert forall|k: u32| #[trigger] index_map(after).contains_key(k) implies index_map(after)[k] == index_map(before).insert(index, region)[k] by {
                        let a = choose|a: int| 0 <= a < after.len() && (#[trigger] after[a]).index == k;
                        assert(index_map(after)[after[a].index] == after[a]);
                        if a != i {
                            assert(after[a] == before[a]);
                            assert(before[a].index != before[i as int].index);
                        }
                    }
                    assert(index_map(after) =~= index_map(before).insert(index, region));
                    lemma_wf(after);
                }
                core::mem::swap(&mut self.regions, &mut regions);
            },
            None => {
                let ghost before = self.regions@;
                let mut regions: Vec<Region> = Vec::new();
                core::mem::swap(&mut self.regions, &mut regions);
                regions.push(region);
                proof {
                    let after = regions@;
                    assert(after.drop_last() == before);
                    assert(after.last() == region);
                    assert(distinct_indices(after)) by {
                        assert forall|a: int, b: int| 0 <= a < after.len() && 0 <= b < after.len() && a != b implies (#[trigger] after[a]).index != (#[trigger] after[b]).index by {
                            if a < before.len() {
                                assert(after[a] == before[a]);
                            }
                            if b < before.len() {
                                assert(after[b] == before[b]);
                            }
                        }
                    }
                    lemma_wf(after);
                }
                core::mem::swap(&mut self.regions, &mut regions);
            },
        }
    }

    /// Where the region with `index` is stored, if it has been recorded.
    fn position(&self, index: u32) -> (pos: Option<usize>)
        ensures
            match pos {
                Some(i) => i < self.regions@.len() && self.regions@[i as int].index == index,
                None => !has_index(self.regions@, index),
            },
    {
        let mut i: usize = 0;
        while i < self.regions.len()
            invariant
                i <= self.regions@.len(),
                forall|j: int| 0 <= j < i ==> (#[trigger] self.regions@[j]).index != index,
            decreases self.regions@.len() - i,
        {
            if self.regions[i].index == index {
                return Some(i);
            }
            i += 1;
        }
        None
    }

    /// Width of the frame in pixels, 0 until the metadata has arrived.
    pub fn width(&self) -> (w: u32)
        ensures
            w == self@.width,
    {
        self.width
    }

    /// Height of the frame in pixels, 0 until the metadata has arrived.
    pub fn height(&self) -> (h: u32)
        ensures
            h == self@.height,
    {
        self.height
    }

    /// Number of regions that the metadata announced, 0 until it has arrived.
    pub fn expected_region_count(&self) -> (n: u32)
        ensures
            n == self@.expected_region_count,
    {
        self.expected_region_count
    }

    /// The region recorded under `index`, if any.
    pub fn region(&self, index: u32) -> (found: Option<Region>)
        ensures
            found == (if self@.regions.contains_key(index) {
                Some(self@.regions[index])
            } else {
                None
            }),
            found matches Some(r) ==> r.index == index,
    {
        proof {
            use_type_invariant(self);
            lemma_index_map(self.regions@);
        }
        match self.position(index) {
            Some(i) => Some(self.regions[i]),
            None => None,
        }
    }

    /// Number of regions recorded so far.
    pub fn region_count(&self) -> (n: usize)
        ensures
            self@.regions.dom().finite(),
            n == self@.regions.dom().len(),
    {
        proof {
            use_type_invariant(self);
            lemma_index_map(self.regions@);
        }
        self.regions.len()
    }

    /// Whether exactly the announced regions are present: as many as the
    /// metadata expects, with the indices from 0 up to that count.
    pub fn is_complete(&self) -> (complete: bool)
        ensures
            complete == self@.is_complete(),
    {
        proof {
            use_type_invariant(self);
            lemma_index_map(self.regions@);
            lemma_indices_below(self.expected_region_count);
        }
        let ghost below = Set::new(|k: u32| k < self.expected_region_count);
        if self.regions.len() != self.expected_region_count as usize {
            proof {
                if self@.is_complete() {
                    assert(self@.regions.dom() =~= below);
                }
            }
            return false;
        }
        let mut i: usize = 0;
        while i < self.regions.len()
            invariant
                i <= self.regions@.len(),
                forall|j: int| 0 <= j < i ==> (#[trigger] self.regions@[j]).index < self.expected_region_count,
            decreases self.regions@.len() - i,
        {
            if self.regions[i].index >= self.expected_region_count {
                proof {
                    use_type_invariant(self);
                    lemma_index_map(self.regions@);
                    assert(has_index(self.regions@, self.regions@[i as int].index));
                    assert(self@.regions.contains_key(self.regions@[i as int].index));
                }
                return false;
            }
            i += 1;
        }
        proof {
            assert(self@.regions.dom().subset_of(below)) by {
                assert forall|k: u32| self@.regions.dom().contains(k) implies below.contains(k) by {
                    assert(self@.regions.contains_key(k));
                    let a = choose|a: int| 0 <= a < self.regions@.len() && (#[trigger] self.regions@[a]).index == k;
                }
            }
            lemma_subset_equality(self@.regions.dom(), below);
            assert forall|k: u32| #[trigger] self@.regions.contains_key(k) <==> k < self.expected_region_count by {
                assert(below.contains(k) <==> k < self.expected_region_count);
                assert(self@.regions.dom().contains(k) <==> below.contains(k));
            }
        }
        true
    }
}

} // verus!
