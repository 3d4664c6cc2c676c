use vstd::prelude::*;
use vstd::pervasive::VecAdditionalExecFns;
use crate::device::{Device, DeviceKind, spec_recognizes, recognizes};
use crate::error::Error;
use crate::memory::{Memory, zero_bytes};

verus! {

/// The freshness of one device's copy of a tensor: the per-device
/// tri-state of the coherence table. A copy moves `Absent -> Stale ->
/// Fresh`, falls back from `Fresh` to `Stale` on a write elsewhere, and
/// never returns to `Absent` while the tensor lives.
#[derive(Clone, Copy, Debug, PartialEq, Eq, Structural)]
pub enum CopyState {
    /// No memory handle has been allocated on the device.
    Absent,
    /// A handle exists but its bytes are out of date.
    Stale,
    /// The copy is up to date and may be read without a transfer.
    Fresh,
}

/// One row of the coherence table: a device, the freshness of its copy,
/// and the memory handle holding that copy.
struct Entry {
    device: Device,
    fresh: bool,
    memory: Memory,
}

/// The product of a shape's dimensions, taken left to right.
pub open spec fn shape_product(s: Seq<usize>) -> int
    decreases s.len(),
{
    if s.len() == 0 {
        1
    } else {
        shape_product(s.drop_last()) * (s.last() as int)
    }
}

/// Whether one row of the table can serve as the transfer source for a
/// destination of kind `dk`: its copy is fresh and a direct route joins
/// the two kinds in at least one direction (destination pulls, or source
/// pushes).
spec fn usable(e: Entry, dk: DeviceKind) -> bool {
    e.fresh && (spec_recognizes(dk, e.device.kind()) || spec_recognizes(e.device.kind(), dk))
}

/// The transfer source a destination of kind `dk` would pull from: the
/// usable row whose device identity is lowest, so that route resolution
/// is deterministic when several fresh copies exist.
spec fn best_source(s: Seq<Entry>, dk: DeviceKind) -> Option<Device>
    decreases s.len(),
{
    if s.len() == 0 {
        None
    } else {
        let rest = best_source(s.drop_first(), dk);
        if !usable(s[0], dk) {
            rest
        } else {
            match rest {
                Option::None => Option::Some(s[0].device),
                Option::Some(b) => if s[0].device.spec_precedes(b) {
                    Option::Some(s[0].device)
                } else {
                    Option::Some(b)
                },
            }
        }
    }
}

/// A table none of whose rows can serve a destination of kind `dk`
/// yields no transfer source.
proof fn lemma_best_source_none(s: Seq<Entry>, dk: DeviceKind)
    requires
        forall|i: int| 0 <= i < s.len() ==> !usable(#[trigger] s[i], dk),
    ensures
        best_source(s, dk) is None,
    decreases s.len(),
{
    if s.len() > 0 {
        assert(forall|i: int|
            0 <= i < s.drop_first().len() ==> #[trigger] s.drop_first()[i] == s[i + 1]);
        lemma_best_source_none(s.drop_first(), dk);
    }
}

/// A table whose only usable row for kind `dk` is row `i` yields row
/// `i`'s device as the transfer source.
proof fn lemma_best_source_single(s: Seq<Entry>, dk: DeviceKind, i: int)
    requires
        0 <= i < s.len(),
        usable(s[i], dk),
        forall|j: int| 0 <= j < s.len() && j != i ==> !usable(#[trigger] s[j], dk),
    ensures
        best_source(s, dk) == Some(s[i].device),
    decreases s.len(),
{
    assert(forall|k: int|
        0 <= k < s.drop_first().len() ==> #[trigger] s.drop_first()[k] == s[k + 1]);
    if i == 0 {
        lemma_best_source_none(s.drop_first(), dk);
    } else {
        assert(!usable(s[0], dk));
        lemma_best_source_single(s.drop_first(), dk, i - 1);
    }
}

/// Law: a tensor with no fresh copy anywhere offers no transfer source
/// to any destination, whatever the routes: a read can then only fail
/// with `UninitializedMemory`, never with `NoMemoryTransferRoute`.
pub proof fn lemma_uninitialized_no_source(t: SharedTensor, d: Device)
    requires
        t.wf(),
        !t.initialized(),
    ensures
        t.source_of(d) is None,
{
    assert forall|i: int| 0 <= i < t.entries@.len() implies !usable(
        #[trigger] t.entries@[i],
        d.kind(),
    ) by {
        if t.entries@[i].fresh {
            t.lemma_idx_of(i);
            assert(t.state_of(t.entries@[i].device) == CopyState::Fresh);
        }
    }
    lemma_best_source_none(t.entries@, d.kind());
}

/// Law: a tensor on which every device's entry is absent — one never
/// written anywhere — holds no fresh copy, so a read or a read-write
/// access on it fails with `UninitializedMemory`.
pub proof fn lemma_absent_uninitialized(t: SharedTensor)
    requires
        forall|d: Device| #[trigger] t.state_of(d) == CopyState::Absent,
    ensures
        !t.initialized(),
{
    if t.initialized() {
        let d = choose|d: Device| t.state_of(d) == CopyState::Fresh;
        assert(t.state_of(d) == CopyState::Absent);
    }
}

/// Law: when no fresh copy sits on a kind with a direct route to or
/// from `d`'s kind, a read on `d` has no transfer source, so it fails
/// with `NoMemoryTransferRoute` and leaves the tensor untouched.
pub proof fn lemma_no_route_no_source(t: SharedTensor, d: Device)
    requires
        t.wf(),
        forall|d2: Device|
            #[trigger] t.state_of(d2) == CopyState::Fresh ==> !spec_recognizes(
                d.kind(),
                d2.kind(),
            ) && !spec_recognizes(d2.kind(), d.kind()),
    ensures
        t.source_of(d) is None,
{
    assert forall|i: int| 0 <= i < t.entries@.len() implies !usable(
        #[trigger] t.entries@[i],
        d.kind(),
    ) by {
        if t.entries@[i].fresh {
            t.lemma_idx_of(i);
            assert(t.state_of(t.entries@[i].device) == CopyState::Fresh);
        }
    }
    lemma_best_source_none(t.entries@, d.kind());
}

/// Law: when `d1` holds the only fresh copy and a direct route joins
/// `d1`'s kind and `d2`'s kind in at least one direction, `d1` is the
/// device a read on `d2` transfers from — so the bytes that arrive on
/// `d2` are exactly the bytes held on `d1`.
pub proof fn lemma_sole_fresh_source(t: SharedTensor, d1: Device, d2: Device)
    requires
        t.wf(),
        t.state_of(d1) == CopyState::Fresh,
        forall|d: Device| d != d1 ==> #[trigger] t.state_of(d) != CopyState::Fresh,
        spec_recognizes(d2.kind(), d1.kind()) || spec_recognizes(d1.kind(), d2.kind()),
    ensures
        t.source_of(d2) == Some(d1),
{
    let i = t.idx_of(d1);
    assert(0 <= i < t.entries@.len() && t.entries@[i].device == d1);
    assert(usable(t.entries@[i], d2.kind()));
    assert forall|j: int| 0 <= j < t.entries@.len() && j != i implies !usable(
        #[trigger] t.entries@[j],
        d2.kind(),
    ) by {
        if t.entries@[j].fresh {
            t.lemma_idx_of(j);
            assert(t.state_of(t.entries@[j].device) == CopyState::Fresh);
            assert(t.entries@[j].device != d1);
        }
    }
    lemma_best_source_single(t.entries@, d2.kind(), i);
}

/// The coherence engine: one logical buffer of bytes (one byte per
/// element) kept as zero-or-more per-device copies, each tagged fresh or
/// stale. Reads repair staleness with at most one direct transfer;
/// writes invalidate every other copy.
pub struct SharedTensor {
    shape: Vec<usize>,
    size: usize,
    entries: Vec<Entry>,
    /// The row of each allocated device, kept as a ghost mirror of the
    /// table so the model functions below are plain map lookups.
    index: Ghost<Map<Device, int>>,
    transfers: Ghost<nat>,
}

impl SharedTensor {
    /// The shape this tensor was created with.
    pub closed spec fn shape_spec(self) -> Seq<usize> {
        self.shape@
    }

    /// The logical size: the element count, which is also the byte size
    /// of every per-device copy.
    pub closed spec fn byte_size(self) -> nat {
        self.size as nat
    }

    /// How many byte transfers between devices this tensor has performed.
    pub closed spec fn transfer_count(self) -> nat {
        self.transfers@
    }

    /// Whether a memory handle has been allocated on `d`.
    pub closed spec fn is_allocated(self, d: Device) -> bool {
        self.index@.contains_key(d)
    }

    spec fn idx_of(self, d: Device) -> int {
        self.index@[d]
    }

    /// Whether `d` holds a fresh (up-to-date) copy.
    pub closed spec fn is_fresh(self, d: Device) -> bool {
        self.is_allocated(d) && self.entries@[self.idx_of(d)].fresh
    }

    /// The bytes of the copy on `d` (meaningful when `d` is allocated).
    pub closed spec fn bytes_of(self, d: Device) -> Seq<u8> {
        self.entries@[self.idx_of(d)].memory.bytes()
    }

    /// The freshness entry of `d` in the coherence table.
    pub open spec fn state_of(self, d: Device) -> CopyState {
        if !self.is_allocated(d) {
            CopyState::Absent
        } else if self.is_fresh(d) {
            CopyState::Fresh
        } else {
            CopyState::Stale
        }
    }

    /// Whether some device holds a fresh copy, i.e. whether the tensor
    /// has ever been written. While no copy is fresh, reading fails with
    /// `UninitializedMemory` rather than returning zeroed garbage.
    pub open spec fn initialized(self) -> bool {
        exists|d: Device| #[trigger] self.state_of(d) == CopyState::Fresh
    }

    /// Well-formedness of the coherence table: one row per device, every
    /// handle on the kind of its device and of the tensor's byte size,
    /// and the byte size equal to the shape's product.
    pub closed spec fn wf(self) -> bool {
        &&& self.size as int == shape_product(self.shape@)
        &&& forall|i: int|
            0 <= i < self.entries@.len() ==> (#[trigger] self.entries@[i]).memory.kind()
                == self.entries@[i].device.kind()
        &&& forall|i: int|
            0 <= i < self.entries@.len() ==> (#[trigger] self.entries@[i]).memory.bytes().len()
                == self.size
        &&& forall|i: int|
            0 <= i < self.entries@.len() ==> self.index@.contains_key(
                (#[trigger] self.entries@[i]).device,
            ) && self.index@[self.entries@[i].device] == i
        &&& forall|d: Device|
            #[trigger] self.index@.contains_key(d) ==> 0 <= self.index@[d]
                < self.entries@.len() && self.entries@[self.index@[d]].device == d
    }

    /// The row index the model assigns to the device of row `i` is `i`
    /// itself: the ghost index is a faithful mirror of the table.
    proof fn lemma_idx_of(self, i: int)
        requires
            self.wf(),
            0 <= i < self.entries@.len(),
        ensures
            self.is_allocated(self.entries@[i].device),
            self.idx_of(self.entries@[i].device) == i,
    {
        assert(self.index@.contains_key(self.entries@[i].device));
    }

    /// Creates a tensor of `shape`, with no copy on any device yet. The
    /// element count is the product of the dimensions, multiplied out
    /// left to right, and each partial product must fit in `usize`.
    pub fn new(shape: Vec<usize>) -> (t: SharedTensor)
        requires
            forall|i: int|
                0 <= i <= shape@.len() ==> #[trigger] shape_product(shape@.take(i)) <= usize::MAX,
        ensures
            t.wf(),
            t.shape_spec() == shape@,
            t.byte_size() == shape_product(shape@),
            forall|d: Device| #[trigger] t.state_of(d) == CopyState::Absent,
            t.transfer_count() == 0,
    {
        let mut size: usize = 1;
        let mut i: usize = 0;
        proof {
            assert(shape@.take(0) =~= Seq::<usize>::empty());
        }
        while i < shape.len()
            invariant
                i <= shape@.len(),
                size as int == shape_product(shape@.take(i as int)),
                forall|k: int|
                    0 <= k <= shape@.len() ==> #[trigger] shape_product(shape@.take(k))
                        <= usize::MAX,
            decreases shape@.len() - i,
        {
            let s = shape[i];
            proof {
                let pre = shape@.take(i as int);
                let ext = shape@.take(i as int + 1);
                assert(ext.drop_last() =~= pre);
                assert(ext.last() == shape@[i as int]);
                assert(shape_product(ext) == shape_product(pre) * (s as int));
                assert(shape_product(ext) <= usize::MAX);
                vstd::arithmetic::mul::lemma_mul_nonnegative(shape_product(pre), s as int);
            }
            size = size * s;
            i = i + 1;
        }
        proof {
            assert(shape@.take(shape@.len() as int) =~= shape@);
        }
        let t = SharedTensor {
            shape,
            size,
            entries: Vec::new(),
            index: Ghost(Map::empty()),
            transfers: Ghost(0),
        };
        proof {
            assert(forall|d: Device| !t.is_allocated(d));
        }
        t
    }

    /// The row holding `d`, if one exists.
    fn find(&self, d: &Device) -> (r: Option<usize>)
        ensures
            match r {
                Some(i) => i < self.entries@.len() && self.entries@[i as int].device == *d,
                None => forall|j: int|
                    0 <= j < self.entries@.len() ==> (#[trigger] self.entries@[j]).device != *d,
            },
    {
        let mut j: usize = 0;
        while j < self.entries.len()
            invariant
                j <= self.entries@.len(),
                forall|k: int| 0 <= k < j ==> (#[trigger] self.entries@[k]).device != *d,
            decreases self.entries@.len() - j,
        {
            let dv = self.entries[j].device;
            if dv == *d {
                return Some(j);
            }
            j = j + 1;
        }
        None
    }

    /// Marks row `i` as the sole fresh copy and every other row stale.
    fn set_sole_fresh(&mut self, i: usize)
        requires
            i < old(self).entries@.len(),
        ensures
            final(self).entries@.len() == old(self).entries@.len(),
            forall|j: int|
                0 <= j < old(self).entries@.len() ==> {
                    &&& (#[trigger] final(self).entries@[j]).device == old(self).entries@[j].device
                    &&& final(self).entries@[j].memory == old(self).entries@[j].memory
                    &&& final(self).entries@[j].fresh == (j == i as int)
                },
            final(self).shape == old(self).shape,
            final(self).size == old(self).size,
            final(self).index == old(self).index,
            final(self).transfers == old(self).transfers,
    {
        let mut j: usize = 0;
        while j < self.entries.len()
            invariant
                i < self.entries@.len(),
                j <= self.entries@.len(),
                self.entries@.len() == old(self).entries@.len(),
                forall|k: int|
                    0 <= k < self.entries@.len() ==> {
                        &&& (#[trigger] self.entries@[k]).device == old(self).entries@[k].device
                        &&& self.entries@[k].memory == old(self).entries@[k].memory
                    },
                forall|k: int|
                    0 <= k < j ==> (#[trigger] self.entries@[k]).fresh == (k == i as int),
                forall|k: int|
                    j <= k < self.entries@.len() ==> (#[trigger] self.entries@[k]).fresh == old(self).entries@[k].fresh,
                self.shape == old(self).shape,
                self.size == old(self).size,
                self.index == old(self).index,
                self.transfers == old(self).transfers,
            decreases self.entries@.len() - j,
        {
            let b = j == i;
            self.entries[j].fresh = b;
            j = j + 1;
        }
    }

    /// Allocates a handle for `d` if none exists, skips any freshness
    /// repair (the caller intends to overwrite the whole buffer), marks
    /// `d` the sole fresh copy and invalidates every other device's
    /// entry. Every other copy keeps its bytes; a handle allocated here
    /// starts zero-filled. These backends never refuse an allocation, so
    /// the operation always succeeds.
    pub fn write_only(&mut self, d: &Device) -> (r: Result<(), Error>)
        requires
            old(self).wf(),
        ensures
            final(self).wf(),
            r is Ok,
            final(self).shape_spec() == old(self).shape_spec(),
            final(self).byte_size() == old(self).byte_size(),
            final(self).transfer_count() == old(self).transfer_count(),
            final(self).state_of(*d) == CopyState::Fresh,
            final(self).bytes_of(*d) == if old(self).is_allocated(*d) {
                old(self).bytes_of(*d)
            } else {
                zero_bytes(old(self).byte_size())
            },
            forall|d2: Device|
                d2 != *d ==> #[trigger] final(self).state_of(d2) == (
                if old(self).state_of(d2) == CopyState::Absent {
                    CopyState::Absent
                } else {
                    CopyState::Stale
                }),
            forall|d2: Device|
                d2 != *d && old(self).is_allocated(d2) ==> #[trigger] final(self).bytes_of(d2)
                    == old(self).bytes_of(d2),
    {
        let found = self.find(d);
        let idx: usize;
        match found {
            Some(i) => {
                idx = i;
            },
            None => {
                idx = self.push_row(d);
            },
        }
        let ghost mid = *self;
        proof {
            mid.lemma_idx_of(idx as int);
        }
        self.set_sole_fresh(idx);
        proof {
            self.lemma_same_rows_public(mid, *old(self), *d, idx as int, found is Some);
        }
        Ok(())
    }

    /// Allocates a zero-filled handle for `d` of this tensor's byte size.
    fn allocate_row(&self, d: &Device) -> (m: Memory)
        ensures
            m.kind() == d.kind(),
            m.bytes() == zero_bytes(self.byte_size()),
    {
        d.allocate_memory(self.size).unwrap()
    }

    /// Appends a stale, zero-filled row for `d`, which must not yet be
    /// in the table, and returns its index.
    fn push_row(&mut self, d: &Device) -> (i: usize)
        requires
            old(self).wf(),
            forall|j: int|
                0 <= j < old(self).entries@.len() ==> (#[trigger] old(self).entries@[j]).device
                    != *d,
        ensures
            final(self).wf(),
            final(self).entries@.len() == old(self).entries@.len() + 1,
            i as int == old(self).entries@.len(),
            forall|j: int|
                0 <= j < old(self).entries@.len() ==> #[trigger] final(self).entries@[j] == old(
                    self,
                ).entries@[j],
            final(self).entries@[i as int].device == *d,
            final(self).entries@[i as int].fresh == false,
            final(self).entries@[i as int].memory.bytes() == zero_bytes(old(self).byte_size()),
            final(self).index@ == old(self).index@.insert(*d, i as int),
            final(self).shape == old(self).shape,
            final(self).size == old(self).size,
            final(self).transfers == old(self).transfers,
    {
        let m = self.allocate_row(d);
        self.entries.push(Entry { device: *d, fresh: false, memory: m });
        let i = self.entries.len() - 1;
        proof {
            self.index@ = self.index@.insert(*d, i as int);
        }
        proof {
            assert forall|j: int|
                0 <= j < self.entries@.len() implies self.index@.contains_key(
                (#[trigger] self.entries@[j]).device,
            ) && self.index@[self.entries@[j].device] == j by {
                if j < self.entries@.len() - 1 {
                    assert(self.entries@[j] == old(self).entries@[j]);
                    assert(old(self).index@.contains_key(old(self).entries@[j].device));
                    assert(self.entries@[j].device != *d);
                }
            }
            assert forall|d2: Device| #[trigger] self.index@.contains_key(d2) implies 0
                <= self.index@[d2] < self.entries@.len() && self.entries@[self.index@[d2]].device
                == d2 by {
                if d2 != *d {
                    assert(old(self).index@.contains_key(d2));
                }
            }
        }
        i
    }

    /// After `set_sole_fresh(idx)` on a table `mid` whose rows hold the
    /// same devices and bytes as `pre` (extended, when `d` was not yet
    /// allocated, by one zero-filled row for `d` at `idx`), the public
    /// coherence facts of `write_only` hold of `self`.
    proof fn lemma_same_rows_public(
        self,
        mid: SharedTensor,
        pre: SharedTensor,
        d: Device,
        idx: int,
        existed: bool,
    )
        requires
            pre.wf(),
            mid.wf(),
            0 <= idx < mid.entries@.len(),
            mid.entries@[idx].device == d,
            mid.size == pre.size,
            mid.shape == pre.shape,
            mid.transfers == pre.transfers,
            existed ==> mid.entries@ == pre.entries@ && mid.index == pre.index && 0 <= idx
                < pre.entries@.len() && pre.entries@[idx].device == d,
            !existed ==> {
                &&& idx == pre.entries@.len()
                &&& mid.entries@.len() == pre.entries@.len() + 1
                &&& forall|j: int|
                    0 <= j < pre.entries@.len() ==> #[trigger] mid.entries@[j] == pre.entries@[j]
                &&& mid.entries@[idx].memory.bytes() == zero_bytes(pre.byte_size())
                &&& mid.index@ == pre.index@.insert(d, idx)
                &&& !pre.is_allocated(d)
            },
            self.entries@.len() == mid.entries@.len(),
            forall|j: int|
                0 <= j < mid.entries@.len() ==> {
                    &&& (#[trigger] self.entries@[j]).device == mid.entries@[j].device
                    &&& self.entries@[j].memory == mid.entries@[j].memory
                    &&& self.entries@[j].fresh == (j == idx)
                },
            self.shape == mid.shape,
            self.size == mid.size,
            self.index == mid.index,
            self.transfers == mid.transfers,
        ensures
            self.wf(),
            self.shape_spec() == pre.shape_spec(),
            self.byte_size() == pre.byte_size(),
            self.transfer_count() == pre.transfer_count(),
            self.state_of(d) == CopyState::Fresh,
            self.bytes_of(d) == if pre.is_allocated(d) {
                pre.bytes_of(d)
            } else {
                zero_bytes(pre.byte_size())
            },
            forall|d2: Device|
                d2 != d ==> #[trigger] self.state_of(d2) == (if pre.state_of(d2)
                    == CopyState::Absent {
                    CopyState::Absent
                } else {
                    CopyState::Stale
                }),
            forall|d2: Device|
                d2 != d && pre.is_allocated(d2) ==> #[trigger] self.bytes_of(d2) == pre.bytes_of(
                    d2,
                ),
    {
        assert(self.wf());
        self.lemma_idx_of(idx);
        assert(self.state_of(d) == CopyState::Fresh);
        if existed {
            pre.lemma_idx_of(idx);
        }
        assert forall|d2: Device| d2 != d && pre.is_allocated(d2) implies (#[trigger] self.bytes_of(
            d2,
        )) == pre.bytes_of(d2) by {
            let j = pre.idx_of(d2);
            pre.lemma_idx_of(j);
            assert(self.entries@[j].device == d2);
            self.lemma_idx_of(j);
            assert(j != idx);
        }
        assert forall|d2: Device| d2 != d implies (#[trigger] self.state_of(d2)) == (
        if pre.state_of(d2) == CopyState::Absent {
            CopyState::Absent
        } else {
            CopyState::Stale
        }) by {
            if pre.is_allocated(d2) {
                let j = pre.idx_of(d2);
                pre.lemma_idx_of(j);
                assert(self.entries@[j].device == d2);
                self.lemma_idx_of(j);
                assert(j != idx);
            } else {
                assert(!self.is_allocated(d2));
            }
        }
    }

    /// The device a stale or absent copy on `d` would be repaired from:
    /// the fresh device of lowest identity whose kind has a direct route
    /// to or from `d`'s kind, or `None` when no fresh copy can reach `d`.
    pub closed spec fn source_of(self, d: Device) -> Option<Device> {
        best_source(self.entries@, d.kind())
    }

    /// Whether some copy is fresh, at runtime.
    fn any_fresh(&self) -> (r: bool)
        requires
            self.wf(),
        ensures
            r == self.initialized(),
    {
        let mut j: usize = 0;
        while j < self.entries.len()
            invariant
                self.wf(),
                j <= self.entries@.len(),
                forall|k: int| 0 <= k < j ==> !(#[trigger] self.entries@[k]).fresh,
            decreases self.entries@.len() - j,
        {
            if self.entries[j].fresh {
                proof {
                    self.lemma_idx_of(j as int);
                    assert(self.state_of(self.entries@[j as int].device) == CopyState::Fresh);
                }
                return true;
            }
            j = j + 1;
        }
        proof {
            if self.initialized() {
                let d = choose|d: Device| self.state_of(d) == CopyState::Fresh;
                let i = self.idx_of(d);
                assert(0 <= i < self.entries@.len() && self.entries@[i].device == d);
                assert(self.entries@[i].fresh);
            }
        }
        false
    }

    /// The row `source_of` names, if any.
    fn find_source(&self, dk: DeviceKind) -> (r: Option<usize>)
        ensures
            match r {
                Some(i) => i < self.entries@.len() && usable(self.entries@[i as int], dk)
                    && best_source(self.entries@, dk) == Some(self.entries@[i as int].device),
                None => best_source(self.entries@, dk) is None,
            },
    {
        let mut best: Option<usize> = None;
        let mut j: usize = self.entries.len();
        while j > 0
            invariant
                j <= self.entries@.len(),
                match best {
                    Some(i) => i < self.entries@.len() && usable(self.entries@[i as int], dk)
                        && best_source(self.entries@.skip(j as int), dk) == Some(
                        self.entries@[i as int].device,
                    ),
                    None => best_source(self.entries@.skip(j as int), dk) is None,
                },
            decreases j,
        {
            j = j - 1;
            proof {
                assert(self.entries@.skip(j as int).drop_first() =~= self.entries@.skip(
                    j as int + 1,
                ));
                assert(self.entries@.skip(j as int)[0] == self.entries@[j as int]);
            }
            let e_fresh = self.entries[j].fresh;
            let e_dev = self.entries[j].device;
            if e_fresh && (recognizes(dk, e_dev.device_kind()) || recognizes(
                e_dev.device_kind(),
                dk,
            )) {
                match best {
                    None => {
                        best = Some(j);
                    },
                    Some(bi) => {
                        let bdev = self.entries[bi].device;
                        if e_dev.precedes(&bdev) {
                            best = Some(j);
                        }
                    },
                }
            }
        }
        proof {
            assert(self.entries@.skip(0) =~= self.entries@);
        }
        best
    }

    /// After repairing row `idx` of `mid` (which is `pre`, possibly
    /// extended by one stale row for `d`) with fresh bytes, the public
    /// coherence facts of a read hold of `self`: `d` is fresh and every
    /// other device's entry and bytes are exactly as in `pre`.
    proof fn lemma_repair_public(
        self,
        mid: SharedTensor,
        pre: SharedTensor,
        d: Device,
        idx: int,
        existed: bool,
    )
        requires
            pre.wf(),
            mid.wf(),
            0 <= idx < mid.entries@.len(),
            mid.entries@[idx].device == d,
            mid.size == pre.size,
            mid.shape == pre.shape,
            existed ==> mid.entries@ == pre.entries@ && mid.index == pre.index,
            !existed ==> {
                &&& idx == pre.entries@.len()
                &&& mid.entries@.len() == pre.entries@.len() + 1
                &&& forall|j: int|
                    0 <= j < pre.entries@.len() ==> #[trigger] mid.entries@[j] == pre.entries@[j]
                &&& mid.index@ == pre.index@.insert(d, idx)
                &&& !pre.is_allocated(d)
            },
            self.entries@.len() == mid.entries@.len(),
            self.entries@[idx].device == d,
            self.entries@[idx].fresh == true,
            self.entries@[idx].memory.kind() == d.kind(),
            self.entries@[idx].memory.bytes().len() == pre.size,
            forall|j: int|
                0 <= j < mid.entries@.len() && j != idx ==> #[trigger] self.entries@[j]
                    == mid.entries@[j],
            self.shape == mid.shape,
            self.size == mid.size,
            self.index == mid.index,
        ensures
            self.wf(),
            self.state_of(d) == CopyState::Fresh,
            self.bytes_of(d) == self.entries@[idx].memory.bytes(),
            forall|d2: Device| d2 != d ==> #[trigger] self.state_of(d2) == pre.state_of(d2),
            forall|d2: Device|
                d2 != d && pre.is_allocated(d2) ==> #[trigger] self.bytes_of(d2) == pre.bytes_of(
                    d2,
                ),
    {
        assert(self.wf());
        self.lemma_idx_of(idx);
        assert forall|d2: Device| d2 != d && pre.is_allocated(d2) implies (#[trigger] self.bytes_of(
            d2,
        )) == pre.bytes_of(d2) by {
            let j = pre.idx_of(d2);
            pre.lemma_idx_of(j);
            assert(self.entries@[j].device == d2);
            self.lemma_idx_of(j);
            assert(j != idx);
        }
        assert forall|d2: Device| d2 != d implies (#[trigger] self.state_of(d2)) == pre.state_of(
            d2,
        ) by {
            if pre.is_allocated(d2) {
                let j = pre.idx_of(d2);
                pre.lemma_idx_of(j);
                assert(self.entries@[j].device == d2);
                self.lemma_idx_of(j);
                assert(j != idx);
                assert(self.entries@[j].fresh == pre.entries@[j].fresh);
            } else {
                assert(!self.is_allocated(d2));
            }
        }
    }

    /// Makes the copy on `d` fresh and readable, allocating the handle
    /// if absent and repairing staleness with exactly one direct
    /// transfer from the fresh device of lowest identity that has a
    /// route to or from `d`'s kind. A read never invalidates anyone: all
    /// other entries keep their state and their bytes. On a tensor with
    /// no fresh copy anywhere it fails with `UninitializedMemory`; when
    /// fresh copies exist but none can reach `d`, with
    /// `NoMemoryTransferRoute`. A failed call leaves the tensor exactly
    /// as it was, and a read of an already fresh copy does nothing at
    /// all.
    pub fn read(&mut self, d: &Device) -> (r: Result<(), Error>)
        requires
            old(self).wf(),
        ensures
            final(self).wf(),
            final(self).shape_spec() == old(self).shape_spec(),
            final(self).byte_size() == old(self).byte_size(),
            old(self).state_of(*d) == CopyState::Fresh ==> r == Ok::<(), Error>(()) && *final(self)
                == *old(self),
            old(self).state_of(*d) != CopyState::Fresh && !old(self).initialized() ==> r
                == Err::<(), Error>(Error::UninitializedMemory) && *final(self) == *old(self),
            old(self).state_of(*d) != CopyState::Fresh && old(self).initialized() && old(self).source_of(*d) is None ==> r == Err::<(), Error>(Error::NoMemoryTransferRoute)
                && *final(self) == *old(self),
            old(self).source_of(*d) matches Some(s) ==> old(self).state_of(*d)
                != CopyState::Fresh ==> {
                &&& r == Ok::<(), Error>(())
                &&& final(self).state_of(*d) == CopyState::Fresh
                &&& final(self).bytes_of(*d) == old(self).bytes_of(s)
                &&& final(self).transfer_count() == old(self).transfer_count() + 1
                &&& forall|d2: Device|
                    d2 != *d ==> #[trigger] final(self).state_of(d2) == old(self).state_of(d2)
                &&& forall|d2: Device|
                    d2 != *d && old(self).is_allocated(d2) ==> #[trigger] final(self).bytes_of(d2)
                        == old(self).bytes_of(d2)
            },
    {
        let found = self.find(d);
        if let Some(i) = found {
            if self.entries[i].fresh {
                proof {
                    self.lemma_idx_of(i as int);
                }
                return Ok(());
            }
        }
        proof {
            match found {
                Some(i) => {
                    self.lemma_idx_of(i as int);
                },
                None => {
                    assert(!self.is_allocated(*d));
                },
            }
            assert(self.state_of(*d) != CopyState::Fresh);
        }
        if !self.any_fresh() {
            proof {
                assert forall|i: int| 0 <= i < self.entries@.len() implies !usable(
                    #[trigger] self.entries@[i],
                    d.kind(),
                ) by {
                    if self.entries@[i].fresh {
                        self.lemma_idx_of(i);
                        assert(self.state_of(self.entries@[i].device) == CopyState::Fresh);
                    }
                }
                lemma_best_source_none(self.entries@, d.kind());
            }
            return Err(Error::UninitializedMemory);
        }
        let dk = d.device_kind();
        let src_opt = self.find_source(dk);
        let si = match src_opt {
            Some(si) => si,
            None => {
                return Err(Error::NoMemoryTransferRoute);
            },
        };
        let idx: usize = match found {
            Some(i) => i,
            None => self.push_row(d),
        };
        let ghost mid = *self;
        proof {
            assert(mid.wf());
            assert(mid.entries@[si as int] == old(self).entries@[si as int]);
            old(self).lemma_idx_of(si as int);
            assert(si != idx);
        }
        let src_dev = self.entries[si].device;
        let mut row = Entry {
            device: *d,
            fresh: true,
            memory: Memory::Native(crate::memory::NativeMemory::zeroed(0)),
        };
        self.entries.set_and_swap(idx, &mut row);
        let tr = if recognizes(dk, src_dev.device_kind()) {
            d.transfer_in(&mut row.memory, &src_dev, &self.entries[si].memory)
        } else {
            src_dev.transfer_out(&self.entries[si].memory, d, &mut row.memory)
        };
        proof {
            assert(tr is Ok);
            assert(row.memory.bytes() == old(self).bytes_of(src_dev));
        }
        let row2 = Entry { device: row.device, fresh: true, memory: row.memory };
        self.entries.set(idx, row2);
        self.transfers = Ghost(self.transfers@ + 1);
        proof {
            assert(self.entries@ =~= mid.entries@.update(idx as int, self.entries@[idx as int]));
            self.lemma_repair_public(mid, *old(self), *d, idx as int, found is Some);
        }
        Ok(())
    }

    /// The same freshness repair as `read`, for a caller who intends to
    /// mutate the returned copy: on success `d` additionally becomes the
    /// sole fresh copy and every other device's entry is invalidated,
    /// though every other copy keeps its bytes. Fails exactly as `read`
    /// does, leaving the tensor untouched.
    pub fn read_write(&mut self, d: &Device) -> (r: Result<(), Error>)
        requires
            old(self).wf(),
        ensures
            final(self).wf(),
            final(self).shape_spec() == old(self).shape_spec(),
            final(self).byte_size() == old(self).byte_size(),
            old(self).state_of(*d) == CopyState::Fresh ==> r == Ok::<(), Error>(()) && final(self).bytes_of(*d) == old(self).bytes_of(*d) && final(self).transfer_count() == old(self).transfer_count(),
            old(self).state_of(*d) != CopyState::Fresh && !old(self).initialized() ==> r
                == Err::<(), Error>(Error::UninitializedMemory) && *final(self) == *old(self),
            old(self).state_of(*d) != CopyState::Fresh && old(self).initialized() && old(self).source_of(*d) is None ==> r == Err::<(), Error>(Error::NoMemoryTransferRoute)
                && *final(self) == *old(self),
            old(self).source_of(*d) matches Some(s) ==> old(self).state_of(*d)
                != CopyState::Fresh ==> r == Ok::<(), Error>(()) && final(self).bytes_of(*d)
                == old(self).bytes_of(s) && final(self).transfer_count() == old(self).transfer_count() + 1,
            r is Ok ==> final(self).state_of(*d) == CopyState::Fresh && (forall|d2: Device|
                d2 != *d ==> #[trigger] final(self).state_of(d2) == (if old(self).state_of(d2)
                    == CopyState::Absent {
                    CopyState::Absent
                } else {
                    CopyState::Stale
                })) && (forall|d2: Device|
                d2 != *d && old(self).is_allocated(d2) ==> #[trigger] final(self).bytes_of(d2)
                    == old(self).bytes_of(d2)),
    {
        let r = self.read(d);
        if let Err(e) = r {
            return Err(e);
        }
        let ghost t1 = *self;
        let i = match self.find(d) {
            Some(i) => i,
            None => {
                proof {
                    let j = self.idx_of(*d);
                    assert(0 <= j < self.entries@.len() && self.entries@[j].device == *d);
                }
                vstd::pervasive::unreached()
            },
        };
        proof {
            t1.lemma_idx_of(i as int);
        }
        self.set_sole_fresh(i);
        proof {
            self.lemma_same_rows_public(t1, t1, *d, i as int, true);
            assert forall|d2: Device| d2 != *d implies (#[trigger] self.state_of(d2)) == (if old(
                self,
            ).state_of(d2) == CopyState::Absent {
                CopyState::Absent
            } else {
                CopyState::Stale
            }) by {
                assert(t1.state_of(d2) == old(self).state_of(d2));
            }
            assert forall|d2: Device| d2 != *d && old(self).is_allocated(d2) implies (
            #[trigger] self.bytes_of(d2)) == old(self).bytes_of(d2) by {
                assert(t1.state_of(d2) == old(self).state_of(d2));
                assert(t1.is_allocated(d2));
                assert(t1.bytes_of(d2) == old(self).bytes_of(d2));
            }
        }
        Ok(())
    }

    /// The freshness entry of `d` in the coherence table, at runtime.
    pub fn copy_state(&self, d: &Device) -> (s: CopyState)
        requires
            self.wf(),
        ensures
            s == self.state_of(*d),
    {
        match self.find(d) {
            None => CopyState::Absent,
            Some(i) => {
                proof {
                    self.lemma_idx_of(i as int);
                }
                if self.entries[i].fresh {
                    CopyState::Fresh
                } else {
                    CopyState::Stale
                }
            },
        }
    }

    /// A read-only view of the fresh copy on `d`: legal after a
    /// successful `read`, `read_write` or `write_only` on `d`.
    pub fn mem(&self, d: &Device) -> (m: &Memory)
        requires
            self.wf(),
            self.state_of(*d) == CopyState::Fresh,
        ensures
            m.kind() == d.kind(),
            m.bytes() == self.bytes_of(*d),
    {
        match self.find(d) {
            Some(i) => {
                proof {
                    self.lemma_idx_of(i as int);
                }
                &self.entries[i].memory
            },
            None => {
                proof {
                    let j = self.idx_of(*d);
                    assert(0 <= j < self.entries@.len() && self.entries@[j].device == *d);
                }
                vstd::pervasive::unreached()
            },
        }
    }

    /// A mutable view of the copy on `d`, legal only while `d` is the
    /// sole fresh copy — the single-writer discipline that `write_only`
    /// and `read_write` establish. Writing through the view changes only
    /// `d`'s bytes; every entry of the freshness table stays as it is.
    /// The caller must keep the handle's kind and size for the table to
    /// remain well formed.
    pub fn mut_mem(&mut self, d: &Device) -> (m: &mut Memory)
        requires
            old(self).wf(),
            old(self).state_of(*d) == CopyState::Fresh,
            forall|d2: Device| d2 != *d ==> #[trigger] old(self).state_of(d2) != CopyState::Fresh,
        ensures
            (*m).kind() == d.kind(),
            (*m).bytes() == old(self).bytes_of(*d),
            final(self).shape_spec() == old(self).shape_spec(),
            final(self).byte_size() == old(self).byte_size(),
            final(self).transfer_count() == old(self).transfer_count(),
            final(self).bytes_of(*d) == final(m).bytes(),
            forall|d2: Device| #[trigger] final(self).state_of(d2) == old(self).state_of(d2),
            forall|d2: Device|
                d2 != *d && old(self).is_allocated(d2) ==> #[trigger] final(self).bytes_of(d2)
                    == old(self).bytes_of(d2),
            final(m).kind() == d.kind() && final(m).bytes().len() == old(self).byte_size()
                ==> final(self).wf(),
    {
        match self.find(d) {
            Some(i) => {
                proof {
                    self.lemma_idx_of(i as int);
                }
                &mut self.entries[i].memory
            },
            None => {
                proof {
                    let j = self.idx_of(*d);
                    assert(0 <= j < self.entries@.len() && self.entries@[j].device == *d);
                }
                vstd::pervasive::unreached()
            },
        }
    }

    /// The logical size: the element count, which is also the byte size
    /// of every per-device copy.
    pub fn size(&self) -> (n: usize)
        ensures
            n as nat == self.byte_size(),
    {
        self.size
    }

    /// The shape this tensor was created with.
    pub fn shape(&self) -> (s: &Vec<usize>)
        ensures
            s@ == self.shape_spec(),
    {
        &self.shape
    }
}

} // verus!
