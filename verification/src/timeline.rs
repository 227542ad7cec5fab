//! A sparse timeline: an ordered map from frame numbers to values, with the
//! two range queries that resolution needs, the nearest entry at or before a
//! frame and the nearest entry after it.
//!
//! The entries are kept in a vector sorted by frame and found by binary
//! search.
use vstd::prelude::*;

verus! {

/// The greatest key at or before `frame`, if there is one.
pub open spec fn floor_key(keys: Set<u32>, frame: u32) -> Option<u32>
    decreases frame,
{
    if keys.contains(frame) {
        Some(frame)
    } else if frame == 0 {
        None
    } else {
        floor_key(keys, (frame - 1) as u32)
    }
}

/// The smallest key after `frame`, if there is one.
pub open spec fn next_key(keys: Set<u32>, frame: u32) -> Option<u32>
    decreases u32::MAX - frame,
{
    if frame == u32::MAX {
        None
    } else if keys.contains((frame + 1) as u32) {
        Some((frame + 1) as u32)
    } else {
        next_key(keys, (frame + 1) as u32)
    }
}

/// The smallest key of all, if there is one.
pub open spec fn first_key(keys: Set<u32>) -> Option<u32> {
    if keys.contains(0) {
        Some(0u32)
    } else {
        next_key(keys, 0)
    }
}

/// `floor_key` finds `k` exactly when `k` is a key at or before `frame`
/// and no key lies strictly between them.
pub proof fn lemma_floor_key_some(keys: Set<u32>, frame: u32, k: u32)
    requires
        keys.contains(k),
        k <= frame,
        forall|j: u32| k < j <= frame ==> !keys.contains(j),
    ensures
        floor_key(keys, frame) == Some(k),
    decreases frame,
{
    if frame != k {
        lemma_floor_key_some(keys, (frame - 1) as u32, k);
    }
}

/// `floor_key` finds nothing exactly when no key is at or before `frame`.
pub proof fn lemma_floor_key_none(keys: Set<u32>, frame: u32)
    requires
        forall|j: u32| j <= frame ==> !keys.contains(j),
    ensures
        floor_key(keys, frame) is None,
    decreases frame,
{
    if frame != 0 {
        lemma_floor_key_none(keys, (frame - 1) as u32);
    }
}

/// What `floor_key` returns is the greatest key at or before `frame`.
pub proof fn lemma_floor_key_is_greatest(keys: Set<u32>, frame: u32)
    ensures
        match floor_key(keys, frame) {
            Some(k) => keys.contains(k) && k <= frame && forall|j: u32|
                k < j <= frame ==> !keys.contains(j),
            None => forall|j: u32| j <= frame ==> !keys.contains(j),
        },
    decreases frame,
{
    if !keys.contains(frame) && frame != 0 {
        lemma_floor_key_is_greatest(keys, (frame - 1) as u32);
    }
}

/// `next_key` finds `k` exactly when `k` is a key after `frame` and no key
/// lies strictly between them.
pub proof fn lemma_next_key_some(keys: Set<u32>, frame: u32, k: u32)
    requires
        keys.contains(k),
        frame < k,
        forall|j: u32| frame < j < k ==> !keys.contains(j),
    ensures
        next_key(keys, frame) == Some(k),
    decreases u32::MAX - frame,
{
    if frame + 1 != k {
        lemma_next_key_some(keys, (frame + 1) as u32, k);
    }
}

/// `next_key` finds nothing exactly when no key is after `frame`.
pub proof fn lemma_next_key_none(keys: Set<u32>, frame: u32)
    requires
        forall|j: u32| frame < j ==> !keys.contains(j),
    ensures
        next_key(keys, frame) is None,
    decreases u32::MAX - frame,
{
    if frame != u32::MAX {
        lemma_next_key_none(keys, (frame + 1) as u32);
    }
}

/// What `next_key` returns is the smallest key after `frame`.
pub proof fn lemma_next_key_is_smallest(keys: Set<u32>, frame: u32)
    ensures
        match next_key(keys, frame) {
            Some(k) => keys.contains(k) && frame < k && forall|j: u32|
                frame < j < k ==> !keys.contains(j),
            None => forall|j: u32| frame < j ==> !keys.contains(j),
        },
    decreases u32::MAX - frame,
{
    if frame != u32::MAX && !keys.contains((frame + 1) as u32) {
        lemma_next_key_is_smallest(keys, (frame + 1) as u32);
    }
}

/// One entry of a timeline.
struct Entry<T> {
    frame: u32,
    value: T,
}

/// An ordered map from frame numbers to values.
pub struct Timeline<T> {
    entries: Vec<Entry<T>>,
}

/// The frames of `entries` increase strictly.
spec fn increasing<T>(entries: Seq<Entry<T>>) -> bool {
    forall|i: int, j: int| 0 <= i < j < entries.len() ==> entries[i].frame < entries[j].frame
}

/// Whether some entry of `entries` is at `frame`.
spec fn has_frame<T>(entries: Seq<Entry<T>>, frame: u32) -> bool {
    exists|i: int| 0 <= i < entries.len() && #[trigger] entries[i].frame == frame
}

/// The position of the entry at `frame`.
spec fn position_of<T>(entries: Seq<Entry<T>>, frame: u32) -> int {
    choose|i: int| 0 <= i < entries.len() && #[trigger] entries[i].frame == frame
}

/// The map that a list of entries stands for.
spec fn entries_map<T>(entries: Seq<Entry<T>>) -> Map<u32, T> {
    Map::new(
        |frame: u32| has_frame(entries, frame),
        |frame: u32| entries[position_of(entries, frame)].value,
    )
}

impl<T> View for Timeline<T> {
    type V = Map<u32, T>;

    closed spec fn view(&self) -> Map<u32, T> {
        entries_map(self.entries@)
    }
}

impl<T> Timeline<T> {
    /// The entries are sorted by frame, and no frame occurs twice.
    #[verifier::type_invariant]
    pub closed spec fn well_formed(&self) -> bool {
        increasing(self.entries@)
    }

    /// A timeline without entries.
    pub fn new() -> (r: Self)
        ensures
            r@ == Map::<u32, T>::empty(),
            r.well_formed(),
    {
        let r = Timeline { entries: Vec::new() };
        assert(r@ =~= Map::<u32, T>::empty());
        r
    }

    /// The number of entries whose frame is below `frame`.
    fn lower_bound(&self, frame: u32) -> (idx: usize)
        ensures
            idx <= self.entries.len(),
            forall|i: int| 0 <= i < idx ==> self.entries[i].frame < frame,
            forall|i: int| idx <= i < self.entries.len() ==> self.entries[i].frame >= frame,
    {
        proof {
            use_type_invariant(self);
        }
        let mut lo: usize = 0;
        let mut hi: usize = self.entries.len();
        while lo < hi
            invariant
                lo <= hi <= self.entries.len(),
                increasing(self.entries@),
                forall|i: int| 0 <= i < lo ==> self.entries[i].frame < frame,
                forall|i: int| hi <= i < self.entries.len() ==> self.entries[i].frame >= frame,
            decreases hi - lo,
        {
            let mid: usize = lo + (hi - lo) / 2;
            if self.entries[mid].frame < frame {
                lo = mid + 1;
            } else {
                hi = mid;
            }
        }
        lo
    }

    /// The number of entries.
    pub fn len(&self) -> (n: usize)
        ensures
            self@.dom().finite(),
            n == self@.dom().len(),
    {
        proof {
            use_type_invariant(self);
            lemma_dom_len(self.entries@);
        }
        self.entries.len()
    }

    /// Whether the timeline has no entry.
    pub fn is_empty(&self) -> (r: bool)
        ensures
            r <==> self@.dom() =~= Set::<u32>::empty(),
    {
        proof {
            use_type_invariant(self);
            lemma_dom_len(self.entries@);
            if self.entries.len() > 0 {
                lemma_entry_in_map(self.entries@, 0);
            }
        }
        self.entries.len() == 0
    }

    /// The entry with the greatest frame at or before `frame`.
    pub fn predecessor(&self, frame: u32) -> (r: Option<(u32, &T)>)
        ensures
            match r {
                Some((k, value)) => floor_key(self@.dom(), frame) == Some(k) && *value == self@[k],
                None => floor_key(self@.dom(), frame) is None,
            },
    {
        proof {
            use_type_invariant(self);
        }
        let upper: usize = if frame == u32::MAX {
            self.entries.len()
        } else {
            self.lower_bound(frame + 1)
        };
        if upper == 0 {
            proof {
                assert forall|j: u32| j <= frame implies !self@.dom().contains(j) by {
                    lemma_gap(self.entries@, 0, j);
                }
                lemma_floor_key_none(self@.dom(), frame);
            }
            None
        } else {
            let entry = &self.entries[upper - 1];
            proof {
                lemma_entry_in_map(self.entries@, upper - 1);
                assert forall|j: u32| entry.frame < j <= frame implies !self@.dom().contains(
                    j,
                ) by {
                    lemma_gap(self.entries@, upper as int, j);
                }
                lemma_floor_key_some(self@.dom(), frame, entry.frame);
            }
            Some((entry.frame, &entry.value))
        }
    }

    /// The entry with the smallest frame after `frame`.
    pub fn successor(&self, frame: u32) -> (r: Option<(u32, &T)>)
        ensures
            match r {
                Some((k, value)) => next_key(self@.dom(), frame) == Some(k) && *value == self@[k],
                None => next_key(self@.dom(), frame) is None,
            },
    {
        proof {
            use_type_invariant(self);
        }
        if frame == u32::MAX {
            return None;
        }
        let idx = self.lower_bound(frame + 1);
        if idx < self.entries.len() {
            let entry = &self.entries[idx];
            proof {
                lemma_entry_in_map(self.entries@, idx as int);
                assert forall|j: u32| frame < j < entry.frame implies !self@.dom().contains(
                    j,
                ) by {
                    lemma_gap(self.entries@, idx as int, j);
                }
                lemma_next_key_some(self@.dom(), frame, entry.frame);
            }
            Some((entry.frame, &entry.value))
        } else {
            proof {
                assert forall|j: u32| frame < j implies !self@.dom().contains(j) by {
                    lemma_gap(self.entries@, idx as int, j);
                }
                lemma_next_key_none(self@.dom(), frame);
            }
            None
        }
    }

    /// The entry with the smallest frame.
    pub fn first(&self) -> (r: Option<(u32, &T)>)
        ensures
            match r {
                Some((k, value)) => first_key(self@.dom()) == Some(k) && *value == self@[k],
                None => first_key(self@.dom()) is None,
            },
    {
        proof {
            use_type_invariant(self);
        }
        if self.entries.len() == 0 {
            proof {
                assert forall|j: u32| !self@.dom().contains(j) by {
                    lemma_gap(self.entries@, 0, j);
                }
                lemma_next_key_none(self@.dom(), 0);
            }
            None
        } else {
            let entry = &self.entries[0];
            proof {
                lemma_entry_in_map(self.entries@, 0);
                if entry.frame != 0 {
                    assert forall|j: u32| j < entry.frame implies !self@.dom().contains(j) by {
                        lemma_gap(self.entries@, 0, j);
                    }
                    lemma_next_key_some(self@.dom(), 0, entry.frame);
                }
            }
            Some((entry.frame, &entry.value))
        }
    }

    /// Puts `value` at `frame`, replacing what was there.
    pub fn insert(&mut self, frame: u32, value: T)
        ensures
            final(self)@ == old(self)@.insert(frame, value),
    {
        proof {
            use_type_invariant(&*self);
        }
        let idx = self.lower_bound(frame);
        let entry = Entry { frame, value };
        let mut entries: Vec<Entry<T>> = Vec::new();
        std::mem::swap(&mut self.entries, &mut entries);
        if idx < entries.len() && entries[idx].frame == frame {
            proof {
                lemma_update_entry(entries@, idx as int, entry);
            }
            entries.set(idx, entry);
        } else {
            proof {
                lemma_insert_entry(entries@, idx as int, entry);
            }
            entries.insert(idx, entry);
        }
        self.entries = entries;
    }

    /// Takes out the entry at `frame` and returns its value, if there was
    /// one.
    pub fn remove(&mut self, frame: u32) -> (r: Option<T>)
        ensures
            final(self)@ == old(self)@.remove(frame),
            match r {
                Some(value) => old(self)@.dom().contains(frame) && value == old(self)@[frame],
                None => !old(self)@.dom().contains(frame),
            },
    {
        proof {
            use_type_invariant(&*self);
        }
        let idx = self.lower_bound(frame);
        if idx < self.entries.len() && self.entries[idx].frame == frame {
            proof {
                lemma_entry_in_map(self.entries@, idx as int);
                lemma_remove_entry(self.entries@, idx as int);
            }
            let mut entries: Vec<Entry<T>> = Vec::new();
            std::mem::swap(&mut self.entries, &mut entries);
            let entry = entries.remove(idx);
            self.entries = entries;
            Some(entry.value)
        } else {
            proof {
                lemma_gap(self.entries@, idx as int, frame);
                assert(self@.remove(frame) =~= self@);
            }
            None
        }
    }

    /// The frames that hold a value, in increasing order.
    pub fn frames(&self) -> (r: Vec<u32>)
        ensures
            r@.len() == self@.dom().len(),
            forall|i: int, j: int| 0 <= i < j < r@.len() ==> r@[i] < r@[j],
            forall|k: u32| r@.contains(k) <==> self@.dom().contains(k),
    {
        proof {
            use_type_invariant(self);
            lemma_dom_len(self.entries@);
        }
        let mut out: Vec<u32> = Vec::new();
        let mut i: usize = 0;
        while i < self.entries.len()
            invariant
                i <= self.entries.len(),
                out@.len() == i,
                forall|k: int| 0 <= k < i ==> out@[k] == self.entries[k].frame,
            decreases self.entries.len() - i,
        {
            out.push(self.entries[i].frame);
            i += 1;
        }
        proof {
            assert forall|k: u32| out@.contains(k) <==> self@.dom().contains(k) by {
                if out@.contains(k) {
                    let p = choose|p: int| 0 <= p < out@.len() && out@[p] == k;
                    assert(self.entries[p].frame == k);
                }
                if has_frame(self.entries@, k) {
                    let p = position_of(self.entries@, k);
                    assert(out@[p] == k);
                }
            }
        }
        out
    }

    /// Whether `frame` holds a value.
    pub fn contains_key(&self, frame: u32) -> (r: bool)
        ensures
            r == self@.dom().contains(frame),
    {
        proof {
            use_type_invariant(self);
        }
        let idx = self.lower_bound(frame);
        let found = idx < self.entries.len() && self.entries[idx].frame == frame;
        proof {
            if found {
                lemma_entry_in_map(self.entries@, idx as int);
            } else {
                lemma_gap(self.entries@, idx as int, frame);
            }
        }
        found
    }

    /// The value at `frame`, if it holds one.
    pub fn get(&self, frame: u32) -> (r: Option<&T>)
        ensures
            match r {
                Some(value) => self@.dom().contains(frame) && *value == self@[frame],
                None => !self@.dom().contains(frame),
            },
    {
        proof {
            use_type_invariant(self);
        }
        let idx = self.lower_bound(frame);
        if idx < self.entries.len() && self.entries[idx].frame == frame {
            proof {
                lemma_entry_in_map(self.entries@, idx as int);
            }
            Some(&self.entries[idx].value)
        } else {
            proof {
                lemma_gap(self.entries@, idx as int, frame);
            }
            None
        }
    }
}

/// In an increasing list, the entry at position `i` is what the map holds
/// at its frame.
proof fn lemma_entry_in_map<T>(entries: Seq<Entry<T>>, i: int)
    requires
        increasing(entries),
        0 <= i < entries.len(),
    ensures
        entries_map(entries).dom().contains(entries[i].frame),
        entries_map(entries)[entries[i].frame] == entries[i].value,
        position_of(entries, entries[i].frame) == i,
{
    let frame = entries[i].frame;
    assert(has_frame(entries, frame));
    let p = position_of(entries, frame);
    if p < i {
        assert(entries[p].frame < entries[i].frame);
    } else if p > i {
        assert(entries[i].frame < entries[p].frame);
    }
}

/// In an increasing list, a frame that lies strictly between the entry
/// before position `idx` and the entry at `idx` holds no value.
proof fn lemma_gap<T>(entries: Seq<Entry<T>>, idx: int, frame: u32)
    requires
        increasing(entries),
        0 <= idx <= entries.len(),
        idx > 0 ==> entries[idx - 1].frame < frame,
        idx < entries.len() ==> frame < entries[idx].frame,
    ensures
        !entries_map(entries).dom().contains(frame),
{
    if has_frame(entries, frame) {
        let p = position_of(entries, frame);
        if p > idx {
            assert(entries[idx].frame < entries[p].frame);
        }
        if p < idx - 1 {
            assert(entries[p].frame < entries[idx - 1].frame);
        }
    }
}

/// An increasing list stands for a finite map with one key for each entry.
proof fn lemma_dom_len<T>(entries: Seq<Entry<T>>)
    requires
        increasing(entries),
    ensures
        entries_map(entries).dom().finite(),
        entries_map(entries).dom().len() == entries.len(),
    decreases entries.len(),
{
    let dom = entries_map(entries).dom();
    if entries.len() == 0 {
        assert(dom =~= Set::<u32>::empty());
    } else {
        let front = entries.drop_last();
        let last = entries.last();
        let front_dom = entries_map(front).dom();
        lemma_dom_len(front);
        lemma_gap(front, front.len() as int, last.frame);
        assert forall|f: u32| dom.contains(f) <==> front_dom.insert(last.frame).contains(f) by {
            if has_frame(entries, f) {
                let p = position_of(entries, f);
                if p < front.len() {
                    assert(front[p].frame == f);
                }
            }
            if has_frame(front, f) {
                let p = position_of(front, f);
                assert(entries[p].frame == f);
            }
            if f == last.frame {
                assert(entries[entries.len() - 1].frame == f);
            }
        }
        assert(dom =~= front_dom.insert(last.frame));
    }
}

/// Putting an entry at position `idx`, between a smaller frame and a
/// greater one, inserts its frame into the map.
proof fn lemma_insert_entry<T>(entries: Seq<Entry<T>>, idx: int, entry: Entry<T>)
    requires
        increasing(entries),
        0 <= idx <= entries.len(),
        idx > 0 ==> entries[idx - 1].frame < entry.frame,
        idx < entries.len() ==> entry.frame < entries[idx].frame,
    ensures
        increasing(entries.insert(idx, entry)),
        entries_map(entries.insert(idx, entry)) == entries_map(entries).insert(
            entry.frame,
            entry.value,
        ),
{
    let after = entries.insert(idx, entry);
    assert forall|i: int, j: int| 0 <= i < j < after.len() implies after[i].frame
        < after[j].frame by {
        let oi = if i < idx { i } else { i - 1 };
        let oj = if j < idx { j } else { j - 1 };
        if i != idx && j != idx {
            assert(entries[oi].frame < entries[oj].frame);
        } else if i == idx {
            if idx < oj {
                assert(entries[idx].frame < entries[oj].frame);
            }
        } else {
            if oi < idx - 1 {
                assert(entries[oi].frame < entries[idx - 1].frame);
            }
        }
    }
    let m_after = entries_map(after);
    let m_want = entries_map(entries).insert(entry.frame, entry.value);
    assert forall|f: u32| m_after.dom().contains(f) <==> m_want.dom().contains(f) by {
        if has_frame(after, f) {
            let p = position_of(after, f);
            if p < idx {
                assert(entries[p].frame == f);
            } else if p > idx {
                assert(entries[p - 1].frame == f);
            }
        }
        if has_frame(entries, f) {
            let p = position_of(entries, f);
            if p < idx {
                assert(after[p].frame == f);
            } else {
                assert(after[p + 1].frame == f);
            }
        }
        if f == entry.frame {
            assert(after[idx].frame == f);
        }
    }
    assert forall|f: u32| m_after.dom().contains(f) implies m_after[f] == m_want[f] by {
        let p = position_of(after, f);
        lemma_entry_in_map(after, p);
        if p < idx {
            lemma_entry_in_map(entries, p);
        } else if p > idx {
            lemma_entry_in_map(entries, p - 1);
        }
    }
    assert(m_after =~= m_want);
}

/// Replacing the value of the entry at position `idx` replaces it in the
/// map.
proof fn lemma_update_entry<T>(entries: Seq<Entry<T>>, idx: int, entry: Entry<T>)
    requires
        increasing(entries),
        0 <= idx < entries.len(),
        entries[idx].frame == entry.frame,
    ensures
        increasing(entries.update(idx, entry)),
        entries_map(entries.update(idx, entry)) == entries_map(entries).insert(
            entry.frame,
            entry.value,
        ),
{
    let after = entries.update(idx, entry);
    assert forall|i: int, j: int| 0 <= i < j < after.len() implies after[i].frame
        < after[j].frame by {
        assert(entries[i].frame < entries[j].frame);
    }
    let m_after = entries_map(after);
    let m_want = entries_map(entries).insert(entry.frame, entry.value);
    assert forall|f: u32| m_after.dom().contains(f) <==> m_want.dom().contains(f) by {
        if has_frame(after, f) {
            let p = position_of(after, f);
            assert(entries[p].frame == f);
        }
        if has_frame(entries, f) {
            let p = position_of(entries, f);
            assert(after[p].frame == f);
        }
        if f == entry.frame {
            assert(after[idx].frame == f);
        }
    }
    assert forall|f: u32| m_after.dom().contains(f) implies m_after[f] == m_want[f] by {
        let p = position_of(after, f);
        lemma_entry_in_map(after, p);
        lemma_entry_in_map(entries, p);
        if p != idx {
            assert(entries[p].frame != entries[idx].frame) by {
                if p < idx {
                    assert(entries[p].frame < entries[idx].frame);
                } else {
                    assert(entries[idx].frame < entries[p].frame);
                }
            }
        }
    }
    assert(m_after =~= m_want);
}

/// Taking out the entry at position `idx` removes its frame from the map.
proof fn lemma_remove_entry<T>(entries: Seq<Entry<T>>, idx: int)
    requires
        increasing(entries),
        0 <= idx < entries.len(),
    ensures
        increasing(entries.remove(idx)),
        entries_map(entries.remove(idx)) == entries_map(entries).remove(entries[idx].frame),
{
    let after = entries.remove(idx);
    let gone = entries[idx].frame;
    assert forall|i: int, j: int| 0 <= i < j < after.len() implies after[i].frame
        < after[j].frame by {
        let oi = if i < idx { i } else { i + 1 };
        let oj = if j < idx { j } else { j + 1 };
        assert(entries[oi].frame < entries[oj].frame);
    }
    let m_after = entries_map(after);
    let m_want = entries_map(entries).remove(gone);
    assert forall|f: u32| m_after.dom().contains(f) <==> m_want.dom().contains(f) by {
        if has_frame(after, f) {
            let p = position_of(after, f);
            let op = if p < idx { p } else { p + 1 };
            assert(entries[op].frame == f);
            if op < idx {
                assert(entries[op].frame < entries[idx].frame);
            } else {
                assert(entries[idx].frame < entries[op].frame);
            }
        }
        if has_frame(entries, f) && f != gone {
            let p = position_of(entries, f);
            if p < idx {
                assert(after[p].frame == f);
            } else {
                assert(after[p - 1].frame == f);
            }
        }
    }
    assert forall|f: u32| m_after.dom().contains(f) implies m_after[f] == m_want[f] by {
        let p = position_of(after, f);
        lemma_entry_in_map(after, p);
        let op = if p < idx { p } else { p + 1 };
        lemma_entry_in_map(entries, op);
    }
    assert(m_after =~= m_want);
}

} // verus!
