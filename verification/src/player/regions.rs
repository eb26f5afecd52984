//! The recorded segments a track knows, kept in order of their number with
//! one entry per number. What each entry holds beyond its number (its times
//! and recording tag) is the caller's.

use vstd::prelude::*;

verus! {

/// Recorded segments in increasing order of number, at most one per number.
pub struct SegmentRegions<R> {
    regions: Vec<(u32, R)>,
}

/// Whether the numbers of `s` increase strictly.
pub open spec fn strictly_increasing<R>(s: Seq<(u32, R)>) -> bool {
    forall|i: int, j: int| 0 <= i < j < s.len() ==> (#[trigger] s[i]).0 < (#[trigger] s[j]).0
}

/// What each number holds.
pub open spec fn regions_map<R>(s: Seq<(u32, R)>) -> Map<u32, R> {
    Map::new(
        |k: u32| exists|i: int| 0 <= i < s.len() && (#[trigger] s[i]).0 == k,
        |k: u32| s[choose|i: int| 0 <= i < s.len() && (#[trigger] s[i]).0 == k].1,
    )
}

impl<R> View for SegmentRegions<R> {
    type V = Seq<(u32, R)>;

    closed spec fn view(&self) -> Seq<(u32, R)> {
        self.regions@
    }
}

impl<R> SegmentRegions<R> {
    /// Whether the entries are in strictly increasing order of number.
    pub open spec fn wf(&self) -> bool {
        strictly_increasing(self@)
    }

    /// No segments.
    pub fn new() -> (r: Self)
        ensures
            r@ == Seq::<(u32, R)>::empty(),
            r.wf(),
    {
        SegmentRegions { regions: Vec::new() }
    }

    /// Forgets every segment.
    pub fn clear(&mut self)
        ensures
            final(self)@ == Seq::<(u32, R)>::empty(),
            final(self).wf(),
    {
        self.regions.clear();
    }

    /// Whether no segment is known.
    pub fn is_empty(&self) -> (r: bool)
        ensures
            r == (self@.len() == 0),
    {
        self.regions.len() == 0
    }

    /// The known segments, in order of number.
    pub fn entries(&self) -> (r: &Vec<(u32, R)>)
        ensures
            r@ == self@,
    {
        &self.regions
    }

    /// Replaces what the entry at position `pos` holds, keeping its number.
    pub fn update(&mut self, pos: usize, item: R)
        requires
            old(self).wf(),
            pos < old(self)@.len(),
        ensures
            final(self).wf(),
            final(self)@ == old(self)@.update(pos as int, (old(self)@[pos as int].0, item)),
    {
        let idx = self.regions[pos].0;
        let ghost before = self@;
        self.regions.set(pos, (idx, item));
        assert forall|i: int, j: int| 0 <= i < j < self@.len() implies (#[trigger] self@[i]).0 < (
        #[trigger] self@[j]).0 by {
            assert(before[i].0 < before[j].0);
        }
    }

    /// Records segment `idx`: it replaces the entry with the same number, or
    /// is inserted where its number belongs.
    pub fn add(&mut self, idx: u32, item: R)
        requires
            old(self).wf(),
        ensures
            final(self).wf(),
            regions_map(final(self)@) == regions_map(old(self)@).insert(idx, item),
            final(self)@.len() == old(self)@.len() + (if regions_map(old(self)@).contains_key(idx) {
                0int
            } else {
                1int
            }),
    {
        let ghost old_s = self@;
        let mut pos: usize = 0;
        let n = self.regions.len();
        while pos < n && self.regions[pos].0 < idx
            invariant
                n == self@.len(),
                self@ == old_s,
                pos <= n,
                forall|i: int| 0 <= i < pos ==> (#[trigger] old_s[i]).0 < idx,
            decreases n - pos,
        {
            pos = pos + 1;
        }
        if pos < n && self.regions[pos].0 == idx {
            self.regions.set(pos, (idx, item));
            proof {
                let new_s = self@;
                assert forall|i: int, j: int| 0 <= i < j < new_s.len() implies (#[trigger] new_s[i]).0
                    < (#[trigger] new_s[j]).0 by {
                    assert(old_s[i].0 < old_s[j].0);
                }
                assert(regions_map(old_s).contains_key(idx)) by {
                    assert(old_s[pos as int].0 == idx);
                }
                assert forall|k: u32| #[trigger] regions_map(new_s).contains_key(k) == regions_map(
                    old_s,
                ).insert(idx, item).contains_key(k) by {
                    if exists|i: int| 0 <= i < new_s.len() && (#[trigger] new_s[i]).0 == k {
                        let i = choose|i: int| 0 <= i < new_s.len() && (#[trigger] new_s[i]).0 == k;
                        assert(old_s[i].0 == k);
                    }
                    if exists|i: int| 0 <= i < old_s.len() && (#[trigger] old_s[i]).0 == k {
                        let i = choose|i: int| 0 <= i < old_s.len() && (#[trigger] old_s[i]).0 == k;
                        assert(new_s[i].0 == k);
                    }
                }
                assert forall|k: u32| #[trigger] regions_map(new_s).contains_key(k) implies regions_map(
                    new_s,
                )[k] == regions_map(old_s).insert(idx, item)[k] by {
                    let i = choose|i: int| 0 <= i < new_s.len() && (#[trigger] new_s[i]).0 == k;
                    if k == idx {
                        if i != pos {
                            assert(old_s[i].0 == old_s[pos as int].0);
                            if i < pos {
                                assert(old_s[i].0 < old_s[pos as int].0);
                            } else {
                                assert(old_s[pos as int].0 < old_s[i].0);
                            }
                        }
                    } else {
                        assert(i != pos);
                        let j = choose|j: int| 0 <= j < old_s.len() && (#[trigger] old_s[j]).0 == k;
                        if i != j {
                            if i < j {
                                assert(old_s[i].0 < old_s[j].0);
                            } else {
                                assert(old_s[j].0 < old_s[i].0);
                            }
                        }
                    }
                }
                assert(regions_map(new_s) =~= regions_map(old_s).insert(idx, item));
            }
        } else {
            self.regions.insert(pos, (idx, item));
            proof {
                let new_s = self@;
                assert(new_s == old_s.insert(pos as int, (idx, item)));
                assert forall|i: int| 0 <= i < old_s.len() implies #[trigger] old_s[i].0 != idx by {
                    if i < pos {
                    } else {
                        assert(old_s[pos as int].0 >= idx);
                        if i > pos {
                            assert(old_s[pos as int].0 < old_s[i].0);
                        }
                    }
                }
                assert forall|i: int, j: int| 0 <= i < j < new_s.len() implies (#[trigger] new_s[i]).0
                    < (#[trigger] new_s[j]).0 by {
                    if j < pos {
                        assert(old_s[i].0 < old_s[j].0);
                    } else if j == pos {
                        assert(old_s[i].0 < idx);
                    } else if i < pos {
                        assert(new_s[j] == old_s[j - 1]);
                        assert(old_s[i].0 < old_s[j - 1].0 || i == j - 1);
                    } else if i == pos {
                        assert(new_s[j] == old_s[j - 1]);
                        assert(old_s[pos as int].0 >= idx);
                        assert(old_s[pos as int].0 != idx);
                        if j - 1 > pos {
                            assert(old_s[pos as int].0 < old_s[j - 1].0);
                        }
                    } else {
                        assert(old_s[i - 1].0 < old_s[j - 1].0);
                    }
                }
                assert(!regions_map(old_s).contains_key(idx));
                assert forall|k: u32| #[trigger] regions_map(new_s).contains_key(k) == regions_map(
                    old_s,
                ).insert(idx, item).contains_key(k) by {
                    if exists|i: int| 0 <= i < new_s.len() && (#[trigger] new_s[i]).0 == k {
                        let i = choose|i: int| 0 <= i < new_s.len() && (#[trigger] new_s[i]).0 == k;
                        if i < pos {
                            assert(old_s[i].0 == k);
                        } else if i > pos {
                            assert(old_s[i - 1].0 == k);
                        }
                    }
                    if exists|i: int| 0 <= i < old_s.len() && (#[trigger] old_s[i]).0 == k {
                        let i = choose|i: int| 0 <= i < old_s.len() && (#[trigger] old_s[i]).0 == k;
                        if i < pos {
                            assert(new_s[i].0 == k);
                        } else {
                            assert(new_s[i + 1].0 == k);
                        }
                    }
                    if k == idx {
                        assert(new_s[pos as int].0 == k);
                    }
                }
                assert forall|k: u32| #[trigger] regions_map(new_s).contains_key(k) implies regions_map(
                    new_s,
                )[k] == regions_map(old_s).insert(idx, item)[k] by {
                    let i = choose|i: int| 0 <= i < new_s.len() && (#[trigger] new_s[i]).0 == k;
                    if k == idx {
                        if i != pos {
                            assert(new_s[pos as int].0 == k);
                            if i < pos {
                                assert(new_s[i].0 < new_s[pos as int].0);
                            } else {
                                assert(new_s[pos as int].0 < new_s[i].0);
                            }
                        }
                    } else {
                        let j = choose|j: int| 0 <= j < old_s.len() && (#[trigger] old_s[j]).0 == k;
                        let jj = if j < pos { j } else { j + 1 };
                        assert(new_s[jj] == old_s[j]);
                        if i != jj {
                            if i < jj {
                                assert(new_s[i].0 < new_s[jj].0);
                            } else {
                                assert(new_s[jj].0 < new_s[i].0);
                            }
                        }
                    }
                }
                assert(regions_map(new_s) =~= regions_map(old_s).insert(idx, item));
            }
        }
    }
}

} // verus!
