//! The repair pass: brings the occupancy index back into agreement with
//! the cell table, and reports what it found.
use crate::grid::GridState;
use crate::model::{CellProbe, GridModel};
use crate::occupancy::{index_contains_key, index_get, index_insert, index_pairs, index_remove};
use crate::picks::{picks, picks_extend, picks_none};
use vstd::prelude::*;

verus! {

/// What a repair pass found.
#[derive(Clone, Debug, PartialEq, Eq)]
pub struct SyncReport {
    /// Cells whose occupant had no entry under a cell that holds it. Each
    /// such occupant was entered.
    pub missing: Vec<usize>,
    /// Handles whose entry named a cell that does not hold them. The
    /// entries were removed.
    pub dangling: Vec<isize>,
    /// Cells whose occupant is entered under another cell that holds it
    /// too: the window is in two cells. Flagged at every pass, not
    /// corrected.
    pub mismatched: Vec<usize>,
    /// Occupied cells whose center pixel belongs to another window that the
    /// index holds. Reported, not corrected.
    pub pixel_conflicts: Vec<usize>,
}

impl SyncReport {
    /// The pass corrected nothing: it added no entry and removed none.
    pub open spec fn spec_is_clean(&self) -> bool {
        self.missing@.len() == 0 && self.dangling@.len() == 0
    }

    #[verifier::when_used_as_spec(spec_is_clean)]
    pub fn is_clean(&self) -> (clean: bool)
        ensures
            clean == self.spec_is_clean(),
    {
        self.missing.len() == 0 && self.dangling.len() == 0
    }

    /// The pass corrected nothing and flagged nothing.
    pub open spec fn spec_found_agreement(&self) -> bool {
        self.spec_is_clean() && self.mismatched@.len() == 0
    }

    /// Whether the pass found cell table and index in agreement.
    #[verifier::when_used_as_spec(spec_found_agreement)]
    pub fn found_agreement(&self) -> (agreed: bool)
        ensures
            agreed == self.spec_found_agreement(),
    {
        self.is_clean() && self.mismatched.len() == 0
    }

    /// The number of occupied cells whose occupant had to be entered.
    pub fn cell_errors(&self) -> (n: usize)
        ensures
            n == self.missing@.len(),
    {
        self.missing.len()
    }

    /// The number of index entries that had to be removed.
    pub fn map_errors(&self) -> (n: usize)
        ensures
            n == self.dangling@.len(),
    {
        self.dangling.len()
    }
}

impl GridModel {
    /// Cell `i` holds the window `h`.
    pub open spec fn holds(self, i: int, h: isize) -> bool {
        0 <= i < self.cells.len() && self.cells[i].hwnd == Some(h)
    }

    /// Some cell holds the window `h`.
    pub open spec fn held(self, h: isize) -> bool {
        exists|i: int| self.holds(i, h)
    }

    /// The index holds `h` under a cell that holds `h`.
    pub open spec fn valid_entry(self, h: isize) -> bool {
        self.index.contains_key(h) && self.holds(self.index[h] as int, h)
    }

    /// Cell `i` has an occupant that the index does not hold.
    pub open spec fn missing_at(self, i: int) -> bool {
        &&& 0 <= i < self.cells.len()
        &&& self.cells[i].hwnd matches Some(h)
        &&& !self.index.contains_key(h)
    }

    /// Cell `i` has an occupant without an entry under a cell that holds
    /// it: the index does not hold the occupant, or holds it under a cell
    /// where it is not.
    pub open spec fn unentered_at(self, i: int) -> bool {
        &&& 0 <= i < self.cells.len()
        &&& self.cells[i].hwnd matches Some(h)
        &&& !self.valid_entry(h)
    }

    /// Cell `i` has an occupant that the index holds under another cell.
    pub open spec fn mismatched_at(self, i: int) -> bool {
        &&& 0 <= i < self.cells.len()
        &&& self.cells[i].hwnd matches Some(h)
        &&& self.index.contains_key(h)
        &&& self.index[h] != i
    }

    /// Cell `i` has an occupant, and its center pixel belongs to another
    /// window that the index holds.
    pub open spec fn pixel_conflict_at(self, probes: Seq<CellProbe>, i: int) -> bool {
        &&& 0 <= i < self.cells.len()
        &&& self.cells[i].hwnd matches Some(h)
        &&& probes[i].pixel_owner matches Some(o)
        &&& o != h
        &&& self.index.contains_key(o)
    }

    pub open spec fn missing_cells(self) -> Set<int> {
        Set::new(|i: int| self.missing_at(i))
    }

    pub open spec fn unentered_cells(self) -> Set<int> {
        Set::new(|i: int| self.unentered_at(i))
    }

    pub open spec fn mismatched_cells(self) -> Set<int> {
        Set::new(|i: int| self.mismatched_at(i))
    }

    pub open spec fn pixel_conflicts(self, probes: Seq<CellProbe>) -> Set<int> {
        Set::new(|i: int| self.pixel_conflict_at(probes, i))
    }

    /// The index does not hold `h`, and some cell does.
    pub open spec fn adoptable(self, h: isize) -> bool {
        !self.index.contains_key(h) && self.held(h)
    }

    /// Cell `i` is the highest cell that holds `h`.
    pub open spec fn is_highest_holder(self, i: int, h: isize) -> bool {
        self.holds(i, h) && forall|j: int| self.holds(j, h) ==> j <= i
    }

    pub open spec fn highest_holder(self, h: isize) -> int {
        choose|i: int| self.is_highest_holder(i, h)
    }

    /// No window is held by two cells.
    pub open spec fn distinct_occupants(self) -> bool {
        forall|i: int, j: int|
            0 <= i < j < self.cells.len() && self.cells[i].hwnd is Some ==> self.cells[i].hwnd
                != self.cells[j].hwnd
    }

    /// The state after a repair pass. The cell table is as it was. The
    /// index holds exactly the windows that some cell holds: a window whose
    /// entry named a cell that holds it keeps that entry, and any other is
    /// entered under the highest cell that holds it.
    pub open spec fn repair(self) -> GridModel {
        GridModel {
            index: Map::new(
                |h: isize| self.held(h),
                |h: isize|
                    if self.valid_entry(h) {
                        self.index[h]
                    } else {
                        self.highest_holder(h) as usize
                    },
            ),
            ..self
        }
    }

    /// A window that some cell holds has a highest cell that holds it.
    pub proof fn highest_holder_exists(self, h: isize)
        requires
            self.held(h),
        ensures
            self.is_highest_holder(self.highest_holder(h), h),
    {
        let i = choose|i: int| self.holds(i, h);
        let top = self.highest_holder_from(h, i, self.cells.len() as int);
        assert(self.is_highest_holder(top, h));
    }

    /// The highest cell below `k` that holds `h`, given that `best` does.
    proof fn highest_holder_from(self, h: isize, best: int, k: int) -> (top: int)
        requires
            self.holds(best, h),
            best < k <= self.cells.len(),
        ensures
            self.holds(top, h),
            top < k,
            forall|j: int| self.holds(j, h) && j < k ==> j <= top,
        decreases k - best,
    {
        if exists|j: int| self.holds(j, h) && best < j < k {
            let j = choose|j: int| self.holds(j, h) && best < j < k;
            self.highest_holder_from(h, j, k)
        } else {
            best
        }
    }

    /// After a repair pass every entry names a cell that holds its handle,
    /// and every occupant has such an entry.
    pub proof fn repair_enters_every_occupant(self)
        requires
            self.wf(),
        ensures
            forall|h: isize| self.repair().index.contains_key(h) <==> self.held(h),
            forall|h: isize| self.repair().index.contains_key(h) ==> self.repair().valid_entry(h),
            forall|i: int| !self.repair().unentered_at(i) && !self.repair().missing_at(i),
    {
        let r = self.repair();
        assert forall|h: isize| r.index.contains_key(h) implies r.valid_entry(h) by {
            if !self.valid_entry(h) {
                self.highest_holder_exists(h);
            }
        }
        assert forall|i: int| !r.unentered_at(i) && !r.missing_at(i) by {
            if 0 <= i < self.cells.len() && self.cells[i].hwnd is Some {
                let h = self.cells[i].hwnd->0;
                assert(self.holds(i, h));
                assert(r.index.contains_key(h));
            }
        }
    }

    /// A repair pass ends in agreement exactly when no window is in two
    /// cells.
    pub proof fn repair_agrees_where_occupants_differ(self)
        requires
            self.wf(),
        ensures
            self.repair().in_sync() <==> self.distinct_occupants(),
    {
        let r = self.repair();
        self.repair_enters_every_occupant();
        if self.distinct_occupants() {
            assert forall|h: isize| #[trigger] r.index.contains_key(h) implies r.index[h]
                < r.cells.len() && r.cells[r.index[h] as int].hwnd == Some(h) by {
                assert(r.valid_entry(h));
            }
            assert forall|i: int|
                0 <= i < r.cells.len() && (#[trigger] r.cells[i]).hwnd
                    is Some implies r.tracked_at(r.cells[i].hwnd->0, i) by {
                let h = self.cells[i].hwnd->0;
                assert(self.holds(i, h));
                assert(r.valid_entry(h));
                let j = r.index[h] as int;
                if i < j {
                    assert(self.cells[i].hwnd != self.cells[j].hwnd);
                } else if j < i {
                    assert(self.cells[j].hwnd != self.cells[i].hwnd);
                }
            }
        }
        if r.in_sync() {
            assert forall|i: int, j: int|
                0 <= i < j < self.cells.len() && self.cells[i].hwnd
                    is Some implies self.cells[i].hwnd != self.cells[j].hwnd by {
                if self.cells[i].hwnd == self.cells[j].hwnd {
                    assert(r.cells[i].hwnd is Some);
                    assert(r.cells[j].hwnd is Some);
                    assert(r.tracked_at(self.cells[i].hwnd->0, i));
                    assert(r.tracked_at(self.cells[j].hwnd->0, j));
                }
            }
        }
    }

    /// A grid in agreement is its own repair.
    pub proof fn repair_of_synced(self)
        requires
            self.wf(),
            self.in_sync(),
        ensures
            self.repair() == self,
            forall|i: int| !self.unentered_at(i) && !self.mismatched_at(i),
            forall|h: isize| self.index.contains_key(h) ==> self.valid_entry(h),
    {
        assert forall|i: int| !self.unentered_at(i) && !self.mismatched_at(i) by {
            if 0 <= i < self.cells.len() && self.cells[i].hwnd is Some {
                assert(self.tracked_at(self.cells[i].hwnd->0, i));
            }
        }
        assert forall|h: isize| self.held(h) <==> self.index.contains_key(h) by {
            if self.held(h) {
                let i = choose|i: int| self.holds(i, h);
                assert(self.tracked_at(self.cells[i].hwnd->0, i));
            }
            if self.index.contains_key(h) {
                assert(self.holds(self.index[h] as int, h));
            }
        }
        assert(self.repair().index =~= self.index);
    }
}

impl GridState {
    /// Checks the occupancy index against the cell table and repairs it, so
    /// that a second pass finds nothing to correct.
    ///
    /// First every entry whose cell does not hold its handle is removed.
    /// Then every occupant that is left without entry is entered, under the
    /// highest cell that holds it. A window that is in two cells can only
    /// be entered under one of them: the other cell is flagged, and is the
    /// one thing that a pass leaves in disagreement. Last, the center pixel
    /// of every occupied cell is compared with the index as repaired.
    /// `probes` holds the platform's report of each cell, in cell order.
    pub fn check_and_fix_grid_sync(&mut self, probes: &Vec<CellProbe>) -> (report: SyncReport)
        requires
            old(self)@.wf(),
            probes@.len() == old(self)@.cells.len(),
        ensures
            final(self)@ == old(self)@.repair(),
            final(self)@.wf(),
            forall|h: isize| final(self)@.index.contains_key(h) ==> final(self)@.valid_entry(h),
            forall|i: int| !final(self)@.missing_at(i) && !final(self)@.unentered_at(i),
            old(self)@.distinct_occupants() ==> final(self)@.in_sync(),
            picks(report.missing@, old(self)@.cells.len() as int, old(self)@.unentered_cells()),
            report.dangling@.no_duplicates(),
            forall|h: isize|
                report.dangling@.contains(h) <==> old(self)@.index.contains_key(h) && !old(
                    self,
                )@.valid_entry(h),
            picks(
                report.mismatched@,
                old(self)@.cells.len() as int,
                final(self)@.mismatched_cells(),
            ),
            picks(
                report.pixel_conflicts@,
                old(self)@.cells.len() as int,
                final(self)@.pixel_conflicts(probes@),
            ),
            report.is_clean() <==> final(self)@ == old(self)@,
            report.found_agreement() <==> old(self)@.in_sync(),
    {
        let ghost before = self@;
        let dangling = self.drop_dangling();
        let ghost kept = self@;
        let (missing, _) = self.scan_cells();
        self.adopt_missing(&missing);
        proof {
            assert forall|h: isize| kept.held(h) == before.held(h) by {
                if kept.held(h) {
                    let i = choose|i: int| kept.holds(i, h);
                    assert(before.holds(i, h));
                }
                if before.held(h) {
                    let i = choose|i: int| before.holds(i, h);
                    assert(kept.holds(i, h));
                }
            }
            assert forall|h: isize|
                self@.index.contains_key(h) <==> before.repair().index.contains_key(h) by {
                assert(kept.index.contains_key(h) <==> before.valid_entry(h));
                assert(self@.index.contains_key(h) <==> kept.index.contains_key(h)
                    || kept.adoptable(h));
                if before.valid_entry(h) {
                    assert(before.holds(before.index[h] as int, h));
                }
            }
            assert forall|h: isize| self@.index.contains_key(h) implies self@.index[h]
                == before.repair().index[h] by {
                if !before.valid_entry(h) {
                    assert(kept.adoptable(h));
                    let at = self@.index[h] as int;
                    assert(kept.is_highest_holder(at, h));
                    assert forall|j: int| before.holds(j, h) implies j <= at by {
                        assert(kept.holds(j, h));
                    }
                    assert(before.is_highest_holder(at, h));
                    assert(before.is_highest_holder(before.highest_holder(h), h));
                }
            }
            assert(self@.index =~= before.repair().index);
            assert(kept.missing_cells() =~= before.unentered_cells());
            before.repair_enters_every_occupant();
            before.repair_agrees_where_occupants_differ();
        }
        let (_, mismatched) = self.scan_cells();
        let pixel_conflicts = self.scan_pixels(probes);
        let report = SyncReport { missing, dangling, mismatched, pixel_conflicts };
        proof {
            if report.is_clean() {
                assert forall|h: isize| before.index.contains_key(h) implies before.valid_entry(
                    h,
                ) by {
                    if !before.valid_entry(h) {
                        assert(report.dangling@.contains(h));
                    }
                }
                assert forall|h: isize| before.held(h) implies before.valid_entry(h) by {
                    let i = choose|i: int| before.holds(i, h);
                    assert(!before.unentered_cells().contains(i));
                }
                assert forall|h: isize| before.index.contains_key(h) <==> before.held(h) by {
                    if before.index.contains_key(h) {
                        assert(before.valid_entry(h));
                        assert(before.holds(before.index[h] as int, h));
                    }
                    if before.held(h) {
                        assert(before.valid_entry(h));
                    }
                }
                assert(self@.index =~= before.index);
            }
            if self@ == before {
                if report.missing@.len() > 0 {
                    assert(before.unentered_cells().contains(report.missing@[0] as int));
                }
                if report.dangling@.len() > 0 {
                    assert(report.dangling@.contains(report.dangling@[0]));
                }
            }
            if before.in_sync() {
                before.repair_of_synced();
                if report.mismatched@.len() > 0 {
                    assert(before.mismatched_cells().contains(report.mismatched@[0] as int));
                }
            }
            if report.found_agreement() {
                assert forall|h: isize| #[trigger]
                    before.index.contains_key(h) implies before.index[h] < before.cells.len()
                    && before.cells[before.index[h] as int].hwnd == Some(h) by {
                    assert(before.valid_entry(h));
                }
                assert forall|i: int|
                    0 <= i < before.cells.len() && (#[trigger] before.cells[i]).hwnd
                        is Some implies before.tracked_at(before.cells[i].hwnd->0, i) by {
                    assert(!before.mismatched_cells().contains(i));
                    assert(!before.missing_at(i));
                }
            }
        }
        report
    }

    /// The occupied cells whose occupant the index lacks, and those whose
    /// occupant it holds under another cell.
    fn scan_cells(&self) -> (found: (Vec<usize>, Vec<usize>))
        requires
            self@.wf(),
        ensures
            picks(found.0@, self@.cells.len() as int, self@.missing_cells()),
            picks(found.1@, self@.cells.len() as int, self@.mismatched_cells()),
    {
        let mut missing: Vec<usize> = Vec::new();
        let mut mismatched: Vec<usize> = Vec::new();
        let n: usize = self.cells.len();
        let mut i: usize = 0;
        proof {
            picks_none(self@.missing_cells());
            picks_none(self@.mismatched_cells());
        }
        while i < n
            invariant
                i <= n,
                n == self@.cells.len(),
                picks(missing@, i as int, self@.missing_cells()),
                picks(mismatched@, i as int, self@.mismatched_cells()),
            decreases n - i,
        {
            proof {
                picks_extend(missing@, i as int, self@.missing_cells());
                picks_extend(mismatched@, i as int, self@.mismatched_cells());
            }
            if let Some(hwnd) = self.cells[i].hwnd {
                match index_get(&self.hwnd_to_cell, hwnd) {
                    Some(mapped) => {
                        if mapped != i {
                            mismatched.push(i);
                        }
                    },
                    None => {
                        missing.push(i);
                    },
                }
            }
            i += 1;
        }
        (missing, mismatched)
    }

    /// Enters the occupant of each listed cell under that cell.
    fn adopt_missing(&mut self, missing: &Vec<usize>)
        requires
            old(self)@.wf(),
            picks(missing@, old(self)@.cells.len() as int, old(self)@.missing_cells()),
        ensures
            final(self)@ == (GridModel { index: final(self)@.index, ..old(self)@ }),
            forall|h: isize| #[trigger]
                final(self)@.index.contains_key(h) <==> old(self)@.index.contains_key(h) || old(
                    self,
                )@.adoptable(h),
            forall|h: isize| #[trigger]
                old(self)@.index.contains_key(h) ==> final(self)@.index[h] == old(self)@.index[h],
            forall|h: isize| #[trigger]
                old(self)@.adoptable(h) ==> old(self)@.is_highest_holder(
                    final(self)@.index[h] as int,
                    h,
                ),
    {
        let ghost before = self@;
        let mut t: usize = 0;
        while t < missing.len()
            invariant
                t <= missing@.len(),
                before == old(self)@,
                before.wf(),
                picks(missing@, before.cells.len() as int, before.missing_cells()),
                self@ == (GridModel { index: self@.index, ..before }),
                forall|h: isize|
                    self@.index.contains_key(h) <==> before.index.contains_key(h) || listed_holder(
                        before,
                        missing@,
                        t as int,
                        h,
                    ),
                forall|h: isize|
                    before.index.contains_key(h) ==> self@.index[h] == before.index[h],
                forall|h: isize|
                    listed_holder(before, missing@, t as int, h) && !before.index.contains_key(h)
                        ==> is_last_listed_holder(
                        before,
                        missing@,
                        t as int,
                        h,
                        #[trigger] self@.index[h] as int,
                    ),
            decreases missing@.len() - t,
        {
            let cell: usize = missing[t];
            assert(before.missing_cells().contains(missing@[t as int] as int));
            let hwnd: isize = self.cells[cell].hwnd.unwrap();
            let ghost prior = self@.index;
            let _ = index_insert(&mut self.hwnd_to_cell, hwnd, cell);
            proof {
                assert forall|h: isize|
                    listed_holder(before, missing@, t + 1, h) <==> listed_holder(
                        before,
                        missing@,
                        t as int,
                        h,
                    ) || h == hwnd by {
                    listed_holder_step(before, missing@, t as int, h);
                }
                assert forall|h: isize|
                    listed_holder(before, missing@, t + 1, h) && !before.index.contains_key(
                        h,
                    ) implies is_last_listed_holder(
                    before,
                    missing@,
                    t + 1,
                    h,
                    #[trigger] self@.index[h] as int,
                ) by {
                    if h == hwnd {
                        assert(before.holds(missing@[t as int] as int, h));
                    } else {
                        assert(is_last_listed_holder(
                            before,
                            missing@,
                            t as int,
                            h,
                            prior[h] as int,
                        ));
                    }
                }
            }
            t += 1;
        }
        proof {
            assert forall|h: isize| before.adoptable(h) implies listed_holder(
                before,
                missing@,
                t as int,
                h,
            ) && before.is_highest_holder(self@.index[h] as int, h) by {
                let i = choose|i: int| before.holds(i, h);
                assert(before.missing_cells().contains(i));
                let a = choose|a: int| 0 <= a < missing@.len() && missing@[a] == i;
                assert(before.holds(missing@[a] as int, h));
                let at = self@.index[h] as int;
                assert(is_last_listed_holder(before, missing@, t as int, h, at));
                assert forall|j: int| before.holds(j, h) implies j <= at by {
                    assert(before.missing_cells().contains(j));
                    let b = choose|b: int| 0 <= b < missing@.len() && missing@[b] == j;
                    assert(before.holds(missing@[b] as int, h));
                }
            }
            assert forall|h: isize|
                listed_holder(before, missing@, t as int, h) implies exists|i: int|
                before.holds(i, h) by {
                let a = choose|a: int|
                    0 <= a < t && before.holds(#[trigger] missing@[a] as int, h);
                assert(before.holds(missing@[a] as int, h));
            }
        }
    }

    /// Removes every entry whose cell does not hold its handle, and lists
    /// the handles.
    fn drop_dangling(&mut self) -> (dropped: Vec<isize>)
        requires
            old(self)@.wf(),
        ensures
            final(self)@ == (GridModel { index: final(self)@.index, ..old(self)@ }),
            forall|h: isize|
                final(self)@.index.contains_key(h) <==> old(self)@.valid_entry(h),
            forall|h: isize|
                final(self)@.index.contains_key(h) ==> final(self)@.index[h] == old(self)@.index[h],
            dropped@.no_duplicates(),
            forall|h: isize|
                dropped@.contains(h) <==> old(self)@.index.contains_key(h) && !old(
                    self,
                )@.valid_entry(h),
    {
        let ghost before = self@;
        let pairs = index_pairs(&self.hwnd_to_cell);
        let mut dropped: Vec<isize> = Vec::new();
        let mut t: usize = 0;
        while t < pairs.len()
            invariant
                t <= pairs@.len(),
                before == old(self)@,
                self@ == (GridModel { index: self@.index, ..before }),
                forall|k: int|
                    0 <= k < pairs@.len() ==> before.index.contains_pair(
                        (#[trigger] pairs@[k]).0,
                        pairs@[k].1,
                    ),
                forall|h: isize|
                    before.index.contains_key(h) ==> exists|k: int|
                        0 <= k < pairs@.len() && (#[trigger] pairs@[k]).0 == h,
                forall|j: int, k: int|
                    0 <= j < k < pairs@.len() ==> (#[trigger] pairs@[j]).0 != (
                    #[trigger] pairs@[k]).0,
                forall|h: isize|
                    self@.index.contains_key(h) <==> before.index.contains_key(h) && !seen_invalid(
                        before,
                        pairs@,
                        t as int,
                        h,
                    ),
                forall|h: isize|
                    self@.index.contains_key(h) ==> self@.index[h] == before.index[h],
                dropped@.no_duplicates(),
                forall|h: isize|
                    dropped@.contains(h) <==> seen_invalid(before, pairs@, t as int, h),
            decreases pairs@.len() - t,
        {
            let (hwnd, cell) = pairs[t];
            let ghost start = dropped@;
            assert(before.index.contains_pair(pairs@[t as int].0, pairs@[t as int].1));
            let valid = cell < self.cells.len() && self.cells[cell].hwnd == Some(hwnd);
            assert(valid == before.valid_entry(hwnd));
            proof {
                assert forall|h: isize|
                    seen_invalid(before, pairs@, t + 1, h) <==> seen_invalid(
                        before,
                        pairs@,
                        t as int,
                        h,
                    ) || (h == hwnd && !valid) by {
                    seen_invalid_step(before, pairs@, t as int, h);
                }
                if seen_invalid(before, pairs@, t as int, hwnd) {
                    let k = choose|k: int|
                        0 <= k < t && (#[trigger] pairs@[k]).0 == hwnd && !before.valid_entry(
                            hwnd,
                        );
                    assert(pairs@[k].0 != pairs@[t as int].0);
                }
            }
            if !valid {
                let ghost prior = dropped@;
                let _ = index_remove(&mut self.hwnd_to_cell, hwnd);
                dropped.push(hwnd);
                proof {
                    assert(dropped@ == prior.push(hwnd));
                    assert forall|h: isize| dropped@.contains(h) <==> (prior.contains(h) || h
                        == hwnd) by {
                        if prior.contains(h) {
                            let a = choose|a: int| 0 <= a < prior.len() && prior[a] == h;
                            assert(dropped@[a] == h);
                        }
                        if h == hwnd {
                            assert(dropped@[prior.len() as int] == h);
                        }
                    }
                    assert(!prior.contains(hwnd));
                    assert forall|i: int, j: int|
                        0 <= i < dropped@.len() && 0 <= j < dropped@.len() && i != j implies dropped@[i]
                        != dropped@[j] by {
                        if i < prior.len() && j < prior.len() {
                            assert(prior[i] != prior[j]);
                        } else if i < prior.len() {
                            assert(prior.contains(prior[i]));
                        } else {
                            assert(prior.contains(prior[j]));
                        }
                    }
                }
            }
            proof {
                assert forall|h: isize|
                    dropped@.contains(h) <==> seen_invalid(before, pairs@, t + 1, h) by {
                    seen_invalid_step(before, pairs@, t as int, h);
                    assert(start.contains(h) <==> seen_invalid(before, pairs@, t as int, h));
                    if valid {
                        assert(dropped@ == start);
                    } else {
                        assert(dropped@.contains(h) <==> (start.contains(h) || h == hwnd));
                    }
                }
                assert forall|h: isize|
                    self@.index.contains_key(h) <==> before.index.contains_key(h) && !seen_invalid(
                        before,
                        pairs@,
                        t + 1,
                        h,
                    ) by {
                    seen_invalid_step(before, pairs@, t as int, h);
                }
            }
            t += 1;
        }
        proof {
            assert forall|h: isize|
                seen_invalid(before, pairs@, t as int, h) <==> before.index.contains_key(h)
                    && !before.valid_entry(h) by {
                if seen_invalid(before, pairs@, t as int, h) {
                    let k = choose|k: int|
                        0 <= k < t && (#[trigger] pairs@[k]).0 == h && !before.valid_entry(h);
                    assert(before.index.contains_pair(pairs@[k].0, pairs@[k].1));
                }
                if before.index.contains_key(h) && !before.valid_entry(h) {
                    let k = choose|k: int| 0 <= k < pairs@.len() && (#[trigger] pairs@[k]).0 == h;
                    assert(0 <= k < t && pairs@[k].0 == h && !before.valid_entry(h));
                }
            }
        }
        dropped
    }

    /// The occupied cells whose center pixel belongs to another window that
    /// the index holds.
    fn scan_pixels(&self, probes: &Vec<CellProbe>) -> (found: Vec<usize>)
        requires
            probes@.len() == self@.cells.len(),
        ensures
            picks(found@, self@.cells.len() as int, self@.pixel_conflicts(probes@)),
    {
        let mut found: Vec<usize> = Vec::new();
        let n: usize = self.cells.len();
        let mut i: usize = 0;
        proof {
            picks_none(self@.pixel_conflicts(probes@));
        }
        while i < n
            invariant
                i <= n,
                n == self@.cells.len(),
                probes@.len() == n,
                picks(found@, i as int, self@.pixel_conflicts(probes@)),
            decreases n - i,
        {
            proof {
                picks_extend(found@, i as int, self@.pixel_conflicts(probes@));
            }
            if let Some(hwnd) = self.cells[i].hwnd {
                if let Some(owner) = probes[i].pixel_owner {
                    if owner != hwnd && index_contains_key(&self.hwnd_to_cell, owner) {
                        found.push(i);
                    }
                }
            }
            i += 1;
        }
        found
    }
}

/// One of the first `t` listed cells holds `h`.
spec fn listed_holder(grid: GridModel, list: Seq<usize>, t: int, h: isize) -> bool {
    exists|a: int| 0 <= a < t && grid.holds(#[trigger] list[a] as int, h)
}

/// Cell `at` is the highest of the first `t` listed cells that hold `h`.
spec fn is_last_listed_holder(grid: GridModel, list: Seq<usize>, t: int, h: isize, at: int) -> bool {
    &&& grid.holds(at, h)
    &&& forall|a: int| 0 <= a < t && grid.holds(#[trigger] list[a] as int, h) ==> list[a] <= at
}

proof fn listed_holder_step(grid: GridModel, list: Seq<usize>, t: int, h: isize)
    requires
        0 <= t < list.len(),
        grid.cells[list[t] as int].hwnd is Some,
        list[t] < grid.cells.len(),
    ensures
        listed_holder(grid, list, t + 1, h) <==> listed_holder(grid, list, t, h) || h
            == grid.cells[list[t] as int].hwnd->0,
{
    if listed_holder(grid, list, t, h) {
        let a = choose|a: int| 0 <= a < t && grid.holds(#[trigger] list[a] as int, h);
        assert(0 <= a < t + 1 && grid.holds(list[a] as int, h));
    }
    if h == grid.cells[list[t] as int].hwnd->0 {
        assert(grid.holds(list[t] as int, h));
    }
}

/// One of the first `t` entries is the entry of `h`, and its cell does not
/// hold `h`.
spec fn seen_invalid(grid: GridModel, pairs: Seq<(isize, usize)>, t: int, h: isize) -> bool {
    exists|k: int| 0 <= k < t && (#[trigger] pairs[k]).0 == h && !grid.valid_entry(h)
}

proof fn seen_invalid_step(grid: GridModel, pairs: Seq<(isize, usize)>, t: int, h: isize)
    requires
        0 <= t < pairs.len(),
    ensures
        seen_invalid(grid, pairs, t + 1, h) <==> seen_invalid(grid, pairs, t, h) || (h
            == pairs[t].0 && !grid.valid_entry(h)),
{
    if seen_invalid(grid, pairs, t, h) {
        let k = choose|k: int| 0 <= k < t && (#[trigger] pairs[k]).0 == h && !grid.valid_entry(h);
        assert(0 <= k < t + 1 && pairs[k].0 == h);
    }
    if h == pairs[t].0 && !grid.valid_entry(h) {
        assert(pairs[t].0 == h);
    }
}

} // verus!
