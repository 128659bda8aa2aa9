//! The choice among the windows that the platform lists: the oldest or the
//! most recent ones by the creation time of their process.
use vstd::prelude::*;

verus! {

/// What the platform reports of one listed window.
#[derive(Clone, Copy, Debug, PartialEq, Eq)]
pub struct WindowRecord {
    pub hwnd: isize,
    pub pid: u32,
    /// When the window's process was created, in Unix seconds.
    pub creation_time: u64,
    pub visible: bool,
    /// The window has a parent window, so it is not top-level.
    pub has_parent: bool,
    /// The window appeared after the snapshot of the windows at start.
    pub is_new: bool,
}

/// Which windows are left out of the choice.
#[derive(Clone, Copy, Debug, PartialEq, Eq)]
pub struct RecordFilter {
    /// Windows of this process are left out.
    pub launching_pid: Option<u32>,
    /// Windows of processes created before this time are left out.
    pub parent_time: Option<u64>,
    /// Windows of processes created before this time are left out.
    pub launching_time: Option<u64>,
}

impl RecordFilter {
    /// A window qualifies if it is new, visible and top-level, does not
    /// belong to the launching process, and its process is no older than
    /// the parent process and the launching process.
    pub open spec fn spec_admits(self, r: WindowRecord) -> bool {
        &&& r.is_new
        &&& r.visible
        &&& !r.has_parent
        &&& self.launching_pid != Some(r.pid)
        &&& (self.parent_time matches Some(t) ==> r.creation_time >= t)
        &&& (self.launching_time matches Some(t) ==> r.creation_time >= t)
    }

    #[verifier::when_used_as_spec(spec_admits)]
    pub fn admits(self, r: WindowRecord) -> (ok: bool)
        ensures
            ok == self.spec_admits(r),
    {
        let own = match self.launching_pid {
            Some(pid) => pid == r.pid,
            None => false,
        };
        let after_parent = match self.parent_time {
            Some(t) => r.creation_time >= t,
            None => true,
        };
        let after_launcher = match self.launching_time {
            Some(t) => r.creation_time >= t,
            None => true,
        };
        r.is_new && r.visible && !r.has_parent && !own && after_parent && after_launcher
    }
}

/// Record `a` comes before record `b` in the order of choice: by creation
/// time, oldest first or newest first, and as listed among equals.
pub open spec fn comes_before(records: Seq<WindowRecord>, newest_first: bool, a: int, b: int) -> bool {
    let ta = records[a].creation_time;
    let tb = records[b].creation_time;
    if newest_first {
        ta > tb || (ta == tb && a < b)
    } else {
        ta < tb || (ta == tb && a < b)
    }
}

/// `chosen` holds the first `n` qualifying records in the order of choice,
/// or all of them if they are fewer: every chosen record qualifies, the
/// chosen come in order, and every qualifying record that was not chosen
/// comes after all that were, which are `n` then.
pub open spec fn is_choice(
    records: Seq<WindowRecord>,
    filter: RecordFilter,
    newest_first: bool,
    n: nat,
    chosen: Seq<usize>,
) -> bool {
    &&& chosen.len() <= n
    &&& forall|k: int|
        0 <= k < chosen.len() ==> chosen[k] < records.len() && filter.admits(
            records[#[trigger] chosen[k] as int],
        )
    &&& forall|j: int, k: int|
        0 <= j < k < chosen.len() ==> comes_before(
            records,
            newest_first,
            #[trigger] chosen[j] as int,
            #[trigger] chosen[k] as int,
        )
    &&& forall|i: int|
        0 <= i < records.len() && filter.admits(#[trigger] records[i]) && !chosen.contains(
            i as usize,
        ) ==> chosen.len() == n && forall|k: int|
            0 <= k < chosen.len() ==> comes_before(
                records,
                newest_first,
                #[trigger] chosen[k] as int,
                i,
            )
}

/// The next record to choose: the qualifying record that comes first among
/// those after `last`, or among all if nothing was chosen yet.
fn next_in_order(
    records: &Vec<WindowRecord>,
    filter: RecordFilter,
    newest_first: bool,
    last: Option<usize>,
) -> (next: Option<usize>)
    requires
        last matches Some(l) ==> l < records@.len(),
    ensures
        match next {
            Some(m) => {
                &&& m < records@.len()
                &&& filter.admits(records@[m as int])
                &&& (last matches Some(l) ==> comes_before(records@, newest_first, l as int, m as int))
                &&& forall|i: int|
                    0 <= i < records@.len() && filter.admits(#[trigger] records@[i]) && i != m && (
                    last matches Some(l) ==> comes_before(records@, newest_first, l as int, i))
                        ==> comes_before(records@, newest_first, m as int, i)
            },
            None => forall|i: int|
                0 <= i < records@.len() && filter.admits(#[trigger] records@[i]) ==> last is Some
                    && !comes_before(records@, newest_first, last->0 as int, i),
        },
{
    let mut best: Option<usize> = None;
    let mut i: usize = 0;
    while i < records.len()
        invariant
            i <= records@.len(),
            last matches Some(l) ==> l < records@.len(),
            match best {
                Some(m) => {
                    &&& m < i
                    &&& filter.admits(records@[m as int])
                    &&& (last matches Some(l) ==> comes_before(
                        records@,
                        newest_first,
                        l as int,
                        m as int,
                    ))
                    &&& forall|j: int|
                        0 <= j < i && filter.admits(#[trigger] records@[j]) && j != m && (
                        last matches Some(l) ==> comes_before(records@, newest_first, l as int, j))
                            ==> comes_before(records@, newest_first, m as int, j)
                },
                None => forall|j: int|
                    0 <= j < i && filter.admits(#[trigger] records@[j]) ==> last is Some
                        && !comes_before(records@, newest_first, last->0 as int, j),
            },
        decreases records@.len() - i,
    {
        let r = records[i];
        if filter.admits(r) {
            let after_last = match last {
                Some(l) => before(records, newest_first, l, i),
                None => true,
            };
            if after_last {
                let better = match best {
                    Some(m) => before(records, newest_first, i, m),
                    None => true,
                };
                if better {
                    best = Some(i);
                }
            }
        }
        i += 1;
    }
    best
}

/// Whether record `a` comes before record `b` in the order of choice.
fn before(records: &Vec<WindowRecord>, newest_first: bool, a: usize, b: usize) -> (first: bool)
    requires
        a < records@.len(),
        b < records@.len(),
    ensures
        first == comes_before(records@, newest_first, a as int, b as int),
{
    let ta: u64 = records[a].creation_time;
    let tb: u64 = records[b].creation_time;
    if newest_first {
        ta > tb || (ta == tb && a < b)
    } else {
        ta < tb || (ta == tb && a < b)
    }
}

/// Chooses up to `n` qualifying records in the order of choice, and returns
/// where they stand in `records`.
pub fn choose_by_creation_time(
    records: &Vec<WindowRecord>,
    filter: RecordFilter,
    newest_first: bool,
    n: usize,
) -> (chosen: Vec<usize>)
    ensures
        is_choice(records@, filter, newest_first, n as nat, chosen@),
{
    let mut chosen: Vec<usize> = Vec::new();
    let mut last: Option<usize> = None;
    let mut open = true;
    while open && chosen.len() < n
        invariant
            chosen@.len() <= n,
            match last {
                Some(l) => chosen@.len() > 0 && chosen@[chosen@.len() - 1] == l,
                None => chosen@.len() == 0,
            },
            forall|k: int|
                0 <= k < chosen@.len() ==> chosen@[k] < records@.len() && filter.admits(
                    records@[#[trigger] chosen@[k] as int],
                ),
            forall|j: int, k: int|
                0 <= j < k < chosen@.len() ==> comes_before(
                    records@,
                    newest_first,
                    #[trigger] chosen@[j] as int,
                    #[trigger] chosen@[k] as int,
                ),
            forall|i: int|
                0 <= i < records@.len() && filter.admits(#[trigger] records@[i])
                    && !chosen@.contains(i as usize) ==> (open && forall|k: int|
                    0 <= k < chosen@.len() ==> comes_before(
                        records@,
                        newest_first,
                        #[trigger] chosen@[k] as int,
                        i,
                    )),
        decreases (if open { 1int } else { 0int }) + n - chosen@.len(),
    {
        let ghost prior = chosen@;
        match next_in_order(records, filter, newest_first, last) {
            Some(m) => {
                chosen.push(m);
                last = Some(m);
                proof {
                    assert forall|j: int, k: int| 0 <= j < k < chosen@.len() implies comes_before(
                        records@,
                        newest_first,
                        #[trigger] chosen@[j] as int,
                        #[trigger] chosen@[k] as int,
                    ) by {
                        if k == prior.len() {
                            if j < prior.len() - 1 {
                                assert(comes_before(
                                    records@,
                                    newest_first,
                                    prior[j] as int,
                                    prior[prior.len() - 1] as int,
                                ));
                            }
                        } else {
                            assert(chosen@[j] == prior[j] && chosen@[k] == prior[k]);
                        }
                    }
                    assert forall|i: int|
                        0 <= i < records@.len() && filter.admits(#[trigger] records@[i])
                            && !chosen@.contains(i as usize) implies forall|k: int|
                        0 <= k < chosen@.len() ==> comes_before(
                            records@,
                            newest_first,
                            #[trigger] chosen@[k] as int,
                            i,
                        ) by {
                        if prior.contains(i as usize) {
                            let a = choose|a: int| 0 <= a < prior.len() && prior[a] == i as usize;
                            assert(chosen@[a] == i as usize);
                        }
                        assert(chosen@[prior.len() as int] == m);
                        assert(i != m);
                        assert forall|k: int| 0 <= k < chosen@.len() implies comes_before(
                            records@,
                            newest_first,
                            #[trigger] chosen@[k] as int,
                            i,
                        ) by {
                            if k < prior.len() {
                                assert(chosen@[k] == prior[k]);
                            }
                        }
                    }
                }
            },
            None => {
                open = false;
                proof {
                    assert forall|i: int|
                        0 <= i < records@.len() && filter.admits(#[trigger] records@[i])
                            implies chosen@.contains(i as usize) by {
                        if !chosen@.contains(i as usize) {
                            assert(comes_before(
                                records@,
                                newest_first,
                                chosen@[chosen@.len() - 1] as int,
                                i,
                            ));
                        }
                    }
                }
            },
        }
    }
    chosen
}

/// The `num_oldest` qualifying windows whose processes were created first,
/// oldest first.
pub fn find_oldest_recent_apps(records: &Vec<WindowRecord>, filter: RecordFilter, num_oldest: usize) -> (
    chosen: Vec<usize>
)
    ensures
        is_choice(records@, filter, false, num_oldest as nat, chosen@),
{
    choose_by_creation_time(records, filter, false, num_oldest)
}

/// The `num_recent` qualifying windows whose processes were created last,
/// newest first.
pub fn find_most_recent_gui_apps(records: &Vec<WindowRecord>, filter: RecordFilter, num_recent: usize) -> (
    chosen: Vec<usize>
)
    ensures
        is_choice(records@, filter, true, num_recent as nat, chosen@),
{
    choose_by_creation_time(records, filter, true, num_recent)
}

} // verus!
