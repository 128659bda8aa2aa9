//! The descendants of a process in a snapshot of the process table.
use vstd::prelude::*;

verus! {

/// The snapshot lists `child` as a process whose parent is `parent`. An
/// entry is a process id with the id of its parent.
pub open spec fn child_of(entries: Seq<(u32, u32)>, parent: u32, child: u32) -> bool {
    exists|k: int| 0 <= k < entries.len() && #[trigger] entries[k] == (child, parent)
}

/// A chain of at least one and at most `steps` parent links leads from
/// `root` down to `p`.
pub open spec fn reaches_in(entries: Seq<(u32, u32)>, root: u32, p: u32, steps: nat) -> bool
    decreases steps,
{
    steps > 0 && (child_of(entries, root, p) || exists|q: u32|
        reaches_in(entries, root, q, (steps - 1) as nat) && #[trigger] child_of(entries, q, p))
}

/// A chain of one or more parent links leads from `root` down to `p`.
pub open spec fn reaches(entries: Seq<(u32, u32)>, root: u32, p: u32) -> bool {
    exists|steps: nat| reaches_in(entries, root, p, steps)
}

/// A child of the root, or of a process that the root reaches, is reached.
pub proof fn reaches_child(entries: Seq<(u32, u32)>, root: u32, parent: u32, child: u32)
    requires
        parent == root || reaches(entries, root, parent),
        child_of(entries, parent, child),
    ensures
        reaches(entries, root, child),
{
    if reaches(entries, root, parent) {
        let steps = choose|steps: nat| reaches_in(entries, root, parent, steps);
        assert(reaches_in(entries, root, child, steps + 1));
    } else {
        assert(reaches_in(entries, root, child, 1));
    }
}

/// How many entries are not used yet.
pub open spec fn unused(used: Seq<bool>) -> nat
    decreases used.len(),
{
    if used.len() == 0 {
        0
    } else {
        unused(used.drop_last()) + if used.last() {
            0nat
        } else {
            1nat
        }
    }
}

/// Using one more entry leaves one fewer unused.
pub proof fn unused_after_use(used: Seq<bool>, k: int)
    requires
        0 <= k < used.len(),
        !used[k],
    ensures
        unused(used.update(k, true)) + 1 == unused(used),
    decreases used.len(),
{
    let after = used.update(k, true);
    if k == used.len() - 1 {
        assert(after.drop_last() =~= used.drop_last());
    } else {
        assert(after.drop_last() =~= used.drop_last().update(k, true));
        unused_after_use(used.drop_last(), k);
    }
}

/// A set of processes that holds every child of the root and of each of
/// its own holds everything that the root reaches.
proof fn closed_set_holds_all(entries: Seq<(u32, u32)>, root: u32, found: Seq<u32>, p: u32, steps: nat)
    requires
        forall|q: u32, c: u32|
            (q == root || found.contains(q)) && #[trigger] child_of(entries, q, c)
                ==> found.contains(c),
        reaches_in(entries, root, p, steps),
    ensures
        found.contains(p),
    decreases steps,
{
    if !child_of(entries, root, p) {
        let q = choose|q: u32|
            reaches_in(entries, root, q, (steps - 1) as nat) && #[trigger] child_of(entries, q, p);
        closed_set_holds_all(entries, root, found, q, (steps - 1) as nat);
    }
}

fn holds_pid(pids: &Vec<u32>, pid: u32) -> (found: bool)
    ensures
        found == pids@.contains(pid),
{
    let mut i: usize = 0;
    while i < pids.len()
        invariant
            i <= pids@.len(),
            forall|j: int| 0 <= j < i ==> pids@[j] != pid,
        decreases pids@.len() - i,
    {
        if pids[i] == pid {
            return true;
        }
        i += 1;
    }
    false
}

/// The processes that descend from `root`: its children, their children,
/// and so on, each once. `entries` lists each process of the snapshot with
/// its parent. The root itself is among them only if the snapshot makes it
/// its own descendant.
pub fn descendants(entries: &Vec<(u32, u32)>, root: u32) -> (found: Vec<u32>)
    ensures
        found@.no_duplicates(),
        forall|p: u32| found@.contains(p) <==> reaches(entries@, root, p),
{
    let mut found: Vec<u32> = Vec::new();
    let mut stack: Vec<u32> = Vec::new();
    let mut used: Vec<bool> = Vec::new();
    while used.len() < entries.len()
        invariant
            used@.len() <= entries@.len(),
            forall|k: int| 0 <= k < used@.len() ==> !used@[k],
        decreases entries@.len() - used@.len(),
    {
        used.push(false);
    }
    stack.push(root);
    assert(stack@[0] == root);
    while stack.len() > 0
        invariant
            used@.len() == entries@.len(),
            found@.no_duplicates(),
            forall|k: int| 0 <= k < used@.len() && used@[k] ==> found@.contains(entries@[k].0),
            forall|a: int| 0 <= a < found@.len() ==> reaches(entries@, root, #[trigger] found@[a]),
            forall|a: int|
                0 <= a < stack@.len() ==> #[trigger] stack@[a] == root || reaches(
                    entries@,
                    root,
                    stack@[a],
                ),
            forall|q: u32, c: u32|
                (q == root || found@.contains(q)) && !stack@.contains(q) && #[trigger] child_of(
                    entries@,
                    q,
                    c,
                ) ==> found@.contains(c),
        decreases unused(used@) + stack@.len(),
    {
        let ghost stack_before = stack@;
        let ghost found_before = found@;
        let ghost budget = unused(used@) + stack@.len();
        let pid: u32 = stack.pop().unwrap();
        let ghost rest = stack@;
        proof {
            assert(pid == stack_before[stack_before.len() - 1]);
            assert(rest =~= stack_before.drop_last());
            assert forall|q: u32| stack_before.contains(q) implies q == pid || rest.contains(q) by {
                let a = choose|a: int| 0 <= a < stack_before.len() && stack_before[a] == q;
                if a < stack_before.len() - 1 {
                    assert(rest[a] == q);
                }
            }
        }
        let mut k: usize = 0;
        while k < entries.len()
            invariant
                k <= entries@.len(),
                used@.len() == entries@.len(),
                pid == root || reaches(entries@, root, pid),
                found@.no_duplicates(),
                forall|j: int| 0 <= j < used@.len() && used@[j] ==> found@.contains(entries@[j].0),
                forall|a: int|
                    0 <= a < found@.len() ==> reaches(entries@, root, #[trigger] found@[a]),
                forall|a: int|
                    0 <= a < stack@.len() ==> #[trigger] stack@[a] == root || reaches(
                        entries@,
                        root,
                        stack@[a],
                    ),
                forall|p: u32| found_before.contains(p) ==> found@.contains(p),
                forall|p: u32| rest.contains(p) ==> stack@.contains(p),
                forall|p: u32|
                    found@.contains(p) && !found_before.contains(p) ==> stack@.contains(p),
                forall|q: u32| stack_before.contains(q) ==> q == pid || rest.contains(q),
                forall|q: u32, c: u32|
                    (q == root || found_before.contains(q)) && !stack_before.contains(q)
                        && #[trigger] child_of(entries@, q, c) ==> found_before.contains(c),
                forall|j: int|
                    0 <= j < k && (#[trigger] entries@[j]).1 == pid ==> found@.contains(
                        entries@[j].0,
                    ),
                unused(used@) + stack@.len() + 1 == budget,
            decreases entries@.len() - k,
        {
            let (child, parent) = entries[k];
            if parent == pid && !holds_pid(&found, child) {
                let ghost found_prior = found@;
                let ghost stack_prior = stack@;
                proof {
                    unused_after_use(used@, k as int);
                    assert(child_of(entries@, pid, child)) by {
                        assert(entries@[k as int] == (child, pid));
                    }
                    reaches_child(entries@, root, pid, child);
                }
                used.set(k, true);
                found.push(child);
                stack.push(child);
                proof {
                    assert forall|p: u32| found_prior.contains(p) implies found@.contains(p) by {
                        let a = choose|a: int| 0 <= a < found_prior.len() && found_prior[a] == p;
                        assert(found@[a] == p);
                    }
                    assert forall|p: u32| stack_prior.contains(p) implies stack@.contains(p) by {
                        let a = choose|a: int| 0 <= a < stack_prior.len() && stack_prior[a] == p;
                        assert(stack@[a] == p);
                    }
                    assert(found@[found_prior.len() as int] == child);
                    assert(stack@[stack_prior.len() as int] == child);
                    assert forall|p: u32|
                        found@.contains(p) && !found_before.contains(p) implies stack@.contains(
                        p,
                    ) by {
                        let a = choose|a: int| 0 <= a < found@.len() && found@[a] == p;
                        if a < found_prior.len() {
                            assert(found_prior[a] == p);
                            assert(found_prior.contains(p));
                        }
                    }
                    assert forall|i: int, j: int|
                        0 <= i < found@.len() && 0 <= j < found@.len() && i != j implies found@[i]
                        != found@[j] by {
                        if i < found_prior.len() && j < found_prior.len() {
                            assert(found_prior[i] != found_prior[j]);
                        } else if i < found_prior.len() {
                            assert(found_prior.contains(found_prior[i]));
                        } else {
                            assert(found_prior.contains(found_prior[j]));
                        }
                    }
                }
            }
            k += 1;
        }
        proof {
            assert forall|q: u32, c: u32|
                (q == root || found@.contains(q)) && !stack@.contains(q) && #[trigger] child_of(
                    entries@,
                    q,
                    c,
                ) implies found@.contains(c) by {
                if q == pid {
                    let j = choose|j: int| 0 <= j < entries@.len() && #[trigger] entries@[j] == (c, q);
                    assert(entries@[j].1 == pid);
                } else {
                    assert(found_before.contains(c));
                }
            }
        }
    }
    proof {
        assert forall|p: u32| reaches(entries@, root, p) implies found@.contains(p) by {
            let steps = choose|steps: nat| reaches_in(entries@, root, p, steps);
            closed_set_holds_all(entries@, root, found@, p, steps);
        }
    }
    found
}

} // verus!
