//! Which windows the poll loop may hand to the engine at all.
use crate::grid::GridState;
use crate::model::GridModel;
use std::collections::HashSet;
use vstd::prelude::*;
use vstd::string::StringSliceAdditionalSpecFns;

verus! {

broadcast use vstd::std_specs::hash::group_hash_axioms;

/// The ASCII lower-case form of a byte.
pub open spec fn ascii_lower(b: u8) -> u8 {
    if 65 <= b <= 90 {
        (b + 32) as u8
    } else {
        b
    }
}

pub open spec fn starts_with(text: Seq<u8>, prefix: Seq<u8>) -> bool {
    prefix.len() <= text.len() && text.subrange(0, prefix.len() as int) == prefix
}

pub open spec fn same_ignoring_ascii_case(a: Seq<u8>, b: Seq<u8>) -> bool {
    a.len() == b.len() && forall|i: int| 0 <= i < a.len() ==> ascii_lower(a[i]) == ascii_lower(b[i])
}

/// Window classes that are never placed: helper windows of graphics
/// drivers, input methods and event loops.
pub open spec fn denied_class(name: Seq<u8>) -> bool {
    ||| name == "NVOpenGLPbuffer".spec_bytes()
    ||| starts_with(name, "wgpu Device Class".spec_bytes())
    ||| same_ignoring_ascii_case(name, "MSCTFIME UI".spec_bytes())
    ||| same_ignoring_ascii_case(name, "Default IME".spec_bytes())
    ||| starts_with(name, "temp_d3d_window_".spec_bytes())
    ||| name == "Winit Thread Event Target".spec_bytes()
}

/// The class of console windows, which do not take every size.
pub open spec fn console_class(name: Seq<u8>) -> bool {
    name == "ConsoleWindowClass".spec_bytes()
}

pub fn bytes_equal(a: &[u8], b: &[u8]) -> (same: bool)
    ensures
        same == (a@ == b@),
{
    if a.len() != b.len() {
        return false;
    }
    let mut i: usize = 0;
    while i < a.len()
        invariant
            i <= a@.len(),
            a@.len() == b@.len(),
            forall|j: int| 0 <= j < i ==> a@[j] == b@[j],
        decreases a@.len() - i,
    {
        if a[i] != b[i] {
            return false;
        }
        i += 1;
    }
    assert(a@ =~= b@);
    true
}

pub fn bytes_start_with(text: &[u8], prefix: &[u8]) -> (found: bool)
    ensures
        found == starts_with(text@, prefix@),
{
    if prefix.len() > text.len() {
        return false;
    }
    let mut i: usize = 0;
    while i < prefix.len()
        invariant
            i <= prefix@.len(),
            prefix@.len() <= text@.len(),
            forall|j: int| 0 <= j < i ==> text@[j] == prefix@[j],
        decreases prefix@.len() - i,
    {
        if text[i] != prefix[i] {
            assert(text@.subrange(0, prefix@.len() as int)[i as int] == text@[i as int]);
            return false;
        }
        i += 1;
    }
    assert(text@.subrange(0, prefix@.len() as int) =~= prefix@);
    true
}

pub fn byte_to_ascii_lower(b: u8) -> (lower: u8)
    ensures
        lower == ascii_lower(b),
{
    if 65 <= b && b <= 90 {
        b + 32
    } else {
        b
    }
}

pub fn bytes_equal_ignoring_ascii_case(a: &[u8], b: &[u8]) -> (same: bool)
    ensures
        same == same_ignoring_ascii_case(a@, b@),
{
    if a.len() != b.len() {
        return false;
    }
    let mut i: usize = 0;
    while i < a.len()
        invariant
            i <= a@.len(),
            a@.len() == b@.len(),
            forall|j: int| 0 <= j < i ==> ascii_lower(a@[j]) == ascii_lower(b@[j]),
        decreases a@.len() - i,
    {
        if byte_to_ascii_lower(a[i]) != byte_to_ascii_lower(b[i]) {
            return false;
        }
        i += 1;
    }
    true
}

/// Whether a window class is on the denylist.
pub fn is_denied_class(class_name: &str) -> (denied: bool)
    ensures
        denied == denied_class(class_name.spec_bytes()),
{
    let name = class_name.as_bytes();
    bytes_equal(name, "NVOpenGLPbuffer".as_bytes()) || bytes_start_with(
        name,
        "wgpu Device Class".as_bytes(),
    ) || bytes_equal_ignoring_ascii_case(name, "MSCTFIME UI".as_bytes())
        || bytes_equal_ignoring_ascii_case(name, "Default IME".as_bytes()) || bytes_start_with(
        name,
        "temp_d3d_window_".as_bytes(),
    ) || bytes_equal(name, "Winit Thread Event Target".as_bytes())
}

/// Whether a window class is that of console windows.
pub fn is_console_class(class_name: &str) -> (console: bool)
    ensures
        console == console_class(class_name.spec_bytes()),
{
    bytes_equal(class_name.as_bytes(), "ConsoleWindowClass".as_bytes())
}

/// Whether `hwnd` appeared after the snapshot `initial` was taken.
pub fn is_hwnd_new(initial: &HashSet<isize>, hwnd: isize) -> (fresh: bool)
    ensures
        fresh == !initial@.contains(hwnd),
{
    !initial.contains(&hwnd)
}

/// What the platform reports of a window that the poll loop has found.
#[derive(Clone, Copy, Debug, PartialEq, Eq)]
pub struct WindowFacts {
    /// The handle still names a window.
    pub exists: bool,
    pub visible: bool,
    /// The window has a parent window, so it is not top-level.
    pub has_parent: bool,
}

impl GridModel {
    /// A window is eligible if it has a handle, appeared after the
    /// snapshot, is not of a denied class, exists, is visible and
    /// top-level, has not failed `max_hwnd_retries` times, does not belong
    /// to a failed process, and is not the given parent.
    pub open spec fn eligible_window(
        self,
        hwnd: isize,
        pid: u32,
        parent_hwnd: Option<isize>,
        class_name: Seq<u8>,
        facts: WindowFacts,
        initial: Set<isize>,
        failed_pids: Set<u32>,
        max_hwnd_retries: u32,
    ) -> bool {
        &&& hwnd != 0
        &&& !initial.contains(hwnd)
        &&& !denied_class(class_name)
        &&& facts.exists
        &&& facts.visible
        &&& !facts.has_parent
        &&& !(self.failures.contains_key(hwnd) && self.failures[hwnd] >= max_hwnd_retries)
        &&& !failed_pids.contains(pid)
        &&& parent_hwnd != Some(hwnd)
    }
}

impl GridState {
    /// The filter of the poll loop: whether a window that the loop has
    /// found may be handed to the engine.
    pub fn is_hwnd_eligible(
        &self,
        hwnd: isize,
        pid: u32,
        parent_hwnd: Option<isize>,
        class_name: &str,
        facts: WindowFacts,
        initial: &HashSet<isize>,
        failed_pids: &HashSet<u32>,
        max_hwnd_retries: u32,
    ) -> (eligible: bool)
        ensures
            eligible == self@.eligible_window(
                hwnd,
                pid,
                parent_hwnd,
                class_name.spec_bytes(),
                facts,
                initial@,
                failed_pids@,
                max_hwnd_retries,
            ),
    {
        if hwnd == 0 {
            return false;
        }
        if !is_hwnd_new(initial, hwnd) {
            return false;
        }
        if is_denied_class(class_name) {
            return false;
        }
        if !facts.exists || !facts.visible || facts.has_parent {
            return false;
        }
        if let Some(count) = self.failed_hwnds.get(&hwnd) {
            if *count >= max_hwnd_retries {
                return false;
            }
        }
        if failed_pids.contains(&pid) {
            return false;
        }
        match parent_hwnd {
            Some(parent) => hwnd != parent,
            None => true,
        }
    }
}

} // verus!
