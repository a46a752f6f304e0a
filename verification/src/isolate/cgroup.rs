//! Preparing control groups (version 2) for the supervisor.
//!
//! Reading and writing the control-group files is the caller's part. The
//! functions here decide from what was read whether anything has to be
//! done, and list what has to be written.

use vstd::prelude::*;
use crate::decimal::{decimal, decimal_string};
use crate::isolate::host::{join, join_path};
use crate::text::{is_space, is_space_char, occurs_at_exec, to_chars};

verus! {

/// `s[i..j]` is one of the words of `s`: a longest stretch without
/// whitespace.
pub open spec fn is_word_at(s: Seq<char>, i: int, j: int) -> bool {
    &&& 0 <= i < j <= s.len()
    &&& forall|k: int| i <= k < j ==> !is_space(#[trigger] s[k])
    &&& (i == 0 || is_space(s[i - 1]))
    &&& (j == s.len() || is_space(s[j]))
}

/// `word` is one of the whitespace-separated words of `s`.
pub open spec fn has_word(s: Seq<char>, word: Seq<char>) -> bool {
    exists|i: int, j: int| is_word_at(s, i, j) && #[trigger] s.subrange(i, j) == word
}

/// Whether `name` is one of the whitespace-separated words of `text`: so
/// a control-group file lists its controllers.
pub fn lists_controller(text: &str, name: &str) -> (b: bool)
    ensures
        b == has_word(text@, name@),
{
    let v = to_chars(text);
    let w = to_chars(name);
    let ghost s = v@;
    let mut i: usize = 0;
    while i < v.len()
        invariant
            i <= v.len(),
            s == v@,
            s == text@,
            w@ == name@,
            i == 0 || i == s.len() || is_space(s[i - 1]) || is_space(s[i as int]),
            forall|a: int, b: int|
                is_word_at(s, a, b) && a < i ==> #[trigger] s.subrange(a, b) != w@,
        decreases v.len() - i,
    {
        if is_space_char(v[i]) {
            i += 1;
        } else {
            let start: usize = i;
            let mut j: usize = i + 1;
            while j < v.len() && !is_space_char(v[j])
                invariant
                    start < j <= v.len(),
                    s == v@,
                    forall|k: int| start <= k < j ==> !is_space(#[trigger] s[k]),
                decreases v.len() - j,
            {
                j += 1;
            }
            assert(is_word_at(s, start as int, j as int));
            if j - start == w.len() && occurs_at_exec(&v, &w, start) {
                return true;
            }
            proof {
                assert forall|a: int, b: int| is_word_at(s, a, b) && a < j implies #[trigger] s.subrange(
                    a,
                    b,
                ) != w@ by {
                    if a >= start {
                        if a > start {
                            assert(!is_space(s[a - 1]));
                        }
                        if b < j {
                            assert(!is_space(s[b]));
                        }
                        if b > j {
                            assert(is_space(s[j as int]));
                        }
                        assert(a == start && b == j);
                    }
                }
            }
            i = j;
        }
    }
    proof {
        assert forall|a: int, b: int| is_word_at(s, a, b) implies #[trigger] s.subrange(a, b)
            != w@ by {}
    }
    false
}

/// What stands between the supervisor and control groups.
#[derive(Debug, Clone, Copy, PartialEq, Eq, Structural)]
pub enum CgroupState {
    /// Control groups cannot be used: there is no version 2 hierarchy, or
    /// it lacks the memory controller.
    Unavailable,
    /// The supervisor's group has the memory controller already.
    Ready,
    /// The controllers have to be enabled first.
    NeedsSetup,
}

/// Decides from two files what is to be done. `controllers` is what the
/// controllers file of the hierarchy holds, `None` where there is none;
/// `root_subtree` is what the subtree-control file of the supervisor's
/// group holds, `None` where it could not be read.
pub fn cgroup_state(controllers: Option<&str>, root_subtree: Option<&str>) -> (state: CgroupState)
    ensures
        state == (match controllers {
            None => CgroupState::Unavailable,
            Some(c) => if !has_word(c@, "memory"@) {
                CgroupState::Unavailable
            } else if root_subtree is Some && has_word(root_subtree->0@, "memory"@) {
                CgroupState::Ready
            } else {
                CgroupState::NeedsSetup
            },
        }),
{
    match controllers {
        None => CgroupState::Unavailable,
        Some(c) => {
            if !lists_controller(c, "memory") {
                return CgroupState::Unavailable;
            }
            match root_subtree {
                Some(subtree) => {
                    if lists_controller(subtree, "memory") {
                        CgroupState::Ready
                    } else {
                        CgroupState::NeedsSetup
                    }
                },
                None => CgroupState::NeedsSetup,
            }
        },
    }
}

/// One step of the setup.
#[derive(Debug)]
pub enum CgroupOp {
    /// Create the directory unless it is there.
    EnsureDir(String),
    /// Write `content` to the file at `path`.
    Write { path: String, content: String },
}

/// One step of the setup as plain values.
pub enum CgroupOpView {
    EnsureDir(Seq<char>),
    Write { path: Seq<char>, content: Seq<char> },
}

impl View for CgroupOp {
    type V = CgroupOpView;

    open spec fn view(&self) -> CgroupOpView {
        match self {
            CgroupOp::EnsureDir(path) => CgroupOpView::EnsureDir(path@),
            CgroupOp::Write { path, content } => CgroupOpView::Write {
                path: path@,
                content: content@,
            },
        }
    }
}

/// The views of a list of steps.
pub open spec fn op_views(ops: Seq<CgroupOp>) -> Seq<CgroupOpView> {
    Seq::new(ops.len(), |i: int| ops[i]@)
}

/// The steps that enable the memory and process-number controllers for
/// the supervisor's group at `cg_root`, in order. The process `pid` first
/// moves into a leaf group of its own, since a group with processes in it
/// cannot hand controllers down.
pub open spec fn setup_plan(cg_root: Seq<char>, pid: u32) -> Seq<CgroupOpView> {
    seq![
        CgroupOpView::EnsureDir("/sys/fs/cgroup/init"@),
        CgroupOpView::Write {
            path: "/sys/fs/cgroup/init/cgroup.procs"@,
            content: decimal(pid as nat),
        },
        CgroupOpView::Write {
            path: "/sys/fs/cgroup/cgroup.subtree_control"@,
            content: "+memory +pids"@,
        },
        CgroupOpView::EnsureDir(cg_root),
        CgroupOpView::Write {
            path: join_path(cg_root, "cgroup.subtree_control"@),
            content: "+memory +pids"@,
        },
    ]
}

/// The steps of the setup, to be carried out in order until one fails.
pub fn setup_ops(cg_root: &str, pid: u32) -> (ops: Vec<CgroupOp>)
    ensures
        op_views(ops@) == setup_plan(cg_root@, pid),
{
    let mut ops: Vec<CgroupOp> = Vec::new();
    ops.push(CgroupOp::EnsureDir("/sys/fs/cgroup/init".to_owned()));
    ops.push(
        CgroupOp::Write {
            path: "/sys/fs/cgroup/init/cgroup.procs".to_owned(),
            content: decimal_string(pid as u64),
        },
    );
    ops.push(
        CgroupOp::Write {
            path: "/sys/fs/cgroup/cgroup.subtree_control".to_owned(),
            content: "+memory +pids".to_owned(),
        },
    );
    ops.push(CgroupOp::EnsureDir(cg_root.to_owned()));
    ops.push(
        CgroupOp::Write {
            path: join(cg_root, "cgroup.subtree_control"),
            content: "+memory +pids".to_owned(),
        },
    );
    assert(op_views(ops@) =~= setup_plan(cg_root@, pid));
    ops
}

/// The file that lists the controllers of the hierarchy.
pub fn controllers_file() -> (p: String)
    ensures
        p@ == "/sys/fs/cgroup/cgroup.controllers"@,
{
    "/sys/fs/cgroup/cgroup.controllers".to_owned()
}

/// The file that lists the controllers which the group at `cg_root` hands
/// down.
pub fn subtree_control_file(cg_root: &str) -> (p: String)
    ensures
        p@ == join_path(cg_root@, "cgroup.subtree_control"@),
{
    join(cg_root, "cgroup.subtree_control")
}

} // verus!
