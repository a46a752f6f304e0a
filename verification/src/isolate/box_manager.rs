//! Boxes: the supervisor's numbered sandbox slots, and a pool that hands
//! their numbers out.
//!
//! A file of a box has two paths. On the host it lies under the box
//! directory, in `box/`; inside the sandbox the same directory is `/box`.
//! The supervisor opens redirections inside the sandbox and writes its
//! report from outside, so both are needed.

use vstd::prelude::*;
use crate::decimal::decimal;
use crate::isolate::command::{command_args, IsolateAction, IsolateCommand};
use crate::isolate::error::IsolateError;
use crate::isolate::host::{join, join_path, path_exists};
use crate::text::{
    concat2, contains, occurs_at, starts_with, string_of, texts, to_chars, trim, trim_range,
};

verus! {

/// Two dots stand side by side somewhere in `name`.
pub open spec fn has_dot_dot(name: Seq<char>) -> bool {
    exists|i: int| 0 <= i < name.len() - 1 && #[trigger] name[i] == '.' && name[i + 1] == '.'
}

/// A name may be used for a file of a box unless it holds `..` or begins
/// with `/`.
pub open spec fn name_allowed(name: Seq<char>) -> bool {
    !has_dot_dot(name) && !(name.len() > 0 && name[0] == '/')
}

/// A name is refused exactly where the text `..` occurs in it or it begins
/// with the text `/`.
pub proof fn lemma_name_allowed(name: Seq<char>)
    ensures
        name_allowed(name) <==> !contains(name, ".."@) && !starts_with(name, "/"@),
{
    reveal_strlit("..");
    reveal_strlit("/");
    if has_dot_dot(name) {
        let i = choose|i: int| 0 <= i < name.len() - 1 && #[trigger] name[i] == '.' && name[i + 1]
            == '.';
        assert(name.subrange(i, i + 2) =~= ".."@);
        assert(occurs_at(name, ".."@, i));
    }
    if contains(name, ".."@) {
        let i = choose|i: int| occurs_at(name, ".."@, i);
        let w = name.subrange(i, i + 2);
        assert(w[0] == name[i] && w[1] == name[i + 1]);
        assert(name[i] == '.' && name[i + 1] == '.');
    }
    if name.len() > 0 && name[0] == '/' {
        assert(name.subrange(0, 1) =~= "/"@);
    }
    if starts_with(name, "/"@) {
        assert(name.subrange(0, 1)[0] == name[0]);
    }
}

/// Where the file `name` of the box at `box_path` lies on the host.
pub open spec fn host_path(box_path: Seq<char>, name: Seq<char>) -> Seq<char> {
    join_path(join_path(box_path, "box"@), name)
}

/// Where the file `name` of a box lies inside the sandbox.
pub open spec fn sandbox_path_of(name: Seq<char>) -> Seq<char> {
    join_path("/box"@, name)
}

/// What is reported for a name that may not be used.
pub open spec fn traversal_message(name: Seq<char>) -> Seq<char> {
    "path traversal not allowed: "@ + name
}

/// Whether `name` may be used for a file of a box.
pub fn name_is_allowed(name: &str) -> (b: bool)
    ensures
        b == name_allowed(name@),
{
    let v = to_chars(name);
    if v.len() > 0 && v[0] == '/' {
        return false;
    }
    if v.len() < 2 {
        return true;
    }
    let mut i: usize = 0;
    while i < v.len() - 1
        invariant
            i <= v.len() - 1,
            v.len() >= 2,
            v@ == name@,
            forall|j: int| 0 <= j < i && j < v.len() - 1 ==> !(#[trigger] v@[j] == '.' && v@[j + 1]
                == '.'),
        decreases v.len() - i,
    {
        if v[i] == '.' && v[i + 1] == '.' {
            return false;
        }
        i += 1;
    }
    true
}

/// Joining a directory and a relative name loses nothing of the name.
pub proof fn lemma_join_injective(base: Seq<char>, a: Seq<char>, b: Seq<char>)
    requires
        !(a.len() > 0 && a[0] == '/'),
        !(b.len() > 0 && b[0] == '/'),
        join_path(base, a) == join_path(base, b),
    ensures
        a == b,
{
    let prefix = if base.len() == 0 {
        Seq::<char>::empty()
    } else if base.last() == '/' {
        base
    } else {
        base + seq!['/']
    };
    assert(join_path(base, a) =~= prefix + a);
    assert(join_path(base, b) =~= prefix + b);
    assert(a.len() == b.len());
    assert forall|i: int| 0 <= i < a.len() implies a[i] == b[i] by {
        assert((prefix + a)[prefix.len() + i] == a[i]);
        assert((prefix + b)[prefix.len() + i] == b[i]);
    }
    assert(a =~= b);
}

/// Two allowed names with the same path on the host, or the same path in
/// the sandbox, are the same name.
pub proof fn lemma_paths_injective(box_path: Seq<char>, a: Seq<char>, b: Seq<char>)
    requires
        name_allowed(a),
        name_allowed(b),
    ensures
        host_path(box_path, a) == host_path(box_path, b) ==> a == b,
        sandbox_path_of(a) == sandbox_path_of(b) ==> a == b,
{
    if host_path(box_path, a) == host_path(box_path, b) {
        lemma_join_injective(join_path(box_path, "box"@), a, b);
    }
    if sandbox_path_of(a) == sandbox_path_of(b) {
        lemma_join_injective("/box"@, a, b);
    }
}

/// A box as plain values.
pub struct BoxView {
    pub id: u32,
    pub box_path: Seq<char>,
    pub isolate_path: Seq<char>,
    pub initialized: bool,
    pub cgroup: bool,
}

/// One sandbox slot of the supervisor.
#[derive(Debug)]
pub struct IsolateBox {
    id: u32,
    box_path: String,
    isolate_path: String,
    initialized: bool,
    cgroup: bool,
}

impl View for IsolateBox {
    type V = BoxView;

    closed spec fn view(&self) -> BoxView {
        BoxView {
            id: self.id,
            box_path: self.box_path@,
            isolate_path: self.isolate_path@,
            initialized: self.initialized,
            cgroup: self.cgroup,
        }
    }
}

/// The argument vector of `Init` or `Cleanup`: the supervisor, the box id,
/// `--cg` in control-group mode, and the action.
pub open spec fn lifecycle_args(isolate_path: Seq<char>, id: u32, cgroup: bool, word: Seq<char>) -> Seq<
    Seq<char>,
> {
    seq![isolate_path, "--box-id="@ + decimal(id as nat)] + (if cgroup {
        seq!["--cg"@]
    } else {
        Seq::empty()
    }) + seq![word]
}

/// What is reported where the supervisor names a box directory that is not
/// there.
pub open spec fn missing_box_message(box_path: Seq<char>) -> Seq<char> {
    "box path does not exist: "@ + box_path
}

fn lifecycle_command(isolate_path: &str, id: u32, cgroup: bool, action: IsolateAction) -> (args:
    Vec<String>)
    requires
        action != IsolateAction::Run,
    ensures
        texts(args@) == lifecycle_args(
            isolate_path@,
            id,
            cgroup,
            if action == IsolateAction::Init {
                "--init"@
            } else {
                "--cleanup"@
            },
        ),
{
    let command = IsolateCommand::new(isolate_path, id).action(action).cgroup(cgroup);
    let present: Vec<bool> = Vec::new();
    let args = command.build_with(&present);
    proof {
        let word = if action == IsolateAction::Init {
            "--init"@
        } else {
            "--cleanup"@
        };
        assert(command_args(command@, present@) =~= lifecycle_args(
            isolate_path@,
            id,
            cgroup,
            word,
        ));
    }
    args
}

impl IsolateBox {
    /// The box `id` with its directory at `box_path`, as it is after a
    /// successful `Init` (`initialized`) or after `Cleanup` (not).
    pub fn new(id: u32, box_path: &str, isolate_path: &str, cgroup: bool, initialized: bool) -> (b:
        Self)
        ensures
            b@ == (BoxView {
                id,
                box_path: box_path@,
                isolate_path: isolate_path@,
                initialized,
                cgroup,
            }),
    {
        IsolateBox {
            id,
            box_path: box_path.to_owned(),
            isolate_path: isolate_path.to_owned(),
            initialized,
            cgroup,
        }
    }

    /// The argument vector that sets box `id` up.
    pub fn init_command(id: u32, isolate_path: &str, cgroup: bool) -> (args: Vec<String>)
        ensures
            texts(args@) == lifecycle_args(isolate_path@, id, cgroup, "--init"@),
    {
        lifecycle_command(isolate_path, id, cgroup, IsolateAction::Init)
    }

    /// The box that an `Init` run leaves behind, given how the supervisor
    /// exited, what it printed, and whether the directory it named exists.
    /// A failed supervisor is reported with what it wrote to standard
    /// error. Otherwise its standard output, trimmed, is the box directory,
    /// which has to exist.
    pub fn from_init_report(
        id: u32,
        isolate_path: &str,
        cgroup: bool,
        success: bool,
        stdout: &str,
        stderr: &str,
        exists: bool,
    ) -> (r: Result<Self, IsolateError>)
        ensures
            match r {
                Ok(b) => success && exists && b@ == (BoxView {
                    id,
                    box_path: trim(stdout@),
                    isolate_path: isolate_path@,
                    initialized: true,
                    cgroup,
                }),
                Err(e) => {
                    &&& !(success && exists)
                    &&& e matches IsolateError::InitFailed { id: failed, message }
                    &&& failed == id
                    &&& message@ == (if !success {
                        stderr@
                    } else {
                        missing_box_message(trim(stdout@))
                    })
                },
            },
    {
        if !success {
            return Err(IsolateError::InitFailed { id, message: stderr.to_owned() });
        }
        let box_path = Self::reported_path(stdout);
        if !exists {
            return Err(
                IsolateError::InitFailed {
                    id,
                    message: concat2("box path does not exist: ", box_path.as_str()),
                },
            );
        }
        Ok(
            IsolateBox {
                id,
                box_path,
                isolate_path: isolate_path.to_owned(),
                initialized: true,
                cgroup,
            },
        )
    }

    /// The box directory that the supervisor printed: its standard output
    /// without surrounding whitespace.
    pub fn reported_path(stdout: &str) -> (p: String)
        ensures
            p@ == trim(stdout@),
    {
        let v = to_chars(stdout);
        assert(v@.subrange(0, v.len() as int) =~= v@);
        let (a, b) = trim_range(&v, 0, v.len());
        string_of(&v, a, b)
    }

    /// The box that an `Init` run leaves behind, given how the supervisor
    /// exited and what it printed. Whether the directory it named exists is
    /// asked of the host; the outcome is that of `from_init_report` for one
    /// of the two answers, and for a failed supervisor the host is not
    /// asked.
    pub fn from_init_output(
        id: u32,
        isolate_path: &str,
        cgroup: bool,
        success: bool,
        stdout: &str,
        stderr: &str,
    ) -> (r: Result<Self, IsolateError>)
        ensures
            match r {
                Ok(b) => success && b@ == (BoxView {
                    id,
                    box_path: trim(stdout@),
                    isolate_path: isolate_path@,
                    initialized: true,
                    cgroup,
                }),
                Err(e) => {
                    &&& e matches IsolateError::InitFailed { id: failed, message }
                    &&& failed == id
                    &&& message@ == (if !success {
                        stderr@
                    } else {
                        missing_box_message(trim(stdout@))
                    })
                },
            },
    {
        let exists = if success {
            let box_path = Self::reported_path(stdout);
            path_exists(box_path.as_str())
        } else {
            false
        };
        Self::from_init_report(id, isolate_path, cgroup, success, stdout, stderr, exists)
    }

    /// The number of the box.
    pub fn id(&self) -> (id: u32)
        ensures
            id == self@.id,
    {
        self.id
    }

    /// The box directory on the host.
    pub fn path(&self) -> (p: &str)
        ensures
            p@ == self@.box_path,
    {
        self.box_path.as_str()
    }

    /// The supervisor that owns the box.
    pub fn isolate_path(&self) -> (p: &str)
        ensures
            p@ == self@.isolate_path,
    {
        self.isolate_path.as_str()
    }

    /// Whether the box is in control-group mode.
    pub fn cgroup(&self) -> (b: bool)
        ensures
            b == self@.cgroup,
    {
        self.cgroup
    }

    /// Whether the box is set up and not yet torn down.
    pub fn is_initialized(&self) -> (b: bool)
        ensures
            b == self@.initialized,
    {
        self.initialized
    }

    /// Where the file `name` of the box lies on the host. A name that holds
    /// `..` or begins with `/` is refused.
    pub fn file_path(&self, name: &str) -> (r: Result<String, IsolateError>)
        ensures
            match r {
                Ok(p) => name_allowed(name@) && p@ == host_path(self@.box_path, name@),
                Err(e) => {
                    &&& !name_allowed(name@)
                    &&& e matches IsolateError::InvalidPath(message)
                    &&& message@ == traversal_message(name@)
                },
            },
    {
        if !name_is_allowed(name) {
            return Err(
                IsolateError::InvalidPath(concat2("path traversal not allowed: ", name)),
            );
        }
        let dir = join(self.box_path.as_str(), "box");
        Ok(join(dir.as_str(), name))
    }

    /// Where the file `name` of the box lies inside the sandbox. A name
    /// that holds `..` or begins with `/` is refused.
    pub fn sandbox_path(&self, name: &str) -> (r: Result<String, IsolateError>)
        ensures
            match r {
                Ok(p) => name_allowed(name@) && p@ == sandbox_path_of(name@),
                Err(e) => {
                    &&& !name_allowed(name@)
                    &&& e matches IsolateError::InvalidPath(message)
                    &&& message@ == traversal_message(name@)
                },
            },
    {
        if !name_is_allowed(name) {
            return Err(
                IsolateError::InvalidPath(concat2("path traversal not allowed: ", name)),
            );
        }
        Ok(join("/box", name))
    }

    /// The argument vector that tears the box down, or `None` where the box
    /// is not set up and there is nothing to do.
    pub fn cleanup_command(&self) -> (r: Option<Vec<String>>)
        ensures
            match r {
                Some(args) => self@.initialized && texts(args@) == lifecycle_args(
                    self@.isolate_path,
                    self@.id,
                    self@.cgroup,
                    "--cleanup"@,
                ),
                None => !self@.initialized,
            },
    {
        if !self.initialized {
            return None;
        }
        Some(
            lifecycle_command(
                self.isolate_path.as_str(),
                self.id,
                self.cgroup,
                IsolateAction::Cleanup,
            ),
        )
    }

    /// Records how a `Cleanup` run ended. After a successful one the box is
    /// no longer set up. A failed one is reported with what the supervisor
    /// wrote to standard error, and the box stays as it was.
    pub fn finish_cleanup(&mut self, success: bool, stderr: &str) -> (r: Result<(), IsolateError>)
        ensures
            match r {
                Ok(_) => success && final(self)@ == (BoxView { initialized: false, ..old(self)@ }),
                Err(e) => {
                    &&& !success
                    &&& final(self)@ == old(self)@
                    &&& e matches IsolateError::CleanupFailed { id, message }
                    &&& id == old(self)@.id
                    &&& message@ == stderr@
                },
            },
    {
        if !success {
            return Err(IsolateError::CleanupFailed { id: self.id, message: stderr.to_owned() });
        }
        self.initialized = false;
        Ok(())
    }
}

/// A pool as plain values.
pub struct PoolView {
    /// The first box number of the pool.
    pub start_id: u32,
    /// How many boxes the pool has.
    pub count: u32,
    /// How many boxes have been handed out since the pool was made,
    /// counted modulo `count`.
    pub next_offset: u32,
    /// How many boxes are handed out and not yet given back.
    pub outstanding: u32,
    /// The supervisor that owns the boxes.
    pub isolate_path: Seq<char>,
    /// Whether the boxes are in control-group mode.
    pub cgroup: bool,
}

/// The box numbers `start_id .. start_id + count`, handed out in turn and
/// never more than `count` at a time.
#[derive(Debug)]
pub struct BoxPool {
    start_id: u32,
    count: u32,
    isolate_path: String,
    cgroup: bool,
    next_offset: u32,
    outstanding: u32,
}

impl View for BoxPool {
    type V = PoolView;

    closed spec fn view(&self) -> PoolView {
        PoolView {
            start_id: self.start_id,
            count: self.count,
            next_offset: self.next_offset,
            outstanding: self.outstanding,
            isolate_path: self.isolate_path@,
            cgroup: self.cgroup,
        }
    }
}

impl BoxPool {
    #[verifier::type_invariant]
    spec fn well_formed(self) -> bool {
        &&& self.start_id + self.count <= u32::MAX + 1
        &&& self.outstanding <= self.count
        &&& self.next_offset <= self.count
        &&& self.count > 0 ==> self.next_offset < self.count
    }

    /// A pool of the `count` boxes from `start_id` on. The last of them
    /// must still be a box number.
    pub fn new(start_id: u32, count: u32, isolate_path: &str, cgroup: bool) -> (pool: Self)
        requires
            start_id + count <= u32::MAX + 1,
        ensures
            pool@ == (PoolView {
                start_id,
                count,
                next_offset: 0,
                outstanding: 0,
                isolate_path: isolate_path@,
                cgroup,
            }),
    {
        BoxPool {
            start_id,
            count,
            isolate_path: isolate_path.to_owned(),
            cgroup,
            next_offset: 0,
            outstanding: 0,
        }
    }

    /// Hands out the next box number, or `None` while all `count` boxes are
    /// out. The numbers go round from `start_id` to `start_id + count - 1`.
    /// At no time are more than `count` boxes out.
    pub fn try_acquire(&mut self) -> (r: Option<u32>)
        ensures
            old(self)@.outstanding <= old(self)@.count,
            final(self)@.outstanding <= final(self)@.count,
            final(self)@ == (PoolView {
                next_offset: final(self)@.next_offset,
                outstanding: final(self)@.outstanding,
                ..old(self)@
            }),
            match r {
                Some(id) => {
                    &&& old(self)@.outstanding < old(self)@.count
                    &&& id == old(self)@.start_id + old(self)@.next_offset
                    &&& old(self)@.start_id <= id < old(self)@.start_id + old(self)@.count
                    &&& final(self)@.outstanding == old(self)@.outstanding + 1
                    &&& final(self)@.next_offset == (old(self)@.next_offset + 1) % (
                    old(self)@.count as int)
                },
                None => old(self)@.outstanding == old(self)@.count && final(self)@ == old(self)@,
            },
    {
        proof {
            use_type_invariant(&*self);
        }
        if self.outstanding >= self.count {
            return None;
        }
        let id: u32 = self.start_id + self.next_offset;
        let next: u32 = if self.next_offset + 1 == self.count {
            0
        } else {
            self.next_offset + 1
        };
        proof {
            let n = self.next_offset as int;
            let c = self.count as int;
            if n + 1 == c {
                assert((n + 1) % c == 0) by (nonlinear_arith)
                    requires
                        n + 1 == c,
                        c > 0,
                ;
            } else {
                assert((n + 1) % c == n + 1) by (nonlinear_arith)
                    requires
                        0 <= n + 1 < c,
                ;
            }
        }
        self.next_offset = next;
        self.outstanding = self.outstanding + 1;
        Some(id)
    }

    /// Takes a box back. With no box out nothing changes.
    pub fn release(&mut self)
        ensures
            final(self)@ == (PoolView {
                outstanding: if old(self)@.outstanding > 0 {
                    (old(self)@.outstanding - 1) as u32
                } else {
                    0
                },
                ..old(self)@
            }),
    {
        proof {
            use_type_invariant(&*self);
        }
        if self.outstanding > 0 {
            self.outstanding = self.outstanding - 1;
        }
    }

    /// How many boxes can be handed out right now.
    pub fn available(&self) -> (n: usize)
        ensures
            self@.outstanding <= self@.count,
            n == self@.count - self@.outstanding,
    {
        proof {
            use_type_invariant(self);
        }
        (self.count - self.outstanding) as usize
    }

    /// How many boxes the pool has.
    pub fn capacity(&self) -> (n: u32)
        ensures
            n == self@.count,
    {
        self.count
    }

    /// The supervisor that owns the boxes.
    pub fn isolate_path(&self) -> (p: &str)
        ensures
            p@ == self@.isolate_path,
    {
        self.isolate_path.as_str()
    }

    /// Whether the boxes are in control-group mode.
    pub fn cgroup(&self) -> (b: bool)
        ensures
            b == self@.cgroup,
    {
        self.cgroup
    }
}

} // verus!
