//! What holds of every argument vector.

use vstd::prelude::*;
use crate::decimal::decimal;
use crate::isolate::command::{
    command_args, count_text, env_arg, env_args, env_inherit_arg, flag, head_args, io_args,
    limit_args, mount_arg, mount_args, mount_args_upto, run_options, seconds_text,
    small_count_text, CommandView, IsolateAction,
};
use crate::text::starts_with;
use crate::types::{MountView, ResourceLimits};

verus! {

/// For `Init` and `Cleanup` the argument vector is the supervisor, the box
/// id, `--cg` in control-group mode, and the action: three or four tokens,
/// whatever else the command holds.
pub proof fn lemma_lifecycle_args(c: CommandView, present: Seq<bool>)
    requires
        c.action != IsolateAction::Run,
    ensures
        ({
            let args = command_args(c, present);
            let word = if c.action == IsolateAction::Init {
                "--init"@
            } else {
                "--cleanup"@
            };
            let id = "--box-id="@ + decimal(c.box_id as nat);
            &&& c.cgroup ==> args == seq![c.isolate_path, id, "--cg"@, word]
            &&& !c.cgroup ==> args == seq![c.isolate_path, id, word]
            &&& args.len() == 3 || args.len() == 4
        }),
{
    let args = command_args(c, present);
    let word = if c.action == IsolateAction::Init {
        "--init"@
    } else {
        "--cleanup"@
    };
    let id = "--box-id="@ + decimal(c.box_id as nat);
    if c.cgroup {
        assert(args =~= seq![c.isolate_path, id, "--cg"@, word]);
    } else {
        assert(args =~= seq![c.isolate_path, id, word]);
    }
}

/// No element of `s` begins with `prefix`.
pub open spec fn none_starts_with(s: Seq<Seq<char>>, prefix: Seq<char>) -> bool {
    forall|i: int| 0 <= i < s.len() ==> !starts_with(#[trigger] s[i], prefix)
}

/// The third to fifth characters of a flag: enough to tell the supervisor's
/// flags apart.
spec fn signature(x: Seq<char>) -> (char, char, char) {
    (x[2], x[3], x[4])
}

proof fn lemma_signature_of_prefixed(x: Seq<char>, p: Seq<char>)
    requires
        p.len() >= 5,
        starts_with(x, p),
    ensures
        x.len() >= 5,
        signature(x) == signature(p),
{
    let w = x.subrange(0, p.len() as int);
    assert(w[2] == x[2]);
    assert(w[3] == x[3]);
    assert(w[4] == x[4]);
}

proof fn lemma_signature_of_extended(q: Seq<char>, rest: Seq<char>)
    requires
        q.len() >= 5,
    ensures
        (q + rest).len() >= 5,
        signature(q + rest) == signature(q),
{
}

/// The prefixes of the flags that carry a resource limit.
spec fn is_limit_prefix(p: Seq<char>) -> bool {
    ||| p == "--time="@
    ||| p == "--wall-time="@
    ||| p == "--extra-time="@
    ||| p == "--mem="@
    ||| p == "--cg-mem="@
    ||| p == "--stack="@
    ||| p == "--processes="@
    ||| p == "--fsize="@
    ||| p == "--open-files="@
}

proof fn reveal_limit_prefixes()
    ensures
        "--time="@.len() == 7 && signature("--time="@) == ('t', 'i', 'm'),
        "--wall-time="@.len() == 12 && signature("--wall-time="@) == ('w', 'a', 'l'),
        "--extra-time="@.len() == 13 && signature("--extra-time="@) == ('e', 'x', 't'),
        "--mem="@.len() == 6 && signature("--mem="@) == ('m', 'e', 'm'),
        "--cg-mem="@.len() == 9 && signature("--cg-mem="@) == ('c', 'g', '-'),
        "--stack="@.len() == 8 && signature("--stack="@) == ('s', 't', 'a'),
        "--processes="@.len() == 12 && signature("--processes="@) == ('p', 'r', 'o'),
        "--fsize="@.len() == 8 && signature("--fsize="@) == ('f', 's', 'i'),
        "--open-files="@.len() == 13 && signature("--open-files="@) == ('o', 'p', 'e'),
{
    reveal_strlit("--time=");
    reveal_strlit("--wall-time=");
    reveal_strlit("--extra-time=");
    reveal_strlit("--mem=");
    reveal_strlit("--cg-mem=");
    reveal_strlit("--stack=");
    reveal_strlit("--processes=");
    reveal_strlit("--fsize=");
    reveal_strlit("--open-files=");
}

proof fn reveal_other_heads()
    ensures
        "--box-id="@.len() == 9 && signature("--box-id="@) == ('b', 'o', 'x'),
        "--cg"@.len() == 4,
        "--run"@.len() == 5 && signature("--run"@) == ('r', 'u', 'n'),
        "--dir="@.len() == 6 && signature("--dir="@) == ('d', 'i', 'r'),
        "--full-env"@.len() == 10 && signature("--full-env"@) == ('f', 'u', 'l'),
        "--env="@.len() == 6 && signature("--env="@) == ('e', 'n', 'v'),
        "--meta="@.len() == 7 && signature("--meta="@) == ('m', 'e', 't'),
        "--stdin="@.len() == 8 && signature("--stdin="@) == ('s', 't', 'd'),
        "--stdout="@.len() == 9 && signature("--stdout="@) == ('s', 't', 'd'),
        "--stderr="@.len() == 9 && signature("--stderr="@) == ('s', 't', 'd'),
        "--chdir="@.len() == 8 && signature("--chdir="@) == ('c', 'h', 'd'),
{
    reveal_strlit("--box-id=");
    reveal_strlit("--cg");
    reveal_strlit("--run");
    reveal_strlit("--dir=");
    reveal_strlit("--full-env");
    reveal_strlit("--env=");
    reveal_strlit("--meta=");
    reveal_strlit("--stdin=");
    reveal_strlit("--stdout=");
    reveal_strlit("--stderr=");
    reveal_strlit("--chdir=");
}

/// A token that begins with a flag of another kind does not look like the
/// limit flag `p`.
proof fn lemma_other_flag(q: Seq<char>, rest: Seq<char>, p: Seq<char>)
    requires
        is_limit_prefix(p),
        q.len() >= 5,
        signature(q) != signature(p),
    ensures
        !starts_with(q + rest, p),
{
    reveal_limit_prefixes();
    lemma_signature_of_extended(q, rest);
    if starts_with(q + rest, p) {
        lemma_signature_of_prefixed(q + rest, p);
    }
}

proof fn lemma_none_starts_with_join(a: Seq<Seq<char>>, b: Seq<Seq<char>>, p: Seq<char>)
    requires
        none_starts_with(a, p),
        none_starts_with(b, p),
    ensures
        none_starts_with(a + b, p),
{
    assert forall|i: int| 0 <= i < (a + b).len() implies !starts_with(#[trigger] (a + b)[i], p) by {
        if i < a.len() {
            assert((a + b)[i] == a[i]);
        } else {
            assert((a + b)[i] == b[i - a.len()]);
        }
    }
}

proof fn lemma_flag_avoids(q: Seq<char>, value: Option<Seq<char>>, p: Seq<char>)
    requires
        is_limit_prefix(p),
        q.len() >= 5,
        value is Some ==> signature(q) != signature(p),
    ensures
        none_starts_with(flag(q, value), p),
{
    match value {
        Some(v) => {
            lemma_other_flag(q, v, p);
        },
        None => {},
    }
}

proof fn lemma_head_avoids(c: CommandView, p: Seq<char>)
    requires
        is_limit_prefix(p),
    ensures
        none_starts_with(head_args(c).skip(1).push("--run"@), p),
{
    reveal_limit_prefixes();
    reveal_other_heads();
    let s = head_args(c).skip(1).push("--run"@);
    assert forall|i: int| 0 <= i < s.len() implies !starts_with(#[trigger] s[i], p) by {
        if i == 0 {
            assert(s[0] == "--box-id="@ + decimal(c.box_id as nat));
            lemma_other_flag("--box-id="@, decimal(c.box_id as nat), p);
        } else if c.cgroup && i == 1 {
            assert(s[1] == "--cg"@);
        } else {
            assert(s[i] == "--run"@);
            assert("--run"@ + Seq::<char>::empty() =~= "--run"@);
            lemma_other_flag("--run"@, Seq::empty(), p);
        }
    }
}

proof fn lemma_mount_avoids(m: MountView, p: Seq<char>)
    requires
        is_limit_prefix(p),
    ensures
        !starts_with(mount_arg(m), p),
{
    reveal_limit_prefixes();
    reveal_other_heads();
    let o1 = if m.writable {
        ":rw"@
    } else {
        Seq::empty()
    };
    let o2 = if m.optional {
        ":maybe"@
    } else {
        Seq::empty()
    };
    let rest = m.target + "="@ + m.source + o1 + o2;
    assert(mount_arg(m) =~= "--dir="@ + rest);
    lemma_other_flag("--dir="@, rest, p);
}

proof fn lemma_mounts_avoid(mounts: Seq<MountView>, present: Seq<bool>, n: int, p: Seq<char>)
    requires
        is_limit_prefix(p),
    ensures
        none_starts_with(mount_args_upto(mounts, present, n), p),
    decreases n,
{
    if n > 0 {
        lemma_mounts_avoid(mounts, present, n - 1, p);
        lemma_mount_avoids(mounts[n - 1], p);
    }
}

proof fn lemma_env_avoids(c: CommandView, p: Seq<char>)
    requires
        is_limit_prefix(p),
    ensures
        none_starts_with(env_args(c), p),
{
    reveal_limit_prefixes();
    reveal_other_heads();
    let e1: Seq<Seq<char>> = if c.full_env {
        seq!["--full-env"@]
    } else {
        Seq::empty()
    };
    let e2 = Seq::new(c.env.len(), |i: int| env_arg(c.env[i]));
    let e3 = Seq::new(c.env_inherit.len(), |i: int| env_inherit_arg(c.env_inherit[i]));
    assert(none_starts_with(e1, p)) by {
        assert("--full-env"@ + Seq::<char>::empty() =~= "--full-env"@);
        lemma_other_flag("--full-env"@, Seq::empty(), p);
    }
    assert forall|i: int| 0 <= i < e2.len() implies !starts_with(#[trigger] e2[i], p) by {
        let rest = c.env[i].0 + "="@ + c.env[i].1;
        assert(env_arg(c.env[i]) =~= "--env="@ + rest);
        lemma_other_flag("--env="@, rest, p);
    }
    assert forall|i: int| 0 <= i < e3.len() implies !starts_with(#[trigger] e3[i], p) by {
        lemma_other_flag("--env="@, c.env_inherit[i], p);
    }
    lemma_none_starts_with_join(e1, e2, p);
    lemma_none_starts_with_join(e1 + e2, e3, p);
}

proof fn lemma_io_avoids(c: CommandView, p: Seq<char>)
    requires
        is_limit_prefix(p),
    ensures
        none_starts_with(io_args(c), p),
{
    reveal_limit_prefixes();
    reveal_other_heads();
    let f1 = flag("--meta="@, c.meta_file);
    let f2 = flag("--stdin="@, c.stdin);
    let f3 = flag("--stdout="@, c.stdout);
    let f4 = flag("--stderr="@, c.stderr);
    let f5 = flag("--chdir="@, c.working_dir);
    lemma_flag_avoids("--meta="@, c.meta_file, p);
    lemma_flag_avoids("--stdin="@, c.stdin, p);
    lemma_flag_avoids("--stdout="@, c.stdout, p);
    lemma_flag_avoids("--stderr="@, c.stderr, p);
    lemma_flag_avoids("--chdir="@, c.working_dir, p);
    lemma_none_starts_with_join(f1, f2, p);
    lemma_none_starts_with_join(f1 + f2, f3, p);
    lemma_none_starts_with_join(f1 + f2 + f3, f4, p);
    lemma_none_starts_with_join(f1 + f2 + f3 + f4, f5, p);
}

/// The limit that the flag `p` carries is not set, or the flag belongs to
/// the memory mode that is off.
spec fn flag_unused(l: ResourceLimits, cgroup: bool, p: Seq<char>) -> bool {
    ||| p == "--time="@ && l.time_limit is None
    ||| p == "--wall-time="@ && l.wall_time_limit is None
    ||| p == "--extra-time="@ && l.extra_time is None
    ||| p == "--mem="@ && (l.memory_limit is None || cgroup)
    ||| p == "--cg-mem="@ && (l.memory_limit is None || !cgroup)
    ||| p == "--stack="@ && l.stack_limit is None
    ||| p == "--processes="@ && l.max_processes is None
    ||| p == "--fsize="@ && l.max_output is None
    ||| p == "--open-files="@ && l.max_open_files is None
}

proof fn lemma_limits_avoid(l: ResourceLimits, cgroup: bool, p: Seq<char>)
    requires
        flag_unused(l, cgroup, p),
    ensures
        none_starts_with(limit_args(l, cgroup), p),
{
    reveal_limit_prefixes();
    let mem = if cgroup {
        "--cg-mem="@
    } else {
        "--mem="@
    };
    let f1 = flag("--time="@, seconds_text(l.time_limit));
    let f2 = flag("--wall-time="@, seconds_text(l.wall_time_limit));
    let f3 = flag("--extra-time="@, seconds_text(l.extra_time));
    let f4 = flag(mem, count_text(l.memory_limit));
    let f5 = flag("--stack="@, count_text(l.stack_limit));
    let f6 = flag("--processes="@, small_count_text(l.max_processes));
    let f7 = flag("--fsize="@, count_text(l.max_output));
    let f8 = flag("--open-files="@, small_count_text(l.max_open_files));
    lemma_flag_avoids("--time="@, seconds_text(l.time_limit), p);
    lemma_flag_avoids("--wall-time="@, seconds_text(l.wall_time_limit), p);
    lemma_flag_avoids("--extra-time="@, seconds_text(l.extra_time), p);
    lemma_flag_avoids(mem, count_text(l.memory_limit), p);
    lemma_flag_avoids("--stack="@, count_text(l.stack_limit), p);
    lemma_flag_avoids("--processes="@, small_count_text(l.max_processes), p);
    lemma_flag_avoids("--fsize="@, count_text(l.max_output), p);
    lemma_flag_avoids("--open-files="@, small_count_text(l.max_open_files), p);
    lemma_none_starts_with_join(f1, f2, p);
    lemma_none_starts_with_join(f1 + f2, f3, p);
    lemma_none_starts_with_join(f1 + f2 + f3, f4, p);
    lemma_none_starts_with_join(f1 + f2 + f3 + f4, f5, p);
    lemma_none_starts_with_join(f1 + f2 + f3 + f4 + f5, f6, p);
    lemma_none_starts_with_join(f1 + f2 + f3 + f4 + f5 + f6, f7, p);
    lemma_none_starts_with_join(f1 + f2 + f3 + f4 + f5 + f6 + f7, f8, p);
}

/// The flags of a run: what stands between the supervisor's path and the
/// `--` that ends the options.
pub open spec fn run_flags(c: CommandView, present: Seq<bool>) -> Seq<Seq<char>> {
    head_args(c).skip(1).push("--run"@) + run_options(c, present)
}

/// A run's argument vector is the supervisor's path, the flags, `--`, and
/// the command to run.
pub proof fn lemma_run_args_shape(c: CommandView, present: Seq<bool>)
    requires
        c.action == IsolateAction::Run,
    ensures
        command_args(c, present) == seq![c.isolate_path] + run_flags(c, present) + seq!["--"@]
            + c.command,
{
    assert(command_args(c, present) =~= seq![c.isolate_path] + run_flags(c, present) + seq![
        "--"@,
    ] + c.command);
}

proof fn lemma_flags_avoid(c: CommandView, present: Seq<bool>, p: Seq<char>)
    requires
        flag_unused(c.limits, c.cgroup, p),
    ensures
        none_starts_with(run_flags(c, present), p),
{
    let h = head_args(c).skip(1).push("--run"@);
    let o1 = limit_args(c.limits, c.cgroup);
    let o2 = mount_args(c.mounts, present);
    let o3 = env_args(c);
    let o4 = io_args(c);
    lemma_head_avoids(c, p);
    lemma_limits_avoid(c.limits, c.cgroup, p);
    lemma_mounts_avoid(c.mounts, present, c.mounts.len() as int, p);
    lemma_env_avoids(c, p);
    lemma_io_avoids(c, p);
    lemma_none_starts_with_join(o1, o2, p);
    lemma_none_starts_with_join(o1 + o2, o3, p);
    lemma_none_starts_with_join(o1 + o2 + o3, o4, p);
    lemma_none_starts_with_join(h, o1 + o2 + o3 + o4, p);
}

/// A limit that is not set leaves no flag: among the flags of a run none
/// begins with the prefix of an unset limit. Memory has two prefixes, and
/// the one of the mode that is off never occurs.
pub proof fn lemma_unset_limit_has_no_flag(c: CommandView, present: Seq<bool>)
    ensures
        ({
            let flags = run_flags(c, present);
            let l = c.limits;
            &&& l.time_limit is None ==> none_starts_with(flags, "--time="@)
            &&& l.wall_time_limit is None ==> none_starts_with(flags, "--wall-time="@)
            &&& l.extra_time is None ==> none_starts_with(flags, "--extra-time="@)
            &&& l.memory_limit is None ==> none_starts_with(flags, "--mem="@) && none_starts_with(
                flags,
                "--cg-mem="@,
            )
            &&& c.cgroup ==> none_starts_with(flags, "--mem="@)
            &&& !c.cgroup ==> none_starts_with(flags, "--cg-mem="@)
            &&& l.stack_limit is None ==> none_starts_with(flags, "--stack="@)
            &&& l.max_processes is None ==> none_starts_with(flags, "--processes="@)
            &&& l.max_output is None ==> none_starts_with(flags, "--fsize="@)
            &&& l.max_open_files is None ==> none_starts_with(flags, "--open-files="@)
        }),
{
    let l = c.limits;
    if l.time_limit is None {
        lemma_flags_avoid(c, present, "--time="@);
    }
    if l.wall_time_limit is None {
        lemma_flags_avoid(c, present, "--wall-time="@);
    }
    if l.extra_time is None {
        lemma_flags_avoid(c, present, "--extra-time="@);
    }
    if l.memory_limit is None || c.cgroup {
        lemma_flags_avoid(c, present, "--mem="@);
    }
    if l.memory_limit is None || !c.cgroup {
        lemma_flags_avoid(c, present, "--cg-mem="@);
    }
    if l.stack_limit is None {
        lemma_flags_avoid(c, present, "--stack="@);
    }
    if l.max_processes is None {
        lemma_flags_avoid(c, present, "--processes="@);
    }
    if l.max_output is None {
        lemma_flags_avoid(c, present, "--fsize="@);
    }
    if l.max_open_files is None {
        lemma_flags_avoid(c, present, "--open-files="@);
    }
}

} // verus!
