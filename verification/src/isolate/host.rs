//! Paths on the host: joining them, searching the host's `PATH`, and
//! checking that mount sources are there.
//!
//! Whether a path exists is asked of the host at the moment of the call.
//! Each function that asks says what holds whatever the answer is, and
//! stands beside one that takes the answers as arguments and is exact.

use vstd::prelude::*;
use vstd::string::StringExecFns;
use crate::isolate::command::mount_views;
use crate::isolate::error::IsolateError;
use crate::text::{
    concat3, find_char, first_index_of, lemma_add_assoc, push_text, string_of, texts, to_chars,
};
use crate::types::{opt_text, MountConfig, MountView};

verus! {

/// `Path::exists`: whether the path names something on the host at the
/// moment of the call. Nothing is known of the answer beforehand.
#[verifier::external_body]
pub(crate) fn path_exists(path: &str) -> bool {
    std::path::Path::new(path).exists()
}

/// `Path::canonicalize`: the absolute form of the path with every symbolic
/// link followed, or `None` where the host cannot give one. Nothing is
/// known of the answer beforehand.
#[verifier::external_body]
pub(crate) fn canonical_path(path: &str) -> Option<String> {
    match std::path::Path::new(path).canonicalize() {
        Ok(p) => Some(p.to_string_lossy().into_owned()),
        Err(_) => None,
    }
}

/// `name` appended to the directory `base`. An absolute `name` stands for
/// itself, and so does any `name` under an empty `base`; otherwise one
/// separator stands between the two.
pub open spec fn join_path(base: Seq<char>, name: Seq<char>) -> Seq<char> {
    if name.len() > 0 && name[0] == '/' {
        name
    } else if base.len() == 0 {
        name
    } else if base.last() == '/' {
        base + name
    } else {
        base + seq!['/'] + name
    }
}

/// `name` appended to the directory `base`.
pub fn join(base: &str, name: &str) -> (p: String)
    ensures
        p@ == join_path(base@, name@),
{
    let b = to_chars(base);
    let n = to_chars(name);
    if n.len() > 0 && n[0] == '/' {
        return name.to_owned();
    }
    if b.len() == 0 {
        return name.to_owned();
    }
    let mut p = base.to_owned();
    if b[b.len() - 1] != '/' {
        p.push('/');
    }
    p.append(name);
    proof {
        if b@.last() != '/' {
            assert(base@.push('/') =~= base@ + seq!['/']);
        }
    }
    p
}

/// The pieces of `s` between occurrences of `sep`. A text without `sep`
/// is one piece, and so is the empty text.
pub open spec fn split_on(s: Seq<char>, sep: char) -> Seq<Seq<char>>
    decreases s.len(),
{
    let n = first_index_of(s, sep);
    if 0 <= n < s.len() {
        seq![s.take(n)] + split_on(s.skip(n + 1), sep)
    } else {
        seq![s]
    }
}

/// The pieces of `s` between occurrences of `sep`.
pub fn split(s: &str, sep: char) -> (pieces: Vec<String>)
    ensures
        texts(pieces@) == split_on(s@, sep),
{
    let v = to_chars(s);
    let mut pieces: Vec<String> = Vec::new();
    let mut pos: usize = 0;
    proof {
        assert(v@.skip(0) =~= v@);
        assert(texts(pieces@) + split_on(v@, sep) =~= split_on(v@, sep));
    }
    loop
        invariant_except_break
            pos <= v.len(),
            texts(pieces@) + split_on(v@.skip(pos as int), sep) == split_on(v@, sep),
        invariant
            v@ == s@,
        ensures
            texts(pieces@) == split_on(s@, sep),
        decreases v.len() - pos,
    {
        let ghost rest = v@.skip(pos as int);
        let ghost before = texts(pieces@);
        let hit = find_char(&v, pos, v.len(), sep);
        proof {
            assert(v@.subrange(pos as int, v.len() as int) =~= rest);
        }
        if hit < v.len() {
            let piece = string_of(&v, pos, hit);
            proof {
                assert(rest.take(hit - pos) =~= v@.subrange(pos as int, hit as int));
                assert(rest.skip(hit - pos + 1) =~= v@.skip(hit + 1));
                lemma_add_assoc(before, seq![piece@], split_on(v@.skip(hit + 1), sep));
                assert(before.push(piece@) =~= before + seq![piece@]);
            }
            push_text(&mut pieces, piece);
            pos = hit + 1;
        } else {
            let piece = string_of(&v, pos, v.len());
            proof {
                assert(before.push(piece@) =~= before + seq![rest]);
            }
            push_text(&mut pieces, piece);
            break ;
        }
    }
    pieces
}

/// Position of the first required mount whose source is not present, or
/// `mounts.len()`. Optional mounts are never missed.
pub open spec fn first_missing(mounts: Seq<MountView>, present: Seq<bool>) -> int
    decreases mounts.len(),
{
    if mounts.len() == 0 || (!mounts[0].optional && !present[0]) {
        0
    } else {
        1 + first_missing(mounts.drop_first(), present.drop_first())
    }
}

pub proof fn lemma_first_missing_is(mounts: Seq<MountView>, present: Seq<bool>, n: int)
    requires
        0 <= n <= mounts.len(),
        present.len() == mounts.len(),
        forall|j: int| 0 <= j < n ==> (#[trigger] mounts[j]).optional || present[j],
        n < mounts.len() ==> !mounts[n].optional && !present[n],
    ensures
        first_missing(mounts, present) == n,
    decreases n,
{
    if n > 0 {
        let t = mounts.drop_first();
        let p = present.drop_first();
        assert forall|j: int| 0 <= j < n - 1 implies (#[trigger] t[j]).optional || p[j] by {
            assert(t[j] == mounts[j + 1]);
            assert(p[j] == present[j + 1]);
        }
        lemma_first_missing_is(t, p, n - 1);
    }
}

/// Checks the mounts against what is present on the host: the first
/// required mount whose source is absent is the error.
pub fn check_mounts(mounts: &[MountConfig], present: &Vec<bool>) -> (r: Result<(), IsolateError>)
    requires
        present.len() == mounts.len(),
    ensures
        ({
            let bad = first_missing(mount_views(mounts@), present@);
            match r {
                Ok(_) => bad == mounts@.len(),
                Err(e) => {
                    &&& 0 <= bad < mounts@.len()
                    &&& e matches IsolateError::MountSourceNotFound(source)
                    &&& source@ == mounts@[bad]@.source
                },
            }
        }),
{
    let ghost views = mount_views(mounts@);
    let mut i: usize = 0;
    while i < mounts.len()
        invariant
            i <= mounts.len(),
            present.len() == mounts.len(),
            views == mount_views(mounts@),
            forall|j: int| 0 <= j < i ==> (#[trigger] views[j]).optional || present[j],
        decreases mounts.len() - i,
    {
        assert(views[i as int] == mounts@[i as int]@);
        if !mounts[i].optional && !present[i] {
            proof {
                lemma_first_missing_is(views, present@, i as int);
            }
            return Err(IsolateError::MountSourceNotFound(mounts[i].source.clone()));
        }
        i += 1;
    }
    proof {
        lemma_first_missing_is(views, present@, i as int);
    }
    Ok(())
}

/// For each mount, whether it counts as present: an optional mount always,
/// a required one where its source exists on the host now.
pub fn probe_required(mounts: &[MountConfig]) -> (present: Vec<bool>)
    ensures
        present.len() == mounts@.len(),
        forall|i: int| 0 <= i < present.len() && (#[trigger] mounts@[i]).optional ==> present[i],
{
    let mut present: Vec<bool> = Vec::new();
    let mut i: usize = 0;
    while i < mounts.len()
        invariant
            i <= mounts.len(),
            present.len() == i,
            forall|k: int| 0 <= k < i && (#[trigger] mounts@[k]).optional ==> present[k],
        decreases mounts.len() - i,
    {
        let here = if mounts[i].optional {
            true
        } else {
            path_exists(mounts[i].source.as_str())
        };
        present.push(here);
        i += 1;
    }
    present
}

/// Checks that the source of every required mount exists on the host. The
/// error names a required mount; where every mount is optional there is
/// none.
pub fn validate_mounts(mounts: &[MountConfig]) -> (r: Result<(), IsolateError>)
    ensures
        match r {
            Ok(_) => true,
            Err(e) => exists|i: int|
                {
                    &&& 0 <= i < mounts@.len()
                    &&& !(#[trigger] mounts@[i]).optional
                    &&& e matches IsolateError::MountSourceNotFound(source)
                    &&& source@ == mounts@[i].source@
                },
        },
        (forall|i: int| 0 <= i < mounts@.len() ==> (#[trigger] mounts@[i]).optional) ==> r is Ok,
{
    let present = probe_required(mounts);
    let r = check_mounts(mounts, &present);
    proof {
        let views = mount_views(mounts@);
        let bad = first_missing(views, present@);
        lemma_first_missing(views, present@);
        if r is Err {
            assert(views[bad] == mounts@[bad]@);
            assert(!mounts@[bad].optional);
        }
        if forall|i: int| 0 <= i < mounts@.len() ==> (#[trigger] mounts@[i]).optional {
            if bad < mounts@.len() {
                assert(views[bad] == mounts@[bad]@);
                assert(mounts@[bad].optional);
            }
        }
    }
    r
}

pub proof fn lemma_first_missing(mounts: Seq<MountView>, present: Seq<bool>)
    requires
        present.len() == mounts.len(),
    ensures
        0 <= first_missing(mounts, present) <= mounts.len(),
        first_missing(mounts, present) < mounts.len() ==> !mounts[first_missing(
            mounts,
            present,
        )].optional && !present[first_missing(mounts, present)],
    decreases mounts.len(),
{
    if !(mounts.len() == 0 || (!mounts[0].optional && !present[0])) {
        lemma_first_missing(mounts.drop_first(), present.drop_first());
    }
}

/// The first word of `command` is a bare program name: it has no `/` and
/// has to be looked up.
pub open spec fn needs_lookup(command: Seq<Seq<char>>) -> bool {
    command.len() > 0 && first_index_of(command[0], '/') == command[0].len()
}

/// The places where the program `name` may lie: one in each directory of
/// the search path `path_var`, in order.
pub open spec fn lookup_candidates(path_var: Seq<char>, name: Seq<char>) -> Seq<Seq<char>> {
    let dirs = split_on(path_var, ':');
    Seq::new(dirs.len(), |i: int| join_path(dirs[i], name))
}

/// What is reported where no directory of the search path holds `name`.
pub open spec fn not_found_message(name: Seq<char>) -> Seq<char> {
    "command '"@ + name + "' not found in PATH"@
}

/// The places where the program `name` may lie.
pub fn candidates(path_var: &str, name: &str) -> (r: Vec<String>)
    ensures
        texts(r@) == lookup_candidates(path_var@, name@),
{
    let dirs = split(path_var, ':');
    let mut r: Vec<String> = Vec::new();
    let mut i: usize = 0;
    assert(texts(r@) =~= lookup_candidates(path_var@, name@).take(0));
    while i < dirs.len()
        invariant
            i <= dirs.len(),
            texts(dirs@) == split_on(path_var@, ':'),
            texts(r@) == lookup_candidates(path_var@, name@).take(i as int),
        decreases dirs.len() - i,
    {
        assert(texts(dirs@)[i as int] == dirs@[i as int]@);
        let candidate = join(dirs[i].as_str(), name);
        push_text(&mut r, candidate);
        assert(texts(r@) =~= lookup_candidates(path_var@, name@).take(i + 1));
        i += 1;
    }
    assert(lookup_candidates(path_var@, name@).take(dirs.len() as int) =~= lookup_candidates(
        path_var@,
        name@,
    ));
    r
}

/// Position of the first candidate that is present, or `present.len()`.
pub open spec fn first_present(present: Seq<bool>) -> int
    decreases present.len(),
{
    if present.len() == 0 || present[0] {
        0
    } else {
        1 + first_present(present.drop_first())
    }
}

pub proof fn lemma_first_present_is(present: Seq<bool>, n: int)
    requires
        0 <= n <= present.len(),
        forall|j: int| 0 <= j < n ==> !#[trigger] present[j],
        n < present.len() ==> present[n],
    ensures
        first_present(present) == n,
    decreases n,
{
    if n > 0 {
        let t = present.drop_first();
        assert forall|j: int| 0 <= j < n - 1 implies !#[trigger] t[j] by {
            assert(t[j] == present[j + 1]);
        }
        lemma_first_present_is(t, n - 1);
    }
}

/// The place that a lookup settles on, given what the host answers.
/// `present[i]` says whether candidate `i` exists, and `canonical` is the
/// canonical form of the first candidate that does, where the host gives
/// one. That first candidate is chosen, in its canonical form where there
/// is one and as it stands where not. Where no candidate exists, nothing
/// is chosen.
pub open spec fn chosen_path(
    candidates: Seq<Seq<char>>,
    present: Seq<bool>,
    canonical: Option<Seq<char>>,
) -> Option<Seq<char>> {
    let i = first_present(present);
    if 0 <= i < present.len() && i < candidates.len() {
        match canonical {
            Some(c) => Some(c),
            None => Some(candidates[i]),
        }
    } else {
        None
    }
}

/// The place that a lookup settles on, given what the host answers.
pub fn choose_path(candidates: &Vec<String>, present: &Vec<bool>, canonical: Option<String>) -> (r:
    Option<String>)
    requires
        present.len() == candidates.len(),
    ensures
        opt_text(r) == chosen_path(texts(candidates@), present@, opt_text(canonical)),
{
    let mut i: usize = 0;
    while i < present.len() && !present[i]
        invariant
            i <= present.len(),
            forall|j: int| 0 <= j < i ==> !#[trigger] present@[j],
        decreases present.len() - i,
    {
        i += 1;
    }
    proof {
        lemma_first_present_is(present@, i as int);
    }
    if i < present.len() {
        assert(texts(candidates@)[i as int] == candidates@[i as int]@);
        match canonical {
            Some(c) => Some(c),
            None => Some(candidates[i].clone()),
        }
    } else {
        None
    }
}

/// Looks the candidates up on the host, in order, and gives the place that
/// the lookup settles on: that of `chosen_path` for the host's answers.
/// Candidates after the first that exists are not asked and count as
/// absent; the canonical form is asked of that first one alone.
pub fn first_existing(candidates: &Vec<String>) -> (r: Option<String>)
    ensures
        exists|present: Seq<bool>, canonical: Option<Seq<char>>|
            {
                &&& present.len() == candidates@.len()
                &&& #[trigger] chosen_path(texts(candidates@), present, canonical) == opt_text(r)
            },
{
    let mut present: Vec<bool> = Vec::new();
    let mut hit: Option<usize> = None;
    let mut i: usize = 0;
    while i < candidates.len()
        invariant
            i <= candidates.len(),
            present.len() == i,
            hit is Some ==> hit->0 < i,
        decreases candidates.len() - i,
    {
        let here = match hit {
            Some(_) => false,
            None => path_exists(candidates[i].as_str()),
        };
        if here {
            hit = Some(i);
        }
        present.push(here);
        i += 1;
    }
    let canonical = match hit {
        Some(at) => canonical_path(candidates[at].as_str()),
        None => None,
    };
    choose_path(candidates, &present, canonical)
}

/// The command and the outcome after a lookup that settled on `found`:
/// the place found stands where the program name stood, and where nothing
/// was found the command is as it was and the error names the program.
pub open spec fn resolved_as(
    before: Seq<Seq<char>>,
    after: Seq<Seq<char>>,
    r: Result<(), IsolateError>,
    found: Option<Seq<char>>,
) -> bool {
    match found {
        Some(path) => r is Ok && after == before.update(0, path),
        None => {
            &&& after == before
            &&& r matches Err(IsolateError::CommandFailed(message))
            &&& message@ == not_found_message(before[0])
        },
    }
}

/// Puts the outcome of a lookup into `command`: the path that was found
/// takes the place of the program name, and a program that was not found
/// is the error.
pub fn apply_lookup(command: &mut Vec<String>, found: Option<String>) -> (r: Result<
    (),
    IsolateError,
>)
    requires
        old(command).len() > 0,
    ensures
        resolved_as(texts(old(command)@), texts(final(command)@), r, opt_text(found)),
{
    match found {
        Some(path) => {
            command.set(0, path);
            assert(texts(command@) =~= texts(old(command)@).update(0, path@));
            Ok(())
        },
        None => {
            assert(texts(command@)[0] == command@[0]@);
            let message = concat3("command '", command[0].as_str(), "' not found in PATH");
            Err(IsolateError::CommandFailed(message))
        },
    }
}

/// Resolves the program of `command` against the search path `path_var`
/// of the host. A command that is empty or whose program holds a `/` stays
/// as it is. Otherwise the candidates of the program name are looked up on
/// the host, and the outcome is that of `resolved_as` for the place that
/// `chosen_path` gives for the host's answers: the first place on the
/// search path where the program exists, symbolic links followed, takes
/// the place of the name; where it exists nowhere, the command stays as it
/// is and the error says so. The arguments after the program never change.
pub fn resolve_command(command: &mut Vec<String>, path_var: &str) -> (r: Result<(), IsolateError>)
    ensures
        final(command).len() == old(command).len(),
        texts(final(command)@).skip(1) == texts(old(command)@).skip(1),
        !needs_lookup(texts(old(command)@)) ==> r is Ok && texts(final(command)@) == texts(
            old(command)@,
        ),
        needs_lookup(texts(old(command)@)) ==> exists|
            present: Seq<bool>,
            canonical: Option<Seq<char>>,
        |
            {
                &&& present.len() == lookup_candidates(path_var@, texts(old(command)@)[0]).len()
                &&& resolved_as(
                    texts(old(command)@),
                    texts(final(command)@),
                    r,
                    #[trigger] chosen_path(
                        lookup_candidates(path_var@, texts(old(command)@)[0]),
                        present,
                        canonical,
                    ),
                )
            },
        r is Err ==> {
            &&& needs_lookup(texts(old(command)@))
            &&& texts(final(command)@) == texts(old(command)@)
            &&& r matches Err(IsolateError::CommandFailed(message))
            &&& message@ == not_found_message(texts(old(command)@)[0])
        },
{
    if command.len() == 0 {
        return Ok(());
    }
    let first = to_chars(command[0].as_str());
    let slash = find_char(&first, 0, first.len(), '/');
    proof {
        assert(first@.subrange(0, first.len() as int) =~= first@);
        assert(texts(command@)[0] == command@[0]@);
    }
    if slash < first.len() {
        return Ok(());
    }
    let places = candidates(path_var, command[0].as_str());
    let found = first_existing(&places);
    let r = apply_lookup(command, found);
    proof {
        assert(texts(command@).skip(1) =~= texts(old(command)@).skip(1));
    }
    r
}

} // verus!
