//! The decisions of the boot loader that starts the init daemon: which
//! environment variables it hands on, how much room the new program's
//! arguments need, and what it does after it forks.

use vstd::prelude::*;
use crate::protocol::EINTR;

verus! {

/// The newline byte that separates environment variables.
pub const NEWLINE: u8 = 0x0a;

/// The prefix of the variables that only the initial file system reads.
pub open spec fn initfs_prefix() -> Seq<u8> {
    seq![0x49u8, 0x4e, 0x49, 0x54, 0x46, 0x53, 0x5f]
}

/// The pieces of `s` between newlines, in order: one more piece than
/// newlines, empty pieces included.
pub open spec fn newline_pieces(s: Seq<u8>) -> Seq<Seq<u8>>
    decreases s.len(),
{
    if s.len() == 0 {
        seq![Seq::<u8>::empty()]
    } else {
        let before = newline_pieces(s.drop_last());
        if s.last() == NEWLINE {
            before.push(Seq::<u8>::empty())
        } else {
            before.update(before.len() - 1, before.last().push(s.last()))
        }
    }
}

/// A piece that the loader hands on: not empty, and not for the initial
/// file system.
pub open spec fn handed_on(v: Seq<u8>) -> bool {
    v.len() > 0 && !initfs_prefix().is_prefix_of(v)
}

/// The environment variables that the loader hands on from the bytes `env`
/// it read: the newline-separated pieces that `handed_on` keeps, in order.
pub open spec fn boot_environment(env: Seq<u8>) -> Seq<Seq<u8>> {
    newline_pieces(env).filter(|v: Seq<u8>| handed_on(v))
}

/// The contents of a list of byte strings.
pub open spec fn views(vars: Seq<Vec<u8>>) -> Seq<Seq<u8>> {
    vars.map_values(|v: Vec<u8>| v@)
}

/// There is always at least one piece.
proof fn lemma_pieces_nonempty(s: Seq<u8>)
    ensures
        newline_pieces(s).len() >= 1,
    decreases s.len(),
{
    if s.len() > 0 {
        lemma_pieces_nonempty(s.drop_last());
    }
}

/// No piece between newlines holds a newline.
proof fn lemma_pieces_hold_no_newline(s: Seq<u8>)
    ensures
        forall|i: int, j: int|
            0 <= i < newline_pieces(s).len() && 0 <= j < newline_pieces(s)[i].len()
                ==> #[trigger] newline_pieces(s)[i][j] != NEWLINE,
    decreases s.len(),
{
    if s.len() > 0 {
        lemma_pieces_hold_no_newline(s.drop_last());
        lemma_pieces_nonempty(s.drop_last());
        let before = newline_pieces(s.drop_last());
        let after = newline_pieces(s);
        assert forall|i: int, j: int|
            0 <= i < after.len() && 0 <= j < after[i].len() implies #[trigger] after[i][j] != NEWLINE by {
            if s.last() != NEWLINE && i == before.len() - 1 {
                if j < before[i].len() {
                    assert(after[i][j] == before[i][j]);
                }
            } else if i < before.len() {
                assert(after[i] == before[i]);
            }
        }
    }
}

/// Every variable that the loader hands on is a non-empty line of the
/// environment that holds no newline and is not for the initial file
/// system.
pub proof fn law_handed_on_variables_are_lines(env: Seq<u8>, i: int)
    requires
        0 <= i < boot_environment(env).len(),
    ensures
        boot_environment(env)[i].len() > 0,
        !initfs_prefix().is_prefix_of(boot_environment(env)[i]),
        !boot_environment(env)[i].contains(NEWLINE),
        newline_pieces(env).contains(boot_environment(env)[i]),
{
    let keep = |v: Seq<u8>| handed_on(v);
    let pieces = newline_pieces(env);
    let v = boot_environment(env)[i];
    broadcast use vstd::seq_lib::group_filter_ensures;
    assert(pieces.filter(keep).contains(v));
    pieces.lemma_filter_contains_rev(keep, v);
    lemma_pieces_hold_no_newline(env);
    let k = choose|k: int| 0 <= k < pieces.len() && pieces[k] == v;
    assert forall|j: int| 0 <= j < v.len() implies v[j] != NEWLINE by {
        assert(pieces[k][j] != NEWLINE);
    }
}

/// The pieces joined again, with a newline between each two.
pub open spec fn joined(pieces: Seq<Seq<u8>>) -> Seq<u8>
    decreases pieces.len(),
{
    if pieces.len() <= 1 {
        if pieces.len() == 1 { pieces[0] } else { Seq::empty() }
    } else {
        joined(pieces.drop_last()) + seq![NEWLINE] + pieces.last()
    }
}

/// The pieces between newlines are exactly the text: joined with newlines
/// they give the text back, and none of them holds a newline.
pub proof fn law_pieces_split_at_newlines(s: Seq<u8>)
    ensures
        joined(newline_pieces(s)) == s,
        forall|i: int, j: int|
            0 <= i < newline_pieces(s).len() && 0 <= j < newline_pieces(s)[i].len()
                ==> #[trigger] newline_pieces(s)[i][j] != NEWLINE,
    decreases s.len(),
{
    lemma_pieces_hold_no_newline(s);
    if s.len() == 0 {
        assert(joined(newline_pieces(s)) =~= s);
    } else {
        let before = newline_pieces(s.drop_last());
        law_pieces_split_at_newlines(s.drop_last());
        lemma_pieces_nonempty(s.drop_last());
        if s.last() == NEWLINE {
            let after = before.push(Seq::<u8>::empty());
            assert(after.drop_last() =~= before);
            assert(joined(after) =~= s);
        } else {
            let after = before.update(before.len() - 1, before.last().push(s.last()));
            if before.len() == 1 {
                assert(joined(after) =~= s);
            } else {
                assert(after.drop_last() =~= before.drop_last());
                assert(after.last() == before.last().push(s.last()));
                assert(joined(before) == joined(before.drop_last()) + seq![NEWLINE] + before.last());
                assert(s =~= s.drop_last().push(s.last()));
                assert(joined(after) =~= s);
            }
        }
    }
}

/// The loader hands on exactly the non-empty lines of the environment that
/// do not start with `INITFS_`, in their order.
pub proof fn law_boot_environment_is_kept_lines(env: Seq<u8>)
    ensures
        boot_environment(env) == newline_pieces(env).filter(
            |v: Seq<u8>| v.len() > 0 && !initfs_prefix().is_prefix_of(v),
        ),
{
    let f1 = |v: Seq<u8>| handed_on(v);
    let f2 = |v: Seq<u8>| v.len() > 0 && !initfs_prefix().is_prefix_of(v);
    assert(f1 =~= f2);
}

/// Every non-empty line of the environment that does not start with
/// `INITFS_` is handed on.
pub proof fn law_every_kept_line_is_handed_on(env: Seq<u8>, v: Seq<u8>)
    requires
        newline_pieces(env).contains(v),
        v.len() > 0,
        !initfs_prefix().is_prefix_of(v),
    ensures
        boot_environment(env).contains(v),
{
    let pieces = newline_pieces(env);
    let keep = |v: Seq<u8>| handed_on(v);
    let k = choose|k: int| 0 <= k < pieces.len() && pieces[k] == v;
    broadcast use vstd::seq_lib::group_filter_ensures;
    assert(keep(pieces[k]));
    assert(pieces.filter(keep).contains(pieces[k]));
}

/// Whether `v` starts with the prefix of the initial file system's
/// variables.
fn starts_with_initfs(v: &Vec<u8>) -> (b: bool)
    ensures
        b == initfs_prefix().is_prefix_of(v@),
{
    let prefix: [u8; 7] = [0x49, 0x4e, 0x49, 0x54, 0x46, 0x53, 0x5f];
    assert(prefix@ =~= initfs_prefix());
    if v.len() < 7 {
        return false;
    }
    let mut i: usize = 0;
    while i < 7
        invariant
            i <= 7,
            v@.len() >= 7,
            prefix@ == initfs_prefix(),
            forall|j: int| 0 <= j < i ==> v@[j] == prefix@[j],
        decreases 7 - i,
    {
        if v[i] != prefix[i] {
            return false;
        }
        i += 1;
    }
    true
}

/// Whether the loader hands `v` on.
fn is_handed_on(v: &Vec<u8>) -> (b: bool)
    ensures
        b == handed_on(v@),
{
    v.len() > 0 && !starts_with_initfs(v)
}

/// The environment variables that the loader hands on from the bytes
/// `env` it read.
pub fn environment_variables(env: &[u8]) -> (vars: Vec<Vec<u8>>)
    ensures
        views(vars@) == boot_environment(env@),
{
    let mut vars: Vec<Vec<u8>> = Vec::new();
    let mut current: Vec<u8> = Vec::new();
    let ghost keep = |v: Seq<u8>| handed_on(v);
    let mut i: usize = 0;
    proof {
        assert(env@.subrange(0, 0) =~= Seq::<u8>::empty());
        reveal(Seq::filter);
        assert(views(vars@) =~= Seq::<Seq<u8>>::empty());
    }
    while i < env.len()
        invariant
            i <= env@.len(),
            keep == (|v: Seq<u8>| handed_on(v)),
            newline_pieces(env@.subrange(0, i as int)).len() >= 1,
            views(vars@) == newline_pieces(env@.subrange(0, i as int)).drop_last().filter(keep),
            current@ == newline_pieces(env@.subrange(0, i as int)).last(),
        decreases env@.len() - i,
    {
        let ghost before = newline_pieces(env@.subrange(0, i as int));
        let ghost s1 = env@.subrange(0, i + 1);
        proof {
            assert(s1.drop_last() =~= env@.subrange(0, i as int));
            assert(s1.last() == env@[i as int]);
        }
        if env[i] == NEWLINE {
            let ghost old_vars = views(vars@);
            let kept = is_handed_on(&current);
            if kept {
                vars.push(current);
                proof {
                    assert(views(vars@) =~= old_vars.push(before.last()));
                }
            }
            proof {
                reveal(Seq::filter);
                assert(keep(before.last()) == kept);
                assert(before.filter(keep) == (if keep(before.last()) {
                    before.drop_last().filter(keep).push(before.last())
                } else {
                    before.drop_last().filter(keep)
                }));
                assert(newline_pieces(s1) == before.push(Seq::<u8>::empty()));
                assert(newline_pieces(s1).drop_last() =~= before);
                assert(before.drop_last().push(before.last()) =~= before);
                assert(views(vars@) =~= before.filter(keep));
            }
            current = Vec::new();
            proof {
                assert(current@ =~= Seq::<u8>::empty());
            }
        } else {
            current.push(env[i]);
            proof {
                assert(newline_pieces(s1) == before.update(before.len() - 1, before.last().push(env@[i as int])));
                assert(newline_pieces(s1).drop_last() =~= before.drop_last());
            }
        }
        i += 1;
    }
    let ghost pieces = newline_pieces(env@.subrange(0, i as int));
    let ghost old_vars = views(vars@);
    let kept = is_handed_on(&current);
    if kept {
        vars.push(current);
        proof {
            assert(views(vars@) =~= old_vars.push(pieces.last()));
        }
    }
    proof {
        reveal(Seq::filter);
        assert(keep(pieces.last()) == kept);
        assert(pieces.filter(keep) == (if keep(pieces.last()) {
            pieces.drop_last().filter(keep).push(pieces.last())
        } else {
            pieces.drop_last().filter(keep)
        }));
        assert(env@.subrange(0, i as int) =~= env@);
        assert(pieces.drop_last().push(pieces.last()) =~= pieces);
        assert(views(vars@) =~= pieces.filter(keep));
    }
    vars
}

/// The total number of bytes in the byte strings `vars`.
pub open spec fn total_len(vars: Seq<Seq<u8>>) -> nat
    decreases vars.len(),
{
    if vars.len() == 0 {
        0
    } else {
        total_len(vars.drop_last()) + vars.last().len()
    }
}

/// The room that the new program's path, environment, working directory and
/// default scheme take, each followed by a terminating byte (the variables
/// one each).
pub open spec fn pointee_size(path: Seq<u8>, vars: Seq<Seq<u8>>, cwd: Seq<u8>, scheme: Seq<u8>) -> nat {
    path.len() + 1 + vars.len() + total_len(vars) + cwd.len() + 1 + scheme.len() + 1
}

/// The room that the arguments, environment and auxiliary values of the new
/// program take; `None` where it exceeds a machine word.
pub fn args_envs_auxv_pointee_size(
    path: &[u8],
    envs: &Vec<Vec<u8>>,
    cwd: &[u8],
    default_scheme: &[u8],
) -> (size: Option<usize>)
    ensures
        size is Some <==> pointee_size(path@, views(envs@), cwd@, default_scheme@) <= usize::MAX,
        size matches Some(n) ==> n == pointee_size(path@, views(envs@), cwd@, default_scheme@),
{
    let ghost vars = views(envs@);
    let mut total: usize = 0;
    let mut i: usize = 0;
    while i < envs.len()
        invariant
            i <= envs@.len(),
            vars == views(envs@),
            total == total_len(vars.subrange(0, i as int)),
        decreases envs@.len() - i,
    {
        proof {
            assert(vars.subrange(0, i + 1).drop_last() =~= vars.subrange(0, i as int));
        }
        match total.checked_add(envs[i].len()) {
            Some(t) => total = t,
            None => {
                proof {
                    lemma_total_len_prefix(vars, i + 1);
                }
                return None;
            },
        }
        i += 1;
    }
    proof {
        assert(vars.subrange(0, i as int) =~= vars);
    }
    let parts: [usize; 8] = [path.len(), 1, envs.len(), total, cwd.len(), 1, default_scheme.len(), 1];
    proof {
        reveal_with_fuel(sum_of, 9);
        assert(sum_of(parts@) == pointee_size(path@, vars, cwd@, default_scheme@));
    }
    let mut size: usize = 0;
    let mut k: usize = 0;
    while k < 8
        invariant
            k <= 8,
            parts@.len() == 8,
            vars == views(envs@),
            sum_of(parts@) == pointee_size(path@, vars, cwd@, default_scheme@),
            size == sum_of(parts@.subrange(0, k as int)),
        decreases 8 - k,
    {
        proof {
            assert(parts@.subrange(0, k + 1).drop_last() =~= parts@.subrange(0, k as int));
        }
        match size.checked_add(parts[k]) {
            Some(t) => size = t,
            None => {
                proof {
                    assert(parts@.subrange(0, k + 1).last() == parts@[k as int]);
                    assert(sum_of(parts@.subrange(0, k + 1)) == size + parts@[k as int]);
                    lemma_sum_of_prefix(parts@, k + 1);
                }
                return None;
            },
        }
        k += 1;
    }
    proof {
        assert(parts@.subrange(0, 8) =~= parts@);
    }
    Some(size)
}

/// The sum of a list of words.
pub open spec fn sum_of(s: Seq<usize>) -> nat
    decreases s.len(),
{
    if s.len() == 0 {
        0
    } else {
        sum_of(s.drop_last()) + s.last() as nat
    }
}

/// A prefix sums to no more than the whole.
proof fn lemma_sum_of_prefix(s: Seq<usize>, n: int)
    requires
        0 <= n <= s.len(),
    ensures
        sum_of(s.subrange(0, n)) <= sum_of(s),
    decreases s.len(),
{
    if n < s.len() {
        assert(s.drop_last().subrange(0, n) =~= s.subrange(0, n));
        lemma_sum_of_prefix(s.drop_last(), n);
    } else {
        assert(s.subrange(0, n) =~= s);
    }
}

/// A prefix holds no more bytes than the whole.
proof fn lemma_total_len_prefix(vars: Seq<Seq<u8>>, n: int)
    requires
        0 <= n <= vars.len(),
    ensures
        total_len(vars.subrange(0, n)) <= total_len(vars),
    decreases vars.len(),
{
    if n < vars.len() {
        assert(vars.drop_last().subrange(0, n) =~= vars.subrange(0, n));
        lemma_total_len_prefix(vars.drop_last(), n);
    } else {
        assert(vars.subrange(0, n) =~= vars);
    }
}

/// The room that init's arguments take: without variables, the path,
/// working directory and default scheme with a terminating byte each; each
/// variable adds its length and a terminating byte.
pub proof fn law_pointee_size(path: Seq<u8>, vars: Seq<Seq<u8>>, v: Seq<u8>, cwd: Seq<u8>, scheme: Seq<u8>)
    ensures
        pointee_size(path, Seq::empty(), cwd, scheme) == path.len() + cwd.len() + scheme.len() + 3,
        pointee_size(path, vars.push(v), cwd, scheme) == pointee_size(path, vars, cwd, scheme) + v.len() + 1,
{
    assert(vars.push(v).drop_last() =~= vars);
}

/// What a process is after the loader forks.
#[derive(Clone, Copy, Debug, PartialEq, Eq, Structural)]
pub enum ForkRole {
    /// The fork failed with this error number.
    Failed { errno: i32 },
    /// The new process, which goes on to serve the initial file system.
    Child,
    /// The loader itself, which goes on to start init once the child is
    /// ready.
    Parent { child: usize },
}

/// The role that the result of a fork gives: an error fails, process id 0
/// is the child, any other id is the parent's view of its child.
pub fn fork_role(result: Result<usize, i32>) -> (role: ForkRole)
    ensures
        role == (match result {
            Err(errno) => ForkRole::Failed { errno },
            Ok(0) => ForkRole::Child,
            Ok(child) => ForkRole::Parent { child },
        }),
{
    match result {
        Err(errno) => ForkRole::Failed { errno },
        Ok(0) => ForkRole::Child,
        Ok(child) => ForkRole::Parent { child },
    }
}

/// Whether the parent reads again from the pipe on which it waits for the
/// child: only after an interrupted read.
pub fn retry_sync_read(result: Result<usize, i32>) -> (retry: bool)
    ensures
        retry == (result == Err::<usize, i32>(EINTR)),
{
    match result {
        Err(errno) => errno == EINTR,
        Ok(_) => false,
    }
}

} // verus!
