use vstd::prelude::*;

use crate::error::Error;
use crate::game::Game;

verus! {

/// The games among per-manifest results, in order; failures are dropped.
pub open spec fn ok_games(rs: Seq<Result<Game, Error>>) -> Seq<Game>
    decreases rs.len(),
{
    if rs.len() == 0 {
        Seq::empty()
    } else {
        let first: Seq<Game> = match rs[0] {
            Ok(g) => seq![g],
            Err(_) => Seq::empty(),
        };
        first + ok_games(rs.subrange(1, rs.len() as int))
    }
}

/// How many per-manifest results are failures.
pub open spec fn failures(rs: Seq<Result<Game, Error>>) -> nat
    decreases rs.len(),
{
    if rs.len() == 0 {
        0
    } else {
        (if rs[0] is Err {
            1nat
        } else {
            0nat
        }) + failures(rs.subrange(1, rs.len() as int))
    }
}

/// The games of all launchers that were found, launcher after launcher; a
/// launcher that was not found contributes nothing.
pub open spec fn launcher_games(rs: Seq<Result<Vec<Game>, Error>>) -> Seq<Game>
    decreases rs.len(),
{
    if rs.len() == 0 {
        Seq::empty()
    } else {
        let first: Seq<Game> = match rs[0] {
            Ok(v) => v@,
            Err(_) => Seq::empty(),
        };
        first + launcher_games(rs.subrange(1, rs.len() as int))
    }
}

/// A scan yields one game for each manifest that parsed: with `n` manifests
/// of which `k` fail, exactly `n - k` games come out.
pub proof fn scan_yields_each_success(rs: Seq<Result<Game, Error>>)
    ensures
        ok_games(rs).len() + failures(rs) == rs.len(),
    decreases rs.len(),
{
    if rs.len() > 0 {
        scan_yields_each_success(rs.subrange(1, rs.len() as int));
    }
}

/// A launcher that is not found changes nothing of what the other
/// launchers contribute.
pub proof fn missing_launcher_is_skipped(rs: Seq<Result<Vec<Game>, Error>>, i: int)
    requires
        0 <= i < rs.len(),
        rs[i] is Err,
    ensures
        launcher_games(rs) == launcher_games(rs.remove(i)),
    decreases rs.len(),
{
    if i == 0 {
        assert(rs.remove(0) =~= rs.subrange(1, rs.len() as int));
        assert(launcher_games(rs) =~= launcher_games(rs.subrange(1, rs.len() as int)));
    } else {
        let tail = rs.subrange(1, rs.len() as int);
        missing_launcher_is_skipped(tail, i - 1);
        assert(rs.remove(i).subrange(1, rs.remove(i).len() as int) =~= tail.remove(i - 1));
        assert(rs.remove(i)[0] == rs[0]);
    }
}

/// The games of all manifests that parsed, in order.
pub fn collect_games(results: Vec<Result<Game, Error>>) -> (r: Vec<Game>)
    ensures
        r@ == ok_games(results@),
{
    let mut rest = results;
    let mut out: Vec<Game> = Vec::new();
    while rest.len() > 0
        invariant
            out@ + ok_games(rest@) == ok_games(results@),
        decreases rest@.len(),
    {
        let ghost before = rest@;
        let item = rest.remove(0);
        assert(rest@ =~= before.subrange(1, before.len() as int));
        match item {
            Ok(g) => {
                let ghost o = out@;
                out.push(g);
                assert(o + ok_games(before) =~= out@ + ok_games(rest@));
            },
            Err(_) => {
                assert(out@ + ok_games(before) =~= out@ + ok_games(rest@));
            },
        }
    }
    assert(out@ + ok_games(rest@) =~= out@);
    out
}

/// The games of every launcher that was found, launcher after launcher.
pub fn all_games(per_launcher: Vec<Result<Vec<Game>, Error>>) -> (r: Vec<Game>)
    ensures
        r@ == launcher_games(per_launcher@),
{
    let mut rest = per_launcher;
    let mut out: Vec<Game> = Vec::new();
    while rest.len() > 0
        invariant
            out@ + launcher_games(rest@) == launcher_games(per_launcher@),
        decreases rest@.len(),
    {
        let ghost before = rest@;
        let item = rest.remove(0);
        assert(rest@ =~= before.subrange(1, before.len() as int));
        match item {
            Ok(v) => {
                let ghost o = out@;
                let mut v = v;
                out.append(&mut v);
                assert(o + launcher_games(before) =~= out@ + launcher_games(rest@));
            },
            Err(_) => {
                assert(out@ + launcher_games(before) =~= out@ + launcher_games(rest@));
            },
        }
    }
    assert(out@ + launcher_games(rest@) =~= out@);
    out
}

} // verus!
