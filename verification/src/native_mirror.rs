//! A builder that makes the steps of a plan: what it has made mirrors the steps,
//! with Cranelift's numbers in place of the places of steps.
use vstd::prelude::*;
use crate::native::{Decl, Step};
use crate::native_build::{
    allowed, byte_in, complete, given, is_begun, kind, moved, number, params_of, refers, renumbered,
    results_of, site, valid, Entry, Kind,
};
use crate::native_sound::{
    answers, at, fits, follows, indexed, linked, params_in, refers_back, site_of, waits, wide,
    wide_stays, yields,
};

verus! {

/// Whether `n` is the number of block `j`.
pub open spec fn numbers(steps: Seq<Step>, ids: Seq<Option<usize>>, j: int, n: usize) -> bool {
    0 <= j < ids.len() && j < steps.len() && steps[j] is CreateBlock && ids[j] == Some(n)
}

/// The numbers of blocks.
pub open spec fn image(s: Set<usize>, steps: Seq<Step>, ids: Seq<Option<usize>>) -> Set<usize> {
    Set::new(
        |n: usize| exists|j: usize| s.contains(j) && #[trigger] numbers(steps, ids, j as int, n),
    )
}

/// Whether blocks that are spoken of were made.
spec fn inside(s: Set<usize>, n: nat) -> bool {
    forall|x: usize| #[trigger] s.contains(x) ==> x < n
}

/// Whether the place that a builder stands at is that of the steps.
#[verifier::opaque]
pub closed spec fn mirrors(steps: Seq<Step>, ids: Seq<Option<usize>>, log: Seq<Entry>) -> bool {
    let s = site_of(steps.take(ids.len() as int));
    let t = site(log);
    &&& t.started == image(s.started, steps, ids)
    &&& t.filled == image(s.filled, steps, ids)
    &&& t.sealed == image(s.sealed, steps, ids)
    &&& t.targets == image(s.targets, steps, ids)
    &&& inside(s.started, ids.len())
    &&& inside(s.filled, ids.len())
    &&& inside(s.sealed, ids.len())
    &&& inside(s.targets, ids.len())
    &&& match s.block {
        Some(b) => t.block is Some && numbers(steps, ids, b as int, t.block->0),
        None => t.block is None,
    }
}

/// Whether the numbers of steps stand for what the steps yield.
#[verifier::opaque]
pub closed spec fn stands(
    steps: Seq<Step>,
    funcs: Seq<Decl>,
    arity: nat,
    ids: Seq<Option<usize>>,
    log: Seq<Entry>,
) -> bool {
    &&& forall|j: int|
        0 <= j < ids.len() ==> (#[trigger] yields(steps, funcs, j) matches Some(k) ==> ids[j] is Some
            && given(log, k, ids[j]->0))
    &&& forall|j: int|
        0 <= j < ids.len() && yields(steps, funcs, j) == Some(Kind::Value) && #[trigger] wide(
            steps,
            j,
        ) ==> !byte_in(log, ids[j]->0)
    &&& forall|j: int|
        0 <= j < ids.len() ==> (#[trigger] steps[j] matches Step::Import(f) ==> results_of(
            log,
            ids[j]->0,
        ) == funcs[f as int].results)
    &&& forall|j: int|
        0 <= j < ids.len() && #[trigger] steps[j] is CreateBlock ==> params_in(
            steps.take(ids.len() as int),
            arity,
            j as usize,
        ) <= params_of(log, arity, ids[j]->0)
    &&& forall|a: int, b: int, n: usize| #[trigger]
        numbers(steps, ids, a, n) && #[trigger] numbers(steps, ids, b, n) ==> a == b
}

/// Whether a builder has made the first steps, with arguments of a call that
/// follows.
pub closed spec fn follows_along(
    steps: Seq<Step>,
    funcs: Seq<Decl>,
    arity: nat,
    ids: Seq<Option<usize>>,
    log: Seq<Entry>,
    args: Seq<usize>,
) -> bool {
    &&& ids.len() <= steps.len() <= usize::MAX
    &&& stands(steps, funcs, arity, ids, log)
    &&& mirrors(steps, ids, log)
    &&& forall|i: int| 0 <= i < args.len() ==> given(log, Kind::Value, #[trigger] args[i])
    &&& args.len() > 0 ==> waits(steps.take(ids.len() as int))
}

proof fn yields_prefix(steps: Seq<Step>, funcs: Seq<Decl>, n: int, k: Kind, x: usize)
    requires
        0 <= n <= steps.len(),
        at(steps.take(n), funcs, k, x),
    ensures
        x < n,
        yields(steps, funcs, x as int) == Some(k),
{
    let before = steps.take(n);
    assert(before[x as int] == steps[x as int]);
    match before[x as int] {
        Step::Call(r, _) => {
            assert(before[r as int] == steps[r as int]);
        },
        _ => {},
    }
}

/// What a step refers to has a number.
proof fn referred(
    steps: Seq<Step>,
    funcs: Seq<Decl>,
    arity: nat,
    ids: Seq<Option<usize>>,
    log: Seq<Entry>,
    k: Kind,
    x: usize,
)
    requires
        ids.len() <= steps.len(),
        stands(steps, funcs, arity, ids, log),
        at(steps.take(ids.len() as int), funcs, k, x),
    ensures
        x < ids.len(),
        ids[x as int] is Some,
        given(log, k, number(ids, x)),
        k == Kind::Block ==> numbers(steps, ids, x as int, number(ids, x)),
{
    yields_prefix(steps, funcs, ids.len() as int, k, x);
    reveal(stands);
    assert(yields(steps, funcs, x as int) == Some(k));
    if k == Kind::Block {
        assert(steps[x as int] is CreateBlock);
    }
}

/// Whether what a step refers to has a number.
pub open spec fn numbered(s: Step, ids: Seq<Option<usize>>) -> bool {
    match s {
        Step::CreateBlock | Step::DeclareVar | Step::Word(_) | Step::Byte(_) | Step::Slot(_, _)
        | Step::Trap | Step::Import(_) => true,
        Step::AddParam(x) => has_number(ids, x),
        Step::FunctionParams(x) => has_number(ids, x),
        Step::SwitchTo(x) => has_number(ids, x),
        Step::Seal(x) => has_number(ids, x),
        Step::UseVar(x) => has_number(ids, x),
        Step::FuncAddr(x) => has_number(ids, x),
        Step::Bnot(x) => has_number(ids, x),
        Step::StackAddr(x) => has_number(ids, x),
        Step::Reduce(x) => has_number(ids, x),
        Step::Jump(x) => has_number(ids, x),
        Step::Return(x) => has_number(ids, x),
        Step::Arg(x) => has_number(ids, x),
        Step::BandImm(x, _) => has_number(ids, x),
        Step::BorImm(x, _) => has_number(ids, x),
        Step::BxorImm(x, _) => has_number(ids, x),
        Step::IshlImm(x, _) => has_number(ids, x),
        Step::SshrImm(x, _) => has_number(ids, x),
        Step::EqualImm(x, _) => has_number(ids, x),
        Step::NotEqualImm(x, _) => has_number(ids, x),
        Step::Param(x, _) => has_number(ids, x),
        Step::Call(x, _) => has_number(ids, x),
        Step::Load(x, _) => has_number(ids, x),
        Step::Equal(x, y) => has_number(ids, x) && has_number(ids, y),
        Step::Band(x, y) => has_number(ids, x) && has_number(ids, y),
        Step::Bor(x, y) => has_number(ids, x) && has_number(ids, y),
        Step::Bxor(x, y) => has_number(ids, x) && has_number(ids, y),
        Step::Ishl(x, y) => has_number(ids, x) && has_number(ids, y),
        Step::Sshr(x, y) => has_number(ids, x) && has_number(ids, y),
        Step::Isub(x, y) => has_number(ids, x) && has_number(ids, y),
        Step::DefVar(x, y) => has_number(ids, x) && has_number(ids, y),
        Step::JumpWith(x, y) => has_number(ids, x) && has_number(ids, y),
        Step::Select(x, y, z) => has_number(ids, x) && has_number(ids, y) && has_number(ids, z),
        Step::Brif(x, y, z) => has_number(ids, x) && has_number(ids, y) && has_number(ids, z),
        Step::Store(x, y, _) => has_number(ids, x) && has_number(ids, y),
        Step::StackStore(x, y, _) => has_number(ids, x) && has_number(ids, y),
    }
}

pub open spec fn has_number(ids: Seq<Option<usize>>, x: usize) -> bool {
    x < ids.len() && ids[x as int] is Some
}

proof fn all_referred(
    steps: Seq<Step>,
    funcs: Seq<Decl>,
    arity: nat,
    ids: Seq<Option<usize>>,
    log: Seq<Entry>,
    s: Step,
)
    requires
        ids.len() <= steps.len(),
        stands(steps, funcs, arity, ids, log),
        refers_back(steps.take(ids.len() as int), funcs, s),
    ensures
        numbered(s, ids),
        !(s is Arg) ==> refers(log, renumbered(s, ids)),
        s matches Step::Arg(x) ==> given(log, Kind::Value, number(ids, x)),
{
    assert forall|k: Kind, x: usize| #[trigger]
        at(steps.take(ids.len() as int), funcs, k, x) implies has_number(ids, x) && given(
        log,
        k,
        number(ids, x),
    ) by {
        referred(steps, funcs, arity, ids, log, k, x);
    }
}

/// A block is among others by its number if it is by its place.
proof fn image_contains(
    s: Set<usize>,
    steps: Seq<Step>,
    ids: Seq<Option<usize>>,
    x: usize,
    n: usize,
)
    requires
        forall|a: int, b: int, m: usize| #[trigger]
            numbers(steps, ids, a, m) && #[trigger] numbers(steps, ids, b, m) ==> a == b,
        numbers(steps, ids, x as int, n),
    ensures
        image(s, steps, ids).contains(n) == s.contains(x),
{
    if image(s, steps, ids).contains(n) {
        let j = choose|j: usize| s.contains(j) && #[trigger] numbers(steps, ids, j as int, n);
        assert(numbers(steps, ids, j as int, n));
    }
}

/// Steps are allowed at the place of the builder as at that of the steps.
proof fn allowed_along(
    steps: Seq<Step>,
    funcs: Seq<Decl>,
    arity: nat,
    ids: Seq<Option<usize>>,
    log: Seq<Entry>,
    s: Step,
)
    requires
        ids.len() <= steps.len(),
        stands(steps, funcs, arity, ids, log),
        mirrors(steps, ids, log),
        refers_back(steps.take(ids.len() as int), funcs, s),
        allowed(site_of(steps.take(ids.len() as int)), s),
    ensures
        allowed(site(log), renumbered(s, ids)),
{
    let before = steps.take(ids.len() as int);
    assert forall|x: usize| #[trigger] at(before, funcs, Kind::Block, x) implies numbers(
        steps,
        ids,
        x as int,
        number(ids, x),
    ) by {
        referred(steps, funcs, arity, ids, log, Kind::Block, x);
    }
    assert forall|x: usize, n: usize, t: Set<usize>| #[trigger]
        numbers(steps, ids, x as int, n) implies #[trigger] image(t, steps, ids).contains(n)
        == t.contains(x) by {
        assert(forall|a: int, b: int, m: usize| #[trigger]
            numbers(steps, ids, a, m) && #[trigger] numbers(steps, ids, b, m) ==> a == b) by {
            reveal(stands);
        }
        image_contains(t, steps, ids, x, n);
    }
    reveal(mirrors);
}

/// A step that may follow is one that a builder can make.
pub proof fn step_ready(
    steps: Seq<Step>,
    funcs: Seq<Decl>,
    arity: nat,
    ids: Seq<Option<usize>>,
    log: Seq<Entry>,
    args: Seq<usize>,
)
    requires
        fits(steps, funcs, arity),
        follows_along(steps, funcs, arity, ids, log, args),
        ids.len() < steps.len(),
    ensures
        numbered(steps[ids.len() as int], ids),
        steps[ids.len() as int] is Arg || valid(
            log,
            renumbered(steps[ids.len() as int], ids),
            args,
        ),
        steps[ids.len() as int] is Arg || steps[ids.len() as int] is Call || args.len() == 0,
        steps[ids.len() as int] matches Step::Import(f) ==> f < funcs.len(),
        steps[ids.len() as int] matches Step::DefVar(_, y) ==> !byte_in(log, number(ids, y)),
        steps[ids.len() as int] matches Step::Param(x, k) ==> k < params_of(
            log,
            arity,
            number(ids, x),
        ),
        steps[ids.len() as int] matches Step::Call(x, _) ==> (answers(
            steps,
            funcs,
            x,
        ) ==> results_of(log, number(ids, x)) > 0),
{
    let i = ids.len() as int;
    let s = steps[i];
    let before = steps.take(i);
    assert(follows(before, funcs, s)) by {
        reveal(linked);
    }
    all_referred(steps, funcs, arity, ids, log, s);
    if !(s is Arg) {
        allowed_along(steps, funcs, arity, ids, log, s);
        reveal(valid);
    }
    match s {
        Step::DefVar(_, y) => {
            yields_prefix(steps, funcs, i, Kind::Value, y);
            wide_stays(before, steps, y as int);
            reveal(stands);
            assert(wide(steps, y as int));
        },
        Step::Param(x, k) => {
            referred(steps, funcs, arity, ids, log, Kind::Block, x);
            reveal(indexed);
            assert(steps[i] == Step::Param(x, k));
            reveal(stands);
            assert(steps[x as int] is CreateBlock);
        },
        Step::Call(x, _) => {
            referred(steps, funcs, arity, ids, log, Kind::Ref, x);
            yields_prefix(steps, funcs, i, Kind::Ref, x);
            if answers(steps, funcs, x) {
                reveal(stands);
                assert(steps[x as int] is Import);
            }
        },
        _ => {},
    }
}

proof fn site_step(log: Seq<Entry>, e: Entry)
    ensures
        site(log.push(e)) == moved(site(log), e.step),
{
    reveal(site);
    assert(log.push(e).drop_last() =~= log);
}

proof fn site_of_step(steps: Seq<Step>, i: int)
    requires
        0 <= i < steps.len(),
    ensures
        site_of(steps.take(i + 1)) == moved(site_of(steps.take(i)), steps[i]),
{
    reveal(site_of);
    assert(steps.take(i + 1).drop_last() =~= steps.take(i));
}

proof fn given_stays(log: Seq<Entry>, e: Entry, k: Kind, n: usize)
    requires
        given(log, k, n),
    ensures
        given(log.push(e), k, n),
{
    reveal(given);
    let i = choose|i: int|
        0 <= i < log.len() && kind((#[trigger] log[i]).step) == Some(k) && log[i].result == Some(n);
    assert(log.push(e)[i] == log[i]);
}

proof fn given_new(log: Seq<Entry>, e: Entry, k: Kind, n: usize)
    requires
        kind(e.step) == Some(k),
        e.result == Some(n),
    ensures
        given(log.push(e), k, n),
{
    reveal(given);
    assert(log.push(e)[log.len() as int] == e);
}

/// The numbers of blocks once one more step has been made.
proof fn image_step(
    s: Set<usize>,
    steps: Seq<Step>,
    ids: Seq<Option<usize>>,
    r: Option<usize>,
)
    requires
        inside(s, ids.len()),
        ids.len() < steps.len() <= usize::MAX,
    ensures
        image(s, steps, ids.push(r)) =~= image(s, steps, ids),
{
    assert forall|n: usize| image(s, steps, ids.push(r)).contains(n) == image(
        s,
        steps,
        ids,
    ).contains(n) by {
        if image(s, steps, ids.push(r)).contains(n) {
            let j = choose|j: usize|
                s.contains(j) && #[trigger] numbers(steps, ids.push(r), j as int, n);
            assert(numbers(steps, ids, j as int, n));
        }
        if image(s, steps, ids).contains(n) {
            let j = choose|j: usize| s.contains(j) && #[trigger] numbers(steps, ids, j as int, n);
            assert(numbers(steps, ids.push(r), j as int, n));
        }
    }
}

proof fn image_insert(s: Set<usize>, steps: Seq<Step>, ids: Seq<Option<usize>>, x: usize, n: usize)
    requires
        numbers(steps, ids, x as int, n),
    ensures
        image(s.insert(x), steps, ids) =~= image(s, steps, ids).insert(n),
{
    assert forall|m: usize| image(s.insert(x), steps, ids).contains(m) == image(
        s,
        steps,
        ids,
    ).insert(n).contains(m) by {
        if image(s.insert(x), steps, ids).contains(m) {
            let j = choose|j: usize|
                s.insert(x).contains(j) && #[trigger] numbers(steps, ids, j as int, m);
            if j != x {
                assert(s.contains(j));
            }
        }
        if image(s, steps, ids).contains(m) {
            let j = choose|j: usize| s.contains(j) && #[trigger] numbers(steps, ids, j as int, m);
            assert(s.insert(x).contains(j));
        }
        if m == n {
            assert(s.insert(x).contains(x));
        }
    }
}

/// Making a step moves the builder as it moves the steps.
proof fn mirrors_step(
    steps: Seq<Step>,
    funcs: Seq<Decl>,
    arity: nat,
    ids: Seq<Option<usize>>,
    log: Seq<Entry>,
    e: Entry,
)
    requires
        ids.len() < steps.len() <= usize::MAX,
        stands(steps, funcs, arity, ids, log),
        mirrors(steps, ids, log),
        refers_back(steps.take(ids.len() as int), funcs, steps[ids.len() as int]),
        e.step == renumbered(steps[ids.len() as int], ids),
    ensures
        mirrors(steps, ids.push(e.result), log.push(e)),
{
    let i = ids.len() as int;
    let s = steps[i];
    let before = steps.take(i);
    let more = ids.push(e.result);
    site_step(log, e);
    site_of_step(steps, i);
    assert forall|x: usize| #[trigger] at(before, funcs, Kind::Block, x) implies numbers(
        steps,
        more,
        x as int,
        number(ids, x),
    ) && x < i by {
        referred(steps, funcs, arity, ids, log, Kind::Block, x);
        assert(numbers(steps, ids, x as int, number(ids, x)));
    }
    reveal(mirrors);
    let p = site_of(before);
    image_step(p.started, steps, ids, e.result);
    image_step(p.filled, steps, ids, e.result);
    image_step(p.sealed, steps, ids, e.result);
    image_step(p.targets, steps, ids, e.result);
    match p.block {
        Some(b) => {
            let n = site(log).block->0;
            assert(numbers(steps, ids, b as int, n));
            assert(numbers(steps, more, b as int, n));
            image_insert(p.started, steps, more, b, n);
            image_insert(p.filled, steps, more, b, n);
        },
        None => {},
    }
    match s {
        Step::Seal(x) => {
            image_insert(p.sealed, steps, more, x, number(ids, x));
        },
        Step::Brif(_, y, z) => {
            image_insert(p.targets, steps, more, y, number(ids, y));
            image_insert(p.targets.insert(y), steps, more, z, number(ids, z));
        },
        Step::Jump(x) => {
            image_insert(p.targets, steps, more, x, number(ids, x));
        },
        Step::JumpWith(x, _) => {
            image_insert(p.targets, steps, more, x, number(ids, x));
        },
        _ => {},
    }
}

/// Bytes stay bytes and words stay words.
proof fn byte_step(log: Seq<Entry>, e: Entry, n: usize)
    requires
        !byte_in(log, n),
        given(log, Kind::Value, n),
        kind(e.step) == Some(Kind::Value) ==> e.step is UseVar || e.step is Param || (
        e.result matches Some(r) ==> !given(log, Kind::Value, r)),
    ensures
        !byte_in(log.push(e), n),
{
    assert(log.push(e).drop_last() =~= log);
    assert(log.push(e).last() == e);
}

proof fn results_step(log: Seq<Entry>, e: Entry, n: usize)
    requires
        given(log, Kind::Ref, n),
        kind(e.step) == Some(Kind::Ref) ==> (e.result matches Some(r) ==> !given(
            log,
            Kind::Ref,
            r,
        )),
    ensures
        results_of(log.push(e), n) == results_of(log, n),
{
    assert(log.push(e).drop_last() =~= log);
    assert(log.push(e).last() == e);
}

/// No parameter was given to a block that was not made yet.
proof fn params_later(steps: Seq<Step>, funcs: Seq<Decl>, arity: nat, i: int, x: usize)
    requires
        linked(steps, funcs),
        0 <= i <= steps.len(),
        x >= i,
    ensures
        params_in(steps.take(i), arity, x) == 0,
    decreases i,
{
    if i > 0 {
        assert(steps.take(i).drop_last() =~= steps.take(i - 1));
        params_later(steps, funcs, arity, i - 1, x);
        assert(follows(steps.take(i - 1), funcs, steps[i - 1])) by {
            reveal(linked);
        }
    }
}

/// Whether making a step gave what it yields.
pub open spec fn well_made(steps: Seq<Step>, funcs: Seq<Decl>, i: int, log: Seq<Entry>, e: Entry) -> bool {
    &&& yields(steps, funcs, i) is Some ==> e.result is Some
    &&& steps[i] matches Step::Import(f) ==> e.results == funcs[f as int].results
    &&& steps[i] is UseVar || steps[i] is Param || (kind(steps[i]) matches Some(k) ==> (
    e.result matches Some(n) ==> !given(log, k, n)))
}

proof fn stands_step(
    steps: Seq<Step>,
    funcs: Seq<Decl>,
    arity: nat,
    ids: Seq<Option<usize>>,
    log: Seq<Entry>,
    e: Entry,
)
    requires
        fits(steps, funcs, arity),
        ids.len() < steps.len() <= usize::MAX,
        stands(steps, funcs, arity, ids, log),
        refers_back(steps.take(ids.len() as int), funcs, steps[ids.len() as int]),
        e.step == renumbered(steps[ids.len() as int], ids),
        well_made(steps, funcs, ids.len() as int, log, e),
    ensures
        stands(steps, funcs, arity, ids.push(e.result), log.push(e)),
{
    let i = ids.len() as int;
    let s = steps[i];
    let more = ids.push(e.result);
    let all = log.push(e);
    assert(kind(e.step) == kind(s));
    assert(all.drop_last() =~= log);
    assert(all.last() == e);
    assert forall|j: int| 0 <= j < more.len() implies (
    #[trigger] yields(steps, funcs, j) matches Some(k) ==> more[j] is Some && given(
        all,
        k,
        more[j]->0,
    )) by {
        match yields(steps, funcs, j) {
            Some(k) => {
                if j < i {
                    assert(ids[j] is Some && given(log, k, ids[j]->0)) by {
                        reveal(stands);
                    }
                    given_stays(log, e, k, ids[j]->0);
                } else {
                    given_new(log, e, k, e.result->0);
                }
            },
            None => {},
        }
    }
    assert forall|j: int|
        0 <= j < more.len() && yields(steps, funcs, j) == Some(Kind::Value) && #[trigger] wide(
            steps,
            j,
        ) implies !byte_in(all, more[j]->0) by {
        if j < i {
            assert(!byte_in(log, ids[j]->0) && given(log, Kind::Value, ids[j]->0)) by {
                reveal(stands);
                assert(yields(steps, funcs, j) == Some(Kind::Value));
            }
            byte_step(log, e, ids[j]->0);
        } else {
            word_made(steps, funcs, arity, ids, log, e);
        }
    }
    assert forall|j: int| 0 <= j < more.len() implies (
    #[trigger] steps[j] matches Step::Import(f) ==> results_of(all, more[j]->0)
        == funcs[f as int].results) by {
        if j < i {
            if steps[j] is Import {
                assert(yields(steps, funcs, j) == Some(Kind::Ref));
                reveal(stands);
                results_step(log, e, ids[j]->0);
            }
        }
    }
    assert forall|j: int| 0 <= j < more.len() && #[trigger] steps[j] is CreateBlock implies params_in(
        steps.take(i + 1),
        arity,
        j as usize,
    ) <= params_of(all, arity, more[j]->0) by {
        assert(steps.take(i + 1).drop_last() =~= steps.take(i));
        if j < i {
            assert(params_in(steps.take(i), arity, j as usize) <= params_of(
                log,
                arity,
                ids[j]->0,
            )) by {
                reveal(stands);
            }
        } else {
            params_later(steps, funcs, arity, i, j as usize);
        }
    }
    assert forall|a: int, b: int, n: usize| #[trigger]
        numbers(steps, more, a, n) && #[trigger] numbers(steps, more, b, n) implies a == b by {
        blocks_differ(steps, funcs, arity, ids, log, e, a, b, n);
    }
    reveal(stands);
}

proof fn blocks_differ(
    steps: Seq<Step>,
    funcs: Seq<Decl>,
    arity: nat,
    ids: Seq<Option<usize>>,
    log: Seq<Entry>,
    e: Entry,
    a: int,
    b: int,
    n: usize,
)
    requires
        ids.len() < steps.len(),
        stands(steps, funcs, arity, ids, log),
        well_made(steps, funcs, ids.len() as int, log, e),
        numbers(steps, ids.push(e.result), a, n),
        numbers(steps, ids.push(e.result), b, n),
    ensures
        a == b,
{
    reveal(stands);
    let i = ids.len() as int;
    if a < i && b < i {
        assert(numbers(steps, ids, a, n));
        assert(numbers(steps, ids, b, n));
    } else if a < i {
        assert(yields(steps, funcs, a) == Some(Kind::Block));
    } else if b < i {
        assert(yields(steps, funcs, b) == Some(Kind::Block));
    }
}

/// A step whose value is a word has made one.
proof fn word_made(
    steps: Seq<Step>,
    funcs: Seq<Decl>,
    arity: nat,
    ids: Seq<Option<usize>>,
    log: Seq<Entry>,
    e: Entry,
)
    requires
        ids.len() < steps.len(),
        stands(steps, funcs, arity, ids, log),
        refers_back(steps.take(ids.len() as int), funcs, steps[ids.len() as int]),
        e.step == renumbered(steps[ids.len() as int], ids),
        e.result is Some,
        yields(steps, funcs, ids.len() as int) == Some(Kind::Value),
        wide(steps, ids.len() as int),
    ensures
        !byte_in(log.push(e), e.result->0),
{
    let i = ids.len() as int;
    assert(log.push(e).drop_last() =~= log);
    assert(log.push(e).last() == e);
    assert forall|x: usize|
        x < i && #[trigger] at(steps.take(i), funcs, Kind::Value, x) && wide(
            steps,
            x as int,
        ) implies !byte_in(log, number(ids, x)) by {
        yields_prefix(steps, funcs, i, Kind::Value, x);
        reveal(stands);
        assert(wide(steps, x as int));
    }
}

/// A builder that has made a step goes along with the steps.
pub proof fn step_done(
    steps: Seq<Step>,
    funcs: Seq<Decl>,
    arity: nat,
    ids: Seq<Option<usize>>,
    log: Seq<Entry>,
    args: Seq<usize>,
    e: Entry,
)
    requires
        fits(steps, funcs, arity),
        follows_along(steps, funcs, arity, ids, log, args),
        ids.len() < steps.len(),
        !(steps[ids.len() as int] is Arg),
        e.step == renumbered(steps[ids.len() as int], ids),
        well_made(steps, funcs, ids.len() as int, log, e),
    ensures
        follows_along(steps, funcs, arity, ids.push(e.result), log.push(e), Seq::empty()),
{
    assert(follows(steps.take(ids.len() as int), funcs, steps[ids.len() as int])) by {
        reveal(linked);
    }
    stands_step(steps, funcs, arity, ids, log, e);
    mirrors_step(steps, funcs, arity, ids, log, e);
}

/// Taking in an argument goes along with the steps.
pub proof fn arg_done(
    steps: Seq<Step>,
    funcs: Seq<Decl>,
    arity: nat,
    ids: Seq<Option<usize>>,
    log: Seq<Entry>,
    args: Seq<usize>,
    x: usize,
)
    requires
        fits(steps, funcs, arity),
        follows_along(steps, funcs, arity, ids, log, args),
        ids.len() < steps.len(),
        steps[ids.len() as int] == Step::Arg(x),
    ensures
        follows_along(steps, funcs, arity, ids.push(None), log, args.push(number(ids, x))),
{
    let i = ids.len() as int;
    let more = ids.push(None::<usize>);
    assert(follows(steps.take(i), funcs, steps[i])) by {
        reveal(linked);
    }
    all_referred(steps, funcs, arity, ids, log, steps[i]);
    site_of_step(steps, i);
    assert(steps.take(i + 1).last() == steps[i]);
    assert(steps.take(i + 1).drop_last() =~= steps.take(i));
    assert(mirrors(steps, more, log)) by {
        reveal(mirrors);
        let p = site_of(steps.take(i));
        image_step(p.started, steps, ids, None);
        image_step(p.filled, steps, ids, None);
        image_step(p.sealed, steps, ids, None);
        image_step(p.targets, steps, ids, None);
    }
    assert(stands(steps, funcs, arity, more, log)) by {
        reveal(stands);
        assert forall|j: int| 0 <= j < more.len() implies (
        #[trigger] yields(steps, funcs, j) matches Some(k) ==> more[j] is Some && given(
            log,
            k,
            more[j]->0,
        )) by {
            if j < i {
                assert(more[j] == ids[j]);
            }
        }
        assert forall|j: int|
            0 <= j < more.len() && yields(steps, funcs, j) == Some(Kind::Value) && #[trigger] wide(
                steps,
                j,
            ) implies !byte_in(log, more[j]->0) by {
            assert(more[j] == ids[j]);
        }
        assert forall|j: int| 0 <= j < more.len() implies (
        #[trigger] steps[j] matches Step::Import(f) ==> results_of(log, more[j]->0)
            == funcs[f as int].results) by {
            if j < i {
                assert(more[j] == ids[j]);
            }
        }
        assert forall|j: int|
            0 <= j < more.len() && #[trigger] steps[j] is CreateBlock implies params_in(
            steps.take(i + 1),
            arity,
            j as usize,
        ) <= params_of(log, arity, more[j]->0) by {
            assert(more[j] == ids[j]);
        }
        assert forall|a: int, b: int, n: usize| #[trigger]
            numbers(steps, more, a, n) && #[trigger] numbers(steps, more, b, n) implies a == b by {
            assert(numbers(steps, ids, a, n));
            assert(numbers(steps, ids, b, n));
        }
    }
    let many = args.push(number(ids, x));
    assert forall|k: int| 0 <= k < many.len() implies given(log, Kind::Value, #[trigger] many[k]) by {
        if k < args.len() {
            assert(many[k] == args[k]);
        }
    }
}

/// A builder that has made nothing goes along with every function.
pub proof fn nothing_done(steps: Seq<Step>, funcs: Seq<Decl>, arity: nat)
    requires
        steps.len() <= usize::MAX,
    ensures
        follows_along(steps, funcs, arity, Seq::empty(), Seq::empty(), Seq::empty()),
{
    let none = Seq::<Option<usize>>::empty();
    assert(stands(steps, funcs, arity, none, Seq::empty())) by {
        reveal(stands);
    }
    assert(mirrors(steps, none, Seq::empty())) by {
        reveal(mirrors);
        reveal(site);
        reveal(site_of);
        assert(steps.take(0) =~= Seq::empty());
        assert(image(Set::empty(), steps, none) =~= Set::empty());
    }
}

/// A builder that has made all steps of a function has completed it.
pub proof fn all_done(
    steps: Seq<Step>,
    funcs: Seq<Decl>,
    arity: nat,
    ids: Seq<Option<usize>>,
    log: Seq<Entry>,
    args: Seq<usize>,
)
    requires
        fits(steps, funcs, arity),
        follows_along(steps, funcs, arity, ids, log, args),
        ids.len() == steps.len(),
    ensures
        complete(site(log)),
        is_begun(site(log)),
{
    reveal(mirrors);
    assert(steps.take(steps.len() as int) =~= steps);
    let last = steps.len() - 1;
    assert(follows(steps.take(last), funcs, steps[last])) by {
        reveal(linked);
    }
    site_of_step(steps, last);
    let b = site_of(steps).block->Some_0;
    assert(site_of(steps).started.contains(b));
    assert(numbers(steps, ids, b as int, site(log).block->Some_0));
    assert(site(log).started.contains(site(log).block->Some_0));
    let p = site_of(steps);
    assert forall|b: usize| #[trigger] site(log).started.contains(b) implies site(
        log,
    ).filled.contains(b) && site(log).sealed.contains(b) by {
        let j = choose|j: usize|
            p.started.contains(j) && #[trigger] numbers(steps, ids, j as int, b);
        assert(p.filled.contains(j) && p.sealed.contains(j));
    }
}

} // verus!
