//! What the text of a `receive` does with the mailbox.
use vstd::prelude::*;
use crate::emit::{
    core_text, deeper, pats_text, receive_clause_text, receive_clauses_text, receive_end,
    receive_head, receive_middle, receive_wait,
};
use crate::erlang::{Clause, Core, Pat};
use crate::meaning::{run_clause, Env, Val, World};

verus! {

/// The primitive operations on the mailbox that a `receive` is made of.
pub enum Act {
    /// Looks at the next message: what follows if there is one, and if not.
    Peek(Box<Act>, Box<Act>),
    /// Compares the message with clauses, and goes on with the first that is
    /// taken, or else with the last part.
    Compare(Seq<Branch>, Box<Act>),
    /// Takes the message off the mailbox; the next is its first again.
    Remove(Box<Act>),
    /// Passes over the message.
    Pass(Box<Act>),
    /// Starts again with the next message.
    Again,
    /// Waits for a message for some time: what follows if none came, and if one
    /// came.
    Wait(Option<Core>, Box<Act>, Box<Act>),
    /// Runs an expression of the program.
    Run(Core),
    /// Comes to an atom.
    Give(Seq<char>),
}

/// A clause with what follows on it.
pub struct Branch {
    pub patterns: Seq<Pat>,
    pub guard: Core,
    pub then_do: Act,
}

/// A mailbox: the messages that have been passed over, and the others.
pub struct Mailbox {
    pub passed: Seq<Val>,
    pub left: Seq<Val>,
}

pub open spec fn all_messages(b: Mailbox) -> Seq<Val> {
    b.passed + b.left
}

/// How a `receive` ends for the messages that are there.
pub enum Ending {
    /// An expression starts to run, with the message that was taken and the
    /// mailbox that it finds.
    Runs(Core, Val, Mailbox),
    /// It waits.
    Waits(Mailbox),
    /// It does not come to an end.
    Stuck,
}

/// The number of the first clause that a message is taken by.
pub open spec fn selected(s: Seq<Branch>, v: Val, env: Env, w: World) -> Option<nat>
    decreases s.len(),
{
    if s.len() == 0 {
        None
    } else {
        match selected(s.drop_last(), v, env, w) {
            Some(k) => Some(k),
            None => if is_taken(s.last(), v, env, w) {
                Some((s.len() - 1) as nat)
            } else {
                None
            },
        }
    }
}

/// Whether a clause is taken by a message.
pub open spec fn is_taken(b: Branch, v: Val, env: Env, w: World) -> bool {
    run_clause(
        Clause { patterns: b.patterns, guard: b.guard, body: Core::Tuple(Seq::empty()) },
        v,
        env,
        w,
    ) is Some
}

/// What an act does; `root` is where the loop starts, and `fuel` how often it
/// may.
pub open spec fn acted(
    a: Act,
    root: Act,
    b: Mailbox,
    message: Option<Val>,
    fuel: nat,
    env: Env,
    w: World,
) -> Ending
    decreases fuel, a,
{
    match a {
        Act::Peek(found, empty) => if b.left.len() > 0 {
            acted(*found, root, b, Some(b.left[0]), fuel, env, w)
        } else {
            acted(*empty, root, b, None, fuel, env, w)
        },
        Act::Compare(s, other) => match message {
            Some(v) => match selected(s, v, env, w) {
                Some(k) => if k < s.len() {
                    acted(s[k as int].then_do, root, b, message, fuel, env, w)
                } else {
                    Ending::Stuck
                },
                None => acted(*other, root, b, message, fuel, env, w),
            },
            None => Ending::Stuck,
        },
        Act::Remove(rest) => if b.left.len() > 0 {
            acted(
                *rest,
                root,
                Mailbox { passed: Seq::empty(), left: b.passed + b.left.drop_first() },
                message,
                fuel,
                env,
                w,
            )
        } else {
            Ending::Stuck
        },
        Act::Pass(rest) => if b.left.len() > 0 {
            acted(
                *rest,
                root,
                Mailbox { passed: b.passed.push(b.left[0]), left: b.left.drop_first() },
                message,
                fuel,
                env,
                w,
            )
        } else {
            Ending::Stuck
        },
        Act::Again => if fuel == 0 {
            Ending::Stuck
        } else {
            acted(root, root, b, None, (fuel - 1) as nat, env, w)
        },
        Act::Wait(_, _, _) => Ending::Waits(b),
        Act::Run(c) => match message {
            Some(v) => Ending::Runs(c, v, b),
            None => Ending::Stuck,
        },
        Act::Give(_) => Ending::Stuck,
    }
}

/// The text of an act.
pub open spec fn act_text(a: Act, m: Seq<char>) -> Seq<char>
    decreases a,
{
    match a {
        Act::Peek(found, empty) => "let <_has_msg,_msg> =\n"@ + deeper(m)
            + "primop 'recv_peek_message' ()\n"@ + m + "in case _has_msg of\n"@ + deeper(m)
            + "<'true'> when 'true' ->\n"@ + deeper(deeper(m)) + act_text(*found, deeper(deeper(m)))
            + deeper(m) + "<'false'> when 'true' ->\n"@ + deeper(deeper(m)) + act_text(
            *empty,
            deeper(deeper(m)),
        ) + m + "end\n"@,
        Act::Compare(s, other) => "case _msg of\n"@ + branches_text(s, deeper(m)) + deeper(m)
            + "<_Other> when 'true' ->\n"@ + deeper(deeper(m)) + act_text(*other, deeper(deeper(m)))
            + m + "end\n"@,
        Act::Remove(rest) => "do primop 'remove_message' () "@ + act_text(*rest, m),
        Act::Pass(rest) => "do primop 'recv_next' () "@ + act_text(*rest, m),
        Act::Again => "apply 'recv$^0'/0 ()\n"@,
        Act::Wait(ms, over, more) => "let <_timeout_result> =\n"@ + deeper(m)
            + "primop 'recv_wait_timeout' ("@ + (match ms {
            Some(c) => core_text(c, deeper(m)),
            None => "'infinity'"@,
        }) + ")\n"@ + m + "in case _timeout_result of\n"@ + deeper(m) + "<'true'> when 'true' -> "@
            + act_text(*over, deeper(m)) + "\n"@ + deeper(m) + "<'false'> when 'true' -> "@
            + act_text(*more, deeper(m)) + m + "end\n"@,
        Act::Run(c) => core_text(c, m),
        Act::Give(name) => "'"@ + name + "'"@,
    }
}

pub open spec fn branches_text(s: Seq<Branch>, m: Seq<char>) -> Seq<char>
    decreases s,
{
    if s.len() == 0 {
        Seq::empty()
    } else {
        branches_text(s.drop_last(), m) + (m + "<"@ + pats_text(s.last().patterns) + "> when "@
            + core_text(s.last().guard, m) + " ->\n"@ + deeper(m) + act_text(
            s.last().then_do,
            deeper(m),
        ) + "\n"@)
    }
}

/// The text of a loop of acts.
pub open spec fn loop_text(root: Act, margin: Seq<char>) -> Seq<char> {
    let m1 = deeper(margin);
    let m2 = deeper(m1);
    let m3 = deeper(m2);
    "( letrec\n"@ + m1 + "'recv$^0'/0 =\n"@ + m2 + "fun () ->\n"@ + m3 + act_text(root, m3) + m1
        + "in apply 'recv$^0'/0 ()\n"@ + margin + "-| ['letrec_goto'] )"@
}

/// The branches of the clauses of a `receive`.
pub open spec fn branches(s: Seq<Clause>) -> Seq<Branch> {
    Seq::new(
        s.len(),
        |i: int|
            Branch {
                patterns: s[i].patterns,
                guard: s[i].guard,
                then_do: Act::Remove(Box::new(Act::Run(s[i].body))),
            },
    )
}

/// The acts of a `receive`.
pub open spec fn receive_acts(
    s: Seq<Clause>,
    timeout: Option<(Box<Core>, Box<Core>)>,
) -> Act {
    Act::Peek(
        Box::new(Act::Compare(branches(s), Box::new(Act::Pass(Box::new(Act::Again))))),
        Box::new(
            Act::Wait(
                match timeout {
                    Some((ms, _)) => Some(*ms),
                    None => None,
                },
                Box::new(
                    match timeout {
                        Some((_, body)) => Act::Run(*body),
                        None => Act::Give("timeout"@),
                    },
                ),
                Box::new(Act::Again),
            ),
        ),
    )
}

/// Whether a clause of a `receive` is taken by a message.
pub open spec fn accepts(c: Clause, v: Val, env: Env, w: World) -> bool {
    is_taken(Branch { patterns: c.patterns, guard: c.guard, then_do: Act::Again }, v, env, w)
}

/// Whether no clause is taken by a message.
pub open spec fn is_refused(s: Seq<Clause>, v: Val, env: Env, w: World) -> bool {
    forall|k: int| 0 <= k < s.len() ==> !accepts(#[trigger] s[k], v, env, w)
}

proof fn refused_unselected(s: Seq<Clause>, v: Val, env: Env, w: World)
    requires
        is_refused(s, v, env, w),
    ensures
        selected(branches(s), v, env, w) is None,
    decreases s.len(),
{
    if s.len() > 0 {
        let front = s.drop_last();
        assert forall|k: int| 0 <= k < front.len() implies !accepts(
            #[trigger] front[k],
            v,
            env,
            w,
        ) by {
            assert(front[k] == s[k]);
        }
        refused_unselected(front, v, env, w);
        assert(branches(s).drop_last() =~= branches(front));
        assert(!accepts(s[s.len() - 1], v, env, w));
    }
}

proof fn first_selected(s: Seq<Clause>, j: int, v: Val, env: Env, w: World)
    requires
        0 <= j < s.len(),
        accepts(s[j], v, env, w),
        is_refused(s.take(j), v, env, w),
    ensures
        selected(branches(s), v, env, w) == Some(j as nat),
    decreases s.len(),
{
    let front = s.drop_last();
    assert(branches(s).drop_last() =~= branches(front));
    if j < s.len() - 1 {
        assert(front.take(j) =~= s.take(j));
        first_selected(front, j, v, env, w);
    } else {
        assert(s.take(j) =~= front);
        refused_unselected(front, v, env, w);
    }
}

/// A `receive` passes over the messages that no clause is taken by, and leaves
/// them in the mailbox, in order. The first message that a clause is taken by is
/// off the mailbox when the body of the first such clause starts; the others are
/// there, and the next `receive` starts with the first of them.
pub proof fn receive_takes_one_message(
    s: Seq<Clause>,
    timeout: Option<(Box<Core>, Box<Core>)>,
    b: Mailbox,
    i: int,
    j: int,
    env: Env,
    w: World,
)
    requires
        0 <= i < b.left.len(),
        forall|k: int| 0 <= k < i ==> is_refused(s, #[trigger] b.left[k], env, w),
        0 <= j < s.len(),
        accepts(s[j], b.left[i], env, w),
        is_refused(s.take(j), b.left[i], env, w),
    ensures
        acted(
            receive_acts(s, timeout),
            receive_acts(s, timeout),
            b,
            None,
            b.left.len(),
            env,
            w,
        ) == Ending::Runs(
            s[j].body,
            b.left[i],
            Mailbox { passed: Seq::empty(), left: all_messages(b).remove(b.passed.len() + i) },
        ),
{
    receive_takes(s, timeout, b, i, j, b.left.len(), env, w);
}

#[verifier::rlimit(40)]
proof fn receive_takes(
    s: Seq<Clause>,
    timeout: Option<(Box<Core>, Box<Core>)>,
    b: Mailbox,
    i: int,
    j: int,
    fuel: nat,
    env: Env,
    w: World,
)
    requires
        0 <= i < b.left.len(),
        i <= fuel,
        forall|k: int| 0 <= k < i ==> is_refused(s, #[trigger] b.left[k], env, w),
        0 <= j < s.len(),
        accepts(s[j], b.left[i], env, w),
        is_refused(s.take(j), b.left[i], env, w),
    ensures
        acted(receive_acts(s, timeout), receive_acts(s, timeout), b, None, fuel, env, w)
            == Ending::Runs(
            s[j].body,
            b.left[i],
            Mailbox { passed: Seq::empty(), left: all_messages(b).remove(b.passed.len() + i) },
        ),
    decreases i,
{
    let root = receive_acts(s, timeout);
    let v = b.left[0];
    let other = Act::Pass(Box::new(Act::Again));
    let c = Act::Compare(branches(s), Box::new(other));
    assert(acted(root, root, b, None, fuel, env, w) == acted(c, root, b, Some(v), fuel, env, w));
    if i == 0 {
        first_selected(s, j, v, env, w);
        let run = Act::Run(s[j].body);
        let remove = Act::Remove(Box::new(run));
        assert(branches(s)[j].then_do == remove);
        assert(acted(c, root, b, Some(v), fuel, env, w) == acted(
            remove,
            root,
            b,
            Some(v),
            fuel,
            env,
            w,
        ));
        let after = Mailbox { passed: Seq::empty(), left: b.passed + b.left.drop_first() };
        assert(acted(remove, root, b, Some(v), fuel, env, w) == acted(
            run,
            root,
            after,
            Some(v),
            fuel,
            env,
            w,
        ));
        assert(after.left =~= all_messages(b).remove(b.passed.len() as int));
    } else {
        assert(is_refused(s, b.left[0], env, w));
        refused_unselected(s, v, env, w);
        assert(acted(c, root, b, Some(v), fuel, env, w) == acted(
            other,
            root,
            b,
            Some(v),
            fuel,
            env,
            w,
        ));
        let next = Mailbox { passed: b.passed.push(v), left: b.left.drop_first() };
        assert(acted(other, root, b, Some(v), fuel, env, w) == acted(
            Act::Again,
            root,
            next,
            Some(v),
            fuel,
            env,
            w,
        ));
        assert(acted(Act::Again, root, next, Some(v), fuel, env, w) == acted(
            root,
            root,
            next,
            None,
            (fuel - 1) as nat,
            env,
            w,
        ));
        assert forall|k: int| 0 <= k < i - 1 implies is_refused(s, #[trigger] next.left[k], env, w) by {
            assert(next.left[k] == b.left[k + 1]);
        }
        assert(next.left[i - 1] == b.left[i]);
        assert(all_messages(next) =~= all_messages(b));
        receive_takes(s, timeout, next, i - 1, j, (fuel - 1) as nat, env, w);
    }
}

/// A `receive` that no message is for waits, and leaves every message in the
/// mailbox.
pub proof fn receive_leaves_other_messages(
    s: Seq<Clause>,
    timeout: Option<(Box<Core>, Box<Core>)>,
    b: Mailbox,
    fuel: nat,
    env: Env,
    w: World,
)
    requires
        b.left.len() <= fuel,
        forall|k: int| 0 <= k < b.left.len() ==> is_refused(s, #[trigger] b.left[k], env, w),
    ensures
        acted(receive_acts(s, timeout), receive_acts(s, timeout), b, None, fuel, env, w)
            == Ending::Waits(Mailbox { passed: all_messages(b), left: Seq::empty() }),
    decreases b.left.len(),
{
    let root = receive_acts(s, timeout);
    let other = Act::Pass(Box::new(Act::Again));
    let c = Act::Compare(branches(s), Box::new(other));
    if b.left.len() == 0 {
        assert(all_messages(b) =~= b.passed);
        assert(b.left =~= Seq::<Val>::empty());
        let wait = *root->Peek_1;
        assert(acted(root, root, b, None, fuel, env, w) == acted(wait, root, b, None, fuel, env, w));
    } else {
        let v = b.left[0];
        assert(acted(root, root, b, None, fuel, env, w) == acted(c, root, b, Some(v), fuel, env, w));
        assert(is_refused(s, b.left[0], env, w));
        refused_unselected(s, v, env, w);
        let next = Mailbox { passed: b.passed.push(v), left: b.left.drop_first() };
        assert(acted(c, root, b, Some(v), fuel, env, w) == acted(
            other,
            root,
            b,
            Some(v),
            fuel,
            env,
            w,
        ));
        assert(acted(other, root, b, Some(v), fuel, env, w) == acted(
            Act::Again,
            root,
            next,
            Some(v),
            fuel,
            env,
            w,
        ));
        assert(acted(Act::Again, root, next, Some(v), fuel, env, w) == acted(
            root,
            root,
            next,
            None,
            (fuel - 1) as nat,
            env,
            w,
        ));
        assert forall|k: int| 0 <= k < next.left.len() implies is_refused(
            s,
            #[trigger] next.left[k],
            env,
            w,
        ) by {
            assert(next.left[k] == b.left[k + 1]);
        }
        assert(all_messages(next) =~= all_messages(b));
        receive_leaves_other_messages(s, timeout, next, (fuel - 1) as nat, env, w);
    }
}

proof fn branches_print(s: Seq<Clause>, m: Seq<char>)
    ensures
        branches_text(branches(s), m) == receive_clauses_text(s, m),
    decreases s.len(),
{
    if s.len() > 0 {
        let front = s.drop_last();
        branches_print(front, m);
        assert(branches(s).drop_last() =~= branches(front));
        let c = s.last();
        let b = branches(s).last();
        let run = Act::Run(c.body);
        assert(act_text(run, deeper(m)) == core_text(c.body, deeper(m)));
        assert(act_text(b.then_do, deeper(m)) == "do primop 'remove_message' () "@ + core_text(
            c.body,
            deeper(m),
        ));
        let lead = m + "<"@ + pats_text(c.patterns) + "> when "@ + core_text(c.guard, m) + " ->\n"@
            + deeper(m);
        let body = core_text(c.body, deeper(m));
        assert(lead + ("do primop 'remove_message' () "@ + body) + "\n"@ =~= lead
            + "do primop 'remove_message' () "@ + body + "\n"@);
        assert(receive_clause_text(c, m) == lead + "do primop 'remove_message' () "@ + body
            + "\n"@);
        assert(branches_text(branches(s), m) == branches_text(branches(front), m) + (lead
            + act_text(b.then_do, deeper(m)) + "\n"@));
    }
}

/// The same parts, put together in two ways.
#[verifier::rlimit(50)]
#[verifier::spinoff_prover]
proof fn put_together(
    o: Seq<char>,
    p: Seq<char>,
    k: Seq<char>,
    a: Seq<char>,
    d: Seq<char>,
    x: Seq<char>,
    l: Seq<char>,
    ms: Seq<char>,
    r: Seq<char>,
    t: Seq<char>,
    e: Seq<char>,
    c: Seq<char>,
)
    ensures
        o + (p + (k + a + d) + x + (l + ms + r + t) + e) + c == (o + p + k) + a + (d + x + l) + ms
            + r + (t + e + c),
{
    assert(o + (p + (k + a + d) + x + (l + ms + r + t) + e) + c =~= (o + p + k) + a + (d + x + l)
        + ms + r + (t + e + c));
}

proof fn four(a: Seq<char>, b: Seq<char>, c: Seq<char>, d: Seq<char>)
    ensures
        a + b + c + d == a + (b + c + d),
        a + b + c == a + (b + c),
{
    assert(a + b + c + d =~= a + (b + c + d));
    assert(a + b + c =~= a + (b + c));
}

/// The text of a clause for other messages, and of the end of the comparison.
pub open spec fn other_text(m5: Seq<char>) -> Seq<char> {
    deeper(m5) + "<_Other> when 'true' ->\n"@ + deeper(deeper(m5))
        + "do primop 'recv_next' () apply 'recv$^0'/0 ()\n"@ + m5 + "end\n"@
}

proof fn compare_prints(s: Seq<Clause>, m5: Seq<char>)
    ensures
        act_text(
            Act::Compare(branches(s), Box::new(Act::Pass(Box::new(Act::Again)))),
            m5,
        ) == "case _msg of\n"@ + receive_clauses_text(s, deeper(m5)) + other_text(m5),
{
    let m6 = deeper(m5);
    let m7 = deeper(m6);
    branches_print(s, m6);
    let again = Act::Again;
    let pass = Act::Pass(Box::new(again));
    assert(act_text(again, m7) == "apply 'recv$^0'/0 ()\n"@);
    reveal_strlit("do primop 'recv_next' () apply 'recv$^0'/0 ()\n");
    reveal_strlit("do primop 'recv_next' () ");
    reveal_strlit("apply 'recv$^0'/0 ()\n");
    let skip = "do primop 'recv_next' () apply 'recv$^0'/0 ()\n"@;
    assert(skip =~= "do primop 'recv_next' () "@ + "apply 'recv$^0'/0 ()\n"@);
    assert(act_text(pass, m7) == skip);
    let lead = "case _msg of\n"@ + receive_clauses_text(s, m6);
    let o = "<_Other> when 'true' ->\n"@;
    let e = "end\n"@;
    assert(lead + m6 + o + m7 + skip + m5 + e =~= lead + (m6 + o + m7 + skip + m5 + e));
    assert(act_text(Act::Compare(branches(s), Box::new(pass)), m5) == lead + m6 + o + m7 + skip + m5
        + e);
}

/// The wait up to the time, and from its first answer on.
pub open spec fn wait_lead(m5: Seq<char>) -> Seq<char> {
    "let <_timeout_result> =\n"@ + deeper(m5) + "primop 'recv_wait_timeout' ("@
}

pub open spec fn wait_asks(m5: Seq<char>) -> Seq<char> {
    m5 + "in case _timeout_result of\n"@ + deeper(m5) + "<'true'> when 'true' -> "@
}

pub open spec fn wait_tail(m5: Seq<char>) -> Seq<char> {
    "\n"@ + deeper(m5) + "<'false'> when 'true' -> apply 'recv$^0'/0 ()\n"@ + m5 + "end\n"@
}

pub open spec fn time_text(timeout: Option<(Box<Core>, Box<Core>)>, m: Seq<char>) -> Seq<char> {
    match timeout {
        Some((ms, _)) => core_text(*ms, m),
        None => "'infinity'"@,
    }
}

pub open spec fn over_text(timeout: Option<(Box<Core>, Box<Core>)>, m: Seq<char>) -> Seq<char> {
    match timeout {
        Some((_, body)) => core_text(*body, m),
        None => "'timeout'"@,
    }
}

proof fn wait_prints(s: Seq<Clause>, timeout: Option<(Box<Core>, Box<Core>)>, m5: Seq<char>)
    ensures
        act_text(*receive_acts(s, timeout)->Peek_1, m5) == wait_lead(m5) + time_text(
            timeout,
            deeper(m5),
        ) + (")\n"@ + wait_asks(m5) + over_text(timeout, deeper(m5))) + wait_tail(m5),
{
    let m6 = deeper(m5);
    let wait = *receive_acts(s, timeout)->Peek_1;
    let over = *wait->Wait_1;
    let ms = time_text(timeout, m6);
    let after = over_text(timeout, m6);
    reveal_strlit("'");
    reveal_strlit("timeout");
    reveal_strlit("'timeout'");
    assert("'"@ + "timeout"@ + "'"@ =~= "'timeout'"@);
    assert(act_text(over, m6) == after);
    assert(act_text(Act::Again, m6) == "apply 'recv$^0'/0 ()\n"@);
    reveal_strlit("<'false'> when 'true' -> apply 'recv$^0'/0 ()\n");
    reveal_strlit("<'false'> when 'true' -> ");
    reveal_strlit("apply 'recv$^0'/0 ()\n");
    let no = "<'false'> when 'true' -> apply 'recv$^0'/0 ()\n"@;
    assert(no =~= "<'false'> when 'true' -> "@ + "apply 'recv$^0'/0 ()\n"@);
    let l = wait_lead(m5);
    let f = "<'false'> when 'true' -> "@;
    let g = "apply 'recv$^0'/0 ()\n"@;
    assert(act_text(wait, m5) == l + ms + ")\n"@ + m5 + "in case _timeout_result of\n"@ + m6
        + "<'true'> when 'true' -> "@ + after + "\n"@ + m6 + f + g + m5 + "end\n"@);
    wait_parts(
        l,
        ms,
        ")\n"@,
        m5,
        "in case _timeout_result of\n"@,
        m6,
        "<'true'> when 'true' -> "@,
        after,
        "\n"@,
        f,
        g,
        "end\n"@,
    );
}

#[verifier::rlimit(50)]
#[verifier::spinoff_prover]
proof fn wait_parts(
    l: Seq<char>,
    ms: Seq<char>,
    z: Seq<char>,
    m5: Seq<char>,
    q: Seq<char>,
    m6: Seq<char>,
    t: Seq<char>,
    after: Seq<char>,
    n: Seq<char>,
    f: Seq<char>,
    g: Seq<char>,
    e: Seq<char>,
)
    ensures
        l + ms + z + m5 + q + m6 + t + after + n + m6 + f + g + m5 + e == l + ms + (z + (m5 + q + m6
            + t) + after) + (n + m6 + (f + g) + m5 + e),
{
    assert(l + ms + z + m5 + q + m6 + t + after + n + m6 + f + g + m5 + e =~= l + ms + (z + (m5 + q
        + m6 + t) + after) + (n + m6 + (f + g) + m5 + e));
}

/// How a loop begins, looks at a message, and ends.
pub open spec fn loop_open(margin: Seq<char>) -> Seq<char> {
    let m1 = deeper(margin);
    let m2 = deeper(m1);
    "( letrec\n"@ + m1 + "'recv$^0'/0 =\n"@ + m2 + "fun () ->\n"@ + deeper(m2)
}

pub open spec fn peek_text(m3: Seq<char>) -> Seq<char> {
    let m4 = deeper(m3);
    "let <_has_msg,_msg> =\n"@ + m4 + "primop 'recv_peek_message' ()\n"@ + m3
        + "in case _has_msg of\n"@ + m4 + "<'true'> when 'true' ->\n"@ + deeper(m4)
}

pub open spec fn empty_text(m3: Seq<char>) -> Seq<char> {
    let m4 = deeper(m3);
    m4 + "<'false'> when 'true' ->\n"@ + deeper(m4)
}

pub open spec fn loop_close(margin: Seq<char>) -> Seq<char> {
    deeper(margin) + "in apply 'recv$^0'/0 ()\n"@ + margin + "-| ['letrec_goto'] )"@
}

proof fn fixed_parts(margin: Seq<char>)
    ensures
        ({
            let m3 = deeper(deeper(deeper(margin)));
            let m5 = deeper(deeper(m3));
            &&& receive_head(margin) == loop_open(margin) + peek_text(m3) + "case _msg of\n"@
            &&& receive_middle(margin) == other_text(m5) + empty_text(m3) + wait_lead(m5)
            &&& receive_wait(margin) == wait_asks(m5)
            &&& receive_end(margin) == wait_tail(m5) + (m3 + "end\n"@) + loop_close(margin)
        }),
{
    let m3 = deeper(deeper(deeper(margin)));
    let m5 = deeper(deeper(m3));
    head_parts(margin);
    middle_parts(margin);
    end_parts(margin);
}

proof fn head_parts(margin: Seq<char>)
    ensures
        receive_head(margin) == loop_open(margin) + peek_text(deeper(deeper(deeper(margin))))
            + "case _msg of\n"@,
{
    assert(receive_head(margin) =~= loop_open(margin) + peek_text(deeper(deeper(deeper(margin))))
        + "case _msg of\n"@);
}

proof fn middle_parts(margin: Seq<char>)
    ensures
        receive_middle(margin) == other_text(deeper(deeper(deeper(deeper(deeper(margin))))))
            + empty_text(deeper(deeper(deeper(margin)))) + wait_lead(
            deeper(deeper(deeper(deeper(deeper(margin))))),
        ),
{
    assert(receive_middle(margin) =~= other_text(deeper(deeper(deeper(deeper(deeper(margin))))))
        + empty_text(deeper(deeper(deeper(margin)))) + wait_lead(
        deeper(deeper(deeper(deeper(deeper(margin))))),
    ));
}

proof fn end_parts(margin: Seq<char>)
    ensures
        receive_end(margin) == wait_tail(deeper(deeper(deeper(deeper(deeper(margin)))))) + (deeper(
            deeper(deeper(margin)),
        ) + "end\n"@) + loop_close(margin),
{
    assert(receive_end(margin) =~= wait_tail(deeper(deeper(deeper(deeper(deeper(margin)))))) + (
    deeper(deeper(deeper(margin))) + "end\n"@) + loop_close(margin));
}

/// The text of a `receive` is that of the acts that it is made of.
pub proof fn receive_prints_its_acts(
    s: Seq<Clause>,
    timeout: Option<(Box<Core>, Box<Core>)>,
    margin: Seq<char>,
)
    ensures
        core_text(Core::Receive(s, timeout), margin) == loop_text(receive_acts(s, timeout), margin),
{
    let m3 = deeper(deeper(deeper(margin)));
    let m4 = deeper(m3);
    let m5 = deeper(m4);
    let m6 = deeper(m5);
    let root = receive_acts(s, timeout);
    let arms = receive_clauses_text(s, m6);
    let compare = act_text(*root->Peek_0, m5);
    let waiting = act_text(*root->Peek_1, m5);
    compare_prints(s, m5);
    wait_prints(s, timeout, m5);
    fixed_parts(margin);
    let ms = time_text(timeout, m6);
    let after = over_text(timeout, m6);
    let e = m3 + "end\n"@;
    peek_prints(root, m3);
    let r = ")\n"@ + wait_asks(m5) + after;
    put_together(
        loop_open(margin),
        peek_text(m3),
        "case _msg of\n"@,
        arms,
        other_text(m5),
        empty_text(m3),
        wait_lead(m5),
        ms,
        r,
        wait_tail(m5),
        e,
        loop_close(margin),
    );
    let front = receive_head(margin) + arms + receive_middle(margin) + ms;
    four(front, ")\n"@, wait_asks(m5), after);
    assert(core_text(Core::Receive(s, timeout), margin) == front + ")\n"@ + receive_wait(margin)
        + after + receive_end(margin));
    loop_prints(root, margin);
}

proof fn peek_prints(root: Act, m3: Seq<char>)
    requires
        root is Peek,
    ensures
        act_text(root, m3) == peek_text(m3) + act_text(*root->Peek_0, deeper(deeper(m3)))
            + empty_text(m3) + act_text(*root->Peek_1, deeper(deeper(m3))) + (m3 + "end\n"@),
{
    let m4 = deeper(m3);
    let m5 = deeper(m4);
    let a = act_text(*root->Peek_0, m5);
    let b = act_text(*root->Peek_1, m5);
    let no = "<'false'> when 'true' ->\n"@;
    let front = peek_text(m3) + a;
    four(front, m4, no, m5);
    assert(act_text(root, m3) == front + m4 + no + m5 + b + m3 + "end\n"@);
    four(front + m4 + no + m5 + b, m3, "end\n"@, Seq::empty());
}

proof fn loop_prints(root: Act, margin: Seq<char>)
    ensures
        loop_text(root, margin) == loop_open(margin) + act_text(
            root,
            deeper(deeper(deeper(margin))),
        ) + loop_close(margin),
{
    let front = loop_open(margin) + act_text(root, deeper(deeper(deeper(margin))));
    let a = deeper(margin);
    let b = "in apply 'recv$^0'/0 ()\n"@;
    let d = "-| ['letrec_goto'] )"@;
    assert(front + a + b + margin + d =~= front + (a + b + margin + d));
}

} // verus!
