//! The part of the stack that the slots of a function take.
use vstd::prelude::*;
use crate::native::Step;

verus! {

/// How much of the stack the slots of a function may take in bytes. The rest of
/// what a machine can address from the stack pointer is left for arguments and
/// for values that no register holds.
pub const ROOM: u64 = 0x4000_0000;

/// The steps that make slots and store into them, without what else they refer
/// to.
pub open spec fn frame(steps: Seq<Step>) -> Seq<Step>
    decreases steps.len(),
{
    if steps.len() == 0 {
        Seq::empty()
    } else {
        framed(frame(steps.drop_last()), steps.last())
    }
}

/// What one more step adds.
pub open spec fn framed(front: Seq<Step>, s: Step) -> Seq<Step> {
    match s {
        Step::Slot(size, align) => front.push(s),
        Step::StackStore(_, _, offset) => front.push(Step::StackStore(0, 0, offset)),
        _ => front,
    }
}

/// The bytes that slots take, with what is left out between them at most.
pub open spec fn taken(f: Seq<Step>) -> nat
    decreases f.len(),
{
    if f.len() == 0 {
        0
    } else {
        taken(f.drop_last()) + match f.last() {
            Step::Slot(size, align) => size as nat + spacing(align),
            _ => 0nat,
        }
    }
}

/// What is left out in front of a slot at most.
pub open spec fn spacing(align: u8) -> nat {
    if align <= 3 {
        8
    } else if align <= 8 {
        256
    } else {
        ROOM as nat
    }
}

/// Whether a step keeps within the stack, of which slots take `n` bytes.
pub open spec fn within_room(s: Step, n: nat) -> bool {
    match s {
        Step::Slot(_, align) => align < 32,
        Step::StackStore(_, _, offset) => 0 <= offset && n + offset <= ROOM,
        _ => true,
    }
}

/// Whether slots have room and what is stored into them lies within it.
#[verifier::opaque]
pub open spec fn has_room(f: Seq<Step>) -> bool {
    &&& taken(f) <= ROOM
    &&& forall|i: int| 0 <= i < f.len() ==> within_room(#[trigger] f[i], taken(f))
}

/// Whether the slots of a function have room on the stack.
pub open spec fn roomy(steps: Seq<Step>) -> bool {
    has_room(frame(steps))
}

proof fn lemma_taken_grows(f: Seq<Step>, i: int)
    requires
        0 <= i <= f.len(),
    ensures
        taken(f.take(i)) <= taken(f),
    decreases f.len(),
{
    if i < f.len() {
        assert(f.drop_last().take(i) =~= f.take(i));
        lemma_taken_grows(f.drop_last(), i);
    } else {
        assert(f.take(i) =~= f);
    }
}

proof fn lemma_frame_grows(steps: Seq<Step>, i: int)
    requires
        0 <= i <= steps.len(),
    ensures
        frame(steps.take(i)).is_prefix_of(frame(steps)),
    decreases steps.len(),
{
    if i < steps.len() {
        assert(steps.drop_last().take(i) =~= steps.take(i));
        lemma_frame_grows(steps.drop_last(), i);
        let a = frame(steps.take(i));
        let b = frame(steps.drop_last());
        let c = frame(steps);
        assert(b =~= c.take(b.len() as int));
        assert(a =~= c.take(a.len() as int));
    } else {
        assert(steps.take(i) =~= steps);
        assert(frame(steps) =~= frame(steps).take(frame(steps).len() as int));
    }
}

/// Whether the slots of a function have room on the stack.
pub fn is_roomy(steps: &Vec<Step>) -> (r: bool)
    ensures
        r == roomy(steps@),
{
    let ghost all = frame(steps@);
    let mut n: u64 = 0;
    let mut i: usize = 0;
    assert(steps@.take(0) =~= Seq::empty());
    while i < steps.len()
        invariant
            i <= steps@.len(),
            all == frame(steps@),
            n == taken(frame(steps@.take(i as int))),
            n <= ROOM,
        decreases steps@.len() - i,
    {
        let ghost front = frame(steps@.take(i as int));
        let ghost more = frame(steps@.take(i as int + 1));
        proof {
            assert(steps@.take(i as int + 1).drop_last() =~= steps@.take(i as int));
            lemma_frame_grows(steps@, i as int + 1);
            lemma_taken_grows(all, more.len() as int);
            assert(all.take(more.len() as int) =~= more);
            match steps@[i as int] {
                Step::Slot(_, _) => {
                    assert(more.drop_last() =~= front);
                },
                Step::StackStore(_, _, _) => {
                    assert(more.drop_last() =~= front);
                },
                _ => {},
            }
        }
        match steps[i] {
            Step::Slot(size, align) => {
                let space: u64 = if align <= 3 {
                    8
                } else if align <= 8 {
                    256
                } else {
                    ROOM
                };
                n = n + size as u64 + space;
                if n > ROOM {
                    proof {
                        reveal(has_room);
                    }
                    return false;
                }
            },
            _ => {},
        }
        i = i + 1;
    }
    assert(steps@.take(i as int) =~= steps@);
    let mut k: usize = 0;
    assert(steps@.take(0) =~= Seq::empty());
    while k < steps.len()
        invariant
            k <= steps@.len(),
            all == frame(steps@),
            n == taken(all),
            n <= ROOM,
            forall|j: int|
                0 <= j < frame(steps@.take(k as int)).len() ==> within_room(
                    #[trigger] frame(steps@.take(k as int))[j],
                    taken(all),
                ),
        decreases steps@.len() - k,
    {
        let ghost front = frame(steps@.take(k as int));
        let ghost more = frame(steps@.take(k as int + 1));
        proof {
            assert(steps@.take(k as int + 1).drop_last() =~= steps@.take(k as int));
            lemma_frame_grows(steps@, k as int + 1);
        }
        match steps[k] {
            Step::Slot(_, align) => {
                if align >= 32 {
                    proof {
                        reveal(has_room);
                        assert(more[front.len() as int] == steps@[k as int]);
                        assert(all[front.len() as int] == more[front.len() as int]);
                    }
                    return false;
                }
                assert forall|j: int| 0 <= j < more.len() implies within_room(
                    #[trigger] more[j],
                    taken(all),
                ) by {
                    if j < front.len() {
                        assert(more[j] == front[j]);
                    }
                }
            },
            Step::StackStore(_, _, offset) => {
                if offset < 0 || n + offset as u64 > ROOM {
                    proof {
                        reveal(has_room);
                        assert(more[front.len() as int] == Step::StackStore(0, 0, offset));
                        assert(all[front.len() as int] == more[front.len() as int]);
                    }
                    return false;
                }
                assert forall|j: int| 0 <= j < more.len() implies within_room(
                    #[trigger] more[j],
                    taken(all),
                ) by {
                    if j < front.len() {
                        assert(more[j] == front[j]);
                    }
                }
            },
            _ => {},
        }
        k = k + 1;
    }
    proof {
        assert(steps@.take(k as int) =~= steps@);
        reveal(has_room);
    }
    true
}

} // verus!
