//! Setting up a socket: the operations of a plan are performed in order, up to the first
//! that fails.
use crate::address_family::SocketOp;
use vstd::prelude::*;

verus! {

/// A socket that is being set up, with the operations that are still to be performed.
pub struct Setup {
    plan: Vec<SocketOp>,
    performed: usize,
}

/// What a setup asks for next.
#[derive(Debug, PartialEq, Eq)]
pub enum SetupStep<E> {
    /// Perform the operation, and hand back its outcome.
    Perform(SocketOp),
    /// Every operation succeeded.
    Done,
    /// An operation failed, and no other is to be performed.
    Failed(E),
}

impl View for Setup {
    type V = Seq<SocketOp>;

    /// The operations that are still to be performed.
    closed spec fn view(&self) -> Seq<SocketOp> {
        self.plan@.skip(self.performed as int)
    }
}

/// The operations that remain, and what is asked for, once the last operation ended
/// with `outcome` and `remaining` are to come.
pub open spec fn setup_step<E>(
    remaining: Seq<SocketOp>,
    outcome: Result<(), E>,
) -> (Seq<SocketOp>, SetupStep<E>) {
    match outcome {
        Err(e) => (seq![], SetupStep::Failed(e)),
        Ok(_) => if remaining.len() == 0 {
            (remaining, SetupStep::Done)
        } else {
            (remaining.drop_first(), SetupStep::Perform(remaining[0]))
        },
    }
}

impl Setup {
    #[verifier::type_invariant]
    spec fn wf(self) -> bool {
        self.performed <= self.plan@.len()
    }

    /// A setup that is about to perform `plan`. Its first step is taken with `Ok(())`.
    pub fn new(plan: Vec<SocketOp>) -> (r: Setup)
        ensures
            r@ == plan@,
    {
        let r = Setup { plan, performed: 0 };
        assert(plan@.skip(0) =~= plan@);
        r
    }

    /// Takes the outcome of the last operation, and says what to do next.
    pub fn step<E>(&mut self, outcome: Result<(), E>) -> (r: SetupStep<E>)
        ensures
            (final(self)@, r) == setup_step(old(self)@, outcome),
    {
        proof {
            use_type_invariant(&*self);
        }
        match outcome {
            Err(e) => {
                self.performed = self.plan.len();
                assert(self@ =~= seq![]);
                SetupStep::Failed(e)
            },
            Ok(_) => {
                if self.performed == self.plan.len() {
                    SetupStep::Done
                } else {
                    let op = self.plan[self.performed];
                    self.performed = self.performed + 1;
                    assert(self@ =~= old(self)@.drop_first());
                    SetupStep::Perform(op)
                }
            },
        }
    }
}

/// The operations that are performed, and how the setup ends, from the step that takes
/// `outcome` on, if the operations performed after it end with `outcomes`, one after another.
pub open spec fn setup_run<E>(
    remaining: Seq<SocketOp>,
    outcome: Result<(), E>,
    outcomes: Seq<Result<(), E>>,
) -> (Seq<SocketOp>, SetupStep<E>)
    decreases remaining.len(),
{
    let (rest, step) = setup_step(remaining, outcome);
    match step {
        SetupStep::Perform(op) if remaining.len() > 0 => {
            let (ops, end) = setup_run(rest, outcomes[0], outcomes.drop_first());
            (seq![op] + ops, end)
        },
        _ => (seq![], step),
    }
}

/// A setup whose operations all succeed performs its whole plan, in order, and is done.
pub proof fn setup_succeeds<E>(plan: Seq<SocketOp>, outcomes: Seq<Result<(), E>>)
    requires
        outcomes.len() == plan.len(),
        forall|i: int| 0 <= i < outcomes.len() ==> outcomes[i] is Ok,
    ensures
        setup_run(plan, Ok(()), outcomes) == (plan, SetupStep::<E>::Done),
    decreases plan.len(),
{
    reveal_with_fuel(setup_run, 2);
    if plan.len() > 0 {
        let rest = plan.drop_first();
        setup_succeeds(rest, outcomes.drop_first());
        assert(setup_step(rest, outcomes[0]) == setup_step(rest, Ok::<(), E>(())));
        assert(seq![plan[0]] + rest =~= plan);
    } else {
        assert(plan =~= seq![]);
    }
}

/// A setup stops at the first operation that fails: the operations up to it are performed,
/// no other is, and its error is what the setup fails with.
pub proof fn setup_stops_at_first_failure<E>(
    plan: Seq<SocketOp>,
    outcomes: Seq<Result<(), E>>,
    k: int,
)
    requires
        outcomes.len() == plan.len(),
        0 <= k < plan.len(),
        forall|i: int| 0 <= i < k ==> outcomes[i] is Ok,
        outcomes[k] is Err,
    ensures
        setup_run(plan, Ok(()), outcomes) == (
            plan.take(k + 1),
            SetupStep::Failed(outcomes[k]->Err_0),
        ),
    decreases plan.len(),
{
    reveal_with_fuel(setup_run, 2);
    let rest = plan.drop_first();
    let later = outcomes.drop_first();
    if k == 0 {
        assert(setup_run(rest, outcomes[0], later).0 =~= seq![]);
        assert(seq![plan[0]] + Seq::<SocketOp>::empty() =~= plan.take(1));
    } else {
        assert(setup_step(rest, outcomes[0]) == setup_step(rest, Ok::<(), E>(())));
        assert forall|i: int| 0 <= i < k - 1 implies later[i] is Ok by {
            assert(later[i] == outcomes[i + 1]);
        }
        setup_stops_at_first_failure(rest, later, k - 1);
        assert(seq![plan[0]] + rest.take(k) =~= plan.take(k + 1));
    }
}

} // verus!
