//! The phased-task protocol: how a task that takes several turns keeps its
//! state on the data stack between them.
//!
//! A phased task starts from its arguments, which lie on the data stack. If
//! its state is then complete it pushes its result. Otherwise it pushes the
//! state, above it what its child task is to read, and hands back the child
//! and itself in its later phase. When it resumes, the child's result lies
//! on top of the state: the task takes the result into the state and decides
//! again.

use crate::codec::Datum;
use crate::codec::DatumModel;
use crate::codec::Payload;
use crate::error::Error;
use crate::scheduler::datum_views;
use crate::scheduler::pops;
use crate::scheduler::push_all_turn;
use crate::scheduler::push_turn;
use crate::scheduler::turn_view;
use crate::scheduler::Scheduler;
use crate::scheduler::TurnOutcome;
use crate::stack::lemma_pop_keeps_wf;
use crate::stack::ArenaModel;
use vstd::prelude::*;

verus! {

/// A child task and the values that it is to find on the data stack, the
/// first value lowest.
#[derive(Debug)]
pub struct Spawn {
    pub inputs: Vec<Datum>,
    pub task: Datum,
}

/// A task that runs in phases.
///
/// The implementor states what each of its steps does; [`execute_phase`]
/// does all the pushing and all the popping but that of the child's result.
/// A phased task becomes a task of the scheduler by handing its `execute`
/// over to [`execute_phase`].
pub trait PhasedTask: Sized {
    /// The arguments that the task starts from.
    type Args: Payload;

    /// The result that the task produces.
    type Result: Payload;

    /// The state that the task keeps between its turns.
    type State: Payload;

    /// This is the task in its initial phase.
    spec fn initial(&self) -> bool;

    /// What `initial_phase` may do: `made` is the state it returns.
    spec fn starts(
        &self,
        args: Self::Args,
        before: ArenaModel,
        after: ArenaModel,
        made: Result<Self::State, Error>,
    ) -> bool;

    /// What `subsequent_phase` may do: it is handed `state` and leaves `folded`.
    spec fn resumes(
        &self,
        state: Self::State,
        before: ArenaModel,
        after: ArenaModel,
        folded: Self::State,
        r: Result<(), Error>,
    ) -> bool;

    /// The computation is resolved in `state`.
    spec fn complete(&self, state: Self::State) -> bool;

    /// The datum of the result that a complete state holds.
    spec fn result_datum(&self, state: Self::State) -> DatumModel;

    /// The datum of the task in its later phase.
    spec fn next_datum(&self) -> DatumModel;

    /// What the child that goes on from `state` is to find on the data stack.
    spec fn child_inputs(&self, state: Self::State) -> Seq<DatumModel>;

    /// The datum of the child that goes on from `state`.
    spec fn child_task(&self, state: Self::State) -> DatumModel;

    /// Returns true if this is the first phase of the task.
    fn is_initial_phase(&self) -> (b: bool)
        ensures
            b == self.initial(),
    ;

    /// The initial phase: sets the state up from the arguments.
    fn initial_phase(&self, scheduler: &mut Scheduler, args: Self::Args) -> (made: Result<
        Self::State,
        Error,
    >)
        ensures
            self.starts(args, old(scheduler)@, final(scheduler)@, made),
    ;

    /// A later phase: pops the child's result and takes it into the state.
    fn subsequent_phase(&self, scheduler: &mut Scheduler, state: &mut Self::State) -> (r: Result<
        (),
        Error,
    >)
        ensures
            self.resumes(*old(state), old(scheduler)@, final(scheduler)@, *final(state), r),
    ;

    /// The task in its later phase, as the datum that stands for it.
    fn next_phase(&self) -> (d: Datum)
        ensures
            d@ == self.next_datum(),
    ;

    /// The child that goes on from a state that is not complete, and what
    /// it is to find on the data stack.
    fn child(&self, state: &Self::State) -> (spawn: Spawn)
        ensures
            datum_views(spawn.inputs@) == self.child_inputs(*state),
            spawn.task@ == self.child_task(*state),
    ;

    /// The result that a complete state holds.
    fn produce_result(&self, state: &Self::State) -> (result: Self::Result)
        ensures
            result.datum() == self.result_datum(*state),
    ;

    /// Returns true if the computation is resolved in `state`.
    fn is_complete(&self, state: &Self::State) -> (b: bool)
        ensures
            b == self.complete(*state),
    ;
}

/// What is kept on the data stack when the task goes on from `state`: the
/// state, then what the child is to read.
pub open spec fn kept<T: PhasedTask>(task: T, state: T::State) -> Seq<DatumModel> {
    seq![state.datum()] + task.child_inputs(state)
}

/// The tasks that go on from `state`: the child, then the task in its later phase.
pub open spec fn follow_up<T: PhasedTask>(task: T, state: T::State) -> Seq<DatumModel> {
    seq![task.child_task(state), task.next_datum()]
}

/// How a turn ends once the task holds `state`: a complete state has its
/// result pushed and no task follows; any other is kept, with the child's
/// inputs above it, and the child and the later phase follow.
pub open spec fn concludes<T: PhasedTask>(
    task: T,
    state: T::State,
    before: ArenaModel,
    after: ArenaModel,
    outcome: TurnOutcome,
) -> bool {
    if task.complete(state) {
        push_turn(before, task.result_datum(state), Seq::empty(), after, outcome)
    } else {
        push_all_turn(before, kept(task, state), follow_up(task, state), after, outcome)
    }
}

/// A turn in the initial phase: pops the arguments, starts, and concludes.
pub open spec fn first_turn<T: PhasedTask>(
    task: T,
    before: ArenaModel,
    after: ArenaModel,
    outcome: TurnOutcome,
) -> bool {
    exists|mid: ArenaModel, got: Result<T::Args, Error>|
        #[trigger] pops(before, mid, got) && match got {
            Err(e) => outcome == Err::<Seq<DatumModel>, Error>(e) && after == mid,
            Ok(args) => exists|low: ArenaModel, made: Result<T::State, Error>|
                #[trigger] task.starts(args, mid, low, made) && match made {
                    Err(e) => outcome == Err::<Seq<DatumModel>, Error>(e) && after == low,
                    Ok(state) => concludes(task, state, low, after, outcome),
                },
        }
}

/// A turn in a later phase. The child's result lies on top of the state:
/// the turn lifts it off, pops the state, puts the result back for
/// `subsequent_phase` to pop, and concludes with the state that it leaves.
pub open spec fn later_turn<T: PhasedTask>(
    task: T,
    before: ArenaModel,
    after: ArenaModel,
    outcome: TurnOutcome,
) -> bool {
    if before.front.len() == 0 {
        outcome == Err::<Seq<DatumModel>, Error>(Error::EmptyStack) && after == before
    } else {
        exists|mid: ArenaModel, got: Result<T::State, Error>|
            #[trigger] pops(before.pop_front(), mid, got) && match got {
                Err(e) => outcome == Err::<Seq<DatumModel>, Error>(e) && after == mid,
                Ok(state) => exists|low: ArenaModel, folded: T::State, r: Result<(), Error>|
                    #[trigger] task.resumes(
                        state,
                        mid.push_front(before.front.last()),
                        low,
                        folded,
                        r,
                    ) && match r {
                        Err(e) => outcome == Err::<Seq<DatumModel>, Error>(e) && after == low,
                        Ok(_) => concludes(task, folded, low, after, outcome),
                    },
            }
    }
}

/// A turn of a phased task.
pub open spec fn phase_turn<T: PhasedTask>(
    task: T,
    before: ArenaModel,
    after: ArenaModel,
    outcome: TurnOutcome,
) -> bool {
    if task.initial() {
        first_turn(task, before, after, outcome)
    } else {
        later_turn(task, before, after, outcome)
    }
}

/// Ends a turn from the state that the task holds.
pub fn conclude<T: PhasedTask>(task: &T, state: &T::State, scheduler: &mut Scheduler) -> (r: Result<
    Vec<Datum>,
    Error,
>)
    ensures
        concludes(*task, *state, old(scheduler)@, final(scheduler)@, turn_view(r)),
{
    if task.is_complete(state) {
        let result = task.produce_result(state);
        match scheduler.push_data(&result) {
            Ok(()) => {
                let tasks: Vec<Datum> = Vec::new();
                proof {
                    assert(datum_views(tasks@) =~= Seq::<DatumModel>::empty());
                }
                Ok(tasks)
            },
            Err(e) => Err(e),
        }
    } else {
        let spawn = task.child(state);
        let Spawn { inputs, task: child } = spawn;
        let mut data: Vec<Datum> = Vec::new();
        data.push(state.to_datum());
        let mut inputs = inputs;
        let ghost first = datum_views(data@);
        let ghost rest = datum_views(inputs@);
        data.append(&mut inputs);
        proof {
            assert(datum_views(data@) =~= kept(*task, *state));
        }
        match scheduler.push_all(&data) {
            Ok(()) => {},
            Err(e) => {
                return Err(e);
            },
        }
        let mut tasks: Vec<Datum> = Vec::new();
        tasks.push(child);
        tasks.push(task.next_phase());
        proof {
            assert(datum_views(tasks@) =~= follow_up(*task, *state));
        }
        Ok(tasks)
    }
}

/// Runs the phase that the task is in.
///
/// This is the one entry point that the `execute` of a phased task hands
/// over to. It pops the arguments or the state, has the task do its step,
/// and pushes what the step leaves: the result, or the state and the inputs
/// of the child.
pub fn execute_phase<T: PhasedTask>(task: &T, scheduler: &mut Scheduler) -> (r: Result<
    Vec<Datum>,
    Error,
>)
    ensures
        phase_turn(*task, old(scheduler)@, final(scheduler)@, turn_view(r)),
{
    let ghost before = scheduler@;
    if task.is_initial_phase() {
        let got = scheduler.pop_data::<T::Args>();
        let ghost mid = scheduler@;
        assert(pops(before, mid, got));
        let args = match got {
            Ok(args) => args,
            Err(e) => {
                return Err(e);
            },
        };
        let made = task.initial_phase(scheduler, args);
        let ghost low = scheduler@;
        assert(task.starts(args, mid, low, made));
        match made {
            Ok(state) => conclude(task, &state, scheduler),
            Err(e) => Err(e),
        }
    } else {
        let child = match scheduler.pop_frame() {
            Ok(child) => child,
            Err(e) => {
                return Err(e);
            },
        };
        let ghost lifted = scheduler@;
        let got = scheduler.pop_data::<T::State>();
        let ghost mid = scheduler@;
        assert(pops(lifted, mid, got));
        let mut state = match got {
            Ok(state) => state,
            Err(e) => {
                return Err(e);
            },
        };
        proof {
            lemma_pop_keeps_wf(before);
            lemma_pop_keeps_wf(lifted);
        }
        match scheduler.push_frame(child.as_slice()) {
            Ok(()) => {},
            Err(e) => {
                return Err(e);
            },
        }
        let ghost popped = state;
        let ghost ready = scheduler@;
        let r = task.subsequent_phase(scheduler, &mut state);
        let ghost low = scheduler@;
        assert(task.resumes(popped, ready, low, state, r));
        match r {
            Ok(()) => conclude(task, &state, scheduler),
            Err(e) => Err(e),
        }
    }
}

} // verus!
