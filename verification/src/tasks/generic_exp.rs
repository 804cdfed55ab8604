//! Exponentiation as a phased task: the steps are stated one by one and the
//! protocol does the bookkeeping.

use crate::codec::all_within;
use crate::codec::cbor_encoding;
use crate::codec::field_keys;
use crate::codec::field_values;
use crate::codec::key_views;
use crate::codec::read_unsigned_record;
use crate::codec::unsigned_record;
use crate::codec::unsigned_record_model;
use crate::codec::Datum;
use crate::codec::DatumModel;
use crate::codec::Payload;
use crate::error::Error;
use crate::scheduler::datum_views;
use crate::scheduler::pops;
use crate::scheduler::Scheduler;
use crate::scheduler::SchedulerTask;
use crate::scheduler::TurnOutcome;
use crate::stack::ArenaModel;
use crate::tasks::mul::Mul;
use crate::tasks::traits::concludes;
use crate::tasks::traits::execute_phase;
use crate::tasks::traits::phase_turn;
use crate::tasks::traits::PhasedTask;
use crate::tasks::traits::Spawn;
use vstd::prelude::*;

verus! {

/// Arguments of an exponentiation.
#[derive(Debug, Clone, Copy, PartialEq, Eq)]
pub struct Args {
    /// Base value
    pub x: u8,
    /// Exponent
    pub y: u8,
}

/// Result of an exponentiation.
#[derive(Debug, Clone, Copy, PartialEq, Eq)]
pub struct Res {
    /// `x` to the power `y`, held at 255
    pub result: u8,
}

/// The state that an exponentiation keeps between its turns.
#[derive(Debug, Clone, Copy, PartialEq, Eq)]
pub struct State {
    /// Base value
    pub x: u8,
    /// Exponent
    pub y: u8,
    /// Running result
    pub result: u8,
    /// The power of `x` that `result` holds
    pub counter: u8,
}

/// Phases of the exponentiation task.
#[derive(Debug, Clone, Copy, PartialEq, Eq)]
pub enum ExponentPhase {
    /// Initial phase
    Initial,
    /// Subsequent phase
    Next,
}

impl Default for ExponentPhase {
    fn default() -> (phase: Self)
        ensures
            phase == ExponentPhase::Initial,
    {
        ExponentPhase::Initial
    }
}

/// A task that raises to a power by repeated multiplication.
#[derive(Debug, Clone, Copy, PartialEq, Eq)]
pub struct ExponentTask {
    phase: ExponentPhase,
}

impl Default for ExponentTask {
    fn default() -> (task: Self)
        ensures
            task.initial(),
    {
        ExponentTask { phase: ExponentPhase::Initial }
    }
}

impl Payload for Args {
    open spec fn datum(&self) -> DatumModel {
        unsigned_record_model(None, seq!["x"@, "y"@], seq![self.x as int, self.y as int])
    }

    fn to_datum(&self) -> (d: Datum) {
        let fields = [("x", self.x as u64), ("y", self.y as u64)];
        proof {
            assert(field_keys(fields@) =~= seq!["x"@, "y"@]);
            assert(field_values(fields@) =~= seq![self.x as int, self.y as int]);
        }
        unsigned_record(None, fields.as_slice())
    }

    fn from_datum(d: &Datum) -> (r: Option<Self>) {
        let keys = ["x", "y"];
        proof {
            assert(key_views(keys@) =~= seq!["x"@, "y"@]);
        }
        match read_unsigned_record(d, None, keys.as_slice(), 255) {
            Some(values) => {
                let value = Args { x: values[0] as u8, y: values[1] as u8 };
                proof {
                    assert(Seq::new(values@.len(), |i: int| values@[i] as int) =~= seq![
                        value.x as int,
                        value.y as int,
                    ]);
                }
                Some(value)
            },
            None => {
                proof {
                    assert forall|value: Args| #[trigger] value.datum() != d@ by {
                        assert(all_within(seq![value.x as int, value.y as int], 255));
                    }
                }
                None
            },
        }
    }
}

impl Payload for Res {
    open spec fn datum(&self) -> DatumModel {
        unsigned_record_model(None, seq!["result"@], seq![self.result as int])
    }

    fn to_datum(&self) -> (d: Datum) {
        let fields = [("result", self.result as u64)];
        proof {
            assert(field_keys(fields@) =~= seq!["result"@]);
            assert(field_values(fields@) =~= seq![self.result as int]);
        }
        unsigned_record(None, fields.as_slice())
    }

    fn from_datum(d: &Datum) -> (r: Option<Self>) {
        let keys = ["result"];
        proof {
            assert(key_views(keys@) =~= seq!["result"@]);
        }
        match read_unsigned_record(d, None, keys.as_slice(), 255) {
            Some(values) => {
                let value = Res { result: values[0] as u8 };
                proof {
                    assert(Seq::new(values@.len(), |i: int| values@[i] as int) =~= seq![
                        value.result as int,
                    ]);
                }
                Some(value)
            },
            None => {
                proof {
                    assert forall|value: Res| #[trigger] value.datum() != d@ by {
                        assert(all_within(seq![value.result as int], 255));
                    }
                }
                None
            },
        }
    }
}

impl Payload for State {
    open spec fn datum(&self) -> DatumModel {
        unsigned_record_model(None, seq!["x"@, "y"@, "result"@, "counter"@], seq![self.x as int, self.y as int, self.result as int, self.counter as int])
    }

    fn to_datum(&self) -> (d: Datum) {
        let fields = [("x", self.x as u64), ("y", self.y as u64), ("result", self.result as u64), ("counter", self.counter as u64)];
        proof {
            assert(field_keys(fields@) =~= seq!["x"@, "y"@, "result"@, "counter"@]);
            assert(field_values(fields@) =~= seq![self.x as int, self.y as int, self.result as int, self.counter as int]);
        }
        unsigned_record(None, fields.as_slice())
    }

    fn from_datum(d: &Datum) -> (r: Option<Self>) {
        let keys = ["x", "y", "result", "counter"];
        proof {
            assert(key_views(keys@) =~= seq!["x"@, "y"@, "result"@, "counter"@]);
        }
        match read_unsigned_record(d, None, keys.as_slice(), 255) {
            Some(values) => {
                let value = State { x: values[0] as u8, y: values[1] as u8, result: values[2] as u8, counter: values[3] as u8 };
                proof {
                    assert(Seq::new(values@.len(), |i: int| values@[i] as int) =~= seq![
                        value.x as int,
                        value.y as int,
                        value.result as int,
                        value.counter as int,
                    ]);
                }
                Some(value)
            },
            None => {
                proof {
                    assert forall|value: State| #[trigger] value.datum() != d@ by {
                        assert(all_within(seq![value.x as int, value.y as int, value.result as int, value.counter as int], 255));
                    }
                }
                None
            },
        }
    }
}

impl ExponentTask {
    /// Creates an exponentiation in its initial phase.
    pub fn new() -> (task: Self)
        ensures
            task.initial(),
    {
        ExponentTask { phase: ExponentPhase::Initial }
    }

    /// Creates an exponentiation in its later phase.
    pub fn next() -> (task: Self)
        ensures
            !task.initial(),
    {
        ExponentTask { phase: ExponentPhase::Next }
    }

    /// The phase that the task is in.
    pub fn phase(&self) -> (phase: ExponentPhase)
        ensures
            (phase == ExponentPhase::Initial) == self.initial(),
    {
        self.phase
    }
}

impl Payload for ExponentTask {
    closed spec fn datum(&self) -> DatumModel {
        unsigned_record_model(
            Some("ExponentTask"@),
            seq!["phase"@],
            seq![
                match self.phase {
                    ExponentPhase::Initial => 0int,
                    ExponentPhase::Next => 1int,
                },
            ],
        )
    }

    fn to_datum(&self) -> (d: Datum) {
        let phase: u64 = match self.phase {
            ExponentPhase::Initial => 0,
            ExponentPhase::Next => 1,
        };
        let fields = [("phase", phase)];
        proof {
            assert(field_keys(fields@) =~= seq!["phase"@]);
            assert(field_values(fields@) =~= seq![phase as int]);
        }
        unsigned_record(Some("ExponentTask"), fields.as_slice())
    }

    fn from_datum(d: &Datum) -> (r: Option<Self>) {
        let keys = ["phase"];
        proof {
            assert(key_views(keys@) =~= seq!["phase"@]);
        }
        match read_unsigned_record(d, Some("ExponentTask"), keys.as_slice(), 1) {
            Some(values) => {
                let phase = if values[0] == 0 {
                    ExponentPhase::Initial
                } else {
                    ExponentPhase::Next
                };
                proof {
                    assert(Seq::new(values@.len(), |i: int| values@[i] as int) =~= seq![
                        values@[0] as int,
                    ]);
                }
                Some(ExponentTask { phase })
            },
            None => {
                proof {
                    assert forall|value: ExponentTask| #[trigger] value.datum() != d@ by {
                        assert(all_within(seq![0int], 1));
                        assert(all_within(seq![1int], 1));
                    }
                }
                None
            },
        }
    }
}

/// The state that an exponentiation starts from. The powers zero and one
/// start complete: the first holds 1, the second `x`.
pub open spec fn initial_state(args: Args) -> State {
    if args.y == 0 {
        State { x: args.x, y: args.y, result: 1, counter: 0 }
    } else {
        State { x: args.x, y: args.y, result: args.x, counter: 1 }
    }
}

/// The state after one more multiplication came back with `product`.
pub open spec fn folded(state: State, product: crate::tasks::mul::Res) -> State {
    State {
        result: product.result,
        counter: if state.counter == 255 {
            255u8
        } else {
            (state.counter + 1) as u8
        },
        ..state
    }
}

impl PhasedTask for ExponentTask {
    type Args = Args;

    type Result = Res;

    type State = State;

    closed spec fn initial(&self) -> bool {
        self.phase == ExponentPhase::Initial
    }

    /// Starting touches no stack and cannot fail.
    open spec fn starts(
        &self,
        args: Args,
        before: ArenaModel,
        after: ArenaModel,
        made: Result<State, Error>,
    ) -> bool {
        after == before && made == Ok::<State, Error>(initial_state(args))
    }

    /// Resuming pops the product of the last multiplication and takes it
    /// into the state; where the pop fails the state is left as it was.
    open spec fn resumes(
        &self,
        state: State,
        before: ArenaModel,
        after: ArenaModel,
        folded_state: State,
        r: Result<(), Error>,
    ) -> bool {
        exists|got: Result<crate::tasks::mul::Res, Error>|
            #[trigger] pops(before, after, got) && match got {
                Ok(product) => r is Ok && folded_state == folded(state, product),
                Err(e) => r == Err::<(), Error>(e) && folded_state == state,
            }
    }

    open spec fn complete(&self, state: State) -> bool {
        state.counter >= state.y
    }

    open spec fn result_datum(&self, state: State) -> DatumModel {
        (Res { result: state.result }).datum()
    }

    closed spec fn next_datum(&self) -> DatumModel {
        (ExponentTask { phase: ExponentPhase::Next }).datum()
    }

    open spec fn child_inputs(&self, state: State) -> Seq<DatumModel> {
        seq![(crate::tasks::mul::Args { x: state.result, y: state.x }).datum()]
    }

    open spec fn child_task(&self, state: State) -> DatumModel {
        Mul::P0.datum()
    }

    fn is_initial_phase(&self) -> (b: bool) {
        match self.phase {
            ExponentPhase::Initial => true,
            ExponentPhase::Next => false,
        }
    }

    fn initial_phase(&self, scheduler: &mut Scheduler, args: Args) -> (made: Result<State, Error>) {
        if args.y == 0 {
            Ok(State { x: args.x, y: args.y, result: 1, counter: 0 })
        } else {
            Ok(State { x: args.x, y: args.y, result: args.x, counter: 1 })
        }
    }

    fn subsequent_phase(&self, scheduler: &mut Scheduler, state: &mut State) -> (r: Result<
        (),
        Error,
    >) {
        let ghost before = scheduler@;
        let got = scheduler.pop_data::<crate::tasks::mul::Res>();
        assert(pops(before, scheduler@, got));
        let product = match got {
            Ok(product) => product,
            Err(e) => {
                return Err(e);
            },
        };
        state.result = product.result;
        state.counter = if state.counter == 255 {
            255
        } else {
            state.counter + 1
        };
        Ok(())
    }

    fn next_phase(&self) -> (d: Datum) {
        ExponentTask::next().to_datum()
    }

    fn child(&self, state: &State) -> (spawn: Spawn) {
        let mut inputs: Vec<Datum> = Vec::new();
        inputs.push((crate::tasks::mul::Args { x: state.result, y: state.x }).to_datum());
        proof {
            assert(datum_views(inputs@) =~= self.child_inputs(*state));
        }
        Spawn { inputs, task: Mul::new().to_datum() }
    }

    fn produce_result(&self, state: &State) -> (result: Res) {
        Res { result: state.result }
    }

    fn is_complete(&self, state: &State) -> (b: bool) {
        state.counter >= state.y
    }
}

/// The powers zero and one start complete, so the turn that reads the
/// arguments resolves them and spawns no child: where it succeeds it
/// returns no task, leaves the call stack alone and puts one frame on the
/// data stack, the result, which is 1 for the power zero and `x` for the
/// power one; where it fails, all is left as it was.
pub proof fn lemma_identity_exponent(
    task: ExponentTask,
    args: Args,
    before: ArenaModel,
    after: ArenaModel,
    outcome: TurnOutcome,
)
    requires
        args.y <= 1,
        concludes(task, initial_state(args), before, after, outcome),
    ensures
        task.complete(initial_state(args)),
        match outcome {
            Ok(tasks) => {
                let res = Res { result: if args.y == 0 { 1 } else { args.x } };
                &&& tasks.len() == 0
                &&& after.back == before.back
                &&& cbor_encoding(res.datum()) is Some
                &&& after.front == before.front.push(cbor_encoding(res.datum())->0)
            },
            Err(_) => after == before,
        },
{
}

impl SchedulerTask for ExponentTask {
    open spec fn effect(
        &self,
        before: ArenaModel,
        after: ArenaModel,
        outcome: TurnOutcome,
    ) -> bool {
        phase_turn(*self, before, after, outcome)
    }

    fn execute(&mut self, scheduler: &mut Scheduler) -> (r: Result<Vec<Datum>, Error>) {
        execute_phase(&*self, scheduler)
    }
}

} // verus!
