//! Multiplication by repeated addition: a task of two phases that keeps its
//! state on the data stack between turns and has [`Add`] do each step.

use crate::codec::all_within;
use crate::codec::cbor_encoding;
use crate::codec::field_keys;
use crate::codec::field_values;
use crate::codec::key_views;
use crate::codec::read_unsigned_record;
use crate::codec::unsigned_record;
use crate::codec::unsigned_record_model;
use crate::codec::Datum;
use crate::codec::DatumModel;
use crate::codec::Payload;
use crate::error::Error;
use crate::scheduler::datum_views;
use crate::scheduler::pops;
use crate::scheduler::push_turn;
use crate::scheduler::resolve;
use crate::scheduler::turn_view;
use crate::scheduler::Scheduler;
use crate::scheduler::SchedulerTask;
use crate::scheduler::TurnOutcome;
use crate::stack::ArenaModel;
use crate::tasks::add::Add;
use crate::tasks::add::Output;
use vstd::prelude::*;

verus! {

/// A task that multiplies by repeated addition.
///
/// `P0` reads the arguments and sets the computation up, `P1` takes in the
/// sum of one addition and decides whether another is due.
#[derive(Debug, Clone, Copy, PartialEq, Eq)]
pub enum Mul {
    P0,
    P1,
}

/// The state that a multiplication keeps between its turns.
#[derive(Debug, Clone, Copy, PartialEq, Eq)]
pub struct State {
    /// First operand
    pub x: u8,
    /// Second operand
    pub y: u8,
    /// Running result
    pub result: u8,
    /// Number of additions completed
    pub counter: u8,
}

/// Arguments of a multiplication.
#[derive(Debug, Clone, Copy, PartialEq, Eq)]
pub struct Args {
    /// First operand
    pub x: u8,
    /// Second operand: the number of times to add `x`
    pub y: u8,
}

/// Result of a multiplication.
#[derive(Debug, Clone, Copy, PartialEq, Eq)]
pub struct Res {
    /// The product of `x` and `y`, held at 255
    pub result: u8,
}

impl Payload for State {
    open spec fn datum(&self) -> DatumModel {
        unsigned_record_model(None, seq!["x"@, "y"@, "result"@, "counter"@], seq![self.x as int, self.y as int, self.result as int, self.counter as int])
    }

    fn to_datum(&self) -> (d: Datum) {
        let fields = [("x", self.x as u64), ("y", self.y as u64), ("result", self.result as u64), ("counter", self.counter as u64)];
        proof {
            assert(field_keys(fields@) =~= seq!["x"@, "y"@, "result"@, "counter"@]);
            assert(field_values(fields@) =~= seq![self.x as int, self.y as int, self.result as int, self.counter as int]);
        }
        unsigned_record(None, fields.as_slice())
    }

    fn from_datum(d: &Datum) -> (r: Option<Self>) {
        let keys = ["x", "y", "result", "counter"];
        proof {
            assert(key_views(keys@) =~= seq!["x"@, "y"@, "result"@, "counter"@]);
        }
        match read_unsigned_record(d, None, keys.as_slice(), 255) {
            Some(values) => {
                let value = State { x: values[0] as u8, y: values[1] as u8, result: values[2] as u8, counter: values[3] as u8 };
                proof {
                    assert(Seq::new(values@.len(), |i: int| values@[i] as int) =~= seq![
                        value.x as int,
                        value.y as int,
                        value.result as int,
                        value.counter as int,
                    ]);
                }
                Some(value)
            },
            None => {
                proof {
                    assert forall|value: State| #[trigger] value.datum() != d@ by {
                        assert(all_within(seq![value.x as int, value.y as int, value.result as int, value.counter as int], 255));
                    }
                }
                None
            },
        }
    }
}

impl Payload for Args {
    open spec fn datum(&self) -> DatumModel {
        unsigned_record_model(None, seq!["x"@, "y"@], seq![self.x as int, self.y as int])
    }

    fn to_datum(&self) -> (d: Datum) {
        let fields = [("x", self.x as u64), ("y", self.y as u64)];
        proof {
            assert(field_keys(fields@) =~= seq!["x"@, "y"@]);
            assert(field_values(fields@) =~= seq![self.x as int, self.y as int]);
        }
        unsigned_record(None, fields.as_slice())
    }

    fn from_datum(d: &Datum) -> (r: Option<Self>) {
        let keys = ["x", "y"];
        proof {
            assert(key_views(keys@) =~= seq!["x"@, "y"@]);
        }
        match read_unsigned_record(d, None, keys.as_slice(), 255) {
            Some(values) => {
                let value = Args { x: values[0] as u8, y: values[1] as u8 };
                proof {
                    assert(Seq::new(values@.len(), |i: int| values@[i] as int) =~= seq![
                        value.x as int,
                        value.y as int,
                    ]);
                }
                Some(value)
            },
            None => {
                proof {
                    assert forall|value: Args| #[trigger] value.datum() != d@ by {
                        assert(all_within(seq![value.x as int, value.y as int], 255));
                    }
                }
                None
            },
        }
    }
}

impl Payload for Res {
    open spec fn datum(&self) -> DatumModel {
        unsigned_record_model(None, seq!["result"@], seq![self.result as int])
    }

    fn to_datum(&self) -> (d: Datum) {
        let fields = [("result", self.result as u64)];
        proof {
            assert(field_keys(fields@) =~= seq!["result"@]);
            assert(field_values(fields@) =~= seq![self.result as int]);
        }
        unsigned_record(None, fields.as_slice())
    }

    fn from_datum(d: &Datum) -> (r: Option<Self>) {
        let keys = ["result"];
        proof {
            assert(key_views(keys@) =~= seq!["result"@]);
        }
        match read_unsigned_record(d, None, keys.as_slice(), 255) {
            Some(values) => {
                let value = Res { result: values[0] as u8 };
                proof {
                    assert(Seq::new(values@.len(), |i: int| values@[i] as int) =~= seq![
                        value.result as int,
                    ]);
                }
                Some(value)
            },
            None => {
                proof {
                    assert forall|value: Res| #[trigger] value.datum() != d@ by {
                        assert(all_within(seq![value.result as int], 255));
                    }
                }
                None
            },
        }
    }
}

impl Default for Mul {
    fn default() -> (task: Self)
        ensures
            task == Mul::P0,
    {
        Mul::P0
    }
}

impl Payload for Mul {
    open spec fn datum(&self) -> DatumModel {
        unsigned_record_model(
            Some("Mul"@),
            seq!["phase"@],
            seq![
                match self {
                    Mul::P0 => 0int,
                    Mul::P1 => 1int,
                },
            ],
        )
    }

    fn to_datum(&self) -> (d: Datum) {
        let phase: u64 = match self {
            Mul::P0 => 0,
            Mul::P1 => 1,
        };
        let fields = [("phase", phase)];
        proof {
            assert(field_keys(fields@) =~= seq!["phase"@]);
            assert(field_values(fields@) =~= seq![phase as int]);
        }
        unsigned_record(Some("Mul"), fields.as_slice())
    }

    fn from_datum(d: &Datum) -> (r: Option<Self>) {
        let keys = ["phase"];
        proof {
            assert(key_views(keys@) =~= seq!["phase"@]);
        }
        match read_unsigned_record(d, Some("Mul"), keys.as_slice(), 1) {
            Some(values) => {
                let value = if values[0] == 0 {
                    Mul::P0
                } else {
                    Mul::P1
                };
                proof {
                    assert(Seq::new(values@.len(), |i: int| values@[i] as int) =~= seq![
                        values@[0] as int,
                    ]);
                }
                Some(value)
            },
            None => {
                proof {
                    assert forall|value: Mul| #[trigger] value.datum() != d@ by {
                        assert(all_within(seq![0int], 1));
                        assert(all_within(seq![1int], 1));
                    }
                }
                None
            },
        }
    }
}

/// The state with which a multiplication starts.
pub open spec fn initial_state(args: Args) -> State {
    State { x: args.x, y: args.y, result: 0, counter: 0 }
}

/// The state after one more addition came back with `sum`.
pub open spec fn folded(state: State, sum: Output) -> State {
    State {
        result: sum.result,
        counter: if state.counter == 255 {
            255u8
        } else {
            (state.counter + 1) as u8
        },
        ..state
    }
}

/// The tasks that go on from `state`: the next addition, then the
/// multiplication itself in its second phase.
pub open spec fn follow_up(state: State) -> Seq<DatumModel> {
    seq![(Add { x: state.result, y: state.x }).datum(), Mul::P1.datum()]
}

/// What a turn does once it holds `state`: with additions left it keeps the
/// state on the data stack and returns the follow-up tasks, else it pushes
/// the result and returns none.
pub open spec fn goes_on(
    state: State,
    before: ArenaModel,
    after: ArenaModel,
    outcome: TurnOutcome,
) -> bool {
    if state.counter < state.y {
        push_turn(before, state.datum(), follow_up(state), after, outcome)
    } else {
        push_turn(before, (Res { result: state.result }).datum(), Seq::empty(), after, outcome)
    }
}

/// What the first phase does once it holds its arguments: a multiplication
/// by zero or by one resolves at once, to 0 and to `x`, without any
/// addition; any other goes on from its initial state.
pub open spec fn starts(
    args: Args,
    before: ArenaModel,
    after: ArenaModel,
    outcome: TurnOutcome,
) -> bool {
    if args.y == 0 {
        push_turn(before, (Res { result: 0 }).datum(), Seq::empty(), after, outcome)
    } else if args.y == 1 {
        push_turn(before, (Res { result: args.x }).datum(), Seq::empty(), after, outcome)
    } else {
        goes_on(initial_state(args), before, after, outcome)
    }
}

/// The multipliers zero and one resolve in the turn that reads the
/// arguments and spawn no child: where the turn succeeds it returns no
/// task, leaves the call stack alone and puts one frame on the data stack,
/// the result, which is 0 for the multiplier zero and `x` for the multiplier
/// one; where it fails, all is left as it was.
pub proof fn lemma_identity_multiplier(
    args: Args,
    before: ArenaModel,
    after: ArenaModel,
    outcome: TurnOutcome,
)
    requires
        args.y <= 1,
        starts(args, before, after, outcome),
    ensures
        match outcome {
            Ok(tasks) => {
                let res = Res { result: if args.y == 0 { 0 } else { args.x } };
                &&& tasks.len() == 0
                &&& after.back == before.back
                &&& cbor_encoding(res.datum()) is Some
                &&& after.front == before.front.push(cbor_encoding(res.datum())->0)
            },
            Err(_) => after == before,
        },
{
}

/// The first phase: pops the arguments, then starts.
pub open spec fn first_phase(
    before: ArenaModel,
    after: ArenaModel,
    outcome: TurnOutcome,
) -> bool {
    exists|mid: ArenaModel, got: Result<Args, Error>|
        #[trigger] pops(before, mid, got) && match got {
            Ok(args) => starts(args, mid, after, outcome),
            Err(e) => outcome == Err::<Seq<DatumModel>, Error>(e) && after == mid,
        }
}

/// What the second phase does once it holds the sum of the last addition:
/// pops the state, takes the sum in, and goes on.
pub open spec fn resumes(
    sum: Output,
    before: ArenaModel,
    after: ArenaModel,
    outcome: TurnOutcome,
) -> bool {
    exists|mid: ArenaModel, got: Result<State, Error>|
        #[trigger] pops(before, mid, got) && match got {
            Ok(state) => goes_on(folded(state, sum), mid, after, outcome),
            Err(e) => outcome == Err::<Seq<DatumModel>, Error>(e) && after == mid,
        }
}

/// The second phase: pops the sum that the addition left, then resumes.
pub open spec fn second_phase(
    before: ArenaModel,
    after: ArenaModel,
    outcome: TurnOutcome,
) -> bool {
    exists|mid: ArenaModel, got: Result<Output, Error>|
        #[trigger] pops(before, mid, got) && match got {
            Ok(sum) => resumes(sum, mid, after, outcome),
            Err(e) => outcome == Err::<Seq<DatumModel>, Error>(e) && after == mid,
        }
}

impl Mul {
    /// Creates a multiplication in its first phase.
    pub fn new() -> (task: Self)
        ensures
            task == Mul::P0,
    {
        Mul::P0
    }

    /// Keeps `state` on the data stack and returns the follow-up tasks, or
    /// pushes the result where no addition is left.
    fn go_on(state: State, scheduler: &mut Scheduler) -> (r: Result<Vec<Datum>, Error>)
        ensures
            goes_on(state, old(scheduler)@, final(scheduler)@, turn_view(r)),
    {
        if state.counter < state.y {
            match scheduler.push_data(&state) {
                Ok(()) => {},
                Err(e) => {
                    return Err(e);
                },
            }
            let mut tasks: Vec<Datum> = Vec::new();
            tasks.push(Add::new(state.result, state.x).to_datum());
            tasks.push(Mul::P1.to_datum());
            proof {
                assert(datum_views(tasks@) =~= follow_up(state));
            }
            Ok(tasks)
        } else {
            let res = Res { result: state.result };
            resolve(&res, scheduler)
        }
    }

    /// The first phase: reads the arguments; a multiplication by zero or by
    /// one resolves at once, any other schedules its first addition.
    fn p0(&mut self, scheduler: &mut Scheduler) -> (r: Result<Vec<Datum>, Error>)
        ensures
            first_phase(old(scheduler)@, final(scheduler)@, turn_view(r)),
    {
        let ghost before = scheduler@;
        let got = scheduler.pop_data::<Args>();
        let ghost mid = scheduler@;
        assert(pops(before, mid, got));
        let args = match got {
            Ok(args) => args,
            Err(e) => {
                return Err(e);
            },
        };
        if args.y == 0 {
            let res = Res { result: 0 };
            return resolve(&res, scheduler);
        }
        if args.y == 1 {
            let res = Res { result: args.x };
            return resolve(&res, scheduler);
        }
        let state = State { x: args.x, y: args.y, result: 0, counter: 0 };
        Mul::go_on(state, scheduler)
    }

    /// The second phase: takes in the sum of the last addition and either
    /// schedules the next or pushes the product.
    fn p1(&mut self, scheduler: &mut Scheduler) -> (r: Result<Vec<Datum>, Error>)
        ensures
            second_phase(old(scheduler)@, final(scheduler)@, turn_view(r)),
    {
        let ghost before = scheduler@;
        let got = scheduler.pop_data::<Output>();
        let ghost mid = scheduler@;
        assert(pops(before, mid, got));
        let sum = match got {
            Ok(sum) => sum,
            Err(e) => {
                return Err(e);
            },
        };
        let got_state = scheduler.pop_data::<State>();
        let ghost low = scheduler@;
        assert(pops(mid, low, got_state));
        let mut state = match got_state {
            Ok(state) => state,
            Err(e) => {
                assert(resumes(sum, mid, low, Err(e)));
                return Err(e);
            },
        };
        let ghost popped = state;
        state.result = sum.result;
        state.counter = if state.counter == 255 {
            255
        } else {
            state.counter + 1
        };
        assert(state == folded(popped, sum));
        let r = Mul::go_on(state, scheduler);
        assert(resumes(sum, mid, scheduler@, turn_view(r)));
        r
    }
}

impl SchedulerTask for Mul {
    open spec fn effect(
        &self,
        before: ArenaModel,
        after: ArenaModel,
        outcome: TurnOutcome,
    ) -> bool {
        match self {
            Mul::P0 => first_phase(before, after, outcome),
            Mul::P1 => second_phase(before, after, outcome),
        }
    }

    fn execute(&mut self, scheduler: &mut Scheduler) -> (r: Result<Vec<Datum>, Error>) {
        match self {
            Mul::P0 => self.p0(scheduler),
            Mul::P1 => self.p1(scheduler),
        }
    }
}

} // verus!
