//! Exponentiation by repeated multiplication: a task of two phases that
//! keeps its state on the data stack between turns and has [`Mul`] do each step.

use crate::codec::all_within;
use crate::codec::cbor_encoding;
use crate::codec::field_keys;
use crate::codec::field_values;
use crate::codec::key_views;
use crate::codec::read_unsigned_record;
use crate::codec::unsigned_record;
use crate::codec::unsigned_record_model;
use crate::codec::Datum;
use crate::codec::DatumModel;
use crate::codec::Payload;
use crate::error::Error;
use crate::scheduler::datum_views;
use crate::scheduler::pops;
use crate::scheduler::push_all_turn;
use crate::scheduler::push_turn;
use crate::scheduler::resolve;
use crate::scheduler::turn_view;
use crate::scheduler::Scheduler;
use crate::scheduler::SchedulerTask;
use crate::scheduler::TurnOutcome;
use crate::stack::ArenaModel;
use crate::tasks::mul::Mul;
use vstd::prelude::*;

verus! {

/// A task that raises to a power by repeated multiplication.
///
/// `P0` reads the arguments and sets the computation up, `P1` takes in the
/// product of one multiplication and decides whether another is due.
#[derive(Debug, Clone, Copy, PartialEq, Eq)]
pub enum Exp {
    P0,
    P1,
}

/// The state that an exponentiation keeps between its turns.
#[derive(Debug, Clone, Copy, PartialEq, Eq)]
pub struct State {
    /// Base value
    pub x: u8,
    /// Exponent
    pub y: u8,
    /// Running result
    pub result: u8,
    /// The power of `x` that `result` holds
    pub counter: u8,
}

/// Arguments of an exponentiation.
#[derive(Debug, Clone, Copy, PartialEq, Eq)]
pub struct Args {
    /// Base value
    pub x: u8,
    /// Exponent
    pub y: u8,
}

/// Result of an exponentiation.
#[derive(Debug, Clone, Copy, PartialEq, Eq)]
pub struct Res {
    /// `x` to the power `y`, held at 255
    pub result: u8,
}

impl Payload for State {
    open spec fn datum(&self) -> DatumModel {
        unsigned_record_model(None, seq!["x"@, "y"@, "result"@, "counter"@], seq![self.x as int, self.y as int, self.result as int, self.counter as int])
    }

    fn to_datum(&self) -> (d: Datum) {
        let fields = [("x", self.x as u64), ("y", self.y as u64), ("result", self.result as u64), ("counter", self.counter as u64)];
        proof {
            assert(field_keys(fields@) =~= seq!["x"@, "y"@, "result"@, "counter"@]);
            assert(field_values(fields@) =~= seq![self.x as int, self.y as int, self.result as int, self.counter as int]);
        }
        unsigned_record(None, fields.as_slice())
    }

    fn from_datum(d: &Datum) -> (r: Option<Self>) {
        let keys = ["x", "y", "result", "counter"];
        proof {
            assert(key_views(keys@) =~= seq!["x"@, "y"@, "result"@, "counter"@]);
        }
        match read_unsigned_record(d, None, keys.as_slice(), 255) {
            Some(values) => {
                let value = State { x: values[0] as u8, y: values[1] as u8, result: values[2] as u8, counter: values[3] as u8 };
                proof {
                    assert(Seq::new(values@.len(), |i: int| values@[i] as int) =~= seq![
                        value.x as int,
                        value.y as int,
                        value.result as int,
                        value.counter as int,
                    ]);
                }
                Some(value)
            },
            None => {
                proof {
                    assert forall|value: State| #[trigger] value.datum() != d@ by {
                        assert(all_within(seq![value.x as int, value.y as int, value.result as int, value.counter as int], 255));
                    }
                }
                None
            },
        }
    }
}

impl Payload for Args {
    open spec fn datum(&self) -> DatumModel {
        unsigned_record_model(None, seq!["x"@, "y"@], seq![self.x as int, self.y as int])
    }

    fn to_datum(&self) -> (d: Datum) {
        let fields = [("x", self.x as u64), ("y", self.y as u64)];
        proof {
            assert(field_keys(fields@) =~= seq!["x"@, "y"@]);
            assert(field_values(fields@) =~= seq![self.x as int, self.y as int]);
        }
        unsigned_record(None, fields.as_slice())
    }

    fn from_datum(d: &Datum) -> (r: Option<Self>) {
        let keys = ["x", "y"];
        proof {
            assert(key_views(keys@) =~= seq!["x"@, "y"@]);
        }
        match read_unsigned_record(d, None, keys.as_slice(), 255) {
            Some(values) => {
                let value = Args { x: values[0] as u8, y: values[1] as u8 };
                proof {
                    assert(Seq::new(values@.len(), |i: int| values@[i] as int) =~= seq![
                        value.x as int,
                        value.y as int,
                    ]);
                }
                Some(value)
            },
            None => {
                proof {
                    assert forall|value: Args| #[trigger] value.datum() != d@ by {
                        assert(all_within(seq![value.x as int, value.y as int], 255));
                    }
                }
                None
            },
        }
    }
}

impl Payload for Res {
    open spec fn datum(&self) -> DatumModel {
        unsigned_record_model(None, seq!["result"@], seq![self.result as int])
    }

    fn to_datum(&self) -> (d: Datum) {
        let fields = [("result", self.result as u64)];
        proof {
            assert(field_keys(fields@) =~= seq!["result"@]);
            assert(field_values(fields@) =~= seq![self.result as int]);
        }
        unsigned_record(None, fields.as_slice())
    }

    fn from_datum(d: &Datum) -> (r: Option<Self>) {
        let keys = ["result"];
        proof {
            assert(key_views(keys@) =~= seq!["result"@]);
        }
        match read_unsigned_record(d, None, keys.as_slice(), 255) {
            Some(values) => {
                let value = Res { result: values[0] as u8 };
                proof {
                    assert(Seq::new(values@.len(), |i: int| values@[i] as int) =~= seq![
                        value.result as int,
                    ]);
                }
                Some(value)
            },
            None => {
                proof {
                    assert forall|value: Res| #[trigger] value.datum() != d@ by {
                        assert(all_within(seq![value.result as int], 255));
                    }
                }
                None
            },
        }
    }
}

impl Default for Exp {
    fn default() -> (task: Self)
        ensures
            task == Exp::P0,
    {
        Exp::P0
    }
}

impl Payload for Exp {
    open spec fn datum(&self) -> DatumModel {
        unsigned_record_model(
            Some("Exp"@),
            seq!["phase"@],
            seq![
                match self {
                    Exp::P0 => 0int,
                    Exp::P1 => 1int,
                },
            ],
        )
    }

    fn to_datum(&self) -> (d: Datum) {
        let phase: u64 = match self {
            Exp::P0 => 0,
            Exp::P1 => 1,
        };
        let fields = [("phase", phase)];
        proof {
            assert(field_keys(fields@) =~= seq!["phase"@]);
            assert(field_values(fields@) =~= seq![phase as int]);
        }
        unsigned_record(Some("Exp"), fields.as_slice())
    }

    fn from_datum(d: &Datum) -> (r: Option<Self>) {
        let keys = ["phase"];
        proof {
            assert(key_views(keys@) =~= seq!["phase"@]);
        }
        match read_unsigned_record(d, Some("Exp"), keys.as_slice(), 1) {
            Some(values) => {
                let value = if values[0] == 0 {
                    Exp::P0
                } else {
                    Exp::P1
                };
                proof {
                    assert(Seq::new(values@.len(), |i: int| values@[i] as int) =~= seq![
                        values@[0] as int,
                    ]);
                }
                Some(value)
            },
            None => {
                proof {
                    assert forall|value: Exp| #[trigger] value.datum() != d@ by {
                        assert(all_within(seq![0int], 1));
                        assert(all_within(seq![1int], 1));
                    }
                }
                None
            },
        }
    }
}

/// The state with which an exponentiation of more than one step starts: it
/// already holds the first power of `x`.
pub open spec fn initial_state(args: Args) -> State {
    State { x: args.x, y: args.y, result: args.x, counter: 1 }
}

/// The state after one more multiplication came back with `product`.
pub open spec fn folded(state: State, product: crate::tasks::mul::Res) -> State {
    State {
        result: product.result,
        counter: if state.counter == 255 {
            255u8
        } else {
            (state.counter + 1) as u8
        },
        ..state
    }
}

/// What goes on the data stack when the computation goes on from `state`:
/// the state, then, above it, the arguments of the next multiplication.
pub open spec fn kept(state: State) -> Seq<DatumModel> {
    seq![state.datum(), (crate::tasks::mul::Args { x: state.result, y: state.x }).datum()]
}

/// The tasks that go on from a state: the next multiplication, then the
/// exponentiation itself in its second phase.
pub open spec fn follow_up() -> Seq<DatumModel> {
    seq![Mul::P0.datum(), Exp::P1.datum()]
}

/// What a turn does once it holds `state`: with multiplications left it
/// keeps the state and the next arguments on the data stack and returns the
/// follow-up tasks, else it pushes the result and returns none.
pub open spec fn goes_on(
    state: State,
    before: ArenaModel,
    after: ArenaModel,
    outcome: TurnOutcome,
) -> bool {
    if state.counter < state.y {
        push_all_turn(before, kept(state), follow_up(), after, outcome)
    } else {
        push_turn(before, (Res { result: state.result }).datum(), Seq::empty(), after, outcome)
    }
}

/// What the first phase does once it holds its arguments: the powers zero
/// and one resolve at once, to 1 and to `x`, without any multiplication; any
/// other goes on from its initial state.
pub open spec fn starts(
    args: Args,
    before: ArenaModel,
    after: ArenaModel,
    outcome: TurnOutcome,
) -> bool {
    if args.y == 0 {
        push_turn(before, (Res { result: 1 }).datum(), Seq::empty(), after, outcome)
    } else if args.y == 1 {
        push_turn(before, (Res { result: args.x }).datum(), Seq::empty(), after, outcome)
    } else {
        goes_on(initial_state(args), before, after, outcome)
    }
}

/// The powers zero and one resolve in the turn that reads the arguments and
/// spawn no child: where the turn succeeds it returns no task, leaves the
/// call stack alone and puts one frame on the data stack, the result, which
/// is 1 for the power zero and `x` for the power one; where it fails, all
/// is left as it was.
pub proof fn lemma_identity_exponent(
    args: Args,
    before: ArenaModel,
    after: ArenaModel,
    outcome: TurnOutcome,
)
    requires
        args.y <= 1,
        starts(args, before, after, outcome),
    ensures
        match outcome {
            Ok(tasks) => {
                let res = Res { result: if args.y == 0 { 1 } else { args.x } };
                &&& tasks.len() == 0
                &&& after.back == before.back
                &&& cbor_encoding(res.datum()) is Some
                &&& after.front == before.front.push(cbor_encoding(res.datum())->0)
            },
            Err(_) => after == before,
        },
{
}

/// The first phase: pops the arguments, then starts.
pub open spec fn first_phase(
    before: ArenaModel,
    after: ArenaModel,
    outcome: TurnOutcome,
) -> bool {
    exists|mid: ArenaModel, got: Result<Args, Error>|
        #[trigger] pops(before, mid, got) && match got {
            Ok(args) => starts(args, mid, after, outcome),
            Err(e) => outcome == Err::<Seq<DatumModel>, Error>(e) && after == mid,
        }
}

/// What the second phase does once it holds the product of the last
/// multiplication: pops the state, takes the product in, and goes on.
pub open spec fn resumes(
    product: crate::tasks::mul::Res,
    before: ArenaModel,
    after: ArenaModel,
    outcome: TurnOutcome,
) -> bool {
    exists|mid: ArenaModel, got: Result<State, Error>|
        #[trigger] pops(before, mid, got) && match got {
            Ok(state) => goes_on(folded(state, product), mid, after, outcome),
            Err(e) => outcome == Err::<Seq<DatumModel>, Error>(e) && after == mid,
        }
}

/// The second phase: pops the product that the multiplication left, then resumes.
pub open spec fn second_phase(
    before: ArenaModel,
    after: ArenaModel,
    outcome: TurnOutcome,
) -> bool {
    exists|mid: ArenaModel, got: Result<crate::tasks::mul::Res, Error>|
        #[trigger] pops(before, mid, got) && match got {
            Ok(product) => resumes(product, mid, after, outcome),
            Err(e) => outcome == Err::<Seq<DatumModel>, Error>(e) && after == mid,
        }
}

impl Exp {
    /// Creates an exponentiation in its first phase.
    pub fn new() -> (task: Self)
        ensures
            task == Exp::P0,
    {
        Exp::P0
    }

    /// Keeps `state` and the next arguments on the data stack and returns the
    /// follow-up tasks, or pushes the result where no multiplication is left.
    fn go_on(state: State, scheduler: &mut Scheduler) -> (r: Result<Vec<Datum>, Error>)
        ensures
            goes_on(state, old(scheduler)@, final(scheduler)@, turn_view(r)),
    {
        if state.counter < state.y {
            let mut data: Vec<Datum> = Vec::new();
            data.push(state.to_datum());
            data.push((crate::tasks::mul::Args { x: state.result, y: state.x }).to_datum());
            proof {
                assert(datum_views(data@) =~= kept(state));
            }
            match scheduler.push_all(&data) {
                Ok(()) => {},
                Err(e) => {
                    return Err(e);
                },
            }
            let mut tasks: Vec<Datum> = Vec::new();
            tasks.push(Mul::new().to_datum());
            tasks.push(Exp::P1.to_datum());
            proof {
                assert(datum_views(tasks@) =~= follow_up());
            }
            Ok(tasks)
        } else {
            let res = Res { result: state.result };
            resolve(&res, scheduler)
        }
    }

    /// The first phase: reads the arguments; the powers zero and one resolve
    /// at once, any other schedules its first multiplication.
    fn p0(&mut self, scheduler: &mut Scheduler) -> (r: Result<Vec<Datum>, Error>)
        ensures
            first_phase(old(scheduler)@, final(scheduler)@, turn_view(r)),
    {
        let ghost before = scheduler@;
        let got = scheduler.pop_data::<Args>();
        let ghost mid = scheduler@;
        assert(pops(before, mid, got));
        let args = match got {
            Ok(args) => args,
            Err(e) => {
                return Err(e);
            },
        };
        if args.y == 0 {
            let res = Res { result: 1 };
            return resolve(&res, scheduler);
        }
        if args.y == 1 {
            let res = Res { result: args.x };
            return resolve(&res, scheduler);
        }
        let state = State { x: args.x, y: args.y, result: args.x, counter: 1 };
        Exp::go_on(state, scheduler)
    }

    /// The second phase: takes in the product of the last multiplication and
    /// either schedules the next or pushes the power.
    fn p1(&mut self, scheduler: &mut Scheduler) -> (r: Result<Vec<Datum>, Error>)
        ensures
            second_phase(old(scheduler)@, final(scheduler)@, turn_view(r)),
    {
        let ghost before = scheduler@;
        let got = scheduler.pop_data::<crate::tasks::mul::Res>();
        let ghost mid = scheduler@;
        assert(pops(before, mid, got));
        let product = match got {
            Ok(product) => product,
            Err(e) => {
                return Err(e);
            },
        };
        let got_state = scheduler.pop_data::<State>();
        let ghost low = scheduler@;
        assert(pops(mid, low, got_state));
        let mut state = match got_state {
            Ok(state) => state,
            Err(e) => {
                assert(resumes(product, mid, low, Err(e)));
                return Err(e);
            },
        };
        let ghost popped = state;
        state.result = product.result;
        state.counter = if state.counter == 255 {
            255
        } else {
            state.counter + 1
        };
        assert(state == folded(popped, product));
        let r = Exp::go_on(state, scheduler);
        assert(resumes(product, mid, scheduler@, turn_view(r)));
        r
    }
}

impl SchedulerTask for Exp {
    open spec fn effect(
        &self,
        before: ArenaModel,
        after: ArenaModel,
        outcome: TurnOutcome,
    ) -> bool {
        match self {
            Exp::P0 => first_phase(before, after, outcome),
            Exp::P1 => second_phase(before, after, outcome),
        }
    }

    fn execute(&mut self, scheduler: &mut Scheduler) -> (r: Result<Vec<Datum>, Error>) {
        match self {
            Exp::P0 => self.p0(scheduler),
            Exp::P1 => self.p1(scheduler),
        }
    }
}

} // verus!
