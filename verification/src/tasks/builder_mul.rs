//! Multiplication by repeated addition, set up through a builder.
//!
//! The phase of the task is part of its type: a `MulBuilder<Initial>` reads
//! the arguments, a `MulBuilder<Next>` takes in the sum of one addition. The
//! builder gives the task a name and says what becomes of an error.

use crate::codec::all_within;
use crate::codec::field_keys;
use crate::codec::field_values;
use crate::codec::key_views;
use crate::codec::read_unsigned_record;
use crate::codec::unsigned_record;
use crate::codec::unsigned_record_model;
use crate::codec::Datum;
use crate::codec::DatumModel;
use crate::codec::Payload;
use crate::codec::entry_views;
use crate::codec::is_dict_of;
use crate::codec::is_field;
use crate::codec::lemma_dict_view;
use crate::codec::lemma_record_fields;
use crate::codec::lemma_record_from_fields;
use crate::codec::record;
use crate::codec::record_entries;
use crate::codec::TYPE_KEY;
use crate::error::Error;
use crate::scheduler::datum_views;
use crate::scheduler::pops;
use crate::scheduler::push_turn;
use crate::scheduler::resolve;
use crate::scheduler::turn_view;
use crate::scheduler::Scheduler;
use crate::scheduler::SchedulerTask;
use crate::scheduler::TurnOutcome;
use crate::stack::ArenaModel;
use crate::tasks::add::Add;
use crate::tasks::add::Output;
use std::marker::PhantomData;
use vstd::prelude::*;

verus! {

/// Arguments of a multiplication.
#[derive(Debug, Clone, Copy, PartialEq, Eq)]
pub struct Args {
    /// First operand
    pub x: u8,
    /// Second operand: the number of times to add `x`
    pub y: u8,
}

/// Result of a multiplication.
#[derive(Debug, Clone, Copy, PartialEq, Eq)]
pub struct Res {
    /// The product of `x` and `y`, held at 255
    pub result: u8,
}

/// The state that a multiplication keeps between its turns.
#[derive(Debug, Clone, Copy, PartialEq, Eq)]
pub struct State {
    /// First operand
    pub x: u8,
    /// Second operand
    pub y: u8,
    /// Running result
    pub result: u8,
    /// Number of additions completed
    pub counter: u8,
}

impl Payload for Args {
    open spec fn datum(&self) -> DatumModel {
        unsigned_record_model(None, seq!["x"@, "y"@], seq![self.x as int, self.y as int])
    }

    fn to_datum(&self) -> (d: Datum) {
        let fields = [("x", self.x as u64), ("y", self.y as u64)];
        proof {
            assert(field_keys(fields@) =~= seq!["x"@, "y"@]);
            assert(field_values(fields@) =~= seq![self.x as int, self.y as int]);
        }
        unsigned_record(None, fields.as_slice())
    }

    fn from_datum(d: &Datum) -> (r: Option<Self>) {
        let keys = ["x", "y"];
        proof {
            assert(key_views(keys@) =~= seq!["x"@, "y"@]);
        }
        match read_unsigned_record(d, None, keys.as_slice(), 255) {
            Some(values) => {
                let value = Args { x: values[0] as u8, y: values[1] as u8 };
                proof {
                    assert(Seq::new(values@.len(), |i: int| values@[i] as int) =~= seq![
                        value.x as int,
                        value.y as int,
                    ]);
                }
                Some(value)
            },
            None => {
                proof {
                    assert forall|value: Args| #[trigger] value.datum() != d@ by {
                        assert(all_within(seq![value.x as int, value.y as int], 255));
                    }
                }
                None
            },
        }
    }
}

impl Payload for Res {
    open spec fn datum(&self) -> DatumModel {
        unsigned_record_model(None, seq!["result"@], seq![self.result as int])
    }

    fn to_datum(&self) -> (d: Datum) {
        let fields = [("result", self.result as u64)];
        proof {
            assert(field_keys(fields@) =~= seq!["result"@]);
            assert(field_values(fields@) =~= seq![self.result as int]);
        }
        unsigned_record(None, fields.as_slice())
    }

    fn from_datum(d: &Datum) -> (r: Option<Self>) {
        let keys = ["result"];
        proof {
            assert(key_views(keys@) =~= seq!["result"@]);
        }
        match read_unsigned_record(d, None, keys.as_slice(), 255) {
            Some(values) => {
                let value = Res { result: values[0] as u8 };
                proof {
                    assert(Seq::new(values@.len(), |i: int| values@[i] as int) =~= seq![
                        value.result as int,
                    ]);
                }
                Some(value)
            },
            None => {
                proof {
                    assert forall|value: Res| #[trigger] value.datum() != d@ by {
                        assert(all_within(seq![value.result as int], 255));
                    }
                }
                None
            },
        }
    }
}

impl Payload for State {
    open spec fn datum(&self) -> DatumModel {
        unsigned_record_model(None, seq!["x"@, "y"@, "result"@, "counter"@], seq![self.x as int, self.y as int, self.result as int, self.counter as int])
    }

    fn to_datum(&self) -> (d: Datum) {
        let fields = [("x", self.x as u64), ("y", self.y as u64), ("result", self.result as u64), ("counter", self.counter as u64)];
        proof {
            assert(field_keys(fields@) =~= seq!["x"@, "y"@, "result"@, "counter"@]);
            assert(field_values(fields@) =~= seq![self.x as int, self.y as int, self.result as int, self.counter as int]);
        }
        unsigned_record(None, fields.as_slice())
    }

    fn from_datum(d: &Datum) -> (r: Option<Self>) {
        let keys = ["x", "y", "result", "counter"];
        proof {
            assert(key_views(keys@) =~= seq!["x"@, "y"@, "result"@, "counter"@]);
        }
        match read_unsigned_record(d, None, keys.as_slice(), 255) {
            Some(values) => {
                let value = State { x: values[0] as u8, y: values[1] as u8, result: values[2] as u8, counter: values[3] as u8 };
                proof {
                    assert(Seq::new(values@.len(), |i: int| values@[i] as int) =~= seq![
                        value.x as int,
                        value.y as int,
                        value.result as int,
                        value.counter as int,
                    ]);
                }
                Some(value)
            },
            None => {
                proof {
                    assert forall|value: State| #[trigger] value.datum() != d@ by {
                        assert(all_within(seq![value.x as int, value.y as int, value.result as int, value.counter as int], 255));
                    }
                }
                None
            },
        }
    }
}

/// Marks the phase that a [`MulBuilder`] is in.
pub trait Phase {

}

/// Initial phase marker
#[derive(Debug, Clone, Copy)]
pub struct Initial;

impl Phase for Initial {

}

/// Subsequent phase marker
#[derive(Debug, Clone, Copy)]
pub struct Next;

impl Phase for Next {

}

/// What becomes of an error inside a [`MulBuilder`] task.
#[derive(Debug, Clone, Copy, PartialEq, Eq)]
pub enum ErrorHandling {
    /// The error is dropped and the turn ends without follow-up tasks.
    LogAndContinue,
    /// The error ends the turn and goes to whoever drives the scheduler.
    FailFast,
    /// The error is dropped as with `LogAndContinue`. The value is the
    /// result that the caller is to assume; the task itself pushes nothing
    /// in place of the result that the failed phase did not produce.
    DefaultValue(u8),
}

impl Default for ErrorHandling {
    fn default() -> (strategy: Self)
        ensures
            strategy == ErrorHandling::LogAndContinue,
    {
        ErrorHandling::LogAndContinue
    }
}

/// The number that stands for a strategy in a record.
pub open spec fn strategy_code(strategy: ErrorHandling) -> int {
    match strategy {
        ErrorHandling::LogAndContinue => 0,
        ErrorHandling::FailFast => 1,
        ErrorHandling::DefaultValue(_) => 2,
    }
}

/// The default value that a strategy carries; zero where it carries none.
pub open spec fn strategy_value(strategy: ErrorHandling) -> int {
    match strategy {
        ErrorHandling::DefaultValue(value) => value as int,
        _ => 0,
    }
}

/// The datum of a name: its text, or null where there is none.
pub open spec fn name_datum(name: Option<Seq<char>>) -> DatumModel {
    match name {
        Some(text) => DatumModel::Text(text),
        None => DatumModel::Null,
    }
}

/// The fields of the record of a builder task of the kind `tag`.
pub open spec fn builder_fields(
    tag: Seq<char>,
    name: Option<Seq<char>>,
    strategy: ErrorHandling,
) -> Seq<(Seq<char>, DatumModel)> {
    seq![
        (TYPE_KEY@, DatumModel::Text(tag)),
        ("name"@, name_datum(name)),
        ("error_handling"@, DatumModel::Integer(strategy_code(strategy))),
        ("default_value"@, DatumModel::Integer(strategy_value(strategy))),
    ]
}

/// The record of a builder task of the kind `tag`.
pub open spec fn builder_datum(
    tag: Seq<char>,
    name: Option<Seq<char>>,
    strategy: ErrorHandling,
) -> DatumModel {
    record(builder_fields(tag, name, strategy))
}

/// The view of an optional name.
pub open spec fn name_view(name: Option<String>) -> Option<Seq<char>> {
    match name {
        Some(text) => Some(text@),
        None => None,
    }
}

/// A multiplication task in the phase `P`.
#[derive(Debug)]
pub struct MulBuilder<P: Phase> {
    phase: PhantomData<P>,
    /// Optional custom name for the task
    name: Option<String>,
    /// What becomes of an error
    error_handling: ErrorHandling,
}

/// Writes the record of a builder task.
fn write_builder(tag: &str, name: &Option<String>, strategy: ErrorHandling) -> (d: Datum)
    ensures
        d@ == builder_datum(tag@, name_view(*name), strategy),
{
    let name_value = match name {
        Some(text) => Datum::Text(text.clone()),
        None => Datum::Null,
    };
    let (code, value): (u64, u64) = match strategy {
        ErrorHandling::LogAndContinue => (0, 0),
        ErrorHandling::FailFast => (1, 0),
        ErrorHandling::DefaultValue(v) => (2, v as u64),
    };
    let mut entries: Vec<(Datum, Datum)> = Vec::new();
    entries.push((Datum::text(TYPE_KEY), Datum::text(tag)));
    entries.push((Datum::text("name"), name_value));
    entries.push((Datum::text("error_handling"), Datum::unsigned(code)));
    entries.push((Datum::text("default_value"), Datum::unsigned(value)));
    proof {
        lemma_dict_view(entries);
        assert(entry_views(entries@) =~= record_entries(
            builder_fields(tag@, name_view(*name), strategy),
        ));
    }
    Datum::Dict(entries)
}

/// Reads the record of a builder task: the name and the strategy of the
/// task of the kind `tag` that the datum stands for, if it stands for one.
fn read_builder(d: &Datum, tag: &str) -> (r: Option<(Option<String>, ErrorHandling)>)
    ensures
        match r {
            Some((name, strategy)) => d@ == builder_datum(tag@, name_view(name), strategy),
            None => forall|name: Option<Seq<char>>, strategy: ErrorHandling|
                d@ != #[trigger] builder_datum(tag@, name, strategy),
        },
{
    proof {
        assert forall|name: Option<Seq<char>>, strategy: ErrorHandling|
            d@ == #[trigger] builder_datum(tag@, name, strategy) implies {
            &&& is_dict_of(d@, 4)
            &&& is_field(d@, 0, TYPE_KEY@, DatumModel::Text(tag@))
            &&& is_field(d@, 1, "name"@, name_datum(name))
            &&& is_field(d@, 2, "error_handling"@, DatumModel::Integer(strategy_code(strategy)))
            &&& is_field(d@, 3, "default_value"@, DatumModel::Integer(strategy_value(strategy)))
        } by {
            let fields = builder_fields(tag@, name, strategy);
            lemma_record_fields(fields);
            assert(is_field(d@, 0, fields[0].0, fields[0].1));
            assert(is_field(d@, 1, fields[1].0, fields[1].1));
            assert(is_field(d@, 2, fields[2].0, fields[2].1));
            assert(is_field(d@, 3, fields[3].0, fields[3].1));
        }
    }
    if !d.is_dict_of(4) {
        return None;
    }
    let tagged = match d.field_at(0, TYPE_KEY) {
        Some(Datum::Text(kind)) => *kind == String::from_str(tag),
        _ => false,
    };
    if !tagged {
        return None;
    }
    let name: Option<String> = match d.field_at(1, "name") {
        Some(Datum::Text(text)) => Some(text.clone()),
        Some(Datum::Null) => None,
        _ => {
            return None;
        },
    };
    let code = match d.unsigned_at(2, "error_handling", 2) {
        Some(code) => code,
        None => {
            return None;
        },
    };
    let value = match d.unsigned_at(3, "default_value", 255) {
        Some(value) => value,
        None => {
            return None;
        },
    };
    let strategy = if code == 0 {
        ErrorHandling::LogAndContinue
    } else if code == 1 {
        ErrorHandling::FailFast
    } else {
        ErrorHandling::DefaultValue(value as u8)
    };
    if code != 2 && value != 0 {
        return None;
    }
    proof {
        let fields = builder_fields(tag@, name_view(name), strategy);
        assert forall|i: int| 0 <= i < fields.len() implies is_field(
            d@,
            i,
            fields[i].0,
            #[trigger] fields[i].1,
        ) by {}
        lemma_record_from_fields(d@, fields);
    }
    Some((name, strategy))
}

/// The state with which a multiplication starts.
pub open spec fn initial_state(args: Args) -> State {
    State { x: args.x, y: args.y, result: 0, counter: 0 }
}

/// The state after one more addition came back with `sum`.
pub open spec fn folded(state: State, sum: Output) -> State {
    State {
        result: sum.result,
        counter: if state.counter == 255 {
            255u8
        } else {
            (state.counter + 1) as u8
        },
        ..state
    }
}

/// The tasks that go on from `state`: the next addition, then the task
/// `next`, which is the multiplication in its later phase.
pub open spec fn follow_up(state: State, next: DatumModel) -> Seq<DatumModel> {
    seq![(Add { x: state.result, y: state.x }).datum(), next]
}

/// What a turn does once it holds `state`: with additions left it keeps the
/// state on the data stack and returns the follow-up tasks, else it pushes
/// the result and returns none.
pub open spec fn goes_on(
    state: State,
    next: DatumModel,
    before: ArenaModel,
    after: ArenaModel,
    outcome: TurnOutcome,
) -> bool {
    if state.counter < state.y {
        push_turn(before, state.datum(), follow_up(state, next), after, outcome)
    } else {
        push_turn(before, (Res { result: state.result }).datum(), Seq::empty(), after, outcome)
    }
}

/// What the initial phase does once it holds its arguments: a
/// multiplication by zero or by one resolves at once, to 0 and to `x`,
/// without any addition; any other goes on from its initial state.
pub open spec fn starts(
    args: Args,
    next: DatumModel,
    before: ArenaModel,
    after: ArenaModel,
    outcome: TurnOutcome,
) -> bool {
    if args.y == 0 {
        push_turn(before, (Res { result: 0 }).datum(), Seq::empty(), after, outcome)
    } else if args.y == 1 {
        push_turn(before, (Res { result: args.x }).datum(), Seq::empty(), after, outcome)
    } else {
        goes_on(initial_state(args), next, before, after, outcome)
    }
}

/// The initial phase, before anything is done about an error: pops the
/// arguments, then starts.
pub open spec fn initial_turn(
    next: DatumModel,
    before: ArenaModel,
    after: ArenaModel,
    outcome: TurnOutcome,
) -> bool {
    exists|mid: ArenaModel, got: Result<Args, Error>|
        #[trigger] pops(before, mid, got) && match got {
            Ok(args) => starts(args, next, mid, after, outcome),
            Err(e) => outcome == Err::<Seq<DatumModel>, Error>(e) && after == mid,
        }
}

/// What the later phase does once it holds the sum of the last addition:
/// pops the state, takes the sum in, and goes on.
pub open spec fn resumes(
    sum: Output,
    next: DatumModel,
    before: ArenaModel,
    after: ArenaModel,
    outcome: TurnOutcome,
) -> bool {
    exists|mid: ArenaModel, got: Result<State, Error>|
        #[trigger] pops(before, mid, got) && match got {
            Ok(state) => goes_on(folded(state, sum), next, mid, after, outcome),
            Err(e) => outcome == Err::<Seq<DatumModel>, Error>(e) && after == mid,
        }
}

/// The later phase, before anything is done about an error: pops the sum
/// that the addition left, then resumes.
pub open spec fn later_turn(
    next: DatumModel,
    before: ArenaModel,
    after: ArenaModel,
    outcome: TurnOutcome,
) -> bool {
    exists|mid: ArenaModel, got: Result<Output, Error>|
        #[trigger] pops(before, mid, got) && match got {
            Ok(sum) => resumes(sum, next, mid, after, outcome),
            Err(e) => outcome == Err::<Seq<DatumModel>, Error>(e) && after == mid,
        }
}

/// What the strategy makes of the outcome of a phase: success stays as it
/// is; an error stays under `FailFast` and becomes a turn without
/// follow-up tasks under the other two.
pub open spec fn handled(
    strategy: ErrorHandling,
    inner: TurnOutcome,
    outcome: TurnOutcome,
) -> bool {
    match inner {
        Ok(tasks) => outcome == Ok::<Seq<DatumModel>, Error>(tasks),
        Err(e) => match strategy {
            ErrorHandling::FailFast => outcome == Err::<Seq<DatumModel>, Error>(e),
            _ => outcome == Ok::<Seq<DatumModel>, Error>(Seq::empty()),
        },
    }
}

/// Keeps `state` on the data stack and returns the follow-up tasks, or
/// pushes the result where no addition is left.
fn go_on(state: State, next: Datum, scheduler: &mut Scheduler) -> (r: Result<Vec<Datum>, Error>)
    ensures
        goes_on(state, next@, old(scheduler)@, final(scheduler)@, turn_view(r)),
{
    if state.counter < state.y {
        match scheduler.push_data(&state) {
            Ok(()) => {},
            Err(e) => {
                return Err(e);
            },
        }
        let mut tasks: Vec<Datum> = Vec::new();
        tasks.push(Add::new(state.result, state.x).to_datum());
        tasks.push(next);
        proof {
            assert(datum_views(tasks@) =~= follow_up(state, next@));
        }
        Ok(tasks)
    } else {
        let res = Res { result: state.result };
        resolve(&res, scheduler)
    }
}

impl<P: Phase> MulBuilder<P> {
    /// The name that the task was given.
    pub closed spec fn name_model(&self) -> Option<Seq<char>> {
        name_view(self.name)
    }

    /// What becomes of an error inside the task.
    pub closed spec fn strategy(&self) -> ErrorHandling {
        self.error_handling
    }

    /// Does with an error what the strategy says.
    fn handle_error(&self, err: Error) -> (r: Result<Vec<Datum>, Error>)
        ensures
            handled(self.strategy(), Err(err), turn_view(r)),
    {
        match self.error_handling {
            ErrorHandling::FailFast => {
                return Err(err);
            },
            ErrorHandling::LogAndContinue => {},
            ErrorHandling::DefaultValue(_) => {},
        }
        let tasks: Vec<Datum> = Vec::new();
        proof {
            assert(datum_views(tasks@) =~= Seq::<DatumModel>::empty());
        }
        Ok(tasks)
    }

    /// The datum of the task in its later phase.
    pub open spec fn next_datum(&self) -> DatumModel {
        builder_datum("MulBuilderNext"@, self.name_model(), self.strategy())
    }

    /// Writes the task in its later phase.
    fn next_phase(&self) -> (d: Datum)
        ensures
            d@ == self.next_datum(),
    {
        write_builder("MulBuilderNext", &self.name, self.error_handling)
    }
}

impl MulBuilder<Initial> {
    /// Creates a multiplication task without a name that drops its errors.
    pub fn new() -> (task: Self)
        ensures
            task.name_model() is None,
            task.strategy() == ErrorHandling::LogAndContinue,
    {
        MulBuilder { phase: PhantomData, name: None, error_handling: ErrorHandling::LogAndContinue }
    }

    /// Gives the task a name.
    pub fn with_name(self, name: &str) -> (task: Self)
        ensures
            task.name_model() == Some(name@),
            task.strategy() == self.strategy(),
    {
        MulBuilder {
            phase: PhantomData,
            name: Some(String::from_str(name)),
            error_handling: self.error_handling,
        }
    }

    /// Says what becomes of an error.
    pub fn with_error_handling(self, strategy: ErrorHandling) -> (task: Self)
        ensures
            task.name_model() == self.name_model(),
            task.strategy() == strategy,
    {
        MulBuilder { phase: PhantomData, name: self.name, error_handling: strategy }
    }

    /// Takes a function that is to combine the running result with each
    /// sum. The function is no part of the record that stands for the task,
    /// so it is dropped here and the task is returned as it is: every sum
    /// becomes the running result.
    pub fn with_processor<F: Fn(u8, u8) -> u8>(self, processor: F) -> (task: Self)
        ensures
            task == self,
    {
        self
    }

    /// Builds the task.
    pub fn build(self) -> (task: Box<Self>)
        ensures
            *task == self,
    {
        Box::new(self)
    }

    /// The initial phase of the multiplication.
    fn execute_initial(&mut self, scheduler: &mut Scheduler) -> (r: Result<Vec<Datum>, Error>)
        ensures
            *final(self) == *old(self),
            initial_turn(old(self).next_datum(), old(scheduler)@, final(scheduler)@, turn_view(r)),
    {
        let ghost before = scheduler@;
        let got = scheduler.pop_data::<Args>();
        let ghost mid = scheduler@;
        assert(pops(before, mid, got));
        let args = match got {
            Ok(args) => args,
            Err(e) => {
                return Err(e);
            },
        };
        if args.y == 0 {
            let res = Res { result: 0 };
            return resolve(&res, scheduler);
        }
        if args.y == 1 {
            let res = Res { result: args.x };
            return resolve(&res, scheduler);
        }
        let state = State { x: args.x, y: args.y, result: 0, counter: 0 };
        go_on(state, self.next_phase(), scheduler)
    }
}

impl MulBuilder<Next> {
    /// Creates a task for the later phase.
    fn new_next_phase(name: Option<String>, error_handling: ErrorHandling) -> (task: Self)
        ensures
            task.name_model() == name_view(name),
            task.strategy() == error_handling,
    {
        MulBuilder { phase: PhantomData, name, error_handling }
    }

    /// The later phase of the multiplication.
    fn execute_next(&mut self, scheduler: &mut Scheduler) -> (r: Result<Vec<Datum>, Error>)
        ensures
            *final(self) == *old(self),
            later_turn(old(self).next_datum(), old(scheduler)@, final(scheduler)@, turn_view(r)),
    {
        let ghost next = self.next_datum();
        let ghost before = scheduler@;
        let got = scheduler.pop_data::<Output>();
        let ghost mid = scheduler@;
        assert(pops(before, mid, got));
        let sum = match got {
            Ok(sum) => sum,
            Err(e) => {
                return Err(e);
            },
        };
        let got_state = scheduler.pop_data::<State>();
        let ghost low = scheduler@;
        assert(pops(mid, low, got_state));
        let mut state = match got_state {
            Ok(state) => state,
            Err(e) => {
                assert(resumes(sum, next, mid, low, Err(e)));
                return Err(e);
            },
        };
        let ghost popped = state;
        state.result = sum.result;
        state.counter = if state.counter == 255 {
            255
        } else {
            state.counter + 1
        };
        assert(state == folded(popped, sum));
        let r = go_on(state, self.next_phase(), scheduler);
        assert(resumes(sum, next, mid, scheduler@, turn_view(r)));
        r
    }
}

impl Payload for MulBuilder<Initial> {
    open spec fn datum(&self) -> DatumModel {
        builder_datum("MulBuilderInitial"@, self.name_model(), self.strategy())
    }

    fn to_datum(&self) -> (d: Datum) {
        write_builder("MulBuilderInitial", &self.name, self.error_handling)
    }

    fn from_datum(d: &Datum) -> (r: Option<Self>) {
        match read_builder(d, "MulBuilderInitial") {
            Some((name, error_handling)) => Some(
                MulBuilder { phase: PhantomData, name, error_handling },
            ),
            None => None,
        }
    }
}

impl Payload for MulBuilder<Next> {
    open spec fn datum(&self) -> DatumModel {
        builder_datum("MulBuilderNext"@, self.name_model(), self.strategy())
    }

    fn to_datum(&self) -> (d: Datum) {
        write_builder("MulBuilderNext", &self.name, self.error_handling)
    }

    fn from_datum(d: &Datum) -> (r: Option<Self>) {
        match read_builder(d, "MulBuilderNext") {
            Some((name, error_handling)) => Some(MulBuilder::new_next_phase(name, error_handling)),
            None => None,
        }
    }
}

impl SchedulerTask for MulBuilder<Initial> {
    /// The initial phase, with its error handled as the strategy says.
    open spec fn effect(
        &self,
        before: ArenaModel,
        after: ArenaModel,
        outcome: TurnOutcome,
    ) -> bool {
        exists|inner: TurnOutcome|
            #[trigger] initial_turn(self.next_datum(), before, after, inner) && handled(
                self.strategy(),
                inner,
                outcome,
            )
    }

    fn execute(&mut self, scheduler: &mut Scheduler) -> (r: Result<Vec<Datum>, Error>) {
        let ghost before = scheduler@;
        let inner = self.execute_initial(scheduler);
        assert(initial_turn(self.next_datum(), before, scheduler@, turn_view(inner)));
        match inner {
            Ok(tasks) => Ok(tasks),
            Err(err) => self.handle_error(err),
        }
    }
}

impl SchedulerTask for MulBuilder<Next> {
    /// The later phase, with its error handled as the strategy says.
    open spec fn effect(
        &self,
        before: ArenaModel,
        after: ArenaModel,
        outcome: TurnOutcome,
    ) -> bool {
        exists|inner: TurnOutcome|
            #[trigger] later_turn(self.next_datum(), before, after, inner) && handled(
                self.strategy(),
                inner,
                outcome,
            )
    }

    fn execute(&mut self, scheduler: &mut Scheduler) -> (r: Result<Vec<Datum>, Error>) {
        let ghost before = scheduler@;
        let inner = self.execute_next(scheduler);
        assert(later_turn(self.next_datum(), before, scheduler@, turn_view(inner)));
        match inner {
            Ok(tasks) => Ok(tasks),
            Err(err) => self.handle_error(err),
        }
    }
}

} // verus!
