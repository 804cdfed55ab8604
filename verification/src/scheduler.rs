//! The scheduler: one arena whose back stack queues tasks and whose front
//! stack carries the values that tasks hand to each other.
//!
//! A task is queued as the encoding of the datum that stands for it. A turn
//! pops the newest task, runs it, and queues the tasks it hands back so that
//! they run in the order in which it listed them.

use crate::codec::cbor_encoding;
use crate::codec::decodes_to;
use crate::codec::encode_datum;
use crate::codec::Datum;
use crate::codec::DatumModel;
use crate::codec::Payload;
use crate::error::Error;
use crate::stack::ArenaModel;
use crate::stack::BidirectionalStack;
use crate::stack::StackError;
use vstd::prelude::*;

verus! {

/// The views of a list of data.
pub open spec fn datum_views(data: Seq<Datum>) -> Seq<DatumModel> {
    Seq::new(data.len(), |i: int| data[i]@)
}

/// What a turn returns, as contracts see it: the follow-up tasks, each by the
/// view of its datum, or the error.
pub type TurnOutcome = Result<Seq<DatumModel>, Error>;

/// What a task's turn returned, with the follow-up tasks taken by their views.
pub open spec fn turn_view(r: Result<Vec<Datum>, Error>) -> TurnOutcome {
    match r {
        Ok(tasks) => Ok(datum_views(tasks@)),
        Err(e) => Err(e),
    }
}

/// Why a datum could not be pushed.
pub enum PushFailure {
    /// The encoder reported an error for it.
    Unencodable,
    /// The arena refused its encoding.
    Refused(StackError),
}

/// The failure, if any, of pushing the encoding of `d` on either end of `m`.
pub open spec fn push_failure(m: ArenaModel, d: DatumModel) -> Option<PushFailure> {
    match cbor_encoding(d) {
        None => Some(PushFailure::Unencodable),
        Some(bytes) => match m.push_error(bytes) {
            Some(e) => Some(PushFailure::Refused(e)),
            None => None,
        },
    }
}

/// `r` is the result that reports `failure`, or success where there is none.
pub open spec fn reports(r: Result<(), Error>, failure: Option<PushFailure>) -> bool {
    match failure {
        None => r is Ok,
        Some(PushFailure::Unencodable) => r matches Err(Error::Serialization(_)),
        Some(PushFailure::Refused(e)) => r == Err::<(), Error>(Error::StackCapacity(e)),
    }
}

/// Queues `tasks` on the back stack of `m`, last task first, so that the
/// first task ends up on top. Stops at the first task that cannot be pushed
/// and keeps what was pushed before it. Gives the arena that results and the
/// failure that stopped the queueing, if one did.
pub open spec fn scheduled(m: ArenaModel, tasks: Seq<DatumModel>) -> (
    ArenaModel,
    Option<PushFailure>,
)
    decreases tasks.len(),
{
    if tasks.len() == 0 {
        (m, None)
    } else {
        match push_failure(m, tasks.last()) {
            Some(failure) => (m, Some(failure)),
            None => scheduled(m.push_back(cbor_encoding(tasks.last())->0), tasks.drop_last()),
        }
    }
}

/// The state of things after a task has run: its error is handed on and
/// nothing more is done, or the tasks it returned are queued.
pub open spec fn settles(
    mid: ArenaModel,
    outcome: TurnOutcome,
    after: ArenaModel,
    r: Result<(), Error>,
) -> bool {
    match outcome {
        Err(e) => r == Err::<(), Error>(e) && after == mid,
        Ok(tasks) => after == scheduled(mid, tasks).0 && reports(r, scheduled(mid, tasks).1),
    }
}

/// What popping a value of type `T` off the data stack does: with nothing to
/// pop it fails and changes nothing; otherwise the newest frame is gone, and
/// the pop succeeds exactly where that frame decodes as a `T`.
pub open spec fn pops<T: Payload>(before: ArenaModel, after: ArenaModel, r: Result<T, Error>) -> bool {
    match r {
        Ok(value) => {
            &&& before.front.len() > 0
            &&& decodes_to(before.front.last(), value)
            &&& after == before.pop_front()
        },
        Err(e) => if before.front.len() == 0 {
            e == Error::EmptyStack && after == before
        } else {
            &&& e is Deserialization
            &&& after == before.pop_front()
            &&& forall|value: T| !#[trigger] decodes_to(before.front.last(), value)
        },
    }
}

/// What pushing the datum `d` on the data stack does: a datum that cannot be
/// pushed is reported and changes nothing; otherwise its encoding is the
/// newest frame.
pub open spec fn pushes(before: ArenaModel, d: DatumModel, after: ArenaModel, r: Result<(), Error>) -> bool {
    &&& reports(r, push_failure(before, d))
    &&& after == match push_failure(before, d) {
        Some(_) => before,
        None => before.push_front(cbor_encoding(d)->0),
    }
}

/// A turn that ends by pushing the datum `d` on the data stack: where the
/// push succeeds the turn returns `tasks`, where it fails the turn returns
/// the push's error.
pub open spec fn push_turn(
    before: ArenaModel,
    d: DatumModel,
    tasks: Seq<DatumModel>,
    after: ArenaModel,
    outcome: TurnOutcome,
) -> bool {
    match outcome {
        Ok(returned) => returned == tasks && pushes(before, d, after, Ok(())),
        Err(e) => pushes(before, d, after, Err(e)),
    }
}

/// Pushes `data` on the data stack of `m`, first datum first, and stops at
/// the first that cannot be pushed, keeping what was pushed before it. Gives
/// the arena that results and the failure that stopped the pushing, if any.
pub open spec fn pushed_all(m: ArenaModel, data: Seq<DatumModel>) -> (
    ArenaModel,
    Option<PushFailure>,
)
    decreases data.len(),
{
    if data.len() == 0 {
        (m, None)
    } else {
        match push_failure(m, data.first()) {
            Some(failure) => (m, Some(failure)),
            None => pushed_all(m.push_front(cbor_encoding(data.first())->0), data.drop_first()),
        }
    }
}

/// A turn that ends by pushing `data` on the data stack, first datum first:
/// where every push succeeds the turn returns `tasks`, else it returns the
/// error of the first push that failed, and what was pushed before stays.
pub open spec fn push_all_turn(
    before: ArenaModel,
    data: Seq<DatumModel>,
    tasks: Seq<DatumModel>,
    after: ArenaModel,
    outcome: TurnOutcome,
) -> bool {
    &&& after == pushed_all(before, data).0
    &&& match outcome {
        Ok(returned) => returned == tasks && pushed_all(before, data).1 is None,
        Err(e) => pushed_all(before, data).1 is Some && reports(
            Err(e),
            pushed_all(before, data).1,
        ),
    }
}

/// Queueing succeeded and put the encodings of `tasks` on top of the call
/// stack, the first task topmost, without touching the data stack.
pub proof fn lemma_scheduled_order(m: ArenaModel, tasks: Seq<DatumModel>)
    requires
        scheduled(m, tasks).1 is None,
    ensures
        scheduled(m, tasks).0.front == m.front,
        scheduled(m, tasks).0.capacity == m.capacity,
        scheduled(m, tasks).0.back == m.back + Seq::new(
            tasks.len(),
            |i: int| cbor_encoding(tasks[tasks.len() - 1 - i])->0,
        ),
    decreases tasks.len(),
{
    let frames = Seq::new(tasks.len(), |i: int| cbor_encoding(tasks[tasks.len() - 1 - i])->0);
    if tasks.len() == 0 {
        assert(m.back + frames =~= m.back);
    } else {
        let bytes = cbor_encoding(tasks.last())->0;
        let rest = tasks.drop_last();
        lemma_scheduled_order(m.push_back(bytes), rest);
        let rest_frames = Seq::new(rest.len(), |i: int| cbor_encoding(rest[rest.len() - 1 - i])->0);
        assert(m.back.push(bytes) + rest_frames =~= m.back + frames);
    }
}

/// Continuation ordering: when a task returns the follow-up tasks `x` and
/// `y`, in that order, and both are queued, the next task that the scheduler
/// pops is `x`, the one after it is `y`, and below them the call stack is as
/// it was.
pub proof fn lemma_continuations_in_order(m: ArenaModel, x: DatumModel, y: DatumModel)
    requires
        scheduled(m, seq![x, y]).1 is None,
    ensures
        ({
            let after = scheduled(m, seq![x, y]).0;
            &&& after.back.last() == cbor_encoding(x)->0
            &&& after.pop_back().back.last() == cbor_encoding(y)->0
            &&& after.pop_back().pop_back() == m
        }),
{
    let tasks = seq![x, y];
    lemma_scheduled_order(m, tasks);
    let after = scheduled(m, tasks).0;
    let frames = Seq::new(tasks.len(), |i: int| cbor_encoding(tasks[tasks.len() - 1 - i])->0);
    assert(after.back == m.back + frames);
    assert(frames[0] == cbor_encoding(y)->0);
    assert(frames[1] == cbor_encoding(x)->0);
    assert(after.back.drop_last() =~= m.back.push(cbor_encoding(y)->0));
    assert(after.back.drop_last().drop_last() =~= m.back);
}

/// One turn of a scheduler that reads its tasks as members of the family
/// `T`.
///
/// On an empty call stack the turn fails and changes nothing. Otherwise the
/// newest task is popped. Where its frame decodes as no task of the family
/// the turn fails with a decode error. Where it does, the task runs, and the
/// turn settles what the task returned.
pub open spec fn turn<T: SchedulerTask>(
    before: ArenaModel,
    after: ArenaModel,
    r: Result<(), Error>,
) -> bool {
    if before.back.len() == 0 {
        r == Err::<(), Error>(Error::EmptyStack) && after == before
    } else {
        let frame = before.back.last();
        let popped = before.pop_back();
        ||| {
            &&& r matches Err(Error::Deserialization(_))
            &&& after == popped
            &&& forall|task: T| !#[trigger] decodes_to(frame, task)
        }
        ||| exists|task: T, mid: ArenaModel, outcome: TurnOutcome|
            {
                &&& decodes_to(frame, task)
                &&& #[trigger] task.effect(popped, mid, outcome)
                &&& settles(mid, outcome, after, r)
            }
    }
}

/// A run of turns: `trace` holds the scheduler before each turn that
/// succeeded and, last, the scheduler that the run ended on or failed from.
pub open spec fn run_of<T: SchedulerTask>(trace: Seq<ArenaModel>) -> bool {
    &&& trace.len() > 0
    &&& forall|i: int|
        0 <= i < trace.len() - 1 ==> #[trigger] turn::<T>(trace[i], trace[i + 1], Ok(()))
}

/// A unit of work that the scheduler can queue and run.
///
/// As a [`Payload`], a task says which datum stands for it; that datum names
/// the task's kind, so that a family of tasks can tell its members apart when
/// it reads one back.
pub trait SchedulerTask: Payload {
    /// What a turn of the task may do: `before` and `after` are the
    /// scheduler around the turn, `outcome` is what the turn returns. A task
    /// that promises nothing states `true`.
    spec fn effect(
        &self,
        before: ArenaModel,
        after: ArenaModel,
        outcome: TurnOutcome,
    ) -> bool;

    /// Runs the task. It may pop from and push on the scheduler's data
    /// stack, and returns the tasks to run next, in the order in which they
    /// are to run, each as the datum that stands for it.
    fn execute(&mut self, scheduler: &mut Scheduler) -> (r: Result<Vec<Datum>, Error>)
        ensures
            old(self).effect(old(scheduler)@, final(scheduler)@, turn_view(r)),
    ;
}

/// The scheduler. Its call stack is the back stack of the arena, its data
/// stack the front stack.
#[derive(Debug)]
pub struct Scheduler {
    stack: BidirectionalStack<4096>,
}

impl View for Scheduler {
    type V = ArenaModel;

    closed spec fn view(&self) -> ArenaModel {
        self.stack@
    }
}

impl Default for Scheduler {
    fn default() -> (s: Self)
        ensures
            s@ == ArenaModel::empty(4096),
    {
        Scheduler::new()
    }
}

impl Scheduler {
    /// Creates a scheduler over an empty arena of 4096 bytes.
    pub fn new() -> (s: Self)
        ensures
            s@ == ArenaModel::empty(4096),
    {
        Scheduler { stack: BidirectionalStack::new() }
    }

    /// Pushes a frame on the data stack as it is.
    pub fn push_frame(&mut self, frame: &[u8]) -> (r: Result<(), Error>)
        ensures
            match old(self)@.push_error(frame@) {
                Some(e) => r == Err::<(), Error>(Error::StackCapacity(e)) && *final(self) == *old(
                    self,
                ),
                None => r is Ok && final(self)@ == old(self)@.push_front(frame@),
            },
    {
        match self.stack.push_front(frame) {
            Ok(()) => Ok(()),
            Err(e) => Err(Error::StackCapacity(e)),
        }
    }

    /// Pops the newest frame of the data stack as it is.
    pub fn pop_frame(&mut self) -> (r: Result<Vec<u8>, Error>)
        ensures
            old(self)@.wf(),
            match r {
                Ok(frame) => {
                    &&& old(self)@.front.len() > 0
                    &&& frame@ == old(self)@.front.last()
                    &&& final(self)@ == old(self)@.pop_front()
                },
                Err(e) => {
                    &&& e == Error::EmptyStack
                    &&& old(self)@.front.len() == 0
                    &&& *final(self) == *old(self)
                },
            },
    {
        match self.stack.pop_front() {
            Ok(frame) => Ok(frame),
            Err(_) => Err(Error::EmptyStack),
        }
    }

    /// Returns a copy of the newest frame of the data stack.
    pub fn peek_frame(&self) -> (r: Result<Vec<u8>, Error>)
        ensures
            match r {
                Ok(frame) => self@.front.len() > 0 && frame@ == self@.front.last(),
                Err(e) => e == Error::EmptyStack && self@.front.len() == 0,
            },
    {
        match self.stack.peek_front() {
            Ok(frame) => Ok(frame),
            Err(_) => Err(Error::EmptyStack),
        }
    }

    /// Encodes a datum and pushes it on the data stack.
    pub fn push_datum(&mut self, d: &Datum) -> (r: Result<(), Error>)
        ensures
            reports(r, push_failure(old(self)@, d@)),
            match push_failure(old(self)@, d@) {
                Some(_) => *final(self) == *old(self),
                None => final(self)@ == old(self)@.push_front(cbor_encoding(d@)->0),
            },
    {
        match encode_datum(d) {
            Ok(bytes) => self.push_frame(bytes.as_slice()),
            Err(e) => Err(Error::from_codec(e)),
        }
    }

    /// Encodes the datum of a task and pushes it on the call stack.
    pub fn push_task_datum(&mut self, d: &Datum) -> (r: Result<(), Error>)
        ensures
            reports(r, push_failure(old(self)@, d@)),
            match push_failure(old(self)@, d@) {
                Some(_) => *final(self) == *old(self),
                None => final(self)@ == old(self)@.push_back(cbor_encoding(d@)->0),
            },
    {
        match encode_datum(d) {
            Ok(bytes) => match self.stack.push_back(bytes.as_slice()) {
                Ok(()) => Ok(()),
                Err(e) => Err(Error::StackCapacity(e)),
            },
            Err(e) => Err(Error::from_codec(e)),
        }
    }

    /// Pushes a task onto the call stack.
    pub fn push_task<T: SchedulerTask>(&mut self, task: Box<T>) -> (r: Result<(), Error>)
        ensures
            reports(r, push_failure(old(self)@, task.datum())),
            match push_failure(old(self)@, task.datum()) {
                Some(_) => *final(self) == *old(self),
                None => final(self)@ == old(self)@.push_back(cbor_encoding(task.datum())->0),
            },
    {
        let d = task.to_datum();
        self.push_task_datum(&d)
    }

    /// Pushes a value onto the data stack.
    pub fn push_data<T: Payload>(&mut self, data: &T) -> (r: Result<(), Error>)
        ensures
            reports(r, push_failure(old(self)@, data.datum())),
            match push_failure(old(self)@, data.datum()) {
                Some(_) => *final(self) == *old(self),
                None => final(self)@ == old(self)@.push_front(cbor_encoding(data.datum())->0),
            },
    {
        let d = data.to_datum();
        self.push_datum(&d)
    }

    /// Pops the newest task of the call stack. The frame is gone even where
    /// it does not decode as a task of the family `T`.
    pub fn pop_task<T: SchedulerTask>(&mut self) -> (r: Result<Box<T>, Error>)
        ensures
            match r {
                Ok(task) => {
                    &&& old(self)@.back.len() > 0
                    &&& decodes_to(old(self)@.back.last(), *task)
                    &&& final(self)@ == old(self)@.pop_back()
                },
                Err(e) => if old(self)@.back.len() == 0 {
                    e == Error::EmptyStack && *final(self) == *old(self)
                } else {
                    &&& e is Deserialization
                    &&& final(self)@ == old(self)@.pop_back()
                    &&& forall|task: T| !#[trigger] decodes_to(old(self)@.back.last(), task)
                },
            },
    {
        let frame = match self.stack.pop_back() {
            Ok(frame) => frame,
            Err(_) => {
                return Err(Error::EmptyStack);
            },
        };
        match read_frame::<T>(frame.as_slice()) {
            Ok(task) => Ok(Box::new(task)),
            Err(e) => Err(e),
        }
    }

    /// Pops the newest value of the data stack. The frame is gone even where
    /// it does not decode as a `T`.
    pub fn pop_data<T: Payload>(&mut self) -> (r: Result<T, Error>)
        ensures
            match r {
                Ok(value) => {
                    &&& old(self)@.front.len() > 0
                    &&& decodes_to(old(self)@.front.last(), value)
                    &&& final(self)@ == old(self)@.pop_front()
                },
                Err(e) => if old(self)@.front.len() == 0 {
                    e == Error::EmptyStack && *final(self) == *old(self)
                } else {
                    &&& e is Deserialization
                    &&& final(self)@ == old(self)@.pop_front()
                    &&& forall|value: T| !#[trigger] decodes_to(old(self)@.front.last(), value)
                },
            },
    {
        let frame = self.pop_frame()?;
        read_frame::<T>(frame.as_slice())
    }

    /// Pushes data on the data stack, first datum first; stops at the first
    /// that cannot be pushed.
    pub fn push_all(&mut self, data: &Vec<Datum>) -> (r: Result<(), Error>)
        ensures
            final(self)@ == pushed_all(old(self)@, datum_views(data@)).0,
            reports(r, pushed_all(old(self)@, datum_views(data@)).1),
    {
        let ghost all = datum_views(data@);
        let mut i: usize = 0;
        assert(all.subrange(0, all.len() as int) =~= all);
        while i < data.len()
            invariant
                i <= data@.len(),
                all == datum_views(data@),
                pushed_all(old(self)@, all) == pushed_all(self@, all.subrange(i as int, all.len() as int)),
            decreases data.len() - i,
        {
            let ghost rest = all.subrange(i as int, all.len() as int);
            assert(rest.first() == data@[i as int]@);
            assert(rest.drop_first() =~= all.subrange(i + 1, all.len() as int));
            match self.push_datum(&data[i]) {
                Ok(()) => {},
                Err(e) => {
                    return Err(e);
                },
            }
            i += 1;
        }
        assert(all.subrange(all.len() as int, all.len() as int) =~= Seq::<DatumModel>::empty());
        Ok(())
    }

    /// Queues follow-up tasks so that they run in the order of the list: the
    /// last is pushed first. Stops at the first that cannot be pushed.
    pub fn schedule_tasks(&mut self, tasks: Vec<Datum>) -> (r: Result<(), Error>)
        ensures
            final(self)@ == scheduled(old(self)@, datum_views(tasks@)).0,
            reports(r, scheduled(old(self)@, datum_views(tasks@)).1),
    {
        let ghost all = datum_views(tasks@);
        let mut i: usize = tasks.len();
        assert(all.subrange(0, i as int) =~= all);
        while i > 0
            invariant
                i <= tasks@.len(),
                all == datum_views(tasks@),
                scheduled(old(self)@, all) == scheduled(self@, all.subrange(0, i as int)),
            decreases i,
        {
            let ghost rest = all.subrange(0, i as int);
            assert(rest.last() == tasks@[i - 1]@);
            assert(rest.drop_last() =~= all.subrange(0, i - 1));
            match self.push_task_datum(&tasks[i - 1]) {
                Ok(()) => {},
                Err(e) => {
                    return Err(e);
                },
            }
            i -= 1;
        }
        assert(all.subrange(0, 0) =~= Seq::<DatumModel>::empty());
        Ok(())
    }

    /// Runs the next task on the call stack: pops it, reads it as a task of
    /// the family `T`, runs it and queues the tasks it returns.
    ///
    /// There is no rollback: whatever the task did to the stacks before it
    /// failed stays done, and so does the pop of the task itself.
    pub fn execute<T: SchedulerTask>(&mut self) -> (r: Result<(), Error>)
        ensures
            turn::<T>(old(self)@, final(self)@, r),
            old(self)@.back.len() == 0 ==> *final(self) == *old(self),
    {
        let mut task = match self.pop_task::<T>() {
            Ok(task) => task,
            Err(e) => {
                return Err(e);
            },
        };
        let ghost popped = self@;
        let ghost first = *task;
        let turn = task.execute(self);
        let ghost mid = self@;
        let ghost outcome = turn_view(turn);
        assert(first.effect(popped, mid, outcome));
        match turn {
            Ok(tasks) => {
                let r = self.schedule_tasks(tasks);
                assert(settles(mid, outcome, self@, r));
                r
            },
            Err(e) => {
                let r = Err(e);
                assert(settles(mid, outcome, self@, r));
                r
            },
        }
    }

    /// Runs tasks until the call stack is empty or one fails.
    ///
    /// The first failure ends the run and is returned; the tasks still queued
    /// stay queued. A run that has taken `usize::MAX` turns is given up with
    /// an execution error.
    pub fn execute_all<T: SchedulerTask>(&mut self) -> (r: Result<(), Error>)
        ensures
            old(self)@.back.len() == 0 ==> r is Ok && *final(self) == *old(self),
            exists|trace: Seq<ArenaModel>|
                {
                    &&& #[trigger] run_of::<T>(trace)
                    &&& trace.first() == old(self)@
                    &&& match r {
                        Ok(_) => trace.last() == final(self)@ && final(self)@.back.len() == 0,
                        Err(e) => {
                            ||| trace.last().back.len() > 0 && turn::<T>(
                                trace.last(),
                                final(self)@,
                                Err(e),
                            )
                            ||| trace.len() > usize::MAX && trace.last() == final(self)@ && e
                                is Execution
                        },
                    }
                },
    {
        let mut turns: usize = 0;
        let ghost mut trace: Seq<ArenaModel> = seq![self@];
        while !self.is_empty()
            invariant
                old(self)@.back.len() == 0 ==> *self == *old(self),
                run_of::<T>(trace),
                trace.first() == old(self)@,
                trace.last() == self@,
                trace.len() == turns + 1,
            decreases usize::MAX - turns,
        {
            if turns == usize::MAX {
                return Err(Error::Execution(String::from_str("turn limit reached")));
            }
            match self.execute::<T>() {
                Ok(()) => {},
                Err(e) => {
                    return Err(e);
                },
            }
            proof {
                let longer = trace.push(self@);
                assert forall|i: int| 0 <= i < longer.len() - 1 implies #[trigger] turn::<T>(
                    longer[i],
                    longer[i + 1],
                    Ok(()),
                ) by {
                    if i < trace.len() - 1 {
                        assert(turn::<T>(trace[i], trace[i + 1], Ok(())));
                    }
                }
                trace = longer;
            }
            turns += 1;
        }
        Ok(())
    }

    /// Returns true if the call stack is empty.
    pub fn is_empty(&self) -> (b: bool)
        ensures
            b == (self@.back.len() == 0),
    {
        self.stack.is_empty_back()
    }

    /// Returns the number of bytes left between the two stacks.
    pub fn available_capacity(&self) -> (n: usize)
        ensures
            n == self@.available(),
            self@.wf(),
            self@.capacity == 4096,
    {
        self.stack.available_capacity()
    }

    /// Discards every queued task and every value on the data stack.
    pub fn clear(&mut self)
        ensures
            final(self)@ == old(self)@.clear(),
    {
        self.stack.clear();
    }
}

/// Ends a turn by pushing a value on the data stack and returning `tasks`.
pub fn hand_over<P: Payload>(value: &P, tasks: Vec<Datum>, scheduler: &mut Scheduler) -> (r: Result<
    Vec<Datum>,
    Error,
>)
    ensures
        push_turn(
            old(scheduler)@,
            value.datum(),
            datum_views(tasks@),
            final(scheduler)@,
            turn_view(r),
        ),
{
    match scheduler.push_data(value) {
        Ok(()) => Ok(tasks),
        Err(e) => Err(e),
    }
}

/// Ends a turn by pushing a result on the data stack and returning no task.
pub fn resolve<R: Payload>(result: &R, scheduler: &mut Scheduler) -> (r: Result<Vec<Datum>, Error>)
    ensures
        push_turn(
            old(scheduler)@,
            result.datum(),
            Seq::empty(),
            final(scheduler)@,
            turn_view(r),
        ),
{
    let tasks: Vec<Datum> = Vec::new();
    proof {
        assert(datum_views(tasks@) =~= Seq::<DatumModel>::empty());
    }
    hand_over(result, tasks, scheduler)
}

/// Reads a frame as a value of type `T`.
pub fn read_frame<T: Payload>(frame: &[u8]) -> (r: Result<T, Error>)
    ensures
        match r {
            Ok(value) => decodes_to(frame@, value),
            Err(e) => e is Deserialization && forall|value: T| !#[trigger] decodes_to(frame@, value),
        },
{
    match crate::codec::from_bytes::<T>(frame) {
        Ok(value) => Ok(value),
        Err(e) => Err(Error::from_codec(e)),
    }
}

} // verus!
