//! Tasks that the scheduler can run, and the protocol for tasks that take
//! several turns.

pub mod add;
pub mod builder_mul;
pub mod exp;
pub mod generic_exp;
pub mod mul;
pub mod power;
pub mod traits;

use crate::codec::Datum;
use crate::codec::DatumModel;
use crate::codec::Payload;
use crate::error::Error;
use crate::scheduler::Scheduler;
use crate::scheduler::SchedulerTask;
use crate::scheduler::TurnOutcome;
use crate::stack::ArenaModel;
use crate::tasks::add::Add;
use crate::tasks::builder_mul::Initial;
use crate::tasks::builder_mul::MulBuilder;
use crate::tasks::builder_mul::Next;
use crate::tasks::exp::Exp;
use crate::tasks::generic_exp::ExponentTask;
use crate::tasks::mul::Mul;
use vstd::prelude::*;

verus! {

/// The family of the tasks of this library: any one of them, told apart by
/// the kind that its datum names.
///
/// A scheduler reads the tasks it pops as members of one family. A queue that
/// also holds tasks of other kinds is run with a family that has them too.
#[derive(Debug)]
pub enum Task {
    Add(Add),
    Mul(Mul),
    Exp(Exp),
    Exponent(ExponentTask),
    MulInitial(MulBuilder<Initial>),
    MulNext(MulBuilder<Next>),
    Power(crate::tasks::power::Exp),
    PowerUnderWay(crate::tasks::power::ExpInternal),
}

impl Payload for Task {
    open spec fn datum(&self) -> DatumModel {
        match self {
            Task::Add(task) => task.datum(),
            Task::Mul(task) => task.datum(),
            Task::Exp(task) => task.datum(),
            Task::Exponent(task) => task.datum(),
            Task::MulInitial(task) => task.datum(),
            Task::MulNext(task) => task.datum(),
            Task::Power(task) => task.datum(),
            Task::PowerUnderWay(task) => task.datum(),
        }
    }

    fn to_datum(&self) -> (d: Datum) {
        match self {
            Task::Add(task) => task.to_datum(),
            Task::Mul(task) => task.to_datum(),
            Task::Exp(task) => task.to_datum(),
            Task::Exponent(task) => task.to_datum(),
            Task::MulInitial(task) => task.to_datum(),
            Task::MulNext(task) => task.to_datum(),
            Task::Power(task) => task.to_datum(),
            Task::PowerUnderWay(task) => task.to_datum(),
        }
    }

    fn from_datum(d: &Datum) -> (r: Option<Self>) {
        if let Some(task) = Add::from_datum(d) {
            return Some(Task::Add(task));
        }
        if let Some(task) = Mul::from_datum(d) {
            return Some(Task::Mul(task));
        }
        if let Some(task) = Exp::from_datum(d) {
            return Some(Task::Exp(task));
        }
        if let Some(task) = ExponentTask::from_datum(d) {
            return Some(Task::Exponent(task));
        }
        if let Some(task) = MulBuilder::<Initial>::from_datum(d) {
            return Some(Task::MulInitial(task));
        }
        if let Some(task) = MulBuilder::<Next>::from_datum(d) {
            return Some(Task::MulNext(task));
        }
        if let Some(task) = crate::tasks::power::Exp::from_datum(d) {
            return Some(Task::Power(task));
        }
        if let Some(task) = crate::tasks::power::ExpInternal::from_datum(d) {
            return Some(Task::PowerUnderWay(task));
        }
        None
    }
}

impl SchedulerTask for Task {
    open spec fn effect(
        &self,
        before: ArenaModel,
        after: ArenaModel,
        outcome: TurnOutcome,
    ) -> bool {
        match self {
            Task::Add(task) => task.effect(before, after, outcome),
            Task::Mul(task) => task.effect(before, after, outcome),
            Task::Exp(task) => task.effect(before, after, outcome),
            Task::Exponent(task) => task.effect(before, after, outcome),
            Task::MulInitial(task) => task.effect(before, after, outcome),
            Task::MulNext(task) => task.effect(before, after, outcome),
            Task::Power(task) => task.effect(before, after, outcome),
            Task::PowerUnderWay(task) => task.effect(before, after, outcome),
        }
    }

    fn execute(&mut self, scheduler: &mut Scheduler) -> (r: Result<Vec<Datum>, Error>) {
        match self {
            Task::Add(task) => task.execute(scheduler),
            Task::Mul(task) => task.execute(scheduler),
            Task::Exp(task) => task.execute(scheduler),
            Task::Exponent(task) => task.execute(scheduler),
            Task::MulInitial(task) => task.execute(scheduler),
            Task::MulNext(task) => task.execute(scheduler),
            Task::Power(task) => task.execute(scheduler),
            Task::PowerUnderWay(task) => task.execute(scheduler),
        }
    }
}

} // verus!
