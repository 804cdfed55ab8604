//! Exponentiation that carries its operands and its state in the task
//! itself: nothing but the arguments and the result of each multiplication
//! goes through the data stack.

use crate::codec::all_within;
use crate::codec::field_keys;
use crate::codec::field_values;
use crate::codec::key_views;
use crate::codec::read_unsigned_record;
use crate::codec::unsigned_record;
use crate::codec::unsigned_record_model;
use crate::codec::Datum;
use crate::codec::DatumModel;
use crate::codec::Payload;
use crate::error::Error;
use crate::scheduler::datum_views;
use crate::scheduler::hand_over;
use crate::scheduler::pops;
use crate::scheduler::push_turn;
use crate::scheduler::resolve;
use crate::scheduler::Scheduler;
use crate::scheduler::SchedulerTask;
use crate::scheduler::TurnOutcome;
use crate::stack::ArenaModel;
use crate::tasks::mul::Mul;
use vstd::prelude::*;

verus! {

/// What an exponentiation leaves on the data stack.
#[derive(Debug, Clone, Copy, PartialEq, Eq)]
pub struct Output {
    /// `x` to the power `y`, held at 255
    pub result: u8,
}

/// A task that raises `x` to the power `y` by repeated multiplication.
#[derive(Debug, Clone, Copy, PartialEq, Eq)]
pub struct Exp {
    /// Base value
    pub x: u8,
    /// Exponent
    pub y: u8,
}

/// An exponentiation under way: it waits for the product of a multiplication.
#[derive(Debug, Clone, Copy, PartialEq, Eq)]
pub struct ExpInternal {
    /// Base value
    pub x: u8,
    /// Exponent
    pub y: u8,
    /// Running result
    pub result: u8,
    /// Number of multiplications completed
    pub counter: u8,
}

impl Payload for Output {
    open spec fn datum(&self) -> DatumModel {
        unsigned_record_model(None, seq!["result"@], seq![self.result as int])
    }

    fn to_datum(&self) -> (d: Datum) {
        let fields = [("result", self.result as u64)];
        proof {
            assert(field_keys(fields@) =~= seq!["result"@]);
            assert(field_values(fields@) =~= seq![self.result as int]);
        }
        unsigned_record(None, fields.as_slice())
    }

    fn from_datum(d: &Datum) -> (r: Option<Self>) {
        let keys = ["result"];
        proof {
            assert(key_views(keys@) =~= seq!["result"@]);
        }
        match read_unsigned_record(d, None, keys.as_slice(), 255) {
            Some(values) => {
                let value = Output { result: values[0] as u8 };
                proof {
                    assert(Seq::new(values@.len(), |i: int| values@[i] as int) =~= seq![
                        value.result as int,
                    ]);
                }
                Some(value)
            },
            None => {
                proof {
                    assert forall|value: Output| #[trigger] value.datum() != d@ by {
                        assert(all_within(seq![value.result as int], 255));
                    }
                }
                None
            },
        }
    }
}

impl Payload for Exp {
    open spec fn datum(&self) -> DatumModel {
        unsigned_record_model(Some("ExpStart"@), seq!["x"@, "y"@], seq![self.x as int, self.y as int])
    }

    fn to_datum(&self) -> (d: Datum) {
        let fields = [("x", self.x as u64), ("y", self.y as u64)];
        proof {
            assert(field_keys(fields@) =~= seq!["x"@, "y"@]);
            assert(field_values(fields@) =~= seq![self.x as int, self.y as int]);
        }
        unsigned_record(Some("ExpStart"), fields.as_slice())
    }

    fn from_datum(d: &Datum) -> (r: Option<Self>) {
        let keys = ["x", "y"];
        proof {
            assert(key_views(keys@) =~= seq!["x"@, "y"@]);
        }
        match read_unsigned_record(d, Some("ExpStart"), keys.as_slice(), 255) {
            Some(values) => {
                let value = Exp { x: values[0] as u8, y: values[1] as u8 };
                proof {
                    assert(Seq::new(values@.len(), |i: int| values@[i] as int) =~= seq![
                        value.x as int,
                        value.y as int,
                    ]);
                }
                Some(value)
            },
            None => {
                proof {
                    assert forall|value: Exp| #[trigger] value.datum() != d@ by {
                        assert(all_within(seq![value.x as int, value.y as int], 255));
                    }
                }
                None
            },
        }
    }
}

impl Payload for ExpInternal {
    open spec fn datum(&self) -> DatumModel {
        unsigned_record_model(Some("ExpInternal"@), seq!["x"@, "y"@, "result"@, "counter"@], seq![self.x as int, self.y as int, self.result as int, self.counter as int])
    }

    fn to_datum(&self) -> (d: Datum) {
        let fields = [("x", self.x as u64), ("y", self.y as u64), ("result", self.result as u64), ("counter", self.counter as u64)];
        proof {
            assert(field_keys(fields@) =~= seq!["x"@, "y"@, "result"@, "counter"@]);
            assert(field_values(fields@) =~= seq![self.x as int, self.y as int, self.result as int, self.counter as int]);
        }
        unsigned_record(Some("ExpInternal"), fields.as_slice())
    }

    fn from_datum(d: &Datum) -> (r: Option<Self>) {
        let keys = ["x", "y", "result", "counter"];
        proof {
            assert(key_views(keys@) =~= seq!["x"@, "y"@, "result"@, "counter"@]);
        }
        match read_unsigned_record(d, Some("ExpInternal"), keys.as_slice(), 255) {
            Some(values) => {
                let value = ExpInternal { x: values[0] as u8, y: values[1] as u8, result: values[2] as u8, counter: values[3] as u8 };
                proof {
                    assert(Seq::new(values@.len(), |i: int| values@[i] as int) =~= seq![
                        value.x as int,
                        value.y as int,
                        value.result as int,
                        value.counter as int,
                    ]);
                }
                Some(value)
            },
            None => {
                proof {
                    assert forall|value: ExpInternal| #[trigger] value.datum() != d@ by {
                        assert(all_within(seq![value.x as int, value.y as int, value.result as int, value.counter as int], 255));
                    }
                }
                None
            },
        }
    }
}

impl Default for Exp {
    fn default() -> (task: Self)
        ensures
            task == (Exp { x: 0, y: 0 }),
    {
        Exp { x: 0, y: 0 }
    }
}

impl Default for ExpInternal {
    fn default() -> (task: Self)
        ensures
            task == (ExpInternal { x: 0, y: 0, result: 0, counter: 0 }),
    {
        ExpInternal { x: 0, y: 0, result: 0, counter: 0 }
    }
}

/// The tasks that follow when a multiplication is due: the multiplication,
/// then the exponentiation that waits for its product.
pub open spec fn follow_up(waiting: ExpInternal) -> Seq<DatumModel> {
    seq![Mul::P0.datum(), waiting.datum()]
}

/// The task after one more multiplication came back with `product`.
pub open spec fn folded(task: ExpInternal, product: crate::tasks::mul::Res) -> ExpInternal {
    ExpInternal {
        result: product.result,
        counter: if task.counter == 255 {
            255u8
        } else {
            (task.counter + 1) as u8
        },
        ..task
    }
}

/// What a turn does once the product is taken in: with multiplications
/// left it pushes the arguments of the next and returns the follow-up
/// tasks, else it pushes the result and returns none.
pub open spec fn goes_on(
    task: ExpInternal,
    before: ArenaModel,
    after: ArenaModel,
    outcome: TurnOutcome,
) -> bool {
    if task.counter < task.y {
        push_turn(
            before,
            (crate::tasks::mul::Args { x: task.result, y: task.x }).datum(),
            follow_up(task),
            after,
            outcome,
        )
    } else {
        push_turn(before, (Output { result: task.result }).datum(), Seq::empty(), after, outcome)
    }
}

impl Exp {
    /// Creates an exponentiation of the given operands.
    pub fn new(x: u8, y: u8) -> (task: Self)
        ensures
            task == (Exp { x, y }),
    {
        Exp { x, y }
    }
}

impl ExpInternal {
    /// Creates an exponentiation under way.
    pub fn new(x: u8, y: u8, result: u8, counter: u8) -> (task: Self)
        ensures
            task == (ExpInternal { x, y, result, counter }),
    {
        ExpInternal { x, y, result, counter }
    }
}

impl SchedulerTask for Exp {
    /// The powers zero and one resolve at once, to 1 and to `x`. Any other
    /// power starts with the multiplication of 1 by `x`.
    open spec fn effect(
        &self,
        before: ArenaModel,
        after: ArenaModel,
        outcome: TurnOutcome,
    ) -> bool {
        if self.y == 0 {
            push_turn(before, (Output { result: 1 }).datum(), Seq::empty(), after, outcome)
        } else if self.y == 1 {
            push_turn(before, (Output { result: self.x }).datum(), Seq::empty(), after, outcome)
        } else {
            push_turn(
                before,
                (crate::tasks::mul::Args { x: 1, y: self.x }).datum(),
                follow_up(ExpInternal { x: self.x, y: self.y, result: 0, counter: 0 }),
                after,
                outcome,
            )
        }
    }

    fn execute(&mut self, scheduler: &mut Scheduler) -> (r: Result<Vec<Datum>, Error>) {
        if self.y == 0 {
            resolve(&Output { result: 1 }, scheduler)
        } else if self.y == 1 {
            resolve(&Output { result: self.x }, scheduler)
        } else {
            let waiting = ExpInternal::new(self.x, self.y, 0, 0);
            let mut tasks: Vec<Datum> = Vec::new();
            tasks.push(Mul::new().to_datum());
            tasks.push(waiting.to_datum());
            proof {
                assert(datum_views(tasks@) =~= follow_up(waiting));
            }
            hand_over(&crate::tasks::mul::Args { x: 1, y: self.x }, tasks, scheduler)
        }
    }
}

impl SchedulerTask for ExpInternal {
    /// Pops the product of the last multiplication, takes it in, and goes on.
    open spec fn effect(
        &self,
        before: ArenaModel,
        after: ArenaModel,
        outcome: TurnOutcome,
    ) -> bool {
        exists|mid: ArenaModel, got: Result<crate::tasks::mul::Res, Error>|
            #[trigger] pops(before, mid, got) && match got {
                Ok(product) => goes_on(folded(*self, product), mid, after, outcome),
                Err(e) => outcome == Err::<Seq<DatumModel>, Error>(e) && after == mid,
            }
    }

    fn execute(&mut self, scheduler: &mut Scheduler) -> (r: Result<Vec<Datum>, Error>) {
        let ghost before = scheduler@;
        let ghost start = *self;
        let got = scheduler.pop_data::<crate::tasks::mul::Res>();
        let ghost mid = scheduler@;
        assert(pops(before, mid, got));
        let product = match got {
            Ok(product) => product,
            Err(e) => {
                return Err(e);
            },
        };
        let counter: u8 = if self.counter == 255 {
            255
        } else {
            self.counter + 1
        };
        let task = ExpInternal::new(self.x, self.y, product.result, counter);
        assert(task == folded(start, product));
        if task.counter < task.y {
            let mut tasks: Vec<Datum> = Vec::new();
            tasks.push(Mul::new().to_datum());
            tasks.push(task.to_datum());
            proof {
                assert(datum_views(tasks@) =~= follow_up(task));
            }
            hand_over(&crate::tasks::mul::Args { x: task.result, y: task.x }, tasks, scheduler)
        } else {
            resolve(&Output { result: task.result }, scheduler)
        }
    }
}

} // verus!
