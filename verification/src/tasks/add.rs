//! Addition: a task that resolves in one turn.

use crate::codec::key_views;
use crate::codec::read_unsigned_record;
use crate::codec::unsigned_record;
use crate::codec::unsigned_record_model;
use crate::codec::field_keys;
use crate::codec::field_values;
use crate::codec::all_within;
use crate::codec::Datum;
use crate::codec::DatumModel;
use crate::codec::Payload;
use crate::error::Error;
use crate::scheduler::push_turn;
use crate::scheduler::resolve;
use crate::scheduler::Scheduler;
use crate::scheduler::SchedulerTask;
use crate::scheduler::TurnOutcome;
use crate::stack::ArenaModel;
use vstd::prelude::*;

verus! {

/// The sum of two bytes, held at 255 where it would pass it.
pub open spec fn saturating_sum(x: u8, y: u8) -> u8 {
    if x + y > 255 {
        255u8
    } else {
        (x + y) as u8
    }
}

/// A task that adds two numbers and pushes their sum on the data stack.
#[derive(Debug, Clone, Copy, PartialEq, Eq)]
pub struct Add {
    /// First operand
    pub x: u8,
    /// Second operand
    pub y: u8,
}

/// What an [`Add`] leaves on the data stack.
#[derive(Debug, Clone, Copy, PartialEq, Eq)]
pub struct Output {
    pub result: u8,
}

impl Default for Add {
    fn default() -> (task: Self)
        ensures
            task == (Add { x: 0, y: 0 }),
    {
        Add { x: 0, y: 0 }
    }
}

impl Add {
    /// Creates an addition of the given operands.
    pub fn new(x: u8, y: u8) -> (task: Self)
        ensures
            task == (Add { x, y }),
    {
        Add { x, y }
    }

    /// Performs the addition; the sum saturates at 255.
    pub fn compute(&self) -> (out: Output)
        ensures
            out.result == saturating_sum(self.x, self.y),
    {
        let sum: u16 = self.x as u16 + self.y as u16;
        if sum > 255 {
            Output { result: 255 }
        } else {
            Output { result: sum as u8 }
        }
    }
}

impl Payload for Output {
    open spec fn datum(&self) -> DatumModel {
        unsigned_record_model(None, seq!["result"@], seq![self.result as int])
    }

    fn to_datum(&self) -> (d: Datum) {
        let fields = [("result", self.result as u64)];
        proof {
            assert(field_keys(fields@) =~= seq!["result"@]);
            assert(field_values(fields@) =~= seq![self.result as int]);
        }
        unsigned_record(None, fields.as_slice())
    }

    fn from_datum(d: &Datum) -> (r: Option<Self>) {
        let keys = ["result"];
        proof {
            assert(key_views(keys@) =~= seq!["result"@]);
        }
        match read_unsigned_record(d, None, keys.as_slice(), 255) {
            Some(values) => {
                let out = Output { result: values[0] as u8 };
                proof {
                    assert(Seq::new(values@.len(), |i: int| values@[i] as int) =~= seq![
                        out.result as int,
                    ]);
                }
                Some(out)
            },
            None => {
                proof {
                    assert forall|value: Output| #[trigger] value.datum() != d@ by {
                        assert(all_within(seq![value.result as int], 255));
                    }
                }
                None
            },
        }
    }
}

impl Payload for Add {
    open spec fn datum(&self) -> DatumModel {
        unsigned_record_model(Some("Add"@), seq!["x"@, "y"@], seq![self.x as int, self.y as int])
    }

    fn to_datum(&self) -> (d: Datum) {
        let fields = [("x", self.x as u64), ("y", self.y as u64)];
        proof {
            assert(field_keys(fields@) =~= seq!["x"@, "y"@]);
            assert(field_values(fields@) =~= seq![self.x as int, self.y as int]);
        }
        unsigned_record(Some("Add"), fields.as_slice())
    }

    fn from_datum(d: &Datum) -> (r: Option<Self>) {
        let keys = ["x", "y"];
        proof {
            assert(key_views(keys@) =~= seq!["x"@, "y"@]);
        }
        match read_unsigned_record(d, Some("Add"), keys.as_slice(), 255) {
            Some(values) => {
                let task = Add { x: values[0] as u8, y: values[1] as u8 };
                proof {
                    assert(Seq::new(values@.len(), |i: int| values@[i] as int) =~= seq![
                        task.x as int,
                        task.y as int,
                    ]);
                }
                Some(task)
            },
            None => {
                proof {
                    assert forall|value: Add| #[trigger] value.datum() != d@ by {
                        assert(all_within(seq![value.x as int, value.y as int], 255));
                    }
                }
                None
            },
        }
    }
}

impl SchedulerTask for Add {
    /// An addition pushes its sum on the data stack and returns no task; a
    /// refused push is its error.
    open spec fn effect(
        &self,
        before: ArenaModel,
        after: ArenaModel,
        outcome: TurnOutcome,
    ) -> bool {
        push_turn(
            before,
            (Output { result: saturating_sum(self.x, self.y) }).datum(),
            Seq::empty(),
            after,
            outcome,
        )
    }

    fn execute(&mut self, scheduler: &mut Scheduler) -> (r: Result<Vec<Datum>, Error>) {
        let output = self.compute();
        resolve(&output, scheduler)
    }
}

} // verus!
