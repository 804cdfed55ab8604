use scheduler::codec::stack::push_encoded;
use scheduler::codec::{
    read_unsigned_record, unsigned_record, CodecError, Datum, DatumModel, Payload,
};
use scheduler::error::Error;
use scheduler::scheduler::{read_frame, Scheduler, SchedulerTask, TurnOutcome};
use scheduler::stack::ArenaModel;
use scheduler::stack::StackError;
use scheduler::tasks::add::{Add, Output};
use scheduler::tasks::exp::Exp;
use scheduler::tasks::mul::Mul;
use scheduler::tasks::Task;

/// A task that writes its number on the data stack, then hands back the
/// tasks numbered `first_child..first_child + children`.
struct Mark {
    id: u8,
    first_child: u8,
    children: u8,
}

#[derive(Debug, PartialEq)]
struct Seen {
    id: u8,
}

impl Payload for Seen {
    // Stated for the verifier only; never run.
    fn datum(&self) -> DatumModel {
        DatumModel::Null
    }

    fn to_datum(&self) -> Datum {
        unsigned_record(None, &[("id", self.id as u64)])
    }

    fn from_datum(d: &Datum) -> Option<Self> {
        let values = read_unsigned_record(d, None, &["id"], 255)?;
        Some(Seen { id: values[0] as u8 })
    }
}

impl Payload for Mark {
    // Stated for the verifier only; never run.
    fn datum(&self) -> DatumModel {
        DatumModel::Null
    }

    fn to_datum(&self) -> Datum {
        unsigned_record(
            Some("Mark"),
            &[
                ("id", self.id as u64),
                ("first_child", self.first_child as u64),
                ("children", self.children as u64),
            ],
        )
    }

    fn from_datum(d: &Datum) -> Option<Self> {
        let values = read_unsigned_record(d, Some("Mark"), &["id", "first_child", "children"], 255)?;
        Some(Mark { id: values[0] as u8, first_child: values[1] as u8, children: values[2] as u8 })
    }
}

impl SchedulerTask for Mark {
    // Stated for the verifier only; never run.
    fn effect(&self, _before: ArenaModel, _after: ArenaModel, _outcome: TurnOutcome) -> bool {
        true
    }

    fn execute(&mut self, scheduler: &mut Scheduler) -> Result<Vec<Datum>, Error> {
        scheduler.push_data(&Seen { id: self.id })?;
        let mut tasks = Vec::new();
        for k in 0..self.children {
            tasks.push(Mark { id: self.first_child + k, first_child: 0, children: 0 }.to_datum());
        }
        Ok(tasks)
    }
}

fn seen_in_order(scheduler: &mut Scheduler) -> Vec<u8> {
    let mut ids = Vec::new();
    while let Ok(seen) = scheduler.pop_data::<Seen>() {
        ids.push(seen.id);
    }
    ids.reverse();
    ids
}

#[test]
fn continuations_run_in_the_order_returned() {
    let mut scheduler = Scheduler::new();
    scheduler.push_task(Box::new(Mark { id: 0, first_child: 1, children: 2 })).unwrap();

    scheduler.execute::<Mark>().unwrap();
    // The first task returned is on top of the call stack.
    let next = scheduler.pop_task::<Mark>().unwrap();
    assert_eq!(next.id, 1);
    scheduler.push_task(next).unwrap();

    scheduler.execute_all::<Mark>().unwrap();
    assert_eq!(seen_in_order(&mut scheduler), vec![0, 1, 2]);
}

#[test]
fn continuations_run_before_what_was_queued_earlier() {
    let mut scheduler = Scheduler::new();
    scheduler.push_task(Box::new(Mark { id: 9, first_child: 0, children: 0 })).unwrap();
    scheduler.push_task(Box::new(Mark { id: 0, first_child: 1, children: 3 })).unwrap();
    scheduler.execute_all::<Mark>().unwrap();
    assert_eq!(seen_in_order(&mut scheduler), vec![0, 1, 2, 3, 9]);
}

#[test]
fn schedule_tasks_puts_the_first_task_on_top() {
    let mut scheduler = Scheduler::new();
    let tasks = vec![Add::new(1, 1).to_datum(), Add::new(2, 2).to_datum(), Mul::P1.to_datum()];
    scheduler.schedule_tasks(tasks).unwrap();
    assert!(matches!(*scheduler.pop_task::<Task>().unwrap(), Task::Add(Add { x: 1, y: 1 })));
    assert!(matches!(*scheduler.pop_task::<Task>().unwrap(), Task::Add(Add { x: 2, y: 2 })));
    assert!(matches!(*scheduler.pop_task::<Task>().unwrap(), Task::Mul(Mul::P1)));
    assert!(scheduler.is_empty());
}

#[test]
fn draining_an_empty_scheduler_does_nothing() {
    let mut scheduler = Scheduler::new();
    assert!(scheduler.is_empty());
    scheduler.execute_all::<Task>().unwrap();
    scheduler.execute_all::<Task>().unwrap();
    assert!(scheduler.is_empty());
    assert_eq!(scheduler.available_capacity(), 4096);

    // Values on the data stack are no tasks: the drain leaves them alone.
    scheduler.push_data(&Output { result: 3 }).unwrap();
    let before = scheduler.available_capacity();
    scheduler.execute_all::<Task>().unwrap();
    assert_eq!(scheduler.available_capacity(), before);
    assert_eq!(scheduler.pop_data::<Output>().unwrap(), Output { result: 3 });
}

#[test]
fn a_turn_on_an_empty_call_stack_fails() {
    let mut scheduler = Scheduler::new();
    assert!(matches!(scheduler.execute::<Task>(), Err(Error::EmptyStack)));
    assert!(matches!(scheduler.pop_task::<Task>(), Err(Error::EmptyStack)));
    assert!(matches!(scheduler.pop_data::<Output>(), Err(Error::EmptyStack)));
    assert!(matches!(scheduler.pop_frame(), Err(Error::EmptyStack)));
    assert!(matches!(scheduler.peek_frame(), Err(Error::EmptyStack)));
}

#[test]
fn a_frame_of_another_kind_is_a_decode_error_and_is_gone() {
    let mut scheduler = Scheduler::new();
    scheduler.push_task(Box::new(Mark { id: 0, first_child: 0, children: 0 })).unwrap();
    assert!(matches!(scheduler.execute::<Task>(), Err(Error::Deserialization(_))));
    assert!(scheduler.is_empty());

    scheduler.push_data(&Output { result: 1 }).unwrap();
    assert!(matches!(
        scheduler.pop_data::<scheduler::tasks::mul::Args>(),
        Err(Error::Deserialization(_))
    ));
    assert!(matches!(scheduler.pop_data::<Output>(), Err(Error::EmptyStack)));
    assert!(matches!(read_frame::<Output>(&[0xFF]), Err(Error::Deserialization(_))));
}

#[test]
fn the_first_failure_ends_the_drain_and_leaves_the_rest_queued() {
    let mut scheduler = Scheduler::new();
    scheduler.push_task(Box::new(Add::new(1, 2))).unwrap();
    // A multiplication that finds no arguments.
    scheduler.push_task(Box::new(Mul::new())).unwrap();
    assert!(matches!(scheduler.execute_all::<Task>(), Err(Error::EmptyStack)));
    assert!(!scheduler.is_empty());
    assert!(matches!(*scheduler.pop_task::<Task>().unwrap(), Task::Add(_)));
}

#[test]
fn clear_discards_both_stacks() {
    let mut scheduler = Scheduler::new();
    scheduler.push_task(Box::new(Add::new(1, 2))).unwrap();
    scheduler.push_data(&Output { result: 1 }).unwrap();
    scheduler.clear();
    assert!(scheduler.is_empty());
    assert_eq!(scheduler.available_capacity(), 4096);
    assert!(matches!(scheduler.pop_data::<Output>(), Err(Error::EmptyStack)));
}

#[test]
fn identity_exponents_resolve_in_one_turn_without_a_child() {
    for (y, expected) in [(0u8, 1u8), (1, 6)] {
        let mut scheduler = Scheduler::new();
        scheduler.push_data(&scheduler::tasks::exp::Args { x: 6, y }).unwrap();
        scheduler.push_task(Box::new(Exp::new())).unwrap();
        scheduler.execute::<Task>().unwrap();
        assert!(scheduler.is_empty());
        let res: scheduler::tasks::exp::Res = scheduler.pop_data().unwrap();
        assert_eq!(res.result, expected);
        assert_eq!(scheduler.available_capacity(), 4096);
    }
    // So do a multiplication by zero and one by one.
    for (y, expected) in [(0u8, 0u8), (1, 6)] {
        let mut scheduler = Scheduler::new();
        scheduler.push_data(&scheduler::tasks::mul::Args { x: 6, y }).unwrap();
        scheduler.push_task(Box::new(Mul::new())).unwrap();
        scheduler.execute::<Task>().unwrap();
        assert!(scheduler.is_empty());
        let res: scheduler::tasks::mul::Res = scheduler.pop_data().unwrap();
        assert_eq!(res.result, expected);
    }
}

fn turns_of_a_multiplication(x: u8, y: u8) -> (usize, u8) {
    let mut scheduler = Scheduler::new();
    scheduler.push_data(&scheduler::tasks::mul::Args { x, y }).unwrap();
    scheduler.push_task(Box::new(Mul::new())).unwrap();
    let mut turns = 0;
    while let Ok(()) = scheduler.execute::<Task>() {
        turns += 1;
    }
    let res: scheduler::tasks::mul::Res = scheduler.pop_data().unwrap();
    assert_eq!(scheduler.available_capacity(), 4096);
    (turns, res.result)
}

#[test]
fn a_multiplication_takes_two_turns_for_each_addition_and_one_to_start() {
    assert_eq!(turns_of_a_multiplication(7, 0), (1, 0));
    assert_eq!(turns_of_a_multiplication(7, 1), (1, 7));
    assert_eq!(turns_of_a_multiplication(5, 3), (7, 15));
    assert_eq!(turns_of_a_multiplication(3, 4), (9, 12));
    assert_eq!(turns_of_a_multiplication(1, 100), (201, 100));
    assert_eq!(turns_of_a_multiplication(0, 9), (19, 0));
}

/// Fills the data stack with frames that take `bytes` bytes in all.
fn pad(scheduler: &mut Scheduler, bytes: usize) {
    let mut left = bytes;
    let mut frames = Vec::new();
    while left > 0 {
        // A frame takes its payload and one byte; leave no single byte over
        // that a later frame could not use.
        let take = if left > 256 && left < 258 { 255 } else { left.min(256) };
        frames.push(vec![0xEEu8; take - 1]);
        left -= take;
    }
    push_encoded(scheduler, frames).unwrap();
}

/// Runs 3 to the power 3 with `free` bytes of the arena left to it.
fn nested_power_with(free: usize) -> (Result<(), Error>, Scheduler) {
    let mut scheduler = Scheduler::new();
    pad(&mut scheduler, 4096 - free);
    assert_eq!(scheduler.available_capacity(), free);
    let start = (|| {
        scheduler.push_data(&scheduler::tasks::exp::Args { x: 3, y: 3 })?;
        scheduler.push_task(Box::new(Exp::new()))
    })();
    let r = match start {
        Ok(()) => scheduler.execute_all::<Task>(),
        Err(e) => Err(e),
    };
    (r, scheduler)
}

#[test]
fn a_nested_computation_completes_when_it_just_fits_and_fails_one_byte_short() {
    // What the computation needs at most: the least free space it leaves
    // when it has the whole arena.
    let mut scheduler = Scheduler::new();
    scheduler.push_data(&scheduler::tasks::exp::Args { x: 3, y: 3 }).unwrap();
    scheduler.push_task(Box::new(Exp::new())).unwrap();
    let mut least = scheduler.available_capacity();
    while !scheduler.is_empty() {
        scheduler.execute::<Task>().unwrap();
        least = least.min(scheduler.available_capacity());
    }
    let needed = 4096 - least;
    assert!(needed > 0 && needed < 4096);

    let (r, mut scheduler) = nested_power_with(needed);
    r.unwrap();
    let res: scheduler::tasks::exp::Res = scheduler.pop_data().unwrap();
    assert_eq!(res.result, 27);
    assert_eq!(scheduler.available_capacity(), needed);

    let (r, _) = nested_power_with(needed - 1);
    assert!(matches!(r, Err(Error::StackCapacity(StackError::InsufficientCapacity))));
    // It fails the same way every time.
    let (r, _) = nested_power_with(needed - 1);
    assert!(matches!(r, Err(Error::StackCapacity(StackError::InsufficientCapacity))));
}

#[test]
fn a_refused_push_leaves_the_scheduler_as_it_was() {
    let mut scheduler = Scheduler::new();
    pad(&mut scheduler, 4096 - 9);
    // The frame of {"result": 1} takes ten bytes.
    assert!(matches!(
        scheduler.push_data(&Output { result: 1 }),
        Err(Error::StackCapacity(StackError::InsufficientCapacity))
    ));
    assert!(matches!(
        scheduler.push_task(Box::new(Add::new(1, 2))),
        Err(Error::StackCapacity(StackError::InsufficientCapacity))
    ));
    assert_eq!(scheduler.available_capacity(), 9);
    assert!(scheduler.is_empty());
    assert!(matches!(
        scheduler.push_frame(&[0u8; 300]),
        Err(Error::StackCapacity(StackError::DataTooLarge))
    ));
}

#[test]
fn error_texts() {
    assert_eq!(Error::EmptyStack.message(), "Empty stack");
    assert_eq!(
        Error::StackCapacity(StackError::DataTooLarge).message(),
        "Data size exceeds maximum allowed length"
    );
    assert_eq!(Error::Serialization("a".to_string()).message(), "a");
    assert_eq!(Error::Deserialization("b".to_string()).message(), "b");
    assert_eq!(Error::InvalidTaskLength.message(), "Invalid task length");
    assert_eq!(Error::Execution("c".to_string()).message(), "Execution error: c");
    assert_eq!(Error::Task("d".to_string()).message(), "Task error: d");
    assert!(matches!(
        Error::from(StackError::Underflow),
        Error::StackCapacity(StackError::Underflow)
    ));
    assert!(matches!(Error::from_codec(CodecError::EmptyStack), Error::EmptyStack));
    assert!(matches!(
        Error::from_codec(CodecError::SerializationError("s".to_string())),
        Error::Serialization(text) if text == "s"
    ));
    assert!(matches!(
        Error::from_codec(CodecError::DeserializationError("t".to_string())),
        Error::Deserialization(text) if text == "t"
    ));
}
