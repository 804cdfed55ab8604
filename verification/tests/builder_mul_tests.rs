use scheduler::error::Error;
use scheduler::scheduler::{Scheduler, SchedulerTask};
use scheduler::tasks::builder_mul::{Args, ErrorHandling, Initial, MulBuilder, Res};
use scheduler::tasks::Task;

#[test]
fn test_mul_builder_zero() {
    let mut scheduler = Scheduler::default();

    // Set up arguments with y=0
    let args = Args { x: 5, y: 0 };
    scheduler.push_data(&args).unwrap();

    // Execute task
    let task = MulBuilder::<Initial>::new().with_name("ZeroTest").build();
    scheduler.push_task(task).unwrap();
    scheduler.execute::<Task>().unwrap();

    // Check result (should be 0)
    let res: Res = scheduler.pop_data().unwrap();
    assert_eq!(res.result, 0);
}

#[test]
fn test_mul_builder_normal() {
    let mut scheduler = Scheduler::default();

    // Set up arguments
    let args = Args { x: 5, y: 3 };
    scheduler.push_data(&args).unwrap();

    // Create task with builder pattern
    let task = MulBuilder::<Initial>::new()
        .with_name("NormalTest")
        .with_error_handling(ErrorHandling::FailFast)
        .build();

    // Push task to scheduler
    scheduler.push_task(task).unwrap();

    // Execute all tasks
    scheduler.execute_all::<Task>().unwrap();

    // Check result
    let res: Res = scheduler.pop_data().unwrap();
    assert_eq!(res.result, 15);
}

#[test]
fn test_mul_builder_with_processor() {
    let mut scheduler = Scheduler::default();

    // Set up arguments
    let args = Args { x: 5, y: 3 };
    scheduler.push_data(&args).unwrap();

    // Create task with custom processor
    let task = MulBuilder::<Initial>::new()
        .with_name("ProcessorTest")
        .with_processor(|current, new| {
            // Custom processing logic
            println!("Processing: current={}, new={}", current, new);
            current + new
        })
        .build();

    // Push task to scheduler
    scheduler.push_task(task).unwrap();

    // Execute all tasks
    scheduler.execute_all::<Task>().unwrap();

    // Check result
    let res: Res = scheduler.pop_data().unwrap();
    assert_eq!(res.result, 15);
}

#[test]
fn test_mul_builder_overflow() {
    let mut scheduler = Scheduler::default();

    // Set up arguments that would overflow u8
    let args = Args { x: 100, y: 3 };
    scheduler.push_data(&args).unwrap();

    // Create task with builder pattern and default value fallback
    let task = MulBuilder::<Initial>::new()
        .with_name("OverflowTest")
        .with_error_handling(ErrorHandling::DefaultValue(42))
        .build();

    // Push task to scheduler
    scheduler.push_task(task).unwrap();

    // Execute all tasks
    scheduler.execute_all::<Task>().unwrap();

    // Check result (should be saturated at 255)
    let res: Res = scheduler.pop_data().unwrap();
    assert_eq!(res.result, 255);
}

#[test]
fn builder_multiplication_by_one_resolves_in_one_turn() {
    let mut scheduler = Scheduler::default();
    scheduler.push_data(&Args { x: 5, y: 1 }).unwrap();
    scheduler.push_task(MulBuilder::<Initial>::new().build()).unwrap();
    scheduler.execute::<Task>().unwrap();
    assert!(scheduler.is_empty());
    let res: Res = scheduler.pop_data().unwrap();
    assert_eq!(res.result, 5);
}

#[test]
fn builder_strategies_decide_what_becomes_of_an_error() {
    // Without arguments on the data stack the initial phase fails.
    let mut scheduler = Scheduler::default();
    let mut dropping = MulBuilder::<Initial>::new();
    assert!(dropping.execute(&mut scheduler).unwrap().is_empty());

    let mut failing = MulBuilder::<Initial>::new().with_error_handling(ErrorHandling::FailFast);
    assert!(matches!(failing.execute(&mut scheduler), Err(Error::EmptyStack)));

    let mut defaulting =
        MulBuilder::<Initial>::new().with_error_handling(ErrorHandling::DefaultValue(42));
    assert!(defaulting.execute(&mut scheduler).unwrap().is_empty());
    // The default value reaches no stack.
    assert!(matches!(scheduler.pop_data::<Res>(), Err(Error::EmptyStack)));
    assert_eq!(ErrorHandling::default(), ErrorHandling::LogAndContinue);
}

#[test]
fn builder_task_keeps_name_and_strategy_through_the_queue() {
    let mut scheduler = Scheduler::default();
    let task = MulBuilder::<Initial>::new()
        .with_name("Kept")
        .with_error_handling(ErrorHandling::DefaultValue(7))
        .build();
    scheduler.push_task(task).unwrap();
    let popped = scheduler.pop_task::<MulBuilder<Initial>>().unwrap();
    let again = scheduler::codec::Payload::to_datum(&*popped);
    let first = scheduler::codec::Payload::to_datum(
        &MulBuilder::<Initial>::new()
            .with_name("Kept")
            .with_error_handling(ErrorHandling::DefaultValue(7)),
    );
    assert_eq!(again, first);

    // A task of the initial phase is no task of the later phase.
    let task = MulBuilder::<Initial>::new().build();
    scheduler.push_task(task).unwrap();
    assert!(matches!(
        scheduler.pop_task::<MulBuilder<scheduler::tasks::builder_mul::Next>>(),
        Err(Error::Deserialization(_))
    ));
}
