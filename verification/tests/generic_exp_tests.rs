use scheduler::scheduler::{Scheduler, SchedulerTask};
use scheduler::tasks::generic_exp::{Args, ExponentPhase, ExponentTask, Res};
use scheduler::tasks::traits::PhasedTask;
use scheduler::tasks::Task;

#[test]
fn generic_exp_test_exp_zero() {
    let mut scheduler = Scheduler::default();

    // Set up arguments with y=0
    let args = Args { x: 5, y: 0 };
    scheduler.push_data(&args).unwrap();

    // Execute task
    let mut task = ExponentTask::new();
    let follow_up = task.execute(&mut scheduler).unwrap();
    assert!(follow_up.is_empty());

    // Check result (should be 1)
    let res: Res = scheduler.pop_data().unwrap();
    assert_eq!(res.result, 1);
}

#[test]
fn generic_exp_test_exp_one() {
    let mut scheduler = Scheduler::default();

    // Set up arguments with y=1
    let args = Args { x: 5, y: 1 };
    scheduler.push_data(&args).unwrap();

    // Execute task
    let mut task = ExponentTask::new();
    let follow_up = task.execute(&mut scheduler).unwrap();
    assert!(follow_up.is_empty());

    // Check result (should be x)
    let res: Res = scheduler.pop_data().unwrap();
    assert_eq!(res.result, 5);
}

#[test]
fn generic_exp_test_exp_normal() {
    let mut scheduler = Scheduler::default();

    // Set up arguments
    let args = Args { x: 2, y: 3 };
    scheduler.push_data(&args).unwrap();

    // Push tasks
    scheduler.push_task(Box::new(ExponentTask::new())).unwrap();

    // Execute all tasks
    scheduler.execute_all::<Task>().unwrap();

    // Check result (2^3 = 8)
    let res: Res = scheduler.pop_data().unwrap();
    assert_eq!(res.result, 8);
}

#[test]
fn generic_exp_test_exp_overflow() {
    let mut scheduler = Scheduler::default();

    // Set up arguments that would overflow u8
    let args = Args { x: 4, y: 4 };
    scheduler.push_data(&args).unwrap();

    // Push tasks
    scheduler.push_task(Box::new(ExponentTask::new())).unwrap();

    // Execute all tasks
    scheduler.execute_all::<Task>().unwrap();

    // Check result (should be saturated at 255 since 4^4 = 256 > 255)
    let res: Res = scheduler.pop_data().unwrap();
    assert_eq!(res.result, 255);
}

#[test]
fn exponent_task_phases() {
    assert!(ExponentTask::new().is_initial_phase());
    assert!(!ExponentTask::next().is_initial_phase());
    assert_eq!(ExponentTask::new().phase(), ExponentPhase::Initial);
    assert_eq!(ExponentTask::next().phase(), ExponentPhase::Next);
    assert_eq!(ExponentTask::default(), ExponentTask::new());
    assert_eq!(ExponentPhase::default(), ExponentPhase::Initial);
}

#[test]
fn exponent_task_keeps_state_below_the_inputs_of_its_child() {
    let mut scheduler = Scheduler::default();
    scheduler.push_data(&Args { x: 3, y: 2 }).unwrap();

    let mut task = ExponentTask::new();
    let follow_up = task.execute(&mut scheduler).unwrap();
    assert_eq!(follow_up.len(), 2);

    // On top lie the arguments of the multiplication, below them the state.
    let child_args: scheduler::tasks::mul::Args = scheduler.pop_data().unwrap();
    assert_eq!((child_args.x, child_args.y), (3, 3));
    let state: scheduler::tasks::generic_exp::State = scheduler.pop_data().unwrap();
    assert_eq!((state.x, state.y, state.result, state.counter), (3, 2, 3, 1));
}

#[test]
fn exponent_task_without_arguments_fails_on_an_empty_stack() {
    let mut scheduler = Scheduler::default();
    let mut task = ExponentTask::new();
    assert!(matches!(task.execute(&mut scheduler), Err(scheduler::error::Error::EmptyStack)));
    let mut later = ExponentTask::next();
    assert!(matches!(later.execute(&mut scheduler), Err(scheduler::error::Error::EmptyStack)));
}
