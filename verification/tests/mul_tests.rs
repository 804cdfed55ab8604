use scheduler::scheduler::{Scheduler, SchedulerTask};
use scheduler::tasks::mul::{Args, Mul, Res};
use scheduler::tasks::Task;

#[test]
fn mul_test_mul_zero() {
    let mut scheduler = Scheduler::default();

    // Set up arguments with y=0
    let args = Args { x: 5, y: 0 };
    scheduler.push_data(&args).unwrap();

    // Execute task
    let mut task = Mul::new();
    let follow_up = task.execute(&mut scheduler).unwrap();
    assert!(follow_up.is_empty());

    // Check result (should be 0)
    let res: Res = scheduler.pop_data().unwrap();
    assert_eq!(res.result, 0);
}

#[test]
fn test_mul_normal() {
    let mut scheduler = Scheduler::default();

    // Set up arguments
    let args = Args { x: 5, y: 3 };
    scheduler.push_data(&args).unwrap();

    // Push tasks
    scheduler.push_task(Box::new(Mul::new())).unwrap();

    // Execute all tasks
    scheduler.execute_all::<Task>().unwrap();

    // Check result
    let res: Res = scheduler.pop_data().unwrap();
    assert_eq!(res.result, 15);
}

#[test]
fn test_mul_overflow() {
    let mut scheduler = Scheduler::default();

    // Set up arguments that would overflow u8
    let args = Args { x: 100, y: 3 };
    scheduler.push_data(&args).unwrap();

    // Push tasks
    scheduler.push_task(Box::new(Mul::new())).unwrap();

    // Execute all tasks
    scheduler.execute_all::<Task>().unwrap();

    // Check result (should be saturated at 255)
    let res: Res = scheduler.pop_data().unwrap();
    assert_eq!(res.result, 255);
}
