use scheduler::scheduler::{Scheduler, SchedulerTask};
use scheduler::tasks::exp::{Args, Exp, Res};
use scheduler::tasks::Task;

#[test]
fn exp_test_exp_zero() {
    let mut scheduler = Scheduler::default();

    // Set up arguments with y=0
    let args = Args { x: 5, y: 0 };
    scheduler.push_data(&args).unwrap();

    // Execute task
    let mut task = Exp::new();
    let follow_up = task.execute(&mut scheduler).unwrap();
    assert!(follow_up.is_empty());

    // Check result (should be 1)
    let res: Res = scheduler.pop_data().unwrap();
    assert_eq!(res.result, 1);
}

#[test]
fn exp_test_exp_one() {
    let mut scheduler = Scheduler::default();

    // Set up arguments with y=1
    let args = Args { x: 5, y: 1 };
    scheduler.push_data(&args).unwrap();

    // Execute task
    let mut task = Exp::new();
    let follow_up = task.execute(&mut scheduler).unwrap();
    assert!(follow_up.is_empty());

    // Check result (should be x)
    let res: Res = scheduler.pop_data().unwrap();
    assert_eq!(res.result, 5);
}

#[test]
fn exp_test_exp_normal() {
    let mut scheduler = Scheduler::default();

    // Set up arguments
    let args = Args { x: 2, y: 3 };
    scheduler.push_data(&args).unwrap();

    // Push tasks
    scheduler.push_task(Box::new(Exp::new())).unwrap();

    // Execute all tasks
    scheduler.execute_all::<Task>().unwrap();

    // Check result (2^3 = 8)
    let res: Res = scheduler.pop_data().unwrap();
    assert_eq!(res.result, 8);
}

#[test]
fn exp_test_exp_overflow() {
    let mut scheduler = Scheduler::default();

    // Set up arguments that would overflow u8
    let args = Args { x: 4, y: 4 };
    scheduler.push_data(&args).unwrap();

    // Push tasks
    scheduler.push_task(Box::new(Exp::new())).unwrap();

    // Execute all tasks
    scheduler.execute_all::<Task>().unwrap();

    // Check result (should be saturated at 255 since 4^4 = 256 > 255)
    let res: Res = scheduler.pop_data().unwrap();
    assert_eq!(res.result, 255);
}
