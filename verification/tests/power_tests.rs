use scheduler::error::Error;
use scheduler::scheduler::{Scheduler, SchedulerTask};
use scheduler::tasks::power::{Exp, ExpInternal, Output};
use scheduler::tasks::Task;

#[test]
fn power_of_two_to_the_fifth() {
    let mut scheduler = Scheduler::default();

    scheduler.push_task(Box::new(Exp::new(2, 5))).unwrap();

    // Execute task
    scheduler.execute_all::<Task>().unwrap();

    // Verify the scheduler is empty of tasks
    assert!(scheduler.is_empty());

    // Check result
    let output: Output = scheduler.pop_data().unwrap();
    assert_eq!(output.result, 32);
    assert_eq!(scheduler.available_capacity(), 4096);
}

#[test]
fn power_zero_resolves_in_one_turn() {
    let mut scheduler = Scheduler::default();
    scheduler.push_task(Box::new(Exp::new(9, 0))).unwrap();
    scheduler.execute::<Task>().unwrap();
    assert!(scheduler.is_empty());
    let output: Output = scheduler.pop_data().unwrap();
    assert_eq!(output.result, 1);
}

#[test]
fn power_one_resolves_in_one_turn() {
    let mut scheduler = Scheduler::default();
    scheduler.push_task(Box::new(Exp::new(9, 1))).unwrap();
    scheduler.execute::<Task>().unwrap();
    assert!(scheduler.is_empty());
    let output: Output = scheduler.pop_data().unwrap();
    assert_eq!(output.result, 9);
}

#[test]
fn power_saturates() {
    let mut scheduler = Scheduler::default();
    scheduler.push_task(Box::new(Exp::new(4, 4))).unwrap();
    scheduler.execute_all::<Task>().unwrap();
    let output: Output = scheduler.pop_data().unwrap();
    assert_eq!(output.result, 255);
}

#[test]
fn power_under_way_takes_in_a_product() {
    let mut scheduler = Scheduler::default();
    scheduler.push_data(&scheduler::tasks::mul::Res { result: 8 }).unwrap();
    let mut task = ExpInternal::new(2, 5, 4, 2);
    let follow_up = task.execute(&mut scheduler).unwrap();
    assert_eq!(follow_up.len(), 2);
    assert_eq!(
        follow_up[1],
        scheduler::codec::Payload::to_datum(&ExpInternal::new(2, 5, 8, 3))
    );
    let args: scheduler::tasks::mul::Args = scheduler.pop_data().unwrap();
    assert_eq!((args.x, args.y), (8, 2));

    let mut waiting = ExpInternal::default();
    assert!(matches!(waiting.execute(&mut scheduler), Err(Error::EmptyStack)));
    assert_eq!(Exp::default(), Exp::new(0, 0));
}
