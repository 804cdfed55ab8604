use scheduler::scheduler::Scheduler;
use scheduler::tasks::add::{Add, Output};

#[test]
fn add_test_add_normal() {
    let mut scheduler = Scheduler::default();

    scheduler.push_task(Box::new(Add { x: 5, y: 10 })).unwrap();

    // Execute task
    scheduler.execute::<Add>().unwrap();

    assert!(scheduler.is_empty());
    // Check result
    let output: Output = scheduler.pop_data().unwrap();
    assert_eq!(output.result, 15);
}

#[test]
fn test_add_overflow_prevention() {
    // Create task with values that would overflow u8
    let add = Add::new(250, 10);

    // Compute result directly
    let output = add.compute();

    // Check that it used saturating_add
    assert_eq!(output.result, 255);
}

#[test]
fn test_add() {
    let mut scheduler = Scheduler::default();

    scheduler.push_task(Box::new(Add { x: 9, y: 11 })).unwrap();

    let mut steps = 0;
    while let Ok(()) = scheduler.execute::<Add>() {
        steps += 1;
    }

    assert_eq!(steps, 1);

    let output: Output = scheduler.pop_data().unwrap();

    assert_eq!(output.result, 20);
}
