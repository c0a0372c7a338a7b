use std::future::Future;
use std::pin::Pin;
use std::sync::{Arc, Mutex};

use thread_control::ThreadWorker;

type Behavior = Box<dyn Fn() -> Pin<Box<dyn Future<Output = ()>>>>;

fn run<T: Future<Output = ()>>(op: T) {
    tokio::runtime::Builder::new_current_thread()
        .enable_all()
        .build()
        .unwrap()
        .block_on(op);
}

fn my_sync_function() {
    println!("Synchronous function is executed!");
}

async fn my_async_function() {
    println!("Asynchronous function is executed!");
}

#[test]
fn test_worker_creation() {
    let worker: ThreadWorker<Behavior> = ThreadWorker::new("John Doe", None);
    assert_eq!(worker.name(), "John Doe");
}

#[test]
fn test_worker_as_ref() {
    let worker: ThreadWorker<Behavior> = ThreadWorker::new("John Doe", None);
    let name_ref: &str = worker.as_ref();
    assert_eq!(name_ref, "John Doe");
}

#[test]
fn test_custom_function() {
    let custom_function = || -> Pin<Box<dyn Future<Output = ()>>> {
        Box::pin(async {
            println!("Custom function executed!");
        })
    };

    let worker: ThreadWorker<Behavior> =
        ThreadWorker::new("John Doe", Some(Box::new(custom_function)));
    let worker2: ThreadWorker<Behavior> =
        ThreadWorker::new("John Doe", Some(Box::new(custom_function)));

    // Two separately built behaviors are distinct, whatever they do; a
    // duplicate shares the behavior and so is the same worker.
    assert!(!worker.same_as(&worker2));
    assert!(worker.same_as(&worker.duplicate()));
}

#[test]
fn test_get_will_be_execute_function() {
    let custom_function = || -> Pin<Box<dyn Future<Output = ()>>> {
        Box::pin(async {
            println!("Custom function executed!");
        })
    };

    let worker: ThreadWorker<Behavior> =
        ThreadWorker::new("John Doe", Some(Box::new(custom_function)));
    let found_function = worker.get_will_be_execute_function();

    assert_eq!(found_function.is_some(), true);

    if let Some(function) = found_function {
        run(function());
    } else {
        println!("No custom function found!");
    }
}

#[test]
fn test_my_sync_function() {
    let custom_function = || -> Pin<Box<dyn Future<Output = ()>>> {
        Box::pin(async {
            my_sync_function();
        })
    };
    let worker: ThreadWorker<Behavior> =
        ThreadWorker::new("John Doe", Some(Box::new(custom_function)));

    if let Some(function) = worker.get_will_be_execute_function() {
        run(function());
    } else {
        println!("No custom function found!");
    }
}

#[test]
fn test_my_async_function() {
    let custom_function =
        || -> Pin<Box<dyn Future<Output = ()>>> { Box::pin(my_async_function()) };
    let worker: ThreadWorker<Behavior> =
        ThreadWorker::new("John Doe", Some(Box::new(custom_function)));

    if let Some(function) = worker.get_will_be_execute_function() {
        run(function());
    } else {
        println!("No custom function found!");
    }
}

#[test]
fn worker_without_behavior_has_none() {
    let worker: ThreadWorker<Behavior> = ThreadWorker::new("", None);
    assert_eq!(worker.name(), "");
    assert!(worker.get_will_be_execute_function().is_none());
}

#[test]
fn same_as_compares_names_and_absent_behaviors() {
    let a: ThreadWorker<Behavior> = ThreadWorker::new("a", None);
    let b: ThreadWorker<Behavior> = ThreadWorker::new("b", None);
    let a2: ThreadWorker<Behavior> = ThreadWorker::new("a", None);
    assert!(a.same_as(&a2));
    assert!(!a.same_as(&b));
    let with: ThreadWorker<Behavior> = ThreadWorker::new(
        "a",
        Some(Box::new(|| -> Pin<Box<dyn Future<Output = ()>>> { Box::pin(async {}) })),
    );
    assert!(!a.same_as(&with));
    assert!(!with.same_as(&a));
}

#[test]
fn duplicate_shares_the_behavior() {
    let count = Arc::new(Mutex::new(0u32));
    let c = count.clone();
    let behavior: Behavior = Box::new(move || -> Pin<Box<dyn Future<Output = ()>>> {
        let c = c.clone();
        Box::pin(async move {
            *c.lock().unwrap() += 1;
        })
    });
    let worker = ThreadWorker::new("counter", Some(behavior));
    let copy = worker.duplicate();
    assert_eq!(copy.name(), "counter");
    run(copy.get_will_be_execute_function().unwrap()());
    run(worker.get_will_be_execute_function().unwrap()());
    assert_eq!(*count.lock().unwrap(), 2);
}
