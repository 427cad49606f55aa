use http_server::queue::{JobQueue, Received};

#[test]
fn new_queue_is_empty_and_open() {
    let queue: JobQueue<u32> = JobQueue::new();
    assert_eq!(queue.len(), 0);
    assert!(queue.is_open());
}

#[test]
fn receive_on_an_open_empty_queue_waits() {
    let mut queue: JobQueue<u32> = JobQueue::new();
    assert_eq!(queue.receive(), Received::Empty);
    assert_eq!(queue.len(), 0);
    assert!(queue.is_open());
}

#[test]
fn jobs_are_delivered_in_submission_order() {
    let mut queue: JobQueue<u32> = JobQueue::new();
    assert!(queue.submit(10));
    assert!(queue.submit(20));
    assert!(queue.submit(30));
    assert_eq!(queue.len(), 3);
    assert_eq!(queue.receive(), Received::Job(10));
    assert_eq!(queue.receive(), Received::Job(20));
    assert_eq!(queue.len(), 1);
    assert!(queue.submit(40));
    assert_eq!(queue.receive(), Received::Job(30));
    assert_eq!(queue.receive(), Received::Job(40));
    assert_eq!(queue.receive(), Received::Empty);
}

#[test]
fn equal_jobs_are_each_delivered() {
    let mut queue: JobQueue<u32> = JobQueue::new();
    assert!(queue.submit(7));
    assert!(queue.submit(7));
    assert_eq!(queue.receive(), Received::Job(7));
    assert_eq!(queue.receive(), Received::Job(7));
    assert_eq!(queue.receive(), Received::Empty);
}

#[test]
fn pending_jobs_survive_the_close() {
    let mut queue: JobQueue<u32> = JobQueue::new();
    assert!(queue.submit(1));
    assert!(queue.submit(2));
    queue.close_producer();
    assert!(!queue.is_open());
    assert_eq!(queue.len(), 2);
    assert_eq!(queue.receive(), Received::Job(1));
    assert_eq!(queue.receive(), Received::Job(2));
    assert_eq!(queue.receive(), Received::Closed);
}

#[test]
fn closed_and_drained_stays_closed() {
    let mut queue: JobQueue<u32> = JobQueue::new();
    queue.close_producer();
    assert_eq!(queue.receive(), Received::Closed);
    assert_eq!(queue.receive(), Received::Closed);
    queue.close_producer();
    assert_eq!(queue.receive(), Received::Closed);
    assert!(!queue.is_open());
}

#[test]
fn submit_after_close_has_no_effect() {
    let mut queue: JobQueue<u32> = JobQueue::new();
    assert!(queue.submit(1));
    queue.close_producer();
    assert!(!queue.submit(2));
    assert_eq!(queue.len(), 1);
    assert_eq!(queue.receive(), Received::Job(1));
    assert_eq!(queue.receive(), Received::Closed);
}

#[test]
fn queue_carries_owned_closures() {
    let mut queue: JobQueue<Box<dyn FnOnce() -> u32>> = JobQueue::new();
    let label = String::from("abc");
    assert!(queue.submit(Box::new(move || label.len() as u32)));
    assert!(queue.submit(Box::new(|| 9)));
    let mut results = Vec::new();
    loop {
        match queue.receive() {
            Received::Job(job) => results.push(job()),
            Received::Empty => break,
            Received::Closed => panic!("the producer is open"),
        }
    }
    assert_eq!(results, vec![3, 9]);
}
