//! Behaviour of the background completion queue.

use forms::background::{BackgroundOutcome, BackgroundQueue, Finisher};
use std::cell::RefCell;
use std::rc::Rc;

/// Records every outcome handed to it; a caught panic records `None`.
struct RecFinisher {
    got: Rc<RefCell<Vec<Option<u32>>>>,
}

impl Finisher<u32> for RecFinisher {
    fn finish(&mut self, outcome: BackgroundOutcome<u32>) {
        let entry = match outcome {
            BackgroundOutcome::Completed(v) => Some(v),
            BackgroundOutcome::Panicked => None,
        };
        self.got.borrow_mut().push(entry);
    }
}

#[test]
fn outcomes_reach_their_finishers_in_order() {
    let got = Rc::new(RefCell::new(Vec::new()));
    let mut queue: BackgroundQueue<u32, RecFinisher> = BackgroundQueue::new();
    assert!(queue.complete(
        BackgroundOutcome::Completed(1),
        RecFinisher { got: Rc::clone(&got) }
    ));
    assert!(
        !queue.complete(
            BackgroundOutcome::Completed(2),
            RecFinisher { got: Rc::clone(&got) }
        ),
        "a second completion in the same burst requests no wakeup"
    );
    queue.finish_all();
    assert_eq!(*got.borrow(), vec![Some(1), Some(2)]);
}

#[test]
fn panicked_worker_still_reaches_its_finisher() {
    let got = Rc::new(RefCell::new(Vec::new()));
    let mut queue: BackgroundQueue<u32, RecFinisher> = BackgroundQueue::new();
    queue.complete(BackgroundOutcome::Panicked, RecFinisher { got: Rc::clone(&got) });
    queue.finish_all();
    assert_eq!(
        *got.borrow(),
        vec![None],
        "the finisher ran, and was handed the failure"
    );
}

#[test]
fn drained_queue_rearms_on_the_next_completion() {
    let got = Rc::new(RefCell::new(Vec::new()));
    let mut queue: BackgroundQueue<u32, RecFinisher> = BackgroundQueue::new();
    assert!(queue.complete(
        BackgroundOutcome::Completed(5),
        RecFinisher { got: Rc::clone(&got) }
    ));
    queue.finish_all();
    assert!(queue.complete(
        BackgroundOutcome::Completed(6),
        RecFinisher { got: Rc::clone(&got) }
    ));
    queue.finish_all();
    assert_eq!(*got.borrow(), vec![Some(5), Some(6)]);
}
