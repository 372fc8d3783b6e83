//! Behaviour of the mailbox: FIFO dispatch, wakeup discipline, and
//! handlers that talk back to the mailbox while it drains.

use forms::messenger::{
    DispatchContext, FuncMessageReceiver, MessageReceiver, Messenger, Sender,
};
use std::cell::RefCell;
use std::rc::Rc;

/// Records every dispatched message in a shared cell.
struct Recorder {
    got: Rc<RefCell<Vec<u32>>>,
}

impl MessageReceiver<u32> for Recorder {
    fn message(&mut self, _ctx: &mut DispatchContext<u32, Self>, message: u32) {
        self.got.borrow_mut().push(message);
    }
}

fn new_recording_mailbox() -> (Messenger<u32, Recorder>, Sender<u32>, Rc<RefCell<Vec<u32>>>) {
    let got = Rc::new(RefCell::new(Vec::new()));
    let mut messenger = Messenger::new();
    let sender = messenger.register_receiver("recorder", Recorder { got: Rc::clone(&got) });
    (messenger, sender, got)
}

#[test]
fn fifo_per_sender() {
    let (mut messenger, sender, got) = new_recording_mailbox();
    sender.send(&mut messenger, 1);
    sender.send(&mut messenger, 2);
    sender.send(&mut messenger, 3);
    let (rearm, _) = messenger.poll_receivers();
    assert!(!rearm);
    assert_eq!(*got.borrow(), vec![1, 2, 3], "dispatch order is push order");
}

#[test]
fn only_the_empty_to_nonempty_send_requests_a_wakeup() {
    let (mut messenger, sender, got) = new_recording_mailbox();
    assert!(sender.send(&mut messenger, 10), "first send into an empty queue");
    assert!(!sender.send(&mut messenger, 20), "queue already non-empty");
    assert!(!sender.send(&mut messenger, 30), "still non-empty");
    let (_, _) = messenger.poll_receivers();
    assert_eq!(*got.borrow(), vec![10, 20, 30]);

    // Once drained, the next send re-arms the wakeup again.
    assert!(sender.send(&mut messenger, 40));
    let (_, _) = messenger.poll_receivers();
    assert_eq!(*got.borrow(), vec![10, 20, 30, 40]);
}

#[test]
fn cloned_senders_feed_the_same_queue() {
    let (mut messenger, sender, got) = new_recording_mailbox();
    let s1 = sender.clone();
    let s2 = sender.clone();
    let s3 = s1.clone();

    // The three handles stand in for three producers racing to push; no
    // order is promised between distinct producers, so only the set of
    // delivered messages is checked.
    s1.send(&mut messenger, 1);
    s2.send(&mut messenger, 2);
    s3.send(&mut messenger, 3);
    let (_, _) = messenger.poll_receivers();

    let mut seen = got.borrow().clone();
    seen.sort();
    assert_eq!(seen, vec![1, 2, 3], "exactly the three messages, once each");

    // The queue is empty afterwards: a further poll dispatches nothing.
    let (rearm, _) = messenger.poll_receivers();
    assert!(!rearm);
    assert_eq!(got.borrow().len(), 3);
}

#[test]
fn each_receiver_gets_its_own_queue() {
    let got_a = Rc::new(RefCell::new(Vec::new()));
    let got_b = Rc::new(RefCell::new(Vec::new()));
    let mut messenger = Messenger::new();
    let sender_a = messenger.register_receiver("a", Recorder { got: Rc::clone(&got_a) });
    let sender_b = messenger.register_receiver("b", Recorder { got: Rc::clone(&got_b) });

    sender_b.send(&mut messenger, 7);
    sender_a.send(&mut messenger, 5);
    sender_b.send(&mut messenger, 8);
    let (_, _) = messenger.poll_receivers();

    assert_eq!(*got_a.borrow(), vec![5]);
    assert_eq!(*got_b.borrow(), vec![7, 8]);
}

#[test]
fn function_receiver_dispatches_each_message() {
    let got = Rc::new(RefCell::new(Vec::new()));
    let got_inner = Rc::clone(&got);
    let mut messenger = Messenger::new();
    let sender = messenger.register_receiver_func("func", move |m: u32| {
        got_inner.borrow_mut().push(m);
    });
    sender.send(&mut messenger, 11);
    sender.send(&mut messenger, 22);
    let (_, _) = messenger.poll_receivers();
    assert_eq!(*got.borrow(), vec![11, 22]);
}

#[test]
fn func_message_receiver_calls_the_function() {
    let got = Rc::new(RefCell::new(Vec::new()));
    let got_inner = Rc::clone(&got);
    let receiver = FuncMessageReceiver::new(move |m: u32| {
        got_inner.borrow_mut().push(m);
    });
    receiver.closed();
    let mut messenger = Messenger::new();
    let sender = messenger.register_receiver("adapter", receiver);
    sender.send(&mut messenger, 9);
    let (_, _) = messenger.poll_receivers();
    assert_eq!(*got.borrow(), vec![9]);
}

#[test]
fn polling_an_empty_mailbox_is_a_no_op() {
    let mut messenger: Messenger<u32, Recorder> = Messenger::new();
    assert_eq!(messenger.queue_count(), 0);
    let (rearm, _) = messenger.poll_receivers();
    assert!(!rearm);
    assert_eq!(messenger.queue_count(), 0);
}

#[test]
fn sender_handles_report_their_queue() {
    let (mut messenger, sender, _) = new_recording_mailbox();
    assert_eq!(sender.queue_id_value(), 0);
    assert_eq!(sender.clone().queue_id_value(), 0);
    let other = messenger.register_receiver(
        "second",
        Recorder { got: Rc::new(RefCell::new(Vec::new())) },
    );
    assert_eq!(other.queue_id_value(), 1);
    assert_eq!(messenger.queue_count(), 2);
}

/// Echoes every message below a limit back to its own queue through the
/// dispatch context. The handle to its own queue arrives after
/// registration, through a shared slot.
struct Echo {
    sender: Rc<RefCell<Option<Sender<u32>>>>,
    limit: u32,
    got: Rc<RefCell<Vec<u32>>>,
}

impl MessageReceiver<u32> for Echo {
    fn message(&mut self, ctx: &mut DispatchContext<u32, Self>, message: u32) {
        self.got.borrow_mut().push(message);
        if message < self.limit {
            if let Some(sender) = self.sender.borrow().as_ref() {
                ctx.send(sender, message + 1);
            }
        }
    }
}

#[test]
fn handler_sends_are_served_by_the_next_poll() {
    let got = Rc::new(RefCell::new(Vec::new()));
    let slot = Rc::new(RefCell::new(None));
    let mut messenger = Messenger::new();
    let sender = messenger.register_receiver(
        "echo",
        Echo { sender: Rc::clone(&slot), limit: 3, got: Rc::clone(&got) },
    );
    *slot.borrow_mut() = Some(sender.clone());

    sender.send(&mut messenger, 1);
    // First drain: the handler receives 1 and defers a send of 2; the
    // deferred send re-arms the wakeup.
    let (rearm, _) = messenger.poll_receivers();
    assert!(rearm, "the deferred send must request a fresh wakeup");
    assert_eq!(*got.borrow(), vec![1]);
    // Served on the following polls, one step per cycle.
    let (rearm, _) = messenger.poll_receivers();
    assert!(rearm);
    assert_eq!(*got.borrow(), vec![1, 2]);
    let (rearm, _) = messenger.poll_receivers();
    assert!(!rearm, "the last message defers nothing");
    assert_eq!(*got.borrow(), vec![1, 2, 3]);
}

/// On its first message, registers a second recorder mid-drain and
/// forwards the message to it.
struct Registrar {
    got: Rc<RefCell<Vec<u32>>>,
    child_log: Rc<RefCell<Vec<u32>>>,
}

impl MessageReceiver<u32> for Registrar {
    fn message(&mut self, ctx: &mut DispatchContext<u32, Self>, message: u32) {
        self.got.borrow_mut().push(message);
        let child = ctx.register_receiver(
            "child",
            Registrar { got: Rc::clone(&self.child_log), child_log: Rc::new(RefCell::new(Vec::new())) },
        );
        ctx.send(&child, message * 10);
    }
}

#[test]
fn handler_registration_is_applied_after_the_drain() {
    let got = Rc::new(RefCell::new(Vec::new()));
    let child_log = Rc::new(RefCell::new(Vec::new()));
    let mut messenger = Messenger::new();
    let sender = messenger.register_receiver(
        "parent",
        Registrar { got: Rc::clone(&got), child_log: Rc::clone(&child_log) },
    );
    assert_eq!(messenger.queue_count(), 1);

    sender.send(&mut messenger, 5);
    let (rearm, _) = messenger.poll_receivers();
    // The registration was applied after the drain: the mailbox now has
    // the child queue, already holding the forwarded message.
    assert!(rearm);
    assert_eq!(messenger.queue_count(), 2);
    assert_eq!(*got.borrow(), vec![5]);
    assert!(child_log.borrow().is_empty(), "the child is served by the next poll");

    // The child receives the forwarded message (and, being a registrar
    // itself, defers a grandchild registration of its own).
    let (_, _) = messenger.poll_receivers();
    assert_eq!(*child_log.borrow(), vec![50]);
    assert_eq!(messenger.queue_count(), 3);
}
