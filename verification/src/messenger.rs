//! Typed mailbox: many producers, one consuming thread.
//!
//! A [`Messenger`] owns any number of registered receivers, each pairing a
//! FIFO queue of messages with a handler that runs only on the consuming
//! thread. A [`Sender`] is a cheap cloneable handle naming one queue.
//! Sending appends to the queue and reports whether the mailbox wakeup
//! must be posted — exactly when the queue was empty before the push, so
//! one wakeup is in flight per burst of messages. On wakeup the consumer
//! calls [`Messenger::poll_receivers`], which drains every queue in FIFO
//! order, handing each message to its handler with no queue borrowed
//! across the call.
//!
//! A handler may talk back to the mailbox while it runs: it is handed a
//! [`DispatchContext`] that records the sends and registrations it asks
//! for, and `poll_receivers` applies them once the drain finishes —
//! registrations first, then sends — reporting a fresh wakeup request
//! when a deferred send made a queue non-empty, so the next poll serves
//! it. Each receiver carries a ghost log of every message ever handed to
//! its handler; the contracts pin dispatch order through that log.

use core::marker::PhantomData;
use std::collections::VecDeque;
use vstd::prelude::*;

verus! {

/// Receives messages of one type on the thread that registered it.
/// Implementations are user code: nothing is assumed about what a
/// handler does.
pub trait MessageReceiver<M>: Sized {
    /// Handle one message. Anything the handler wants of the mailbox —
    /// sending a message, registering a new receiver — goes through
    /// `ctx` and is applied once the current drain finishes.
    fn message(&mut self, ctx: &mut DispatchContext<M, Self>, message: M);

    /// Notification that the channel is closing; does nothing by default.
    fn closed(&self) {
    }
}

/// Specification-level state of one registered receiver.
#[verifier::ext_equal]
pub ghost struct QueueModel<M> {
    /// Messages sent and not yet dispatched, front first.
    pub pending: Seq<M>,
    /// Every message ever handed to the handler, in dispatch order.
    pub dispatched: Seq<M>,
    /// Diagnostic label given at registration.
    pub label: Seq<char>,
}

/// Specification-level state of the mailbox: one queue per receiver, in
/// registration order.
#[verifier::ext_equal]
pub ghost struct MessengerModel<M> {
    /// The registered queues.
    pub queues: Seq<QueueModel<M>>,
}

/// Send: append the message to queue `q`. The wakeup is requested exactly
/// when the queue was empty before the push.
pub open spec fn spec_send<M>(m: MessengerModel<M>, q: int, message: M) -> (MessengerModel<M>, bool) {
    let qm = m.queues[q];
    (
        MessengerModel {
            queues: m.queues.update(
                q,
                QueueModel { pending: qm.pending.push(message), ..qm },
            ),
        },
        qm.pending.len() == 0,
    )
}

/// Drain one queue: everything pending is dispatched, in order, after
/// what was dispatched before.
pub open spec fn spec_drain_queue<M>(q: QueueModel<M>) -> QueueModel<M> {
    QueueModel { pending: Seq::empty(), dispatched: q.dispatched + q.pending, label: q.label }
}

/// Drain every queue of the mailbox.
pub open spec fn spec_drain<M>(m: MessengerModel<M>) -> MessengerModel<M> {
    MessengerModel { queues: m.queues.map_values(|q: QueueModel<M>| spec_drain_queue(q)) }
}

/// What the handlers of one drain asked of the mailbox.
#[verifier::ext_equal]
pub ghost struct DeferredModel<M> {
    /// Labels of the receivers whose registration was deferred, in
    /// request order.
    pub registrations: Seq<Seq<char>>,
    /// Deferred messages: target queue and value, in request order.
    pub sends: Seq<(int, M)>,
}

/// Register: append a fresh empty queue under the given label.
pub open spec fn spec_register<M>(m: MessengerModel<M>, label: Seq<char>) -> MessengerModel<M> {
    MessengerModel {
        queues: m.queues.push(
            QueueModel { pending: Seq::empty(), dispatched: Seq::empty(), label },
        ),
    }
}

/// Apply a list of deferred registrations in order.
pub open spec fn spec_apply_registrations<M>(
    m: MessengerModel<M>,
    labels: Seq<Seq<char>>,
) -> MessengerModel<M>
    decreases labels.len(),
{
    if labels.len() == 0 {
        m
    } else {
        spec_apply_registrations(spec_register(m, labels[0]), labels.drop_first())
    }
}

/// One deferred send: appended when the queue exists, dropped otherwise
/// (a handle of some other mailbox names no queue here).
pub open spec fn spec_send_step<M>(m: MessengerModel<M>, q: int, message: M) -> (
    MessengerModel<M>,
    bool,
) {
    if 0 <= q < m.queues.len() {
        spec_send(m, q, message)
    } else {
        (m, false)
    }
}

/// Apply a list of deferred sends in order; the boolean reports whether
/// any of them made a queue non-empty.
pub open spec fn spec_apply_sends<M>(m: MessengerModel<M>, sends: Seq<(int, M)>) -> (
    MessengerModel<M>,
    bool,
)
    decreases sends.len(),
{
    if sends.len() == 0 {
        (m, false)
    } else {
        let first = spec_send_step(m, sends[0].0, sends[0].1);
        let rest = spec_apply_sends(first.0, sends.drop_first());
        (rest.0, first.1 || rest.1)
    }
}

/// Apply a drain's deferred work: registrations first — so a send
/// through a sender handed out by a deferred registration finds its
/// queue — then the sends. The boolean reports whether a send re-armed
/// the mailbox wakeup.
pub open spec fn spec_apply_deferred<M>(m: MessengerModel<M>, d: DeferredModel<M>) -> (
    MessengerModel<M>,
    bool,
) {
    spec_apply_sends(spec_apply_registrations(m, d.registrations), d.sends)
}

/// The messages of a deferred send list aimed at queue `q`, in order.
pub open spec fn spec_sends_to<M>(sends: Seq<(int, M)>, q: int) -> Seq<M>
    decreases sends.len(),
{
    if sends.len() == 0 {
        Seq::empty()
    } else {
        let rest = spec_sends_to(sends.drop_first(), q);
        if sends[0].0 == q {
            seq![sends[0].1] + rest
        } else {
            rest
        }
    }
}

/// What a handler asks of the mailbox while its queue is being drained:
/// sends and registrations, recorded here and applied by
/// [`Messenger::poll_receivers`] once the drain finishes.
pub struct DispatchContext<M, R> {
    sends: Vec<(usize, M)>,
    registrations: Vec<(String, R)>,
    next_queue: usize,
}

impl<M, R> DispatchContext<M, R> {
    /// Deferred messages: target queue and value, in request order.
    pub closed spec fn send_list(&self) -> Seq<(int, M)> {
        self.sends@.map_values(|p: (usize, M)| (p.0 as int, p.1))
    }

    /// Labels of the receivers whose registration was deferred, in
    /// request order.
    pub closed spec fn registration_labels(&self) -> Seq<Seq<char>> {
        self.registrations@.map_values(|p: (String, R)| p.0@)
    }

    /// The queue identifier the next deferred registration creates.
    pub closed spec fn next_queue_id(&self) -> int {
        self.next_queue as int
    }

    /// Ask the mailbox to append `message` to `sender`'s queue once the
    /// current drain finishes. Sends keep their order per queue.
    pub fn send(&mut self, sender: &Sender<M>, message: M)
        ensures
            final(self).send_list() == old(self).send_list().push(
                (sender.queue_id(), message),
            ),
            final(self).registration_labels() == old(self).registration_labels(),
            final(self).next_queue_id() == old(self).next_queue_id(),
    {
        let ghost msg = message;
        self.sends.push((sender.queue, message));
        proof {
            assert(self.send_list() =~= old(self).send_list().push((sender.queue_id(), msg)));
        }
    }

    /// Ask the mailbox to register `handler` once the current drain
    /// finishes. The returned sender already names the queue the
    /// registration will create, since deferred registrations append
    /// queues in request order.
    pub fn register_receiver(&mut self, debug_description: &str, handler: R) -> (s: Sender<M>)
        requires
            old(self).next_queue_id() < usize::MAX,
        ensures
            final(self).registration_labels() == old(self).registration_labels().push(
                debug_description@,
            ),
            final(self).send_list() == old(self).send_list(),
            final(self).next_queue_id() == old(self).next_queue_id() + 1,
            s.queue_id() == old(self).next_queue_id(),
    {
        let id = self.next_queue;
        self.next_queue = id + 1;
        self.registrations.push((debug_description.to_owned(), handler));
        proof {
            assert(self.registration_labels() =~= old(self).registration_labels().push(
                debug_description@,
            ));
        }
        Sender { queue: id, fake: PhantomData }
    }
}

struct ReceiverEntry<M, R> {
    queue: VecDeque<M>,
    handler: R,
    debug_description: String,
    dispatched: Ghost<Seq<M>>,
}

impl<M, R> ReceiverEntry<M, R> {
    closed spec fn model(self) -> QueueModel<M> {
        QueueModel {
            pending: self.queue@,
            dispatched: self.dispatched@,
            label: self.debug_description@,
        }
    }
}

/// The mailbox. It owns the registered receivers; the handler type `R` is
/// chosen by the consumer (an enum or a function adapter covers mixed
/// handlers).
pub struct Messenger<M, R: MessageReceiver<M>> {
    receivers: Vec<ReceiverEntry<M, R>>,
}

impl<M, R: MessageReceiver<M>> View for Messenger<M, R> {
    type V = MessengerModel<M>;

    closed spec fn view(&self) -> MessengerModel<M> {
        MessengerModel {
            queues: self.receivers@.map_values(|e: ReceiverEntry<M, R>| e.model()),
        }
    }
}

/// A handle for sending messages into one registered queue. Freely
/// cloneable; every clone names the same queue. The handle names its
/// queue by position, so it is meaningful only with the mailbox that
/// issued it: against another mailbox it at most names a queue of the
/// same position, or nothing.
pub struct Sender<M> {
    queue: usize,
    fake: PhantomData<M>,
}

impl<M> Sender<M> {
    /// Which queue of the mailbox this handle feeds.
    pub closed spec fn queue_id(&self) -> int {
        self.queue as int
    }

    /// Which queue of the mailbox this handle feeds, for callers that
    /// must check a handle against a mailbox before sending.
    pub fn queue_id_value(&self) -> (r: usize)
        ensures
            r == self.queue_id(),
    {
        self.queue
    }

    /// Sends a message to the consuming thread. Returns whether the
    /// mailbox wakeup must now be posted: true exactly when the queue was
    /// empty, so a burst of sends requests exactly one wakeup.
    pub fn send<R: MessageReceiver<M>>(
        &self,
        messenger: &mut Messenger<M, R>,
        message: M,
    ) -> (posted: bool)
        requires
            0 <= self.queue_id() < old(messenger)@.queues.len(),
        ensures
            final(messenger)@ == spec_send(old(messenger)@, self.queue_id(), message).0,
            posted == spec_send(old(messenger)@, self.queue_id(), message).1,
    {
        let was_empty = messenger.receivers[self.queue].queue.len() == 0;
        messenger.receivers[self.queue].queue.push_back(message);
        proof {
            let (m1, _) = spec_send(old(messenger)@, self.queue_id(), message);
            assert(messenger@.queues =~~= m1.queues);
            assert(messenger@ =~= m1);
        }
        was_empty
    }
}

impl<M> Clone for Sender<M> {
    /// A clone sends into the same queue as the original.
    fn clone(&self) -> (r: Self)
        ensures
            r.queue_id() == self.queue_id(),
    {
        Sender { queue: self.queue, fake: PhantomData }
    }
}

impl<M, R: MessageReceiver<M>> Messenger<M, R> {
    /// A mailbox with no receivers.
    pub fn new() -> (m: Self)
        ensures
            m@.queues.len() == 0,
    {
        let m = Messenger { receivers: Vec::new() };
        proof {
            assert(m@.queues =~= Seq::<QueueModel<M>>::empty());
        }
        m
    }

    /// How many receivers are registered.
    pub fn queue_count(&self) -> (r: usize)
        ensures
            r == self@.queues.len(),
    {
        self.receivers.len()
    }

    /// Register a receiver: a new empty queue is appended and its handler
    /// stored; the returned sender feeds that queue.
    pub fn register_receiver(&mut self, debug_description: &str, handler: R) -> (s: Sender<M>)
        ensures
            final(self)@.queues == old(self)@.queues.push(
                QueueModel {
                    pending: Seq::empty(),
                    dispatched: Seq::empty(),
                    label: debug_description@,
                },
            ),
            s.queue_id() == old(self)@.queues.len(),
    {
        let idx = self.receivers.len();
        self.receivers.push(
            ReceiverEntry {
                queue: VecDeque::new(),
                handler,
                debug_description: debug_description.to_owned(),
                dispatched: Ghost(Seq::empty()),
            },
        );
        proof {
            assert(self@.queues =~~= old(self)@.queues.push(
                QueueModel {
                    pending: Seq::empty(),
                    dispatched: Seq::empty(),
                    label: debug_description@,
                },
            ));
        }
        Sender { queue: idx, fake: PhantomData }
    }

    /// Drain every registered queue, in registration order: pop and
    /// dispatch until each queue is empty, handing messages to the
    /// receiver's handler in FIFO order. Each receiver is taken out of
    /// the registry while its handler runs, mirroring the rule that no
    /// queue lock is held across a call into user code; what a handler
    /// asks of the mailbox goes into the [`DispatchContext`] it is
    /// handed. Once the drain finishes the deferred work is applied —
    /// registrations first, then sends, each in request order — and the
    /// first component of the result says whether a deferred send
    /// re-armed the wakeup, so the caller posts it and the next poll
    /// serves those messages. The second component is the record of the
    /// deferred work the contract is stated over.
    pub fn poll_receivers(&mut self) -> (r: (bool, Ghost<DeferredModel<M>>))
        ensures
            final(self)@ == spec_apply_deferred(spec_drain(old(self)@), r.1@).0,
            r.0 == spec_apply_deferred(spec_drain(old(self)@), r.1@).1,
    {
        let mut ctx = DispatchContext {
            sends: Vec::new(),
            registrations: Vec::new(),
            next_queue: self.receivers.len(),
        };
        let n = self.receivers.len();
        let mut i: usize = 0;
        while i < n
            invariant
                i <= n,
                n == self.receivers.len(),
                self@.queues.len() == old(self)@.queues.len(),
                n == old(self)@.queues.len(),
                forall|q: int|
                    0 <= q < i ==> #[trigger] self@.queues[q] == spec_drain_queue(
                        old(self)@.queues[q],
                    ),
                forall|q: int| i <= q < n ==> #[trigger] self@.queues[q] == old(self)@.queues[q],
            decreases n - i,
        {
            let ghost queues_before = self@.queues;
            let mut entry = self.receivers.remove(i);
            let ghost entry0 = entry.model();
            let total_pending = entry.queue.len();
            proof {
                assert(total_pending == entry0.pending.len());
            }
            let mut di: usize = 0;
            while entry.queue.len() > 0
                invariant
                    entry0.pending.len() <= usize::MAX,
                    entry.queue@ == entry0.pending.skip(di as int),
                    entry.dispatched@ == entry0.dispatched + entry0.pending.take(di as int),
                    entry.debug_description@ == entry0.label,
                    0 <= di <= entry0.pending.len(),
                decreases entry.queue.len(),
            {
                let message = entry.queue.pop_front().unwrap();
                proof {
                    vstd::seq_lib::lemma_seq_skip_index(entry0.pending, di as int, 0);
                    assert(message == entry0.pending[di as int]);
                    assert(entry.queue@ =~= entry0.pending.skip(di as int + 1));
                    assert(entry0.pending.take(di as int + 1) =~= entry0.pending.take(
                        di as int,
                    ).push(message));
                }
                let ghost new_log = entry.dispatched@.push(message);
                entry.dispatched = Ghost(new_log);
                entry.handler.message(&mut ctx, message);
                di += 1;
            }
            proof {
                assert(entry0.pending.take(di as int) =~= entry0.pending);
                assert(entry.model() =~= spec_drain_queue(entry0));
            }
            self.receivers.insert(i, entry);
            proof {
                assert forall|q: int| 0 <= q < i + 1 implies #[trigger] self@.queues[q]
                    == spec_drain_queue(old(self)@.queues[q]) by {
                    if q < i {
                        assert(self@.queues[q] == queues_before[q]);
                    } else {
                        assert(self@.queues[q] == entry.model());
                        assert(entry0 == queues_before[i as int]);
                    }
                }
                assert forall|q: int| i + 1 <= q < n implies #[trigger] self@.queues[q] == old(
                    self,
                )@.queues[q] by {
                    assert(self@.queues[q] == queues_before[q]);
                }
            }
            i += 1;
        }
        proof {
            assert(self@.queues =~~= spec_drain(old(self)@).queues);
            assert(self@ =~= spec_drain(old(self)@));
        }
        let ghost m_drained = self@;
        let ghost reg_labels = ctx.registration_labels();
        let ghost send_list = ctx.send_list();
        let ghost mut ri: int = 0;
        proof {
            assert(reg_labels.skip(0) =~= reg_labels);
        }
        while ctx.registrations.len() > 0
            invariant
                0 <= ri <= reg_labels.len(),
                ctx.registration_labels() == reg_labels.skip(ri),
                ctx.send_list() == send_list,
                self@ == spec_apply_registrations(m_drained, reg_labels.take(ri)),
            decreases ctx.registrations.len(),
        {
            let ghost remaining = ctx.registrations@;
            let ghost labels_before = ctx.registration_labels();
            let (label, handler) = ctx.registrations.remove(0);
            proof {
                assert(labels_before == reg_labels.skip(ri));
                assert(labels_before.len() == remaining.len());
                assert(labels_before.len() > 0);
                assert(0 <= ri < reg_labels.len());
                assert(remaining[0].0 == label);
                assert(labels_before[0] == remaining[0].0@);
                vstd::seq_lib::lemma_seq_skip_index(reg_labels, ri, 0);
                assert(reg_labels.skip(ri)[0] == reg_labels[0 + ri]);
                assert(reg_labels[ri] == label@);
                assert(ctx.registrations@ =~= remaining.drop_first());
                assert(ctx.registration_labels() =~= labels_before.drop_first());
                assert(ctx.send_list() =~= send_list);
                assert(labels_before.drop_first() =~= reg_labels.skip(ri + 1));
                assert(reg_labels.take(ri + 1) =~= reg_labels.take(ri).push(reg_labels[ri]));
                lemma_apply_registrations_push(m_drained, reg_labels.take(ri), label@);
            }
            let ghost before_push = self@;
            self.receivers.push(
                ReceiverEntry {
                    queue: VecDeque::new(),
                    handler,
                    debug_description: label,
                    dispatched: Ghost(Seq::empty()),
                },
            );
            proof {
                assert(self@.queues =~~= spec_register(before_push, reg_labels[ri]).queues);
                assert(self@ =~= spec_register(before_push, reg_labels[ri]));
                ri = ri + 1;
            }
        }
        proof {
            assert(reg_labels.skip(ri).len() == 0);
            assert(ri == reg_labels.len());
            assert(reg_labels.take(ri) =~= reg_labels);
        }
        let ghost m_reg = self@;
        let mut posted = false;
        let ghost mut si: int = 0;
        proof {
            assert(send_list.skip(0) =~= send_list);
        }
        while ctx.sends.len() > 0
            invariant
                0 <= si <= send_list.len(),
                ctx.send_list() == send_list.skip(si),
                self@ == spec_apply_sends(m_reg, send_list.take(si)).0,
                posted == spec_apply_sends(m_reg, send_list.take(si)).1,
            decreases ctx.sends.len(),
        {
            let ghost remaining = ctx.sends@;
            let ghost sends_before = ctx.send_list();
            let (q, message) = ctx.sends.remove(0);
            let ghost msg = message;
            proof {
                assert(sends_before == send_list.skip(si));
                assert(sends_before.len() == remaining.len());
                assert(sends_before.len() > 0);
                assert(0 <= si < send_list.len());
                assert(remaining[0] == (q, msg));
                assert(sends_before[0] == (q as int, msg));
                vstd::seq_lib::lemma_seq_skip_index(send_list, si, 0);
                assert(send_list.skip(si)[0] == send_list[0 + si]);
                assert(send_list[si] == (q as int, msg));
                assert(ctx.sends@ =~= remaining.drop_first());
                assert(ctx.send_list() =~= sends_before.drop_first());
                assert(sends_before.drop_first() =~= send_list.skip(si + 1));
                assert(send_list.take(si + 1) =~= send_list.take(si).push(send_list[si]));
                lemma_apply_sends_push(m_reg, send_list.take(si), send_list[si]);
            }
            if q < self.receivers.len() {
                let target = Sender { queue: q, fake: PhantomData };
                let p = target.send(self, message);
                posted = posted || p;
            } else {
                // No queue has that identifier (the sender belongs to
                // some other mailbox): the message is dropped.
            }
            proof {
                si = si + 1;
            }
        }
        proof {
            assert(send_list.skip(si).len() == 0);
            assert(si == send_list.len());
            assert(send_list.take(si) =~= send_list);
            let d = DeferredModel { registrations: reg_labels, sends: send_list };
            assert(self@ == spec_apply_deferred(spec_drain(old(self)@), d).0);
            assert(posted == spec_apply_deferred(spec_drain(old(self)@), d).1);
        }
        (
            posted,
            Ghost(DeferredModel { registrations: reg_labels, sends: send_list }),
        )
    }
}

/// Appending a registration folds as one more registration at the end.
pub proof fn lemma_apply_registrations_push<M>(
    m: MessengerModel<M>,
    labels: Seq<Seq<char>>,
    l: Seq<char>,
)
    ensures
        spec_apply_registrations(m, labels.push(l)) == spec_register(
            spec_apply_registrations(m, labels),
            l,
        ),
    decreases labels.len(),
{
    if labels.len() == 0 {
        assert(labels.push(l)[0] == l);
        assert(labels.push(l).drop_first() =~= Seq::<Seq<char>>::empty());
        assert(spec_apply_registrations(spec_register(m, l), labels.push(l).drop_first())
            == spec_register(m, l));
        assert(spec_apply_registrations(m, labels) == m);
    } else {
        assert(labels.push(l)[0] == labels[0]);
        assert(labels.push(l).drop_first() =~= labels.drop_first().push(l));
        lemma_apply_registrations_push(spec_register(m, labels[0]), labels.drop_first(), l);
    }
}

/// Appending a send folds as one more send at the end, and the wakeup
/// request accumulates.
pub proof fn lemma_apply_sends_push<M>(
    m: MessengerModel<M>,
    sends: Seq<(int, M)>,
    s: (int, M),
)
    ensures
        spec_apply_sends(m, sends.push(s)).0 == spec_send_step(
            spec_apply_sends(m, sends).0,
            s.0,
            s.1,
        ).0,
        spec_apply_sends(m, sends.push(s)).1 == (spec_apply_sends(m, sends).1 || spec_send_step(
            spec_apply_sends(m, sends).0,
            s.0,
            s.1,
        ).1),
    decreases sends.len(),
{
    if sends.len() == 0 {
        assert(sends.push(s)[0] == s);
        assert(sends.push(s).drop_first() =~= Seq::<(int, M)>::empty());
        assert(spec_apply_sends(spec_send_step(m, s.0, s.1).0, sends.push(s).drop_first())
            == (spec_send_step(m, s.0, s.1).0, false));
        assert(spec_apply_sends(m, sends) == (m, false));
    } else {
        assert(sends.push(s)[0] == sends[0]);
        assert(sends.push(s).drop_first() =~= sends.drop_first().push(s));
        lemma_apply_sends_push(
            spec_send_step(m, sends[0].0, sends[0].1).0,
            sends.drop_first(),
            s,
        );
    }
}

/// Adapts a plain function to a [`MessageReceiver`]. The stored function
/// must accept every message value; the adapter's type invariant carries
/// that fact to each dispatch.
pub struct FuncMessageReceiver<F, M> where F: Fn(M) {
    f: F,
    fake: PhantomData<M>,
}

impl<F: Fn(M), M> FuncMessageReceiver<F, M> {
    #[verifier::type_invariant]
    spec fn callable(self) -> bool {
        forall|m: M| call_requires(self.f, (m,))
    }

    /// Wrap `f`, which must accept every message of type `M`.
    pub fn new(f: F) -> (r: Self)
        requires
            forall|m: M| call_requires(f, (m,)),
    {
        FuncMessageReceiver { f, fake: PhantomData }
    }
}

impl<F: Fn(M), M> MessageReceiver<M> for FuncMessageReceiver<F, M> {
    fn message(&mut self, _ctx: &mut DispatchContext<M, Self>, message: M) {
        proof {
            use_type_invariant(&*self);
        }
        (self.f)(message);
    }
}

impl<M, F: Fn(M)> Messenger<M, FuncMessageReceiver<F, M>> {
    /// Register a plain function as a receiver; the function must accept
    /// every message of type `M`. The returned sender feeds the new queue.
    pub fn register_receiver_func(&mut self, debug_description: &str, handler: F) -> (s: Sender<M>)
        requires
            forall|m: M| call_requires(handler, (m,)),
        ensures
            final(self)@.queues == old(self)@.queues.push(
                QueueModel {
                    pending: Seq::empty(),
                    dispatched: Seq::empty(),
                    label: debug_description@,
                },
            ),
            s.queue_id() == old(self)@.queues.len(),
    {
        self.register_receiver(debug_description, FuncMessageReceiver::new(handler))
    }
}

/// Deferred registrations append their queues in request order: after
/// they apply, every earlier queue is unchanged, and the receiver a
/// handler registered mid-drain exists, empty, under exactly the queue
/// identifier its [`DispatchContext`] promised.
pub proof fn lemma_registrations_append<M>(m: MessengerModel<M>, labels: Seq<Seq<char>>)
    ensures
        spec_apply_registrations(m, labels).queues.len() == m.queues.len() + labels.len(),
        forall|q: int|
            0 <= q < m.queues.len() ==> #[trigger] spec_apply_registrations(
                m,
                labels,
            ).queues[q] == m.queues[q],
        forall|k: int|
            0 <= k < labels.len() ==> #[trigger] spec_apply_registrations(m, labels).queues[
                m.queues.len() + k] == (QueueModel {
                pending: Seq::<M>::empty(),
                dispatched: Seq::<M>::empty(),
                label: labels[k],
            }),
    decreases labels.len(),
{
    if labels.len() > 0 {
        let m1 = spec_register(m, labels[0]);
        lemma_registrations_append(m1, labels.drop_first());
        assert forall|k: int| 0 <= k < labels.len() implies #[trigger] spec_apply_registrations(
            m,
            labels,
        ).queues[m.queues.len() + k] == (QueueModel {
            pending: Seq::<M>::empty(),
            dispatched: Seq::<M>::empty(),
            label: labels[k],
        }) by {
            if k == 0 {
                assert(spec_apply_registrations(m1, labels.drop_first()).queues[m.queues.len()
                    as int] == m1.queues[m.queues.len() as int]);
            } else {
                assert(labels.drop_first()[k - 1] == labels[k]);
                assert(spec_apply_registrations(m1, labels.drop_first()).queues[m1.queues.len()
                    + (k - 1)] == (QueueModel {
                    pending: Seq::<M>::empty(),
                    dispatched: Seq::<M>::empty(),
                    label: labels.drop_first()[k - 1],
                }));
            }
        }
    }
}

/// Deferred sends keep FIFO order per queue: after a drain's deferred
/// sends apply, each queue holds exactly the messages the handlers sent
/// it, in request order (on top of whatever was pending), and its
/// dispatch log is untouched.
pub proof fn lemma_deferred_sends_fifo<M>(
    m: MessengerModel<M>,
    sends: Seq<(int, M)>,
    q: int,
)
    requires
        0 <= q < m.queues.len(),
    ensures
        spec_apply_sends(m, sends).0.queues.len() == m.queues.len(),
        spec_apply_sends(m, sends).0.queues[q].pending == m.queues[q].pending + spec_sends_to(
            sends,
            q,
        ),
        spec_apply_sends(m, sends).0.queues[q].dispatched == m.queues[q].dispatched,
    decreases sends.len(),
{
    if sends.len() == 0 {
        assert(m.queues[q].pending + spec_sends_to(sends, q) =~= m.queues[q].pending);
    } else {
        let first = spec_send_step(m, sends[0].0, sends[0].1);
        lemma_deferred_sends_fifo(first.0, sends.drop_first(), q);
        if sends[0].0 == q {
            assert(first.0.queues[q].pending =~= m.queues[q].pending + seq![sends[0].1]);
            assert(m.queues[q].pending + seq![sends[0].1] + spec_sends_to(
                sends.drop_first(),
                q,
            ) =~= m.queues[q].pending + spec_sends_to(sends, q));
        } else {
            assert(first.0.queues[q] == m.queues[q]);
        }
    }
}

/// Law (FIFO per sender): three messages pushed through one sender
/// before any poll occurs are handed to that queue's handler in push
/// order, all in one poll cycle, after which the queue is empty.
pub proof fn lemma_fifo_per_sender<M>(m: MessengerModel<M>, q: int, m1: M, m2: M, m3: M)
    requires
        0 <= q < m.queues.len(),
    ensures
        ({
            let after = spec_drain(
                spec_send(spec_send(spec_send(m, q, m1).0, q, m2).0, q, m3).0,
            );
            &&& after.queues[q].dispatched == m.queues[q].dispatched + m.queues[q].pending
                + seq![m1, m2, m3]
            &&& after.queues[q].pending.len() == 0
        }),
{
    let sent = spec_send(spec_send(spec_send(m, q, m1).0, q, m2).0, q, m3).0;
    let after = spec_drain(sent);
    assert(sent.queues[q].pending =~= m.queues[q].pending + seq![m1, m2, m3]);
    assert(after.queues[q] == spec_drain_queue(sent.queues[q]));
    assert(after.queues[q].dispatched =~= m.queues[q].dispatched + m.queues[q].pending + seq![
        m1,
        m2,
        m3,
    ]);
}

/// Law (empty-to-nonempty signal): the send that makes a queue non-empty
/// requests the mailbox wakeup; every further send before the next drain
/// requests none, so no duplicate wakeup is ever issued for one burst.
pub proof fn lemma_single_wakeup_per_burst<M>(m: MessengerModel<M>, q: int, m1: M, m2: M)
    requires
        0 <= q < m.queues.len(),
    ensures
        m.queues[q].pending.len() == 0 ==> spec_send(m, q, m1).1,
        !spec_send(spec_send(m, q, m1).0, q, m2).1,
{
}

} // verus!
