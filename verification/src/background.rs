//! One-shot background work: completion queue and finisher dispatch.
//!
//! A background work item is a closure run on some worker thread plus a
//! finisher that must run back on the consuming thread with the worker's
//! outcome. The thread dispatch itself, and the catching of a panicking
//! worker, happen outside this crate; what is modelled and verified here
//! is the routing: the worker side appends its outcome and the finisher
//! to a [`BackgroundQueue`] and learns whether the consumer must be
//! woken (exactly when the queue was empty, one wakeup per burst), and
//! the consumer side drains the queue in FIFO order, handing every
//! outcome — a caught panic included — to its own finisher.

use std::collections::VecDeque;
use vstd::prelude::*;

verus! {

/// What a background worker produced, as delivered to its finisher.
#[derive(PartialEq, Eq, Structural, Debug)]
pub enum BackgroundOutcome<T> {
    /// The worker ran to completion and returned this value.
    Completed(T),
    /// The worker panicked; the panic was caught on the worker thread.
    Panicked,
}

/// Consumes the outcome of one background work item on the consuming
/// thread. Implementations are user code.
pub trait Finisher<T> {
    /// Receive the worker's outcome.
    fn finish(&mut self, outcome: BackgroundOutcome<T>);
}

/// Specification-level state of the completion queue.
#[verifier::ext_equal]
pub ghost struct BackgroundModel<T> {
    /// Outcomes completed on worker threads and not yet finished.
    pub pending: Seq<BackgroundOutcome<T>>,
    /// Every outcome ever handed to its finisher, in dispatch order.
    pub finished: Seq<BackgroundOutcome<T>>,
}

/// A worker completed: its outcome joins the queue, and the consumer must
/// be woken exactly when the queue was empty.
pub open spec fn spec_complete<T>(m: BackgroundModel<T>, outcome: BackgroundOutcome<T>) -> (
    BackgroundModel<T>,
    bool,
) {
    (
        BackgroundModel { pending: m.pending.push(outcome), ..m },
        m.pending.len() == 0,
    )
}

/// The consumer drains the queue: every pending outcome is finished, in
/// completion order.
pub open spec fn spec_finish_all<T>(m: BackgroundModel<T>) -> BackgroundModel<T> {
    BackgroundModel { pending: Seq::empty(), finished: m.finished + m.pending }
}

/// The completion queue of the background runner: outcome and finisher
/// pairs awaiting the consuming thread.
pub struct BackgroundQueue<T, G: Finisher<T>> {
    pending: VecDeque<(BackgroundOutcome<T>, G)>,
    finished: Ghost<Seq<BackgroundOutcome<T>>>,
}

impl<T, G: Finisher<T>> View for BackgroundQueue<T, G> {
    type V = BackgroundModel<T>;

    closed spec fn view(&self) -> BackgroundModel<T> {
        BackgroundModel {
            pending: self.pending@.map_values(|p: (BackgroundOutcome<T>, G)| p.0),
            finished: self.finished@,
        }
    }
}

impl<T, G: Finisher<T>> BackgroundQueue<T, G> {
    /// An empty completion queue.
    pub fn new() -> (q: Self)
        ensures
            q@.pending.len() == 0,
            q@.finished.len() == 0,
    {
        let q = BackgroundQueue { pending: VecDeque::new(), finished: Ghost(Seq::empty()) };
        proof {
            assert(q@.pending =~= Seq::<BackgroundOutcome<T>>::empty());
        }
        q
    }

    /// Worker side: record the outcome of one finished work item together
    /// with its finisher. Returns whether the consuming thread must now
    /// be woken: true exactly when the queue was empty, so one burst of
    /// completions requests one wakeup.
    pub fn complete(&mut self, outcome: BackgroundOutcome<T>, finisher: G) -> (posted: bool)
        ensures
            final(self)@ == spec_complete(old(self)@, outcome).0,
            posted == spec_complete(old(self)@, outcome).1,
    {
        let was_empty = self.pending.len() == 0;
        self.pending.push_back((outcome, finisher));
        proof {
            assert(self@.pending =~= spec_complete(old(self)@, outcome).0.pending);
            assert(self@ =~= spec_complete(old(self)@, outcome).0);
        }
        was_empty
    }

    /// Consumer side: pop each pending item and hand its outcome to its
    /// finisher, in completion order, until the queue is empty. Nothing
    /// of the queue is borrowed while a finisher runs.
    pub fn finish_all(&mut self)
        ensures
            final(self)@ == spec_finish_all(old(self)@),
    {
        let ghost pending0 = self@.pending;
        let ghost finished0 = self@.finished;
        let total = self.pending.len();
        let mut di: usize = 0;
        while self.pending.len() > 0
            invariant
                pending0.len() == total,
                self@.pending == pending0.skip(di as int),
                self@.finished == finished0 + pending0.take(di as int),
                0 <= di <= pending0.len(),
            decreases self.pending.len(),
        {
            let ghost before = self@.pending;
            let ghost raw_before = self.pending@;
            let (outcome, mut finisher) = self.pending.pop_front().unwrap();
            proof {
                assert(raw_before.len() > 0);
                assert(before.len() == raw_before.len());
                assert(di < pending0.len());
                assert(raw_before[0].0 == outcome);
                assert(before[0] == raw_before[0].0);
                vstd::seq_lib::lemma_seq_skip_index(pending0, di as int, 0);
                assert(before == pending0.skip(di as int));
                assert(pending0.skip(di as int)[0] == pending0[0 + di as int]);
                assert(before[0] == pending0[di as int]);
                assert(outcome == pending0[di as int]);
                assert(self@.pending =~= before.drop_first());
                assert(before.drop_first() =~= pending0.skip(di as int + 1));
                assert(pending0.take(di as int + 1) =~= pending0.take(di as int).push(
                    outcome,
                ));
            }
            let ghost new_log = self.finished@.push(outcome);
            self.finished = Ghost(new_log);
            finisher.finish(outcome);
            di += 1;
        }
        proof {
            assert(pending0.take(di as int) =~= pending0);
            assert(self@ =~= spec_finish_all(old(self)@));
        }
    }
}

/// Law (panic containment): a worker that panicked still reaches its
/// finisher. Completing an item with a failure outcome queues it like
/// any other, and the next drain hands every queued outcome, failures
/// included, to its finisher; nothing is dropped on the way.
pub proof fn lemma_panic_reaches_finisher<T>(m: BackgroundModel<T>)
    ensures
        ({
            let m1 = spec_complete(m, BackgroundOutcome::<T>::Panicked).0;
            let m2 = spec_finish_all(m1);
            m2.finished == m.finished + m.pending + seq![BackgroundOutcome::<T>::Panicked]
        }),
{
    let m1 = spec_complete(m, BackgroundOutcome::<T>::Panicked).0;
    let m2 = spec_finish_all(m1);
    assert(m2.finished =~= m.finished + m.pending + seq![BackgroundOutcome::<T>::Panicked]);
}

} // verus!
