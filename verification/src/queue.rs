//! A bounded, FIFO queue of raw byte payloads awaiting delivery to a
//! child's input stream. The bound applies backpressure: a producer
//! submitting faster than the consumer drains is told the queue is full
//! rather than growing it without bound.

use vstd::prelude::*;

verus! {

/// Why a submission was not accepted.
#[derive(Debug, Clone, Copy, PartialEq, Eq)]
pub enum InputError {
    /// The queue already holds as many payloads as its capacity.
    Full,
    /// The consuming task has terminated; the queue accepts nothing more.
    Closed,
}

/// The mathematical content of an input queue.
pub ghost struct QueueModel {
    /// Pending payloads, oldest first.
    pub items: Seq<Seq<u8>>,
    /// The fixed capacity the queue was created with.
    pub capacity: nat,
    /// Whether the consuming side has terminated.
    pub closed: bool,
}

/// A queue is well formed when it holds no more than its capacity.
pub open spec fn queue_wf(q: QueueModel) -> bool {
    q.items.len() <= q.capacity
}

/// The queue and result after one submission: refused when closed, refused
/// as full at capacity, otherwise appended at the tail.
pub open spec fn spec_submit(q: QueueModel, payload: Seq<u8>) -> (QueueModel, Result<
    (),
    InputError,
>) {
    if q.closed {
        (q, Err(InputError::Closed))
    } else if q.items.len() >= q.capacity {
        (q, Err(InputError::Full))
    } else {
        (QueueModel { items: q.items.push(payload), ..q }, Ok(()))
    }
}

/// The queue and result after one take: the oldest payload leaves first.
pub open spec fn spec_pop(q: QueueModel) -> (QueueModel, Option<Seq<u8>>) {
    if q.items.len() == 0 {
        (q, None)
    } else {
        (QueueModel { items: q.items.drop_first(), ..q }, Some(q.items[0]))
    }
}

/// The queue after the consuming side terminates: closed, with the pending
/// payloads abandoned.
pub open spec fn spec_close(q: QueueModel) -> QueueModel {
    QueueModel { items: Seq::<Seq<u8>>::empty(), closed: true, capacity: q.capacity }
}

/// A bounded FIFO queue of byte payloads.
pub struct InputQueue {
    items: Vec<Vec<u8>>,
    capacity: usize,
    closed: bool,
}

impl View for InputQueue {
    type V = QueueModel;

    closed spec fn view(&self) -> QueueModel {
        QueueModel {
            items: self.items.deep_view(),
            capacity: self.capacity as nat,
            closed: self.closed,
        }
    }
}

impl InputQueue {
    /// An open, empty queue of the given capacity.
    pub fn new(capacity: usize) -> (r: Self)
        ensures
            r@ == (QueueModel {
                items: Seq::<Seq<u8>>::empty(),
                capacity: capacity as nat,
                closed: false,
            }),
            queue_wf(r@),
    {
        let r = InputQueue { items: Vec::new(), capacity, closed: false };
        proof {
            assert(r@.items =~~= Seq::<Seq<u8>>::empty());
        }
        r
    }

    /// Submits one payload; refused when the queue is closed or full, in
    /// which case the queue is unchanged.
    pub fn submit(&mut self, payload: Vec<u8>) -> (r: Result<(), InputError>)
        requires
            queue_wf(old(self)@),
        ensures
            (final(self)@, r) == spec_submit(old(self)@, payload@),
            queue_wf(final(self)@),
    {
        if self.closed {
            Err(InputError::Closed)
        } else if self.items.len() >= self.capacity {
            Err(InputError::Full)
        } else {
            let ghost prev = self@.items;
            self.items.push(payload);
            proof {
                assert(self@.items =~~= prev.push(payload@));
            }
            Ok(())
        }
    }

    /// Takes the oldest pending payload, if any.
    pub fn pop(&mut self) -> (r: Option<Vec<u8>>)
        ensures
            final(self)@ == spec_pop(old(self)@).0,
            r matches Some(payload) ==> spec_pop(old(self)@).1 == Some(payload@),
            (r is Some <==> spec_pop(old(self)@).1 is Some),
            queue_wf(old(self)@) ==> queue_wf(final(self)@),
    {
        if self.items.len() == 0 {
            None
        } else {
            let ghost prev = self@.items;
            let payload = self.items.remove(0);
            proof {
                assert(self@.items =~~= prev.drop_first());
                assert(payload@ == prev[0]);
            }
            Some(payload)
        }
    }

    /// Closes the queue, abandoning whatever is still pending.
    pub fn close(&mut self)
        ensures
            final(self)@ == spec_close(old(self)@),
            queue_wf(final(self)@),
    {
        self.items = Vec::new();
        self.closed = true;
        proof {
            assert(self@.items =~~= Seq::<Seq<u8>>::empty());
        }
    }

    /// How many payloads are pending.
    pub fn len(&self) -> (n: usize)
        ensures
            n as nat == self@.items.len(),
    {
        self.items.len()
    }
}

/// Law: submission never grows a well-formed queue past its capacity.
pub proof fn lemma_submit_bounded(q: QueueModel, payload: Seq<u8>)
    requires
        queue_wf(q),
    ensures
        queue_wf(spec_submit(q, payload).0),
{
}

/// Law: payloads leave in the order they were submitted: after two
/// accepted submissions to an empty queue, the first taken is the first
/// submitted, then the second.
pub proof fn lemma_fifo_order(q: QueueModel, a: Seq<u8>, b: Seq<u8>)
    requires
        !q.closed,
        q.items.len() == 0,
        q.capacity >= 2,
    ensures
        ({
            let q2 = spec_submit(spec_submit(q, a).0, b).0;
            &&& spec_pop(q2).1 == Some(a)
            &&& spec_pop(spec_pop(q2).0).1 == Some(b)
        }),
{
    let q2 = spec_submit(spec_submit(q, a).0, b).0;
    assert(q2.items =~= seq![a, b]);
    assert(spec_pop(q2).0.items[0] == b);
}

/// Law: a queue already holding as many payloads as its capacity refuses
/// the next submission as full and keeps exactly the payloads it had, so
/// pending input never grows without bound.
pub proof fn lemma_backpressure(q: QueueModel, payload: Seq<u8>)
    requires
        !q.closed,
        q.items.len() == q.capacity,
    ensures
        spec_submit(q, payload) == (q, Err::<(), InputError>(InputError::Full)),
{
}

} // verus!
