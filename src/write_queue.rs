//! Serialised input for one child process.
//!
//! Every chunk of input that a session forwards goes through a `WriteQueue`.
//! The queue lets at most one write be outstanding at a time and hands out
//! the next one only when the previous write has completed, so the bytes that
//! reach the process's input pipe are exactly the submitted chunks, in the
//! order in which they were submitted.
use vstd::prelude::*;

verus! {

/// The mathematical state of a write queue.
pub struct QueueModel {
    /// Whether writes may be issued yet (the process exists).
    pub open: bool,
    /// The write that was handed out and has not completed.
    pub in_flight: Option<Seq<char>>,
    /// Chunks waiting for their turn, oldest first.
    pub pending: Seq<Seq<char>>,
}

/// One operation on a write queue.
pub enum QueueOp {
    Submit(Seq<char>),
    Complete,
    Open,
}

pub open spec fn empty_queue(open: bool) -> QueueModel {
    QueueModel { open, in_flight: None, pending: seq![] }
}

/// A queue only waits while a write is outstanding or while it is closed.
pub open spec fn queue_wf(m: QueueModel) -> bool {
    m.open && m.in_flight is None ==> m.pending.len() == 0
}

/// Submitting a chunk: it is issued at once when the queue is open and idle,
/// and otherwise waits behind the chunks already there.
pub open spec fn submit_spec(m: QueueModel, x: Seq<char>) -> (QueueModel, Option<Seq<char>>) {
    if m.open && m.in_flight is None && m.pending.len() == 0 {
        (QueueModel { in_flight: Some(x), ..m }, Some(x))
    } else {
        (QueueModel { pending: m.pending.push(x), ..m }, None)
    }
}

/// Issuing the oldest waiting chunk, if the queue is open and idle.
pub open spec fn advance_spec(m: QueueModel) -> (QueueModel, Option<Seq<char>>) {
    if m.open && m.in_flight is None && m.pending.len() > 0 {
        (
            QueueModel { in_flight: Some(m.pending[0]), pending: m.pending.drop_first(), ..m },
            Some(m.pending[0]),
        )
    } else {
        (m, None)
    }
}

/// The outstanding write completed: the next waiting chunk, if any, is issued.
pub open spec fn complete_spec(m: QueueModel) -> (QueueModel, Option<Seq<char>>) {
    advance_spec(QueueModel { in_flight: None, ..m })
}

/// The queue is opened: the oldest waiting chunk, if any, is issued.
pub open spec fn open_spec(m: QueueModel) -> (QueueModel, Option<Seq<char>>) {
    advance_spec(QueueModel { open: true, ..m })
}

pub open spec fn apply_op(m: QueueModel, op: QueueOp) -> (QueueModel, Option<Seq<char>>) {
    match op {
        QueueOp::Submit(x) => submit_spec(m, x),
        QueueOp::Complete => complete_spec(m),
        QueueOp::Open => open_spec(m),
    }
}

/// The chunks that a sequence of operations submits, in order.
pub open spec fn submitted(ops: Seq<QueueOp>) -> Seq<Seq<char>>
    decreases ops.len(),
{
    if ops.len() == 0 {
        seq![]
    } else {
        let prev = submitted(ops.drop_last());
        match ops.last() {
            QueueOp::Submit(x) => prev.push(x),
            _ => prev,
        }
    }
}

/// Runs a sequence of operations from `m`: the final state and the writes
/// that were issued, in order.
pub open spec fn run_ops(m: QueueModel, ops: Seq<QueueOp>) -> (QueueModel, Seq<Seq<char>>)
    decreases ops.len(),
{
    if ops.len() == 0 {
        (m, seq![])
    } else {
        let (m1, issued) = run_ops(m, ops.drop_last());
        let (m2, w) = apply_op(m1, ops.last());
        match w {
            Some(x) => (m2, issued.push(x)),
            None => (m2, issued),
        }
    }
}

/// All the characters of a sequence of chunks, one chunk after another.
pub open spec fn flatten(chunks: Seq<Seq<char>>) -> Seq<char>
    decreases chunks.len(),
{
    if chunks.len() == 0 {
        seq![]
    } else {
        flatten(chunks.drop_last()) + chunks.last()
    }
}

proof fn lemma_flatten_append(a: Seq<Seq<char>>, b: Seq<Seq<char>>)
    ensures
        flatten(a + b) == flatten(a) + flatten(b),
    decreases b.len(),
{
    if b.len() == 0 {
        assert(a + b =~= a);
        assert(flatten(b) =~= seq![]);
        assert(flatten(a) + flatten(b) =~= flatten(a));
    } else {
        lemma_flatten_append(a, b.drop_last());
        assert((a + b).drop_last() =~= a + b.drop_last());
        assert((a + b).last() == b.last());
        assert(flatten(a) + flatten(b.drop_last()) + b.last() =~= flatten(a) + (flatten(
            b.drop_last(),
        ) + b.last()));
    }
}

proof fn lemma_run_keeps_order(ops: Seq<QueueOp>, open: bool)
    ensures
        run_ops(empty_queue(open), ops).1 + run_ops(empty_queue(open), ops).0.pending
            == submitted(ops),
        queue_wf(run_ops(empty_queue(open), ops).0),
        run_ops(empty_queue(open), ops).0.in_flight is Some ==> run_ops(
            empty_queue(open),
            ops,
        ).1.len() > 0 && run_ops(empty_queue(open), ops).0.in_flight == Some(
            run_ops(empty_queue(open), ops).1.last(),
        ),
    decreases ops.len(),
{
    if ops.len() == 0 {
        assert(seq![] + empty_queue(open).pending =~= seq![]);
    } else {
        let prev = ops.drop_last();
        lemma_run_keeps_order(prev, open);
        let (m1, issued) = run_ops(empty_queue(open), prev);
        let p = m1.pending;
        match ops.last() {
            QueueOp::Submit(x) => {
                if m1.open && m1.in_flight is None && p.len() == 0 {
                    assert(issued.push(x) + seq![] =~= (issued + p).push(x));
                } else {
                    assert(issued + p.push(x) =~= (issued + p).push(x));
                }
            },
            _ => {
                let m0 = match ops.last() {
                    QueueOp::Open => QueueModel { open: true, ..m1 },
                    _ => QueueModel { in_flight: None, ..m1 },
                };
                if m0.open && m0.in_flight is None && p.len() > 0 {
                    assert(issued.push(p[0]) + p.drop_first() =~= issued + p);
                }
            },
        }
    }
}

/// Writes are never interleaved or reordered: over any sequence of
/// operations on a fresh queue, the writes issued so far followed by the
/// chunks still waiting are exactly the submitted chunks, and once nothing is
/// outstanding or waiting, the characters written are the concatenation of
/// everything submitted, in submission order.
pub proof fn lemma_writes_in_order(ops: Seq<QueueOp>, open: bool)
    ensures
        run_ops(empty_queue(open), ops).1 + run_ops(empty_queue(open), ops).0.pending
            == submitted(ops),
        flatten(run_ops(empty_queue(open), ops).1) + flatten(
            run_ops(empty_queue(open), ops).0.pending,
        ) == flatten(submitted(ops)),
        run_ops(empty_queue(open), ops).0.pending.len() == 0 ==> flatten(
            run_ops(empty_queue(open), ops).1,
        ) == flatten(submitted(ops)),
{
    lemma_run_keeps_order(ops, open);
    let (m, issued) = run_ops(empty_queue(open), ops);
    lemma_flatten_append(issued, m.pending);
    if m.pending.len() == 0 {
        assert(issued + m.pending =~= issued);
    }
}

/// A FIFO of input chunks with at most one write outstanding.
pub struct WriteQueue {
    open: bool,
    in_flight: Option<String>,
    pending: Vec<String>,
}

pub open spec fn opt_str_view(o: Option<String>) -> Option<Seq<char>> {
    match o {
        Some(s) => Some(s@),
        None => None,
    }
}

impl View for WriteQueue {
    type V = QueueModel;

    closed spec fn view(&self) -> QueueModel {
        QueueModel {
            open: self.open,
            in_flight: opt_str_view(self.in_flight),
            pending: self.pending@.map_values(|s: String| s@),
        }
    }
}

impl WriteQueue {
    /// An empty queue; a closed one holds its chunks until `open` is called.
    pub fn new(open: bool) -> (q: WriteQueue)
        ensures
            q@ == empty_queue(open),
    {
        let q = WriteQueue { open, in_flight: None, pending: Vec::new() };
        assert(q@.pending =~= seq![]);
        q
    }

    /// Whether a write is outstanding.
    pub fn is_busy(&self) -> (r: bool)
        ensures
            r == (self@.in_flight is Some),
    {
        self.in_flight.is_some()
    }

    /// Number of chunks waiting behind the outstanding write.
    pub fn waiting(&self) -> (r: usize)
        ensures
            r == self@.pending.len(),
    {
        self.pending.len()
    }

    /// Adds a chunk; returns it when it is to be written now.
    pub fn submit(&mut self, x: String) -> (r: Option<String>)
        ensures
            (final(self)@, opt_str_view(r)) == submit_spec(old(self)@, x@),
    {
        if self.open && self.in_flight.is_none() && self.pending.len() == 0 {
            self.in_flight = Some(x.clone());
            Some(x)
        } else {
            self.pending.push(x);
            assert(self@.pending =~= old(self)@.pending.push(x@));
            None
        }
    }

    fn advance(&mut self) -> (r: Option<String>)
        ensures
            (final(self)@, opt_str_view(r)) == advance_spec(old(self)@),
    {
        if self.open && self.in_flight.is_none() && self.pending.len() > 0 {
            let x = self.pending.remove(0);
            assert(self@.pending =~= old(self)@.pending.drop_first());
            self.in_flight = Some(x.clone());
            Some(x)
        } else {
            None
        }
    }

    /// Records that the outstanding write finished; returns the next chunk to
    /// write, if one is waiting.
    pub fn complete(&mut self) -> (r: Option<String>)
        ensures
            (final(self)@, opt_str_view(r)) == complete_spec(old(self)@),
    {
        self.in_flight = None;
        self.advance()
    }

    /// Lets writes be issued; returns the first chunk to write, if one is
    /// waiting.
    pub fn open(&mut self) -> (r: Option<String>)
        ensures
            (final(self)@, opt_str_view(r)) == open_spec(old(self)@),
    {
        self.open = true;
        self.advance()
    }
}

} // verus!
