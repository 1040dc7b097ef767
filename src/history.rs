//! Fixed-capacity metric history that drops its oldest sample once full.
use vstd::prelude::*;

use circular_buffer::CircularBuffer;

verus! {

/// Number of samples each metric history retains.
pub const HISTORY_LEN: usize = 5000;

/// Declares `circular_buffer::CircularBuffer`, a fixed-capacity ring buffer
/// that overwrites its front when full; its contents are `buffer_contents`.
#[verifier::external_type_specification]
#[verifier::external_body]
#[verifier::reject_recursive_types(T)]
pub struct ExCircularBuffer<const N: usize, T>(CircularBuffer<N, T>);

/// The samples a buffer holds, front (oldest) first.
pub uninterp spec fn buffer_contents(b: CircularBuffer<HISTORY_LEN, u64>) -> Seq<u64>;

/// What a history holds after one push: the value is appended, and the
/// front is dropped when the history was already full.
pub open spec fn pushed(s: Seq<u64>, v: u64) -> Seq<u64> {
    if s.len() < HISTORY_LEN {
        s.push(v)
    } else {
        s.drop_first().push(v)
    }
}

/// Relies on `CircularBuffer::new`: the buffer starts empty.
#[verifier::external_body]
fn buffer_new() -> (r: CircularBuffer<HISTORY_LEN, u64>)
    ensures
        buffer_contents(r) == Seq::<u64>::empty(),
{
    CircularBuffer::new()
}

/// Relies on `CircularBuffer::push_back`: appends at the back and, when the
/// buffer holds `N` items, drops the front one.
#[verifier::external_body]
fn buffer_push_back(b: &mut CircularBuffer<HISTORY_LEN, u64>, v: u64)
    ensures
        buffer_contents(*final(b)) == pushed(buffer_contents(*old(b)), v),
{
    b.push_back(v)
}

/// Relies on `CircularBuffer::len`: the number of items held.
#[verifier::external_body]
fn buffer_len(b: &CircularBuffer<HISTORY_LEN, u64>) -> (r: usize)
    ensures
        r == buffer_contents(*b).len(),
{
    b.len()
}

/// Relies on `CircularBuffer::to_vec`: the items front to back.
#[verifier::external_body]
fn buffer_to_vec(b: &CircularBuffer<HISTORY_LEN, u64>) -> (r: Vec<u64>)
    ensures
        r@ == buffer_contents(*b),
{
    b.to_vec()
}

/// Bounded history of one metric, oldest sample at index 0.
pub struct MetricHistory {
    buf: CircularBuffer<HISTORY_LEN, u64>,
}

impl View for MetricHistory {
    type V = Seq<u64>;

    closed spec fn view(&self) -> Seq<u64> {
        buffer_contents(self.buf)
    }
}

impl MetricHistory {
    /// The history never holds more than its capacity.
    pub open spec fn wf(&self) -> bool {
        self@.len() <= HISTORY_LEN
    }

    pub fn new() -> (r: Self)
        ensures
            r.wf(),
            r@ == Seq::<u64>::empty(),
    {
        MetricHistory { buf: buffer_new() }
    }

    /// Appends a sample, evicting the oldest one when full.
    pub fn push(&mut self, v: u64)
        requires
            old(self).wf(),
        ensures
            final(self).wf(),
            final(self)@ == pushed(old(self)@, v),
    {
        buffer_push_back(&mut self.buf, v);
    }

    pub fn len(&self) -> (r: usize)
        ensures
            r == self@.len(),
    {
        buffer_len(&self.buf)
    }

    pub fn capacity(&self) -> (r: usize)
        ensures
            r == HISTORY_LEN,
    {
        HISTORY_LEN
    }

    /// The retained samples, oldest first.
    pub fn values(&self) -> (r: Vec<u64>)
        ensures
            r@ == self@,
    {
        buffer_to_vec(&self.buf)
    }
}

/// The history reached by pushing `vals` in order onto `s`.
pub open spec fn pushed_all(s: Seq<u64>, vals: Seq<u64>) -> Seq<u64>
    decreases vals.len(),
{
    if vals.len() == 0 {
        s
    } else {
        pushed(pushed_all(s, vals.drop_last()), vals.last())
    }
}

/// After any number of pushes onto an empty history, it holds exactly the
/// last `min(n, capacity)` values pushed, in push order.
pub proof fn lemma_history_keeps_last(vals: Seq<u64>)
    ensures
        pushed_all(Seq::empty(), vals).len() == if vals.len() < HISTORY_LEN {
            vals.len() as int
        } else {
            HISTORY_LEN as int
        },
        pushed_all(Seq::empty(), vals) == vals.subrange(
            if vals.len() < HISTORY_LEN { 0 } else { vals.len() - HISTORY_LEN },
            vals.len() as int,
        ),
    decreases vals.len(),
{
    let n = vals.len() as int;
    if n > 0 {
        lemma_history_keeps_last(vals.drop_last());
        let prev = pushed_all(Seq::empty(), vals.drop_last());
        if n - 1 < HISTORY_LEN {
            assert(prev.push(vals.last()) =~= vals.subrange(0, n));
        } else {
            assert(prev.drop_first().push(vals.last()) =~= vals.subrange(n - HISTORY_LEN, n));
        }
    } else {
        assert(vals.subrange(0, 0) =~= Seq::<u64>::empty());
    }
}

} // verus!
