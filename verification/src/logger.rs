//! The log store: a bounded ring of the most recent log lines, newest
//! first, kept as state of the logger component.
//!
//! The ring itself comes from the `circular-buffer` crate; what it holds is
//! named by `ring_entries`, and every method the store calls is declared
//! with the contract the crate's source shows.

use vstd::prelude::*;

use circular_buffer::CircularBuffer;

verus! {

/// How many log lines the store keeps.
pub const LOG_CAPACITY: usize = 25;

#[verifier::external_type_specification]
#[verifier::external_body]
#[verifier::reject_recursive_types(T)]
pub struct ExCircularBuffer<const N: usize, T>(CircularBuffer<N, T>);

/// What the ring holds, front to back.
pub uninterp spec fn ring_entries(b: CircularBuffer<LOG_CAPACITY, String>) -> Seq<Seq<char>>;

/// Relies on `CircularBuffer::new`: an empty buffer.
#[verifier::external_body]
fn ring_new() -> (r: CircularBuffer<LOG_CAPACITY, String>)
    ensures
        ring_entries(r) == Seq::<Seq<char>>::empty(),
{
    CircularBuffer::new()
}

/// Relies on `CircularBuffer::push_front`: prepends the element; when the
/// buffer is full, the back element is dropped and returned.
#[verifier::external_body]
fn ring_push_front(b: &mut CircularBuffer<LOG_CAPACITY, String>, s: String) -> (dropped: Option<String>)
    ensures
        ring_entries(*old(b)).len() < LOG_CAPACITY ==> ring_entries(*final(b)) == seq![s@] + ring_entries(
            *old(b),
        ) && dropped is None,
        ring_entries(*old(b)).len() >= LOG_CAPACITY ==> ring_entries(*final(b)) == seq![s@] + ring_entries(
            *old(b),
        ).take(LOG_CAPACITY - 1) && (dropped matches Some(d) && d@ == ring_entries(*old(b)).last()),
        ring_entries(*final(b)).len() <= LOG_CAPACITY,
{
    b.push_front(s)
}

/// Relies on `CircularBuffer::to_vec`: the elements front to back.
#[verifier::external_body]
fn ring_to_vec(b: &CircularBuffer<LOG_CAPACITY, String>) -> (r: Vec<String>)
    ensures
        r@.map_values(|s: String| s@) == ring_entries(*b),
{
    b.to_vec()
}

/// Relies on `CircularBuffer::len`: the number of elements held.
#[verifier::external_body]
fn ring_len(b: &CircularBuffer<LOG_CAPACITY, String>) -> (r: usize)
    ensures
        r == ring_entries(*b).len(),
{
    b.len()
}

/// The most recent log lines, newest first, at most `LOG_CAPACITY` of
/// them.
#[derive(Debug)]
pub struct LogStore {
    pub buf: CircularBuffer<LOG_CAPACITY, String>,
}

impl LogStore {
    /// The lines held, newest first.
    pub open spec fn entries(&self) -> Seq<Seq<char>> {
        ring_entries(self.buf)
    }

    /// An empty log store.
    pub fn new() -> (r: LogStore)
        ensures
            r.entries() == Seq::<Seq<char>>::empty(),
    {
        LogStore { buf: ring_new() }
    }

    /// Records one line at the front; once the store is full, each new
    /// line pushes the oldest one out.
    pub fn record(&mut self, line: String)
        ensures
            old(self).entries().len() < LOG_CAPACITY ==> final(self).entries() == seq![line@] + old(
                self,
            ).entries(),
            old(self).entries().len() >= LOG_CAPACITY ==> final(self).entries() == seq![line@] + old(
                self,
            ).entries().take(LOG_CAPACITY - 1),
            final(self).entries().len() <= LOG_CAPACITY,
            final(self).entries().len() > 0,
            final(self).entries()[0] == line@,
    {
        let _ = ring_push_front(&mut self.buf, line);
    }

    /// The number of lines held.
    pub fn len(&self) -> (r: usize)
        ensures
            r == self.entries().len(),
    {
        ring_len(&self.buf)
    }

    /// The lines held, newest first.
    pub fn lines(&self) -> (r: Vec<String>)
        ensures
            r@.map_values(|s: String| s@) == self.entries(),
            r@.len() == self.entries().len(),
    {
        let r = ring_to_vec(&self.buf);
        proof {
            assert(r@.len() == r@.map_values(|s: String| s@).len());
        }
        r
    }
}

} // verus!
