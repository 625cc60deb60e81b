//! Counters that describe one batch request, and their element-wise sum.

use vstd::arithmetic::div_mod::{
    lemma_add_mod_noop, lemma_mod_add_multiples_vanish, lemma_small_mod,
};
use vstd::prelude::*;

verus! {

/// The four counters of a request, as mathematical numbers.
pub struct Counts {
    pub event_count: nat,
    pub events_byte_size: nat,
    pub request_encoded_size: nat,
    pub request_wire_size: nat,
}

/// Metadata for batch requests.
#[derive(Clone, Debug)]
pub struct RequestMetadata {
    /// Number of events represented by this batch request.
    event_count: usize,
    /// Size, in bytes, of the in-memory representation of all events in this batch request.
    events_byte_size: usize,
    /// Uncompressed size, in bytes, of the encoded events in this batch request.
    request_encoded_size: usize,
    /// On-the-wire size, in bytes, of the batch request itself after compression.
    request_wire_size: usize,
}

/// Element-wise sum of the first `n` records of `batch`.
pub open spec fn sum_counts(batch: Seq<RequestMetadata>, n: nat) -> Counts
    decreases n,
{
    if n == 0 || n > batch.len() {
        Counts { event_count: 0, events_byte_size: 0, request_encoded_size: 0, request_wire_size: 0 }
    } else {
        let rest = sum_counts(batch, (n - 1) as nat);
        let last = batch[n - 1]@;
        Counts {
            event_count: rest.event_count + last.event_count,
            events_byte_size: rest.events_byte_size + last.events_byte_size,
            request_encoded_size: rest.request_encoded_size + last.request_encoded_size,
            request_wire_size: rest.request_wire_size + last.request_wire_size,
        }
    }
}

/// Element-wise sum of a whole batch.
pub open spec fn total_counts(batch: Seq<RequestMetadata>) -> Counts {
    sum_counts(batch, batch.len())
}

/// Whether every counter of `counts` can be held in a `usize`.
pub open spec fn counts_fit(counts: Counts) -> bool {
    &&& counts.event_count <= usize::MAX
    &&& counts.events_byte_size <= usize::MAX
    &&& counts.request_encoded_size <= usize::MAX
    &&& counts.request_wire_size <= usize::MAX
}

/// A number as a `usize` holds it after additions that wrap around.
pub open spec fn wrapped(n: nat) -> nat {
    n % ((usize::MAX as nat) + 1)
}

/// Counters as `usize` additions that wrap around leave them.
pub open spec fn wrap_counts(counts: Counts) -> Counts {
    Counts {
        event_count: wrapped(counts.event_count),
        events_byte_size: wrapped(counts.events_byte_size),
        request_encoded_size: wrapped(counts.request_encoded_size),
        request_wire_size: wrapped(counts.request_wire_size),
    }
}

/// Counters that fit are held as they are.
pub proof fn fitting_counts_are_kept(counts: Counts)
    requires
        counts_fit(counts),
    ensures
        wrap_counts(counts) == counts,
{
    let m = (usize::MAX as nat) + 1;
    lemma_small_mod(counts.event_count, m);
    lemma_small_mod(counts.events_byte_size, m);
    lemma_small_mod(counts.request_encoded_size, m);
    lemma_small_mod(counts.request_wire_size, m);
}

/// Adding one more number to a wrapped sum, with wrap-around, gives the
/// wrapped sum of all of them.
proof fn wrapped_step(sum: nat, held: usize, more: usize, next: usize)
    requires
        held == wrapped(sum),
        next == (if held + more > usize::MAX {
            held + more - (usize::MAX + 1)
        } else {
            held + more
        }),
    ensures
        next == wrapped(sum + (more as nat)),
{
    let m = (usize::MAX as int) + 1;
    lemma_add_mod_noop(sum as int, more as int, m);
    lemma_small_mod(more as nat, m as nat);
    if held + more > usize::MAX {
        lemma_mod_add_multiples_vanish(held + more - m, m);
        lemma_small_mod((held + more - m) as nat, m as nat);
    } else {
        lemma_small_mod((held + more) as nat, m as nat);
    }
}

/// Summing a batch of one record gives that record's counters.
pub proof fn total_of_single(record: RequestMetadata)
    ensures
        total_counts(seq![record]) == record@,
{
    let batch = seq![record];
    assert(sum_counts(batch, 0).event_count == 0);
    assert(sum_counts(batch, 1) == record@);
}

/// The sum of a batch extended by one record is the sum of the batch plus
/// that record, counter by counter.
pub proof fn total_of_push(batch: Seq<RequestMetadata>, record: RequestMetadata)
    ensures
        total_counts(batch.push(record)).event_count == total_counts(batch).event_count
            + record@.event_count,
        total_counts(batch.push(record)).events_byte_size == total_counts(batch).events_byte_size
            + record@.events_byte_size,
        total_counts(batch.push(record)).request_encoded_size == total_counts(
            batch,
        ).request_encoded_size + record@.request_encoded_size,
        total_counts(batch.push(record)).request_wire_size == total_counts(batch).request_wire_size
            + record@.request_wire_size,
{
    sum_counts_ignores_tail(batch, record, batch.len());
}

/// A prefix sum does not depend on what is pushed behind the prefix.
proof fn sum_counts_ignores_tail(batch: Seq<RequestMetadata>, record: RequestMetadata, n: nat)
    requires
        n <= batch.len(),
    ensures
        sum_counts(batch.push(record), n) == sum_counts(batch, n),
    decreases n,
{
    if n > 0 {
        sum_counts_ignores_tail(batch, record, (n - 1) as nat);
    }
}

impl View for RequestMetadata {
    type V = Counts;

    closed spec fn view(&self) -> Counts {
        Counts {
            event_count: self.event_count as nat,
            events_byte_size: self.events_byte_size as nat,
            request_encoded_size: self.request_encoded_size as nat,
            request_wire_size: self.request_wire_size as nat,
        }
    }
}

impl Default for RequestMetadata {
    fn default() -> (r: Self)
        ensures
            r@ == (Counts {
                event_count: 0,
                events_byte_size: 0,
                request_encoded_size: 0,
                request_wire_size: 0,
            }),
    {
        RequestMetadata {
            event_count: 0,
            events_byte_size: 0,
            request_encoded_size: 0,
            request_wire_size: 0,
        }
    }
}

impl RequestMetadata {
    /// Every record's counters fit in a `usize`.
    pub proof fn counters_are_bounded(&self)
        ensures
            counts_fit(self@),
    {
    }

    #[must_use]
    pub fn new(
        event_count: usize,
        events_byte_size: usize,
        request_encoded_size: usize,
        request_wire_size: usize,
    ) -> (r: Self)
        ensures
            r@ == (Counts {
                event_count: event_count as nat,
                events_byte_size: events_byte_size as nat,
                request_encoded_size: request_encoded_size as nat,
                request_wire_size: request_wire_size as nat,
            }),
    {
        Self { event_count, events_byte_size, request_encoded_size, request_wire_size }
    }

    #[must_use]
    pub fn event_count(&self) -> (r: usize)
        ensures
            r == self@.event_count,
    {
        self.event_count
    }

    #[must_use]
    pub fn events_byte_size(&self) -> (r: usize)
        ensures
            r == self@.events_byte_size,
    {
        self.events_byte_size
    }

    #[must_use]
    pub fn request_encoded_size(&self) -> (r: usize)
        ensures
            r == self@.request_encoded_size,
    {
        self.request_encoded_size
    }

    #[must_use]
    pub fn request_wire_size(&self) -> (r: usize)
        ensures
            r == self@.request_wire_size,
    {
        self.request_wire_size
    }

    /// Merges a batch of records into one by adding them up counter by
    /// counter. A sum beyond `usize` wraps around.
    #[must_use]
    pub fn from_batch(metadata_vec: &Vec<RequestMetadata>) -> (r: Self)
        ensures
            r@ == wrap_counts(total_counts(metadata_vec@)),
            counts_fit(total_counts(metadata_vec@)) ==> r@ == total_counts(metadata_vec@),
    {
        let mut event_count: usize = 0;
        let mut events_byte_size: usize = 0;
        let mut request_encoded_size: usize = 0;
        let mut request_wire_size: usize = 0;
        let mut i: usize = 0;
        proof {
            lemma_small_mod(0, (usize::MAX as nat) + 1);
        }
        while i < metadata_vec.len()
            invariant
                i <= metadata_vec.len(),
                event_count == wrapped(sum_counts(metadata_vec@, i as nat).event_count),
                events_byte_size == wrapped(sum_counts(metadata_vec@, i as nat).events_byte_size),
                request_encoded_size == wrapped(
                    sum_counts(metadata_vec@, i as nat).request_encoded_size,
                ),
                request_wire_size == wrapped(sum_counts(metadata_vec@, i as nat).request_wire_size),
            decreases metadata_vec.len() - i,
        {
            let m = &metadata_vec[i];
            let ghost before = sum_counts(metadata_vec@, i as nat);
            let ghost held = (event_count, events_byte_size, request_encoded_size, request_wire_size);
            event_count = event_count.wrapping_add(m.event_count());
            events_byte_size = events_byte_size.wrapping_add(m.events_byte_size());
            request_encoded_size = request_encoded_size.wrapping_add(m.request_encoded_size());
            request_wire_size = request_wire_size.wrapping_add(m.request_wire_size());
            proof {
                wrapped_step(before.event_count, held.0, m.event_count, event_count);
                wrapped_step(before.events_byte_size, held.1, m.events_byte_size, events_byte_size);
                wrapped_step(
                    before.request_encoded_size,
                    held.2,
                    m.request_encoded_size,
                    request_encoded_size,
                );
                wrapped_step(
                    before.request_wire_size,
                    held.3,
                    m.request_wire_size,
                    request_wire_size,
                );
            }
            i += 1;
        }
        proof {
            if counts_fit(total_counts(metadata_vec@)) {
                fitting_counts_are_kept(total_counts(metadata_vec@));
            }
        }
        Self { event_count, events_byte_size, request_encoded_size, request_wire_size }
    }
}

/// Objects implementing this trait have metadata that describes the request.
pub trait MetaDescriptive {
    /// Returns the `RequestMetadata` associated with this object.
    fn get_metadata(&self) -> &RequestMetadata;
}

} // verus!
