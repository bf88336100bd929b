//! Options and results for parallel batch processing.
//!
//! The fan-out itself — thread pools and work stealing — happens in the
//! embedding process; what is modelled here is the configuration, the
//! partition of per-item outcomes into successes and errors, and the
//! recovery of input order from indexed results.

use vstd::prelude::*;
use vstd::seq_lib::lemma_multiset_commutative;

verus! {

/// Options for parallel processing.
#[derive(Clone, Copy, Debug, PartialEq, Eq, Structural)]
pub struct ParallelOptions {
    /// Number of threads; zero means one per detected CPU.
    pub num_threads: usize,
    /// Chunk size for memory-controlled processing; zero processes all at
    /// once.
    pub chunk_size: usize,
    /// Whether to continue past per-item errors.
    pub continue_on_error: bool,
}

impl Default for ParallelOptions {
    /// Auto-detected threads, no chunking, errors tolerated.
    fn default() -> (o: ParallelOptions)
        ensures
            o.num_threads == 0,
            o.chunk_size == 0,
            o.continue_on_error,
    {
        ParallelOptions { num_threads: 0, chunk_size: 0, continue_on_error: true }
    }
}

impl ParallelOptions {
    /// Options with a specific thread count.
    pub fn with_threads(num_threads: usize) -> (o: ParallelOptions)
        ensures
            o.num_threads == num_threads,
            o.chunk_size == 0,
            o.continue_on_error,
    {
        ParallelOptions { num_threads, chunk_size: 0, continue_on_error: true }
    }

    /// Options with chunked processing for memory control.
    pub fn with_chunks(chunk_size: usize) -> (o: ParallelOptions)
        ensures
            o.num_threads == 0,
            o.chunk_size == chunk_size,
            o.continue_on_error,
    {
        ParallelOptions { num_threads: 0, chunk_size, continue_on_error: true }
    }

    /// The thread count actually used: the configured one, or one per
    /// detected CPU when left at zero.
    pub fn effective_threads(&self) -> (n: usize)
        ensures
            self.num_threads != 0 ==> n == self.num_threads,
            self.num_threads == 0 ==> n >= 1,
    {
        if self.num_threads == 0 {
            cpu_count()
        } else {
            self.num_threads
        }
    }
}

/// Relies on `num_cpus::get`: the number of logical CPUs available to this
/// process, documented to be at least one.  The value depends on the
/// machine, so nothing more is promised.
#[verifier::external_body]
fn cpu_count() -> (n: usize)
    ensures
        n >= 1,
{
    num_cpus::get()
}

/// Error type for parallel processing operations.
#[derive(Debug)]
pub enum ParallelError {
    /// Thread pool creation failed.
    ThreadPoolError(String),
    /// Processing failed for one input, identified by its index.
    ProcessingError { index: usize, message: String },
    /// Every task failed; carries how many.
    AllTasksFailed(usize),
}

impl Clone for ParallelError {
    /// An exact copy.
    fn clone(&self) -> (res: Self)
        ensures
            res == *self,
    {
        match self {
            ParallelError::ThreadPoolError(m) => ParallelError::ThreadPoolError(m.clone()),
            ParallelError::ProcessingError { index, message } => ParallelError::ProcessingError {
                index: *index,
                message: message.clone(),
            },
            ParallelError::AllTasksFailed(n) => ParallelError::AllTasksFailed(*n),
        }
    }
}

/// Result of processing a batch of inputs in parallel: successes and
/// errors, each tagged with the input's original index.
#[derive(Debug)]
pub struct ParallelResult<T> {
    /// Successful results with their original indices.
    pub results: Vec<(usize, T)>,
    /// Errors with their indices and messages.
    pub errors: Vec<(usize, String)>,
    /// Number of items processed.
    pub processed_count: usize,
}

/// The successes among indexed outcomes, in arrival order.
pub open spec fn successes_of<T>(s: Seq<(usize, Result<T, String>)>) -> Seq<(usize, T)>
    decreases s.len(),
{
    if s.len() == 0 {
        Seq::empty()
    } else {
        successes_of(s.drop_last()) + if s.last().1 is Ok {
            seq![(s.last().0, s.last().1->Ok_0)]
        } else {
            Seq::empty()
        }
    }
}

/// The errors among indexed outcomes, in arrival order.
pub open spec fn errors_of<T>(s: Seq<(usize, Result<T, String>)>) -> Seq<(usize, String)>
    decreases s.len(),
{
    if s.len() == 0 {
        Seq::empty()
    } else {
        errors_of(s.drop_last()) + if s.last().1 is Err {
            seq![(s.last().0, s.last().1->Err_0)]
        } else {
            Seq::empty()
        }
    }
}

/// Indices are in ascending order.
pub open spec fn keys_sorted<T>(s: Seq<(usize, T)>) -> bool {
    forall|a: int, b: int| 0 <= a < b < s.len() ==> (#[trigger] s[a]).0 <= (#[trigger] s[b]).0
}

impl<T> ParallelResult<T> {
    /// Partition per-item outcomes into a result: successes and errors in
    /// arrival order, the processed count their sum.
    pub fn collect(outcomes: Vec<(usize, Result<T, String>)>) -> (r: ParallelResult<T>)
        ensures
            r.results@ == successes_of(outcomes@),
            r.errors@ == errors_of(outcomes@),
            r.processed_count == outcomes@.len(),
    {
        let total = outcomes.len();
        let mut results: Vec<(usize, T)> = Vec::new();
        let mut errors: Vec<(usize, String)> = Vec::new();
        let mut rest = outcomes;
        let ghost all = rest@;
        let mut i: usize = 0;
        while rest.len() > 0
            invariant
                rest@ == all.skip(i as int),
                all.len() == total,
                0 <= i <= all.len(),
                i + rest@.len() == all.len(),
                results@ == successes_of(all.take(i as int)),
                errors@ == errors_of(all.take(i as int)),
            decreases rest@.len(),
        {
            proof {
                assert(all.take(i + 1).drop_last() =~= all.take(i as int));
                assert(all.take(i + 1).last() == all[i as int]);
                assert(all.skip(i as int)[0] == all[i as int]);
            }
            let (idx, outcome) = rest.remove(0);
            match outcome {
                Ok(value) => {
                    results.push((idx, value));
                    proof {
                        assert(results@ =~= successes_of(all.take(i as int)) + seq![
                            (all[i as int].0, all[i as int].1->Ok_0)]);
                        assert(errors_of(all.take(i + 1)) =~= errors_of(all.take(i as int)));
                    }
                },
                Err(message) => {
                    errors.push((idx, message));
                    proof {
                        assert(errors@ =~= errors_of(all.take(i as int)) + seq![
                            (all[i as int].0, all[i as int].1->Err_0)]);
                        assert(successes_of(all.take(i + 1)) =~= successes_of(all.take(
                            i as int,
                        )));
                    }
                },
            }
            proof {
                assert(rest@ =~= all.skip(i + 1));
            }
            i += 1;
        }
        proof {
            assert(all.take(all.len() as int) =~= all);
        }
        ParallelResult { results, errors, processed_count: total }
    }

    /// Whether every item was processed successfully.
    pub fn is_success(&self) -> (b: bool)
        ensures
            b == (self.errors@.len() == 0),
    {
        self.errors.len() == 0
    }

    /// The successful values sorted by original input index, recovering
    /// submission order from an arbitrary completion order.
    pub fn ordered_results(self) -> (r: Vec<T>)
        ensures
            r@.len() == self.results@.len(),
            exists|s: Seq<(usize, T)>|
                {
                    &&& keys_sorted(s)
                    &&& s.to_multiset() == self.results@.to_multiset()
                    &&& r@ == s.map_values(|p: (usize, T)| p.1)
                },
    {
        let mut v = self.results;
        let ghost orig = v@;
        let n = v.len();

        // Insertion sort by index.
        let mut i: usize = 1;
        while 1 < n && i < n
            invariant
                v@.len() == n,
                v@.len() == orig.len(),
                1 <= i <= n || (n <= 1 && i == 1),
                1 < n ==> keys_sorted(v@.take(i as int)),
                v@.to_multiset() == orig.to_multiset(),
            decreases n - i,
        {
            let ghost before = v@;
            let x = v.remove(i);
            let mut p: usize = 0;
            while p < i && v[p].0 <= x.0
                invariant
                    0 <= p <= i < before.len(),
                    v@ == before.remove(i as int),
                    keys_sorted(before.take(i as int)),
                    forall|k: int| 0 <= k < p ==> (#[trigger] v@[k]).0 <= x.0,
                decreases i - p,
            {
                p += 1;
            }
            v.insert(p, x);
            proof {
                broadcast use vstd::seq_lib::group_to_multiset_ensures;

                let removed = before.remove(i as int);
                lemma_insert_to_multiset(removed, p as int, x);
                assert(v@.to_multiset() =~= before.to_multiset());
                assert forall|a: int, b: int| 0 <= a < b < i + 1 implies (#[trigger] v@[a]).0
                    <= (#[trigger] v@[b]).0 by {
                    if b < p {
                        assert(before.take(i as int)[a] == removed[a]);
                        assert(before.take(i as int)[b] == removed[b]);
                    } else if b == p {
                        assert(v@[b] == x);
                        if a < p {
                            assert(removed[a].0 <= x.0);
                        }
                    } else {
                        assert(v@[b] == removed[b - 1]);
                        if p < i {
                            assert(removed[p as int].0 > x.0);
                        }
                        if a < p {
                            assert(v@[a] == removed[a]);
                            assert(before.take(i as int)[a] == removed[a]);
                            assert(before.take(i as int)[b - 1] == removed[b - 1]);
                        } else if a == p {
                            assert(v@[a] == x);
                            assert(removed[b - 1].0 >= removed[p as int].0) by {
                                if p < b - 1 {
                                    assert(before.take(i as int)[p as int] == removed[p as int]);
                                    assert(before.take(i as int)[b - 1] == removed[b - 1]);
                                }
                            }
                        } else {
                            assert(v@[a] == removed[a - 1]);
                            if a - 1 < b - 1 {
                                assert(before.take(i as int)[a - 1] == removed[a - 1]);
                                assert(before.take(i as int)[b - 1] == removed[b - 1]);
                            }
                        }
                    }
                }
                assert(keys_sorted(v@.take(i + 1)));
            }
            i += 1;
        }
        proof {
            assert(v@.take(v@.len() as int) =~= v@);
            assert(keys_sorted(v@));
        }

        // Strip the indices, in order.
        let ghost sorted = v@;
        let mut r: Vec<T> = Vec::new();
        let mut k: usize = 0;
        while v.len() > 0
            invariant
                v@ == sorted.skip(k as int),
                sorted.len() == n,
                0 <= k <= sorted.len(),
                k + v@.len() == sorted.len(),
                r@ == sorted.take(k as int).map_values(|p: (usize, T)| p.1),
            decreases v@.len(),
        {
            proof {
                assert(sorted.skip(k as int)[0] == sorted[k as int]);
            }
            let (_, value) = v.remove(0);
            r.push(value);
            proof {
                assert(v@ =~= sorted.skip(k + 1));
                assert(r@ =~= sorted.take(k + 1).map_values(|p: (usize, T)| p.1));
            }
            k += 1;
        }
        proof {
            assert(sorted.take(sorted.len() as int) =~= sorted);
            assert(r@ == sorted.map_values(|p: (usize, T)| p.1));
        }
        r
    }
}

/// Inserting an element adds exactly it to the sequence's multiset.
proof fn lemma_insert_to_multiset<T>(s: Seq<T>, p: int, x: T)
    requires
        0 <= p <= s.len(),
    ensures
        s.insert(p, x).to_multiset() == s.to_multiset().insert(x),
{
    broadcast use vstd::seq_lib::group_to_multiset_ensures;

    assert(s.insert(p, x) =~= s.take(p).push(x) + s.skip(p));
    assert(s =~= s.take(p) + s.skip(p));
    lemma_multiset_commutative(s.take(p).push(x), s.skip(p));
    lemma_multiset_commutative(s.take(p), s.skip(p));
    assert(s.take(p).push(x).to_multiset() =~= s.take(p).to_multiset().insert(x));
    assert(s.insert(p, x).to_multiset() =~= s.to_multiset().insert(x));
}

/// The bounds of each chunk of `total` items under `chunk_size`-sized
/// chunking: half-open, consecutive, covering everything.  A zero chunk
/// size yields the whole range at once.
pub fn chunk_bounds(total: usize, chunk_size: usize) -> (r: Vec<(usize, usize)>)
    ensures
        total == 0 ==> r@.len() == 0,
        total > 0 && chunk_size == 0 ==> r@ =~= seq![(0usize, total)],
        r@.len() > 0 ==> r@[0].0 == 0 && r@[r@.len() - 1].1 == total,
        forall|k: int| 0 <= k < r@.len() ==> (#[trigger] r@[k]).0 < r@[k].1 <= total,
        forall|k: int| 0 <= k < r@.len() - 1 ==> (#[trigger] r@[k]).1 == r@[k + 1].0,
    {
    let mut r: Vec<(usize, usize)> = Vec::new();
    if total == 0 {
        return r;
    }
    if chunk_size == 0 {
        r.push((0, total));
        return r;
    }
    let mut start: usize = 0;
    while start < total
        invariant
            0 <= start <= total,
            chunk_size > 0,
            r@.len() > 0 ==> r@[0].0 == 0 && r@[r@.len() - 1].1 == start,
            start == 0 ==> r@.len() == 0,
            start > 0 ==> r@.len() > 0,
            forall|k: int| 0 <= k < r@.len() ==> (#[trigger] r@[k]).0 < r@[k].1 <= total,
            forall|k: int| 0 <= k < r@.len() - 1 ==> (#[trigger] r@[k]).1 == r@[k + 1].0,
        decreases total - start,
    {
        let end = if total - start < chunk_size {
            total
        } else {
            start + chunk_size
        };
        r.push((start, end));
        start = end;
    }
    r
}

} // verus!
