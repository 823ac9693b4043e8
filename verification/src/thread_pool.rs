//! Sizing of the worker pool and per-worker contexts.
//!
//! Running work on the pool's threads happens outside the library.
use vstd::prelude::*;
use crate::config::cpu_count;

verus! {

/// The number of worker threads for a requested size on a machine with
/// `cpus` logical CPUs: the size itself, or every CPU for 0.
pub fn pool_size_for(size: usize, cpus: usize) -> (n: usize)
    ensures
        size > 0 ==> n == size,
        size == 0 ==> n == cpus,
{
    if size > 0 {
        size
    } else {
        cpus
    }
}

/// The number of worker threads for a requested size: the size itself, or
/// the number of logical CPUs of this machine (at least one) for 0, as
/// `pool_size_for` gives it for the count the machine reports.
pub fn pool_size(size: usize) -> (n: usize)
    ensures
        size > 0 ==> n == size,
        n >= 1,
{
    if size > 0 {
        size
    } else {
        pool_size_for(size, cpu_count())
    }
}

/// One context per worker thread.
pub struct ThreadLocalContext<T> {
    contexts: Vec<T>,
}

impl<T> ThreadLocalContext<T> {
    /// The contexts, one per thread.
    pub closed spec fn contexts(&self) -> Seq<T> {
        self.contexts@
    }

    /// The context of thread `thread_id`; threads beyond the count share
    /// contexts round-robin.
    pub fn get(&self, thread_id: usize) -> (c: &T)
        requires
            self.contexts().len() > 0,
        ensures
            *c == self.contexts()[(thread_id as int) % (self.contexts().len() as int)],
    {
        &self.contexts[thread_id % self.contexts.len()]
    }

    /// The number of contexts.
    pub fn len(&self) -> (n: usize)
        ensures
            n == self.contexts().len(),
    {
        self.contexts.len()
    }
}

/// Contexts for `num_threads` threads, each made by its own call of
/// `create_context`.
pub fn with_thread_local_context<T, F: Fn() -> T>(num_threads: usize, create_context: F) -> (ctx: ThreadLocalContext<T>)
    requires
        call_requires(create_context, ()),
        forall|t: T| call_ensures(create_context, (), t) ==> call_requires(create_context, ()),
    ensures
        ctx.contexts().len() == num_threads,
        forall|i: int| 0 <= i < num_threads ==> call_ensures(create_context, (), #[trigger] ctx.contexts()[i]),
{
    let mut contexts: Vec<T> = Vec::new();
    let mut i: usize = 0;
    while i < num_threads
        invariant
            i <= num_threads,
            contexts@.len() == i,
            call_requires(create_context, ()),
            forall|j: int| 0 <= j < i ==> call_ensures(create_context, (), #[trigger] contexts@[j]),
        decreases num_threads - i,
    {
        let c = create_context();
        contexts.push(c);
        i = i + 1;
    }
    ThreadLocalContext { contexts }
}

} // verus!
