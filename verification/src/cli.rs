//! The configuration surface the core consumes: input root, destination
//! root and concurrency budget, resolved and validated by the host
//! program before the core sees them.

use vstd::prelude::*;

verus! {

/// A run's configuration, with paths as plain strings.
pub struct Cli {
    /// Folder containing the input files.
    pub src: String,
    /// Folder the partitioned output is written under.
    pub dst: String,
    /// Concurrency budget: how many files may be processed at once.
    pub threads: usize,
}

impl Cli {
    /// The concurrency budget is positive.
    pub open spec fn wf(self) -> bool {
        1 <= self.threads
    }

    pub fn new(src: String, dst: String, threads: usize) -> (c: Cli)
        requires
            1 <= threads,
        ensures
            c.wf(),
            c.src == src,
            c.dst == dst,
            c.threads == threads,
    {
        Cli { src, dst, threads }
    }
}

impl Default for Cli {
    /// Empty paths and the default budget of ten concurrent files.
    fn default() -> (c: Self)
        ensures
            c.wf(),
            c.src@ == Seq::<char>::empty(),
            c.dst@ == Seq::<char>::empty(),
            c.threads == 10,
    {
        Cli { src: String::new(), dst: String::new(), threads: 10 }
    }
}

} // verus!
