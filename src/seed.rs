//! The process seed's lifecycle: fixed by its first reader, who reports it
//! before anything else runs; read-only afterwards.
use vstd::prelude::*;

verus! {

/// One query on the seed held so far: the seed held afterwards, the seed
/// returned, and whether the caller is to report it.
pub open spec fn query_spec(held: Option<u64>, candidate: u64) -> (Option<u64>, (u64, bool)) {
    match held {
        Some(s) => (Some(s), (s, false)),
        Option::None => (Some(candidate), (candidate, true)),
    }
}

/// The seed as held by the process: unset until the first query.
pub struct SeedRegistry {
    pub seed: Option<u64>,
}

impl SeedRegistry {
    /// A registry whose seed is not yet fixed.
    pub fn new() -> (r: SeedRegistry)
        ensures
            r.seed is None,
    {
        SeedRegistry { seed: Option::None }
    }

    /// Answers a query for the seed. The first query fixes `candidate` and
    /// asks the caller to report it; later queries return the fixed seed,
    /// ignore `candidate` and ask for no report.
    pub fn get_or_init(&mut self, candidate: u64) -> (r: (u64, bool))
        ensures
            (final(self).seed, r) == query_spec(old(self).seed, candidate),
    {
        match self.seed {
            Some(s) => (s, false),
            Option::None => {
                self.seed = Some(candidate);
                (candidate, true)
            },
        }
    }
}

/// Once fixed, the seed is the same on every query, whatever candidate each
/// query brings, and it is reported at most once: of two successive queries,
/// the second returns the first one's seed, asks for no report and leaves the
/// held seed as it was.
pub proof fn lemma_seed_stable(held: Option<u64>, c1: u64, c2: u64)
    ensures
        query_spec(query_spec(held, c1).0, c2).1 == (query_spec(held, c1).1.0, false),
        query_spec(query_spec(held, c1).0, c2).0 == query_spec(held, c1).0,
        query_spec(held, c1).0 == Some(query_spec(held, c1).1.0),
{
}

} // verus!
