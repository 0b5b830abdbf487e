//! Collecting per-bearing search results.
//!
//! Bearings are independent, so a batch driver runs one search per
//! bearing and collects the results keyed by bearing index.  The batch
//! succeeds only once every bearing has succeeded; one bearing's
//! failure does not discard the others' work, but it does fail the
//! batch, and every failure is reported, none swallowed.

use vstd::prelude::*;

use crate::search::{SearchError, SearchOutcome};

verus! {

/// The successful outcomes of `rs` from index `i` on, in order.
pub open spec fn spec_successes(
    rs: Seq<Result<SearchOutcome, SearchError>>,
    i: int,
) -> Seq<SearchOutcome>
    decreases rs.len() - i,
{
    if i < 0 || i >= rs.len() {
        Seq::empty()
    } else {
        match rs[i] {
            Ok(o) => seq![o] + spec_successes(rs, i + 1),
            Err(e) => spec_successes(rs, i + 1),
        }
    }
}

/// The failures of `rs` from index `i` on, each keyed by its index.
pub open spec fn spec_failures(rs: Seq<Result<SearchOutcome, SearchError>>, i: int) -> Seq<
    (usize, SearchError),
>
    decreases rs.len() - i,
{
    if i < 0 || i >= rs.len() {
        Seq::empty()
    } else {
        match rs[i] {
            Ok(o) => spec_failures(rs, i + 1),
            Err(e) => seq![(i as usize, e)] + spec_failures(rs, i + 1),
        }
    }
}

/// The batch report: every outcome in order when no bearing failed,
/// and otherwise every failure keyed by bearing index.
pub open spec fn spec_collect_results(rs: Seq<Result<SearchOutcome, SearchError>>) -> Result<
    Seq<SearchOutcome>,
    Seq<(usize, SearchError)>,
> {
    if spec_failures(rs, 0).len() > 0 {
        Err(spec_failures(rs, 0))
    } else {
        Ok(spec_successes(rs, 0))
    }
}

/// Collects per-bearing results into one batch report: all outcomes
/// in bearing order if every bearing succeeded, else every failure
/// with its bearing index.
pub fn collect_results(results: &Vec<Result<SearchOutcome, SearchError>>) -> (r: Result<
    Vec<SearchOutcome>,
    Vec<(usize, SearchError)>,
>)
    ensures
        match spec_collect_results(results@) {
            Ok(oks) => r matches Ok(v) && v@ == oks,
            Err(fails) => r matches Err(v) && v@ == fails,
        },
{
    let n = results.len();
    let mut oks: Vec<SearchOutcome> = Vec::new();
    let mut fails: Vec<(usize, SearchError)> = Vec::new();
    let mut i: usize = 0;
    proof {
        assert(oks@ + spec_successes(results@, 0) =~= spec_successes(results@, 0));
        assert(fails@ + spec_failures(results@, 0) =~= spec_failures(results@, 0));
    }
    while i < n
        invariant
            0 <= i <= n,
            n == results@.len(),
            spec_successes(results@, 0) == oks@ + spec_successes(results@, i as int),
            spec_failures(results@, 0) == fails@ + spec_failures(results@, i as int),
        decreases n - i,
    {
        let ghost ooks = oks@;
        let ghost ofails = fails@;
        match &results[i] {
            Ok(o) => {
                oks.push(*o);
                proof {
                    assert(ooks + (seq![results@[i as int]->Ok_0] + spec_successes(
                        results@,
                        i + 1,
                    )) =~= oks@ + spec_successes(results@, i + 1));
                }
            },
            Err(e) => {
                fails.push((i, *e));
                proof {
                    assert(ofails + (seq![(i as usize, results@[i as int]->Err_0)]
                        + spec_failures(results@, i + 1)) =~= fails@ + spec_failures(
                        results@,
                        i + 1,
                    ));
                }
            },
        }
        i = i + 1;
    }
    proof {
        assert(oks@ + spec_successes(results@, n as int) =~= oks@);
        assert(fails@ + spec_failures(results@, n as int) =~= fails@);
    }
    if fails.len() > 0 {
        Err(fails)
    } else {
        Ok(oks)
    }
}

} // verus!
