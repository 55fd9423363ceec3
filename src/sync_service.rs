//! The catchup coordinator: which interval a run covers, how it is split
//! among workers, and how the workers' outcomes are reported.

use vstd::prelude::*;

use crate::firebase_listener::{ErrorKind, FirebaseListenerErr};
use crate::partition::{partition, partition_spec};

verus! {

/// Failures of a synchronisation run.
#[derive(Debug, PartialEq)]
pub enum Error {
    ConnectError(String),
    FirebaseError(FirebaseListenerErr),
    StoreError(String),
}

impl Error {
    pub open spec fn spec_kind(&self) -> ErrorKind {
        match self {
            Error::ConnectError(_) => ErrorKind::Connect,
            Error::FirebaseError(e) => e.spec_kind(),
            Error::StoreError(_) => ErrorKind::Store,
        }
    }

    /// The failure as text; a failure of the remote source or of the store
    /// is described as that failure is.
    pub fn describe(&self) -> (r: String)
        ensures
            r@ == match self {
                Error::ConnectError(m) => "Connection error: "@ + m@,
                Error::FirebaseError(e) => match e {
                    FirebaseListenerErr::ConnectError(m) => "ConnectError: "@ + m@,
                    FirebaseListenerErr::ParseError(m) => "ParseError: "@ + m@,
                    FirebaseListenerErr::ChannelError(_) => "ChannelError: sending on a closed channel"@,
                },
                Error::StoreError(m) => m@,
            },
    {
        match self {
            Error::ConnectError(m) => String::from_str("Connection error: ").concat(m.as_str()),
            Error::FirebaseError(e) => e.describe(),
            Error::StoreError(m) => m.clone(),
        }
    }

    /// The kind of this failure.
    #[verifier::when_used_as_spec(spec_kind)]
    pub fn kind(&self) -> (k: ErrorKind)
        ensures
            k == self.spec_kind(),
    {
        match self {
            Error::ConnectError(_) => ErrorKind::Connect,
            Error::FirebaseError(e) => e.kind(),
            Error::StoreError(_) => ErrorKind::Store,
        }
    }
}

/// `x` brought into the range of `i64`.
pub open spec fn clamp_to_i64(x: int) -> i64 {
    if x > i64::MAX {
        i64::MAX
    } else if x < i64::MIN {
        i64::MIN
    } else {
        x as i64
    }
}

/// First id of a catchup run: the override if given, else the largest stored id.
pub open spec fn catchup_min(n_start: Option<i64>, max_stored: Option<i64>) -> Option<i64> {
    match n_start {
        Some(n) => Some(n),
        None => max_stored,
    }
}

/// Last id of a catchup run that starts at `min_id`: `n_additional` ids further
/// (bounded by the range of `i64`) if given, else the remote source's largest id.
pub open spec fn catchup_max(n_additional: Option<i64>, min_id: i64, max_remote: i64) -> i64 {
    match n_additional {
        Some(n) => clamp_to_i64(min_id + n),
        None => max_remote,
    }
}

/// Whether a catchup run with these overrides and lookup results covers a
/// non-empty interval, so that it has ids to share among workers.
pub open spec fn catchup_has_work(
    n_additional: Option<i64>,
    n_start: Option<i64>,
    max_stored: Result<Option<i64>, Error>,
    max_remote: Result<i64, Error>,
) -> bool {
    &&& max_remote is Ok
    &&& max_stored is Ok
    &&& catchup_min(n_start, max_stored->Ok_0) matches Some(min_id)
    &&& min_id < catchup_max(n_additional, min_id, max_remote->Ok_0)
}

/// Number of `Ok` outcomes.
pub open spec fn count_ok(outcomes: Seq<((i64, i64), Result<(), Error>)>) -> nat
    decreases outcomes.len(),
{
    if outcomes.len() == 0 {
        0
    } else {
        count_ok(outcomes.drop_last()) + if outcomes.last().1 is Ok {
            1nat
        } else {
            0nat
        }
    }
}

/// Outcome of a catchup run, range by range. A failed range never turns the
/// run into a failure; it is counted and reported beside the others.
#[derive(Debug)]
pub struct CatchupReport {
    pub outcomes: Vec<((i64, i64), Result<(), Error>)>,
    pub succeeded: usize,
    pub failed: usize,
}

impl CatchupReport {
    /// Tallies the outcome of each range.
    pub fn from_outcomes(outcomes: Vec<((i64, i64), Result<(), Error>)>) -> (report: CatchupReport)
        ensures
            report.outcomes@ == outcomes@,
            report.succeeded == count_ok(outcomes@),
            report.succeeded + report.failed == outcomes@.len(),
    {
        let mut succeeded: usize = 0;
        let mut k: usize = 0;
        while k < outcomes.len()
            invariant
                0 <= k <= outcomes.len(),
                succeeded == count_ok(outcomes@.take(k as int)),
                succeeded <= k,
            decreases outcomes.len() - k,
        {
            proof {
                assert(outcomes@.take(k + 1).drop_last() =~= outcomes@.take(k as int));
            }
            if outcomes[k].1.is_ok() {
                succeeded = succeeded + 1;
            }
            k = k + 1;
        }
        proof {
            assert(outcomes@.take(outcomes.len() as int) =~= outcomes@);
        }
        let failed = outcomes.len() - succeeded;
        CatchupReport { outcomes, succeeded, failed }
    }
}

/// Backfills the store from the remote source with a fixed number of
/// concurrent workers.
pub struct SyncService {
    pub firebase_url: String,
    pub num_workers: usize,
}

impl SyncService {
    pub fn new(firebase_url: String, num_workers: usize) -> (s: SyncService)
        ensures
            s.firebase_url == firebase_url,
            s.num_workers == num_workers,
    {
        SyncService { firebase_url, num_workers }
    }

    /// Splits `[min_id, max_id]` among the workers; see `partition`.
    pub fn divide_ranges(&self, min_id: i64, max_id: i64) -> (ranges: Vec<(i64, i64)>)
        requires
            self.num_workers > 0 || min_id >= max_id,
        ensures
            ranges@ == partition_spec(min_id, max_id, self.num_workers),
    {
        partition(min_id, max_id, self.num_workers)
    }

    /// Decides the ranges of a catchup run from the two lookups made before
    /// it: the largest stored id and the remote source's largest id.
    ///
    /// A failed lookup fails the run before any worker starts, the remote one
    /// first; so does an empty store when no start is given. Otherwise the run
    /// covers `[min_id, max_id]` with `min_id` the start override or the
    /// largest stored id, and `max_id` that plus `n_additional` or the remote
    /// largest id.
    pub fn plan_catchup(
        &self,
        n_additional: Option<i64>,
        n_start: Option<i64>,
        max_stored: Result<Option<i64>, Error>,
        max_remote: Result<i64, Error>,
    ) -> (r: Result<Vec<(i64, i64)>, Error>)
        requires
            self.num_workers > 0 || !catchup_has_work(
                n_additional,
                n_start,
                max_stored,
                max_remote,
            ),
        ensures
            max_remote is Err ==> r == Err::<Vec<(i64, i64)>, Error>(max_remote->Err_0),
            max_remote is Ok && max_stored is Err ==> r == Err::<Vec<(i64, i64)>, Error>(
                max_stored->Err_0,
            ),
            max_remote is Ok && max_stored is Ok ==> match catchup_min(
                n_start,
                max_stored->Ok_0,
            ) {
                None => r matches Err(Error::ConnectError(_)),
                Some(min_id) => r matches Ok(ranges) && ranges@ == partition_spec(
                    min_id,
                    catchup_max(n_additional, min_id, max_remote->Ok_0),
                    self.num_workers,
                ),
            },
    {
        let remote = match max_remote {
            Ok(m) => m,
            Err(e) => return Err(e),
        };
        let stored = match max_stored {
            Ok(m) => m,
            Err(e) => return Err(e),
        };
        let min_id = match n_start {
            Some(n) => n,
            None => match stored {
                Some(m) => m,
                None => {
                    return Err(
                        Error::ConnectError(String::from_str("no stored item to resume from")),
                    );
                },
            },
        };
        let max_id = match n_additional {
            Some(n) => {
                let sum: i128 = min_id as i128 + n as i128;
                if sum > i64::MAX as i128 {
                    i64::MAX
                } else if sum < i64::MIN as i128 {
                    i64::MIN
                } else {
                    sum as i64
                }
            },
            None => remote,
        };
        Ok(self.divide_ranges(min_id, max_id))
    }
}

} // verus!
