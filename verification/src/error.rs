//! The ways in which a request to the engine can fail.

use crate::db::StoreError;
use crate::schedule::ScheduleError;
use vstd::prelude::*;

verus! {

/// Why a request failed.
#[derive(Clone, Copy, Debug, PartialEq, Eq, Structural)]
pub enum AlertError {
    /// The store cannot take the write. Transient: try again later.
    StorageUnavailable,
    /// No row has the identifier that was named. Benign: someone else has
    /// dealt with it.
    NotFound,
    /// The symbol resolves to no asset. Nothing was stored.
    UnknownAsset,
    /// The cron expression yields no next fire time. Nothing was stored.
    InvalidSchedule,
    /// No current price is known for the asset.
    PriceUnavailable,
    /// A stored cron alert can no longer be scheduled. It was deactivated.
    SchedulingFault,
}

impl AlertError {
    /// The request error that stands for a store error.
    pub open spec fn of_store(e: StoreError) -> AlertError {
        match e {
            StoreError::StorageUnavailable => AlertError::StorageUnavailable,
            StoreError::NotFound => AlertError::NotFound,
        }
    }

    /// Turns a store error into a request error.
    pub fn from_store(e: StoreError) -> (r: AlertError)
        ensures
            r == AlertError::of_store(e),
    {
        match e {
            StoreError::StorageUnavailable => AlertError::StorageUnavailable,
            StoreError::NotFound => AlertError::NotFound,
        }
    }

    /// Turns a schedule error into a request error.
    pub fn from_schedule(e: ScheduleError) -> (r: AlertError)
        ensures
            r == AlertError::InvalidSchedule,
    {
        match e {
            ScheduleError::InvalidSchedule => AlertError::InvalidSchedule,
        }
    }
}

} // verus!
