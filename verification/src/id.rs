//! The source catalog query: the distinct sensor identifiers observed
//! across every sample, in descending order.

use vstd::prelude::*;

use crate::store::{appears, catalog_ok, QueryError, TimeSeriesStore};

verus! {

/// The catalog response: the distinct observed sensor identifiers,
/// descending.
pub struct IdRes {
    pub sensor_id: Vec<String>,
}

/// Answers a catalog query. A store that has never held a sample yields
/// an empty catalog: absence of data is a valid, empty outcome,
/// distinguished from a query failure; only a storage failure is an
/// error.
pub fn get_ids(store: &TimeSeriesStore) -> (r: Result<IdRes, QueryError>)
    ensures
        r matches Ok(ids) && catalog_ok(ids.sensor_id@, store@),
        r matches Ok(ids) && ((ids.sensor_id@.len() == 0) <==> (store@.len() == 0)),
{
    match store.distinct_sources() {
        Ok(Some(cat)) => {
            proof {
                assert(appears(cat@, store@[0].sensor_id@));
            }
            Ok(IdRes { sensor_id: cat })
        },
        Ok(None) => Ok(IdRes { sensor_id: Vec::new() }),
        Err(_) => Err(QueryError),
    }
}

} // verus!
