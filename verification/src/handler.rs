//! Handler decision logic: what each endpoint returns for every outcome
//! of the upstream fetch, and how each failure maps to a client-visible
//! status. The fetch itself happens outside this crate; the handlers
//! here take its outcome as a value and are verified for every value.

use vstd::prelude::*;

use crate::filter::FilterField;
use crate::filter::filter_countries;
use crate::filter::filtered;
use crate::model::Country;
use crate::model::Threshold;
use crate::query::QueryError;

verus! {

/// Why an upstream fetch failed. The cause is carried internally (for
/// logging); clients only ever see one fixed server-error status and an
/// opaque body, whatever the variant.
#[derive(Clone, Copy, Debug, PartialEq, Eq)]
pub enum FetchFailure {
    Transport,
    Decode,
    Timeout,
}

/// List-all endpoint: a successful fetch is answered with every record,
/// unchanged and in order; an upstream failure is passed along for the
/// boundary to render.
pub fn get_all_countries(fetched: Result<Vec<Country>, FetchFailure>) -> (r: Result<
    Vec<Country>,
    FetchFailure,
>)
    ensures
        r is Ok <==> fetched is Ok,
        fetched matches Ok(cs) ==> r matches Ok(out) && out@ == cs@,
        fetched matches Err(e) ==> r == Err::<Vec<Country>, FetchFailure>(e),
{
    match fetched {
        Ok(cs) => Ok(cs),
        Err(e) => Err(e),
    }
}

/// Deaths endpoint: a successful fetch is answered with exactly the
/// records whose deaths count lies strictly inside the caller's
/// threshold, in the original order; an upstream failure is passed
/// along.
pub fn get_country_deaths(fetched: Result<Vec<Country>, FetchFailure>, opts: &Threshold) -> (r:
    Result<Vec<Country>, FetchFailure>)
    ensures
        r is Ok <==> fetched is Ok,
        fetched matches Ok(cs) ==> r matches Ok(out) && out@ == filtered(
            cs@,
            FilterField::Deaths,
            *opts,
        ),
        fetched matches Err(e) ==> r == Err::<Vec<Country>, FetchFailure>(e),
{
    match fetched {
        Ok(cs) => Ok(filter_countries(&cs, FilterField::Deaths, opts)),
        Err(e) => Err(e),
    }
}

/// Recovered endpoint: as the deaths endpoint, filtering on the
/// recovered count.
pub fn get_country_recovered(fetched: Result<Vec<Country>, FetchFailure>, opts: &Threshold) -> (r:
    Result<Vec<Country>, FetchFailure>)
    ensures
        r is Ok <==> fetched is Ok,
        fetched matches Ok(cs) ==> r matches Ok(out) && out@ == filtered(
            cs@,
            FilterField::Recovered,
            *opts,
        ),
        fetched matches Err(e) ==> r == Err::<Vec<Country>, FetchFailure>(e),
{
    match fetched {
        Ok(cs) => Ok(filter_countries(&cs, FilterField::Recovered, opts)),
        Err(e) => Err(e),
    }
}

/// The status a client sees for any upstream failure: one fixed server
/// error, whatever the cause.
pub fn fetch_failure_status(_cause: &FetchFailure) -> (s: u16)
    ensures
        s == 500,
{
    500
}

/// The body a client sees for any upstream failure: fixed text, the
/// same for every cause, so no upstream detail leaks.
pub fn fetch_failure_body(_cause: &FetchFailure) -> (m: &'static str)
    ensures
        m@ == "upstream fetch failed"@,
{
    "upstream fetch failed"
}

/// The status a client sees for a malformed query parameter: a fixed
/// client error, distinct from the server error for upstream failures.
pub fn query_error_status(_cause: &QueryError) -> (s: u16)
    ensures
        s == 400,
{
    400
}

/// The body a client sees for a malformed query parameter.
pub fn query_error_body(_cause: &QueryError) -> (m: &'static str)
    ensures
        m@ == "invalid query parameter"@,
{
    "invalid query parameter"
}

} // verus!
