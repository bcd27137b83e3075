//! Data carried through the gateway: one record per country, and the
//! optional numeric bounds that scope a filter query.

use vstd::prelude::*;

verus! {

/// Optional open-interval bounds for a filter query. Either bound may be
/// absent; when both are absent a filter keeps every record. No ordering
/// between `min` and `max` is enforced: an inverted interval simply
/// admits nothing.
#[derive(Clone, Copy, Debug, PartialEq, Eq)]
pub struct Threshold {
    pub min: Option<i32>,
    pub max: Option<i32>,
}

impl Threshold {
    /// A value lies inside the threshold when it is strictly above `min`
    /// (if present) and strictly below `max` (if present).
    pub open spec fn admits(self, v: int) -> bool {
        &&& (self.min matches Some(m) ==> v > m)
        &&& (self.max matches Some(x) ==> v < x)
    }

    /// Runtime test for `admits`.
    pub fn accepts(&self, v: i32) -> (b: bool)
        ensures
            b == self.admits(v as int),
    {
        let above = match self.min {
            Some(m) => v > m,
            None => true,
        };
        let below = match self.max {
            Some(x) => v < x,
            None => true,
        };
        above && below
    }
}

/// Query options accepted by the listing surface: an optional recovered
/// count and an optional deaths threshold.
#[derive(Clone, Copy, Debug, PartialEq, Eq)]
pub struct ListOptions {
    pub recovered: Option<i32>,
    pub deaths: Option<Threshold>,
}

/// Geographic metadata attached to a country record.
///
/// The coordinates come from upstream as binary floating-point numbers.
/// This crate never interprets them, so it carries each one verbatim as
/// its IEEE 754 bit pattern; the I/O layer converts at the boundary.
#[derive(Debug, PartialEq, Eq)]
pub struct CountryInfo {
    pub _id: Option<i32>,
    pub iso2: Option<String>,
    pub iso3: Option<String>,
    pub lat: u32,
    pub long: u32,
    pub flag: Option<String>,
}

/// One country's statistics. Integer counters are passed through verbatim
/// from upstream: nothing here assumes they are non-negative. The
/// per-capita rates are floating-point upstream and, like the coordinates
/// in [`CountryInfo`], are carried as IEEE 754 bit patterns.
#[derive(Debug, PartialEq, Eq)]
pub struct Country {
    pub country: String,
    pub country_info: CountryInfo,
    pub updated: i64,
    pub cases: i32,
    pub today_cases: i32,
    pub deaths: i32,
    pub today_deaths: i32,
    pub recovered: i32,
    pub active: i32,
    pub critical: i32,
    pub cases_per_one_million: Option<u32>,
    pub deaths_per_one_million: Option<u32>,
    pub tests: Option<i32>,
    pub tests_per_one_million: Option<i32>,
}

impl Clone for CountryInfo {
    /// A clone is equal to the original, field for field.
    fn clone(&self) -> (r: Self)
        ensures
            r == *self,
    {
        CountryInfo {
            _id: self._id,
            iso2: clone_opt_string(&self.iso2),
            iso3: clone_opt_string(&self.iso3),
            lat: self.lat,
            long: self.long,
            flag: clone_opt_string(&self.flag),
        }
    }
}

impl Clone for Country {
    /// A clone is equal to the original, field for field.
    fn clone(&self) -> (r: Self)
        ensures
            r == *self,
    {
        Country {
            country: self.country.clone(),
            country_info: self.country_info.clone(),
            updated: self.updated,
            cases: self.cases,
            today_cases: self.today_cases,
            deaths: self.deaths,
            today_deaths: self.today_deaths,
            recovered: self.recovered,
            active: self.active,
            critical: self.critical,
            cases_per_one_million: self.cases_per_one_million,
            deaths_per_one_million: self.deaths_per_one_million,
            tests: self.tests,
            tests_per_one_million: self.tests_per_one_million,
        }
    }
}

/// Clone an optional string; the copy is equal to the original.
fn clone_opt_string(s: &Option<String>) -> (r: Option<String>)
    ensures
        r == *s,
{
    match s {
        Some(inner) => Some(inner.clone()),
        None => None,
    }
}

} // verus!
