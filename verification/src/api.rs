//! Constants describing the jolpica-f1 API: its base URL and its pagination limits.

use vstd::prelude::*;

verus! {

/// Base URL of endpoints for the [jolpica-f1](https://github.com/jolpica/jolpica-f1) API
pub const JOLPICA_API_BASE_URL: &'static str = "https://api.jolpi.ca/ergast/f1";

/// Rate limits of an API: the number of requests allowed in a burst, per second, and the number
/// sustained over an hour.
#[derive(Clone, Copy, Debug)]
pub struct RateLimit {
    /// Number of requests allowed per second in a burst; never zero.
    pub burst_limit_per_sec: u32,
    /// Number of requests allowed per hour, sustained; never zero.
    pub sustained_limit_per_hour: u32,
}

/// The rate limit of the jolpica-f1 API: bursts of 4 requests per second, and 500 requests per
/// hour sustained.
pub fn jolpica_api_rate_limit() -> (r: RateLimit)
    ensures
        r.burst_limit_per_sec == 4,
        r.sustained_limit_per_hour == 500,
{
    RateLimit { burst_limit_per_sec: 4, sustained_limit_per_hour: 500 }
}

/// Pagination limits of an API.
#[derive(Clone, Copy, Debug)]
pub struct Pagination {
    /// Default limit for a page, i.e. the number of items per page.
    pub default_limit: u32,
    /// Default offset for a page, i.e. the number of items to skip before the first item.
    pub default_offset: u32,
    /// Maximum limit for a page; `Page` enforces it.
    pub max_limit: u32,
}

/// Default limit for a page of the jolpica-f1 API, i.e. the number of items per page.
pub const JOLPICA_API_DEFAULT_LIMIT: u32 = 30;

/// Default offset for a page of the jolpica-f1 API.
pub const JOLPICA_API_DEFAULT_OFFSET: u32 = 0;

/// Maximum limit for a page of the jolpica-f1 API.
pub const JOLPICA_API_MAX_LIMIT: u32 = 100;

/// The pagination limits of the jolpica-f1 API.
pub fn jolpica_api_pagination() -> (p: Pagination)
    ensures
        p.default_limit == JOLPICA_API_DEFAULT_LIMIT,
        p.default_offset == JOLPICA_API_DEFAULT_OFFSET,
        p.max_limit == JOLPICA_API_MAX_LIMIT,
{
    Pagination {
        default_limit: JOLPICA_API_DEFAULT_LIMIT,
        default_offset: JOLPICA_API_DEFAULT_OFFSET,
        max_limit: JOLPICA_API_MAX_LIMIT,
    }
}

/// This value, as a grid position, indicates that a driver started the event from the pit lane.
pub const GRID_PIT_LANE: u32 = 0;

} // verus!
